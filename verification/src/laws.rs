//! What holds of every scan, proved from the definitions in [`crate::lexis`].

use vstd::prelude::*;
use crate::lexis::{
    belongs, char_at, emitted, end_of_input, is_alpha, is_alpha_numeric, keyword,
    lemma_step_advances, line_at, newlines_before, operator, rejected, reports_from, reports_of,
    run_len, step, tokens_from, tokens_of, word_kind, Outcome, Run, Step,
};
use crate::token::{LiteralView, TokenType, TokenView};
use crate::utils::errors::ReportView;

verus! {

/// The lexemes of a sequence of tokens, one behind the other.
pub open spec fn joined(tokens: Seq<TokenView>) -> Seq<char>
    decreases tokens.len(),
{
    if tokens.len() == 0 {
        Seq::empty()
    } else {
        tokens[0].lexeme + joined(tokens.drop_first())
    }
}

#[via_fn]
proof fn significant_from_terminates(src: Seq<char>, pos: int) {
    if 0 <= pos < src.len() {
        lemma_step_advances(src, pos);
    }
}

/// The text from `pos` on without the pieces that give no token: whitespace,
/// comments and what is malformed.
pub open spec fn significant_from(src: Seq<char>, pos: int) -> Seq<char>
    decreases src.len() - pos,
    via significant_from_terminates
{
    if 0 <= pos < src.len() {
        let piece = if step(src, pos).outcome is Emit {
            src.subrange(pos, pos + step(src, pos).width)
        } else {
            Seq::empty()
        };
        piece + significant_from(src, pos + step(src, pos).width)
    } else {
        Seq::empty()
    }
}

/// Whether the token `t` stands at position `p` of the text: its lexeme is
/// the text from there on, and its line is the line of `p`.
pub open spec fn stands_at(src: Seq<char>, t: TokenView, p: int) -> bool {
    &&& 0 <= p
    &&& p + t.lexeme.len() <= src.len()
    &&& t.lexeme == src.subrange(p, p + t.lexeme.len())
    &&& t.line == line_at(src, p)
}

/// Whether the token `t` stands somewhere in the text at or behind `from`.
pub open spec fn stands_from(src: Seq<char>, t: TokenView, from: int) -> bool {
    exists|p: int| from <= p && #[trigger] stands_at(src, t, p)
}

/// Every scan ends with the end-of-input token, which has no lexeme and no
/// value; no other token of a scan is of that kind or without a lexeme.
pub proof fn lemma_scan_ends_with_eof(src: Seq<char>, pos: int)
    ensures
        tokens_from(src, pos).len() >= 1,
        tokens_from(src, pos).last() == end_of_input(src),
        tokens_from(src, pos).last().kind == TokenType::EOF,
        tokens_from(src, pos).last().lexeme.len() == 0,
        forall|i: int|
            0 <= i < tokens_from(src, pos).len() - 1 ==> {
                &&& (#[trigger] tokens_from(src, pos)[i]).kind != TokenType::EOF
                &&& tokens_from(src, pos)[i].lexeme.len() > 0
            },
    decreases src.len() - pos,
{
    if 0 <= pos < src.len() {
        lemma_step_advances(src, pos);
        let next = pos + step(src, pos).width;
        lemma_scan_ends_with_eof(src, next);
        let first = emitted(src, pos);
        let rest = tokens_from(src, next);
        assert(tokens_from(src, pos) == first + rest);
        assert forall|i: int| 0 <= i < tokens_from(src, pos).len() - 1 implies {
            &&& (#[trigger] tokens_from(src, pos)[i]).kind != TokenType::EOF
            &&& tokens_from(src, pos)[i].lexeme.len() > 0
        } by {
            if i < first.len() {
                lemma_kinds_of_step(src, pos);
            } else {
                assert(tokens_from(src, pos)[i] == rest[i - first.len()]);
            }
        }
    }
}

/// A step gives no end-of-input token.
pub proof fn lemma_kinds_of_step(src: Seq<char>, pos: int)
    requires
        0 <= pos < src.len(),
    ensures
        step(src, pos).outcome != Outcome::Emit(TokenType::EOF),
{
}

/// The lexemes of a scan, one behind the other, are the text without the
/// pieces that give no token.
pub proof fn lemma_lexemes_rebuild_text(src: Seq<char>, pos: int)
    ensures
        joined(tokens_from(src, pos)) == significant_from(src, pos),
    decreases src.len() - pos,
{
    if 0 <= pos < src.len() {
        lemma_step_advances(src, pos);
        let next = pos + step(src, pos).width;
        lemma_lexemes_rebuild_text(src, next);
        let rest = tokens_from(src, next);
        if step(src, pos).outcome is Emit {
            let all = emitted(src, pos) + rest;
            assert(all.drop_first() =~= rest);
            assert(all[0] == emitted(src, pos)[0]);
        } else {
            assert(emitted(src, pos) + rest =~= rest);
            assert(Seq::<char>::empty() + significant_from(src, next) =~= significant_from(
                src,
                next,
            ));
        }
    } else {
        let only = seq![end_of_input(src)];
        assert(only.drop_first() =~= Seq::<TokenView>::empty());
        assert(joined(only.drop_first()) =~= Seq::<char>::empty());
        assert(joined(only) =~= Seq::<char>::empty());
    }
}

/// Further on in the text the line is the same or a later one.
pub proof fn lemma_lines_grow(src: Seq<char>, p: int, q: int)
    requires
        p <= q,
    ensures
        newlines_before(src, p) <= newlines_before(src, q),
        line_at(src, p) <= line_at(src, q),
    decreases q - p,
{
    if p < q {
        lemma_lines_grow(src, p, q - 1);
    }
}

/// Every token of a scan stands somewhere in the text: its lexeme is a piece
/// of the text exactly as written, and its line is one more than the number of
/// newlines before that piece (up to the largest `u64`).
pub proof fn lemma_tokens_stand_in_text(src: Seq<char>, pos: int)
    requires
        0 <= pos <= src.len(),
    ensures
        forall|i: int|
            0 <= i < tokens_from(src, pos).len() ==> stands_from(
                src,
                #[trigger] tokens_from(src, pos)[i],
                pos,
            ),
    decreases src.len() - pos,
{
    if pos < src.len() {
        lemma_step_advances(src, pos);
        let next = pos + step(src, pos).width;
        lemma_tokens_stand_in_text(src, next);
        let first = emitted(src, pos);
        let rest = tokens_from(src, next);
        assert forall|i: int| 0 <= i < tokens_from(src, pos).len() implies stands_from(
            src,
            #[trigger] tokens_from(src, pos)[i],
            pos,
        ) by {
            if i < first.len() {
                assert(stands_at(src, tokens_from(src, pos)[i], pos));
            } else {
                let t = rest[i - first.len()];
                assert(tokens_from(src, pos)[i] == t);
                assert(stands_from(src, t, next));
                let p = choose|p: int| next <= p && #[trigger] stands_at(src, t, p);
                assert(stands_at(src, t, p));
            }
        }
    } else {
        let end = src.len() as int;
        assert(src.subrange(end, end) =~= Seq::<char>::empty());
        assert(stands_at(src, tokens_from(src, pos)[0], end));
    }
}

/// The lines of the tokens of a scan never decrease, and all lie between the
/// line on which the scan starts and the last line of the text.
pub proof fn lemma_lines_never_decrease(src: Seq<char>, pos: int)
    requires
        0 <= pos <= src.len(),
    ensures
        forall|i: int|
            0 <= i < tokens_from(src, pos).len() ==> line_at(src, pos) <= (
            #[trigger] tokens_from(src, pos)[i]).line <= line_at(src, src.len() as int),
        forall|i: int, j: int|
            0 <= i <= j < tokens_from(src, pos).len() ==> (#[trigger] tokens_from(
                src,
                pos,
            )[i]).line <= (#[trigger] tokens_from(src, pos)[j]).line,
    decreases src.len() - pos,
{
    let all = tokens_from(src, pos);
    if pos < src.len() {
        lemma_step_advances(src, pos);
        let next = pos + step(src, pos).width;
        lemma_lines_never_decrease(src, next);
        lemma_lines_grow(src, pos, next);
        lemma_lines_grow(src, pos, src.len() as int);
        let first = emitted(src, pos);
        let rest = tokens_from(src, next);
        assert(all == first + rest);
        assert forall|i: int| 0 <= i < all.len() implies line_at(src, pos) <= (#[trigger] all[i]).line
            <= line_at(src, src.len() as int) by {
            if i >= first.len() {
                assert(all[i] == rest[i - first.len()]);
            }
        }
        assert forall|i: int, j: int| 0 <= i <= j < all.len() implies (#[trigger] all[i]).line <= (
        #[trigger] all[j]).line by {
            if i >= first.len() {
                assert(all[i] == rest[i - first.len()]);
                assert(all[j] == rest[j - first.len()]);
            } else if j >= first.len() {
                assert(all[j] == rest[j - first.len()]);
            }
        }
    }
}

/// In a text shorter than the largest `u64` no line count is cut off: the
/// line of a position is one more than the number of newlines before it.
pub proof fn lemma_line_counts_newlines(src: Seq<char>, pos: int)
    requires
        0 <= pos <= src.len(),
        src.len() < u64::MAX,
    ensures
        newlines_before(src, pos) <= pos,
        line_at(src, pos) == 1 + newlines_before(src, pos),
    decreases pos,
{
    if pos > 0 {
        lemma_line_counts_newlines(src, pos - 1);
    }
}

/// `!`, `=`, `<` and `>` make one token of two characters with a `=` that
/// follows directly, and a token by themselves before anything else.
pub proof fn lemma_operators_take_their_equal_sign(src: Seq<char>, pos: int)
    requires
        0 <= pos < src.len(),
        src[pos] == '!' || src[pos] == '=' || src[pos] == '<' || src[pos] == '>',
    ensures
        char_at(src, pos + 1) == '=' ==> step(src, pos) == (Step {
            width: 2,
            outcome: Outcome::Emit(operator(src[pos], true)->0),
        }),
        char_at(src, pos + 1) != '=' ==> step(src, pos) == (Step {
            width: 1,
            outcome: Outcome::Emit(operator(src[pos], false)->0),
        }),
        operator('!', false) == Some(TokenType::Bang),
        operator('!', true) == Some(TokenType::BangEqual),
        operator('=', false) == Some(TokenType::Equal),
        operator('=', true) == Some(TokenType::EqualEqual),
        operator('<', false) == Some(TokenType::Less),
        operator('<', true) == Some(TokenType::LessEqual),
        operator('>', false) == Some(TokenType::Greater),
        operator('>', true) == Some(TokenType::GreaterEqual),
{
}

/// Each reserved word, spelled exactly, has its own kind.
pub proof fn lemma_keyword_spellings()
    ensures
        keyword("and"@) == Some(TokenType::And),
        keyword("class"@) == Some(TokenType::Class),
        keyword("else"@) == Some(TokenType::Else),
        keyword("false"@) == Some(TokenType::False),
        keyword("for"@) == Some(TokenType::For),
        keyword("fun"@) == Some(TokenType::Fun),
        keyword("if"@) == Some(TokenType::If),
        keyword("nil"@) == Some(TokenType::Nil),
        keyword("or"@) == Some(TokenType::Or),
        keyword("print"@) == Some(TokenType::Print),
        keyword("return"@) == Some(TokenType::Return),
        keyword("super"@) == Some(TokenType::Super),
        keyword("this"@) == Some(TokenType::This),
        keyword("true"@) == Some(TokenType::True),
        keyword("var"@) == Some(TokenType::Var),
        keyword("while"@) == Some(TokenType::While),
{
    reveal_strlit("and");
    reveal_strlit("class");
    reveal_strlit("else");
    reveal_strlit("false");
    reveal_strlit("for");
    reveal_strlit("fun");
    reveal_strlit("if");
    reveal_strlit("nil");
    reveal_strlit("or");
    reveal_strlit("print");
    reveal_strlit("return");
    reveal_strlit("super");
    reveal_strlit("this");
    reveal_strlit("true");
    reveal_strlit("var");
    reveal_strlit("while");
    assert("and"@.len() == 3 && "and"@[0] == 'a' && "and"@[1] == 'n');
    assert("class"@.len() == 5 && "class"@[0] == 'c' && "class"@[1] == 'l');
    assert("else"@.len() == 4 && "else"@[0] == 'e' && "else"@[1] == 'l');
    assert("false"@.len() == 5 && "false"@[0] == 'f' && "false"@[1] == 'a');
    assert("for"@.len() == 3 && "for"@[0] == 'f' && "for"@[1] == 'o');
    assert("fun"@.len() == 3 && "fun"@[0] == 'f' && "fun"@[1] == 'u');
    assert("if"@.len() == 2 && "if"@[0] == 'i' && "if"@[1] == 'f');
    assert("nil"@.len() == 3 && "nil"@[0] == 'n' && "nil"@[1] == 'i');
    assert("or"@.len() == 2 && "or"@[0] == 'o' && "or"@[1] == 'r');
    assert("print"@.len() == 5 && "print"@[0] == 'p' && "print"@[1] == 'r');
    assert("return"@.len() == 6 && "return"@[0] == 'r' && "return"@[1] == 'e');
    assert("super"@.len() == 5 && "super"@[0] == 's' && "super"@[1] == 'u');
    assert("this"@.len() == 4 && "this"@[0] == 't' && "this"@[1] == 'h');
    assert("true"@.len() == 4 && "true"@[0] == 't' && "true"@[1] == 'r');
    assert("var"@.len() == 3 && "var"@[0] == 'v' && "var"@[1] == 'a');
    assert("while"@.len() == 5 && "while"@[0] == 'w' && "while"@[1] == 'h');
}

/// A run that nothing ends goes on to the end of the text.
pub proof fn lemma_run_to_the_end(src: Seq<char>, pos: int, run: Run)
    requires
        0 <= pos <= src.len(),
        forall|i: int| pos <= i < src.len() ==> belongs(run, #[trigger] src[i]),
    ensures
        run_len(src, pos, run) == src.len() - pos,
    decreases src.len() - pos,
{
    if pos < src.len() {
        lemma_run_to_the_end(src, pos + 1, run);
    }
}

/// A text without a newline lies on line 1.
pub proof fn lemma_one_line(src: Seq<char>, pos: int)
    requires
        0 <= pos <= src.len(),
        forall|i: int| 0 <= i < src.len() ==> #[trigger] src[i] != '\n',
    ensures
        line_at(src, pos) == 1,
    decreases pos,
{
    if pos > 0 {
        lemma_one_line(src, pos - 1);
    }
}

/// A text in the shape of a word, a letter or underscore and then letters,
/// digits and underscores, scans as one token: of the keyword's kind where the
/// word is a keyword, an identifier where it is not. Nothing is reported.
pub proof fn lemma_word_is_one_token(word: Seq<char>)
    requires
        word.len() > 0,
        is_alpha(word[0]),
        forall|i: int| 0 <= i < word.len() ==> is_alpha_numeric(#[trigger] word[i]),
    ensures
        tokens_of(word) == seq![
            TokenView {
                kind: word_kind(word),
                lexeme: word,
                line: 1,
                literal: LiteralView::Absent,
            },
            TokenView {
                kind: TokenType::EOF,
                lexeme: Seq::empty(),
                line: 1,
                literal: LiteralView::Absent,
            },
        ],
        reports_of(word) == Seq::<ReportView>::empty(),
{
    let end = word.len() as int;
    assert forall|i: int| 1 <= i < word.len() implies belongs(Run::Word, #[trigger] word[i]) by {
        assert(is_alpha_numeric(word[i]));
    }
    lemma_run_to_the_end(word, 1, Run::Word);
    assert forall|i: int| 0 <= i < word.len() implies #[trigger] word[i] != '\n' by {
        assert(is_alpha_numeric(word[i]));
    }
    lemma_one_line(word, 0);
    lemma_one_line(word, end);
    assert(word.subrange(0, end) =~= word);
    assert(step(word, 0).width == end);
    assert(step(word, 0).outcome == Outcome::Emit(word_kind(word)));
    assert(tokens_from(word, end) == seq![end_of_input(word)]);
    assert(reports_from(word, end) == Seq::<ReportView>::empty());
    assert(tokens_of(word) =~= emitted(word, 0) + tokens_from(word, end));
    assert(reports_of(word) =~= rejected(word, 0) + reports_from(word, end));
}

} // verus!
