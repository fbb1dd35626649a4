use rjlox::scanner::Scanner;
use rjlox::token::{Literal, Token, TokenType};
use rjlox::utils::errors::{ErrorSink, Report};

fn scan(source: &str) -> (Vec<Token>, ErrorSink) {
    let mut scanner = Scanner::new(source.to_string());
    let tokens = scanner.scan_tokens().clone();
    (tokens, scanner.errors().clone())
}

fn kinds(tokens: &[Token]) -> Vec<TokenType> {
    tokens.iter().map(|t| t.token_type).collect()
}

fn plain(kind: TokenType, lexeme: &str, line: u64) -> Token {
    Token { lexeme: lexeme.to_string(), line, literal: Literal::Absent, token_type: kind }
}

fn number(lexeme: &str, line: u64) -> Token {
    Token {
        lexeme: lexeme.to_string(),
        line,
        literal: Literal::Number(lexeme.to_string()),
        token_type: TokenType::Number,
    }
}

fn eof(line: u64) -> Token {
    plain(TokenType::EOF, "", line)
}

fn unexpected(line: u64) -> Report {
    Report { line, location: String::new(), message: "Unexpected character.".to_string() }
}

#[test]
fn empty_source_gives_only_the_end_token() {
    let (tokens, errors) = scan("");
    assert_eq!(tokens, vec![eof(1)]);
    assert!(!errors.had_error);
    assert!(errors.reports.is_empty());
}

#[test]
fn last_token_is_always_the_end_token() {
    for source in ["", "a", "1 + 2", "\"open", "@@@", "// only a comment", "x\n\n"] {
        let (tokens, _) = scan(source);
        let last = tokens.last().unwrap();
        assert_eq!(last.token_type, TokenType::EOF);
        assert_eq!(last.lexeme, "");
        assert_eq!(last.literal, Literal::Absent);
    }
}

#[test]
fn single_character_tokens() {
    let (tokens, errors) = scan("(){},.-+;*/");
    assert_eq!(
        tokens,
        vec![
            plain(TokenType::LeftParen, "(", 1),
            plain(TokenType::RightParen, ")", 1),
            plain(TokenType::LeftBrace, "{", 1),
            plain(TokenType::RightBrace, "}", 1),
            plain(TokenType::Comma, ",", 1),
            plain(TokenType::Dot, ".", 1),
            plain(TokenType::Minus, "-", 1),
            plain(TokenType::Plus, "+", 1),
            plain(TokenType::Semicolon, ";", 1),
            plain(TokenType::Star, "*", 1),
            plain(TokenType::Slash, "/", 1),
            eof(1),
        ]
    );
    assert!(!errors.had_error);
}

#[test]
fn two_character_operators_are_one_token() {
    let (tokens, _) = scan("!= == <= >=");
    assert_eq!(
        tokens,
        vec![
            plain(TokenType::BangEqual, "!=", 1),
            plain(TokenType::EqualEqual, "==", 1),
            plain(TokenType::LessEqual, "<=", 1),
            plain(TokenType::GreaterEqual, ">=", 1),
            eof(1),
        ]
    );
}

#[test]
fn one_character_operators_alone() {
    let (tokens, _) = scan("! = < >");
    assert_eq!(
        tokens,
        vec![
            plain(TokenType::Bang, "!", 1),
            plain(TokenType::Equal, "=", 1),
            plain(TokenType::Less, "<", 1),
            plain(TokenType::Greater, ">", 1),
            eof(1),
        ]
    );
    let (tokens, _) = scan("!a");
    assert_eq!(kinds(&tokens), vec![TokenType::Bang, TokenType::Identifier, TokenType::EOF]);
    let (tokens, _) = scan("<");
    assert_eq!(tokens, vec![plain(TokenType::Less, "<", 1), eof(1)]);
}

#[test]
fn operators_take_the_longest_match_from_the_left() {
    let (tokens, _) = scan("===");
    assert_eq!(
        tokens,
        vec![plain(TokenType::EqualEqual, "==", 1), plain(TokenType::Equal, "=", 1), eof(1)]
    );
    let (tokens, _) = scan("!==");
    assert_eq!(kinds(&tokens), vec![TokenType::BangEqual, TokenType::Equal, TokenType::EOF]);
}

#[test]
fn comment_gives_no_token_and_leaves_the_newline() {
    let (tokens, errors) = scan("// comment text\n1");
    assert_eq!(tokens, vec![number("1", 2), eof(2)]);
    assert!(!errors.had_error);
}

#[test]
fn comment_at_end_of_input() {
    let (tokens, _) = scan("a // b");
    assert_eq!(tokens, vec![plain(TokenType::Identifier, "a", 1), eof(1)]);
    let (tokens, _) = scan("//");
    assert_eq!(tokens, vec![eof(1)]);
}

#[test]
fn slash_alone_is_a_token() {
    let (tokens, _) = scan("a / b");
    assert_eq!(
        kinds(&tokens),
        vec![TokenType::Identifier, TokenType::Slash, TokenType::Identifier, TokenType::EOF]
    );
}

#[test]
fn whitespace_gives_no_token() {
    let (tokens, errors) = scan(" \r\t \n \t");
    assert_eq!(tokens, vec![eof(2)]);
    assert!(errors.reports.is_empty());
}

#[test]
fn string_may_span_lines() {
    let (tokens, errors) = scan("\"a\nb\"");
    assert_eq!(
        tokens,
        vec![
            Token {
                lexeme: "\"a\nb\"".to_string(),
                line: 1,
                literal: Literal::String("a\nb".to_string()),
                token_type: TokenType::String,
            },
            eof(2),
        ]
    );
    assert!(!errors.had_error);
}

#[test]
fn empty_string_literal() {
    let (tokens, _) = scan("\"\"");
    assert_eq!(
        tokens,
        vec![
            Token {
                lexeme: "\"\"".to_string(),
                line: 1,
                literal: Literal::String(String::new()),
                token_type: TokenType::String,
            },
            eof(1),
        ]
    );
}

#[test]
fn string_keeps_non_ascii_text() {
    let (tokens, _) = scan("\"héllo ✓\" x");
    assert_eq!(tokens[0].literal, Literal::String("héllo ✓".to_string()));
    assert_eq!(tokens[0].lexeme, "\"héllo ✓\"");
    assert_eq!(tokens[1], plain(TokenType::Identifier, "x", 1));
}

#[test]
fn unterminated_string_is_reported() {
    let (tokens, errors) = scan("a\n\"bc\nd");
    assert_eq!(tokens, vec![plain(TokenType::Identifier, "a", 1), eof(3)]);
    assert!(errors.had_error);
    assert_eq!(
        errors.reports,
        vec![Report {
            line: 2,
            location: String::new(),
            message: "Unterminated string.".to_string(),
        }]
    );
}

#[test]
fn number_with_fraction() {
    let (tokens, _) = scan("123.45");
    assert_eq!(tokens, vec![number("123.45", 1), eof(1)]);
    match &tokens[0].literal {
        Literal::Number(numeral) => assert_eq!(numeral.parse::<f64>().unwrap(), 123.45),
        other => panic!("not a number: {:?}", other),
    }
}

#[test]
fn trailing_dot_is_not_part_of_the_number() {
    let (tokens, _) = scan("123.");
    assert_eq!(tokens, vec![number("123", 1), plain(TokenType::Dot, ".", 1), eof(1)]);
}

#[test]
fn leading_dot_is_not_part_of_the_number() {
    let (tokens, _) = scan(".5");
    assert_eq!(tokens, vec![plain(TokenType::Dot, ".", 1), number("5", 1), eof(1)]);
}

#[test]
fn number_takes_one_fraction_only() {
    let (tokens, _) = scan("1.2.3");
    assert_eq!(
        tokens,
        vec![number("1.2", 1), plain(TokenType::Dot, ".", 1), number("3", 1), eof(1)]
    );
}

#[test]
fn number_followed_by_letters() {
    let (tokens, _) = scan("12ab");
    assert_eq!(tokens, vec![number("12", 1), plain(TokenType::Identifier, "ab", 1), eof(1)]);
}

#[test]
fn keywords_have_their_own_kinds() {
    let source = "and class else false for fun if nil or print return super this true var while";
    let (tokens, _) = scan(source);
    assert_eq!(
        kinds(&tokens),
        vec![
            TokenType::And,
            TokenType::Class,
            TokenType::Else,
            TokenType::False,
            TokenType::For,
            TokenType::Fun,
            TokenType::If,
            TokenType::Nil,
            TokenType::Or,
            TokenType::Print,
            TokenType::Return,
            TokenType::Super,
            TokenType::This,
            TokenType::True,
            TokenType::Var,
            TokenType::While,
            TokenType::EOF,
        ]
    );
    let words: Vec<&str> = source.split(' ').collect();
    for (token, word) in tokens.iter().zip(words) {
        assert_eq!(token.lexeme, word);
        assert_eq!(token.literal, Literal::Absent);
    }
}

#[test]
fn other_words_are_identifiers() {
    for word in ["classic", "clas", "Class", "AND", "_", "_if", "if_", "var1", "x", "nil0"] {
        let (tokens, _) = scan(word);
        assert_eq!(tokens, vec![plain(TokenType::Identifier, word, 1), eof(1)]);
    }
}

#[test]
fn unexpected_character_is_reported_and_skipped() {
    let (tokens, errors) = scan("a\n@ b");
    assert_eq!(
        tokens,
        vec![plain(TokenType::Identifier, "a", 1), plain(TokenType::Identifier, "b", 2), eof(2)]
    );
    assert!(errors.had_error);
    assert_eq!(errors.reports, vec![unexpected(2)]);
}

#[test]
fn every_unexpected_character_is_reported() {
    let (tokens, errors) = scan("#\n$é\n1");
    assert_eq!(tokens, vec![number("1", 3), eof(3)]);
    assert_eq!(errors.reports, vec![unexpected(1), unexpected(2), unexpected(2)]);
}

#[test]
fn lines_count_newlines_before_the_token() {
    let source = "a\nb\n\n  c // x\n\"s\nt\" d\n";
    let (tokens, _) = scan(source);
    let lines: Vec<u64> = tokens.iter().map(|t| t.line).collect();
    assert_eq!(lines, vec![1, 2, 4, 5, 6, 7]);
    for pair in lines.windows(2) {
        assert!(pair[0] <= pair[1]);
    }
}

#[test]
fn lexemes_rebuild_the_significant_text() {
    let source = "var x = 1.5; // set\nprint(x >= 2) @ \"s t\"";
    let (tokens, _) = scan(source);
    let joined: String = tokens.iter().map(|t| t.lexeme.as_str()).collect();
    assert_eq!(joined, "varx=1.5;print(x>=2)\"s t\"");
}

#[test]
fn a_small_program() {
    let (tokens, errors) = scan("fun add(a, b) {\n  return a + b;\n}");
    assert_eq!(
        tokens,
        vec![
            plain(TokenType::Fun, "fun", 1),
            plain(TokenType::Identifier, "add", 1),
            plain(TokenType::LeftParen, "(", 1),
            plain(TokenType::Identifier, "a", 1),
            plain(TokenType::Comma, ",", 1),
            plain(TokenType::Identifier, "b", 1),
            plain(TokenType::RightParen, ")", 1),
            plain(TokenType::LeftBrace, "{", 1),
            plain(TokenType::Return, "return", 2),
            plain(TokenType::Identifier, "a", 2),
            plain(TokenType::Plus, "+", 2),
            plain(TokenType::Identifier, "b", 2),
            plain(TokenType::Semicolon, ";", 2),
            plain(TokenType::RightBrace, "}", 3),
            eof(3),
        ]
    );
    assert!(!errors.had_error);
}

#[test]
fn scanning_again_adds_only_the_end_token() {
    let mut scanner = Scanner::new("a".to_string());
    assert_eq!(scanner.scan_tokens().len(), 2);
    let again = scanner.scan_tokens().clone();
    assert_eq!(again, vec![plain(TokenType::Identifier, "a", 1), eof(1), eof(1)]);
    assert_eq!(scanner.tokens(), &again);
}
