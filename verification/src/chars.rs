//! Classification of characters, ASCII only, and comparison of texts.

use vstd::prelude::*;
use vstd::string::StrSliceExecFns;
use crate::lexis;
use crate::lexis::Run;

verus! {

pub fn is_digit(c: char) -> (b: bool)
    ensures
        b == lexis::is_digit(c),
{
    '0' <= c && c <= '9'
}

pub fn is_alpha(c: char) -> (b: bool)
    ensures
        b == lexis::is_alpha(c),
{
    ('A' <= c && c <= 'Z') || ('a' <= c && c <= 'z') || c == '_'
}

pub fn is_alpha_numeric(c: char) -> (b: bool)
    ensures
        b == lexis::is_alpha_numeric(c),
{
    is_alpha(c) || is_digit(c)
}

/// Whether `c` continues a run of the given kind.
pub fn belongs(run: Run, c: char) -> (b: bool)
    ensures
        b == lexis::belongs(run, c),
{
    match run {
        Run::Zeros => c == '0',
        Run::Digits => is_digit(c),
        Run::Word => is_alpha_numeric(c),
        Run::Comment => c != '\n',
        Run::Quoted => c != '"',
    }
}

/// The length of the longest run of the given kind that starts at `from`.
pub fn measure_run(text: &str, from: usize, run: Run) -> (n: usize)
    requires
        from <= text@.len(),
    ensures
        n == lexis::run_len(text@, from as int, run),
{
    let len = text.unicode_len();
    let mut end: usize = from;
    while end < len && belongs(run, text.get_char(end))
        invariant
            from <= end <= len,
            len == text@.len(),
            (end - from) + lexis::run_len(text@, end as int, run) == lexis::run_len(
                text@,
                from as int,
                run,
            ),
        decreases len - end,
    {
        end = end + 1;
    }
    end - from
}

/// Whether two texts are the same, character for character.
pub fn same_text(a: &str, b: &str) -> (same: bool)
    ensures
        same == (a@ == b@),
{
    let len = a.unicode_len();
    if b.unicode_len() != len {
        return false;
    }
    let mut i: usize = 0;
    while i < len
        invariant
            i <= len,
            len == a@.len(),
            len == b@.len(),
            forall|k: int| 0 <= k < i ==> a@[k] == b@[k],
        decreases len - i,
    {
        if a.get_char(i) != b.get_char(i) {
            return false;
        }
        i = i + 1;
    }
    assert(a@ =~= b@);
    true
}

} // verus!
