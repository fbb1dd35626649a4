//! The range of number literals.

use vstd::prelude::*;
use vstd::string::StrSliceExecFns;
use crate::chars::measure_run;
use crate::lexis::{double_limit, fits_double, is_digit, precedes, whole_digits, Run};

verus! {

/// Whether a 64-bit float can stand for a numeral. It compares the whole part,
/// without its leading zeros, with the limit: first by length, then digit by
/// digit.
pub fn fits_double_text(numeral: &str) -> (fits: bool)
    ensures
        fits == fits_double(numeral@),
{
    let limit = "179769313486231580793728971405303415079934132710037826936173778980444968292764750946649017977587207096330286416692887910946555547851940402630657488671505820681908902000708383676273854845817711531764475730270069855571366959622842914819860834936475292719074168444365510704342711559699508093042880177904174497792";
    let bound = limit.unicode_len();
    let len = numeral.unicode_len();
    let zeros = measure_run(numeral, 0, Run::Zeros);
    proof {
        crate::lexis::lemma_run_is_maximal(numeral@, 0, Run::Zeros);
        crate::lexis::lemma_run_is_maximal(numeral@, zeros as int, Run::Digits);
    }
    let count = measure_run(numeral, zeros, Run::Digits);
    let ghost whole = whole_digits(numeral@);
    assert(whole.len() == count);
    if count != bound {
        return count < bound;
    }
    let mut i: usize = 0;
    while i < bound
        invariant
            i <= bound,
            bound == count,
            bound == limit@.len(),
            limit@ == double_limit(),
            zeros + count <= len,
            len == numeral@.len(),
            whole == whole_digits(numeral@),
            whole == numeral@.subrange(zeros as int, zeros + count),
            whole.len() == count,
            precedes(whole, double_limit(), 0) == precedes(whole, double_limit(), i as int),
        decreases bound - i,
    {
        let a = numeral.get_char(zeros + i);
        let b = limit.get_char(i);
        assert(a == whole[i as int]);
        if a != b {
            return a < b;
        }
        i = i + 1;
    }
    false
}

/// Whether a text is made of digits only.
pub open spec fn all_digits(text: Seq<char>) -> bool {
    forall|i: int| 0 <= i < text.len() ==> is_digit(#[trigger] text[i])
}

/// The number that a digit stands for.
pub open spec fn digit_value(c: char) -> int {
    c as int - '0' as int
}

/// The number that a string of digits writes in decimal.
pub open spec fn digits_value(digits: Seq<char>) -> int
    decreases digits.len(),
{
    if digits.len() == 0 {
        0
    } else {
        digits_value(digits.drop_last()) * 10 + digit_value(digits.last())
    }
}

/// Ten to the power of `n`.
pub open spec fn pow10(n: nat) -> int
    decreases n,
{
    if n == 0 {
        1
    } else {
        10 * pow10((n - 1) as nat)
    }
}

/// A greater exponent gives no smaller power.
pub proof fn lemma_pow10_grows(n: nat, m: nat)
    requires
        n <= m,
    ensures
        1 <= pow10(n) <= pow10(m),
    decreases m,
{
    if n < m {
        lemma_pow10_grows(n, (m - 1) as nat);
    } else if n > 0 {
        lemma_pow10_grows((n - 1) as nat, (m - 1) as nat);
    }
}

/// A string of `n` digits writes a number below ten to the `n`, and one that
/// does not begin with zero writes at least ten to the `n - 1`.
pub proof fn lemma_value_bounds(digits: Seq<char>)
    requires
        all_digits(digits),
    ensures
        0 <= digits_value(digits) < pow10(digits.len()),
        digits.len() > 0 && digits[0] != '0' ==> pow10((digits.len() - 1) as nat) <= digits_value(
            digits,
        ),
    decreases digits.len(),
{
    if digits.len() > 0 {
        let front = digits.drop_last();
        assert(all_digits(front)) by {
            assert forall|i: int| 0 <= i < front.len() implies is_digit(#[trigger] front[i]) by {
                assert(front[i] == digits[i]);
            }
        }
        lemma_value_bounds(front);
        assert(is_digit(digits.last()));
        if digits.len() > 1 {
            assert(front[0] == digits[0]);
        }
    }
}

/// Where `precedes` decides: before the last character, or on it.
proof fn lemma_precedes_without_last(a: Seq<char>, b: Seq<char>, from: int)
    requires
        a.len() == b.len(),
        0 <= from < a.len(),
    ensures
        precedes(a, b, from) <==> precedes(a.drop_last(), b.drop_last(), from) || ((forall|k: int|
            from <= k < a.len() - 1 ==> a[k] == b[k]) && a.last() < b.last()),
    decreases a.len() - from,
{
    let n = a.len() as int;
    assert(a.drop_last().len() == n - 1);
    assert(b.drop_last().len() == n - 1);
    if from < n - 1 {
        assert(a.drop_last()[from] == a[from]);
        assert(b.drop_last()[from] == b[from]);
        if a[from] == b[from] {
            lemma_precedes_without_last(a, b, from + 1);
        }
    } else {
        assert(!precedes(a, b, from + 1));
    }
}

/// Of two strings of digits of one length, the one that comes first where
/// they first differ writes the smaller number, and equal numbers are written
/// alike.
pub proof fn lemma_order_of_equal_lengths(a: Seq<char>, b: Seq<char>)
    requires
        a.len() == b.len(),
        all_digits(a),
        all_digits(b),
    ensures
        precedes(a, b, 0) <==> digits_value(a) < digits_value(b),
        a == b <==> digits_value(a) == digits_value(b),
    decreases a.len(),
{
    if a.len() == 0 {
        assert(a =~= b);
    } else {
        let front_a = a.drop_last();
        let front_b = b.drop_last();
        assert(all_digits(front_a)) by {
            assert forall|i: int| 0 <= i < front_a.len() implies is_digit(
                #[trigger] front_a[i],
            ) by {
                assert(front_a[i] == a[i]);
            }
        }
        assert(all_digits(front_b)) by {
            assert forall|i: int| 0 <= i < front_b.len() implies is_digit(
                #[trigger] front_b[i],
            ) by {
                assert(front_b[i] == b[i]);
            }
        }
        lemma_order_of_equal_lengths(front_a, front_b);
        lemma_precedes_without_last(a, b, 0);
        assert(is_digit(a.last()) && is_digit(b.last()));
        let same_front = forall|k: int| 0 <= k < a.len() - 1 ==> a[k] == b[k];
        if front_a == front_b {
            assert(same_front) by {
                assert forall|k: int| 0 <= k < a.len() - 1 implies a[k] == b[k] by {
                    assert(front_a[k] == a[k]);
                    assert(front_b[k] == b[k]);
                }
            }
            if a.last() == b.last() {
                assert(a =~= b);
            }
        } else {
            if same_front {
                assert(front_a =~= front_b);
            }
        }
    }
}

/// Of two strings of digits without leading zeros, the shorter writes the
/// smaller number, and of two of one length the one that comes first where
/// they first differ. This is the comparison that [`fits_double`] makes with
/// the limit.
pub proof fn lemma_order_of_numerals(a: Seq<char>, b: Seq<char>)
    requires
        all_digits(a),
        all_digits(b),
        a.len() > 0 ==> a[0] != '0',
        b.len() > 0 ==> b[0] != '0',
    ensures
        (a.len() < b.len() || (a.len() == b.len() && precedes(a, b, 0))) <==> digits_value(a)
            < digits_value(b),
{
    lemma_value_bounds(a);
    lemma_value_bounds(b);
    if a.len() < b.len() {
        lemma_pow10_grows(a.len(), (b.len() - 1) as nat);
    } else if a.len() > b.len() {
        lemma_pow10_grows(b.len(), (a.len() - 1) as nat);
    } else {
        lemma_order_of_equal_lengths(a, b);
    }
}

/// The whole part that [`fits_double`] compares is a string of digits without
/// a leading zero.
pub proof fn lemma_whole_digits_are_a_numeral(numeral: Seq<char>)
    ensures
        all_digits(whole_digits(numeral)),
        whole_digits(numeral).len() > 0 ==> whole_digits(numeral)[0] != '0',
{
    let zeros = crate::lexis::run_len(numeral, 0, Run::Zeros) as int;
    crate::lexis::lemma_run_is_maximal(numeral, 0, Run::Zeros);
    crate::lexis::lemma_run_is_maximal(numeral, zeros, Run::Digits);
}

/// The limit is a string of digits without a leading zero.
pub proof fn lemma_limit_is_a_numeral()
    ensures
        all_digits(double_limit()),
        double_limit().len() > 0,
        double_limit()[0] != '0',
{
    reveal_strlit("179769313486231580793728971405303415079934132710037826936173778980444968292764750946649017977587207096330286416692887910946555547851940402630657488671505820681908902000708383676273854845817711531764475730270069855571366959622842914819860834936475292719074168444365510704342711559699508093042880177904174497792");
}

/// A numeral fits exactly if the number that its whole part writes is below
/// the number that the limit writes.
pub proof fn lemma_fits_double_is_below_limit(numeral: Seq<char>)
    ensures
        fits_double(numeral) <==> digits_value(whole_digits(numeral)) < digits_value(
            double_limit(),
        ),
{
    lemma_limit_is_a_numeral();
    lemma_whole_digits_are_a_numeral(numeral);
    lemma_order_of_numerals(whole_digits(numeral), double_limit());
}

} // verus!
