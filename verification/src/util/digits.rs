//! Fixed-width decimal digit fields.
//!
//! Every numeric field of the format is a run of ASCII digits at a fixed
//! character offset.  `digits_val` is the mathematical value of such a run,
//! most significant digit first, and `parse_digits` is the verified decoder
//! for one run.

use vstd::prelude::*;

use crate::util::parse_error::ParseError;

verus! {

/// An ASCII decimal digit.
pub open spec fn is_digit(c: char) -> bool {
    48 <= c as int && c as int <= 57
}

/// The numeric value of one digit.
pub open spec fn digit_val(c: char) -> int {
    c as int - 48
}

/// The digit character for a value below ten.
pub open spec fn char_of_digit(d: int) -> char {
    ((48 + d) as u8) as char
}

/// Every character of `s` is a digit.
pub open spec fn all_digits(s: Seq<char>) -> bool {
    forall|i: int| 0 <= i < s.len() ==> is_digit(#[trigger] s[i])
}

/// The value of a run of digits, most significant first.
pub open spec fn digits_val(s: Seq<char>) -> int
    decreases s.len(),
{
    if s.len() == 0 {
        0
    } else {
        digits_val(s.drop_last()) * 10 + digit_val(s.last())
    }
}

/// Ten to the `n`th power.
pub open spec fn pow10(n: nat) -> nat
    decreases n,
{
    if n == 0 {
        1
    } else {
        10 * pow10((n - 1) as nat)
    }
}

/// A run of digits is non-negative and below ten to its length.
pub proof fn lemma_digits_val_bound(s: Seq<char>)
    requires
        all_digits(s),
    ensures
        0 <= digits_val(s) < pow10(s.len()),
    decreases s.len(),
{
    if s.len() > 0 {
        assert(all_digits(s.drop_last()));
        lemma_digits_val_bound(s.drop_last());
    }
}

/// Two adjacent ranges are all digits exactly when their union is.
pub proof fn lemma_all_digits_join(s: Seq<char>, a: int, b: int, c: int)
    requires
        0 <= a <= b <= c <= s.len(),
    ensures
        all_digits(s.subrange(a, c)) <==> all_digits(s.subrange(a, b)) && all_digits(
            s.subrange(b, c),
        ),
{
    let whole = s.subrange(a, c);
    let left = s.subrange(a, b);
    let right = s.subrange(b, c);
    if all_digits(left) && all_digits(right) {
        assert forall|i: int| 0 <= i < whole.len() implies is_digit(#[trigger] whole[i]) by {
            if i < b - a {
                assert(whole[i] == left[i]);
            } else {
                assert(whole[i] == right[i - (b - a)]);
            }
        }
    }
    if all_digits(whole) {
        assert forall|i: int| 0 <= i < left.len() implies is_digit(#[trigger] left[i]) by {
            assert(left[i] == whole[i]);
        }
        assert forall|i: int| 0 <= i < right.len() implies is_digit(#[trigger] right[i]) by {
            assert(right[i] == whole[i + (b - a)]);
        }
    }
}

/// Concrete bounds for the field widths the format uses.
pub proof fn lemma_digits_fit(s: Seq<char>)
    requires
        all_digits(s),
    ensures
        0 <= digits_val(s),
        s.len() == 2 ==> digits_val(s) <= 99,
        s.len() == 4 ==> digits_val(s) <= 9999,
        s.len() == 5 ==> digits_val(s) <= 99999,
{
    lemma_digits_val_bound(s);
    reveal_with_fuel(pow10, 6);
}

/// Decode the digit run of `line` from character `start` (inclusive) to
/// `end` (exclusive).  Succeeds exactly when every character in the range is
/// a decimal digit, and then returns the run's value.
pub fn parse_digits(line: &str, start: usize, end: usize) -> (r: Result<u32, ParseError>)
    requires
        start <= end <= line@.len(),
        end - start <= 8,
    ensures
        r is Ok <==> all_digits(line@.subrange(start as int, end as int)),
        r is Ok ==> r->Ok_0 == digits_val(line@.subrange(start as int, end as int)),
        r is Err ==> r->Err_0 == ParseError::MalformedNumericField,
{
    let mut val: u32 = 0;
    let mut i: usize = start;
    while i < end
        invariant
            start <= i <= end <= line@.len(),
            end - start <= 8,
            all_digits(line@.subrange(start as int, i as int)),
            val == digits_val(line@.subrange(start as int, i as int)),
            val < pow10((i - start) as nat),
        decreases end - i,
    {
        let c = line.get_char(i);
        let v = c as u32;
        if v < 48 || v > 57 {
            assert(!is_digit(line@.subrange(start as int, end as int)[i - start]));
            return Err(ParseError::MalformedNumericField);
        }
        proof {
            let prefix = line@.subrange(start as int, i as int);
            let next = line@.subrange(start as int, i + 1);
            assert(next.drop_last() =~= prefix);
            assert(next.last() == line@[i as int]);
            assert(pow10((i + 1 - start) as nat) == 10 * pow10((i - start) as nat));
            lemma_pow10_le_max((i + 1 - start) as nat);
        }
        val = val * 10 + (v - 48);
        i = i + 1;
    }
    proof {
        assert(line@.subrange(start as int, i as int) =~= line@.subrange(
            start as int,
            end as int,
        ));
    }
    Ok(val)
}

/// `pow10` grows with its exponent.
proof fn lemma_pow10_mono(m: nat, n: nat)
    requires
        m <= n,
    ensures
        pow10(m) <= pow10(n),
    decreases n,
{
    if m < n {
        lemma_pow10_mono(m, (n - 1) as nat);
    }
}

/// Ten to a power of at most eight fits comfortably in `u32`.
proof fn lemma_pow10_le_max(n: nat)
    requires
        n <= 8,
    ensures
        pow10(n) <= 100000000,
{
    lemma_pow10_mono(n, 8);
    reveal_with_fuel(pow10, 9);
}

} // verus!
