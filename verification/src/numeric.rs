//! Decimal numerals over character sequences: the spec-level value of a
//! digit string and verified executable parsing with an upper bound.

use vstd::prelude::*;

verus! {

/// A decimal digit character.
pub open spec fn spec_is_digit(c: char) -> bool {
    48 <= c as u32 <= 57
}

/// The numeric value of one digit character.
pub open spec fn spec_digit_val(c: char) -> int {
    c as u32 - 48
}

/// Every character of the sequence is a decimal digit.
pub open spec fn all_digits(s: Seq<char>) -> bool {
    forall|i: int| 0 <= i < s.len() ==> spec_is_digit(#[trigger] s[i])
}

/// A numeral: non-empty and made of digits only.
pub open spec fn is_numeral(s: Seq<char>) -> bool {
    s.len() > 0 && all_digits(s)
}

/// The value of a digit string read in base ten.
pub open spec fn spec_decimal(s: Seq<char>) -> int
    decreases s.len(),
{
    if s.len() == 0 {
        0
    } else {
        spec_decimal(s.drop_last()) * 10 + spec_digit_val(s.last())
    }
}

/// A digit string's value never decreases when digits are appended.
proof fn lemma_decimal_prefix_le(s: Seq<char>, n: int)
    requires
        all_digits(s),
        0 <= n <= s.len(),
    ensures
        0 <= spec_decimal(s.subrange(0, n)) <= spec_decimal(s),
    decreases s.len() - n,
{
    lemma_decimal_nonneg(s.subrange(0, n));
    if n < s.len() {
        lemma_decimal_prefix_le(s, n + 1);
        assert(s.subrange(0, n + 1).drop_last() =~= s.subrange(0, n));
        assert(spec_decimal(s.subrange(0, n + 1)) == spec_decimal(s.subrange(0, n)) * 10
            + spec_digit_val(s[n]));
        lemma_decimal_nonneg(s.subrange(0, n));
    } else {
        assert(s.subrange(0, n) =~= s);
    }
}

/// The value of a digit string is never negative.
proof fn lemma_decimal_nonneg(s: Seq<char>)
    requires
        all_digits(s),
    ensures
        spec_decimal(s) >= 0,
    decreases s.len(),
{
    if s.len() > 0 {
        assert(all_digits(s.drop_last()));
        lemma_decimal_nonneg(s.drop_last());
    }
}

/// True iff the characters of `v` in `[start, end)` form a numeral.
pub fn digits_only(v: &Vec<char>, start: usize, end: usize) -> (r: bool)
    requires
        start <= end <= v.len(),
    ensures
        r == is_numeral(v@.subrange(start as int, end as int)),
{
    if start == end {
        assert(!is_numeral(v@.subrange(start as int, end as int)));
        return false;
    }
    let ghost sub = v@.subrange(start as int, end as int);
    let mut i: usize = start;
    while i < end
        invariant
            start <= i <= end <= v.len(),
            sub == v@.subrange(start as int, end as int),
            forall|j: int| 0 <= j < i - start ==> spec_is_digit(#[trigger] sub[j]),
        decreases end - i,
    {
        let c = v[i];
        let u = c as u32;
        if u < 48 || u > 57 {
            assert(!spec_is_digit(sub[i - start]));
            return false;
        }
        assert(spec_is_digit(sub[i - start]));
        i += 1;
    }
    true
}

/// Parses the characters of `v` in `[start, end)` as a decimal numeral.
/// Returns its value exactly when the range is a numeral whose value is at
/// most `max`; returns `None` otherwise.
pub fn parse_decimal(v: &Vec<char>, start: usize, end: usize, max: u64) -> (r: Option<u64>)
    requires
        start <= end <= v.len(),
    ensures
        ({
            let s = v@.subrange(start as int, end as int);
            match r {
                Some(value) => is_numeral(s) && spec_decimal(s) <= max && value == spec_decimal(s),
                None => !(is_numeral(s) && spec_decimal(s) <= max),
            }
        }),
{
    let ghost s = v@.subrange(start as int, end as int);
    if start == end {
        return None;
    }
    let mut acc: u64 = 0;
    let mut i: usize = start;
    while i < end
        invariant
            start <= i <= end <= v.len(),
            s == v@.subrange(start as int, end as int),
            all_digits(s.subrange(0, i - start)),
            acc == spec_decimal(s.subrange(0, i - start)),
            acc <= max,
        decreases end - i,
    {
        let ghost prefix = s.subrange(0, i - start);
        let c = v[i];
        let u = c as u32;
        if u < 48 || u > 57 {
            assert(!spec_is_digit(s[i - start]));
            return None;
        }
        let d: u64 = (u - 48) as u64;
        let ghost longer = s.subrange(0, i + 1 - start);
        proof {
            assert(longer.drop_last() =~= prefix);
            assert(longer.last() == s[i - start]);
            assert(spec_decimal(longer) == acc * 10 + d);
            assert(all_digits(longer));
        }
        if acc > max / 10 {
            proof {
                if is_numeral(s) && spec_decimal(s) <= max {
                    lemma_decimal_prefix_le(s, i + 1 - start);
                    assert(acc * 10 > max) by (nonlinear_arith)
                        requires
                            acc > max / 10,
                            max >= 0,
                    {
                    }
                }
            }
            return None;
        }
        assert(acc * 10 <= max) by (nonlinear_arith)
            requires
                acc <= max / 10,
                max >= 0,
        {
        }
        let next: u64 = acc * 10;
        if d > max - next {
            proof {
                if is_numeral(s) && spec_decimal(s) <= max {
                    lemma_decimal_prefix_le(s, i + 1 - start);
                }
            }
            return None;
        }
        acc = next + d;
        i += 1;
    }
    assert(s.subrange(0, end - start) =~= s);
    Some(acc)
}

} // verus!
