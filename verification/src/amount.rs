//! Fixed-point amount parsing: a decimal string becomes an integer count of
//! currency subunits (1/10,000 of the display unit), by integer arithmetic
//! alone. Fraction digits past the fourth are truncated toward zero.

use vstd::prelude::*;
use vstd::string::StrSliceExecFns;

verus! {

/// The number of subunits in one display unit: four decimal digits.
pub const SUBUNIT_SCALE: u64 = 10000;

pub open spec fn is_digit(c: char) -> bool {
    48 <= c as u32 && c as u32 <= 57
}

pub open spec fn digit_val(c: char) -> int {
    c as u32 - 48
}

pub open spec fn all_digits(s: Seq<char>) -> bool {
    forall|i: int| 0 <= i < s.len() ==> is_digit(#[trigger] s[i])
}

/// The value of a string of decimal digits, most significant first.
pub open spec fn digits_val(s: Seq<char>) -> int
    decreases s.len(),
{
    if s.len() == 0 {
        0
    } else {
        digits_val(s.drop_last()) * 10 + digit_val(s.last())
    }
}

pub open spec fn pow10(n: nat) -> int
    decreases n,
{
    if n == 0 {
        1
    } else {
        10 * pow10((n - 1) as nat)
    }
}

/// The position of the first decimal point, if any.
pub open spec fn first_dot(s: Seq<char>) -> Option<int>
    decreases s.len(),
{
    if s.len() == 0 {
        None
    } else if s[0] == '.' {
        Some(0int)
    } else {
        match first_dot(s.drop_first()) {
            Some(i) => Some(i + 1),
            None => None,
        }
    }
}

/// A well-formed amount: decimal digits with at most one decimal point, at
/// least one character beside a lone point.
pub open spec fn valid_amount(s: Seq<char>) -> bool {
    match first_dot(s) {
        None => s.len() > 0 && all_digits(s),
        Some(i) => s.len() >= 2 && all_digits(s.take(i)) && all_digits(s.skip(i + 1)),
    }
}

/// The subunit value of a fraction part: the first four digits, padded with
/// zeros when fewer are given; digits past the fourth are truncated.
pub open spec fn frac_subunits(f: Seq<char>) -> int {
    if f.len() >= 4 {
        digits_val(f.take(4))
    } else {
        digits_val(f) * pow10((4 - f.len()) as nat)
    }
}

/// The subunit value of a well-formed amount string.
pub open spec fn amount_subunits(s: Seq<char>) -> int {
    match first_dot(s) {
        None => digits_val(s) * (SUBUNIT_SCALE as int),
        Some(i) => digits_val(s.take(i)) * (SUBUNIT_SCALE as int) + frac_subunits(s.skip(i + 1)),
    }
}

/// What `to_subunit` returns: the subunit value when the string is a
/// well-formed amount that fits in 64 bits, and nothing otherwise.
pub open spec fn spec_to_subunit(s: Seq<char>) -> Option<u64> {
    if valid_amount(s) && amount_subunits(s) <= u64::MAX {
        Some(amount_subunits(s) as u64)
    } else {
        None
    }
}

pub proof fn lemma_digits_val_nonneg(s: Seq<char>)
    requires
        all_digits(s),
    ensures
        digits_val(s) >= 0,
    decreases s.len(),
{
    if s.len() > 0 {
        lemma_digits_val_nonneg(s.drop_last());
    }
}

pub proof fn lemma_pow10_pos(n: nat)
    ensures
        pow10(n) >= 1,
    decreases n,
{
    if n > 0 {
        lemma_pow10_pos((n - 1) as nat);
    }
}

/// Extending a digit string to the right never shrinks its value.
pub proof fn lemma_digits_val_prefix_le(s: Seq<char>, i: int)
    requires
        all_digits(s),
        0 <= i <= s.len(),
    ensures
        digits_val(s.take(i)) <= digits_val(s),
    decreases s.len() - i,
{
    if i == s.len() {
        assert(s.take(i) =~= s);
    } else {
        lemma_digits_val_prefix_le(s, i + 1);
        assert(s.take(i + 1).drop_last() =~= s.take(i));
        lemma_digits_val_nonneg(s.take(i));
        assert(digits_val(s.take(i + 1)) == digits_val(s.take(i)) * 10 + digit_val(s[i]));
    }
}

/// Where the first dot sits: nowhere when every character is a digit.
pub proof fn lemma_first_dot_all_digits(s: Seq<char>)
    requires
        all_digits(s),
    ensures
        first_dot(s) is None,
    decreases s.len(),
{
    if s.len() > 0 {
        assert(is_digit(s[0]));
        assert(all_digits(s.drop_first()));
        lemma_first_dot_all_digits(s.drop_first());
    }
}

/// A dot preceded by digits alone is the first dot.
pub proof fn lemma_first_dot_at(s: Seq<char>, i: int)
    requires
        0 <= i < s.len(),
        s[i] == '.',
        all_digits(s.take(i)),
    ensures
        first_dot(s) == Some(i),
    decreases i,
{
    if i == 0 {
    } else {
        assert(is_digit(s.take(i)[0]));
        assert(s.drop_first()[i - 1] == s[i]);
        assert(s.drop_first().take(i - 1) =~= s.take(i).drop_first());
        assert(all_digits(s.take(i).drop_first()));
        lemma_first_dot_at(s.drop_first(), i - 1);
    }
}

/// The first dot really is a dot, and nothing before it is one.
pub proof fn lemma_first_dot_is_first(s: Seq<char>)
    ensures
        match first_dot(s) {
            None => forall|k: int| 0 <= k < s.len() ==> s[k] != '.',
            Some(i) => 0 <= i < s.len() && s[i] == '.' && forall|k: int|
                0 <= k < i ==> s[k] != '.',
        },
    decreases s.len(),
{
    if s.len() > 0 && s[0] != '.' {
        lemma_first_dot_is_first(s.drop_first());
        assert forall|k: int| 1 <= k < s.len() implies s[k] == s.drop_first()[k - 1] by {}
    }
}

/// The subunit value of an all-digit fraction part is never negative.
pub proof fn lemma_frac_subunits_nonneg(f: Seq<char>)
    requires
        all_digits(f),
    ensures
        frac_subunits(f) >= 0,
{
    if f.len() >= 4 {
        lemma_digits_val_nonneg(f.take(4));
    } else {
        lemma_digits_val_nonneg(f);
        lemma_pow10_pos((4 - f.len()) as nat);
        assert(digits_val(f) * pow10((4 - f.len()) as nat) >= 0) by (nonlinear_arith)
            requires
                digits_val(f) >= 0,
                pow10((4 - f.len()) as nat) >= 1,
        ;
    }
}

/// If some prefix of the digits before any dot already exceeds the 64-bit
/// range, the whole string has no subunit value.
proof fn lemma_int_prefix_overflow(s: Seq<char>, m: int)
    requires
        0 < m <= s.len(),
        all_digits(s.take(m)),
        digits_val(s.take(m)) > u64::MAX,
    ensures
        spec_to_subunit(s) is None,
{
    if valid_amount(s) {
        lemma_first_dot_is_first(s);
        match first_dot(s) {
            None => {
                lemma_digits_val_prefix_le(s, m);
                assert(s.take(m) =~= s.take(s.len() as int).take(m));
                assert(s.take(s.len() as int) =~= s);
                lemma_digits_val_nonneg(s);
                assert(digits_val(s) * (SUBUNIT_SCALE as int) >= digits_val(s));
            },
            Some(j) => {
                // every character before the dot that the prefix covers is a
                // digit, so the dot lies at or past the prefix end
                if j < m {
                    assert(is_digit(s.take(m)[j]));
                }
                assert(m <= j);
                assert(s.take(j).take(m) =~= s.take(m));
                lemma_digits_val_prefix_le(s.take(j), m);
                lemma_digits_val_nonneg(s.take(j));
                lemma_frac_subunits_nonneg(s.skip(j + 1));
                assert(digits_val(s.take(j)) * (SUBUNIT_SCALE as int) >= digits_val(s.take(j)));
            },
        }
    }
}

/// Ten to a small power, for scaling short fraction parts.
fn pow10_u64(e: usize) -> (r: u64)
    requires
        e <= 4,
    ensures
        r == pow10(e as nat),
{
    proof {
        reveal_with_fuel(pow10, 5);
    }
    if e == 0 {
        1
    } else if e == 1 {
        10
    } else if e == 2 {
        100
    } else if e == 3 {
        1000
    } else {
        10000
    }
}

/// Parse a decimal amount string into currency subunits, scaling by 10,000
/// with integer arithmetic and truncating toward zero past the fourth
/// fraction digit. Yields nothing when the string is not a well-formed
/// amount or its value does not fit in 64 bits.
pub fn to_subunit(amount_unit: &str) -> (r: Option<u64>)
    ensures
        r == spec_to_subunit(amount_unit@),
{
    let ghost s = amount_unit@;
    let n = amount_unit.unicode_len();
    let mut i: usize = 0;
    let mut int_acc: u64 = 0;
    let mut stop = false;
    while i < n && !stop
        invariant
            s == amount_unit@,
            n == s.len(),
            0 <= i <= n,
            all_digits(s.take(i as int)),
            int_acc == digits_val(s.take(i as int)),
            stop ==> i < n && s[i as int] == '.',
        decreases n - i, (if stop { 0int } else { 1int }),
    {
        let c = amount_unit.get_char(i);
        if c == '.' {
            stop = true;
        } else {
            let cv = c as u32;
            if 48 <= cv && cv <= 57 {
                let d = (cv - 48) as u64;
                let next = match int_acc.checked_mul(10) {
                    Some(x) => x.checked_add(d),
                    None => None,
                };
                match next {
                    Some(v) => {
                        int_acc = v;
                    },
                    None => {
                        proof {
                            assert(s.take(i + 1).drop_last() =~= s.take(i as int));
                            assert(s.take(i + 1).last() == s[i as int]);
                            lemma_digits_val_nonneg(s.take(i as int));
                            assert(digits_val(s.take(i + 1)) > u64::MAX);
                            lemma_int_prefix_overflow(s, i + 1);
                        }
                        return None;
                    },
                }
                proof {
                    assert(s.take(i + 1).drop_last() =~= s.take(i as int));
                }
                i = i + 1;
            } else {
                // a character that is neither a digit nor the dot: malformed
                proof {
                    lemma_first_dot_is_first(s);
                    if valid_amount(s) {
                        match first_dot(s) {
                            None => {
                                assert(is_digit(s[i as int]));
                            },
                            Some(j) => {
                                if i < j {
                                    assert(is_digit(s.take(j)[i as int]));
                                } else if j < i {
                                    assert(is_digit(s.take(i as int)[j]));
                                }
                            },
                        }
                        assert(false);
                    }
                }
                return None;
            }
        }
    }
    if !stop {
        // the whole string is the integer part
        if n == 0 {
            return None;
        }
        proof {
            assert(s.take(n as int) =~= s);
            lemma_first_dot_all_digits(s);
        }
        match int_acc.checked_mul(SUBUNIT_SCALE) {
            Some(v) => {
                return Some(v);
            },
            None => {
                return None;
            },
        }
    }
    // a dot at position i splits integer part from fraction part
    let dot = i;
    if n < 2 {
        proof {
            lemma_first_dot_at(s, dot as int);
        }
        return None;
    }
    let mut j = dot + 1;
    let mut frac_acc: u64 = 0;
    let mut cnt: usize = 0;
    while j < n
        invariant
            s == amount_unit@,
            n == s.len(),
            dot < n,
            s[dot as int] == '.',
            all_digits(s.take(dot as int)),
            int_acc == digits_val(s.take(dot as int)),
            dot + 1 <= j <= n,
            all_digits(s.subrange(dot + 1, j as int)),
            cnt == (if j - (dot + 1) <= 4 {
                j - (dot + 1)
            } else {
                4int
            }),
            frac_acc == digits_val(s.subrange(dot + 1, dot + 1 + cnt)),
            frac_acc < pow10(cnt as nat),
        decreases n - j,
    {
        let c = amount_unit.get_char(j);
        let cv = c as u32;
        if 48 <= cv && cv <= 57 {
            if cnt < 4 {
                proof {
                    reveal_with_fuel(pow10, 5);
                    assert(cnt == 0 || cnt == 1 || cnt == 2 || cnt == 3);
                    assert(s.subrange(dot + 1, dot + 1 + (cnt + 1)).drop_last() =~= s.subrange(
                        dot + 1,
                        dot + 1 + cnt,
                    ));
                }
                frac_acc = frac_acc * 10 + (cv - 48) as u64;
                cnt = cnt + 1;
            }
            proof {
                assert(s.subrange(dot + 1, j + 1).drop_last() =~= s.subrange(dot + 1, j as int));
            }
            j = j + 1;
        } else {
            // the fraction part holds something besides digits: malformed
            proof {
                lemma_first_dot_at(s, dot as int);
                if valid_amount(s) {
                    assert(is_digit(s.skip(dot + 1)[j - (dot + 1)]));
                }
            }
            return None;
        }
    }
    proof {
        lemma_first_dot_at(s, dot as int);
        assert(s.subrange(dot + 1, n as int) =~= s.skip(dot + 1));
    }
    let frac_total: u64;
    if cnt == 4 && n - (dot + 1) >= 4 {
        proof {
            assert(s.skip(dot + 1).take(4) =~= s.subrange(dot + 1, dot + 1 + 4));
        }
        frac_total = frac_acc;
    } else {
        // fewer than four fraction digits: pad with zeros
        let p = pow10_u64(4 - cnt);
        proof {
            reveal_with_fuel(pow10, 5);
            assert(pow10(0nat) == 1);
            assert(pow10(1nat) == 10);
            assert(pow10(2nat) == 100);
            assert(pow10(3nat) == 1000);
            assert(pow10(4nat) == 10000);
            assert(cnt == 0 || cnt == 1 || cnt == 2 || cnt == 3 || cnt == 4);
            assert(pow10(cnt as nat) * pow10((4 - cnt) as nat) == 10000);
            assert(frac_acc * pow10((4 - cnt) as nat) < 10000) by (nonlinear_arith)
                requires
                    0 <= frac_acc,
                    frac_acc < pow10(cnt as nat),
                    0 <= cnt <= 4,
                    pow10(cnt as nat) * pow10((4 - cnt) as nat) == 10000,
            ;
        }
        frac_total = frac_acc * p;
    }
    proof {
        assert(frac_total == frac_subunits(s.skip(dot + 1)));
        lemma_digits_val_nonneg(s.take(dot as int));
        lemma_frac_subunits_nonneg(s.skip(dot + 1));
    }
    let scaled = match int_acc.checked_mul(SUBUNIT_SCALE) {
        Some(x) => x.checked_add(frac_total),
        None => None,
    };
    match scaled {
        Some(v) => Some(v),
        None => None,
    }
}

} // verus!
