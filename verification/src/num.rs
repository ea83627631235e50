//! Numbers as the upstream feed writes them: unsigned integers and
//! fixed-point decimals. Prices and turnover are held in milli-units
//! (thousandths), so a quote of `133.000` is the integer `133000`; percent
//! change is held in hundredths of a percent.

use vstd::prelude::*;

verus! {

pub open spec fn is_digit(c: char) -> bool {
    48 <= c as u32 <= 57
}

pub open spec fn digit_val(c: char) -> int {
    c as u32 - 48
}

pub open spec fn all_digits(s: Seq<char>) -> bool {
    forall|k: int| 0 <= k < s.len() ==> is_digit(#[trigger] s[k])
}

/// The value of a digit string read in base ten; an empty string reads as 0.
pub open spec fn digits_val(s: Seq<char>) -> int
    decreases s.len(),
{
    if s.len() == 0 {
        0
    } else {
        digits_val(s.drop_last()) * 10 + digit_val(s.last())
    }
}

pub proof fn lemma_digits_val_nonneg(s: Seq<char>)
    requires
        all_digits(s),
    ensures
        digits_val(s) >= 0,
    decreases s.len(),
{
    if s.len() > 0 {
        assert(all_digits(s.drop_last()));
        lemma_digits_val_nonneg(s.drop_last());
    }
}

/// Reading one more digit multiplies the prefix value by ten and adds it.
pub proof fn lemma_digits_val_take_succ(s: Seq<char>, i: int)
    requires
        0 <= i < s.len(),
    ensures
        digits_val(s.take(i + 1)) == digits_val(s.take(i)) * 10 + digit_val(s[i]),
{
    assert(s.take(i + 1).drop_last() =~= s.take(i));
    assert(s.take(i + 1).last() == s[i]);
}

/// A digit string is worth at least any of its prefixes.
pub proof fn lemma_digits_val_prefix_le(s: Seq<char>, i: int)
    requires
        all_digits(s),
        0 <= i <= s.len(),
    ensures
        digits_val(s.take(i)) <= digits_val(s),
    decreases s.len() - i,
{
    if i == s.len() {
        assert(s.take(i) =~= s);
    } else {
        lemma_digits_val_take_succ(s, i);
        assert(all_digits(s.take(i))) by {
            assert(forall|k: int| 0 <= k < i ==> is_digit(#[trigger] s.take(i)[k]));
        }
        lemma_digits_val_nonneg(s.take(i));
        lemma_digits_val_prefix_le(s, i + 1);
    }
}

/// What an unsigned base-ten integer string is worth: `None` when it is
/// empty, holds a non-digit, or does not fit in a `u64`.
pub open spec fn spec_parse_u64(s: Seq<char>) -> Option<int> {
    if s.len() > 0 && all_digits(s) && digits_val(s) <= u64::MAX {
        Some(digits_val(s))
    } else {
        None
    }
}

/// Read an unsigned base-ten integer.
pub fn parse_u64_str(s: &str) -> (r: Option<u64>)
    ensures
        r is Some <==> spec_parse_u64(s@) is Some,
        r matches Some(v) ==> Some(v as int) == spec_parse_u64(s@),
{
    let n = s.unicode_len();
    if n == 0 {
        return None;
    }
    let mut acc: u64 = 0;
    let mut i: usize = 0;
    proof {
        assert(s@.take(0) =~= Seq::<char>::empty());
    }
    while i < n
        invariant
            i <= n,
            n == s@.len(),
            all_digits(s@.take(i as int)),
            acc == digits_val(s@.take(i as int)),
        decreases n - i,
    {
        let c = s.get_char(i);
        let cv = c as u32;
        if cv < 48 || cv > 57 {
            return None;
        }
        let d = (cv - 48) as u64;
        proof {
            lemma_digits_val_take_succ(s@, i as int);
            assert(forall|k: int|
                0 <= k < i + 1 ==> is_digit(#[trigger] s@.take(i + 1)[k]));
        }
        let stepped = match acc.checked_mul(10) {
            Some(t) => t.checked_add(d),
            None => None,
        };
        match stepped {
            Some(next) => {
                acc = next;
            },
            None => {
                proof {
                    if all_digits(s@) {
                        lemma_digits_val_prefix_le(s@, i + 1);
                    }
                }
                return None;
            },
        }
        i += 1;
    }
    proof {
        assert(s@.take(n as int) =~= s@);
    }
    Some(acc)
}

pub open spec fn pow10(k: nat) -> int
    decreases k,
{
    if k == 0 {
        1
    } else {
        10 * pow10((k - 1) as nat)
    }
}

/// Milli-value of the digits behind the decimal point: the first three
/// fraction digits, padded on the right with zeros.
pub open spec fn frac_milli(f: Seq<char>) -> int {
    if f.len() >= 3 {
        digits_val(f.take(3))
    } else {
        digits_val(f) * pow10((3 - f.len()) as nat)
    }
}

/// Shape of an unsigned decimal number: digits, optionally a single point
/// with digits on at least one side.
pub open spec fn decimal_shape(s: Seq<char>) -> bool {
    let dot = crate::text::first_index(s, '.');
    if dot < 0 {
        s.len() > 0 && all_digits(s)
    } else {
        s.len() > 1 && all_digits(s.take(dot)) && all_digits(s.skip(dot + 1))
    }
}

/// Milli-value of an unsigned decimal string of valid shape.
pub open spec fn unsigned_milli(s: Seq<char>) -> int {
    let dot = crate::text::first_index(s, '.');
    if dot < 0 {
        digits_val(s) * 1000
    } else {
        digits_val(s.take(dot)) * 1000 + frac_milli(s.skip(dot + 1))
    }
}

/// What a decimal string is worth in milli-units: `None` when the shape is
/// wrong or the magnitude does not fit the fixed-point range.
pub open spec fn spec_parse_milli(s: Seq<char>) -> Option<int> {
    if s.len() > 0 && s[0] == '-' {
        let t = s.skip(1);
        if decimal_shape(t) && unsigned_milli(t) <= i64::MAX {
            Some(-unsigned_milli(t))
        } else {
            None
        }
    } else {
        if decimal_shape(s) && unsigned_milli(s) <= i64::MAX {
            Some(unsigned_milli(s))
        } else {
            None
        }
    }
}

pub proof fn lemma_pow10_pos(k: nat)
    ensures
        pow10(k) >= 1,
    decreases k,
{
    if k > 0 {
        lemma_pow10_pos((k - 1) as nat);
    }
}

/// A string of `n` digits is worth less than ten to the `n`.
pub proof fn lemma_digits_val_upper(s: Seq<char>)
    requires
        all_digits(s),
    ensures
        digits_val(s) < pow10(s.len()),
    decreases s.len(),
{
    if s.len() > 0 {
        assert(all_digits(s.drop_last()));
        lemma_digits_val_upper(s.drop_last());
        lemma_digits_val_nonneg(s.drop_last());
        assert(digits_val(s.drop_last()) <= pow10((s.len() - 1) as nat) - 1);
        assert(digits_val(s.drop_last()) * 10 <= (pow10((s.len() - 1) as nat) - 1) * 10)
            by (nonlinear_arith)
            requires
                digits_val(s.drop_last()) <= pow10((s.len() - 1) as nat) - 1,
        ;
    }
}

pub proof fn lemma_frac_milli_range(f: Seq<char>)
    requires
        all_digits(f),
    ensures
        0 <= frac_milli(f) < 1000,
{
    reveal_with_fuel(pow10, 4);
    if f.len() >= 3 {
        assert(all_digits(f.take(3)));
        lemma_digits_val_nonneg(f.take(3));
        lemma_digits_val_upper(f.take(3));
    } else {
        lemma_digits_val_nonneg(f);
        lemma_digits_val_upper(f);
        let p = pow10((3 - f.len()) as nat);
        lemma_pow10_pos((3 - f.len()) as nat);
        assert(digits_val(f) * p >= 0 && digits_val(f) * p <= (pow10(f.len()) - 1) * p)
            by (nonlinear_arith)
            requires
                0 <= digits_val(f) <= pow10(f.len()) - 1,
                p >= 1,
        ;
        assert(pow10(0nat) == 1);
        assert(pow10(1nat) == 10);
        assert(pow10(2nat) == 100);
        assert(pow10(3nat) == 1000);
        assert(pow10(f.len()) * p == 1000) by {
            if f.len() == 0 {
                assert(pow10(f.len()) == 1 && p == 1000);
            } else if f.len() == 1 {
                assert(pow10(f.len()) == 10 && p == 100);
            } else {
                assert(pow10(f.len()) == 100 && p == 10);
            }
        }
        assert((pow10(f.len()) - 1) * p == pow10(f.len()) * p - p) by (nonlinear_arith);
    }
}

/// Read the digits of `s` from `from` to `to`, stopping with `None` on a
/// non-digit or when the value passes `i64::MAX`.
fn scan_digits_capped(s: &str, from: usize, to: usize) -> (r: Option<u64>)
    requires
        from <= to <= s@.len(),
        s@.len() <= usize::MAX,
    ensures
        r matches Some(v) ==> all_digits(s@.subrange(from as int, to as int)) && v == digits_val(
            s@.subrange(from as int, to as int),
        ) && v <= i64::MAX,
        r is None ==> !all_digits(s@.subrange(from as int, to as int)) || digits_val(
            s@.subrange(from as int, to as int),
        ) > i64::MAX,
{
    let ghost part = s@.subrange(from as int, to as int);
    let mut acc: u64 = 0;
    let mut i: usize = from;
    proof {
        assert(part.take(0) =~= Seq::<char>::empty());
    }
    while i < to
        invariant
            from <= i <= to <= s@.len(),
            part == s@.subrange(from as int, to as int),
            all_digits(part.take(i - from)),
            acc == digits_val(part.take(i - from)),
            acc <= i64::MAX,
        decreases to - i,
    {
        let c = s.get_char(i);
        let cv = c as u32;
        proof {
            assert(part[i - from] == s@[i as int]);
        }
        if cv < 48 || cv > 57 {
            proof {
                assert(!is_digit(part[i - from]));
            }
            return None;
        }
        let d = (cv - 48) as u64;
        proof {
            lemma_digits_val_take_succ(part, i - from);
            assert(forall|k: int|
                0 <= k < i - from + 1 ==> is_digit(#[trigger] part.take(i - from + 1)[k]));
        }
        let next = match acc.checked_mul(10) {
            Some(t) => t.checked_add(d),
            None => None,
        };
        match next {
            Some(v) => {
                if v > 9223372036854775807u64 {
                    proof {
                        if all_digits(part) {
                            lemma_digits_val_prefix_le(part, i - from + 1);
                        }
                    }
                    return None;
                }
                acc = v;
            },
            None => {
                proof {
                    if all_digits(part) {
                        lemma_digits_val_prefix_le(part, i - from + 1);
                    }
                }
                return None;
            },
        }
        i += 1;
    }
    proof {
        assert(part.take(to - from) =~= part);
    }
    Some(acc)
}

/// Read the milli-value of an unsigned decimal string.
fn parse_milli_unsigned(t: &str) -> (r: Option<i64>)
    ensures
        r is Some <==> decimal_shape(t@) && unsigned_milli(t@) <= i64::MAX,
        r matches Some(v) ==> v == unsigned_milli(t@) && v >= 0,
{
    let n = t.unicode_len();
    let dot = match crate::text::find_first(t, '.') {
        Some(j) => j,
        None => n,
    };
    proof {
        if dot == n {
            assert(crate::text::first_index(t@, '.') == -1);
        }
    }

    if dot == n {
        // A plain integer: its milli-value is the value times one thousand.
        if n == 0 {
            return None;
        }
        match scan_digits_capped(t, 0, n) {
            Some(v) => {
                proof {
                    assert(t@.subrange(0, n as int) =~= t@);
                    lemma_digits_val_nonneg(t@);
                }
                let w = (v as u128) * 1000;
                if w > 9223372036854775807u128 {
                    None
                } else {
                    Some(w as i64)
                }
            },
            None => {
                proof {
                    assert(t@.subrange(0, n as int) =~= t@);
                    if all_digits(t@) {
                        lemma_digits_val_nonneg(t@);
                    }
                }
                None
            },
        }
    } else {
        if n == 1 {
            // The string is a lone point.
            return None;
        }
        let ghost ipart = t@.take(dot as int);
        let ghost fpart = t@.skip(dot + 1);
        let ip = match scan_digits_capped(t, 0, dot) {
            Some(v) => v,
            None => {
                proof {
                    assert(t@.subrange(0, dot as int) =~= ipart);
                    if all_digits(ipart) {
                        lemma_digits_val_nonneg(ipart);
                        if all_digits(fpart) {
                            lemma_frac_milli_range(fpart);
                            lemma_digits_val_nonneg(ipart);
                            assert(digits_val(ipart) * 1000 >= digits_val(ipart))
                                by (nonlinear_arith)
                                requires
                                    digits_val(ipart) >= 0,
                            ;
                        }
                    }
                }
                return None;
            },
        };
        proof {
            assert(t@.subrange(0, dot as int) =~= ipart);
        }

        // Fraction digits: the first three carry milli-weight, the rest only
        // have to be digits.
        let flen = n - dot - 1;
        let mut fm: u64 = 0;
        let mut k: usize = 0;
        proof {
            assert(fpart.take(0) =~= Seq::<char>::empty());
        }
        while k < flen
            invariant
                k <= flen,
                n == t@.len(),
                dot < n,
                crate::text::first_index(t@, '.') == dot as int,
                flen == n - dot - 1,
                fpart == t@.skip(dot + 1),
                all_digits(fpart.take(k as int)),
                fm == digits_val(fpart.take(if k < 3 { k as int } else { 3 })),
                fm < 1000,
            decreases flen - k,
        {
            let c = t.get_char(dot + 1 + k);
            let cv = c as u32;
            proof {
                assert(fpart[k as int] == t@[dot + 1 + k]);
            }
            if cv < 48 || cv > 57 {
                proof {
                    assert(!is_digit(fpart[k as int]));
                    assert(!decimal_shape(t@));
                }
                return None;
            }
            proof {
                assert(forall|m: int|
                    0 <= m < k + 1 ==> is_digit(#[trigger] fpart.take(k + 1)[m]));
                if k < 3 {
                    lemma_digits_val_take_succ(fpart, k as int);
                    lemma_digits_val_upper(fpart.take(k as int));
                    reveal_with_fuel(pow10, 4);
                    assert(pow10(fpart.take(k as int).len()) <= 100);
                } else {
                    assert(fpart.take(k as int).take(3) =~= fpart.take(3));
                    assert(fpart.take(k + 1).take(3) =~= fpart.take(3));
                }
            }
            if k < 3 {
                fm = fm * 10 + ((cv - 48) as u64);
            }
            k += 1;
        }
        proof {
            assert(fpart.take(flen as int) =~= fpart);
            lemma_frac_milli_range(fpart);
            if flen >= 3 {
                assert(fm == frac_milli(fpart));
            }
        }
        let fmm: u64 = if flen == 0 {
            proof {
                reveal_with_fuel(pow10, 4);
                assert(fpart.take(0) =~= fpart);
            }
            fm * 1000
        } else if flen == 1 {
            proof {
                reveal_with_fuel(pow10, 4);
                assert(fpart.take(1) =~= fpart);
            }
            fm * 100
        } else if flen == 2 {
            proof {
                reveal_with_fuel(pow10, 4);
                assert(fpart.take(2) =~= fpart);
            }
            fm * 10
        } else {
            fm
        };
        proof {
            assert(fmm == frac_milli(fpart));
            lemma_digits_val_nonneg(ipart);
        }
        let w = (ip as u128) * 1000 + (fmm as u128);
        if w > 9223372036854775807u128 {
            None
        } else {
            Some(w as i64)
        }
    }
}

/// Read the milli-value of a decimal string with an optional leading minus.
pub fn parse_milli(s: &str) -> (r: Option<i64>)
    ensures
        r is Some <==> spec_parse_milli(s@) is Some,
        r matches Some(v) ==> Some(v as int) == spec_parse_milli(s@),
{
    let n = s.unicode_len();
    if n > 0 && s.get_char(0) == '-' {
        let t = s.substring_char(1, n);
        proof {
            assert(t@ =~= s@.skip(1));
        }
        match parse_milli_unsigned(t) {
            Some(v) => Some(-v),
            None => None,
        }
    } else {
        parse_milli_unsigned(s)
    }
}

/// Magnitude of an integer.
pub open spec fn mag(x: int) -> int {
    if x < 0 {
        -x
    } else {
        x
    }
}

/// The quotient `n / d` rounded half away from zero, for `n >= 0, d > 0`.
pub open spec fn round_half_div(n: int, d: int) -> int {
    (2 * n + d) / (2 * d)
}

/// Percent change in hundredths of a percent: the price move over the prior
/// close, times ten thousand, rounded half away from zero. A close of zero
/// is a degenerate upstream condition and reads as no change.
pub open spec fn spec_rise_per(last: int, closing: int) -> int {
    if closing == 0 {
        0
    } else {
        let num = (last - closing) * 10000;
        let q = round_half_div(mag(num), mag(closing));
        if (num < 0) != (closing < 0) {
            -q
        } else {
            q
        }
    }
}

/// Percent change of `last` against `closing`, both in milli-units, held in
/// hundredths of a percent. The result is exact for every input pair: the
/// widest case (the full price range over a close of one milli-unit) still
/// fits the return type.
pub fn compute_rise_per(last: i64, closing: i64) -> (r: i128)
    ensures
        r == spec_rise_per(last as int, closing as int),
{
    if closing == 0 {
        return 0;
    }
    let diff: i128 = (last as i128) - (closing as i128);
    let num: i128 = diff * 10000;
    let n: u128 = if num >= 0 {
        num as u128
    } else {
        (-num) as u128
    };
    let d: u128 = if closing > 0 {
        closing as u128
    } else {
        (-(closing as i128)) as u128
    };
    let q: u128 = (2 * n + d) / (2 * d);
    proof {
        assert(q <= 2 * n + d) by (nonlinear_arith)
            requires
                q == (2 * n + d) / (2 * d),
                d >= 1,
        ;
    }
    let neg = (num < 0) != (closing < 0);
    if neg {
        -(q as i128)
    } else {
        q as i128
    }
}

} // verus!
