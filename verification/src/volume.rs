//! The volume argument: a decimal string such as `0.5`, parsed and applied
//! in permille. A non-numeric argument is a parse error; an out-of-range
//! value is not — it is clamped.
use vstd::prelude::*;
use vstd::string::*;
use crate::PlayerError;
use crate::player::spec_clamp_permille;
use crate::text::last_pos;

verus! {

/// An ASCII decimal digit.
pub open spec fn is_digit(c: char) -> bool {
    48 <= c as u32 && c as u32 <= 57
}

/// The value of one digit.
pub open spec fn digit_val(c: char) -> int {
    c as u32 - 48
}

/// The value of a digit string, most significant first.
pub open spec fn digits_val(s: Seq<char>) -> int
    decreases s.len(),
{
    if s.len() == 0 {
        0
    } else {
        digits_val(s.drop_last()) * 10 + digit_val(s.last())
    }
}

/// Every character is a digit.
pub open spec fn all_digits(s: Seq<char>) -> bool {
    forall|i: int| 0 <= i < s.len() ==> is_digit(s[i])
}

/// A digit string's value is never negative.
pub proof fn lemma_digits_val_nonneg(s: Seq<char>)
    requires
        all_digits(s),
    ensures
        digits_val(s) >= 0,
    decreases s.len(),
{
    if s.len() > 0 {
        assert(all_digits(s.drop_last()));
        lemma_digits_val_nonneg(s.drop_last());
    }
}

/// The string with a leading sign removed.
pub open spec fn spec_unsigned(s: Seq<char>) -> Seq<char> {
    if s.len() > 0 && (s[0] == '+' || s[0] == '-') {
        s.drop_first()
    } else {
        s
    }
}

/// Does the string carry a minus sign?
pub open spec fn spec_negative(s: Seq<char>) -> bool {
    s.len() > 0 && s[0] == '-'
}

/// A numeric volume argument: an optional sign, then digits with at most one
/// decimal point somewhere among them — and at least one digit or the point
/// accompanied by a digit.
pub open spec fn valid_decimal(s: Seq<char>) -> bool {
    let b = spec_unsigned(s);
    let d = last_pos(b, '.');
    if d == -1 {
        b.len() > 0 && all_digits(b)
    } else {
        b.len() > 1 && all_digits(b.take(d)) && all_digits(b.skip(d + 1))
    }
}

/// The fractional digits' worth in permille: the first three of them, the
/// rest — beyond millesimal precision — truncated away.
pub open spec fn frac_permille(f: Seq<char>) -> int {
    if f.len() >= 3 {
        digits_val(f.take(3))
    } else if f.len() == 2 {
        digits_val(f) * 10
    } else if f.len() == 1 {
        digits_val(f) * 100
    } else {
        0
    }
}

/// The magnitude of an unsigned decimal string, in permille.
pub open spec fn magnitude_permille(b: Seq<char>) -> int {
    let d = last_pos(b, '.');
    if d == -1 {
        digits_val(b) * 1000
    } else {
        digits_val(b.take(d)) * 1000 + frac_permille(b.skip(d + 1))
    }
}

/// The signed value of a volume argument, in permille.
pub open spec fn spec_volume_permille(s: Seq<char>) -> int {
    if spec_negative(s) {
        -magnitude_permille(spec_unsigned(s))
    } else {
        magnitude_permille(spec_unsigned(s))
    }
}

/// An integer's worth capped at 2000: past every volume a clamp could keep,
/// so the cap never changes what a clamp to `[0, 1000]` yields.
pub open spec fn capped(v: int) -> int {
    if v > 2000 {
        2000
    } else {
        v
    }
}

/// Read the digits of `s` between `from` and `to`: whether they are all
/// digits, and — capped — their value.
fn scan_digits(s: &str, from: usize, to: usize) -> (r: (bool, u64))
    requires
        from <= to <= s@.len(),
    ensures
        r.0 == all_digits(s@.subrange(from as int, to as int)),
        r.0 ==> r.1 == capped(digits_val(s@.subrange(from as int, to as int))),
{
    let ghost sub = s@.subrange(from as int, to as int);
    let mut acc: u64 = 0;
    let mut k: usize = from;
    while k < to
        invariant
            from <= k <= to <= s@.len(),
            sub == s@.subrange(from as int, to as int),
            all_digits(sub.take(k - from)),
            acc == capped(digits_val(sub.take(k - from))),
        decreases to - k,
    {
        let c = s.get_char(k);
        proof {
            assert(sub[k - from] == s@[k as int]);
        }
        if !(48 <= c as u32 && c as u32 <= 57) {
            proof {
                assert(!is_digit(sub[k - from]));
            }
            return (false, 0);
        }
        let dv: u64 = (c as u32 - 48) as u64;
        let m: u64 = acc * 10 + dv;
        let ghost prefix = sub.take(k - from);
        proof {
            assert(sub.take(k + 1 - from).drop_last() =~= prefix);
            assert(sub.take(k + 1 - from).last() == sub[k - from]);
            lemma_digits_val_nonneg(prefix);
        }
        acc = if m > 2000 {
            2000
        } else {
            m
        };
        k = k + 1;
    }
    proof {
        assert(sub.take(to - from) =~= sub);
    }
    (true, acc)
}

/// Read the fractional digits of `s` from `from` to its end: whether they
/// are all digits, and their worth in permille.
fn scan_frac(s: &str, from: usize) -> (r: (bool, u64))
    requires
        from <= s@.len(),
    ensures
        r.0 == all_digits(s@.skip(from as int)),
        r.0 ==> r.1 == frac_permille(s@.skip(from as int)) && r.1 <= 999,
{
    let ghost f = s@.skip(from as int);
    let n = s.unicode_len();
    let mut k: usize = from;
    while k < n
        invariant
            from <= k <= n == s@.len(),
            f == s@.skip(from as int),
            all_digits(f.take(k - from)),
        decreases n - k,
    {
        let c = s.get_char(k);
        proof {
            assert(f[k - from] == s@[k as int]);
        }
        if !(48 <= c as u32 && c as u32 <= 57) {
            proof {
                assert(!is_digit(f[k - from]));
            }
            return (false, 0);
        }
        proof {
            assert(f.take(k + 1 - from).drop_last() =~= f.take(k - from));
            assert(f.take(k + 1 - from).last() == f[k - from]);
        }
        k = k + 1;
    }
    proof {
        assert(f.take(n - from) =~= f);
    }
    let flen = n - from;
    let mut worth: u64 = 0;
    proof {
        assert(flen >= 1 ==> f[0] == s@[from as int] && is_digit(f[0]));
        assert(flen >= 2 ==> f[1] == s@[from + 1] && is_digit(f[1]));
        assert(flen >= 3 ==> f[2] == s@[from + 2] && is_digit(f[2]));
    }
    if flen >= 1 {
        let d0 = (s.get_char(from) as u32 - 48) as u64;
        worth = d0 * 100;
        proof {
            assert(f.take(1).drop_last() =~= Seq::<char>::empty());
            assert(f.take(1).last() == f[0]);
        }
    }
    if flen >= 2 {
        let d1 = (s.get_char(from + 1) as u32 - 48) as u64;
        worth = worth + d1 * 10;
        proof {
            assert(f.take(2).drop_last() =~= f.take(1));
            assert(f.take(2).last() == f[1]);
        }
    }
    if flen >= 3 {
        let d2 = (s.get_char(from + 2) as u32 - 48) as u64;
        worth = worth + d2;
        proof {
            assert(f.take(3).drop_last() =~= f.take(2));
            assert(f.take(3).last() == f[2]);
        }
    }
    proof {
        assert(digits_val(Seq::<char>::empty()) == 0);
        if f.len() >= 1 {
            assert(f.take(1).drop_last() =~= Seq::<char>::empty());
            assert(f.take(1).last() == f[0]);
            assert(digits_val(f.take(1)) == digit_val(f[0]));
        }
        if f.len() >= 2 {
            assert(f.take(2).drop_last() =~= f.take(1));
            assert(f.take(2).last() == f[1]);
            assert(digits_val(f.take(2)) == digit_val(f[0]) * 10 + digit_val(f[1]));
        }
        if f.len() >= 3 {
            assert(f.take(3).drop_last() =~= f.take(2));
            assert(f.take(3).last() == f[2]);
            assert(digits_val(f.take(3)) == (digit_val(f[0]) * 10 + digit_val(f[1])) * 10
                + digit_val(f[2]));
        }
        if f.len() == 1 {
            assert(f.take(1) =~= f);
        }
        if f.len() == 2 {
            assert(f.take(2) =~= f);
        }
    }
    (true, worth)
}

/// Parse a volume argument. A non-numeric string is a `ParseError`; a
/// numeric one yields its value clamped into `[0, 1000]` permille, at
/// millesimal precision.
pub fn parse_volume(s: &str) -> (r: Result<u16, PlayerError>)
    ensures
        valid_decimal(s@) ==> r == Ok::<u16, PlayerError>(
            spec_clamp_permille(spec_volume_permille(s@)) as u16,
        ),
        !valid_decimal(s@) ==> r == Err::<u16, PlayerError>(PlayerError::ParseError),
{
    let n = s.unicode_len();
    if n == 0 {
        return Err(PlayerError::ParseError);
    }
    let c0 = s.get_char(0);
    let neg = c0 == '-';
    let start: usize = if c0 == '-' || c0 == '+' {
        1
    } else {
        0
    };
    let ghost b = spec_unsigned(s@);
    proof {
        if start == 1 {
            assert(b =~= s@.skip(1));
        } else {
            assert(b =~= s@.skip(0));
            assert(b =~= s@);
        }
        crate::text::lemma_last_pos_bounds(b, '.');
    }
    if n == start {
        // a bare sign: no digits at all
        assert(b.len() == 0);
        return Err(PlayerError::ParseError);
    }
    // locate the last decimal point within the unsigned part
    let mut dot: Option<usize> = None;
    let mut k: usize = start;
    while k < n
        invariant
            start <= k <= n == s@.len(),
            start <= 1,
            b == spec_unsigned(s@),
            b =~= s@.skip(start as int),
            dot is None ==> last_pos(b.take(k - start), '.') == -1,
            dot matches Some(j) ==> start <= j < k && last_pos(b.take(k - start), '.') == j
                - start,
        decreases n - k,
    {
        let c = s.get_char(k);
        proof {
            assert(b.take(k + 1 - start).drop_last() =~= b.take(k - start));
            assert(b.take(k + 1 - start).last() == b[k - start]);
            assert(b[k - start] == s@[k as int]);
        }
        if c == '.' {
            dot = Some(k);
        }
        k = k + 1;
    }
    proof {
        assert(b.take(n - start) =~= b);
    }
    match dot {
        None => {
            let (ok, val) = scan_digits(s, start, n);
            proof {
                assert(s@.subrange(start as int, n as int) =~= b);
            }
            if !ok {
                return Err(PlayerError::ParseError);
            }
            proof {
                lemma_digits_val_nonneg(b);
            }
            let r = finish(neg, val, 0);
            proof {
                let dv = digits_val(b);
                assert(valid_decimal(s@));
                assert(magnitude_permille(b) == dv * 1000);
                if dv > 2000 {
                    assert(dv * 1000 > 1000);
                }
                assert(spec_clamp_permille(
                    if neg {
                        -(val * 1000 + 0)
                    } else {
                        val * 1000 + 0
                    },
                ) == spec_clamp_permille(spec_volume_permille(s@)));
            }
            r
        },
        Some(dabs) => {
            if n - start <= 1 {
                // the unsigned part is just the point
                return Err(PlayerError::ParseError);
            }
            let ghost d = last_pos(b, '.');
            let (ok1, ival) = scan_digits(s, start, dabs);
            proof {
                assert(s@.subrange(start as int, dabs as int) =~= b.take(d));
            }
            if !ok1 {
                return Err(PlayerError::ParseError);
            }
            let (ok2, frac) = scan_frac(s, dabs + 1);
            proof {
                assert(s@.skip(dabs + 1) =~= b.skip(d + 1));
            }
            if !ok2 {
                return Err(PlayerError::ParseError);
            }
            proof {
                lemma_digits_val_nonneg(b.take(d));
                lemma_digits_val_nonneg(b.skip(d + 1));
            }
            let r = finish(neg, ival, frac);
            proof {
                let dv = digits_val(b.take(d));
                assert(valid_decimal(s@));
                assert(magnitude_permille(b) == dv * 1000 + frac_permille(b.skip(d + 1)));
                if dv > 2000 {
                    assert(dv * 1000 > 1000);
                }
                assert(spec_clamp_permille(
                    if neg {
                        -(ival * 1000 + frac)
                    } else {
                        ival * 1000 + frac
                    },
                ) == spec_clamp_permille(spec_volume_permille(s@)));
            }
            r
        },
    }
}

/// Combine the (capped) integer part and the fractional worth into the
/// applied permille value, clamped into `[0, 1000]`.
fn finish(neg: bool, ival: u64, frac: u64) -> (r: Result<u16, PlayerError>)
    requires
        ival <= 2000,
        frac <= 999,
    ensures
        ({
            let v: int = if neg {
                -(ival * 1000 + frac)
            } else {
                ival * 1000 + frac
            };
            r == Ok::<u16, PlayerError>(spec_clamp_permille(v) as u16)
        }),
{
    if neg {
        return Ok(0);
    }
    let perm: u64 = ival * 1000 + frac;
    if perm > 1000 {
        Ok(1000)
    } else {
        Ok(perm as u16)
    }
}

} // verus!
