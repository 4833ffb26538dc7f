//! Currency parsing. Monetary amounts are held in whole hundredths of the
//! feed's currency unit, as a signed 64-bit count: a plain-value stand-in for
//! the feed's decimal notation. Parsing strips one leading `$` sign and all
//! `,` separators, accepts an optionally signed decimal numeral, and keeps
//! the first two fraction digits; any other input — and any amount too large
//! for the representation — yields 0 and never fails.

use vstd::prelude::*;
use crate::text::chars_vec;
use crate::extract::is_digit;

verus! {

/// Largest representable amount in hundredths.
pub const AMOUNT_CAP: u64 = 0x7fff_ffff_ffff_ffff;

const CAP_DIV10: u64 = AMOUNT_CAP / 10;

/// Index past a single leading `$` sign, if there is one; a second `$` is
/// not stripped and makes the parse fail.
pub open spec fn dollar_skip(s: Seq<char>) -> int {
    if s.len() > 0 && s[0] == '$' {
        1
    } else {
        0
    }
}

/// `s[i..]` with every comma removed.
pub open spec fn drop_commas_from(s: Seq<char>, i: int) -> Seq<char>
    decreases s.len() - i,
{
    if i < 0 || i >= s.len() {
        Seq::empty()
    } else if s[i] == ',' {
        drop_commas_from(s, i + 1)
    } else {
        seq![s[i]] + drop_commas_from(s, i + 1)
    }
}

/// The text left after stripping one leading `$` sign and every comma.
pub open spec fn stripped(s: Seq<char>) -> Seq<char> {
    drop_commas_from(s, dollar_skip(s))
}

pub open spec fn digval(c: char) -> int {
    if is_digit(c) {
        c as u32 - 0x30
    } else {
        0
    }
}

/// Value of a decimal digit string.
pub open spec fn digits_val(ds: Seq<char>) -> int
    decreases ds.len(),
{
    if ds.len() == 0 {
        0
    } else {
        digits_val(ds.drop_last()) * 10 + digval(ds.last())
    }
}

pub open spec fn all_digits(ds: Seq<char>) -> bool {
    forall|i: int| 0 <= i < ds.len() ==> is_digit(ds[i])
}

/// Index of the first `.` at or after `i` (or the end).
pub open spec fn dot_end(s: Seq<char>, i: int) -> int
    decreases s.len() - i,
{
    if i < 0 {
        i
    } else if i >= s.len() {
        s.len() as int
    } else if s[i] == '.' {
        i
    } else {
        dot_end(s, i + 1)
    }
}

/// Hundredths contributed by the fraction digits; digits beyond the second
/// are ignored.
pub open spec fn frac_cents(fs: Seq<char>) -> int {
    (if fs.len() >= 1 {
        10 * digval(fs[0])
    } else {
        0
    }) + (if fs.len() >= 2 {
        digval(fs[1])
    } else {
        0
    })
}

/// What `parse_currency` returns, in hundredths: the stripped text must be an
/// optionally signed decimal numeral with at least one digit; anything else,
/// and any amount above `AMOUNT_CAP` hundredths, yields 0. The hundredths
/// model restricts the accepted grammar to plain decimals: exponent notation
/// and the named floating-point values are not amounts and yield 0.
pub open spec fn currency_spec(s: Seq<char>) -> int {
    let t = stripped(s);
    let neg = t.len() > 0 && t[0] == '-';
    let u = if t.len() > 0 && (t[0] == '-' || t[0] == '+') {
        t.drop_first()
    } else {
        t
    };
    let k = dot_end(u, 0);
    let ip = u.subrange(0, k);
    let fp = if k < u.len() {
        u.subrange(k + 1, u.len() as int)
    } else {
        Seq::empty()
    };
    if ip.len() + fp.len() >= 1 && all_digits(ip) && all_digits(fp) {
        let cents = digits_val(ip) * 100 + frac_cents(fp);
        if cents <= AMOUNT_CAP {
            if neg {
                -cents
            } else {
                cents
            }
        } else {
            0
        }
    } else {
        0
    }
}

fn drop_commas_run(s: &Vec<char>, i: usize) -> (r: Vec<char>)
    requires
        i <= s@.len(),
    ensures
        r@ == drop_commas_from(s@, i as int),
    decreases s@.len() - i,
{
    if i >= s.len() {
        return Vec::new();
    }
    let mut rest = drop_commas_run(s, i + 1);
    if s[i] == ',' {
        rest
    } else {
        let mut r: Vec<char> = Vec::new();
        r.push(s[i]);
        r.append(&mut rest);
        proof {
            assert(r@ =~= seq![s@[i as int]] + drop_commas_from(s@, i + 1));
        }
        r
    }
}

fn dot_run(s: &Vec<char>, i: usize) -> (r: usize)
    requires
        i <= s@.len(),
    ensures
        r == dot_end(s@, i as int),
        i <= r <= s@.len(),
    decreases s@.len() - i,
{
    if i >= s.len() {
        return s.len();
    }
    if s[i] == '.' {
        return i;
    }
    dot_run(s, i + 1)
}

fn all_digits_run(v: &Vec<char>, a: usize, b: usize) -> (r: bool)
    requires
        a <= b <= v@.len(),
    ensures
        r == all_digits(v@.subrange(a as int, b as int)),
{
    let ghost seg = v@.subrange(a as int, b as int);
    let mut k: usize = a;
    while k < b
        invariant
            a <= k <= b <= v@.len(),
            seg == v@.subrange(a as int, b as int),
            forall|j: int| 0 <= j < k - a ==> is_digit(seg[j]),
        decreases b - k,
    {
        let u = v[k] as u32;
        if !(0x30 <= u && u <= 0x39) {
            proof {
                assert(seg[k - a] == v@[k as int]);
                assert(!is_digit(seg[k - a]));
            }
            return false;
        }
        proof {
            assert(seg[k - a] == v@[k as int]);
        }
        k += 1;
    }
    true
}

fn char_digit(c: char) -> (r: u64)
    requires
        is_digit(c),
    ensures
        r == digval(c),
{
    ((c as u32) - 0x30) as u64
}

/// Value of the digits `v[a..b]`, saturating just past `AMOUNT_CAP`.
fn digits_value_sat(v: &Vec<char>, a: usize, b: usize) -> (r: u64)
    requires
        a <= b <= v@.len(),
        all_digits(v@.subrange(a as int, b as int)),
    ensures
        digits_val(v@.subrange(a as int, b as int)) <= AMOUNT_CAP ==> r == digits_val(
            v@.subrange(a as int, b as int),
        ),
        digits_val(v@.subrange(a as int, b as int)) > AMOUNT_CAP ==> r == AMOUNT_CAP + 1,
{
    let mut acc: u64 = 0;
    let mut k: usize = a;
    proof {
        assert(v@.subrange(a as int, a as int) =~= Seq::<char>::empty());
    }
    while k < b
        invariant
            a <= k <= b <= v@.len(),
            all_digits(v@.subrange(a as int, b as int)),
            acc <= AMOUNT_CAP + 1,
            digits_val(v@.subrange(a as int, k as int)) <= AMOUNT_CAP ==> acc == digits_val(
                v@.subrange(a as int, k as int),
            ),
            digits_val(v@.subrange(a as int, k as int)) > AMOUNT_CAP ==> acc == AMOUNT_CAP + 1,
        decreases b - k,
    {
        proof {
            assert(v@.subrange(a as int, b as int)[k - a] == v@[k as int]);
            assert(is_digit(v@[k as int]));
            assert(v@.subrange(a as int, k + 1).drop_last() =~= v@.subrange(a as int, k as int));
            assert(v@.subrange(a as int, k + 1).last() == v@[k as int]);
        }
        let ghost pv = digits_val(v@.subrange(a as int, k as int));
        let ghost pv2 = digits_val(v@.subrange(a as int, k + 1));
        proof {
            assert(pv2 == pv * 10 + digval(v@[k as int]));
        }
        let d = char_digit(v[k]);
        if acc > CAP_DIV10 {
            proof {
                if pv <= AMOUNT_CAP {
                    assert(acc == pv);
                    assert(pv >= CAP_DIV10 + 1);
                    assert(pv * 10 >= (CAP_DIV10 + 1) * 10);
                    assert(pv2 > AMOUNT_CAP);
                } else {
                    assert(pv2 >= pv * 10 >= pv > AMOUNT_CAP);
                }
            }
            acc = AMOUNT_CAP + 1;
        } else {
            let t2 = acc * 10 + d;
            proof {
                assert(acc == pv);
                assert(pv2 == t2);
            }
            acc = if t2 > AMOUNT_CAP {
                AMOUNT_CAP + 1
            } else {
                t2
            };
        }
        k += 1;
    }
    acc
}

/// Parses a currency amount into hundredths: one leading `$` sign is
/// stripped, commas removed, and the remainder read as an optionally signed
/// decimal numeral; any parse failure yields 0 — this never fails.
pub fn parse_currency(value: &str) -> (r: i64)
    ensures
        r as int == currency_spec(value@),
{
    let s = chars_vec(value);
    let a: usize = if s.len() > 0 && s[0] == '$' {
        1
    } else {
        0
    };
    let t = drop_commas_run(&s, a);
    let (neg, off): (bool, usize) = if t.len() > 0 && (t[0] == '-' || t[0] == '+') {
        (t[0] == '-', 1)
    } else {
        (false, 0)
    };
    let u = crate::text::copy_range(&t, off, t.len());
    proof {
        if off == 1 {
            assert(u@ =~= t@.drop_first());
        } else {
            assert(u@ =~= t@);
        }
    }
    let k = dot_run(&u, 0);
    let ip_ok = all_digits_run(&u, 0, k);
    let fp_ok = if k < u.len() {
        all_digits_run(&u, k + 1, u.len())
    } else {
        proof {
            assert(all_digits(Seq::<char>::empty()));
        }
        true
    };
    proof {
        if k >= u@.len() {
            assert(all_digits(Seq::<char>::empty()));
        }
    }
    if !(ip_ok && fp_ok && (k > 0 || k + 1 < u.len())) {
        return 0;
    }
    let iv = digits_value_sat(&u, 0, k);
    let mut f: u64 = 0;
    if k < u.len() {
        if u.len() - k > 1 {
            proof {
                assert(u@.subrange(k + 1, u@.len() as int)[0] == u@[k + 1]);
            }
            f = 10 * char_digit(u[k + 1]);
        }
        if u.len() - k > 2 {
            proof {
                assert(u@.subrange(k + 1, u@.len() as int)[1] == u@[k + 2]);
            }
            f = f + char_digit(u[k + 2]);
        }
    }
    proof {
        let fp = if k < u@.len() {
            u@.subrange(k + 1, u@.len() as int)
        } else {
            Seq::<char>::empty()
        };
        assert(f == frac_cents(fp)) by {
            if k < u@.len() {
                if fp.len() >= 1 {
                    assert(fp[0] == u@[k + 1]);
                }
                if fp.len() >= 2 {
                    assert(fp[1] == u@[k + 2]);
                }
            }
        }
    }
    let total: u128 = (iv as u128) * 100 + (f as u128);
    proof {
        let ip = u@.subrange(0, k as int);
        let dv = digits_val(ip);
        if dv > AMOUNT_CAP {
            assert(iv == AMOUNT_CAP + 1);
            assert(dv * 100 >= dv > AMOUNT_CAP);
        }
    }
    if total > AMOUNT_CAP as u128 {
        return 0;
    }
    let c = total as i64;
    if neg {
        -c
    } else {
        c
    }
}

} // verus!
