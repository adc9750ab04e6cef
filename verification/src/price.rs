//! Prices are held in hundredths of the quoted unit, matching the two
//! decimal places the display shows. Quote feeds deliver prices as plain
//! decimal text; parsing reads an optional sign, an integer part and a
//! fraction part, and rounds on the third fraction digit, away from zero.
//! Text in any other notation is unparsable and the symbol it belongs to
//! is skipped.
use crate::num::{all_digits, digit_char, digit_val, digits_val, u64_digits};
use vstd::prelude::*;

verus! {

/// The fraction digits reduced to hundredths, rounding half up on the
/// third digit.
pub open spec fn frac_hundredths(fp: Seq<char>) -> int {
    let base = if fp.len() == 0 {
        0
    } else if fp.len() == 1 {
        digit_val(fp[0]) * 10
    } else {
        digit_val(fp[0]) * 10 + digit_val(fp[1])
    };
    if fp.len() > 2 && digit_val(fp[2]) >= 5 {
        base + 1
    } else {
        base
    }
}

/// The price in hundredths denoted by `s`: an optional sign, then digits
/// with at most one point between them, at least one digit in all.
pub open spec fn parse_price_spec(s: Seq<char>) -> Option<i64> {
    let neg = s.len() > 0 && s[0] == '-';
    let body = if s.len() > 0 && (s[0] == '-' || s[0] == '+') {
        s.drop_first()
    } else {
        s
    };
    let dot = crate::text::find_char(body, '.');
    let ip = if dot < 0 {
        body
    } else {
        body.subrange(0, dot)
    };
    let fp = if dot < 0 {
        Seq::<char>::empty()
    } else {
        body.subrange(dot + 1, body.len() as int)
    };
    if (ip.len() > 0 || fp.len() > 0) && all_digits(ip) && all_digits(fp) {
        let m = digits_val(ip) * 100 + frac_hundredths(fp);
        if m > i64::MAX {
            None
        } else if neg {
            Some((-m) as i64)
        } else {
            Some(m as i64)
        }
    } else {
        None
    }
}

/// The value of a digit-only string, `None` on any other character or on
/// a value beyond `u64`.
spec fn digits_value_spec(s: Seq<char>) -> Option<u64> {
    if all_digits(s) && digits_val(s) <= u64::MAX {
        Some(digits_val(s) as u64)
    } else {
        None
    }
}

#[verifier::loop_isolation(false)]
fn digits_value(s: &str) -> (r: Option<u64>)
    ensures
        r == digits_value_spec(s@),
{
    let len = s.unicode_len();
    let mut i: usize = 0;
    let mut acc: u64 = 0;
    while i < len
        invariant
            0 <= i <= len,
            all_digits(s@.subrange(0, i as int)),
            acc == digits_val(s@.subrange(0, i as int)),
        decreases len - i,
    {
        let c = s.get_char(i);
        if c < '0' || c > '9' {
            assert(!is_digit_char_at(s@, i as int));
            return None;
        }
        let d: u64 = (c as u32 - 48) as u64;
        assert(d == digit_val(c)) by {
            assert('0' as int == 48);
        }
        let ghost prev = s@.subrange(0, i as int);
        let ghost cur = s@.subrange(0, i + 1);
        assert(cur.drop_last() =~= prev);
        let next = match acc.checked_mul(10) {
            Some(m) => m.checked_add(d),
            None => None,
        };
        match next {
            Some(v) => {
                acc = v;
            },
            None => {
                proof {
                    assert(digits_val(cur) > u64::MAX);
                    if all_digits(s@) {
                        crate::num::lemma_digits_val_mono(s@, i + 1);
                    }
                }
                return None;
            },
        }
        i = i + 1;
    }
    assert(s@.subrange(0, len as int) =~= s@);
    Some(acc)
}

spec fn is_digit_char_at(s: Seq<char>, i: int) -> bool {
    crate::num::is_digit_char(s[i])
}

proof fn lemma_frac_nonneg(fp: Seq<char>)
    requires
        all_digits(fp),
    ensures
        0 <= frac_hundredths(fp) <= 100,
{
    if fp.len() >= 1 {
        assert(is_digit_char_at(fp, 0));
    }
    if fp.len() >= 2 {
        assert(is_digit_char_at(fp, 1));
    }
    if fp.len() >= 3 {
        assert(is_digit_char_at(fp, 2));
    }
}

/// Parses decimal price text into hundredths.
#[verifier::loop_isolation(false)]
pub fn parse_price(s: &str) -> (r: Option<i64>)
    ensures
        r == parse_price_spec(s@),
{
    let len = s.unicode_len();
    let neg = len > 0 && s.get_char(0) == '-';
    let start: usize = if len > 0 && (s.get_char(0) == '-' || s.get_char(0) == '+') {
        1
    } else {
        0
    };
    let body = s.substring_char(start, len);
    proof {
        if start == 1 {
            assert(body@ =~= s@.drop_first());
        } else {
            assert(body@ =~= s@);
        }
    }
    let blen = body.unicode_len();
    let dot = crate::text::str_find_char(body, '.');
    proof {
        crate::text::lemma_find_char(body@, '.');
    }
    let (ip, fp) = match dot {
        Some(d) => (body.substring_char(0, d), body.substring_char(d + 1, blen)),
        None => (body, body.substring_char(blen, blen)),
    };
    proof {
        if dot is None {
            assert(fp@ =~= Seq::<char>::empty());
        }
    }
    let ilen = ip.unicode_len();
    let flen = fp.unicode_len();
    if ilen == 0 && flen == 0 {
        return None;
    }
    let v = match digits_value(ip) {
        Some(v) => v,
        None => {
            proof {
                if all_digits(ip@) && all_digits(fp@) {
                    assert(digits_val(ip@) > u64::MAX);
                    lemma_frac_nonneg(fp@);
                }
            }
            return None;
        },
    };
    // The fraction part must be digits throughout; only its first three
    // digits decide the hundredths.
    let mut k: usize = 0;
    while k < flen
        invariant
            0 <= k <= flen,
            flen == fp@.len(),
            all_digits(fp@.subrange(0, k as int)),
        decreases flen - k,
    {
        let c = fp.get_char(k);
        if c < '0' || c > '9' {
            assert(!is_digit_char_at(fp@, k as int));
            return None;
        }
        assert(fp@.subrange(0, k + 1).drop_last() =~= fp@.subrange(0, k as int));
        k = k + 1;
    }
    assert(fp@.subrange(0, flen as int) =~= fp@);
    let d0: u64 = if flen >= 1 {
        (fp.get_char(0) as u32 - 48) as u64
    } else {
        0
    };
    let d1: u64 = if flen >= 2 {
        (fp.get_char(1) as u32 - 48) as u64
    } else {
        0
    };
    let round_up: u64 = if flen > 2 && fp.get_char(2) >= '5' {
        1
    } else {
        0
    };
    proof {
        assert('0' as int == 48);
        assert('5' as int == 53);
    }
    let f: u64 = d0 * 10 + d1 + round_up;
    assert(f == frac_hundredths(fp@));
    proof {
        crate::num::lemma_digits_val_nonneg(ip@);
    }
    let m = match v.checked_mul(100) {
        Some(m) => match m.checked_add(f) {
            Some(t) => t,
            None => {
                return None;
            },
        },
        None => {
            return None;
        },
    };
    if m > i64::MAX as u64 {
        return None;
    }
    if neg {
        Some(-(m as i64))
    } else {
        Some(m as i64)
    }
}

/// Every parsed price can be formatted: it never reaches `i64::MIN`.
pub proof fn lemma_parse_price_bound(s: Seq<char>)
    ensures
        parse_price_spec(s) matches Some(v) ==> v > i64::MIN,
{
    let body = if s.len() > 0 && (s[0] == '-' || s[0] == '+') {
        s.drop_first()
    } else {
        s
    };
    let dot = crate::text::find_char(body, '.');
    let ip = if dot < 0 {
        body
    } else {
        body.subrange(0, dot)
    };
    let fp = if dot < 0 {
        Seq::<char>::empty()
    } else {
        body.subrange(dot + 1, body.len() as int)
    };
    if (ip.len() > 0 || fp.len() > 0) && all_digits(ip) && all_digits(fp) {
        crate::num::lemma_digits_val_nonneg(ip);
        lemma_frac_nonneg(fp);
    }
}

/// The display text of a price in hundredths: sign, units, a point, and
/// exactly two fraction digits.
pub open spec fn price_text(p: int) -> Seq<char> {
    let a = if p < 0 {
        -p
    } else {
        p
    };
    let sign: Seq<char> = if p < 0 {
        seq!['-']
    } else {
        Seq::<char>::empty()
    };
    sign + u64_digits(a / 100) + seq!['.'] + seq![
        digit_char((a % 100) / 10),
        digit_char((a % 100) % 10),
    ]
}

/// Formats a price in hundredths with two decimal places.
pub fn format_price(p: i64) -> (r: String)
    requires
        p > i64::MIN,
    ensures
        r@ == price_text(p as int),
{
    let mut out = String::new();
    if p < 0 {
        proof {
            reveal_strlit("-");
        }
        out.append("-");
        assert(out@ =~= seq!['-']);
    }
    let a: u64 = if p < 0 {
        (-p) as u64
    } else {
        p as u64
    };
    crate::num::push_u64_digits(a / 100, &mut out);
    proof {
        reveal_strlit(".");
    }
    out.append(".");
    let b = a % 100;
    out.append(crate::num::digit_str(b / 10));
    out.append(crate::num::digit_str(b % 10));
    assert(out@ =~= price_text(p as int));
    out
}

} // verus!
