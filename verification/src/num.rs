//! Decimal digits: turning unsigned integers into strings and parsing
//! unsigned decimal text, with exact specifications.
use vstd::prelude::*;

verus! {

pub open spec fn is_digit_char(c: char) -> bool {
    '0' <= c && c <= '9'
}

pub open spec fn digit_val(c: char) -> int {
    c as int - '0' as int
}

pub open spec fn all_digits(s: Seq<char>) -> bool {
    forall|k: int| 0 <= k < s.len() ==> is_digit_char(s[k])
}

/// The value of a string of decimal digits, most significant first.
pub open spec fn digits_val(s: Seq<char>) -> int
    decreases s.len(),
{
    if s.len() == 0 {
        0
    } else {
        digits_val(s.drop_last()) * 10 + digit_val(s.last())
    }
}

pub proof fn lemma_digits_val_nonneg(s: Seq<char>)
    requires
        all_digits(s),
    ensures
        digits_val(s) >= 0,
    decreases s.len(),
{
    if s.len() > 0 {
        lemma_digits_val_nonneg(s.drop_last());
    }
}

/// A longer digit string never has a smaller value than its prefix.
pub proof fn lemma_digits_val_mono(s: Seq<char>, k: int)
    requires
        all_digits(s),
        0 <= k <= s.len(),
    ensures
        digits_val(s) >= digits_val(s.subrange(0, k)),
    decreases s.len() - k,
{
    if k < s.len() {
        lemma_digits_val_mono(s, k + 1);
        let p = s.subrange(0, k + 1);
        assert(p.drop_last() =~= s.subrange(0, k));
        lemma_digits_val_nonneg(s.subrange(0, k));
        assert(digits_val(p) == digits_val(s.subrange(0, k)) * 10 + digit_val(s[k]));
    } else {
        assert(s.subrange(0, k) =~= s);
    }
}

/// The decimal value of `s`, when `s` is one or more digits after an
/// optional leading plus sign and that value is at most `max`.
pub open spec fn parse_uint_spec(s: Seq<char>, max: int) -> Option<u64> {
    let body = if s.len() > 0 && s[0] == '+' {
        s.drop_first()
    } else {
        s
    };
    if body.len() > 0 && all_digits(body) && digits_val(body) <= max {
        Some(digits_val(body) as u64)
    } else {
        None
    }
}

/// Parses an unsigned decimal integer bounded by `max`, as the standard
/// unsigned parsers do: optional `+`, then digits only.
#[verifier::loop_isolation(false)]
pub fn parse_uint(s: &str, max: u64) -> (r: Option<u64>)
    ensures
        r == parse_uint_spec(s@, max as int),
{
    let len = s.unicode_len();
    let start: usize = if len > 0 && s.get_char(0) == '+' {
        1
    } else {
        0
    };
    let ghost body = if s@.len() > 0 && s@[0] == '+' {
        s@.drop_first()
    } else {
        s@
    };
    assert(forall|k: int| 0 <= k < body.len() ==> body[k] == s@[k + start]);
    if start == len {
        return None;
    }
    let mut i: usize = start;
    let mut acc: u64 = 0;
    while i < len
        invariant
            start <= i <= len,
            len == s@.len(),
            start < len,
            body.len() == len - start,
            forall|k: int| 0 <= k < body.len() ==> body[k] == s@[k + start],
            all_digits(body.subrange(0, i - start)),
            acc == digits_val(body.subrange(0, i - start)),
        decreases len - i,
    {
        let c = s.get_char(i);
        if c < '0' || c > '9' {
            assert(!is_digit_char(body[i - start]));
            assert(!all_digits(body));
            return None;
        }
        let d: u64 = (c as u32 - 48) as u64;
        assert(d == digit_val(c)) by {
            assert('0' as int == 48);
        }
        let ghost prev = body.subrange(0, i - start);
        let ghost cur = body.subrange(0, i + 1 - start);
        assert(cur.drop_last() =~= prev);
        assert(cur.last() == body[i - start]);
        let next = match acc.checked_mul(10) {
            Some(m) => m.checked_add(d),
            None => None,
        };
        match next {
            Some(v) => {
                acc = v;
            },
            None => {
                proof {
                    assert(digits_val(cur) > u64::MAX);
                    lemma_digits_val_mono_cond(body, i + 1 - start, max as int);
                    assert(parse_uint_spec_body(body, max as int) is None);
                    assert(parse_uint_spec(s@, max as int) is None);
                }
                return None;
            },
        }
        i = i + 1;
    }
    assert(body.subrange(0, body.len() as int) =~= body);
    if acc <= max {
        Some(acc)
    } else {
        None
    }
}

proof fn lemma_digits_val_mono_cond(body: Seq<char>, k: int, max: int)
    requires
        0 <= k <= body.len(),
        digits_val(body.subrange(0, k)) > max || !all_digits(body.subrange(0, k)),
    ensures
        parse_uint_spec_body(body, max) is None,
{
    if all_digits(body) {
        assert(all_digits(body.subrange(0, k)));
        lemma_digits_val_mono(body, k);
    }
}

/// The digit-string part of `parse_uint_spec`, once the sign is stripped.
pub open spec fn parse_uint_spec_body(body: Seq<char>, max: int) -> Option<u64> {
    if body.len() > 0 && all_digits(body) && digits_val(body) <= max {
        Some(digits_val(body) as u64)
    } else {
        None
    }
}

pub open spec fn digit_char(d: int) -> char {
    if d == 0 {
        '0'
    } else if d == 1 {
        '1'
    } else if d == 2 {
        '2'
    } else if d == 3 {
        '3'
    } else if d == 4 {
        '4'
    } else if d == 5 {
        '5'
    } else if d == 6 {
        '6'
    } else if d == 7 {
        '7'
    } else if d == 8 {
        '8'
    } else {
        '9'
    }
}

/// The decimal digits of `n`, most significant first, no sign and no
/// leading zeros (a single zero for `n == 0`).
pub open spec fn u64_digits(n: int) -> Seq<char>
    decreases n,
{
    if n < 10 {
        seq![digit_char(n)]
    } else {
        u64_digits(n / 10).push(digit_char(n % 10))
    }
}

pub fn digit_str(d: u64) -> (r: &'static str)
    requires
        d < 10,
    ensures
        r@ =~= seq![digit_char(d as int)],
{
    proof {
        reveal_strlit("0");
        reveal_strlit("1");
        reveal_strlit("2");
        reveal_strlit("3");
        reveal_strlit("4");
        reveal_strlit("5");
        reveal_strlit("6");
        reveal_strlit("7");
        reveal_strlit("8");
        reveal_strlit("9");
    }
    match d {
        0 => "0",
        1 => "1",
        2 => "2",
        3 => "3",
        4 => "4",
        5 => "5",
        6 => "6",
        7 => "7",
        8 => "8",
        _ => "9",
    }
}

/// Appends the decimal digits of `n` to `out`.
pub fn push_u64_digits(n: u64, out: &mut String)
    ensures
        final(out)@ == old(out)@ + u64_digits(n as int),
    decreases n,
{
    if n < 10 {
        out.append(digit_str(n));
    } else {
        push_u64_digits(n / 10, out);
        out.append(digit_str(n % 10));
        assert(out@ =~= old(out)@ + u64_digits(n as int));
    }
}

/// The decimal digits of `n`, with a minus sign when negative.
pub open spec fn int_digits(n: int) -> Seq<char> {
    if n < 0 {
        seq!['-'] + u64_digits(-n)
    } else {
        u64_digits(n)
    }
}

/// The decimal text of a signed integer.
pub fn i64_to_string(n: i64) -> (r: String)
    ensures
        r@ == int_digits(n as int),
{
    let mut out = String::new();
    if n < 0 {
        proof {
            reveal_strlit("-");
        }
        out.append("-");
        assert(out@ =~= seq!['-']);
    }
    let mag: u64 = if n < 0 {
        (-(n + 1)) as u64 + 1
    } else {
        n as u64
    };
    push_u64_digits(mag, &mut out);
    assert(out@ =~= int_digits(n as int));
    out
}

/// The decimal digits of `n` as a string.
pub fn u64_to_string(n: u64) -> (r: String)
    ensures
        r@ == u64_digits(n as int),
{
    let mut out = String::new();
    push_u64_digits(n, &mut out);
    assert(out@ =~= u64_digits(n as int));
    out
}

} // verus!
