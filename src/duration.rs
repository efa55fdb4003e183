use vstd::prelude::*;

verus! {

pub open spec fn is_digit(c: char) -> bool {
    '0' <= c && c <= '9'
}

pub open spec fn digit_value(c: char) -> int {
    (c as int) - ('0' as int)
}

/// The number written by the decimal digits `s`.
pub open spec fn digits_value(s: Seq<char>) -> int
    decreases s.len(),
{
    if s.len() == 0 {
        0
    } else {
        digits_value(s.drop_last()) * 10 + digit_value(s.last())
    }
}

/// How many decimal digits `s` starts with.
pub open spec fn leading_digits(s: Seq<char>) -> int
    decreases s.len(),
{
    if s.len() > 0 && is_digit(s[0]) {
        1 + leading_digits(s.drop_first())
    } else {
        0
    }
}

/// Milliseconds in one of the unit `u`: `h`, `m`, `s` or `ms`; no unit
/// means seconds.
pub open spec fn unit_millis(u: Seq<char>) -> Option<int> {
    if u.len() == 0 {
        Some(1000)
    } else if u.len() == 1 && u[0] == 's' {
        Some(1000)
    } else if u.len() == 1 && u[0] == 'm' {
        Some(60000)
    } else if u.len() == 1 && u[0] == 'h' {
        Some(3600000)
    } else if u.len() == 2 && u[0] == 'm' && u[1] == 's' {
        Some(1)
    } else {
        None
    }
}

/// The milliseconds that `s` writes: decimal digits, then a unit. `None`
/// where `s` has another shape.
pub open spec fn duration_millis(s: Seq<char>) -> Option<int> {
    let k = leading_digits(s);
    if k == 0 {
        None
    } else {
        match unit_millis(s.subrange(k, s.len() as int)) {
            Some(f) => Some(digits_value(s.subrange(0, k)) * f),
            None => None,
        }
    }
}

proof fn lemma_leading_digits(s: Seq<char>)
    ensures
        0 <= leading_digits(s) <= s.len(),
        forall|i: int| 0 <= i < leading_digits(s) ==> is_digit(#[trigger] s[i]),
        leading_digits(s) < s.len() ==> !is_digit(s[leading_digits(s)]),
    decreases s.len(),
{
    if s.len() > 0 && is_digit(s[0]) {
        lemma_leading_digits(s.drop_first());
        assert forall|i: int| 0 <= i < leading_digits(s) implies is_digit(#[trigger] s[i]) by {
            if i > 0 {
                assert(s[i] == s.drop_first()[i - 1]);
            }
        }
    }
}

/// A prefix that is all digits and followed by a non-digit is where the
/// leading digits end.
proof fn lemma_leading_digits_end(s: Seq<char>, k: int)
    requires
        0 <= k <= s.len(),
        forall|i: int| 0 <= i < k ==> is_digit(#[trigger] s[i]),
        k < s.len() ==> !is_digit(s[k]),
    ensures
        leading_digits(s) == k,
    decreases s.len(),
{
    if k > 0 {
        assert forall|i: int| 0 <= i < k - 1 implies is_digit(#[trigger] s.drop_first()[i]) by {
            assert(s.drop_first()[i] == s[i + 1]);
        }
        if k - 1 < s.drop_first().len() {
            assert(s.drop_first()[k - 1] == s[k]);
        }
        lemma_leading_digits_end(s.drop_first(), k - 1);
    }
}

proof fn lemma_digits_value_grows(s: Seq<char>, k: int)
    requires
        0 <= k <= s.len(),
        forall|i: int| 0 <= i < s.len() ==> is_digit(#[trigger] s[i]),
    ensures
        digits_value(s) >= digits_value(s.subrange(0, k)),
        digits_value(s.subrange(0, k)) >= 0,
    decreases s.len() - k,
{
    if k < s.len() {
        lemma_digits_value_grows(s, k + 1);
        assert(s.subrange(0, k + 1).drop_last() =~= s.subrange(0, k));
    } else {
        assert(s.subrange(0, k) =~= s);
    }
    lemma_digits_value_nonneg(s.subrange(0, k));
}

proof fn lemma_digits_value_nonneg(s: Seq<char>)
    requires
        forall|i: int| 0 <= i < s.len() ==> is_digit(#[trigger] s[i]),
    ensures
        digits_value(s) >= 0,
    decreases s.len(),
{
    if s.len() > 0 {
        assert(is_digit(s.last()));
        lemma_digits_value_nonneg(s.drop_last());
    }
}

/// Reads one duration such as `90s`, `10m`, `2h`, `250ms` or `45` (seconds),
/// in milliseconds. `None` where the text has another shape or the duration
/// does not fit.
pub fn parse_duration_component(s: &str) -> (r: Option<u64>)
    ensures
        match duration_millis(s@) {
            Some(v) => if v <= u64::MAX {
                r == Some(v as u64)
            } else {
                r is None
            },
            None => r is None,
        },
{
    let len = s.unicode_len();
    let mut value: u64 = 0;
    let mut k: usize = 0;
    while k < len && '0' <= s.get_char(k) && s.get_char(k) <= '9'
        invariant
            len == s@.len(),
            0 <= k <= len,
            forall|i: int| 0 <= i < k ==> is_digit(#[trigger] s@[i]),
            value == digits_value(s@.subrange(0, k as int)),
        decreases len - k,
    {
        let c = s.get_char(k);
        proof {
            assert(s@.subrange(0, k as int + 1).drop_last() =~= s@.subrange(0, k as int));
        }
        let d = (c as u32 - '0' as u32) as u64;
        match value.checked_mul(10) {
            Some(v10) => match v10.checked_add(d) {
                Some(v) => {
                    value = v;
                },
                None => {
                    proof {
                        lemma_overflowing_prefix(s@, k as int + 1);
                    }
                    return None;
                },
            },
            None => {
                proof {
                    lemma_digits_value_nonneg(s@.subrange(0, k as int));
                    lemma_overflowing_prefix(s@, k as int + 1);
                }
                return None;
            },
        }
        k = k + 1;
    }
    proof {
        lemma_leading_digits_end(s@, k as int);
        lemma_digits_value_nonneg(s@.subrange(0, k as int));
    }
    if k == 0 {
        return None;
    }
    let ghost unit = s@.subrange(k as int, len as int);
    let rest = len - k;
    let factor: u64 = if rest == 0 {
        1000
    } else if rest == 1 && s.get_char(k) == 's' {
        1000
    } else if rest == 1 && s.get_char(k) == 'm' {
        60000
    } else if rest == 1 && s.get_char(k) == 'h' {
        3600000
    } else if rest == 2 && s.get_char(k) == 'm' && s.get_char(k + 1) == 's' {
        1
    } else {
        assert(unit_millis(unit) is None);
        return None;
    };
    assert(unit_millis(unit) == Some(factor as int));
    value.checked_mul(factor)
}

/// Where the digits of a prefix of the leading digits already pass the
/// largest `u64`, so does the duration, whatever its unit.
proof fn lemma_overflowing_prefix(s: Seq<char>, k: int)
    requires
        0 < k <= s.len(),
        forall|i: int| 0 <= i < k ==> is_digit(#[trigger] s[i]),
        digits_value(s.subrange(0, k)) > u64::MAX,
    ensures
        duration_millis(s) is None || duration_millis(s)->Some_0 > u64::MAX,
{
    lemma_leading_digits(s);
    let n = leading_digits(s);
    let digits = s.subrange(0, n);
    if n < k {
        assert(!is_digit(s[n]));
    }
    assert(n >= k);
    assert forall|i: int| 0 <= i < digits.len() implies is_digit(#[trigger] digits[i]) by {
        assert(digits[i] == s[i]);
    }
    lemma_digits_value_grows(digits, k);
    assert(digits.subrange(0, k) =~= s.subrange(0, k));
}

pub open spec fn digit_char(d: int) -> char {
    if d == 0 {
        '0'
    } else if d == 1 {
        '1'
    } else if d == 2 {
        '2'
    } else if d == 3 {
        '3'
    } else if d == 4 {
        '4'
    } else if d == 5 {
        '5'
    } else if d == 6 {
        '6'
    } else if d == 7 {
        '7'
    } else if d == 8 {
        '8'
    } else {
        '9'
    }
}

/// `n` in decimal, without leading zeros.
pub open spec fn decimal(n: nat) -> Seq<char>
    decreases n,
{
    if n < 10 {
        seq![digit_char(n as int)]
    } else {
        decimal(n / 10).push(digit_char((n % 10) as int))
    }
}

/// `n`, below a hundred, in two decimal digits.
pub open spec fn two_digits(n: nat) -> Seq<char> {
    seq![digit_char((n / 10) as int), digit_char((n % 10) as int)]
}

/// `ms` in whole seconds, as `H:MM:SS`, or `M:SS` below an hour.
pub open spec fn colon_separated(ms: u64) -> Seq<char> {
    let secs = ms / 1000;
    let h = secs / 3600;
    let m = (secs / 60) % 60;
    let s = secs % 60;
    if h > 0 {
        decimal(h as nat) + seq![':'] + two_digits(m as nat) + seq![':'] + two_digits(s as nat)
    } else {
        decimal(m as nat) + seq![':'] + two_digits(s as nat)
    }
}

fn digit_char_exec(d: u64) -> (r: char)
    ensures
        r == digit_char(d as int),
{
    if d == 0 {
        '0'
    } else if d == 1 {
        '1'
    } else if d == 2 {
        '2'
    } else if d == 3 {
        '3'
    } else if d == 4 {
        '4'
    } else if d == 5 {
        '5'
    } else if d == 6 {
        '6'
    } else if d == 7 {
        '7'
    } else if d == 8 {
        '8'
    } else {
        '9'
    }
}

pub(crate) fn push_decimal(out: &mut Vec<char>, n: u64)
    ensures
        final(out)@ == old(out)@ + decimal(n as nat),
    decreases n,
{
    if n >= 10 {
        push_decimal(out, n / 10);
    }
    out.push(digit_char_exec(n % 10));
    proof {
        if n < 10 {
            assert(n % 10 == n);
        }
    }
}

fn push_two_digits(out: &mut Vec<char>, n: u64)
    requires
        n < 100,
    ensures
        final(out)@ == old(out)@ + two_digits(n as nat),
{
    out.push(digit_char_exec(n / 10));
    out.push(digit_char_exec(n % 10));
}

/// Relies on `String::from_iter`: the characters, in order, as a string.
#[verifier::external_body]
pub(crate) fn string_from_chars(chars: &Vec<char>) -> (r: String)
    ensures
        r@ == chars@,
{
    String::from_iter(chars.iter())
}

/// `ms` in whole seconds, as `H:MM:SS`, or `M:SS` below an hour.
pub fn format_colon_separated(ms: u64) -> (r: String)
    ensures
        r@ == colon_separated(ms),
{
    let secs = ms / 1000;
    let h = secs / 3600;
    let m = (secs / 60) % 60;
    let s = secs % 60;
    let mut out: Vec<char> = Vec::new();
    if h > 0 {
        push_decimal(&mut out, h);
        out.push(':');
        push_two_digits(&mut out, m);
        out.push(':');
        push_two_digits(&mut out, s);
    } else {
        push_decimal(&mut out, m);
        out.push(':');
        push_two_digits(&mut out, s);
    }
    assert(out@ =~= colon_separated(ms));
    string_from_chars(&out)
}

} // verus!
