//! Text handling for the connection fields: decimal numbers, port numbers and
//! dotted IPv4 addresses.

use vstd::prelude::*;
use vstd::string::*;

verus! {

/// The decimal digit character for `d` (`0 ..= 9`).
pub open spec fn digit_char(d: int) -> char {
    if d == 0 {
        '0'
    } else if d == 1 {
        '1'
    } else if d == 2 {
        '2'
    } else if d == 3 {
        '3'
    } else if d == 4 {
        '4'
    } else if d == 5 {
        '5'
    } else if d == 6 {
        '6'
    } else if d == 7 {
        '7'
    } else if d == 8 {
        '8'
    } else {
        '9'
    }
}

/// Decimal text of `n`, without leading zeros.
pub open spec fn decimal(n: nat) -> Seq<char>
    decreases n,
{
    if n < 10 {
        seq![digit_char(n as int)]
    } else {
        decimal(n / 10).push(digit_char((n % 10) as int))
    }
}

fn digit_text(d: u64) -> (s: &'static str)
    requires
        d < 10,
    ensures
        s@ == seq![digit_char(d as int)],
{
    proof {
        reveal_strlit("0");
        reveal_strlit("1");
        reveal_strlit("2");
        reveal_strlit("3");
        reveal_strlit("4");
        reveal_strlit("5");
        reveal_strlit("6");
        reveal_strlit("7");
        reveal_strlit("8");
        reveal_strlit("9");
    }
    if d == 0 {
        "0"
    } else if d == 1 {
        "1"
    } else if d == 2 {
        "2"
    } else if d == 3 {
        "3"
    } else if d == 4 {
        "4"
    } else if d == 5 {
        "5"
    } else if d == 6 {
        "6"
    } else if d == 7 {
        "7"
    } else if d == 8 {
        "8"
    } else {
        "9"
    }
}

/// Appends the decimal text of `n` to `out`.
pub fn push_decimal(out: &mut String, n: u64)
    ensures
        final(out)@ == old(out)@ + decimal(n as nat),
    decreases n,
{
    if n >= 10 {
        push_decimal(out, n / 10);
    }
    out.append(digit_text(n % 10));
    proof {
        if n >= 10 {
            assert(old(out)@ + decimal((n / 10) as nat) + seq![digit_char((n % 10) as int)] =~= old(out)@
                + decimal(n as nat));
        } else {
            assert(old(out)@ + seq![digit_char((n % 10) as int)] =~= old(out)@ + decimal(n as nat));
        }
    }
}

/// Decimal text of `n`, with a leading `-` when negative.
pub open spec fn signed_decimal(n: int) -> Seq<char> {
    if n < 0 {
        seq!['-'] + decimal((-n) as nat)
    } else {
        decimal(n as nat)
    }
}

/// Appends the decimal text of `n` to `out`, with a leading `-` when negative.
pub fn push_signed_decimal(out: &mut String, n: i64)
    ensures
        final(out)@ == old(out)@ + signed_decimal(n as int),
{
    if n < 0 {
        out.append("-");
        proof {
            reveal_strlit("-");
        }
        let magnitude: u64 = (0i128 - n as i128) as u64;
        push_decimal(out, magnitude);
        proof {
            assert(old(out)@ + "-"@ + decimal(magnitude as nat) =~= old(out)@ + signed_decimal(n as int));
        }
    } else {
        push_decimal(out, n as u64);
    }
}

/// `c` is an ASCII decimal digit.
pub open spec fn is_digit(c: char) -> bool {
    '0' <= c <= '9'
}

/// Every character of `s` is an ASCII decimal digit (true of the empty text).
pub open spec fn all_digits(s: Seq<char>) -> bool {
    forall|i: int| 0 <= i < s.len() ==> is_digit(#[trigger] s[i])
}

/// The number that the digits `s` spell in decimal.
pub open spec fn digits_value(s: Seq<char>) -> nat
    decreases s.len(),
{
    if s.len() == 0 {
        0
    } else {
        (digits_value(s.drop_last()) * 10 + (s.last() as int - '0' as int)) as nat
    }
}

/// The value of an unsigned integer written as text, as `from_str` of an unsigned
/// type whose largest value is `max` reads it: an optional `+` followed by at least
/// one ASCII digit, with a value of at most `max`.
pub open spec fn unsigned_text_value(s: Seq<char>, max: nat) -> Option<nat> {
    let d = if s.len() > 0 && s[0] == '+' { s.drop_first() } else { s };
    if d.len() > 0 && all_digits(d) && digits_value(d) <= max {
        Some(digits_value(d))
    } else {
        None
    }
}

/// The value of a `u16` written as text, as `u16::from_str` reads it.
pub open spec fn u16_text_value(s: Seq<char>) -> Option<nat> {
    unsigned_text_value(s, 65535)
}

proof fn lemma_digits_value_grows(s: Seq<char>, i: int)
    requires
        0 <= i <= s.len(),
        all_digits(s),
    ensures
        digits_value(s.take(i)) <= digits_value(s),
    decreases s.len() - i,
{
    if i < s.len() {
        lemma_digits_value_grows(s, i + 1);
        assert(s.take(i + 1).drop_last() =~= s.take(i));
        assert(is_digit(s[i]));
    } else {
        assert(s.take(i) =~= s);
    }
}

/// Reads a port number as `u16::from_str` does (see `u16_text_value`), keeping
/// only non-zero values.
pub fn parse_port(text: &str) -> (port: Option<u16>)
    ensures
        port == (match u16_text_value(text@) {
            Some(v) => if v > 0 { Some(v as u16) } else { None::<u16> },
            None => None::<u16>,
        }),
{
    let n = text.unicode_len();
    let mut start: usize = 0;
    if n > 0 && text.get_char(0) == '+' {
        start = 1;
    }
    let ghost d = if text@.len() > 0 && text@[0] == '+' { text@.drop_first() } else { text@ };
    assert(d =~= text@.skip(start as int));
    if start >= n {
        return None;
    }
    let mut value: u32 = 0;
    let mut i: usize = start;
    while i < n
        invariant
            n == text@.len(),
            start <= i <= n,
            d =~= text@.skip(start as int),
            d == (if text@.len() > 0 && text@[0] == '+' { text@.drop_first() } else { text@ }),
            all_digits(d.take(i - start)),
            value == digits_value(d.take(i - start)),
            value <= 65535,
        decreases n - i,
    {
        let c = text.get_char(i);
        if !('0' <= c && c <= '9') {
            proof {
                assert(d[i - start] == c);
                assert(!is_digit(d[i - start]));
                assert(!all_digits(d));
                assert(u16_text_value(text@) is None);
            }
            return None;
        }
        let next = value * 10 + (c as u32 - '0' as u32);
        proof {
            assert(d.take(i - start + 1).drop_last() =~= d.take(i - start));
            assert(d.take(i - start + 1).last() == c);
            assert(digits_value(d.take(i - start + 1)) == next);
            assert forall|k: int| 0 <= k < i - start + 1 implies is_digit(#[trigger] d.take(i - start + 1)[k]) by {
                if k < i - start {
                    assert(d.take(i - start + 1)[k] == d.take(i - start)[k]);
                }
            }
        }
        if next > 65535 {
            proof {
                if all_digits(d) {
                    lemma_digits_value_grows(d, i - start + 1);
                }
                assert(u16_text_value(text@) is None);
            }
            return None;
        }
        value = next;
        i = i + 1;
    }
    assert(d.take(i - start) =~= d);
    if value == 0 {
        None
    } else {
        Some(value as u16)
    }
}

/// Reads a `usize` as `usize::from_str` does (see `unsigned_text_value`).
pub fn parse_usize(text: &str) -> (v: Option<usize>)
    ensures
        v == (match unsigned_text_value(text@, usize::MAX as nat) {
            Some(x) => Some(x as usize),
            None => None::<usize>,
        }),
{
    let n = text.unicode_len();
    let mut start: usize = 0;
    if n > 0 && text.get_char(0) == '+' {
        start = 1;
    }
    let ghost d = if text@.len() > 0 && text@[0] == '+' { text@.drop_first() } else { text@ };
    assert(d =~= text@.skip(start as int));
    if start >= n {
        return None;
    }
    let mut value: usize = 0;
    let mut i: usize = start;
    while i < n
        invariant
            n == text@.len(),
            start <= i <= n,
            d =~= text@.skip(start as int),
            d == (if text@.len() > 0 && text@[0] == '+' { text@.drop_first() } else { text@ }),
            all_digits(d.take(i - start)),
            value == digits_value(d.take(i - start)),
        decreases n - i,
    {
        let c = text.get_char(i);
        if !('0' <= c && c <= '9') {
            proof {
                assert(d[i - start] == c);
                assert(!is_digit(d[i - start]));
                assert(!all_digits(d));
            }
            return None;
        }
        let digit = (c as u32 - '0' as u32) as usize;
        proof {
            assert(d.take(i - start + 1).drop_last() =~= d.take(i - start));
            assert(d.take(i - start + 1).last() == c);
            assert(digits_value(d.take(i - start + 1)) == value * 10 + digit);
            assert forall|k: int| 0 <= k < i - start + 1 implies is_digit(#[trigger] d.take(i - start + 1)[k]) by {
                if k < i - start {
                    assert(d.take(i - start + 1)[k] == d.take(i - start)[k]);
                }
            }
        }
        let next = match value.checked_mul(10) {
            Some(t) => t.checked_add(digit),
            None => None,
        };
        match next {
            Some(x) => {
                value = x;
            },
            None => {
                proof {
                    if all_digits(d) {
                        lemma_digits_value_grows(d, i - start + 1);
                    }
                }
                return None;
            },
        }
        i = i + 1;
    }
    assert(d.take(i - start) =~= d);
    Some(value)
}

/// The dot-separated fields of `s` (one field when there is no dot).
pub open spec fn dot_fields(s: Seq<char>) -> Seq<Seq<char>>
    decreases s.len(),
{
    if s.len() == 0 {
        seq![Seq::<char>::empty()]
    } else {
        let f = dot_fields(s.drop_last());
        if s.last() == '.' {
            f.push(Seq::<char>::empty())
        } else {
            f.update(f.len() - 1, f.last().push(s.last()))
        }
    }
}

/// One field of a dotted IPv4 address as the standard library reads it: one to
/// three ASCII digits, no leading zero unless the field is `0`, value at most 255.
pub open spec fn is_octet(p: Seq<char>) -> bool {
    &&& 1 <= p.len() <= 3
    &&& all_digits(p)
    &&& (p.len() == 1 || p[0] != '0')
    &&& digits_value(p) <= 255
}

/// `s` is a dotted IPv4 address: exactly four fields, each an octet.
pub open spec fn is_ipv4_text(s: Seq<char>) -> bool {
    &&& dot_fields(s).len() == 4
    &&& forall|i: int| 0 <= i < 4 ==> is_octet(#[trigger] dot_fields(s)[i])
}

proof fn lemma_dot_fields_nonempty(s: Seq<char>)
    ensures
        dot_fields(s).len() >= 1,
    decreases s.len(),
{
    if s.len() > 0 {
        lemma_dot_fields_nonempty(s.drop_last());
    }
}

/// Whether a field of `len` characters starting with `first`, all digits when
/// `digits`, worth `value`, is an octet.
fn octet_ok(len: usize, first: char, value: u32, digits: bool) -> (ok: bool)
    ensures
        ok == (1 <= len <= 3 && digits && (len == 1 || first != '0') && value <= 255),
{
    1 <= len && len <= 3 && digits && (len == 1 || first != '0') && value <= 255
}

/// Whether `text` is a dotted IPv4 address, as `Ipv4Addr::from_str` accepts it
/// (see `is_ipv4_text`).
pub fn is_ipv4_address(text: &str) -> (ok: bool)
    ensures
        ok == is_ipv4_text(text@),
{
    let n = text.unicode_len();
    // Fields finished so far, and whether all of them were octets.
    let mut done: usize = 0;
    let mut good = true;
    // The field being read.
    let mut len: usize = 0;
    let mut first: char = ' ';
    let mut value: u32 = 0;
    let mut digits = true;
    let mut i: usize = 0;
    while i < n
        invariant
            n == text@.len(),
            i <= n,
            dot_fields(text@.take(i as int)).len() == done + 1,
            good == (forall|k: int| 0 <= k < done ==> is_octet(#[trigger] dot_fields(text@.take(i as int))[k])),
            len == dot_fields(text@.take(i as int))[done as int].len(),
            len > 0 ==> first == dot_fields(text@.take(i as int))[done as int][0],
            digits == all_digits(dot_fields(text@.take(i as int))[done as int]),
            len <= 3 && digits ==> value == digits_value(dot_fields(text@.take(i as int))[done as int]),
            value <= 999,
            len == 0 ==> value == 0,
            len == 1 ==> value <= 9,
            len == 2 ==> value <= 99,
            done <= i,
            len <= i,
        decreases n - i,
    {
        let c = text.get_char(i);
        let ghost before = text@.take(i as int);
        let ghost after = text@.take(i + 1);
        proof {
            assert(after.drop_last() =~= before);
            assert(after.last() == c);
            lemma_dot_fields_nonempty(before);
        }
        if c == '.' {
            let ok = octet_ok(len, first, value, digits);
            proof {
                let f = dot_fields(before);
                assert(dot_fields(after) == f.push(Seq::<char>::empty()));
                assert(ok == is_octet(f[done as int]));
                assert forall|k: int| 0 <= k < done + 1 implies (is_octet(#[trigger] dot_fields(after)[k]) == is_octet(f[k])) by {}
                if good && ok {
                    assert forall|k: int| 0 <= k < done + 1 implies is_octet(#[trigger] dot_fields(after)[k]) by {
                        assert(dot_fields(after)[k] == f[k]);
                    }
                }
                if !(good && ok) {
                    if !ok {
                        assert(!is_octet(dot_fields(after)[done as int]));
                    } else {
                        let k = choose|k: int| 0 <= k < done && !is_octet(#[trigger] f[k]);
                        assert(dot_fields(after)[k] == f[k]);
                    }
                }
                assert(all_digits(dot_fields(after)[done + 1]));
            }
            good = good && ok;
            done = done + 1;
            len = 0;
            value = 0;
            digits = true;
        } else {
            let is_d = '0' <= c && c <= '9';
            proof {
                let f = dot_fields(before);
                let cur = f[done as int];
                assert(dot_fields(after) == f.update(f.len() - 1, f.last().push(c)));
                let cur2 = cur.push(c);
                assert(dot_fields(after)[done as int] == cur2);
                assert forall|k: int| 0 <= k < done implies #[trigger] dot_fields(after)[k] == f[k] by {}
                assert(cur2.drop_last() =~= cur);
                if digits && is_d {
                    assert forall|k: int| 0 <= k < cur2.len() implies is_digit(#[trigger] cur2[k]) by {
                        if k < cur.len() {
                            assert(cur2[k] == cur[k]);
                        }
                    }
                } else if !is_d {
                    assert(!is_digit(cur2[cur.len() as int]));
                } else {
                    let k = choose|k: int| 0 <= k < cur.len() && !is_digit(#[trigger] cur[k]);
                    assert(cur2[k] == cur[k]);
                }
                if len > 0 {
                    assert(cur2[0] == cur[0]);
                }
                if good {
                    assert forall|k: int| 0 <= k < done implies is_octet(#[trigger] dot_fields(after)[k]) by {
                        assert(dot_fields(after)[k] == f[k]);
                    }
                } else {
                    let k = choose|k: int| 0 <= k < done && !is_octet(#[trigger] f[k]);
                    assert(dot_fields(after)[k] == f[k]);
                }
            }
            if len == 0 {
                first = c;
            }
            if is_d && len < 3 {
                value = value * 10 + (c as u32 - '0' as u32);
            }
            digits = digits && is_d;
            len = len + 1;
        }
        i = i + 1;
    }
    let ok = octet_ok(len, first, value, digits);
    assert(text@.take(n as int) =~= text@);
    good && ok && done == 3
}

} // verus!
