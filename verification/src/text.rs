//! Character-level editing of `String` buffers and decimal parsing of text
//! typed by the user.
use vstd::prelude::*;
use vstd::string::StrSliceExecFns;

verus! {

/// Appends `c` to `s` (`String::push`).
#[verifier::external_body]
pub(crate) fn push_char(s: &mut String, c: char)
    ensures
        final(s)@ == old(s)@.push(c),
{
    s.push(c)
}

/// Removes and returns the last character of `s` (`String::pop`), or
/// returns `None` and leaves `s` alone where it is empty.
#[verifier::external_body]
pub(crate) fn pop_char(s: &mut String) -> (r: Option<char>)
    ensures
        old(s)@.len() == 0 ==> r is None && final(s)@ == old(s)@,
        old(s)@.len() > 0 ==> r == Some(old(s)@.last()) && final(s)@ == old(s)@.drop_last(),
{
    s.pop()
}

/// Whether `c` is one of the ASCII digits `0` to `9`.
pub open spec fn is_decimal_digit(c: char) -> bool {
    '0' <= c && c <= '9'
}

/// The number written by a sequence of decimal digits.
pub open spec fn decimal_value(d: Seq<char>) -> int
    decreases d.len(),
{
    if d.len() == 0 {
        0
    } else {
        decimal_value(d.drop_last()) * 10 + (d.last() as int - '0' as int)
    }
}

/// The digits of a decimal number: the text after an optional leading `+`.
pub open spec fn decimal_body(s: Seq<char>) -> Seq<char> {
    if s.len() > 0 && s[0] == '+' {
        s.skip(1)
    } else {
        s
    }
}

/// Whether every character of `d` is a decimal digit.
pub open spec fn all_decimal_digits(d: Seq<char>) -> bool {
    forall|i: int| 0 <= i < d.len() ==> #[trigger] is_decimal_digit(d[i])
}

/// The number that the standard library reads from `s` as an unsigned
/// integer of at most `max` (`u16::from_str`, `u32::from_str`): an
/// optional `+` followed by at least one decimal digit and nothing else,
/// whose value is at most `max`.
pub open spec fn decimal_number(s: Seq<char>, max: int) -> Option<int> {
    let d = decimal_body(s);
    if d.len() > 0 && all_decimal_digits(d) && decimal_value(d) <= max {
        Some(decimal_value(d))
    } else {
        None
    }
}

/// What a successful read tells about the text: its body is made of
/// digits, and the number is at most `max`.
pub proof fn lemma_decimal_number_digits(s: Seq<char>, max: int, j: int)
    requires
        decimal_number(s, max) is Some,
        0 <= j < decimal_body(s).len(),
    ensures
        is_decimal_digit(decimal_body(s)[j]),
        decimal_number(s, max) == Some(decimal_value(decimal_body(s))),
        0 <= decimal_value(decimal_body(s)) <= max,
{
    lemma_prefix_value_le(decimal_body(s), decimal_body(s).len() as int);
}

/// The number written by a prefix of a string of digits is at most the
/// number written by the whole string, and never negative.
proof fn lemma_prefix_value_le(d: Seq<char>, k: int)
    requires
        all_decimal_digits(d),
        0 <= k <= d.len(),
    ensures
        0 <= decimal_value(d.take(k)) <= decimal_value(d),
    decreases d.len(),
{
    if k == d.len() {
        assert(d.take(k) =~= d);
        if d.len() > 0 {
            let e = d.drop_last();
            assert(all_decimal_digits(e)) by {
                assert forall|i: int| 0 <= i < e.len() implies #[trigger] is_decimal_digit(e[i]) by {
                    assert(is_decimal_digit(d[i]));
                }
            }
            lemma_prefix_value_le(e, e.len() as int);
            assert(e.take(e.len() as int) =~= e);
            assert(is_decimal_digit(d[d.len() - 1]));
        }
    } else {
        let e = d.drop_last();
        assert(all_decimal_digits(e)) by {
            assert forall|i: int| 0 <= i < e.len() implies #[trigger] is_decimal_digit(e[i]) by {
                assert(is_decimal_digit(d[i]));
            }
        }
        lemma_prefix_value_le(e, k);
        assert(e.take(k) =~= d.take(k));
        lemma_prefix_value_le(e, e.len() as int);
        assert(e.take(e.len() as int) =~= e);
        assert(is_decimal_digit(d[d.len() - 1]));
    }
}

/// Reads `s` as an unsigned decimal number of at most `max`, as the
/// standard library's `from_str` of the unsigned integer types does.
pub fn parse_decimal(s: &str, max: u32) -> (r: Option<u32>)
    ensures
        r is Some <==> decimal_number(s@, max as int) is Some,
        r matches Some(v) ==> Some(v as int) == decimal_number(s@, max as int),
{
    let n = s.unicode_len();
    let start: usize = if n > 0 && s.get_char(0) == '+' {
        1
    } else {
        0
    };
    let ghost d = decimal_body(s@);
    assert(d =~= s@.skip(start as int));
    if start >= n {
        return None;
    }
    let mut acc: u64 = 0;
    let mut i: usize = start;
    assert(d.take(0) =~= Seq::<char>::empty());
    while i < n
        invariant
            n == s@.len(),
            d == decimal_body(s@),
            d == s@.skip(start as int),
            start <= i <= n,
            start < n,
            acc == decimal_value(d.take(i - start)),
            acc <= max,
            all_decimal_digits(d.take(i - start)),
        decreases n - i,
    {
        let c = s.get_char(i);
        assert(d[i - start] == c);
        if !('0' <= c && c <= '9') {
            assert(!is_decimal_digit(d[i - start]));
            assert(!all_decimal_digits(d));
            return None;
        }
        let digit = (c as u32 - '0' as u32) as u64;
        let ghost t = d.take(i - start + 1);
        assert(t.drop_last() =~= d.take(i - start));
        assert(t.last() == c);
        assert(all_decimal_digits(t)) by {
            assert forall|j: int| 0 <= j < t.len() implies #[trigger] is_decimal_digit(t[j]) by {
                if j < t.len() - 1 {
                    assert(t[j] == d.take(i - start)[j]);
                }
            }
        }
        assert(digit == c as int - '0' as int);
        acc = acc * 10 + digit;
        assert(acc == decimal_value(t));
        if acc > max as u64 {
            proof {
                if all_decimal_digits(d) {
                    lemma_prefix_value_le(d, i - start + 1);
                    assert(decimal_value(d) > max);
                }
            }
            return None;
        }
        i += 1;
    }
    assert(d.take(n - start) =~= d);
    Some(acc as u32)
}

/// Reads `s` as a `u16` (as `u16::from_str` does), `None` where it is not
/// one.
pub fn parse_u16(s: &str) -> (r: Option<u16>)
    ensures
        r is Some <==> decimal_number(s@, u16::MAX as int) is Some,
        r matches Some(v) ==> Some(v as int) == decimal_number(s@, u16::MAX as int),
{
    match parse_decimal(s, 65535) {
        Some(v) => Some(v as u16),
        None => None,
    }
}

/// Reads `s` as a `u32` (as `u32::from_str` does), `None` where it is not
/// one.
pub fn parse_u32(s: &str) -> (r: Option<u32>)
    ensures
        r is Some <==> decimal_number(s@, u32::MAX as int) is Some,
        r matches Some(v) ==> Some(v as int) == decimal_number(s@, u32::MAX as int),
{
    parse_decimal(s, u32::MAX)
}

} // verus!
