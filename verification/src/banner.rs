//! The banner shown for an open port: the first line of the service's
//! first reply, trimmed, reduced to what follows a `server:` field where it
//! has one.
use vstd::prelude::*;
use vstd::string::StrSliceExecFns;

verus! {

broadcast use vstd::string::group_string_axioms;

/// Text decoded from bytes by `String::from_utf8_lossy`.
pub uninterp spec fn utf8_lossy(bytes: Seq<u8>) -> Seq<char>;

/// Whether `c` has Unicode's White_Space property, which `char::is_whitespace`
/// and `str::trim` go by: the 25 code points listed.
pub open spec fn is_white_space(c: char) -> bool {
    let v = c as u32;
    ||| 0x09 <= v <= 0x0D
    ||| v == 0x20
    ||| v == 0x85
    ||| v == 0xA0
    ||| v == 0x1680
    ||| 0x2000 <= v <= 0x200A
    ||| v == 0x2028
    ||| v == 0x2029
    ||| v == 0x202F
    ||| v == 0x205F
    ||| v == 0x3000
}

/// Text without its leading whitespace.
pub open spec fn trim_start_spec(s: Seq<char>) -> Seq<char>
    decreases s.len(),
{
    if s.len() > 0 && is_white_space(s[0]) {
        trim_start_spec(s.skip(1))
    } else {
        s
    }
}

/// Text without its trailing whitespace.
pub open spec fn trim_end_spec(s: Seq<char>) -> Seq<char>
    decreases s.len(),
{
    if s.len() > 0 && is_white_space(s.last()) {
        trim_end_spec(s.drop_last())
    } else {
        s
    }
}

/// Text with its leading and trailing whitespace removed, as `str::trim`
/// removes it.
pub open spec fn trimmed(s: Seq<char>) -> Seq<char> {
    trim_end_spec(trim_start_spec(s))
}

/// Text lowercased by `str::to_lowercase`.
pub uninterp spec fn lowercased(s: Seq<char>) -> Seq<char>;

/// Decodes bytes as UTF-8, replacing invalid sequences
/// (`String::from_utf8_lossy`).  The contract names the decoded text
/// (`utf8_lossy`) and does not describe the decoding itself.
#[verifier::external_body]
fn decode_lossy(bytes: &[u8]) -> (s: String)
    ensures
        s@ == utf8_lossy(bytes@),
{
    String::from_utf8_lossy(bytes).into_owned()
}

/// Removes leading and trailing whitespace (`str::trim`): the characters
/// with Unicode's White_Space property (`is_white_space`) at either end.
#[verifier::external_body]
fn trim(s: &str) -> (r: &str)
    ensures
        r@ == trimmed(s@),
{
    s.trim()
}

/// Lowercases text (`str::to_lowercase`).  The contract names the result
/// (`lowercased`); Unicode's case mapping, under which one character may
/// become several, is left unsaid.
#[verifier::external_body]
fn to_lowercase(s: &str) -> (r: String)
    ensures
        r@ == lowercased(s@),
{
    s.to_lowercase()
}

/// Index of the first line feed in `s` at or after `i`, or the length of
/// `s` where there is none.
pub open spec fn line_end(s: Seq<char>, i: int) -> int
    decreases s.len() - i,
{
    if i >= s.len() {
        s.len() as int
    } else if s[i] == '\n' {
        i
    } else {
        line_end(s, i + 1)
    }
}

/// The first line of `s` as `str::lines` gives it: up to the first line
/// feed, without a carriage return just before it; the whole text where
/// there is no line feed.
pub open spec fn first_line_spec(s: Seq<char>) -> Seq<char> {
    let e = line_end(s, 0);
    if e < s.len() && e > 0 && s[e - 1] == '\r' {
        s.take(e - 1)
    } else {
        s.take(e)
    }
}

/// The first line of `text` (`str::lines().next()`, or nothing).
pub fn first_line(text: &str) -> (line: &str)
    ensures
        line@ == first_line_spec(text@),
{
    let n = text.unicode_len();
    let mut i: usize = 0;
    loop
        invariant
            n == text@.len(),
            i <= n,
            line_end(text@, 0) == line_end(text@, i as int),
        ensures
            i <= n,
            line_end(text@, 0) == i,
        decreases n - i,
    {
        if i >= n {
            break;
        }
        if text.get_char(i) == '\n' {
            break;
        }
        i += 1;
    }
    if i < n && i > 0 && text.get_char(i - 1) == '\r' {
        text.substring_char(0, i - 1)
    } else {
        text.substring_char(0, i)
    }
}

/// The field name looked for in a banner.
pub open spec fn server_tag() -> Seq<char> {
    seq!['s', 'e', 'r', 'v', 'e', 'r', ':']
}

/// Whether the field name stands in `h` at index `k`.
pub open spec fn tag_at(h: Seq<char>, k: int) -> bool {
    0 <= k && k + 7 <= h.len() && h.subrange(k, k + 7) == server_tag()
}

/// The first index at or after `k` where the field name stands in `h`.
pub open spec fn find_tag(h: Seq<char>, k: int) -> Option<int>
    decreases h.len() - k,
{
    if k < 0 || k + 7 > h.len() {
        None
    } else if tag_at(h, k) {
        Some(k)
    } else {
        find_tag(h, k + 1)
    }
}

/// Bytes that a character takes in UTF-8.
pub open spec fn utf8_width(c: char) -> int {
    if (c as u32) < 0x80 {
        1
    } else if (c as u32) < 0x800 {
        2
    } else if (c as u32) < 0x10000 {
        3
    } else {
        4
    }
}

/// Bytes that a text takes in UTF-8.
pub open spec fn utf8_len(s: Seq<char>) -> int
    decreases s.len(),
{
    if s.len() == 0 {
        0
    } else {
        utf8_len(s.drop_last()) + utf8_width(s.last())
    }
}

/// The number of leading characters of `s` that take exactly `b` bytes,
/// or `None` where byte `b` falls inside a character or past the end.
pub open spec fn char_index_of_byte(s: Seq<char>, b: int) -> Option<int> {
    if exists|m: int| 0 <= m <= s.len() && utf8_len(#[trigger] s.take(m)) == b {
        Some(choose|m: int| 0 <= m <= s.len() && utf8_len(#[trigger] s.take(m)) == b)
    } else {
        None
    }
}

/// The banner kept from the trimmed first line `line` of a reply, given
/// its lowercase form `lower`: the line itself, or, where `lower` holds the
/// field name, the trimmed text after it.  The field is cut from `line` at
/// the byte offset where it ends in `lower`; `None` where that offset is
/// not a character boundary of `line`.
pub open spec fn banner_after_spec(line: Seq<char>, lower: Seq<char>) -> Option<Seq<char>> {
    match find_tag(lower, 0) {
        None => Some(line),
        Some(k) => match char_index_of_byte(line, utf8_len(lower.take(k)) + 7) {
            Some(m) => Some(trimmed(line.skip(m))),
            None => None,
        },
    }
}

/// The banner kept from a service's first reply (see `banner_after_spec`).
pub open spec fn banner_spec(reply: Seq<u8>) -> Option<Seq<char>> {
    let line = trimmed(first_line_spec(utf8_lossy(reply)));
    banner_after_spec(line, lowercased(line))
}

proof fn lemma_width_positive(c: char)
    ensures
        1 <= utf8_width(c) <= 4,
{
}

proof fn lemma_prefix_len_step(s: Seq<char>, m: int)
    requires
        0 <= m < s.len(),
    ensures
        utf8_len(s.take(m + 1)) == utf8_len(s.take(m)) + utf8_width(s[m]),
{
    assert(s.take(m + 1).drop_last() =~= s.take(m));
}

/// Longer prefixes take more bytes.
proof fn lemma_prefix_len_increases(s: Seq<char>, m1: int, m2: int)
    requires
        0 <= m1 < m2 <= s.len(),
    ensures
        utf8_len(s.take(m1)) < utf8_len(s.take(m2)),
    decreases m2 - m1,
{
    lemma_prefix_len_step(s, m2 - 1);
    lemma_width_positive(s[m2 - 1]);
    if m1 < m2 - 1 {
        lemma_prefix_len_increases(s, m1, m2 - 1);
    }
}

fn width_of(c: char) -> (w: u128)
    ensures
        w == utf8_width(c),
{
    let v = c as u32;
    if v < 0x80 {
        1
    } else if v < 0x800 {
        2
    } else if v < 0x10000 {
        3
    } else {
        4
    }
}

fn find_server_tag(h: &str) -> (r: Option<usize>)
    ensures
        r matches Some(k) ==> find_tag(h@, 0) == Some(k as int) && k + 7 <= h@.len(),
        r is None ==> find_tag(h@, 0) is None,
{
    let n = h.unicode_len();
    if n < 7 {
        return None;
    }
    let tag = ['s', 'e', 'r', 'v', 'e', 'r', ':'];
    assert(tag@ =~= server_tag());
    let mut k: usize = 0;
    while k <= n - 7
        invariant
            n == h@.len(),
            n >= 7,
            tag@ == server_tag(),
            find_tag(h@, 0) == find_tag(h@, k as int),
        decreases n - k,
    {
        let mut j: usize = 0;
        let mut same = true;
        while j < 7
            invariant
                n == h@.len(),
                k + 7 <= n,
                j <= 7,
                tag@ == server_tag(),
                same == (forall|t: int| 0 <= t < j ==> h@[k + t] == tag@[t]),
            decreases 7 - j,
        {
            if h.get_char(k + j) != tag[j] {
                same = false;
            }
            j += 1;
        }
        if same {
            assert(h@.subrange(k as int, k + 7) =~= server_tag());
            return Some(k);
        } else {
            assert(!tag_at(h@, k as int)) by {
                if tag_at(h@, k as int) {
                    assert forall|t: int| 0 <= t < 7 implies h@[k + t] == tag@[t] by {
                        assert(h@.subrange(k as int, k + 7)[t] == h@[k + t]);
                    }
                }
            }
        }
        k += 1;
    }
    None
}

fn utf8_len_of_prefix(s: &str, k: usize) -> (b: u128)
    requires
        k <= s@.len(),
    ensures
        b == utf8_len(s@.take(k as int)),
        b <= 4 * k,
{
    let mut acc: u128 = 0;
    let mut i: usize = 0;
    assert(s@.take(0) =~= Seq::<char>::empty());
    while i < k
        invariant
            k <= s@.len(),
            i <= k,
            acc == utf8_len(s@.take(i as int)),
            acc <= 4 * i,
        decreases k - i,
    {
        let c = s.get_char(i);
        proof {
            lemma_prefix_len_step(s@, i as int);
            lemma_width_positive(c);
        }
        acc = acc + width_of(c);
        i += 1;
    }
    acc
}

fn char_index_at_byte(s: &str, b: u128) -> (r: Option<usize>)
    ensures
        r matches Some(m) ==> char_index_of_byte(s@, b as int) == Some(m as int),
        r is None ==> char_index_of_byte(s@, b as int) is None,
{
    let n = s.unicode_len();
    let mut acc: u128 = 0;
    let mut m: usize = 0;
    assert(s@.take(0) =~= Seq::<char>::empty());
    loop
        invariant
            n == s@.len(),
            m <= n,
            acc == utf8_len(s@.take(m as int)),
            acc <= 4 * m,
            forall|m2: int| 0 <= m2 < m ==> utf8_len(#[trigger] s@.take(m2)) < b,
        decreases n - m,
    {
        if acc == b {
            proof {
                let c = choose|m3: int| 0 <= m3 <= s@.len() && utf8_len(#[trigger] s@.take(m3)) == b;
                if c < m {
                    assert(utf8_len(s@.take(c)) < b);
                } else if c > m {
                    lemma_prefix_len_increases(s@, m as int, c);
                }
            }
            return Some(m);
        }
        if acc > b || m == n {
            proof {
                assert forall|m3: int| 0 <= m3 <= s@.len() implies utf8_len(
                    #[trigger] s@.take(m3),
                ) != b by {
                    if m3 > m {
                        lemma_prefix_len_increases(s@, m as int, m3);
                    }
                }
            }
            return None;
        }
        let c = s.get_char(m);
        proof {
            lemma_prefix_len_step(s@, m as int);
            lemma_width_positive(c);
        }
        acc = acc + width_of(c);
        m += 1;
    }
}

/// The banner kept from the trimmed first line `line` of a reply and its
/// lowercase form `lower` (see `banner_after_spec`).
pub fn banner_after(line: &str, lower: &str) -> (r: Option<String>)
    ensures
        r is Some <==> banner_after_spec(line@, lower@) is Some,
        r matches Some(s) ==> Some(s@) == banner_after_spec(line@, lower@),
{
    match find_server_tag(lower) {
        None => Some(line.to_string()),
        Some(k) => {
            let offset = utf8_len_of_prefix(lower, k) + 7;
            match char_index_at_byte(line, offset) {
                Some(m) => {
                    let rest = line.substring_char(m, line.unicode_len());
                    assert(rest@ =~= line@.skip(m as int));
                    Some(trim(rest).to_string())
                },
                None => None,
            }
        },
    }
}

/// The banner kept from a service's first reply: `None` where the field
/// after `server:` would have to be cut inside a character.
pub fn banner_from_reply(reply: &[u8]) -> (r: Option<String>)
    ensures
        r is Some <==> banner_spec(reply@) is Some,
        r matches Some(s) ==> Some(s@) == banner_spec(reply@),
{
    let text = decode_lossy(reply);
    let line = trim(first_line(text.as_str()));
    let lower = to_lowercase(line);
    banner_after(line, lower.as_str())
}

/// The banner of a connected service given what it first sent (nothing
/// where the read failed or timed out): `No banner` for an empty reply,
/// otherwise as `banner_from_reply`.
pub fn reply_banner(reply: &[u8]) -> (r: Option<String>)
    ensures
        reply@.len() == 0 ==> (r matches Some(s) && s@ == "No banner"@),
        reply@.len() > 0 ==> (r is Some <==> banner_spec(reply@) is Some),
        reply@.len() > 0 ==> (r matches Some(s) ==> Some(s@) == banner_spec(reply@)),
{
    if reply.len() == 0 {
        Some("No banner".to_string())
    } else {
        banner_from_reply(reply)
    }
}

} // verus!
