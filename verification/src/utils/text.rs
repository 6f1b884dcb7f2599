//! Byte-level helpers for UTF-8 text.
//!
//! Text is searched and cut by byte offsets, as `str` does. The helpers here
//! only ever cut next to an ASCII byte, which is always a character boundary.

use vstd::prelude::*;
use vstd::string::StringExecFns;
use vstd::string::StringSliceAdditionalSpecFns;
use vstd::utf8::encode_utf8;
use vstd::utf8::is_char_boundary;
use vstd::utf8::valid_utf8;

verus! {

/// The UTF-8 bytes of a character sequence.
pub open spec fn utf8(s: Seq<char>) -> Seq<u8> {
    encode_utf8(s)
}

/// Two character sequences with the same UTF-8 encoding are the same sequence.
pub proof fn lemma_utf8_injective(a: Seq<char>, b: Seq<char>)
    requires
        utf8(a) == utf8(b),
    ensures
        a == b,
{
    vstd::utf8::encode_utf8_decode_utf8(a);
    vstd::utf8::encode_utf8_decode_utf8(b);
}

/// Encoding distributes over concatenation.
pub proof fn lemma_utf8_concat(a: Seq<char>, b: Seq<char>)
    ensures
        utf8(a + b) == utf8(a) + utf8(b),
    decreases a.len(),
{
    if a.len() == 0 {
        assert(a + b =~= b);
        assert(utf8(a) + utf8(b) =~= utf8(b));
    } else {
        lemma_utf8_concat(a.drop_first(), b);
        assert((a + b).drop_first() =~= a.drop_first() + b);
        assert(utf8(a + b) =~= utf8(a) + utf8(b));
    }
}

/// `i` is the place of the first `b` in `s`, or the length of `s` where it holds none.
pub open spec fn is_first_byte(s: Seq<u8>, b: u8, i: int) -> bool {
    &&& 0 <= i <= s.len()
    &&& i < s.len() ==> s[i] == b
    &&& forall|j: int| 0 <= j < i ==> s[j] != b
}

/// The place of the first `b` in `s`, or the length of `s` where it holds none.
pub open spec fn first_byte(s: Seq<u8>, b: u8) -> int {
    choose|i: int| is_first_byte(s, b, i)
}

pub proof fn lemma_first_byte(s: Seq<u8>, b: u8, i: int)
    requires
        is_first_byte(s, b, i),
    ensures
        first_byte(s, b) == i,
{
    let k = first_byte(s, b);
    assert(is_first_byte(s, b, k));
    if k < i {
        assert(s[k] != b);
    } else if i < k {
        assert(s[i] != b);
    }
}

/// Finds the first `b` in `s`; the length of `s` where there is none.
pub fn find_byte(s: &[u8], b: u8) -> (i: usize)
    ensures
        i == first_byte(s@, b),
        is_first_byte(s@, b, i as int),
{
    let mut i: usize = 0;
    while i < s.len() && s[i] != b
        invariant
            i <= s.len(),
            forall|j: int| 0 <= j < i ==> s@[j] != b,
        decreases s.len() - i,
    {
        i += 1;
    }
    proof {
        lemma_first_byte(s@, b, i as int);
    }
    i
}

/// Whether two byte slices hold the same bytes.
pub fn bytes_eq(a: &[u8], b: &[u8]) -> (r: bool)
    ensures
        r == (a@ == b@),
{
    if a.len() != b.len() {
        return false;
    }
    let mut i: usize = 0;
    while i < a.len()
        invariant
            i <= a.len(),
            a.len() == b.len(),
            forall|j: int| 0 <= j < i ==> a@[j] == b@[j],
        decreases a.len() - i,
    {
        if a[i] != b[i] {
            return false;
        }
        i += 1;
    }
    assert(a@ =~= b@);
    true
}

/// Whether two strings hold the same text.
pub fn str_eq(a: &str, b: &str) -> (r: bool)
    ensures
        r == (a@ == b@),
{
    let r = bytes_eq(a.as_bytes(), b.as_bytes());
    proof {
        if r {
            lemma_utf8_injective(a@, b@);
        }
    }
    r
}

/// In valid UTF-8 an ASCII byte starts a character, and the next one starts after it.
pub proof fn lemma_ascii_is_boundary(bytes: Seq<u8>, i: int)
    requires
        valid_utf8(bytes),
        0 <= i <= bytes.len(),
        i < bytes.len() ==> bytes[i] < 0x80,
    ensures
        is_char_boundary(bytes, i),
{
    if i == bytes.len() {
        vstd::utf8::is_char_boundary_start_end_of_seq(bytes);
    } else {
        vstd::utf8::is_char_boundary_iff_not_is_continuation_byte(bytes, i);
    }
}

/// Cuts `s` before its byte `i`, which is an ASCII byte or the end of `s`.
pub fn split_before_ascii<'a>(s: &'a str, i: usize) -> (r: (&'a str, &'a str))
    requires
        i <= s.spec_bytes().len(),
        i < s.spec_bytes().len() ==> s.spec_bytes()[i as int] < 0x80,
    ensures
        r.0.spec_bytes() == s.spec_bytes().take(i as int),
        r.1.spec_bytes() == s.spec_bytes().skip(i as int),
{
    proof {
        vstd::utf8::encode_utf8_valid_utf8(s@);
        lemma_ascii_is_boundary(s.spec_bytes(), i as int);
    }
    let r = s.split_at(i);
    assert(r.0.spec_bytes() =~= s.spec_bytes().take(i as int));
    assert(r.1.spec_bytes() =~= s.spec_bytes().skip(i as int));
    r
}

/// Drops the first byte of `s`, which is an ASCII byte.
pub fn drop_ascii_head<'a>(s: &'a str) -> (r: &'a str)
    requires
        s.spec_bytes().len() > 0,
        s.spec_bytes()[0] < 0x80,
    ensures
        r.spec_bytes() == s.spec_bytes().skip(1),
{
    proof {
        vstd::utf8::encode_utf8_valid_utf8(s@);
        reveal_with_fuel(is_char_boundary, 2);
        assert(is_char_boundary(s.spec_bytes(), 1));
    }
    let r = s.split_at(1);
    assert(r.1.spec_bytes() =~= s.spec_bytes().skip(1));
    r.1
}

/// The ASCII digit for `d`, which is below ten.
pub open spec fn digit(d: nat) -> u8 {
    (48 + d) as u8
}

/// The decimal digits of `n`, most significant first, without leading zeros.
pub open spec fn decimal(n: nat) -> Seq<u8>
    decreases n,
{
    if n < 10 {
        seq![digit(n)]
    } else {
        decimal(n / 10).push(digit(n % 10))
    }
}

/// The text of one decimal digit.
fn digit_text(d: u64) -> (r: &'static str)
    requires
        d < 10,
    ensures
        utf8(r@) == seq![digit(d as nat)],
{
    let r = if d == 0 {
        "0"
    } else if d == 1 {
        "1"
    } else if d == 2 {
        "2"
    } else if d == 3 {
        "3"
    } else if d == 4 {
        "4"
    } else if d == 5 {
        "5"
    } else if d == 6 {
        "6"
    } else if d == 7 {
        "7"
    } else if d == 8 {
        "8"
    } else {
        "9"
    };
    proof {
        reveal_strlit("0");
        reveal_strlit("1");
        reveal_strlit("2");
        reveal_strlit("3");
        reveal_strlit("4");
        reveal_strlit("5");
        reveal_strlit("6");
        reveal_strlit("7");
        reveal_strlit("8");
        reveal_strlit("9");
        vstd::utf8::is_ascii_chars_encode_utf8(r@);
        assert(utf8(r@) =~= seq![digit(d as nat)]);
    }
    r
}

/// Writes `n` in decimal.
pub fn decimal_string(n: u64) -> (s: String)
    ensures
        utf8(s@) == decimal(n as nat),
    decreases n,
{
    if n < 10 {
        String::from_str(digit_text(n))
    } else {
        let mut s = decimal_string(n / 10);
        let ghost head = s@;
        let last = digit_text(n % 10);
        s.append(last);
        proof {
            lemma_utf8_concat(head, last@);
            assert(utf8(s@) =~= decimal(n as nat));
        }
        s
    }
}

/// Appends `piece` to `out`.
pub fn push_text(out: &mut String, piece: &str)
    ensures
        final(out)@ == old(out)@ + piece@,
        utf8(final(out)@) == utf8(old(out)@) + utf8(piece@),
{
    let ghost before = out@;
    out.append(piece);
    proof {
        lemma_utf8_concat(before, piece@);
    }
}

/// The text that well-formed UTF-8 bytes spell.
pub open spec fn text_of(bytes: Seq<u8>) -> Seq<char> {
    vstd::utf8::decode_utf8(bytes)
}

/// A text is the text that its bytes spell.
pub proof fn lemma_text_of_utf8(s: Seq<char>)
    ensures
        text_of(utf8(s)) == s,
{
    vstd::utf8::encode_utf8_decode_utf8(s);
}

/// Bytes below 128 are well-formed UTF-8, one character each.
pub proof fn lemma_ascii_is_utf8(bytes: Seq<u8>)
    requires
        forall|i: int| 0 <= i < bytes.len() ==> #[trigger] bytes[i] < 0x80,
    ensures
        valid_utf8(bytes),
{
    assert(valid_utf8(bytes.subrange(0, 0)));
    assert forall|i: int| 0 <= 0 <= i < bytes.len() <= bytes.len() implies #[trigger]
        vstd::utf8::is_leading_byte_width_1(bytes[i]) by {}
    vstd::utf8::partial_valid_utf8_extend_ascii_block(bytes, 0, bytes.len() as int);
    assert(bytes.subrange(0, bytes.len() as int) =~= bytes);
}

/// `std::str::from_utf8`: the bytes read as text, where they are
/// well-formed UTF-8, and nothing where they are not.
#[verifier::external_body]
pub(crate) fn str_from_utf8(bytes: &[u8]) -> (text: Option<&str>)
    ensures
        text is Some <==> valid_utf8(bytes@),
        text matches Some(s) ==> s.spec_bytes() == bytes@,
{
    std::str::from_utf8(bytes).ok()
}

/// Whether `s` begins with `prefix`.
pub fn bytes_start_with(s: &[u8], prefix: &[u8]) -> (r: bool)
    ensures
        r == prefix@.is_prefix_of(s@),
{
    if prefix.len() > s.len() {
        return false;
    }
    let mut i: usize = 0;
    while i < prefix.len()
        invariant
            i <= prefix.len() <= s.len(),
            forall|j: int| 0 <= j < i ==> s@[j] == prefix@[j],
        decreases prefix.len() - i,
    {
        if s[i] != prefix[i] {
            assert(s@.subrange(0, prefix@.len() as int)[i as int] != prefix@[i as int]);
            return false;
        }
        i += 1;
    }
    assert(s@.subrange(0, prefix@.len() as int) =~= prefix@);
    true
}

/// `None` for an empty text, the text itself for any other.
pub fn none_if_empty(s: String) -> (r: Option<String>)
    ensures
        s@.len() == 0 ==> r is None,
        s@.len() > 0 ==> r == Some(s),
{
    if s.as_str().is_empty() {
        None
    } else {
        Some(s)
    }
}

} // verus!
