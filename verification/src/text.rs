//! Paths and names, compared byte for byte.

use vstd::prelude::*;
use vstd::utf8::{encode_utf8, encode_utf8_decode_utf8, valid_utf8};

verus! {

/// Whether the bytes of `prefix` open the bytes of `path`. Nothing is
/// normalized: the comparison is byte for byte, and the empty prefix opens
/// every path.
pub open spec fn is_path_prefix(prefix: Seq<char>, path: Seq<char>) -> bool {
    encode_utf8(prefix).is_prefix_of(encode_utf8(path))
}

/// Two texts with the same bytes are the same text.
pub proof fn lemma_same_bytes_same_text(a: Seq<char>, b: Seq<char>)
    requires
        encode_utf8(a) == encode_utf8(b),
    ensures
        a == b,
{
    encode_utf8_decode_utf8(a);
    encode_utf8_decode_utf8(b);
}

/// Whether `prefix` opens `text`.
pub fn bytes_start_with(text: &[u8], prefix: &[u8]) -> (yes: bool)
    ensures
        yes == prefix@.is_prefix_of(text@),
{
    if prefix.len() > text.len() {
        return false;
    }
    let mut i: usize = 0;
    while i < prefix.len()
        invariant
            0 <= i <= prefix.len() <= text.len(),
            forall|j: int| 0 <= j < i ==> prefix[j] == text[j],
        decreases prefix.len() - i,
    {
        if prefix[i] != text[i] {
            assert(prefix@[i as int] != text@.subrange(0, prefix@.len() as int)[i as int]);
            return false;
        }
        i += 1;
    }
    assert(prefix@ =~= text@.subrange(0, prefix@.len() as int));
    true
}

/// Whether the path `path` begins with `prefix`.
pub fn has_path_prefix(path: &str, prefix: &str) -> (yes: bool)
    ensures
        yes == is_path_prefix(prefix@, path@),
{
    bytes_start_with(path.as_bytes(), prefix.as_bytes())
}

/// Whether `a` and `b` are the same text.
pub fn same_text(a: &str, b: &str) -> (yes: bool)
    ensures
        yes == (a@ == b@),
{
    let left = a.as_bytes();
    let right = b.as_bytes();
    if left.len() != right.len() {
        return false;
    }
    let yes = bytes_start_with(left, right);
    proof {
        if yes {
            assert(left@ =~= right@);
            lemma_same_bytes_same_text(a@, b@);
        }
    }
    yes
}

/// Reads `bytes` as text.
///
/// Trusted: this is `core::str::from_utf8`. It succeeds exactly on
/// well-formed UTF-8, and the text it returns consists of the bytes given.
#[verifier::external_body]
pub(crate) fn utf8_text<'a>(bytes: &'a [u8]) -> (text: Option<&'a str>)
    ensures
        text is Some <==> valid_utf8(bytes@),
        text matches Some(s) ==> encode_utf8(s@) == bytes@,
{
    core::str::from_utf8(bytes).ok()
}

/// The decimal digits of `n`, as ASCII, without leading zeros.
pub open spec fn decimal(n: nat) -> Seq<u8>
    decreases n,
{
    if n < 10 {
        seq![(48 + n) as u8]
    } else {
        decimal(n / 10).push((48 + n % 10) as u8)
    }
}

/// Appends the decimal digits of `n` to `out`.
pub fn push_decimal(out: &mut Vec<u8>, n: u64)
    ensures
        final(out)@ == old(out)@ + decimal(n as nat),
    decreases n,
{
    if n >= 10 {
        push_decimal(out, n / 10);
    }
    let digit: u8 = 48 + (n % 10) as u8;
    out.push(digit);
    assert(out@ =~= old(out)@ + decimal(n as nat));
}

/// Appends `bytes` to `out`.
pub fn push_bytes(out: &mut Vec<u8>, bytes: &[u8])
    ensures
        final(out)@ == old(out)@ + bytes@,
{
    let mut i: usize = 0;
    while i < bytes.len()
        invariant
            0 <= i <= bytes.len(),
            out@ == old(out)@ + bytes@.take(i as int),
        decreases bytes.len() - i,
    {
        out.push(bytes[i]);
        assert(out@ =~= old(out)@ + bytes@.take(i + 1));
        i += 1;
    }
    assert(bytes@.take(i as int) =~= bytes@);
}

/// The texts of `strings`.
pub open spec fn texts(strings: Seq<String>) -> Seq<Seq<char>> {
    strings.map_values(|s: String| s@)
}

/// The bytes of `lines`, one after the other, with a line feed between
/// each two.
pub open spec fn joined(lines: Seq<Seq<char>>) -> Seq<u8>
    decreases lines.len(),
{
    if lines.len() == 0 {
        Seq::empty()
    } else if lines.len() == 1 {
        encode_utf8(lines[0])
    } else {
        joined(lines.drop_last()) + seq![10u8] + encode_utf8(lines.last())
    }
}

/// Joins `lines` with line feeds.
pub fn join_lines(lines: &Vec<String>) -> (bytes: Vec<u8>)
    ensures
        bytes@ == joined(texts(lines@)),
{
    let mut bytes: Vec<u8> = Vec::new();
    let mut i: usize = 0;
    while i < lines.len()
        invariant
            0 <= i <= lines.len(),
            bytes@ == joined(texts(lines@).take(i as int)),
        decreases lines.len() - i,
    {
        proof {
            let whole = texts(lines@).take(i + 1);
            assert(whole.drop_last() =~= texts(lines@).take(i as int));
            assert(whole.last() == lines@[i as int]@);
        }
        if i > 0 {
            bytes.push(10u8);
        }
        push_bytes(&mut bytes, lines[i].as_str().as_bytes());
        assert(bytes@ =~= joined(texts(lines@).take(i + 1)));
        i += 1;
    }
    assert(texts(lines@).take(i as int) =~= texts(lines@));
    bytes
}

} // verus!
