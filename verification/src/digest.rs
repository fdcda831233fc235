//! Keccak-256 digests and lower-case hex text, as the chain types use them.
use vstd::prelude::*;
use vstd::utf8::*;
use vstd::string::*;
use hasher::Hasher;

verus! {

broadcast use vstd::slice::group_slice_axioms;

/// The Keccak-256 digest of `data`.
pub uninterp spec fn keccak256_of(data: Seq<u8>) -> Seq<u8>;

/// `hasher::HasherKeccak::digest`: the Keccak-256 digest of `data`, 32 bytes long.
/// The digest itself is named, not described; only its length is stated.
#[verifier::external_body]
pub(crate) fn keccak256(data: &[u8]) -> (r: Vec<u8>)
    ensures
        r@ == keccak256_of(data@),
        r@.len() == 32,
{
    hasher::HasherKeccak::new().digest(data)
}

/// The lower-case hex digit for `n` (`0 <= n < 16`).
pub open spec fn hex_digit(n: int) -> char {
    if n < 10 {
        (48 + n) as char
    } else {
        (87 + n) as char
    }
}

/// Lower-case hex text of `data`: two digits per byte, high nibble first.
pub open spec fn hex_chars(data: Seq<u8>) -> Seq<char>
    decreases data.len(),
{
    if data.len() == 0 {
        Seq::empty()
    } else {
        seq![hex_digit(data[0] as int / 16), hex_digit(data[0] as int % 16)] + hex_chars(data.drop_first())
    }
}

/// The bytes of the hex text of `data` (it is ASCII, so one byte per digit).
pub open spec fn hex_bytes(data: Seq<u8>) -> Seq<u8> {
    hex_chars(data).map_values(|c: char| c as u8)
}

/// `hex::encode`: the lower-case hex text of `data`, two digits per byte.
#[verifier::external_body]
pub(crate) fn hex_encode(data: &[u8]) -> (r: String)
    ensures
        r@ == hex_chars(data@),
{
    hex::encode(data)
}

pub proof fn lemma_hex_chars_len(data: Seq<u8>)
    ensures
        hex_chars(data).len() == 2 * data.len(),
    decreases data.len(),
{
    if data.len() > 0 {
        lemma_hex_chars_len(data.drop_first());
    }
}

proof fn lemma_hex_chars_ascii(data: Seq<u8>)
    ensures
        is_ascii_chars(hex_chars(data)),
    decreases data.len(),
{
    if data.len() > 0 {
        lemma_hex_chars_ascii(data.drop_first());
        let head = seq![hex_digit(data[0] as int / 16), hex_digit(data[0] as int % 16)];
        let tail = hex_chars(data.drop_first());
        assert(hex_chars(data) == head + tail);
        assert forall|i| 0 <= i < hex_chars(data).len() implies '\0' <= #[trigger] hex_chars(
            data,
        )[i] <= '\u{7f}' by {
            if i >= 2 {
                assert(hex_chars(data)[i] == tail[i - 2]);
            }
        }
    }
}

/// The value of the hex digit `c` (either case), if it is one.
pub open spec fn hex_value(c: u8) -> Option<int> {
    if 48 <= c <= 57 {
        Some(c - 48)
    } else if 97 <= c <= 102 {
        Some(c - 87)
    } else if 65 <= c <= 70 {
        Some(c - 55)
    } else {
        None
    }
}

/// Whether `text` is hex text: an even number of hex digits.
pub open spec fn is_hex_text(text: Seq<u8>) -> bool {
    &&& text.len() % 2 == 0
    &&& forall|i: int| 0 <= i < text.len() ==> (#[trigger] hex_value(text[i])) is Some
}

/// The bytes that hex text stands for: one byte per pair of digits, high nibble first.
pub open spec fn hex_decoded(text: Seq<u8>) -> Seq<u8> {
    Seq::new(
        text.len() / 2,
        |i: int| (hex_value(text[2 * i])->0 * 16 + hex_value(text[2 * i + 1])->0) as u8,
    )
}

/// `hex::decode`: the bytes of `text` when it is hex text (digits of either case,
/// an even number of them), and nothing otherwise.
#[verifier::external_body]
pub(crate) fn hex_decode(text: &[u8]) -> (r: Option<Vec<u8>>)
    ensures
        r is Some <==> is_hex_text(text@),
        r matches Some(v) ==> v@ == hex_decoded(text@),
{
    hex::decode(text).ok()
}

/// The hex text of `data` as bytes.
pub fn hex_encode_bytes(data: &[u8]) -> (r: Vec<u8>)
    ensures
        r@ == hex_bytes(data@),
{
    let s = hex_encode(data);
    let b = s.as_str().as_bytes();
    proof {
        lemma_hex_chars_ascii(data@);
        is_ascii_chars_encode_utf8(s@);
    }
    let r = vstd::slice::slice_to_vec(b);
    assert(r@ =~= hex_bytes(data@));
    r
}

} // verus!
