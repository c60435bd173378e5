//! Lowercase hexadecimal text of byte strings, through the `hex` crate.

use vstd::prelude::*;

verus! {

/// The lowercase hexadecimal digit of a value below 16.
pub open spec fn nibble_char(n: int) -> char {
    if n < 10 {
        (n + 48) as char
    } else {
        (n + 87) as char
    }
}

/// Lowercase hexadecimal text of bytes: two digits per byte, high nibble first.
pub open spec fn hex_text(b: Seq<u8>) -> Seq<char> {
    Seq::new(
        2 * b.len(),
        |i: int|
            if i % 2 == 0 {
                nibble_char(b[i / 2] as int / 16)
            } else {
                nibble_char(b[i / 2] as int % 16)
            },
    )
}

/// Whether a character is a hexadecimal digit of either case.
pub open spec fn is_hex_char(c: char) -> bool {
    ('0' <= c && c <= '9') || ('a' <= c && c <= 'f') || ('A' <= c && c <= 'F')
}

/// The value of a hexadecimal digit.
pub open spec fn hex_char_value(c: char) -> int {
    if '0' <= c && c <= '9' {
        c as int - 48
    } else if 'a' <= c && c <= 'f' {
        c as int - 87
    } else {
        c as int - 55
    }
}

/// Whether text is hexadecimal: an even number of hexadecimal digits.
pub open spec fn is_hex(s: Seq<char>) -> bool {
    &&& s.len() % 2 == 0
    &&& forall|i: int| 0 <= i < s.len() ==> #[trigger] is_hex_char(s[i])
}

/// The bytes that hexadecimal text stands for.
pub open spec fn hex_bytes(s: Seq<char>) -> Seq<u8> {
    Seq::new(
        s.len() / 2,
        |i: int| (hex_char_value(s[2 * i]) * 16 + hex_char_value(s[2 * i + 1])) as u8,
    )
}

/// `hex::encode`: the lowercase hexadecimal text of the bytes.
#[verifier::external_body]
pub(crate) fn hex_encode(bytes: &[u8]) -> (s: String)
    ensures
        s@ == hex_text(bytes@),
{
    hex::encode(bytes)
}

/// `hex::decode`: the bytes of hexadecimal text, or `None` where the text
/// has an odd length or a character that is not a hexadecimal digit.  The
/// crate works on the UTF-8 bytes of the text; a character outside ASCII
/// is never a digit there, so the condition reads the same on characters.
#[verifier::external_body]
pub(crate) fn hex_decode(text: &str) -> (r: Option<Vec<u8>>)
    ensures
        r is Some <==> is_hex(text@),
        r matches Some(v) ==> v@ == hex_bytes(text@),
{
    hex::decode(text).ok()
}

proof fn lemma_nibble(n: int)
    requires
        0 <= n < 16,
    ensures
        is_hex_char(nibble_char(n)),
        hex_char_value(nibble_char(n)) == n,
        'a' <= nibble_char(n) <= 'f' || '0' <= nibble_char(n) <= '9',
{
}

/// Hexadecimal text reads back as the bytes it was made from.
pub proof fn lemma_hex_round_trip(b: Seq<u8>)
    ensures
        is_hex(hex_text(b)),
        hex_bytes(hex_text(b)) == b,
        hex_text(b).len() == 2 * b.len(),
{
    let t = hex_text(b);
    assert forall|i: int| 0 <= i < t.len() implies #[trigger] is_hex_char(t[i]) by {
        lemma_nibble(b[i / 2] as int / 16);
        lemma_nibble(b[i / 2] as int % 16);
    }
    assert forall|i: int| 0 <= i < b.len() implies #[trigger] hex_bytes(t)[i] == b[i] by {
        assert(t[2 * i] == nibble_char(b[i] as int / 16));
        assert(t[2 * i + 1] == nibble_char(b[i] as int % 16));
        lemma_nibble(b[i] as int / 16);
        lemma_nibble(b[i] as int % 16);
    }
    assert(hex_bytes(t) =~= b);
}

} // verus!
