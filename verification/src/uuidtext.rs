//! Text of campaign identifiers (UUIDs held as 128-bit integers), through
//! the `uuid` crate.

use vstd::prelude::*;
use crate::hexcode::hex_text;

verus! {

/// 256 to the power `n`.
pub open spec fn pow256(n: nat) -> nat
    decreases n,
{
    if n == 0 {
        1
    } else {
        256 * pow256((n - 1) as nat)
    }
}

/// The sixteen bytes of a 128-bit value, most significant first.
pub open spec fn be_bytes(n: u128) -> Seq<u8> {
    Seq::new(16, |i: int| ((n as nat / pow256((15 - i) as nat)) % 256) as u8)
}

/// The hyphenated lowercase form `xxxxxxxx-xxxx-xxxx-xxxx-xxxxxxxxxxxx`.
pub open spec fn uuid_text(n: u128) -> Seq<char> {
    let h = hex_text(be_bytes(n));
    h.subrange(0, 8) + seq!['-'] + h.subrange(8, 12) + seq!['-'] + h.subrange(12, 16)
        + seq!['-'] + h.subrange(16, 20) + seq!['-'] + h.subrange(20, 32)
}

/// What `Uuid::parse_str` makes of text, as a 128-bit value.
pub uninterp spec fn uuid_from_text(text: Seq<char>) -> Option<u128>;

/// `Uuid::from_u128(id).to_string()`: the hyphenated lowercase form of the
/// big-endian bytes.
#[verifier::external_body]
pub(crate) fn uuid_to_string(id: u128) -> (s: String)
    ensures
        s@ == uuid_text(id),
{
    uuid::Uuid::from_u128(id).to_string()
}

/// `Uuid::parse_str(text)` as a 128-bit value (`Uuid::as_u128`).  The
/// crate's documentation says that it reads every form that it writes,
/// the hyphenated form among them.
#[verifier::external_body]
pub(crate) fn uuid_parse(text: &str) -> (r: Option<u128>)
    ensures
        r == uuid_from_text(text@),
        forall|n: u128| text@ == #[trigger] uuid_text(n) ==> r == Some(n),
{
    match uuid::Uuid::parse_str(text) {
        Ok(u) => Some(u.as_u128()),
        Err(_) => None,
    }
}

} // verus!
