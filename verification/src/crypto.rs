//! Ed25519 keys and signatures (`ed25519-dalek`), BIP-39 mnemonics
//! (`bip39`) and random numbers (`rand`), as functions on plain bytes.

use vstd::prelude::*;
use ed25519_dalek::{Signer, Verifier};
use rand::RngCore;
use crate::text::{decimal, is_ascii_text, is_lowercase_word, split, word_count};

verus! {

/// The Ed25519 public key of a 32-byte secret key.
pub uninterp spec fn ed25519_public_key(secret: Seq<u8>) -> Seq<u8>;

/// The Ed25519 signature that a secret key makes on a message.
pub uninterp spec fn ed25519_signature(secret: Seq<u8>, message: Seq<u8>) -> Seq<u8>;

/// Whether a public key is a valid curve point under which the signature
/// verifies for the message.
pub uninterp spec fn ed25519_accepts(public: Seq<u8>, message: Seq<u8>, signature: Seq<u8>) -> bool;

/// `SigningKey::from_bytes(secret).verifying_key()`, as bytes: the public
/// key is a function of the secret key alone.
#[verifier::external_body]
pub(crate) fn ed25519_public_key_of(secret: &[u8; 32]) -> (public: [u8; 32])
    ensures
        public@ == ed25519_public_key(secret@),
{
    ed25519_dalek::SigningKey::from_bytes(secret).verifying_key().to_bytes()
}

/// `SigningKey::from_bytes(secret)`, then `Signer::sign` on the message and
/// `verifying_key`, both as bytes.  Ed25519 signing is deterministic, and
/// (as the crate's documentation shows) the signature verifies under the
/// key's own verifying key.
#[verifier::external_body]
pub(crate) fn ed25519_sign(secret: &[u8; 32], message: &[u8]) -> (r: ([u8; 64], [u8; 32]))
    ensures
        r.0@ == ed25519_signature(secret@, message@),
        r.1@ == ed25519_public_key(secret@),
        ed25519_accepts(r.1@, message@, r.0@),
{
    let key = ed25519_dalek::SigningKey::from_bytes(secret);
    (key.sign(message).to_bytes(), key.verifying_key().to_bytes())
}

/// `VerifyingKey::from_bytes` followed by `Verifier::verify`: false where
/// the bytes are not a valid curve point or the signature does not verify.
#[verifier::external_body]
pub(crate) fn ed25519_verify(public: &[u8; 32], message: &[u8], signature: &[u8; 64]) -> (ok: bool)
    ensures
        ok == ed25519_accepts(public@, message@, signature@),
{
    match ed25519_dalek::VerifyingKey::from_bytes(public) {
        Ok(key) => key.verify(message, &ed25519_dalek::Signature::from_bytes(signature)).is_ok(),
        Err(_) => false,
    }
}

/// `Signature::from_slice`: accepts exactly 64 bytes.
#[verifier::external_body]
pub(crate) fn ed25519_signature_from_slice(bytes: &[u8]) -> (r: Option<[u8; 64]>)
    ensures
        r is Some <==> bytes@.len() == 64,
        r matches Some(a) ==> a@ == bytes@,
{
    match ed25519_dalek::Signature::from_slice(bytes) {
        Ok(s) => Some(s.to_bytes()),
        Err(_) => None,
    }
}

/// Whether BIP-39 accepts entropy of this many bytes: a multiple of four
/// between 16 and 32.
pub open spec fn bip39_entropy_len_ok(n: nat) -> bool {
    n % 4 == 0 && 16 <= n <= 32
}

/// `Mnemonic::from_entropy(entropy)` then `to_seed("")`: the 64-byte seed,
/// or the error's text.
pub uninterp spec fn bip39_entropy_seed(entropy: Seq<u8>) -> Result<Seq<u8>, Seq<char>>;

/// `Mnemonic::from_entropy(entropy)` written out as words.
pub uninterp spec fn bip39_entropy_phrase(entropy: Seq<u8>) -> Seq<char>;

/// `Mnemonic::parse_in(Language::English, phrase)` then `to_seed("")`:
/// the 64-byte seed, or the error's text.
pub uninterp spec fn bip39_phrase_seed(phrase: Seq<char>) -> Result<Seq<u8>, Seq<char>>;

/// `Mnemonic::parse_in(Language::English, phrase)` then `to_entropy()`: the
/// entropy that the words encode (meaningful where the phrase parses).
pub uninterp spec fn bip39_phrase_entropy(phrase: Seq<char>) -> Seq<u8>;

/// The plain view of a seed or an error text.
pub open spec fn seed_result_view(r: Result<[u8; 64], String>) -> Result<Seq<u8>, Seq<char>> {
    match r {
        Ok(seed) => Ok(seed@),
        Err(text) => Err(text@),
    }
}

/// `Mnemonic::from_entropy` and `Mnemonic::to_seed("")`; the crate refuses
/// entropy whose length is not a multiple of 32 bits between 128 and 256.
#[verifier::external_body]
pub(crate) fn bip39_seed_from_entropy(entropy: &[u8]) -> (r: Result<[u8; 64], String>)
    ensures
        seed_result_view(r) == bip39_entropy_seed(entropy@),
        r is Ok <==> bip39_entropy_len_ok(entropy@.len()),
{
    match bip39::Mnemonic::from_entropy(entropy) {
        Ok(m) => Ok(m.to_seed("")),
        Err(e) => Err(e.to_string()),
    }
}

/// `Mnemonic::from_entropy` written out with `to_string`: the words,
/// three for every four bytes of entropy, separated by single spaces.
/// The words are lowercase ASCII words of the English list.  The words are English words of the crate's
/// list, and `Mnemonic::parse_in` in English reads them back as the same
/// mnemonic (same words, checksum as computed from the entropy), so the
/// phrase has the seed of the entropy and `to_entropy` gives the entropy
/// back.
#[verifier::external_body]
pub(crate) fn bip39_phrase_from_entropy(entropy: &[u8]) -> (phrase: String)
    requires
        bip39_entropy_len_ok(entropy@.len()),
    ensures
        phrase@ == bip39_entropy_phrase(entropy@),
        bip39_phrase_seed(phrase@) == bip39_entropy_seed(entropy@),
        bip39_phrase_entropy(phrase@) == entropy@,
        split(phrase@, ' ').len() == entropy@.len() * 3 / 4,
        forall|i: int| 0 <= i < split(phrase@, ' ').len() ==> is_lowercase_word(#[trigger] split(phrase@, ' ')[i]),
{
    match bip39::Mnemonic::from_entropy(entropy) {
        Ok(m) => m.to_string(),
        Err(_) => String::new(),
    }
}

/// A parsed seed phrase: its 64-byte seed and the entropy its words encode.
pub(crate) struct ParsedPhrase {
    pub(crate) seed: [u8; 64],
    pub(crate) entropy: Vec<u8>,
}

/// The word counts of a BIP-39 mnemonic: 12, 15, 18, 21 or 24.
pub open spec fn bip39_word_count_ok(n: nat) -> bool {
    12 <= n <= 24 && n % 3 == 0
}

/// An ASCII phrase whose word count bip39 refuses.
pub open spec fn word_count_refused(phrase: Seq<char>) -> bool {
    is_ascii_text(phrase) && !bip39_word_count_ok(word_count(phrase))
}

/// The text of bip39's error for a phrase of `n` words, a count it refuses.
pub open spec fn bad_word_count_text(n: nat) -> Seq<char> {
    "mnemonic has an invalid word count: "@ + decimal(n)
        + ". Word count must be 12, 15, 18, 21, or 24"@
}

/// The plain view of a parsed phrase's seed or an error text.
pub(crate) open spec fn parsed_seed_view(r: Result<ParsedPhrase, String>) -> Result<Seq<u8>, Seq<char>> {
    match r {
        Ok(p) => Ok(p.seed@),
        Err(text) => Err(text@),
    }
}

/// `Mnemonic::parse_in(Language::English, phrase)`, then `to_seed("")` and
/// `to_entropy()` of the mnemonic.  A mnemonic that parses has a valid word
/// count (12 to 24, a multiple of 3) and a checksum that matches its
/// entropy, so its entropy has a length BIP-39 accepts and
/// `Mnemonic::from_entropy` of it gives the same words, hence the same
/// seed.  The first thing it checks is the number of words: on ASCII text,
/// which Unicode normalisation leaves as it is, the words are the runs
/// between ASCII whitespace, and a count other than 12, 15, 18, 21 or 24
/// is refused with `Error::BadWordCount`, whose text names the count.
#[verifier::external_body]
pub(crate) fn bip39_parse_phrase(phrase: &str) -> (r: Result<ParsedPhrase, String>)
    ensures
        parsed_seed_view(r) == bip39_phrase_seed(phrase@),
        r is Ok ==> !word_count_refused(phrase@),
        r matches Err(text) ==> (word_count_refused(phrase@) ==> text@ == bad_word_count_text(word_count(phrase@))),
        r matches Ok(p) ==> p.entropy@ == bip39_phrase_entropy(phrase@)
            && bip39_entropy_len_ok(p.entropy@.len())
            && bip39_entropy_seed(p.entropy@) == parsed_seed_view(r),
{
    match bip39::Mnemonic::parse_in(bip39::Language::English, phrase) {
        Ok(m) => Ok(ParsedPhrase { seed: m.to_seed(""), entropy: m.to_entropy() }),
        Err(e) => Err(e.to_string()),
    }
}

/// Sixteen bytes from `rand::thread_rng().fill_bytes`; nothing is known of
/// their values.
#[verifier::external_body]
pub(crate) fn random_entropy() -> (entropy: [u8; 16]) {
    let mut entropy = [0u8; 16];
    rand::thread_rng().fill_bytes(&mut entropy);
    entropy
}

/// `rand::random::<u32>()`; nothing is known of its value.
#[verifier::external_body]
pub(crate) fn random_u32() -> (r: u32) {
    rand::random::<u32>()
}

} // verus!
