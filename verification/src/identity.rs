//! Player identities: an Ed25519 key pair derived from a BIP-39 mnemonic.

use vstd::prelude::*;
use crate::crypto::{
    bad_word_count_text, bip39_entropy_len_ok, bip39_entropy_phrase, bip39_word_count_ok, bip39_entropy_seed, bip39_parse_phrase,
    bip39_phrase_entropy, bip39_phrase_from_entropy, bip39_phrase_seed, bip39_seed_from_entropy,
    ed25519_accepts, ed25519_public_key, ed25519_public_key_of, ed25519_sign, ed25519_signature,
    random_entropy,
};
use crate::hexcode::{hex_bytes, hex_encode, hex_text, is_hex, lemma_hex_round_trip};
use crate::protocol::PlayerId;
use crate::text::{is_ascii_text, is_lowercase_word, split, word_count};

verus! {

/// Declares `std::io::Error`, which error types of the library carry.
#[verifier::external_type_specification]
#[verifier::external_body]
pub struct ExIoError(std::io::Error);

/// Errors of identity management.
#[derive(Debug)]
pub enum CoreError {
    IdentityGeneration(String),
    InvalidMnemonic(String),
    VerificationFailed,
    IoError(std::io::Error),
}

/// A user's identity: an Ed25519 key pair (as bytes), a display name, and
/// the BIP-39 entropy the keys were derived from, whose seed phrase
/// restores the keys.
#[derive(Debug)]
pub struct Identity {
    /// The 32-byte Ed25519 secret key.
    pub signing_key: [u8; 32],
    /// The 32-byte Ed25519 public key.
    pub verifying_key: [u8; 32],
    pub display_name: String,
    /// The BIP-39 entropy the keys were derived from.
    pub entropy: Vec<u8>,
}

/// The secret key that a 64-byte BIP-39 seed gives: its first 32 bytes.
pub open spec fn key_of_seed(seed: Seq<u8>) -> Seq<u8> {
    seed.take(32)
}

/// The seed of a BIP-39 outcome (empty for an error).
pub open spec fn seed_of(r: Result<Seq<u8>, Seq<char>>) -> Seq<u8> {
    match r {
        Ok(seed) => seed,
        Err(_) => Seq::empty(),
    }
}

/// Whether a phrase gives back an identity's keys: it parses as an English
/// mnemonic, the first half of its seed is the identity's signing key, and
/// its words encode the identity's entropy.
pub open spec fn phrase_restores(phrase: Seq<char>, id: Identity) -> bool {
    &&& bip39_phrase_seed(phrase) is Ok
    &&& key_of_seed(seed_of(bip39_phrase_seed(phrase))) == id.signing_key@
    &&& bip39_phrase_entropy(phrase) == id.entropy@
}

/// The name given to an identity restored from a mnemonic.
pub open spec fn unknown_name() -> Seq<char> {
    seq!['U', 'n', 'k', 'n', 'o', 'w', 'n']
}

impl Identity {
    /// The verifying key is the public key of the signing key, and the
    /// signing key is the first half of the seed of the identity's entropy,
    /// an entropy that BIP-39 accepts.
    pub open spec fn well_formed(&self) -> bool {
        &&& self.verifying_key@ == ed25519_public_key(self.signing_key@)
        &&& bip39_entropy_len_ok(self.entropy@.len())
        &&& bip39_entropy_seed(self.entropy@) is Ok
        &&& self.signing_key@ == key_of_seed(seed_of(bip39_entropy_seed(self.entropy@)))
    }

    /// The entropy whose words are exported: the identity's entropy where
    /// BIP-39 accepts its length, else the first 16 bytes of the secret key.
    pub open spec fn export_entropy(&self) -> Seq<u8> {
        if bip39_entropy_len_ok(self.entropy@.len()) {
            self.entropy@
        } else {
            self.signing_key@.take(16)
        }
    }

    /// The player id of the identity: hexadecimal text of its public key.
    pub open spec fn player_id_text(&self) -> Seq<char> {
        hex_text(self.verifying_key@)
    }

    /// The identity whose signing key is the first half of the seed of an
    /// entropy.
    fn from_seed(seed: &[u8; 64], entropy: Vec<u8>, display_name: String) -> (id: Identity)
        requires
            bip39_entropy_len_ok(entropy@.len()),
            bip39_entropy_seed(entropy@) is Ok,
            seed_of(bip39_entropy_seed(entropy@)) == seed@,
        ensures
            id.signing_key@ == key_of_seed(seed@),
            id.entropy@ == entropy@,
            id.well_formed(),
            id.display_name == display_name,
    {
        let mut key = [0u8; 32];
        for i in 0..32
            invariant
                forall|j: int| 0 <= j < i ==> key@[j] == seed@[j],
        {
            key[i] = seed[i];
        }
        assert(key@ =~= key_of_seed(seed@));
        let verifying_key = ed25519_public_key_of(&key);
        Identity { signing_key: key, verifying_key, display_name, entropy }
    }

    /// The identity that a 16-byte entropy gives: the BIP-39 mnemonic of
    /// the entropy, its seed (without passphrase), and the seed's first 32
    /// bytes as the secret key.
    pub fn from_entropy(entropy: &[u8; 16], display_name: String) -> (r: Result<Identity, CoreError>)
        ensures
            r is Ok && bip39_entropy_seed(entropy@) is Ok,
            r matches Ok(id) ==> id.well_formed() && id.display_name == display_name
                && id.entropy@ == entropy@
                && id.signing_key@ == key_of_seed(seed_of(bip39_entropy_seed(entropy@))),
    {
        match bip39_seed_from_entropy(entropy.as_slice()) {
            Ok(seed) => Ok(Self::from_seed(&seed, vstd::slice::slice_to_vec(entropy.as_slice()), display_name)),
            Err(text) => Err(CoreError::IdentityGeneration(text)),
        }
    }

    /// A new identity from 16 random bytes of entropy.
    pub fn generate(display_name: String) -> (r: Result<Identity, CoreError>)
        ensures
            r is Ok,
            r matches Ok(id) ==> id.well_formed() && id.display_name == display_name
                && id.entropy@.len() == 16,
    {
        let entropy = random_entropy();
        Self::from_entropy(&entropy, display_name)
    }

    /// Restores an identity from its English mnemonic phrase: the keys come
    /// from the phrase's seed, the entropy from its words.  An ASCII phrase
    /// whose word count is not 12, 15, 18, 21 or 24 is refused with
    /// bip39's text naming the count.  The display name
    /// cannot be recovered from the seed, and is `Unknown`.
    pub fn from_mnemonic(mnemonic: &str) -> (r: Result<Identity, CoreError>)
        ensures
            match bip39_phrase_seed(mnemonic@) {
                Ok(seed) => (r matches Ok(id) && id.well_formed() && id.signing_key@ == key_of_seed(seed)
                    && id.entropy@ == bip39_phrase_entropy(mnemonic@)
                    && id.display_name@ == unknown_name()),
                Err(text) => (r matches Err(CoreError::InvalidMnemonic(t)) && t@ == text),
            },
            is_ascii_text(mnemonic@) && !bip39_word_count_ok(word_count(mnemonic@)) ==> (r matches Err(
                CoreError::InvalidMnemonic(t),
            ) && t@ == bad_word_count_text(word_count(mnemonic@))),
    {
        match bip39_parse_phrase(mnemonic) {
            Ok(parsed) => {
                let name = "Unknown".to_string();
                proof {
                    reveal_strlit("Unknown");
                }
                assert(name@ =~= unknown_name());
                Ok(Self::from_seed(&parsed.seed, parsed.entropy, name))
            },
            Err(text) => Err(CoreError::InvalidMnemonic(text)),
        }
    }

    /// The player id: lowercase hexadecimal text of the public key.
    pub fn player_id(&self) -> (id: PlayerId)
        ensures
            id@ == self.player_id_text(),
            is_hex(id@),
            id@.len() == 64,
            hex_bytes(id@) == self.verifying_key@,
    {
        proof {
            lemma_hex_round_trip(self.verifying_key@);
        }
        hex_encode(self.verifying_key.as_slice())
    }

    /// Signs a message with the secret key.  The 64-byte signature verifies
    /// for the message under the identity's verifying key.
    pub fn sign(&self, message: &[u8]) -> (signature: Vec<u8>)
        ensures
            signature@ == ed25519_signature(self.signing_key@, message@),
            signature@.len() == 64,
            self.well_formed() ==> ed25519_accepts(self.verifying_key@, message@, signature@),
    {
        let (sig, _public) = ed25519_sign(&self.signing_key, message);
        vstd::slice::slice_to_vec(sig.as_slice())
    }

    /// The seed phrase shown for backup: the BIP-39 words of the identity's
    /// entropy (12 words for the 16 bytes of a generated identity), which
    /// restore the identity (see `from_mnemonic`).  An identity built by
    /// hand with an entropy BIP-39 refuses gets the words of the first 16
    /// bytes of its secret key.
    pub fn export_mnemonic(&self) -> (phrase: String)
        ensures
            phrase@ == bip39_entropy_phrase(self.export_entropy()),
            split(phrase@, ' ').len() == self.export_entropy().len() * 3 / 4,
            forall|i: int|
                0 <= i < split(phrase@, ' ').len() ==> is_lowercase_word(#[trigger] split(phrase@, ' ')[i]),
            self.well_formed() ==> self.export_entropy() == self.entropy@ && phrase_restores(phrase@, *self),
    {
        if self.entropy.len() % 4 == 0 && 16 <= self.entropy.len() && self.entropy.len() <= 32 {
            bip39_phrase_from_entropy(self.entropy.as_slice())
        } else {
            let mut head = [0u8; 16];
            for i in 0..16
                invariant
                    forall|j: int| 0 <= j < i ==> head@[j] == self.signing_key@[j],
            {
                head[i] = self.signing_key[i];
            }
            assert(head@ =~= self.signing_key@.take(16));
            bip39_phrase_from_entropy(head.as_slice())
        }
    }

    /// The display name.
    pub fn display_name(&self) -> (name: &str)
        ensures
            name@ == self.display_name@,
    {
        self.display_name.as_str()
    }
}

} // verus!

verus! {

/// Seed phrase = full identity recovery: what `from_mnemonic` gives back on
/// a phrase that restores a well-formed identity (as the phrase of
/// `export_mnemonic` does) has that identity's signing key, verifying key,
/// entropy and player id.
pub proof fn lemma_phrase_recovers_identity(id: Identity, phrase: Seq<char>, restored: Identity)
    requires
        id.well_formed(),
        phrase_restores(phrase, id),
        restored.well_formed(),
        restored.signing_key@ == key_of_seed(seed_of(bip39_phrase_seed(phrase))),
        restored.entropy@ == bip39_phrase_entropy(phrase),
    ensures
        restored.signing_key == id.signing_key,
        restored.verifying_key == id.verifying_key,
        restored.entropy@ == id.entropy@,
        restored.player_id_text() == id.player_id_text(),
{
    assert(restored.signing_key@ =~= id.signing_key@);
    assert(restored.verifying_key@ =~= id.verifying_key@);
}

/// An event whose author is an identity's player id names the public key
/// of the identity's signing key; so once signed with that key (see
/// `SignedEvent::sign`) the event verifies.
pub proof fn lemma_authored_by_identity(id: Identity, author: Seq<char>)
    requires
        id.well_formed(),
        author == id.player_id_text(),
    ensures
        author == hex_text(ed25519_public_key(id.signing_key@)),
        is_hex(author),
        hex_bytes(author) == id.verifying_key@,
{
    lemma_hex_round_trip(id.verifying_key@);
}

} // verus!

verus! {

impl From<std::io::Error> for CoreError {
    fn from(e: std::io::Error) -> (r: CoreError) {
        CoreError::IoError(e)
    }
}

impl vstd::std_specs::convert::FromSpecImpl<std::io::Error> for CoreError {
    open spec fn obeys_from_spec() -> bool {
        true
    }

    open spec fn from_spec(e: std::io::Error) -> CoreError {
        CoreError::IoError(e)
    }
}

} // verus!
