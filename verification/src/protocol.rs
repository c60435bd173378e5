//! The event protocol: every game action is an immutable event, signed by
//! its author with Ed25519.

use vstd::prelude::*;
use vstd::utf8::encode_utf8;
use crate::clock::{Timestamp, now};
use crate::crypto::{
    ed25519_accepts, ed25519_public_key, ed25519_sign, ed25519_signature,
    ed25519_signature_from_slice, ed25519_verify,
};
use crate::hexcode::{hex_bytes, hex_decode, hex_encode, hex_text, is_hex, lemma_hex_round_trip};
use crate::jsontext::{json_compact, json_str_field, json_string_field, json_to_compact};
use crate::text::{decimal, push_char, push_decimal, push_str};
use crate::uuidtext::{uuid_text, uuid_to_string};

verus! {

/// Unique identifier of a campaign: a UUID, held as its 128-bit value.
pub type CampaignId = u128;

/// Unique identifier of a player: the hexadecimal text of the player's
/// Ed25519 public key.
pub type PlayerId = String;

/// Identifier of an event within a campaign.
pub type EventId = u64;

/// Role of a member in a campaign.
#[derive(Clone, Copy, Debug, PartialEq, Eq, Structural)]
pub enum MemberRole {
    Dm,
    Player,
    Spectator,
}

/// All kinds of event in the system.  JSON documents (the data of a
/// plugin's event) are held as their text.
#[derive(Clone, Debug)]
pub enum Event {
    /// Campaign was created by its DM.
    CampaignCreated { dm_id: PlayerId, name: String, rule_set: Option<String> },
    /// A player joined the campaign.
    MemberJoined { player_id: PlayerId, display_name: String, role: MemberRole },
    /// A player left the campaign.
    MemberLeft { player_id: PlayerId },
    /// Chat message sent by a player, optionally in character.
    ChatMessage {
        author: PlayerId,
        content: String,
        character_name: Option<String>,
        timestamp: u64,
    },
    /// A dice roll, with the individual die results.
    DiceRolled { actor: PlayerId, expression: String, result: i64, rolls: Vec<i64>, timestamp: u64 },
    /// DM authority handed to another player.
    DmTransferred { from: PlayerId, to: PlayerId },
    /// A plugin was loaded for the campaign.
    PluginLoaded { plugin_name: String, version: String },
    /// A custom event of a plugin; `data` is JSON text.
    PluginEvent { plugin: String, event_type: String, data: String },
}

/// An immutable event with its metadata and its author's signature.
#[derive(Clone, Debug)]
pub struct SignedEvent {
    pub id: EventId,
    pub campaign_id: CampaignId,
    /// Assigned by the DM, increasing.
    pub sequence_number: u64,
    pub event_type: String,
    pub author_id: PlayerId,
    pub timestamp: Timestamp,
    /// The event's JSON document, as text.
    pub payload: String,
    /// Hexadecimal text of the Ed25519 signature; empty until signed.
    pub signature: String,
}

/// The event type given to a payload without a string under `type`.
pub open spec fn unknown_type() -> Seq<char> {
    seq!['u', 'n', 'k', 'n', 'o', 'w', 'n']
}

/// The key of a payload's event type.
pub open spec fn type_key() -> Seq<char> {
    seq!['t', 'y', 'p', 'e']
}

/// The event type of a payload: its `type` string, or `unknown`.
pub open spec fn payload_type(payload: Seq<char>) -> Seq<char> {
    match json_string_field(payload, type_key()) {
        Some(t) => t,
        None => unknown_type(),
    }
}

/// The payload as it is signed: its compact JSON text (empty where the
/// text holds no JSON value).
pub open spec fn signed_payload(payload: Seq<char>) -> Seq<char> {
    match json_compact(payload) {
        Some(c) => c,
        None => Seq::empty(),
    }
}

/// Whether two events agree on everything but the signature.
pub open spec fn same_but_signature(a: SignedEvent, b: SignedEvent) -> bool {
    &&& a.id == b.id
    &&& a.campaign_id == b.campaign_id
    &&& a.sequence_number == b.sequence_number
    &&& a.event_type == b.event_type
    &&& a.author_id == b.author_id
    &&& a.timestamp == b.timestamp
    &&& a.payload == b.payload
}

impl SignedEvent {
    /// The text that is signed: id, campaign id, sequence number, event
    /// type, author, timestamp in whole seconds and payload, joined by `:`.
    pub open spec fn signing_text(self) -> Seq<char> {
        decimal(self.id as nat) + seq![':'] + uuid_text(self.campaign_id) + seq![':']
            + decimal(self.sequence_number as nat) + seq![':'] + self.event_type@ + seq![':']
            + self.author_id@ + seq![':'] + decimal(self.timestamp.secs_since_epoch as nat)
            + seq![':'] + signed_payload(self.payload@)
    }

    /// The bytes that are signed: the UTF-8 encoding of the signing text.
    pub open spec fn message(self) -> Seq<u8> {
        encode_utf8(self.signing_text())
    }

    /// Whether the event carries a valid signature by its author: the
    /// signature is non-empty hexadecimal text of 64 bytes, the author is
    /// hexadecimal text of a 32-byte public key, and the signature verifies
    /// for the event's message under that key.
    pub open spec fn verifies(self) -> bool {
        &&& self.signature@.len() > 0
        &&& is_hex(self.signature@)
        &&& is_hex(self.author_id@)
        &&& hex_bytes(self.author_id@).len() == 32
        &&& hex_bytes(self.signature@).len() == 64
        &&& ed25519_accepts(hex_bytes(self.author_id@), self.message(), hex_bytes(self.signature@))
    }

    /// A new, unsigned event stamped with the given time.  Its type is the
    /// payload's `type` string, or `unknown`.
    pub fn new_at(
        id: EventId,
        campaign_id: CampaignId,
        sequence_number: u64,
        author_id: PlayerId,
        payload: String,
        timestamp: Timestamp,
    ) -> (e: SignedEvent)
        ensures
            e.id == id,
            e.campaign_id == campaign_id,
            e.sequence_number == sequence_number,
            e.event_type@ == payload_type(payload@),
            e.author_id == author_id,
            e.timestamp == timestamp,
            e.payload == payload,
            e.signature@ == Seq::<char>::empty(),
            !e.verifies(),
    {
        let key = "type";
        proof {
            reveal_strlit("type");
        }
        assert(key@ =~= type_key());
        let event_type = match json_str_field(payload.as_str(), key) {
            Some(t) => t,
            None => {
                let u = "unknown".to_string();
                proof {
                    reveal_strlit("unknown");
                }
                assert(u@ =~= unknown_type());
                u
            },
        };
        SignedEvent {
            id,
            campaign_id,
            sequence_number,
            event_type,
            author_id,
            timestamp,
            payload,
            signature: String::new(),
        }
    }

    /// A new, unsigned event stamped with the current time (the signature
    /// is added by the caller).
    pub fn new(
        id: EventId,
        campaign_id: CampaignId,
        sequence_number: u64,
        author_id: PlayerId,
        payload: String,
    ) -> (e: SignedEvent)
        ensures
            e.id == id,
            e.campaign_id == campaign_id,
            e.sequence_number == sequence_number,
            e.event_type@ == payload_type(payload@),
            e.author_id == author_id,
            e.payload == payload,
            e.timestamp.nanos_since_epoch < 1_000_000_000,
            e.signature@ == Seq::<char>::empty(),
            !e.verifies(),
    {
        Self::new_at(id, campaign_id, sequence_number, author_id, payload, now())
    }

    /// The text that is signed (everything but the signature itself).
    fn signature_text(&self) -> (s: String)
        ensures
            s@ == self.signing_text(),
    {
        let mut s = String::new();
        push_decimal(&mut s, self.id);
        push_char(&mut s, ':');
        let campaign = uuid_to_string(self.campaign_id);
        push_str(&mut s, campaign.as_str());
        push_char(&mut s, ':');
        push_decimal(&mut s, self.sequence_number);
        push_char(&mut s, ':');
        push_str(&mut s, self.event_type.as_str());
        push_char(&mut s, ':');
        push_str(&mut s, self.author_id.as_str());
        push_char(&mut s, ':');
        push_decimal(&mut s, self.timestamp.secs_since_epoch);
        push_char(&mut s, ':');
        match json_to_compact(self.payload.as_str()) {
            Some(c) => push_str(&mut s, c.as_str()),
            None => {},
        }
        assert(s@ =~= self.signing_text());
        s
    }

    /// The bytes that are signed.
    fn signature_data(&self) -> (data: Vec<u8>)
        ensures
            data@ == self.message(),
    {
        let text = self.signature_text();
        vstd::slice::slice_to_vec(text.as_str().as_bytes())
    }

    /// Signs the event with a 32-byte Ed25519 secret key: the signature
    /// becomes the hexadecimal text of the key's signature on the event's
    /// message, 128 hexadecimal digits.  When the author is the hexadecimal
    /// text of the key's public key, the event then verifies.
    pub fn sign(&mut self, signing_key: &[u8; 32])
        ensures
            same_but_signature(*old(self), *final(self)),
            final(self).signature@ == hex_text(ed25519_signature(signing_key@, old(self).message())),
            final(self).signature@.len() == 128,
            old(self).author_id@ == hex_text(ed25519_public_key(signing_key@)) ==> final(self).verifies(),
    {
        let data = self.signature_data();
        let (signature, public) = ed25519_sign(signing_key, data.as_slice());
        self.signature = hex_encode(signature.as_slice());
        proof {
            lemma_hex_round_trip(signature@);
            lemma_hex_round_trip(public@);
            assert(self.message() == old(self).message());
        }
    }

    /// Checks the event's signature against its author's public key.
    pub fn verify(&self) -> (ok: bool)
        ensures
            ok == self.verifies(),
    {
        if self.signature.as_str().is_empty() {
            return false;
        }
        let sig_bytes = match hex_decode(self.signature.as_str()) {
            Some(b) => b,
            None => return false,
        };
        let key_bytes = match hex_decode(self.author_id.as_str()) {
            Some(b) => b,
            None => return false,
        };
        if key_bytes.len() != 32 {
            return false;
        }
        let key = bytes_to_key(&key_bytes);
        let sig = match ed25519_signature_from_slice(sig_bytes.as_slice()) {
            Some(s) => s,
            None => return false,
        };
        let data = self.signature_data();
        ed25519_verify(&key, data.as_slice(), &sig)
    }

    /// The author's public key: the bytes of the author id, where it is
    /// hexadecimal text of exactly 32 bytes.
    pub fn author_public_key(&self) -> (r: Option<[u8; 32]>)
        ensures
            r is Some <==> is_hex(self.author_id@) && hex_bytes(self.author_id@).len() == 32,
            r matches Some(k) ==> k@ == hex_bytes(self.author_id@),
    {
        let bytes = match hex_decode(self.author_id.as_str()) {
            Some(b) => b,
            None => return None,
        };
        if bytes.len() != 32 {
            return None;
        }
        Some(bytes_to_key(&bytes))
    }
}

/// The 32 bytes of a vector, as an array.
fn bytes_to_key(bytes: &Vec<u8>) -> (a: [u8; 32])
    requires
        bytes@.len() == 32,
    ensures
        a@ == bytes@,
{
    let mut a = [0u8; 32];
    for i in 0..32
        invariant
            bytes@.len() == 32,
            forall|j: int| 0 <= j < i ==> a@[j] == bytes@[j],
    {
        a[i] = bytes[i];
    }
    assert(a@ =~= bytes@);
    a
}

/// Campaign metadata.
#[derive(Clone, Debug)]
pub struct Campaign {
    pub id: CampaignId,
    pub name: String,
    pub dm_id: PlayerId,
    pub rule_set: Option<String>,
    pub created_at: Timestamp,
}

/// A plugin's manifest.
#[derive(Clone, Debug)]
pub struct PluginManifest {
    pub name: String,
    pub version: String,
    pub core_version: String,
    pub author: Option<String>,
    pub description: Option<String>,
    pub verified: bool,
}

} // verus!

verus! {

/// Appending a character to the signature of an event that verifies makes
/// the event fail verification: the signature text no longer has an even
/// number of hexadecimal digits.
pub proof fn lemma_extended_signature_rejected(signed: SignedEvent, tampered: SignedEvent, c: char)
    requires
        signed.verifies(),
        same_but_signature(signed, tampered),
        tampered.signature@ == signed.signature@.push(c),
    ensures
        !tampered.verifies(),
{
}

} // verus!
