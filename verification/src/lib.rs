//! Conclave: a peer-to-peer virtual tabletop whose game actions are signed,
//! immutable events.  This crate holds the verified core of the system:
//! identities and event signing, the event protocol, the relay node's
//! bookkeeping, the plugin registry, dice rolling and the decisions of the
//! networking layer.

pub mod text;
pub mod hexcode;
pub mod crypto;
pub mod uuidtext;
pub mod jsontext;
pub mod clock;
pub mod protocol;
pub mod identity;
pub mod keyed;
pub mod select;
pub mod node;
pub mod plugin;
pub mod dice;
pub mod network;
