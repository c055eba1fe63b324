//! CryptoNugget: a symmetric, authenticated, ratcheted channel between two
//! parties that share a 256-bit master seed, with its wire format, a stateless
//! envelope mode, a replay-window mode and encrypted state snapshots.
//!
//! AES-256-GCM encrypts every message; HKDF-SHA-256 derives the initial keys
//! and ratchets them after every message. The ordered channel binds the
//! packet's version, flags and sequence number into the authentication tag.

pub mod derive;
pub mod error;
pub mod legacy;
pub mod modes;
pub mod packet;
pub mod persistence;
pub mod primitives;
pub mod seed;
pub mod text;

pub use error::Error;
pub use legacy::NuggetError;
pub use modes::envelope::StatelessEnvelope;
pub use modes::ordered::{CryptoNugget, Role};
pub use modes::replay::ReplayWindowChannel;
pub use modes::{Builder, Mode};
pub use packet::{Packet, FLAG_AAD_PRESENT, WIRE_VERSION_V1, WIRE_VERSION_V2};
pub use seed::MasterSeed;
