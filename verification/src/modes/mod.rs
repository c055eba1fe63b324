//! Operation modes of the channel, and the builder that makes the chosen one.
//!
//! `ordered` is the ratcheted channel; `envelope` seals independent messages
//! without session state; `replay` accepts out-of-order delivery within an
//! anti-replay window.

pub mod envelope;
pub mod ordered;
pub mod replay;

use crate::error::Error;
use crate::modes::envelope::{envelope_root_key, StatelessEnvelope};
use crate::modes::ordered::{initial_state, CryptoNugget, Role};
use crate::modes::replay::{initial_window_state, window_valid, ReplayWindowChannel};
use crate::seed::MasterSeed;
use vstd::prelude::*;

verus! {

/// Explicit operation mode.
#[derive(Debug, Clone, Copy, PartialEq, Eq, Structural)]
pub enum Mode {
    /// Ratcheted, strictly ordered channel (the default).
    OrderedChannel,
    /// Stateless envelope: every message derives its own key from the seed and nonce.
    StatelessEnvelope,
    /// Channel with an anti-replay window of `window` sequence numbers.
    ReplayWindowChannel { window: u64 },
}

/// Builder for the chosen mode, beside the simple constructors.
#[derive(Clone)]
pub struct Builder<'a> {
    seed: &'a MasterSeed,
    role: Role,
    context: &'a [u8],
    mode: Mode,
}

impl<'a> Builder<'a> {
    /// The seed the builder derives keys from.
    pub closed spec fn seed_of(&self) -> &'a MasterSeed {
        self.seed
    }

    /// The role of the channel end being built.
    pub closed spec fn role_of(&self) -> Role {
        self.role
    }

    /// The application context.
    pub closed spec fn context_of(&self) -> &'a [u8] {
        self.context
    }

    /// The selected mode.
    pub closed spec fn mode_of(&self) -> Mode {
        self.mode
    }

    /// A builder for the ordered channel.
    pub(crate) fn new(seed: &'a MasterSeed, role: Role, context: &'a [u8]) -> (b: Self)
        ensures
            b.seed_of() == seed,
            b.role_of() == role,
            b.context_of() == context,
            b.mode_of() == Mode::OrderedChannel,
    {
        Self { seed, role, context, mode: Mode::OrderedChannel }
    }

    /// Selects the operation mode.
    pub fn mode(self, mode: Mode) -> (b: Self)
        ensures
            b.seed_of() == self.seed_of(),
            b.role_of() == self.role_of(),
            b.context_of() == self.context_of(),
            b.mode_of() == mode,
    {
        let mut b = self;
        b.mode = mode;
        b
    }

    /// Builds an ordered channel; any other selected mode gives `ModoInvalido`.
    pub fn build_ordered(self) -> (r: Result<CryptoNugget, Error>)
        ensures
            r is Ok <==> self.mode_of() == Mode::OrderedChannel,
            r matches Ok(n) ==> n@ == initial_state(self.seed_of()@, self.role_of(), self.context_of()@),
            r matches Err(e) ==> e == Error::ModoInvalido,
    {
        match self.mode {
            Mode::OrderedChannel => Ok(CryptoNugget::new_with_context(self.seed, self.role, self.context)),
            Mode::StatelessEnvelope | Mode::ReplayWindowChannel { .. } => Err(Error::ModoInvalido),
        }
    }

    /// Builds a stateless envelope; any other selected mode gives `ModoInvalido`.
    pub fn build_stateless_envelope(self) -> (r: Result<StatelessEnvelope, Error>)
        ensures
            r is Ok <==> self.mode_of() == Mode::StatelessEnvelope,
            r matches Ok(e) ==> e@ == envelope_root_key(self.seed_of()@, self.context_of()@),
            r matches Err(e) ==> e == Error::ModoInvalido,
    {
        match self.mode {
            Mode::StatelessEnvelope => Ok(StatelessEnvelope::new_with_context(self.seed, self.context)),
            Mode::OrderedChannel | Mode::ReplayWindowChannel { .. } => Err(Error::ModoInvalido),
        }
    }

    /// Builds a replay-window channel; any other selected mode, or a window
    /// outside 1 to 128, gives `ModoInvalido`.
    ///
    /// This mode has no per-message ratchet.
    pub fn build_replay_window(self) -> (r: Result<ReplayWindowChannel, Error>)
        ensures
            r is Ok <==> (self.mode_of() matches Mode::ReplayWindowChannel { window } && window_valid(
                window,
            )),
            r matches Ok(c) ==> (self.mode_of() matches Mode::ReplayWindowChannel { window }
                && c@ == initial_window_state(
                self.seed_of()@,
                self.role_of(),
                self.context_of()@,
                window,
            )),
            r matches Err(e) ==> e == Error::ModoInvalido,
    {
        match self.mode {
            Mode::ReplayWindowChannel { window } => ReplayWindowChannel::new_with_context(
                self.seed,
                self.role,
                self.context,
                window,
            ),
            Mode::OrderedChannel | Mode::StatelessEnvelope => Err(Error::ModoInvalido),
        }
    }
}

} // verus!
