//! Direction arbiter for the half-duplex wire.
//!
//! The wire is a single conductor shared by a transmit serializer program and
//! a receive serializer program. At most one of the two may be enabled at a
//! time; between the end of a transmission and the re-arming of reception the
//! line sits in a turnaround window in which neither program touches it.

use vstd::prelude::*;

verus! {

/// The three states of the direction arbiter.
///
/// - `IdleReceiving`: the receive program is enabled and samples the wire;
///   this is the initial and the resting state.
/// - `Transmitting`: the transmit program is enabled and drives the wire.
/// - `Turnaround`: neither program is enabled; the line settles for a fixed
///   interval before reception is re-armed.
#[derive(Clone, Copy, Debug, PartialEq, Eq, Structural)]
pub enum DirectionState {
    IdleReceiving,
    Transmitting,
    Turnaround,
}

/// The receive serializer program samples the wire only while the arbiter
/// is in `IdleReceiving`.
pub open spec fn rx_program_enabled(s: DirectionState) -> bool {
    s is IdleReceiving
}

/// The transmit serializer program may drive bits onto the wire only while
/// the arbiter is in `Transmitting`.
pub open spec fn tx_program_enabled(s: DirectionState) -> bool {
    s is Transmitting
}

/// Tracks which serializer program is currently enabled and steps through
/// the legal direction changes.
pub struct Arbiter {
    state: DirectionState,
}

impl Arbiter {
    /// The current direction state.
    pub closed spec fn state(self) -> DirectionState {
        self.state
    }

    /// A fresh arbiter rests in `IdleReceiving`: the receive program is
    /// armed from the start, so the peer can be heard before the first
    /// transmission.
    pub fn new() -> (r: Arbiter)
        ensures
            r.state() == DirectionState::IdleReceiving,
    {
        Arbiter { state: DirectionState::IdleReceiving }
    }

    /// Reads the current direction state.
    pub fn current(&self) -> (s: DirectionState)
        ensures
            s == self.state(),
    {
        self.state
    }

    /// A caller submitted bytes to send: disable the receive program and
    /// enable the transmit program.
    pub fn begin_transmit(&mut self)
        requires
            old(self).state() == DirectionState::IdleReceiving,
        ensures
            final(self).state() == DirectionState::Transmitting,
    {
        self.state = DirectionState::Transmitting;
    }

    /// The transmit hardware queue drained: stop driving the wire and enter
    /// the turnaround window.
    pub fn transmit_done(&mut self)
        requires
            old(self).state() == DirectionState::Transmitting,
        ensures
            final(self).state() == DirectionState::Turnaround,
    {
        self.state = DirectionState::Turnaround;
    }

    /// The fixed settle interval elapsed: re-arm the receive program.
    pub fn turnaround_done(&mut self)
        requires
            old(self).state() == DirectionState::Turnaround,
        ensures
            final(self).state() == DirectionState::IdleReceiving,
            rx_program_enabled(final(self).state()),
    {
        self.state = DirectionState::IdleReceiving;
    }
}

/// Law: the two serializer programs are mutually exclusive in every state,
/// and during the turnaround window neither drives nor samples the wire; the
/// moment the receive program is off and no transmission is in flight, the
/// arbiter is in `Turnaround`.
pub proof fn lemma_direction_mutual_exclusion(s: DirectionState)
    ensures
        !(tx_program_enabled(s) && rx_program_enabled(s)),
        s is Turnaround ==> !tx_program_enabled(s) && !rx_program_enabled(s),
        !tx_program_enabled(s) && !rx_program_enabled(s) ==> s is Turnaround,
{
}

} // verus!
