//! The application layer states of slave devices and the register that controls them.

use vstd::prelude::*;

verus! {

/// The application layer state of a slave device.
#[derive(PartialEq, Eq, Structural, Debug, Copy, Clone)]
pub enum SlaveState {
    /// None of the states below.
    Unknown,
    /// INIT.
    Init,
    /// PRE-OP.
    PreOp,
    /// BOOT.
    Bootstrap,
    /// SAFE-OP.
    SafeOp,
    /// OP.
    Op,
}

/// The contents of the AL control and AL status registers.
#[derive(PartialEq, Eq, Structural, Debug, Copy, Clone)]
pub struct AlControl {
    /// The requested or current state.
    pub state: SlaveState,
    /// Error flag. Written by the master, it acknowledges an error.
    pub error: bool,
    /// Whether the ID of the device is requested.
    pub id_request: bool,
}

impl AlControl {
    /// Request a state.
    pub fn new(state: SlaveState) -> (control: Self)
        ensures
            control == (AlControl { state, error: false, id_request: false }),
    {
        AlControl { state, error: false, id_request: false }
    }

    /// Acknowledge any error and go back to INIT.
    pub fn reset() -> (control: Self)
        ensures
            control == (AlControl { state: SlaveState::Init, error: true, id_request: false }),
    {
        AlControl { state: SlaveState::Init, error: true, id_request: false }
    }
}

/// A request for a state asks for that state and nothing else. A reset asks for INIT and acknowledges
/// errors.
pub proof fn law_control_asks_for_its_state(
    state: SlaveState,
    request: AlControl,
    reset: AlControl,
)
    requires
        call_ensures(AlControl::new, (state,), request),
        call_ensures(AlControl::reset, (), reset),
    ensures
        request.state == state,
        !request.error && !request.id_request,
        reset.state == SlaveState::Init,
        reset.error && !reset.id_request,
{
}

} // verus!
