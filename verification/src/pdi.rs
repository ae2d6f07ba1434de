//! Places in the process data image.

use vstd::prelude::*;

verus! {

/// A place in the process data image.
#[derive(PartialEq, Eq, Structural, Debug, Copy, Clone)]
pub struct PdiOffset {
    /// The logical address of the place.
    pub start_address: u32,
}

impl Default for PdiOffset {
    /// The start of the process data image.
    fn default() -> (offset: Self)
        ensures
            offset == (PdiOffset { start_address: 0 }),
    {
        PdiOffset { start_address: 0 }
    }
}

/// The direction of process data.
#[derive(PartialEq, Eq, Structural, Debug, Copy, Clone)]
pub enum PdoDirection {
    /// From the slaves to the master.
    MasterRead,
    /// From the master to the slaves.
    MasterWrite,
}

} // verus!
