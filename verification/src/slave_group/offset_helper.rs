//! Keeping track of the place in the process data image while slaves are configured.

use crate::error::Error;
use crate::pdi::{PdiOffset, PdoDirection};
use vstd::prelude::*;

verus! {

/// Helper to configure slave FMMUs that retains the offset state.
///
/// 1. Call [`OffsetHelper::new`] to set up the helper.
/// 2. For each slave, configure its FMMUs as [`OffsetHelper::request`] says and hand what came of it
///    to [`OffsetHelper::configure_fmmus`].
/// 3. Call [`OffsetHelper::finish`] to consume the helper and get the difference between the current
///    offset and the start offset.
#[derive(Debug, PartialEq, Eq, Copy, Clone)]
pub struct OffsetHelper {
    cur_offset: PdiOffset,
    start_address: u32,
    index: u32,
    direction: PdoDirection,
}

/// The state of a helper.
#[verifier::ext_equal]
pub struct OffsetModel {
    /// The place where the next slave's process data goes.
    pub offset: PdiOffset,
    /// The address that the process data began at.
    pub start_address: u32,
    /// The number of calls of [`OffsetHelper::configure_fmmus`].
    pub count: nat,
    /// The direction of the process data.
    pub direction: PdoDirection,
}

impl OffsetModel {
    /// The helper after what came of configuring one slave's FMMUs.
    pub open spec fn after(self, outcome: Result<PdiOffset, Error>) -> OffsetModel {
        OffsetModel {
            offset: match outcome {
                Ok(offset) => offset,
                Err(_) => self.offset,
            },
            count: self.count + 1,
            ..self
        }
    }

    /// The helper after a number of slaves.
    pub open spec fn after_all(self, outcomes: Seq<Result<PdiOffset, Error>>) -> OffsetModel
        decreases outcomes.len(),
    {
        if outcomes.len() == 0 {
            self
        } else {
            self.after_all(outcomes.drop_last()).after(outcomes.last())
        }
    }

    /// The offset, start address and direction with which to configure the next slave's FMMUs.
    pub open spec fn next_request(self) -> (PdiOffset, u32, PdoDirection) {
        (self.offset, self.start_address, self.direction)
    }
}

impl View for OffsetHelper {
    type V = OffsetModel;

    closed spec fn view(&self) -> OffsetModel {
        OffsetModel {
            offset: self.cur_offset,
            start_address: self.start_address,
            count: self.index as nat,
            direction: self.direction,
        }
    }
}

impl OffsetHelper {
    /// Start at an offset, for the given direction of process data.
    pub fn new(offset: PdiOffset, direction: PdoDirection) -> (helper: Self)
        ensures
            helper@ == (OffsetModel {
                offset,
                start_address: offset.start_address,
                count: 0,
                direction,
            }),
    {
        OffsetHelper { cur_offset: offset, start_address: offset.start_address, index: 0, direction }
    }

    /// Go on at an offset with process data that began at an earlier address.
    pub fn resume(offset: PdiOffset, start_address: u32, direction: PdoDirection) -> (helper: Self)
        ensures
            helper@ == (OffsetModel { offset, start_address, count: 0, direction }),
    {
        OffsetHelper { cur_offset: offset, start_address, index: 0, direction }
    }

    /// The offset, start address and direction with which to configure the next slave's FMMUs.
    pub fn request(&self) -> (request: (PdiOffset, u32, PdoDirection))
        ensures
            request == self@.next_request(),
    {
        (self.cur_offset, self.start_address, self.direction)
    }

    /// Take in what came of configuring one slave's FMMUs: the offset after the slave's process data,
    /// or an error, which leaves the offset as it is.
    pub fn configure_fmmus(&mut self, outcome: Result<PdiOffset, Error>) -> (result: Result<
        (),
        Error,
    >)
        requires
            old(self)@.count < u32::MAX,
        ensures
            result == match outcome {
                Ok(_) => Ok(()),
                Err(e) => Err(e),
            },
            final(self)@ == old(self)@.after(outcome),
    {
        self.index = self.index + 1;
        match outcome {
            Ok(offset) => {
                self.cur_offset = offset;
                Ok(())
            },
            Err(e) => Err(e),
        }
    }

    /// Return the number of calls of [`OffsetHelper::configure_fmmus`].
    pub fn calling_cnt(&self) -> (count: u32)
        ensures
            count == self@.count,
    {
        self.index
    }

    /// Consume the helper and return the length of the process data from the start address on.
    pub fn finish(self) -> (len: usize)
        requires
            self@.start_address <= self@.offset.start_address,
        ensures
            len == self@.offset.start_address - self@.start_address,
    {
        (self.cur_offset.start_address - self.start_address) as usize
    }
}

/// The offset of the last outcome that is not an error, or the given offset if all are errors.
pub open spec fn last_offset(offset: PdiOffset, outcomes: Seq<Result<PdiOffset, Error>>) -> PdiOffset
    decreases outcomes.len(),
{
    if outcomes.len() == 0 {
        offset
    } else {
        match outcomes.last() {
            Ok(end) => end,
            Err(_) => last_offset(offset, outcomes.drop_last()),
        }
    }
}

/// After any number of slaves, the next slave is configured at the offset that the last successful
/// one ended with, with the address and direction that the helper was made with. Every slave
/// counts, whatever came of configuring it.
pub proof fn law_next_slave_goes_after_last_success(
    offset: PdiOffset,
    direction: PdoDirection,
    outcomes: Seq<Result<PdiOffset, Error>>,
)
    ensures
        ({
            let new = OffsetModel {
                offset,
                start_address: offset.start_address,
                count: 0,
                direction,
            };
            &&& new.after_all(outcomes).next_request() == (
                last_offset(offset, outcomes),
                offset.start_address,
                direction,
            )
            &&& new.after_all(outcomes).count == outcomes.len()
        }),
    decreases outcomes.len(),
{
    if outcomes.len() > 0 {
        law_next_slave_goes_after_last_success(offset, direction, outcomes.drop_last());
    }
}

/// A new helper starts at its offset and has counted nothing. Each outcome that is handed to it counts
/// once: a good one moves the offset and a bad one is handed back. What the helper measures at the end
/// is the way from its start to the last offset.
pub proof fn law_helper_measures_from_its_start(
    offset: PdiOffset,
    direction: PdoDirection,
    new: OffsetHelper,
    first_request: (PdiOffset, u32, PdoDirection),
    first_count: u32,
    helper: &mut OffsetHelper,
    outcome: Result<PdiOffset, Error>,
    result: Result<(), Error>,
    next_request: (PdiOffset, u32, PdoDirection),
    next_count: u32,
    len: usize,
)
    requires
        call_ensures(OffsetHelper::new, (offset, direction), new),
        call_ensures(OffsetHelper::request, (&new,), first_request),
        call_ensures(OffsetHelper::calling_cnt, (&new,), first_count),
        *old(helper) == new,
        call_ensures(OffsetHelper::configure_fmmus, (helper, outcome), result),
        call_ensures(OffsetHelper::request, (&*final(helper),), next_request),
        call_ensures(OffsetHelper::calling_cnt, (&*final(helper),), next_count),
        outcome matches Ok(end) ==> offset.start_address <= end.start_address,
        call_ensures(OffsetHelper::finish, (*final(helper),), len),
    ensures
        first_request == (offset, offset.start_address, direction),
        first_count == 0,
        next_count == 1,
        result is Ok <==> outcome is Ok,
        result matches Err(e) ==> e == outcome->Err_0,
        outcome matches Ok(end) ==> next_request == (end, offset.start_address, direction) && len
            == end.start_address - offset.start_address,
        outcome is Err ==> next_request == first_request && len == 0,
{
}

/// However many outcomes came before, one more counts once more, moves the offset exactly if it is a
/// good one, and leaves the start and the direction alone.
pub proof fn law_every_outcome_counts(
    helper: &mut OffsetHelper,
    outcome: Result<PdiOffset, Error>,
    result: Result<(), Error>,
    before: (PdiOffset, u32, PdoDirection),
    after: (PdiOffset, u32, PdoDirection),
    count: u32,
    next_count: u32,
)
    requires
        call_ensures(OffsetHelper::request, (&*old(helper),), before),
        call_ensures(OffsetHelper::calling_cnt, (&*old(helper),), count),
        call_ensures(OffsetHelper::configure_fmmus, (helper, outcome), result),
        call_ensures(OffsetHelper::request, (&*final(helper),), after),
        call_ensures(OffsetHelper::calling_cnt, (&*final(helper),), next_count),
    ensures
        next_count == count + 1,
        after.0 == if outcome is Ok {
            outcome->Ok_0
        } else {
            before.0
        },
        after.1 == before.1,
        after.2 == before.2,
{
}

/// A helper that goes on with process data measures from the earlier address.
pub proof fn law_resumed_helper_measures_from_earlier_start(
    offset: PdiOffset,
    start_address: u32,
    direction: PdoDirection,
    helper: OffsetHelper,
    request: (PdiOffset, u32, PdoDirection),
    len: usize,
)
    requires
        start_address <= offset.start_address,
        call_ensures(OffsetHelper::resume, (offset, start_address, direction), helper),
        call_ensures(OffsetHelper::request, (&helper,), request),
        call_ensures(OffsetHelper::finish, (helper,), len),
    ensures
        request == (offset, start_address, direction),
        start_address + len == offset.start_address,
{
}

} // verus!
