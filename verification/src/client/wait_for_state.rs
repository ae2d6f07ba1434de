//! Waiting until all slaves on the network have reached a state.

use super::{Client, BASE_SLAVE_ADDR};
use crate::command::Command;
use crate::error::{checked, wkc, Error};
use crate::register::RegisterAddress;
use crate::state::{AlControl, SlaveState};
use vstd::prelude::*;

verus! {

/// What has to be done next while waiting for a state.
#[derive(Debug, PartialEq, Eq, Copy, Clone)]
pub enum WaitAction {
    /// Read the AL status of all slaves with the given command.
    ReadStatus(Command),
    /// Read the AL status code of one slave with the given command, for a message.
    ReadStatusCode {
        /// The configured address of the slave.
        slave_addr: u16,
        /// The command to send.
        command: Command,
    },
    /// Wait before the next look at the slaves.
    LoopTick,
    /// Nothing: the wait is over.
    Finish(Result<(), Error>),
}

/// What came of an action.
#[derive(Debug, PartialEq, Eq, Copy, Clone)]
pub enum WaitEvent {
    /// The AL status of all slaves.
    Status {
        /// The status that the slaves have together.
        status: AlControl,
        /// The number of slaves that reported their status.
        working_counter: u16,
    },
    /// The AL status code of one slave was read.
    StatusCode,
    /// It is time for the next look at the slaves.
    Tick,
    /// The last action failed, or the time to wait is over.
    Failed(Error),
}

/// How far a wait has come.
#[derive(Debug, PartialEq, Eq, Copy, Clone)]
pub enum WaitStage {
    /// The status of all slaves has to be read.
    Status,
    /// A slave reported an error. The status codes of the first `done` slaves have been read.
    StatusCodes {
        done: u16,
    },
    /// The slaves have not reached the state yet.
    Pause,
    /// The wait is over.
    Finished(Result<(), Error>),
}

/// A wait for all slaves on the network to reach a state.
#[derive(Debug, PartialEq, Eq, Copy, Clone)]
pub struct StateWait {
    pub desired_state: SlaveState,
    pub num_slaves: u16,
    pub stage: WaitStage,
}

impl StateWait {
    /// The number of slaves whose status codes have been read is in bounds, and every slave has an
    /// address where status codes are read.
    pub open spec fn wf(self) -> bool {
        self.stage matches WaitStage::StatusCodes { done } ==> done < self.num_slaves
            && BASE_SLAVE_ADDR + self.num_slaves <= u16::MAX
    }

    /// The event can be handled: the addresses of all slaves are known if their status codes have
    /// to be read.
    pub open spec fn accepts(self, event: WaitEvent) -> bool {
        self.stage == WaitStage::Status ==> (event matches WaitEvent::Status {
            status,
            working_counter,
        } ==> working_counter == self.num_slaves && status.error ==> BASE_SLAVE_ADDR
            + self.num_slaves <= u16::MAX)
    }

    /// What has to be done at this point of the wait.
    pub open spec fn spec_action(self) -> WaitAction {
        match self.stage {
            WaitStage::Status => WaitAction::ReadStatus(
                Command::Brd { address: 0, register: RegisterAddress::AlStatus.location() },
            ),
            WaitStage::StatusCodes { done } => WaitAction::ReadStatusCode {
                slave_addr: (BASE_SLAVE_ADDR + done) as u16,
                command: Command::Fprd {
                    address: (BASE_SLAVE_ADDR + done) as u16,
                    register: RegisterAddress::AlStatusCode.location(),
                },
            },
            WaitStage::Pause => WaitAction::LoopTick,
            WaitStage::Finished(result) => WaitAction::Finish(result),
        }
    }

    /// Where the wait stands after the status of all slaves has been read.
    pub open spec fn stage_after_status(self, status: AlControl, working_counter: u16) -> WaitStage {
        match checked((status, working_counter), self.num_slaves, "read all slaves state") {
            Err(e) => WaitStage::Finished(Err(e)),
            Ok(status) => if status.error {
                if self.num_slaves == 0 {
                    WaitStage::Finished(Err(Error::StateTransition))
                } else {
                    WaitStage::StatusCodes { done: 0 }
                }
            } else if status.state == self.desired_state {
                WaitStage::Finished(Ok(()))
            } else {
                WaitStage::Pause
            },
        }
    }

    /// Where the wait stands after an event. An event that does not belong to the action that had
    /// to be done changes nothing.
    pub open spec fn stage_after(self, event: WaitEvent) -> WaitStage {
        match (self.stage, event) {
            (WaitStage::Finished(result), _) => WaitStage::Finished(result),
            (_, WaitEvent::Failed(e)) => WaitStage::Finished(Err(e)),
            (WaitStage::Status, WaitEvent::Status { status, working_counter }) =>
                self.stage_after_status(status, working_counter),
            (WaitStage::StatusCodes { done }, WaitEvent::StatusCode) => if done + 1
                == self.num_slaves {
                WaitStage::Finished(Err(Error::StateTransition))
            } else {
                WaitStage::StatusCodes { done: (done + 1) as u16 }
            },
            (WaitStage::Pause, WaitEvent::Tick) => WaitStage::Status,
            (stage, _) => stage,
        }
    }

    /// The wait after an event.
    pub open spec fn after(self, event: WaitEvent) -> StateWait {
        StateWait { stage: self.stage_after(event), ..self }
    }

    /// The wait after a number of events.
    pub open spec fn after_all(self, events: Seq<WaitEvent>) -> StateWait
        decreases events.len(),
    {
        if events.len() == 0 {
            self
        } else {
            self.after_all(events.drop_last()).after(events.last())
        }
    }

    /// What has to be done next.
    pub fn action(&self) -> (action: WaitAction)
        requires
            self.wf(),
        ensures
            action == self.spec_action(),
    {
        match self.stage {
            WaitStage::Status => WaitAction::ReadStatus(
                Command::Brd { address: 0, register: u16::from(RegisterAddress::AlStatus) },
            ),
            WaitStage::StatusCodes { done } => {
                let slave_addr: u16 = BASE_SLAVE_ADDR + done;

                WaitAction::ReadStatusCode {
                    slave_addr,
                    command: Command::Fprd {
                        address: slave_addr,
                        register: u16::from(RegisterAddress::AlStatusCode),
                    },
                }
            },
            WaitStage::Pause => WaitAction::LoopTick,
            WaitStage::Finished(result) => WaitAction::Finish(result),
        }
    }

    /// Take in what came of the last action.
    pub fn handle(&mut self, event: WaitEvent)
        requires
            old(self).wf(),
            old(self).accepts(event),
        ensures
            final(self).wf(),
            *final(self) == old(self).after(event),
    {
        self.stage = match (self.stage, event) {
            (WaitStage::Finished(result), _) => WaitStage::Finished(result),
            (_, WaitEvent::Failed(e)) => WaitStage::Finished(Err(e)),
            (WaitStage::Status, WaitEvent::Status { status, working_counter }) => match wkc(
                (status, working_counter),
                self.num_slaves,
                "read all slaves state",
            ) {
                Err(e) => WaitStage::Finished(Err(e)),
                Ok(status) => if status.error {
                    if self.num_slaves == 0 {
                        WaitStage::Finished(Err(Error::StateTransition))
                    } else {
                        WaitStage::StatusCodes { done: 0 }
                    }
                } else if status.state == self.desired_state {
                    WaitStage::Finished(Ok(()))
                } else {
                    WaitStage::Pause
                },
            },
            (WaitStage::StatusCodes { done }, WaitEvent::StatusCode) => if done + 1
                == self.num_slaves {
                WaitStage::Finished(Err(Error::StateTransition))
            } else {
                WaitStage::StatusCodes { done: done + 1 }
            },
            (WaitStage::Pause, WaitEvent::Tick) => WaitStage::Status,
            (stage, _) => stage,
        };
    }
}

impl Client {
    /// Wait for all slaves on the network to reach a given state.
    pub fn wait_for_state(&self, desired_state: SlaveState) -> (wait: StateWait)
        ensures
            wait == (StateWait {
                desired_state,
                num_slaves: self.slave_count(),
                stage: WaitStage::Status,
            }),
            wait.wf(),
    {
        StateWait { desired_state, num_slaves: self.num_slaves, stage: WaitStage::Status }
    }
}

/// A wait ends well exactly when all slaves report the desired state and none reports an error.
pub proof fn law_wait_succeeds_only_in_desired_state(wait: StateWait, event: WaitEvent)
    requires
        !(wait.stage is Finished),
    ensures
        wait.after(event).stage == WaitStage::Finished(Ok(())) <==> (wait.stage == WaitStage::Status
            && (event matches WaitEvent::Status { status, working_counter } && working_counter
            == wait.num_slaves && !status.error && status.state == wait.desired_state)),
{
}

/// Nothing that happens after a wait is over changes how it ended.
pub proof fn law_finished_wait_stays_finished(wait: StateWait, events: Seq<WaitEvent>)
    requires
        wait.stage is Finished,
    ensures
        wait.after_all(events) == wait,
    decreases events.len(),
{
    if events.len() > 0 {
        law_finished_wait_stays_finished(wait, events.drop_last());
    }
}

/// The events of `n` status codes read one after the other.
pub open spec fn status_codes(n: nat) -> Seq<WaitEvent> {
    Seq::new(n, |i: int| WaitEvent::StatusCode)
}

/// Once a slave has reported an error, the status code of every slave is read, in the order of
/// their addresses, and then the wait ends with a failed state transition.
pub proof fn law_error_reads_all_status_codes(
    wait: StateWait,
    status: AlControl,
    codes: nat,
)
    requires
        wait.stage == WaitStage::Status,
        status.error,
        codes <= wait.num_slaves,
    ensures
        ({
            let failing = wait.after(
                WaitEvent::Status { status, working_counter: wait.num_slaves },
            ).after_all(status_codes(codes));
            &&& failing.num_slaves == wait.num_slaves
            &&& if codes == wait.num_slaves {
                failing.stage == WaitStage::Finished(Err(Error::StateTransition))
            } else {
                failing.stage == WaitStage::StatusCodes { done: codes as u16 }
            }
        }),
    decreases codes,
{
    if codes > 0 {
        law_error_reads_all_status_codes(wait, status, (codes - 1) as nat);
        assert(status_codes(codes).drop_last() =~= status_codes((codes - 1) as nat));
    }
}

/// While no slave reports an error and the slaves are in another state than the desired one, the wait
/// pauses and then reads the status again, whatever the desired state is. It is over at once when the
/// desired state is reported.
pub proof fn law_wait_reads_again_until_state_is_reached(
    wait: &mut StateWait,
    status: AlControl,
    tick: &mut StateWait,
)
    requires
        old(wait).stage == WaitStage::Status,
        !status.error,
        call_ensures(
            StateWait::handle,
            (wait, WaitEvent::Status { status, working_counter: old(wait).num_slaves }),
            (),
        ),
        old(tick).stage == WaitStage::Pause,
        call_ensures(StateWait::handle, (tick, WaitEvent::Tick), ()),
    ensures
        final(wait).stage == if status.state == old(wait).desired_state {
            WaitStage::Finished(Ok(()))
        } else {
            WaitStage::Pause
        },
        final(wait).desired_state == old(wait).desired_state,
        final(wait).num_slaves == old(wait).num_slaves,
        final(tick).stage == WaitStage::Status,
        final(tick).desired_state == old(tick).desired_state,
        final(tick).num_slaves == old(tick).num_slaves,
{
}

/// A status that not all slaves have reported ends the wait with both numbers. A status with an error
/// leads to the status codes, if there is a slave to read one from. Anything that fails ends the wait
/// with its error.
pub proof fn law_wait_ends_with_what_went_wrong(
    wait: &mut StateWait,
    status: AlControl,
    working_counter: u16,
    other: &mut StateWait,
    e: Error,
)
    requires
        old(wait).stage == WaitStage::Status,
        call_ensures(StateWait::handle, (wait, WaitEvent::Status { status, working_counter }), ()),
        !(old(other).stage is Finished),
        call_ensures(StateWait::handle, (other, WaitEvent::Failed(e)), ()),
    ensures
        working_counter != old(wait).num_slaves ==> final(wait).stage == WaitStage::Finished(
            Err(
                Error::WorkingCounter {
                    expected: old(wait).num_slaves,
                    received: working_counter,
                    context: "read all slaves state",
                },
            ),
        ),
        working_counter == old(wait).num_slaves && status.error ==> final(wait).stage == if old(wait).num_slaves > 0 {
            WaitStage::StatusCodes { done: 0 }
        } else {
            WaitStage::Finished(Err(Error::StateTransition))
        },
        final(other).stage == WaitStage::Finished(Err(e)),
{
}

/// Only what came of the action that had to be done takes a wait on.
pub proof fn law_wait_ignores_other_events(wait: &mut StateWait, event: WaitEvent)
    requires
        call_ensures(StateWait::handle, (wait, event), ()),
        *final(wait) != *old(wait),
    ensures
        event is Failed || (event is Status && old(wait).stage is Status) || (event is StatusCode
            && old(wait).stage is StatusCodes) || (event is Tick && old(wait).stage is Pause),
        !(old(wait).stage is Finished),
{
}

/// What has to be done: the AL status of all slaves is read, or the status code of the slave that comes
/// after those that have been read, or nothing until the next look.
pub proof fn law_wait_reads_status_registers(wait: StateWait, action: WaitAction)
    requires
        wait.wf(),
        call_ensures(StateWait::action, (&wait,), action),
    ensures
        wait.stage is Status <==> (action matches WaitAction::ReadStatus(command)
            && command == (Command::Brd { address: 0, register: 0x130 })),
        wait.stage matches WaitStage::StatusCodes { done } ==> (
        action matches WaitAction::ReadStatusCode { slave_addr, command } && slave_addr == 0x1000
            + done && command == (Command::Fprd { address: slave_addr, register: 0x134 })),
        wait.stage is Pause <==> action is LoopTick,
        wait.stage matches WaitStage::Finished(result) ==> action == WaitAction::Finish(result),
        action is Finish ==> wait.stage is Finished,
{
}

/// A wait is for the state that was asked for, of all slaves that were found, and begins with a look at
/// their status.
pub proof fn law_wait_is_for_the_given_state(
    client: Client,
    desired_state: SlaveState,
    wait: StateWait,
    num_slaves: usize,
)
    requires
        call_ensures(Client::wait_for_state, (&client, desired_state), wait),
        call_ensures(Client::num_slaves, (&client,), num_slaves),
    ensures
        wait.desired_state == desired_state,
        wait.num_slaves == num_slaves,
        wait.stage == WaitStage::Status,
{
}

/// The events of looks at the slaves that find them in the given states, each followed by a pause.
pub open spec fn looks(states: Seq<SlaveState>, num_slaves: u16) -> Seq<WaitEvent>
    decreases states.len(),
{
    if states.len() == 0 {
        Seq::empty()
    } else {
        looks(states.drop_last(), num_slaves).push(
            WaitEvent::Status {
                status: AlControl { state: states.last(), error: false, id_request: false },
                working_counter: num_slaves,
            },
        ).push(WaitEvent::Tick)
    }
}

/// A wait goes on for as many looks as it takes: as long as the slaves are in other states than the
/// desired one, nothing about the wait changes from one look to the next.
pub proof fn law_wait_goes_on_for_any_number_of_looks(wait: StateWait, states: Seq<SlaveState>)
    requires
        wait.stage == WaitStage::Status,
        forall|i: int| 0 <= i < states.len() ==> #[trigger] states[i] != wait.desired_state,
    ensures
        wait.after_all(looks(states, wait.num_slaves)) == wait,
    decreases states.len(),
{
    if states.len() > 0 {
        law_wait_goes_on_for_any_number_of_looks(wait, states.drop_last());
        let before = looks(states.drop_last(), wait.num_slaves);
        let all = looks(states, wait.num_slaves);
        assert(states.last() == states[states.len() - 1]);
        assert(all.drop_last().drop_last() =~= before);
        assert(wait.after_all(all.drop_last()) == wait.after_all(before).after(
            all.drop_last().last(),
        ));
    }
}

/// Some status with an error was reported by all slaves.
pub open spec fn error_was_reported(events: Seq<WaitEvent>, num_slaves: u16) -> bool {
    exists|i: int|
        0 <= i < events.len() && (#[trigger] events[i] matches WaitEvent::Status {
            status,
            working_counter,
        } && status.error && working_counter == num_slaves)
}

/// A wait ends with a failed state transition only after a status with the error flag, unless that
/// very error came from outside.
pub proof fn law_state_transition_fails_only_after_error(wait: StateWait, events: Seq<WaitEvent>)
    requires
        wait.stage == WaitStage::Status,
        !events.contains(WaitEvent::Failed(Error::StateTransition)),
    ensures
        wait.after_all(events).stage == WaitStage::Finished(Err(Error::StateTransition))
            ==> error_was_reported(events, wait.num_slaves),
        wait.after_all(events).stage is StatusCodes ==> error_was_reported(events, wait.num_slaves),
        wait.after_all(events).num_slaves == wait.num_slaves,
        wait.after_all(events).desired_state == wait.desired_state,
    decreases events.len(),
{
    if events.len() > 0 {
        let before = events.drop_last();
        assert(!before.contains(WaitEvent::Failed(Error::StateTransition))) by {
            if before.contains(WaitEvent::Failed(Error::StateTransition)) {
                let i = before.index_of(WaitEvent::Failed(Error::StateTransition));
                assert(events[i] == before[i]);
            }
        }
        assert(events.contains(events.last())) by {
            assert(events[events.len() - 1] == events.last());
        }
        law_state_transition_fails_only_after_error(wait, before);
        if error_was_reported(before, wait.num_slaves) {
            let i = choose|i: int|
                0 <= i < before.len() && (#[trigger] before[i] matches WaitEvent::Status {
                    status,
                    working_counter,
                } && status.error && working_counter == wait.num_slaves);
            assert(events[i] == before[i]);
        }
    }
}

} // verus!
