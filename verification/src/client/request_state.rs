//! Requesting a state of all slaves and waiting until they have reached it.

use super::wait_for_state::{StateWait, WaitAction, WaitEvent, WaitStage};
use super::Client;
use crate::command::Command;
use crate::error::{checked, wkc, Error};
use crate::register::RegisterAddress;
use crate::state::{AlControl, SlaveState};
use vstd::prelude::*;

verus! {

/// What has to be done next to bring all slaves to a state.
#[derive(Debug, PartialEq, Eq, Copy, Clone)]
pub enum RequestAction {
    /// Write to the AL control register of all slaves with the given command.
    WriteControl {
        /// The command to send.
        command: Command,
        /// The value to write.
        control: AlControl,
    },
    /// Wait for the state.
    Wait(WaitAction),
}

/// What came of an action.
#[derive(Debug, PartialEq, Eq, Copy, Clone)]
pub enum RequestEvent {
    /// The AL control register has been written.
    ControlWritten {
        /// The number of slaves that took the value.
        working_counter: u16,
    },
    /// What came of an action of the wait. A failure to write the AL control register is a
    /// [`WaitEvent::Failed`] too.
    Wait(WaitEvent),
}

/// A request that all slaves go to a state.
#[derive(Debug, PartialEq, Eq, Copy, Clone)]
pub struct StateRequest {
    /// Whether the slaves have been told to go to the state.
    pub written: bool,
    /// The wait that follows.
    pub wait: StateWait,
}

impl StateRequest {
    /// The wait is well-formed, and it has not begun while the request is not written.
    pub open spec fn wf(self) -> bool {
        &&& self.wait.wf()
        &&& self.written || self.wait.stage == WaitStage::Status
    }

    /// The event can be handled.
    pub open spec fn accepts(self, event: RequestEvent) -> bool {
        self.written ==> (event matches RequestEvent::Wait(e) ==> self.wait.accepts(e))
    }

    /// What has to be done at this point of the request.
    pub open spec fn spec_action(self) -> RequestAction {
        if self.written {
            RequestAction::Wait(self.wait.spec_action())
        } else {
            RequestAction::WriteControl {
                command: Command::Bwr {
                    address: 0,
                    register: RegisterAddress::AlControl.location(),
                },
                control: AlControl {
                    state: self.wait.desired_state,
                    error: false,
                    id_request: false,
                },
            }
        }
    }

    /// The request, ended with an error.
    pub open spec fn failed(self, e: Error) -> StateRequest {
        StateRequest {
            written: true,
            wait: StateWait { stage: WaitStage::Finished(Err(e)), ..self.wait },
        }
    }

    /// The request after an event. An event that does not belong to the action that had to be done
    /// changes nothing.
    pub open spec fn after(self, event: RequestEvent) -> StateRequest {
        match (self.written, event) {
            (false, RequestEvent::ControlWritten { working_counter }) => match checked(
                ((), working_counter),
                self.wait.num_slaves,
                "set all slaves state",
            ) {
                Ok(_) => StateRequest { written: true, ..self },
                Err(e) => self.failed(e),
            },
            (false, RequestEvent::Wait(WaitEvent::Failed(e))) => self.failed(e),
            (true, RequestEvent::Wait(e)) => StateRequest { wait: self.wait.after(e), ..self },
            _ => self,
        }
    }

    /// What has to be done next.
    pub fn action(&self) -> (action: RequestAction)
        requires
            self.wf(),
        ensures
            action == self.spec_action(),
    {
        if self.written {
            RequestAction::Wait(self.wait.action())
        } else {
            RequestAction::WriteControl {
                command: Command::Bwr {
                    address: 0,
                    register: u16::from(RegisterAddress::AlControl),
                },
                control: AlControl::new(self.wait.desired_state),
            }
        }
    }

    /// Take in what came of the last action.
    pub fn handle(&mut self, event: RequestEvent)
        requires
            old(self).wf(),
            old(self).accepts(event),
        ensures
            final(self).wf(),
            *final(self) == old(self).after(event),
    {
        match (self.written, event) {
            (false, RequestEvent::ControlWritten { working_counter }) => {
                match wkc(((), working_counter), self.wait.num_slaves, "set all slaves state") {
                    Ok(_) => {},
                    Err(e) => {
                        self.wait.stage = WaitStage::Finished(Err(e));
                    },
                }
                self.written = true;
            },
            (false, RequestEvent::Wait(WaitEvent::Failed(e))) => {
                self.wait.stage = WaitStage::Finished(Err(e));
                self.written = true;
            },
            (true, RequestEvent::Wait(e)) => {
                self.wait.handle(e);
            },
            _ => {},
        }
    }
}

impl Client {
    /// Request the same state for all slaves.
    pub fn request_slave_state(&self, desired_state: SlaveState) -> (request: StateRequest)
        ensures
            request == (StateRequest {
                written: false,
                wait: StateWait {
                    desired_state,
                    num_slaves: self.slave_count(),
                    stage: WaitStage::Status,
                },
            }),
            request.wf(),
    {
        StateRequest { written: false, wait: self.wait_for_state(desired_state) }
    }
}

/// A request is only waited for once every slave has taken it.
pub proof fn law_wait_follows_complete_request(request: StateRequest, event: RequestEvent)
    requires
        request.wf(),
        !request.written,
    ensures
        request.after(event).written && !(request.after(event).wait.stage is Finished) <==> event
            == (RequestEvent::ControlWritten { working_counter: request.wait.num_slaves }),
{
}

/// The state that all slaves are told to go to is the one that was asked for, whichever it is, and so
/// is the state that is waited for afterwards.
pub proof fn law_requested_state_is_written_and_waited_for(
    client: Client,
    desired_state: SlaveState,
    request: StateRequest,
    action: RequestAction,
)
    requires
        call_ensures(Client::request_slave_state, (&client, desired_state), request),
        call_ensures(StateRequest::action, (&request,), action),
    ensures
        action matches RequestAction::WriteControl { command, control } && command == (
        Command::Bwr { address: 0, register: 0x120 }) && control.state == desired_state
            && !control.error && !control.id_request,
        request.wait.desired_state == desired_state,
        request.wait.num_slaves == client.slave_count(),
{
}

/// Once every slave has taken the request, the wait for the requested state begins. If another number
/// of slaves took it, or writing it failed, the request is over with that error.
pub proof fn law_wait_begins_when_all_slaves_took_request(
    request: &mut StateRequest,
    working_counter: u16,
    other: &mut StateRequest,
    e: Error,
)
    requires
        old(request).wf(),
        !old(request).written,
        call_ensures(
            StateRequest::handle,
            (request, RequestEvent::ControlWritten { working_counter }),
            (),
        ),
        old(other).wf(),
        !old(other).written,
        call_ensures(
            StateRequest::handle,
            (other, RequestEvent::Wait(WaitEvent::Failed(e))),
            (),
        ),
    ensures
        final(request).written,
        final(request).wait.desired_state == old(request).wait.desired_state,
        final(request).wait.num_slaves == old(request).wait.num_slaves,
        final(request).wait.stage == if working_counter == old(request).wait.num_slaves {
            WaitStage::Status
        } else {
            WaitStage::Finished(
                Err(
                    Error::WorkingCounter {
                        expected: old(request).wait.num_slaves,
                        received: working_counter,
                        context: "set all slaves state",
                    },
                ),
            )
        },
        final(other).written,
        final(other).wait.stage == WaitStage::Finished(Err(e)),
{
}

/// Once the request has been written, what happens is what happens to the wait, and what has to be done
/// is what the wait calls for.
pub proof fn law_written_request_is_a_wait(
    request: &mut StateRequest,
    event: WaitEvent,
    wait: &mut StateWait,
    action: RequestAction,
    wait_action: WaitAction,
)
    requires
        old(request).written,
        old(request).wf(),
        *old(wait) == old(request).wait,
        call_ensures(StateRequest::handle, (request, RequestEvent::Wait(event)), ()),
        call_ensures(StateWait::handle, (wait, event), ()),
        call_ensures(StateRequest::action, (&*final(request),), action),
        call_ensures(StateWait::action, (&*final(wait),), wait_action),
    ensures
        final(request).written,
        final(request).wait == *final(wait),
        action == RequestAction::Wait(wait_action),
{
}

/// Before the request is written, nothing that a wait would take in changes it, but for a failure.
/// After it, a second write does not.
pub proof fn law_request_ignores_other_events(request: &mut StateRequest, event: RequestEvent)
    requires
        call_ensures(StateRequest::handle, (request, event), ()),
        *final(request) != *old(request),
    ensures
        old(request).written ==> event is Wait,
        !old(request).written ==> event is ControlWritten || (event matches RequestEvent::Wait(w)
            && w is Failed),
{
}

/// A request that every slave takes, and after which all slaves report the requested state without an
/// error, ends well. With any other state it goes on.
pub proof fn law_request_ends_in_requested_state(
    client: Client,
    desired_state: SlaveState,
    request: StateRequest,
    status: AlControl,
)
    requires
        call_ensures(Client::request_slave_state, (&client, desired_state), request),
        !status.error,
    ensures
        ({
            let taken = request.after(
                RequestEvent::ControlWritten { working_counter: client.slave_count() },
            );
            let reported = taken.after(
                RequestEvent::Wait(
                    WaitEvent::Status { status, working_counter: client.slave_count() },
                ),
            );
            reported.spec_action() == RequestAction::Wait(
                if status.state == desired_state {
                    WaitAction::Finish(Ok(()))
                } else {
                    WaitAction::LoopTick
                },
            )
        }),
{
}

} // verus!
