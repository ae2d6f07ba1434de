//! Bringing the whole network from detection to SAFE-OP.

use super::Client;
use crate::error::Error;
use crate::pdi::PdiOffset;
use crate::state::SlaveState;
use vstd::prelude::*;

verus! {

/// What has to be done next to bring up the network.
#[derive(Debug, PartialEq, Eq, Copy, Clone)]
pub enum StartupAction {
    /// Detect all slaves, as [`Client::init_slaves`] says.
    DetectSlaves,
    /// Run what the user wants to have run on the detected slaves.
    PostInit,
    /// Assign the slaves to groups and configure the groups, as [`Client::configure_slave_group`]
    /// says, with the PDI of the first group at the given offset.
    ConfigureGroups {
        start_offset: PdiOffset,
    },
    /// Run what the user wants to have run on the configured groups.
    PostConfig,
    /// Wait for all slaves to reach a state, as [`Client::wait_for_state`] says.
    WaitForState(SlaveState),
    /// Nothing: the network is up, or it could not be brought up.
    Finish(Result<(), Error>),
}

/// What came of an action.
#[derive(Debug, PartialEq, Eq, Copy, Clone)]
pub enum StartupEvent {
    /// The last action is done.
    Done,
    /// The last action failed.
    Failed(Error),
}

/// How far the network has come.
#[derive(Debug, PartialEq, Eq, Copy, Clone)]
pub enum StartupStage {
    /// No slave is known.
    Detect,
    /// All slaves are known, and the user has not looked at them yet.
    PostInit,
    /// No slave is in a group.
    Configure,
    /// All groups are configured, and the user has not looked at them yet.
    PostConfig,
    /// The slaves are on their way to SAFE-OP.
    Wait,
    /// The startup is over.
    Finished(Result<(), Error>),
}

/// A startup of the network.
#[derive(Debug, PartialEq, Eq, Copy, Clone)]
pub struct Startup {
    /// Whether the user wants to have something run on the detected slaves and on the configured
    /// groups.
    pub advanced: bool,
    /// How far the network has come.
    pub stage: StartupStage,
}

impl Startup {
    /// The user's part comes up only if the user has one.
    pub open spec fn wf(self) -> bool {
        self.stage == StartupStage::PostInit || self.stage == StartupStage::PostConfig
            ==> self.advanced
    }

    /// The event can be handled: what the user wants to have run does not fail.
    pub open spec fn accepts(self, event: StartupEvent) -> bool {
        self.stage == StartupStage::PostInit || self.stage == StartupStage::PostConfig ==> !(
        event is Failed)
    }

    /// What has to be done at this point of the startup.
    pub open spec fn spec_action(self) -> StartupAction {
        match self.stage {
            StartupStage::Detect => StartupAction::DetectSlaves,
            StartupStage::PostInit => StartupAction::PostInit,
            StartupStage::Configure => StartupAction::ConfigureGroups {
                start_offset: PdiOffset { start_address: 0 },
            },
            StartupStage::PostConfig => StartupAction::PostConfig,
            StartupStage::Wait => StartupAction::WaitForState(SlaveState::SafeOp),
            StartupStage::Finished(result) => StartupAction::Finish(result),
        }
    }

    /// The stage that follows when an action is done.
    pub open spec fn next_stage(self) -> StartupStage {
        match self.stage {
            StartupStage::Detect => if self.advanced {
                StartupStage::PostInit
            } else {
                StartupStage::Configure
            },
            StartupStage::PostInit => StartupStage::Configure,
            StartupStage::Configure => if self.advanced {
                StartupStage::PostConfig
            } else {
                StartupStage::Wait
            },
            StartupStage::PostConfig => StartupStage::Wait,
            StartupStage::Wait => StartupStage::Finished(Ok(())),
            StartupStage::Finished(result) => StartupStage::Finished(result),
        }
    }

    /// The startup after an event.
    pub open spec fn after(self, event: StartupEvent) -> Startup {
        let stage = match (self.stage, event) {
            (StartupStage::Finished(result), _) => StartupStage::Finished(result),
            (_, StartupEvent::Failed(e)) => StartupStage::Finished(Err(e)),
            (_, StartupEvent::Done) => self.next_stage(),
        };
        Startup { stage, ..self }
    }

    /// The startup after a number of events.
    pub open spec fn after_all(self, events: Seq<StartupEvent>) -> Startup
        decreases events.len(),
    {
        if events.len() == 0 {
            self
        } else {
            self.after_all(events.drop_last()).after(events.last())
        }
    }

    /// What has to be done next.
    pub fn action(&self) -> (action: StartupAction)
        ensures
            action == self.spec_action(),
    {
        match self.stage {
            StartupStage::Detect => StartupAction::DetectSlaves,
            StartupStage::PostInit => StartupAction::PostInit,
            StartupStage::Configure => StartupAction::ConfigureGroups {
                start_offset: PdiOffset::default(),
            },
            StartupStage::PostConfig => StartupAction::PostConfig,
            // Wait for all slaves to reach SAFE-OP
            StartupStage::Wait => StartupAction::WaitForState(SlaveState::SafeOp),
            StartupStage::Finished(result) => StartupAction::Finish(result),
        }
    }

    /// Take in what came of the last action.
    pub fn handle(&mut self, event: StartupEvent)
        requires
            old(self).wf(),
            old(self).accepts(event),
        ensures
            final(self).wf(),
            *final(self) == old(self).after(event),
    {
        self.stage = match (self.stage, event) {
            (StartupStage::Finished(result), _) => StartupStage::Finished(result),
            (_, StartupEvent::Failed(e)) => StartupStage::Finished(Err(e)),
            (StartupStage::Detect, StartupEvent::Done) => if self.advanced {
                StartupStage::PostInit
            } else {
                StartupStage::Configure
            },
            (StartupStage::PostInit, StartupEvent::Done) => StartupStage::Configure,
            (StartupStage::Configure, StartupEvent::Done) => if self.advanced {
                StartupStage::PostConfig
            } else {
                StartupStage::Wait
            },
            (StartupStage::PostConfig, StartupEvent::Done) => StartupStage::Wait,
            (StartupStage::Wait, StartupEvent::Done) => StartupStage::Finished(Ok(())),
        };
    }
}

impl Client {
    /// Detect slaves, set their configured station addresses, assign to groups, configure slave
    /// devices from EEPROM.
    pub fn init(&self) -> (startup: Startup)
        ensures
            startup == (Startup { advanced: false, stage: StartupStage::Detect }),
            startup.wf(),
    {
        Startup { advanced: false, stage: StartupStage::Detect }
    }

    /// Like [`Client::init`], with operations of the user's between the steps: one on the detected
    /// slaves and one on the configured groups.
    pub fn advanced_init(&self) -> (startup: Startup)
        ensures
            startup == (Startup { advanced: true, stage: StartupStage::Detect }),
            startup.wf(),
    {
        Startup { advanced: true, stage: StartupStage::Detect }
    }
}

/// The events of `n` actions that are done one after the other.
pub open spec fn done(n: nat) -> Seq<StartupEvent> {
    Seq::new(n, |i: int| StartupEvent::Done)
}

/// The stages that a startup goes through if nothing fails.
pub open spec fn stages(advanced: bool) -> Seq<StartupStage> {
    if advanced {
        seq![
            StartupStage::Detect,
            StartupStage::PostInit,
            StartupStage::Configure,
            StartupStage::PostConfig,
            StartupStage::Wait,
            StartupStage::Finished(Ok(())),
        ]
    } else {
        seq![
            StartupStage::Detect,
            StartupStage::Configure,
            StartupStage::Wait,
            StartupStage::Finished(Ok(())),
        ]
    }
}

/// If nothing fails, the slaves are detected, then the groups are configured, and then all slaves
/// reach SAFE-OP. The user's operations come just after the first and the second of these.
pub proof fn law_startup_runs_in_order(startup: Startup, n: nat)
    requires
        startup.stage == StartupStage::Detect,
        n < stages(startup.advanced).len(),
    ensures
        startup.after_all(done(n)) == (Startup {
            stage: stages(startup.advanced)[n as int],
            ..startup
        }),
    decreases n,
{
    if n > 0 {
        law_startup_runs_in_order(startup, (n - 1) as nat);
        assert(done(n).drop_last() =~= done((n - 1) as nat));
    }
}

/// A startup ends well only with the wait for SAFE-OP. Whatever else fails ends it with its error.
pub proof fn law_startup_ends_in_safe_op(startup: Startup, event: StartupEvent)
    requires
        startup.wf(),
        startup.accepts(event),
        !(startup.stage is Finished),
    ensures
        startup.after(event).stage == StartupStage::Finished(Ok(())) <==> event == StartupEvent::Done
            && startup.spec_action() == StartupAction::WaitForState(SlaveState::SafeOp),
        event matches StartupEvent::Failed(e) ==> startup.after(event).spec_action()
            == StartupAction::Finish(Err(e)),
{
}

/// What a startup of each kind does, one after the other.
pub open spec fn plan(advanced: bool) -> Seq<StartupAction> {
    let detect = StartupAction::DetectSlaves;
    let configure = StartupAction::ConfigureGroups {
        start_offset: PdiOffset { start_address: 0 },
    };
    let wait = StartupAction::WaitForState(SlaveState::SafeOp);
    let finish = StartupAction::Finish(Ok(()));
    if advanced {
        seq![
            detect,
            StartupAction::PostInit,
            configure,
            StartupAction::PostConfig,
            wait,
            finish,
        ]
    } else {
        seq![detect, configure, wait, finish]
    }
}

/// A startup detects the slaves, configures the groups from the start of the process data image on and
/// waits for SAFE-OP. An advanced one also runs the user's operations, after the first and after the
/// second of these.
pub proof fn law_startup_follows_its_plan(
    client: Client,
    plain: Startup,
    advanced: Startup,
    n: nat,
)
    requires
        call_ensures(Client::init, (&client,), plain),
        call_ensures(Client::advanced_init, (&client,), advanced),
    ensures
        n < plan(false).len() ==> plain.after_all(done(n)).spec_action() == plan(false)[n as int],
        n < plan(true).len() ==> advanced.after_all(done(n)).spec_action() == plan(true)[n as int],
{
    if n < plan(false).len() {
        law_startup_runs_in_order(plain, n);
    }
    if n < plan(true).len() {
        law_startup_runs_in_order(advanced, n);
    }
}

/// A failure ends a startup with its error at any point, and nothing that happens after the end of a
/// startup changes it.
pub proof fn law_failure_ends_startup(startup: &mut Startup, e: Error, action: StartupAction)
    requires
        call_ensures(Startup::handle, (startup, StartupEvent::Failed(e)), ()),
        call_ensures(Startup::action, (&*final(startup),), action),
    ensures
        old(startup).stage matches StartupStage::Finished(result) ==> action
            == StartupAction::Finish(result),
        !(old(startup).stage is Finished) ==> action == StartupAction::Finish(Err(e)),
{
}

/// A startup takes the steps of its plan: each action that is done is followed by the next one.
pub proof fn law_done_action_is_followed_by_next(
    startup: &mut Startup,
    action: StartupAction,
    next: StartupAction,
    n: int,
)
    requires
        old(startup).wf(),
        call_ensures(Startup::action, (&*old(startup),), action),
        call_ensures(Startup::handle, (startup, StartupEvent::Done), ()),
        call_ensures(Startup::action, (&*final(startup),), next),
        0 <= n < plan(old(startup).advanced).len() - 1,
        action == plan(old(startup).advanced)[n],
    ensures
        next == plan(old(startup).advanced)[n + 1],
{
}

} // verus!
