//! Initializing one slave of a group: its mailboxes, and then the hook.

use super::SlaveGroupRef;
use vstd::prelude::*;

verus! {

/// What has to be done next to initialize a slave.
#[derive(Debug, PartialEq, Eq, Structural, Copy, Clone)]
pub enum SlaveConfigAction {
    /// Configure the mailboxes of the slave. It is in PRE-OP afterwards.
    ConfigureMailboxes,
    /// Run what has to be run for the slave between PRE-OP and SAFE-OP.
    RunHook,
    /// Nothing: the slave is initialized.
    Finish,
}

/// What came of an action. Neither is expected to fail.
#[derive(Debug, PartialEq, Eq, Structural, Copy, Clone)]
pub enum SlaveConfigEvent {
    /// The mailboxes are configured.
    MailboxesConfigured,
    /// The hook has run.
    HookRun,
}

/// The initialization of a slave.
#[derive(Debug, PartialEq, Eq, Structural, Copy, Clone)]
pub struct SlaveConfig {
    /// Whether there is a hook to run.
    pub hook: bool,
    /// What has to be done next.
    pub next: SlaveConfigAction,
}

impl SlaveConfig {
    /// The initialization after an event. An event that does not belong to the action that had to be
    /// done changes nothing.
    pub open spec fn after(self, event: SlaveConfigEvent) -> SlaveConfig {
        let next = match (self.next, event) {
            (SlaveConfigAction::ConfigureMailboxes, SlaveConfigEvent::MailboxesConfigured) => if self.hook {
                SlaveConfigAction::RunHook
            } else {
                SlaveConfigAction::Finish
            },
            (SlaveConfigAction::RunHook, SlaveConfigEvent::HookRun) => SlaveConfigAction::Finish,
            (next, _) => next,
        };
        SlaveConfig { next, ..self }
    }

    /// The initialization after a number of events.
    pub open spec fn after_all(self, events: Seq<SlaveConfigEvent>) -> SlaveConfig
        decreases events.len(),
    {
        if events.len() == 0 {
            self
        } else {
            self.after_all(events.drop_last()).after(events.last())
        }
    }

    /// How often the given action was done: it had to be done, and an event took the initialization
    /// on from there.
    pub open spec fn times_done(self, events: Seq<SlaveConfigEvent>, action: SlaveConfigAction) -> nat
        decreases events.len(),
    {
        if events.len() == 0 {
            0
        } else {
            let before = self.after_all(events.drop_last());
            self.times_done(events.drop_last(), action) + if before.next == action && before.after(
                events.last(),
            ) != before {
                1nat
            } else {
                0
            }
        }
    }

    /// What has to be done next.
    pub fn action(&self) -> (action: SlaveConfigAction)
        ensures
            action == self.next,
    {
        self.next
    }

    /// Take in what came of the last action.
    pub fn handle(&mut self, event: SlaveConfigEvent)
        ensures
            *final(self) == old(self).after(event),
    {
        self.next = match (self.next, event) {
            (SlaveConfigAction::ConfigureMailboxes, SlaveConfigEvent::MailboxesConfigured) => if self.hook {
                SlaveConfigAction::RunHook
            } else {
                SlaveConfigAction::Finish
            },
            (SlaveConfigAction::RunHook, SlaveConfigEvent::HookRun) => SlaveConfigAction::Finish,
            (next, _) => next,
        };
    }
}

impl SlaveGroupRef {
    /// Initialize a slave of this group: configure its mailboxes and execute the hook on it, if there
    /// is one.
    pub fn initialize_slave_config(&self) -> (config: SlaveConfig)
        ensures
            config == (SlaveConfig {
                hook: self.preop_safeop_hook,
                next: SlaveConfigAction::ConfigureMailboxes,
            }),
    {
        SlaveConfig { hook: self.preop_safeop_hook, next: SlaveConfigAction::ConfigureMailboxes }
    }
}

/// The mailboxes of a slave are configured once. The hook is run exactly if there is one: once, and
/// after the mailboxes have been configured.
pub proof fn law_hook_runs_once_after_mailboxes(config: SlaveConfig, events: Seq<SlaveConfigEvent>)
    requires
        config.next == SlaveConfigAction::ConfigureMailboxes,
    ensures
        ({
            let mailboxes = config.times_done(events, SlaveConfigAction::ConfigureMailboxes);
            let hooks = config.times_done(events, SlaveConfigAction::RunHook);
            match config.after_all(events).next {
                SlaveConfigAction::ConfigureMailboxes => mailboxes == 0 && hooks == 0,
                SlaveConfigAction::RunHook => mailboxes == 1 && hooks == 0 && config.hook,
                SlaveConfigAction::Finish => mailboxes == 1 && hooks == if config.hook {
                    1nat
                } else {
                    0
                },
            }
        }),
        config.after_all(events).hook == config.hook,
    decreases events.len(),
{
    if events.len() > 0 {
        law_hook_runs_once_after_mailboxes(config, events.drop_last());
    }
}

/// The mailboxes come first, whether there is a hook or not.
pub proof fn law_initialization_begins_with_mailboxes(
    group: SlaveGroupRef,
    config: SlaveConfig,
    action: SlaveConfigAction,
)
    requires
        call_ensures(SlaveGroupRef::initialize_slave_config, (&group,), config),
        call_ensures(SlaveConfig::action, (&config,), action),
    ensures
        action == SlaveConfigAction::ConfigureMailboxes,
        config.hook == group.preop_safeop_hook,
{
}

/// An initialization goes on exactly when the action that had to be done is done, and never goes back.
pub proof fn law_initialization_goes_on_when_action_is_done(
    config: &mut SlaveConfig,
    event: SlaveConfigEvent,
    before: SlaveConfigAction,
    after: SlaveConfigAction,
)
    requires
        call_ensures(SlaveConfig::action, (&*old(config),), before),
        call_ensures(SlaveConfig::handle, (config, event), ()),
        call_ensures(SlaveConfig::action, (&*final(config),), after),
    ensures
        after != before <==> (before == SlaveConfigAction::ConfigureMailboxes && event
            == SlaveConfigEvent::MailboxesConfigured) || (before == SlaveConfigAction::RunHook
            && event == SlaveConfigEvent::HookRun),
        after == SlaveConfigAction::RunHook ==> old(config).hook || before
            == SlaveConfigAction::RunHook,
        after == SlaveConfigAction::ConfigureMailboxes ==> before
            == SlaveConfigAction::ConfigureMailboxes,
        before == SlaveConfigAction::ConfigureMailboxes && after == SlaveConfigAction::Finish ==> !old(
            config).hook,
        final(config).hook == old(config).hook,
{
}

} // verus!
