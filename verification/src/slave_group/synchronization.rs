//! Configuring the sync signals of a slave with a distributed clock.

use super::SlaveGroupRef;
use crate::error::Error;
use crate::register::RegisterAddress;
use vstd::prelude::*;

verus! {

/// What has to be done next to configure the sync signals of a slave.
#[allow(inconsistent_fields)]
#[derive(Debug, PartialEq, Eq, Copy, Clone)]
pub enum SyncAction {
    /// Write an 8 bit value to a register of the slave.
    WriteU8 {
        register: RegisterAddress,
        value: u8,
        /// What the value is for.
        context: &'static str,
    },
    /// Write a 32 bit value to a register of the slave.
    WriteU32 {
        register: RegisterAddress,
        value: u32,
        /// What the value is for.
        context: &'static str,
    },
    /// Read a 32 bit value from a register of the slave.
    ReadU32 {
        register: RegisterAddress,
        /// What the value is for.
        context: &'static str,
    },
    /// Nothing: the configuration is over.
    Finish(Result<(), Error>),
}

/// What came of an action.
#[derive(Debug, PartialEq, Eq, Copy, Clone)]
pub enum SyncEvent {
    /// A value was written.
    Written,
    /// The value that was read.
    Read(u32),
    /// The last action failed.
    Failed(Error),
}

/// How far the configuration has come.
#[derive(Debug, PartialEq, Eq, Copy, Clone)]
pub enum SyncStage {
    /// The sync signals have to be disabled.
    Disable,
    /// The local time of the slave has to be read.
    LocalTime,
    /// The time has to be written at which the sync signals start.
    StartTime {
        start_time: u32,
    },
    /// The cycle time has to be written.
    CycleTime,
    /// The sync signals have to be enabled.
    Enable,
    /// The configuration is over.
    Finished(Result<(), Error>),
}

/// A configuration of the sync signals of a slave.
#[derive(Debug, PartialEq, Eq, Copy, Clone)]
pub struct SyncSetup {
    /// The configured address of the slave.
    pub slave_addr: u16,
    /// The time in nanoseconds between two sync signals.
    pub cycle_time: u32,
    /// The time in nanoseconds before the first cycle.
    pub startup_delay: u32,
    /// How far the configuration has come.
    pub stage: SyncStage,
}

/// A time in milliseconds as the low 32 bits of its number of nanoseconds.
pub open spec fn nanos(millis: u64) -> u32 {
    ((millis * 1_000_000) % 0x1_0000_0000) as u32
}

/// A time in milliseconds as the low 32 bits of its number of nanoseconds.
fn nanos_from_millis(millis: u64) -> (time: u32)
    ensures
        time == nanos(millis),
{
    ((millis as u128) * 1_000_000 % 0x1_0000_0000) as u32
}

impl SyncSetup {
    /// The event can be handled: the start time stays in range.
    pub open spec fn accepts(self, event: SyncEvent) -> bool {
        self.stage == SyncStage::LocalTime ==> (event matches SyncEvent::Read(local_time)
            ==> local_time + self.cycle_time + self.startup_delay <= u32::MAX)
    }

    /// What has to be done at this point of the configuration.
    pub open spec fn spec_action(self) -> SyncAction {
        match self.stage {
            SyncStage::Disable => SyncAction::WriteU8 {
                register: RegisterAddress::DcSyncActive,
                value: 0,
                context: "disable sync",
            },
            SyncStage::LocalTime => SyncAction::ReadU32 {
                register: RegisterAddress::DcSystemTime,
                context: "local time",
            },
            SyncStage::StartTime { start_time } => SyncAction::WriteU32 {
                register: RegisterAddress::DcSyncStartTime,
                value: start_time,
                context: "sync start time",
            },
            SyncStage::CycleTime => SyncAction::WriteU32 {
                register: RegisterAddress::DcSync0CycleTime,
                value: self.cycle_time,
                context: "sync cycle time",
            },
            SyncStage::Enable => SyncAction::WriteU8 {
                register: RegisterAddress::DcSyncActive,
                value: 3,
                context: "enable sync0",
            },
            SyncStage::Finished(result) => SyncAction::Finish(result),
        }
    }

    /// The configuration after an event. An event that does not belong to the action that had to be
    /// done changes nothing.
    pub open spec fn after(self, event: SyncEvent) -> SyncSetup {
        let stage = match (self.stage, event) {
            (SyncStage::Finished(result), _) => SyncStage::Finished(result),
            (_, SyncEvent::Failed(e)) => SyncStage::Finished(Err(e)),
            (SyncStage::Disable, SyncEvent::Written) => SyncStage::LocalTime,
            (SyncStage::LocalTime, SyncEvent::Read(local_time)) => SyncStage::StartTime {
                start_time: (local_time + self.cycle_time + self.startup_delay) as u32,
            },
            (SyncStage::StartTime { .. }, SyncEvent::Written) => SyncStage::CycleTime,
            (SyncStage::CycleTime, SyncEvent::Written) => SyncStage::Enable,
            (SyncStage::Enable, SyncEvent::Written) => SyncStage::Finished(Ok(())),
            (stage, _) => stage,
        };
        SyncSetup { stage, ..self }
    }

    /// What has to be done next.
    pub fn action(&self) -> (action: SyncAction)
        ensures
            action == self.spec_action(),
    {
        match self.stage {
            SyncStage::Disable => SyncAction::WriteU8 {
                register: RegisterAddress::DcSyncActive,
                value: 0,
                context: "disable sync",
            },
            SyncStage::LocalTime => SyncAction::ReadU32 {
                register: RegisterAddress::DcSystemTime,
                context: "local time",
            },
            SyncStage::StartTime { start_time } => SyncAction::WriteU32 {
                register: RegisterAddress::DcSyncStartTime,
                value: start_time,
                context: "sync start time",
            },
            SyncStage::CycleTime => SyncAction::WriteU32 {
                register: RegisterAddress::DcSync0CycleTime,
                value: self.cycle_time,
                context: "sync cycle time",
            },
            // Enable cyclic operation (0th bit) and sync0 signal (1st bit)
            SyncStage::Enable => SyncAction::WriteU8 {
                register: RegisterAddress::DcSyncActive,
                value: 3,
                context: "enable sync0",
            },
            SyncStage::Finished(result) => SyncAction::Finish(result),
        }
    }

    /// Take in what came of the last action.
    pub fn handle(&mut self, event: SyncEvent)
        requires
            old(self).accepts(event),
        ensures
            *final(self) == old(self).after(event),
    {
        self.stage = match (self.stage, event) {
            (SyncStage::Finished(result), _) => SyncStage::Finished(result),
            (_, SyncEvent::Failed(e)) => SyncStage::Finished(Err(e)),
            (SyncStage::Disable, SyncEvent::Written) => SyncStage::LocalTime,
            (SyncStage::LocalTime, SyncEvent::Read(local_time)) => SyncStage::StartTime {
                start_time: local_time + self.cycle_time + self.startup_delay,
            },
            (SyncStage::StartTime { .. }, SyncEvent::Written) => SyncStage::CycleTime,
            (SyncStage::CycleTime, SyncEvent::Written) => SyncStage::Enable,
            (SyncStage::Enable, SyncEvent::Written) => SyncStage::Finished(Ok(())),
            (stage, _) => stage,
        };
    }
}

/// The configuration of the sync signals of a slave, before anything has been done. The times are in
/// ms, with 2 ms for the cycle and 100 ms for the delay if they are not given.
pub open spec fn sync_setup(addr: u16, startup_t: Option<u64>, cycle_t: Option<u64>) -> SyncSetup {
    SyncSetup {
        slave_addr: addr,
        cycle_time: nanos(
            match cycle_t {
                Some(millis) => millis,
                None => 2,
            },
        ),
        startup_delay: nanos(
            match startup_t {
                Some(millis) => millis,
                None => 100,
            },
        ),
        stage: SyncStage::Disable,
    }
}

impl SlaveGroupRef {
    /// Configure the sync signals of a slave of this group.
    ///
    /// `cycle_t` is the cycle time in ms. If it is `None`, 2 ms are used. `startup_t` is the delay
    /// before the first cycle in ms. If it is `None`, 100 ms are used.
    pub fn set_synchronization(
        &self,
        addr: u16,
        startup_t: Option<u64>,
        cycle_t: Option<u64>,
    ) -> (setup: SyncSetup)
        ensures
            setup == sync_setup(addr, startup_t, cycle_t),
    {
        SyncSetup {
            slave_addr: addr,
            cycle_time: nanos_from_millis(
                match cycle_t {
                    Some(millis) => millis,
                    None => 2,
                },
            ),
            startup_delay: nanos_from_millis(
                match startup_t {
                    Some(millis) => millis,
                    None => 100,
                },
            ),
            stage: SyncStage::Disable,
        }
    }
}

/// If nothing fails, the sync signals are disabled, then their start and cycle times are written,
/// and then they are enabled. They start one cycle and the startup delay after the local time.
pub proof fn law_sync_signals_start_after_delay(setup: SyncSetup, local_time: u32)
    requires
        setup.stage == SyncStage::Disable,
        local_time + setup.cycle_time + setup.startup_delay <= u32::MAX,
    ensures
        ({
            let disabled = setup.after(SyncEvent::Written);
            let timed = disabled.after(SyncEvent::Read(local_time));
            let started = timed.after(SyncEvent::Written);
            let cycled = started.after(SyncEvent::Written);
            let enabled = cycled.after(SyncEvent::Written);
            &&& setup.spec_action() is WriteU8
            &&& disabled.spec_action() is ReadU32
            &&& (timed.spec_action() matches SyncAction::WriteU32 { register, value, .. } && register
                == RegisterAddress::DcSyncStartTime && value == local_time + setup.cycle_time
                + setup.startup_delay)
            &&& (started.spec_action() matches SyncAction::WriteU32 { register, value, .. }
                && register == RegisterAddress::DcSync0CycleTime && value == setup.cycle_time)
            &&& cycled.spec_action() is WriteU8
            &&& enabled.spec_action() == SyncAction::Finish(Ok(()))
        }),
{
}

/// The times of a configuration are the given ones, in nanoseconds as far as they fit 32 bits. Without
/// given times the cycle takes 2 ms and the delay 100 ms.
pub proof fn law_times_are_taken_in_nanoseconds(
    group: SlaveGroupRef,
    addr: u16,
    startup_t: Option<u64>,
    cycle_t: Option<u64>,
    setup: SyncSetup,
)
    requires
        call_ensures(SlaveGroupRef::set_synchronization, (&group, addr, startup_t, cycle_t), setup),
    ensures
        setup.slave_addr == addr,
        setup.stage == SyncStage::Disable,
        cycle_t is None ==> setup.cycle_time == 2_000_000,
        startup_t is None ==> setup.startup_delay == 100_000_000,
        cycle_t matches Some(ms) ==> (ms * 1_000_000 - setup.cycle_time) % 0x1_0000_0000 == 0,
        startup_t matches Some(ms) ==> (ms * 1_000_000 - setup.startup_delay) % 0x1_0000_0000 == 0,
{
}

/// The sync signals are switched off before anything else and switched on after everything else. In
/// between the slave's clock is read, and the time at which the first signal comes and the time between
/// two signals are written.
pub proof fn law_sync_signals_are_off_while_times_are_written(
    setup: SyncSetup,
    local_time: u32,
)
    requires
        setup.stage == SyncStage::Disable,
        local_time + setup.cycle_time + setup.startup_delay <= u32::MAX,
    ensures
        ({
            let disabled = setup.after(SyncEvent::Written);
            let timed = disabled.after(SyncEvent::Read(local_time));
            let started = timed.after(SyncEvent::Written);
            let cycled = started.after(SyncEvent::Written);
            let enabled = cycled.after(SyncEvent::Written);
            &&& (setup.spec_action() matches SyncAction::WriteU8 { register, value, context }
                && register.location() == 0x981 && value == 0 && context == "disable sync")
            &&& (disabled.spec_action() matches SyncAction::ReadU32 { register, context }
                && register.location() == 0x910 && context == "local time")
            &&& (timed.spec_action() matches SyncAction::WriteU32 { register, value, context }
                && register.location() == 0x990 && value - setup.cycle_time - setup.startup_delay
                == local_time && context == "sync start time")
            &&& (started.spec_action() matches SyncAction::WriteU32 { register, value, context }
                && register.location() == 0x9a0 && value == setup.cycle_time && context
                == "sync cycle time")
            &&& (cycled.spec_action() matches SyncAction::WriteU8 { register, value, context }
                && register.location() == 0x981 && value == 3 && context == "enable sync0")
            &&& enabled.spec_action() == SyncAction::Finish(Ok(()))
        }),
{
}

/// A step of the configuration leads to the next action exactly if it was the one that had to be done,
/// keeps the slave and its times, and ends the configuration with the error if it failed.
pub proof fn law_sync_step_leads_to_next_action(
    setup: &mut SyncSetup,
    event: SyncEvent,
    before: SyncAction,
    after: SyncAction,
)
    requires
        call_ensures(SyncSetup::action, (&*old(setup),), before),
        call_ensures(SyncSetup::handle, (setup, event), ()),
        call_ensures(SyncSetup::action, (&*final(setup),), after),
    ensures
        final(setup).slave_addr == old(setup).slave_addr,
        final(setup).cycle_time == old(setup).cycle_time,
        final(setup).startup_delay == old(setup).startup_delay,
        before is Finish ==> after == before,
        event matches SyncEvent::Failed(e) ==> !(before is Finish) ==> after == SyncAction::Finish(
            Err(e),
        ),
        *final(setup) != *old(setup) ==> event is Failed || (event is Read && before is ReadU32) || (
        event is Written && (before is WriteU8 || before is WriteU32)),
        after == SyncAction::Finish(Ok(())) ==> before is Finish || (event is Written && old(
            setup).stage is Enable),
{
}

} // verus!
