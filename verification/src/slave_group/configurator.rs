//! Laying out the process data of a group while its slaves are configured from their EEPROMs.

use super::offset_helper::OffsetHelper;
use super::synchronization::{sync_setup, SyncAction, SyncEvent, SyncSetup, SyncStage};
use super::SlaveGroupRef;
use crate::error::Error;
use crate::pdi::{PdiOffset, PdoDirection};
use crate::slave::Slave;
use vstd::prelude::*;

verus! {

/// What has to be done next to configure a group.
#[derive(Debug, PartialEq, Eq, Copy, Clone)]
pub enum GroupAction {
    /// Initialize all slaves at the same time, each of them as
    /// [`SlaveGroupRef::initialize_slave_config`] says.
    InitializeSlaves,
    /// Configure the mailboxes of one slave. It is in PRE-OP afterwards.
    ConfigureMailboxes {
        slave: usize,
    },
    /// Run what has to be run for one slave between PRE-OP and SAFE-OP.
    RunHook {
        slave: usize,
    },
    /// Map one direction of a slave's process data.
    ConfigureFmmus {
        slave: usize,
        /// The place of the slave's process data.
        offset: PdiOffset,
        /// The address at which the PDI of the group begins.
        start_address: u32,
        /// The direction of the process data.
        direction: PdoDirection,
    },
    /// Do one step of the configuration of a slave's sync signals.
    Synchronize {
        slave: usize,
        /// The configured address of the slave.
        slave_addr: u16,
        /// The step.
        action: SyncAction,
    },
    /// Request that a slave goes to SAFE-OP, without waiting for it.
    RequestSafeOp {
        slave: usize,
    },
    /// Nothing: the configuration is over. The offset is the end of the group's PDI.
    Finish(Result<PdiOffset, Error>),
}

/// What came of an action.
#[derive(Debug, PartialEq, Eq, Copy, Clone)]
pub enum GroupEvent {
    /// All slaves are initialized.
    SlavesInitialized,
    /// The mailboxes of one slave are configured.
    MailboxesConfigured,
    /// The hook has run.
    HookRun,
    /// Process data is mapped. Holds the place after it.
    FmmusConfigured(PdiOffset),
    /// What came of one step of the configuration of a slave's sync signals.
    Sync(SyncEvent),
    /// A slave has been told to go to SAFE-OP.
    SafeOpRequested {
        /// What the slave adds to the working counter of a read/write to the whole group.
        working_counter_sum: u16,
    },
    /// The last action failed.
    Failed(Error),
}

/// How far the configuration has come.
#[derive(Debug, PartialEq, Eq, Copy, Clone)]
pub enum GroupStage {
    /// All slaves have to be initialized.
    Initialize,
    /// The mailboxes of this slave have to be configured.
    Mailboxes {
        slave: usize,
    },
    /// The hook has to be run for this slave.
    Hook {
        slave: usize,
    },
    /// The inputs of this slave have to be mapped.
    Inputs {
        slave: usize,
    },
    /// The outputs of this slave have to be mapped.
    Outputs {
        slave: usize,
    },
    /// The sync signals of this slave have to be configured.
    Sync {
        slave: usize,
        /// How far that has come.
        setup: SyncSetup,
    },
    /// This slave has to be told to go to SAFE-OP.
    SafeOp {
        slave: usize,
    },
    /// The configuration is over.
    Finished(Result<PdiOffset, Error>),
}

/// The state of a group and its configuration.
#[verifier::ext_equal]
pub struct GroupModel {
    /// The slaves in the group.
    pub slaves: Seq<Slave>,
    /// The most bytes of process data that the group can hold.
    pub max_pdi_len: usize,
    /// Whether something has to be run for each slave between PRE-OP and SAFE-OP.
    pub hook: bool,
    /// The number of bytes reserved for inputs.
    pub read_pdi_len: usize,
    /// The total number of bytes.
    pub pdi_len: usize,
    /// The address at which the PDI begins.
    pub start_address: u32,
    /// The expected working counter.
    pub working_counter: u16,
    /// Whether all slaves are initialized at the same time, and their sync signals are configured.
    /// Otherwise the slaves are initialized one after the other.
    pub joined: bool,
    /// The place of the process data that is mapped next.
    pub offset: PdiOffset,
    /// How far the configuration has come.
    pub stage: GroupStage,
}

impl GroupModel {
    /// The length of the process data that has been mapped so far.
    pub open spec fn mapped(self) -> int {
        self.offset.start_address - self.start_address
    }

    /// The configuration has come this far.
    pub open spec fn at(self, stage: GroupStage) -> GroupModel {
        GroupModel { stage, ..self }
    }

    /// The configuration goes on with the outputs of the given slave. Without such a slave the
    /// PDI is complete: it is accepted if it is not too long.
    pub open spec fn at_outputs(self, slave: int) -> GroupModel {
        if slave < self.slaves.len() {
            self.at(GroupStage::Outputs { slave: slave as usize })
        } else if self.mapped() > self.max_pdi_len {
            self.at(
                GroupStage::Finished(
                    Err(
                        Error::PdiTooLong {
                            max_length: self.max_pdi_len,
                            desired_length: self.mapped() as usize,
                        },
                    ),
                ),
            )
        } else {
            GroupModel {
                pdi_len: self.mapped() as usize,
                stage: GroupStage::Finished(Ok(self.offset)),
                ..self
            }
        }
    }

    /// The configuration goes on with the inputs of the given slave, or with the outputs of all
    /// slaves once all inputs are mapped.
    pub open spec fn at_inputs(self, slave: int) -> GroupModel {
        if slave < self.slaves.len() {
            self.at(
                if self.joined {
                    GroupStage::Inputs { slave: slave as usize }
                } else {
                    GroupStage::Mailboxes { slave: slave as usize }
                },
            )
        } else {
            (GroupModel { read_pdi_len: self.mapped() as usize, ..self }).at_outputs(0)
        }
    }

    /// The configuration of the sync signals of a slave, with default times, at the given point.
    pub open spec fn sync_at(self, slave: int, stage: SyncStage) -> SyncSetup {
        SyncSetup { stage, ..sync_setup(self.slaves[slave].configured_address, None, None) }
    }

    /// The configuration goes on with the sync signals of a slave, or with its SAFE-OP request once
    /// they are configured. It ends if that failed.
    pub open spec fn at_sync(self, slave: usize, setup: SyncSetup) -> GroupModel {
        self.at(
            match setup.stage {
                SyncStage::Finished(Ok(_)) => GroupStage::SafeOp { slave },
                SyncStage::Finished(Err(e)) => GroupStage::Finished(Err(e)),
                _ => GroupStage::Sync { slave, setup },
            },
        )
    }

    /// The configuration after an event. An event that does not belong to the action that had to
    /// be done changes nothing.
    pub open spec fn after(self, event: GroupEvent) -> GroupModel {
        match (self.stage, event) {
            (GroupStage::Finished(_), _) => self,
            (_, GroupEvent::Failed(e)) => self.at(GroupStage::Finished(Err(e))),
            (GroupStage::Initialize, GroupEvent::SlavesInitialized) => self.at_inputs(0),
            (GroupStage::Mailboxes { slave }, GroupEvent::MailboxesConfigured) => self.at(
                if self.hook {
                    GroupStage::Hook { slave }
                } else {
                    GroupStage::Inputs { slave }
                },
            ),
            (GroupStage::Hook { slave }, GroupEvent::HookRun) => self.at(
                GroupStage::Inputs { slave },
            ),
            (GroupStage::Inputs { slave }, GroupEvent::FmmusConfigured(offset)) => (GroupModel {
                offset,
                ..self
            }).at_inputs(slave + 1),
            (GroupStage::Outputs { slave }, GroupEvent::FmmusConfigured(offset)) => GroupModel {
                offset,
                stage: if self.joined {
                    GroupStage::Sync {
                        slave,
                        setup: self.sync_at(slave as int, SyncStage::Disable),
                    }
                } else {
                    GroupStage::SafeOp { slave }
                },
                ..self
            },
            (GroupStage::Sync { slave, setup }, GroupEvent::Sync(e)) => self.at_sync(
                slave,
                setup.after(e),
            ),
            (GroupStage::SafeOp { slave }, GroupEvent::SafeOpRequested { working_counter_sum }) =>
                (GroupModel {
                    working_counter: (self.working_counter + working_counter_sum) as u16,
                    ..self
                }).at_outputs(slave + 1),
            _ => self,
        }
    }

    /// The configuration after a number of events.
    pub open spec fn after_all(self, events: Seq<GroupEvent>) -> GroupModel
        decreases events.len(),
    {
        if events.len() == 0 {
            self
        } else {
            self.after_all(events.drop_last()).after(events.last())
        }
    }

    /// What has to be done at this point of the configuration.
    pub open spec fn spec_action(self) -> GroupAction {
        match self.stage {
            GroupStage::Initialize => GroupAction::InitializeSlaves,
            GroupStage::Mailboxes { slave } => GroupAction::ConfigureMailboxes { slave },
            GroupStage::Hook { slave } => GroupAction::RunHook { slave },
            GroupStage::Inputs { slave } => GroupAction::ConfigureFmmus {
                slave,
                offset: self.offset,
                start_address: self.start_address,
                direction: PdoDirection::MasterRead,
            },
            GroupStage::Outputs { slave } => GroupAction::ConfigureFmmus {
                slave,
                offset: self.offset,
                start_address: self.start_address,
                direction: PdoDirection::MasterWrite,
            },
            GroupStage::Sync { slave, setup } => GroupAction::Synchronize {
                slave,
                slave_addr: setup.slave_addr,
                action: setup.spec_action(),
            },
            GroupStage::SafeOp { slave } => GroupAction::RequestSafeOp { slave },
            GroupStage::Finished(result) => GroupAction::Finish(result),
        }
    }

    /// The slave of each stage is in the group, its sync signals are configured with default times,
    /// and what has been mapped so far has a length where that length is recorded.
    pub open spec fn wf(self) -> bool {
        match self.stage {
            GroupStage::Initialize => self.joined && self.mapped() == 0,
            GroupStage::Mailboxes { slave } => !self.joined && slave < self.slaves.len(),
            GroupStage::Hook { slave } => !self.joined && slave < self.slaves.len(),
            GroupStage::Inputs { slave } => slave < self.slaves.len(),
            GroupStage::Outputs { slave } => slave < self.slaves.len(),
            GroupStage::Sync { slave, setup } => self.joined && slave < self.slaves.len() && (slave
                + 1 == self.slaves.len() ==> 0 <= self.mapped()) && !(setup.stage is Finished)
                && setup == self.sync_at(slave as int, setup.stage),
            GroupStage::SafeOp { slave } => slave < self.slaves.len() && (slave + 1
                == self.slaves.len() ==> 0 <= self.mapped()),
            GroupStage::Finished(result) => result matches Ok(offset) ==> offset == self.offset
                && self.pdi_len == self.mapped() <= self.max_pdi_len,
        }
    }

    /// The event can be handled.
    ///
    /// Initializing slaves at the same time is not expected to fail. The offset after
    /// the last inputs, and the one after the last outputs, are not before the start of the PDI.
    /// The start time of sync signals and the working counter stay in range.
    pub open spec fn accepts(self, event: GroupEvent) -> bool {
        match (self.stage, event) {
            (GroupStage::Initialize, GroupEvent::Failed(_)) => false,
            (GroupStage::Inputs { slave }, GroupEvent::FmmusConfigured(offset)) => slave + 1
                == self.slaves.len() ==> self.start_address <= offset.start_address,
            (GroupStage::Outputs { slave }, GroupEvent::FmmusConfigured(offset)) => slave + 1
                == self.slaves.len() ==> self.start_address <= offset.start_address,
            (GroupStage::Sync { setup, .. }, GroupEvent::Sync(e)) => setup.accepts(e),
            (GroupStage::SafeOp { .. }, GroupEvent::SafeOpRequested { working_counter_sum }) =>
                self.working_counter + working_counter_sum <= u16::MAX,
            _ => true,
        }
    }
}

/// A configuration of a group that is under way.
#[derive(Debug, PartialEq, Eq, Copy, Clone)]
pub struct GroupConfiguration {
    joined: bool,
    offsets: OffsetHelper,
    stage: GroupStage,
}

impl GroupConfiguration {
    /// The state of the configuration together with that of the group.
    pub closed spec fn model(self, group: SlaveGroupRef) -> GroupModel {
        GroupModel {
            slaves: group.inner.slaves@,
            max_pdi_len: group.max_pdi_len,
            hook: group.preop_safeop_hook,
            read_pdi_len: group.inner.read_pdi_len,
            pdi_len: group.inner.pdi_len,
            start_address: group.inner.start_address,
            working_counter: group.inner.group_working_counter,
            joined: self.joined,
            offset: self.offsets@.offset,
            stage: self.stage,
        }
    }

    /// The state of the group is that of the group as callers see it.
    pub proof fn lemma_model_is_of_group(self, group: SlaveGroupRef)
        ensures
            self.model(group).slaves == group@.slaves,
            self.model(group).max_pdi_len == group@.max_pdi_len,
            self.model(group).hook == group@.preop_safeop_hook,
            self.model(group).read_pdi_len == group@.read_pdi_len,
            self.model(group).pdi_len == group@.pdi_len,
            self.model(group).start_address == group@.start_address,
            self.model(group).working_counter == group@.group_working_counter,
    {
    }

    /// The configuration is a well-formed one of the given group.
    pub closed spec fn wf(self, group: SlaveGroupRef) -> bool {
        &&& self.model(group).wf()
        &&& self.offsets@.start_address == group.inner.start_address
        &&& match self.stage {
            GroupStage::Finished(_) => true,
            GroupStage::Outputs { .. } | GroupStage::Sync { .. } | GroupStage::SafeOp { .. } =>
                self.offsets@.direction == PdoDirection::MasterWrite,
            _ => self.offsets@.direction == PdoDirection::MasterRead,
        }
        &&& self.joined ==> group.inner.slaves@.len() <= u32::MAX
        &&& self.joined ==> match self.stage {
            GroupStage::Initialize => self.offsets@.count == 0,
            GroupStage::Inputs { slave } | GroupStage::Outputs { slave } => self.offsets@.count
                == slave,
            GroupStage::Sync { slave, .. } | GroupStage::SafeOp { slave } => self.offsets@.count
                == slave + 1,
            _ => true,
        }
    }

    /// What has to be done next.
    pub fn action(&self, group: &SlaveGroupRef) -> (action: GroupAction)
        requires
            self.wf(*group),
        ensures
            action == self.model(*group).spec_action(),
    {
        match self.stage {
            GroupStage::Initialize => GroupAction::InitializeSlaves,
            GroupStage::Mailboxes { slave } => GroupAction::ConfigureMailboxes { slave },
            GroupStage::Hook { slave } => GroupAction::RunHook { slave },
            GroupStage::Inputs { slave } | GroupStage::Outputs { slave } => {
                let (offset, start_address, direction) = self.offsets.request();

                GroupAction::ConfigureFmmus { slave, offset, start_address, direction }
            },
            GroupStage::Sync { slave, setup } => GroupAction::Synchronize {
                slave,
                slave_addr: setup.slave_addr,
                action: setup.action(),
            },
            GroupStage::SafeOp { slave } => GroupAction::RequestSafeOp { slave },
            GroupStage::Finished(result) => GroupAction::Finish(result),
        }
    }

    /// Take in the offset after one slave's process data.
    fn advance(&mut self, offset: PdiOffset)
        requires
            old(self).joined ==> old(self).offsets@.count < u32::MAX,
        ensures
            final(self).joined == old(self).joined,
            final(self).stage == old(self).stage,
            final(self).offsets@.next_request() == (
                offset,
                old(self).offsets@.start_address,
                old(self).offsets@.direction,
            ),
            old(self).joined ==> final(self).offsets@.count == old(self).offsets@.count + 1,
    {
        if self.joined {
            let _ = self.offsets.configure_fmmus(Ok(offset));
        } else {
            let (_, start_address, direction) = self.offsets.request();

            self.offsets = OffsetHelper::resume(offset, start_address, direction);
        }
    }

    /// Go on with the outputs of a slave, or finish.
    fn go_to_outputs(&mut self, group: &mut SlaveGroupRef, slave: usize)
        requires
            slave <= old(group).inner.slaves@.len(),
            slave == old(group).inner.slaves@.len() ==> 0 <= old(self).model(*old(group)).mapped(),
            old(self).offsets@.start_address == old(group).inner.start_address,
            old(self).offsets@.direction == PdoDirection::MasterWrite,
            old(self).joined ==> old(group).inner.slaves@.len() <= u32::MAX
                && old(self).offsets@.count == slave,
        ensures
            final(self).wf(*final(group)),
            final(self).model(*final(group)) == old(self).model(*old(group)).at_outputs(
                slave as int,
            ),
            final(group).id == old(group).id,
            final(group).max_slaves == old(group).max_slaves,
    {
        if slave < group.inner.slaves.len() {
            // Still in PRE-OP
            self.stage = GroupStage::Outputs { slave };
        } else {
            let pdi_len: usize = self.offsets.finish();

            if pdi_len > group.max_pdi_len {
                self.stage = GroupStage::Finished(
                    Err(
                        Error::PdiTooLong {
                            max_length: group.max_pdi_len,
                            desired_length: pdi_len,
                        },
                    ),
                );
            } else {
                let (end, _, _) = self.offsets.request();

                group.inner.pdi_len = pdi_len;
                self.stage = GroupStage::Finished(Ok(end));
            }
        }
    }

    /// Go on with the inputs of a slave, or with the outputs of all slaves.
    fn go_to_inputs(&mut self, group: &mut SlaveGroupRef, slave: usize)
        requires
            slave <= old(group).inner.slaves@.len(),
            slave == old(group).inner.slaves@.len() ==> 0 <= old(self).model(*old(group)).mapped(),
            old(self).offsets@.start_address == old(group).inner.start_address,
            old(self).offsets@.direction == PdoDirection::MasterRead,
            old(self).joined ==> old(group).inner.slaves@.len() <= u32::MAX
                && old(self).offsets@.count == slave,
        ensures
            final(self).wf(*final(group)),
            final(self).model(*final(group)) == old(self).model(*old(group)).at_inputs(
                slave as int,
            ),
            final(group).id == old(group).id,
            final(group).max_slaves == old(group).max_slaves,
    {
        if slave < group.inner.slaves.len() {
            self.stage = if self.joined {
                GroupStage::Inputs { slave }
            } else {
                GroupStage::Mailboxes { slave }
            };
        } else {
            let (offset, start_address, _) = self.offsets.request();

            group.inner.read_pdi_len = self.offsets.finish();
            // All inputs are mapped as a contiguous block at this point. The outputs are mapped
            // after it. This means we have IIIIOOOO instead of IOIOIO.
            self.offsets = OffsetHelper::resume(offset, start_address, PdoDirection::MasterWrite);
            self.go_to_outputs(group, 0);
        }
    }

    /// Take in what came of the last action.
    pub fn handle(&mut self, group: &mut SlaveGroupRef, event: GroupEvent)
        requires
            old(self).wf(*old(group)),
            old(self).model(*old(group)).accepts(event),
        ensures
            final(self).wf(*final(group)),
            final(self).model(*final(group)) == old(self).model(*old(group)).after(event),
            final(group).id == old(group).id,
            final(group).max_slaves == old(group).max_slaves,
    {
        match (self.stage, event) {
            (GroupStage::Finished(_), _) => {},
            (_, GroupEvent::Failed(e)) => {
                self.stage = GroupStage::Finished(Err(e));
            },
            (GroupStage::Initialize, GroupEvent::SlavesInitialized) => {
                self.go_to_inputs(group, 0);
            },
            (GroupStage::Mailboxes { slave }, GroupEvent::MailboxesConfigured) => {
                self.stage = if group.preop_safeop_hook {
                    GroupStage::Hook { slave }
                } else {
                    GroupStage::Inputs { slave }
                };
            },
            (GroupStage::Hook { slave }, GroupEvent::HookRun) => {
                self.stage = GroupStage::Inputs { slave };
            },
            (GroupStage::Inputs { slave }, GroupEvent::FmmusConfigured(offset)) => {
                assert(slave < group.inner.slaves.len());
                self.advance(offset);
                self.go_to_inputs(group, slave + 1);
            },
            (GroupStage::Outputs { slave }, GroupEvent::FmmusConfigured(offset)) => {
                self.advance(offset);
                self.stage = if self.joined {
                    let addr: u16 = group.inner.slaves[slave].configured_address;

                    GroupStage::Sync { slave, setup: group.set_synchronization(addr, None, None) }
                } else {
                    GroupStage::SafeOp { slave }
                };
            },
            (GroupStage::Sync { slave, setup }, GroupEvent::Sync(e)) => {
                let mut next = setup;

                next.handle(e);
                self.stage = match next.stage {
                    // We're done configuring FMMUs, etc, now we can request this slave go into SAFE-OP
                    SyncStage::Finished(Ok(_)) => GroupStage::SafeOp { slave },
                    SyncStage::Finished(Err(e)) => GroupStage::Finished(Err(e)),
                    _ => GroupStage::Sync { slave, setup: next },
                };
            },
            (GroupStage::SafeOp { slave }, GroupEvent::SafeOpRequested { working_counter_sum }) => {
                assert(slave < group.inner.slaves.len());
                // We have both inputs and outputs at this stage, so can correctly calculate the
                // group WKC.
                group.inner.group_working_counter = group.inner.group_working_counter
                    + working_counter_sum;
                self.go_to_outputs(group, slave + 1);
            },
            _ => {},
        }
    }
}

impl SlaveGroupRef {
    /// Configure the slaves of this group from their EEPROMs, one after the other, and lay out the
    /// group's PDI from the given offset on.
    ///
    /// We need to start this group's PDI after that of the previous group. That offset is passed in
    /// via `global_offset`. [`SlaveGroupRef::initialize_from_eeprom`] lays the PDI out in the same way,
    /// takes less time and configures sync signals too.
    pub fn configure_from_eeprom(&mut self, global_offset: PdiOffset) -> (configuration:
        GroupConfiguration)
        ensures
            configuration.wf(*final(self)),
            configuration.model(*final(self)) == (GroupModel {
                slaves: old(self).inner.slaves@,
                max_pdi_len: old(self).max_pdi_len,
                hook: old(self).preop_safeop_hook,
                read_pdi_len: old(self).inner.read_pdi_len,
                pdi_len: old(self).inner.pdi_len,
                start_address: global_offset.start_address,
                working_counter: old(self).inner.group_working_counter,
                joined: false,
                offset: global_offset,
                stage: GroupStage::Initialize,
            }).at_inputs(0),
            final(self).id == old(self).id,
            final(self).max_slaves == old(self).max_slaves,
    {
        // Set the starting position in the PDI for this group's segment
        self.inner.start_address = global_offset.start_address;
        let mut configuration = GroupConfiguration {
            joined: false,
            offsets: OffsetHelper::new(global_offset, PdoDirection::MasterRead),
            stage: GroupStage::Initialize,
        };
        configuration.go_to_inputs(self, 0);

        configuration
    }

    /// Configure the slaves of this group from their EEPROMs, and lay out the group's PDI from the
    /// given offset on.
    ///
    /// All slaves are initialized at the same time. Then their inputs are mapped. Then the outputs of
    /// each slave are mapped, its sync signals are configured with default times, and it is told to go
    /// to SAFE-OP.
    pub fn initialize_from_eeprom(&mut self, global_offset: PdiOffset) -> (configuration:
        GroupConfiguration)
        requires
            old(self).inner.slaves@.len() <= u32::MAX,
        ensures
            configuration.wf(*final(self)),
            configuration.model(*final(self)) == (GroupModel {
                slaves: old(self).inner.slaves@,
                max_pdi_len: old(self).max_pdi_len,
                hook: old(self).preop_safeop_hook,
                read_pdi_len: old(self).inner.read_pdi_len,
                pdi_len: old(self).inner.pdi_len,
                start_address: global_offset.start_address,
                working_counter: old(self).inner.group_working_counter,
                joined: true,
                offset: global_offset,
                stage: GroupStage::Initialize,
            }),
            final(self).id == old(self).id,
            final(self).max_slaves == old(self).max_slaves,
    {
        // Set the starting position in the PDI for this group's segment
        self.inner.start_address = global_offset.start_address;

        GroupConfiguration {
            joined: true,
            offsets: OffsetHelper::new(global_offset, PdoDirection::MasterRead),
            stage: GroupStage::Initialize,
        }
    }
}

/// The sum of a number of lengths.
pub open spec fn total(lens: Seq<nat>) -> nat
    decreases lens.len(),
{
    if lens.len() == 0 {
        0
    } else {
        total(lens.drop_last()) + lens.last()
    }
}

/// The place that lies a number of bytes after an address.
pub open spec fn place(address: u32, bytes: nat) -> PdiOffset {
    PdiOffset { start_address: (address + bytes) as u32 }
}

impl GroupModel {
    /// The events of slaves whose inputs are mapped one after the other. The inputs of the slave at
    /// position `i` take `inputs[i]` bytes.
    pub open spec fn input_events(self, inputs: Seq<nat>) -> Seq<GroupEvent>
        decreases inputs.len(),
    {
        if inputs.len() == 0 {
            Seq::empty()
        } else {
            let before = self.input_events(inputs.drop_last());
            let mapped = GroupEvent::FmmusConfigured(place(self.start_address, total(inputs)));
            if self.joined {
                before.push(mapped)
            } else if self.hook {
                before.push(GroupEvent::MailboxesConfigured).push(GroupEvent::HookRun).push(mapped)
            } else {
                before.push(GroupEvent::MailboxesConfigured).push(mapped)
            }
        }
    }

    /// The events of a slave whose sync signals are configured while its clock shows the given time.
    pub open spec fn sync_events(self, local_time: u32) -> Seq<GroupEvent> {
        if self.joined {
            seq![
                GroupEvent::Sync(SyncEvent::Written),
                GroupEvent::Sync(SyncEvent::Read(local_time)),
                GroupEvent::Sync(SyncEvent::Written),
                GroupEvent::Sync(SyncEvent::Written),
                GroupEvent::Sync(SyncEvent::Written),
            ]
        } else {
            Seq::empty()
        }
    }

    /// The events of slaves whose outputs are mapped after `inputs` bytes of inputs, whose sync
    /// signals are configured where that has to be done, and which are then told to go to SAFE-OP. The
    /// outputs of the slave at position `i` take `outputs[i]` bytes, its clock shows `times[i]`, and it
    /// adds `sums[i]` to the working counter.
    pub open spec fn output_events(
        self,
        inputs: nat,
        outputs: Seq<nat>,
        times: Seq<u32>,
        sums: Seq<nat>,
    ) -> Seq<GroupEvent>
        decreases outputs.len(),
    {
        if outputs.len() == 0 {
            Seq::empty()
        } else {
            self.output_events(
                inputs,
                outputs.drop_last(),
                times.drop_last(),
                sums.drop_last(),
            ).push(
                GroupEvent::FmmusConfigured(place(self.start_address, inputs + total(outputs))),
            ) + self.sync_events(times.last()).push(
                GroupEvent::SafeOpRequested { working_counter_sum: sums.last() as u16 },
            )
        }
    }

    /// The configuration after the inputs and the outputs of all slaves have been mapped.
    pub open spec fn mapped_all(
        self,
        inputs: Seq<nat>,
        outputs: Seq<nat>,
        times: Seq<u32>,
        sums: Seq<nat>,
    ) -> GroupModel {
        self.at_inputs(0).after_all(self.input_events(inputs)).after_all(
            self.output_events(total(inputs), outputs, times, sums),
        )
    }

    /// The clock of every slave shows a time from which the start of its sync signals is in range.
    pub open spec fn in_time(times: Seq<u32>) -> bool {
        forall|i: int| 0 <= i < times.len() ==> #[trigger] times[i] + 102_000_000 <= u32::MAX
    }

    proof fn lemma_after_all_of_sum(self, first: Seq<GroupEvent>, second: Seq<GroupEvent>)
        ensures
            self.after_all(first + second) == self.after_all(first).after_all(second),
        decreases second.len(),
    {
        if second.len() == 0 {
            assert(first + second =~= first);
        } else {
            self.lemma_after_all_of_sum(first, second.drop_last());
            assert((first + second).drop_last() =~= first + second.drop_last());
        }
    }

    proof fn lemma_inputs(self, inputs: Seq<nat>)
        requires
            self.mapped() == 0,
            inputs.len() <= self.slaves.len() <= usize::MAX,
            self.start_address + total(inputs) <= u32::MAX,
        ensures
            self.at_inputs(0).after_all(self.input_events(inputs)) == (GroupModel {
                offset: place(self.start_address, total(inputs)),
                ..self
            }).at_inputs(inputs.len() as int),
        decreases inputs.len(),
    {
        if inputs.len() == 0 {
            assert(place(self.start_address, 0) == self.offset);
        } else {
            self.lemma_inputs(inputs.drop_last());
            let before = self.input_events(inputs.drop_last());
            let configured = before.push(GroupEvent::MailboxesConfigured);
            let hooked = configured.push(GroupEvent::HookRun);
            let all = self.input_events(inputs);
            assert(configured.drop_last() =~= before);
            assert(hooked.drop_last() =~= configured);
            if self.joined {
                assert(all.drop_last() =~= before);
            } else if self.hook {
                assert(all.drop_last() =~= hooked);
                assert(self.at_inputs(0).after_all(hooked) == self.at_inputs(0).after_all(
                    configured,
                ).after(GroupEvent::HookRun));
            } else {
                assert(all.drop_last() =~= configured);
            }
            assert(self.at_inputs(0).after_all(configured) == self.at_inputs(0).after_all(
                before,
            ).after(GroupEvent::MailboxesConfigured));
        }
    }

    proof fn lemma_outputs(self, inputs: nat, outputs: Seq<nat>, times: Seq<u32>, sums: Seq<nat>)
        requires
            self.mapped() == inputs,
            outputs.len() <= self.slaves.len() <= usize::MAX,
            times.len() == outputs.len(),
            sums.len() == outputs.len(),
            self.start_address + inputs + total(outputs) <= u32::MAX,
            self.working_counter + total(sums) <= u16::MAX,
            GroupModel::in_time(times),
        ensures
            self.at_outputs(0).after_all(self.output_events(inputs, outputs, times, sums)) == (
            GroupModel {
                offset: place(self.start_address, inputs + total(outputs)),
                working_counter: (self.working_counter + total(sums)) as u16,
                ..self
            }).at_outputs(outputs.len() as int),
        decreases outputs.len(),
    {
        if outputs.len() == 0 {
            assert(place(self.start_address, inputs) == self.offset);
        } else {
            let n = outputs.len() - 1;
            assert(GroupModel::in_time(times.drop_last()));
            self.lemma_outputs(inputs, outputs.drop_last(), times.drop_last(), sums.drop_last());
            let before = self.output_events(
                inputs,
                outputs.drop_last(),
                times.drop_last(),
                sums.drop_last(),
            );
            let mapped = before.push(
                GroupEvent::FmmusConfigured(place(self.start_address, inputs + total(outputs))),
            );
            let synced = self.sync_events(times.last());
            let requested = synced.push(
                GroupEvent::SafeOpRequested { working_counter_sum: sums.last() as u16 },
            );
            assert(mapped.drop_last() =~= before);
            assert(requested.drop_last() =~= synced);
            self.at_outputs(0).lemma_after_all_of_sum(mapped, requested);
            let at_sync = self.at_outputs(0).after_all(mapped);
            assert(at_sync == self.at_outputs(0).after_all(before).after(mapped.last()));
            at_sync.lemma_sync(times.last(), n as usize);
            assert(at_sync.after_all(requested) == at_sync.after_all(synced).after(requested.last()));
        }
    }

    proof fn lemma_sync(self, local_time: u32, slave: usize)
        requires
            local_time + 102_000_000 <= u32::MAX,
            self.joined ==> self.stage == (GroupStage::Sync {
                slave,
                setup: self.sync_at(slave as int, SyncStage::Disable),
            }),
            !self.joined ==> self.stage == (GroupStage::SafeOp { slave }),
        ensures
            self.after_all(self.sync_events(local_time)) == self.at(GroupStage::SafeOp { slave }),
    {
        let events = self.sync_events(local_time);
        if self.joined {
            reveal_with_fuel(GroupModel::after_all, 6);
            let e4 = events.drop_last();
            let e3 = e4.drop_last();
            let e2 = e3.drop_last();
            let e1 = e2.drop_last();
            assert(e1.drop_last() =~= Seq::<GroupEvent>::empty());
        }
    }

    /// A group's PDI begins at the offset that was handed in. It holds the inputs of all slaves, and
    /// after them the outputs of all slaves, without gaps. It is accepted exactly if all of that
    /// fits. The offset after it is handed out. The working counter grows by what each slave adds.
    pub proof fn law_pdi_holds_inputs_and_then_outputs(
        self,
        inputs: Seq<nat>,
        outputs: Seq<nat>,
        times: Seq<u32>,
        sums: Seq<nat>,
    )
        requires
            self.mapped() == 0,
            self.slaves.len() <= usize::MAX,
            inputs.len() == self.slaves.len(),
            outputs.len() == self.slaves.len(),
            times.len() == self.slaves.len(),
            sums.len() == self.slaves.len(),
            self.start_address + total(inputs) + total(outputs) <= u32::MAX,
            self.working_counter + total(sums) <= u16::MAX,
            GroupModel::in_time(times),
        ensures
            ({
                let done = self.mapped_all(inputs, outputs, times, sums);
                let len = total(inputs) + total(outputs);
                &&& done.slaves == self.slaves
                &&& done.start_address == self.start_address
                &&& done.read_pdi_len == total(inputs)
                &&& done.working_counter == self.working_counter + total(sums)
                &&& if len <= self.max_pdi_len {
                    &&& done.pdi_len == len
                    &&& done.stage == GroupStage::Finished(Ok(place(self.start_address, len)))
                } else {
                    &&& done.pdi_len == self.pdi_len
                    &&& done.stage == GroupStage::Finished(
                        Err(
                            Error::PdiTooLong {
                                max_length: self.max_pdi_len,
                                desired_length: len as usize,
                            },
                        ),
                    )
                }
            }),
    {
        self.lemma_inputs(inputs);
        let read = GroupModel {
            offset: place(self.start_address, total(inputs)),
            read_pdi_len: total(inputs) as usize,
            ..self
        };
        assert(self.at_inputs(0).after_all(self.input_events(inputs)) == read.at_outputs(0));
        read.lemma_outputs(total(inputs), outputs, times, sums);
        self.lemma_output_events(read, total(inputs), outputs, times, sums);
    }

    proof fn lemma_output_events(
        self,
        other: GroupModel,
        inputs: nat,
        outputs: Seq<nat>,
        times: Seq<u32>,
        sums: Seq<nat>,
    )
        requires
            self.start_address == other.start_address,
            self.joined == other.joined,
        ensures
            self.output_events(inputs, outputs, times, sums) == other.output_events(
                inputs,
                outputs,
                times,
                sums,
            ),
        decreases outputs.len(),
    {
        if outputs.len() > 0 {
            self.lemma_output_events(
                other,
                inputs,
                outputs.drop_last(),
                times.drop_last(),
                sums.drop_last(),
            );
        }
    }

    /// Configuring the slaves of a group one after the other and initializing them at the same time
    /// lead to the same PDI, the same working counter and the same result.
    pub proof fn law_both_ways_lay_out_the_same_pdi(
        self,
        inputs: Seq<nat>,
        outputs: Seq<nat>,
        times: Seq<u32>,
        sums: Seq<nat>,
    )
        requires
            self.mapped() == 0,
            self.slaves.len() <= usize::MAX,
            inputs.len() == self.slaves.len(),
            outputs.len() == self.slaves.len(),
            times.len() == self.slaves.len(),
            sums.len() == self.slaves.len(),
            self.start_address + total(inputs) + total(outputs) <= u32::MAX,
            self.working_counter + total(sums) <= u16::MAX,
            GroupModel::in_time(times),
        ensures
            ({
                let one_by_one = (GroupModel { joined: false, ..self }).mapped_all(
                    inputs,
                    outputs,
                    times,
                    sums,
                );
                let joined = (GroupModel { joined: true, ..self }).mapped_all(
                    inputs,
                    outputs,
                    times,
                    sums,
                );
                &&& one_by_one.read_pdi_len == joined.read_pdi_len
                &&& one_by_one.pdi_len == joined.pdi_len
                &&& one_by_one.start_address == joined.start_address
                &&& one_by_one.working_counter == joined.working_counter
                &&& one_by_one.stage == joined.stage
            }),
    {
        (GroupModel { joined: false, ..self }).law_pdi_holds_inputs_and_then_outputs(
            inputs,
            outputs,
            times,
            sums,
        );
        (GroupModel { joined: true, ..self }).law_pdi_holds_inputs_and_then_outputs(
            inputs,
            outputs,
            times,
            sums,
        );
    }

    /// A configuration stays well-formed with every event that it can handle. When it ends well, the
    /// offset that it hands out lies just after the group's PDI, which is not too long.
    pub proof fn law_configuration_stays_well_formed(self, event: GroupEvent)
        requires
            self.wf(),
            self.accepts(event),
            self.slaves.len() <= usize::MAX,
        ensures
            self.after(event).wf(),
            self.after(event).stage matches GroupStage::Finished(Ok(offset)) ==> {
                &&& offset.start_address == self.after(event).start_address + self.after(
                    event,
                ).pdi_len
                &&& self.after(event).pdi_len <= self.max_pdi_len
            },
    {
    }
}

impl GroupModel {
    /// The event at position `i` was what came of the given action.
    pub open spec fn done_at(
        self,
        events: Seq<GroupEvent>,
        i: int,
        action: GroupAction,
        event: GroupEvent,
    ) -> bool {
        &&& 0 <= i < events.len()
        &&& self.after_all(events.take(i)).spec_action() == action
        &&& events[i] == event
    }

    /// What is done in a step of the configuration of a slave's sync signals, whose clock shows the
    /// given time: the signals are disabled, the clock is read, the start time and the cycle time are
    /// written, and the signals are enabled.
    pub open spec fn sync_step_action(self, slave: int, step: int, local_time: u32) -> GroupAction {
        let stage = if step == 0 {
            SyncStage::Disable
        } else if step == 1 {
            SyncStage::LocalTime
        } else if step == 2 {
            SyncStage::StartTime { start_time: (local_time + 102_000_000) as u32 }
        } else if step == 3 {
            SyncStage::CycleTime
        } else {
            SyncStage::Enable
        };
        GroupAction::Synchronize {
            slave: slave as usize,
            slave_addr: self.slaves[slave].configured_address,
            action: self.sync_at(slave, stage).spec_action(),
        }
    }

    /// What comes of a step of the configuration of a slave's sync signals.
    pub open spec fn sync_step_event(step: int, local_time: u32) -> GroupEvent {
        GroupEvent::Sync(
            if step == 1 {
                SyncEvent::Read(local_time)
            } else {
                SyncEvent::Written
            },
        )
    }

    /// The first steps of the configuration of a slave's sync signals were done in order, at the given
    /// positions of the events.
    pub open spec fn synced_at(
        self,
        events: Seq<GroupEvent>,
        slave: int,
        at: Seq<int>,
        local_time: u32,
    ) -> bool {
        &&& forall|step: int|
            0 <= step < at.len() ==> self.done_at(
                events,
                #[trigger] at[step],
                self.sync_step_action(slave, step, local_time),
                GroupModel::sync_step_event(step, local_time),
            )
        &&& forall|a: int, b: int| 0 <= a < b < at.len() ==> at[a] < at[b]
    }

    /// The first `steps` steps of the configuration of a slave's sync signals were done in order.
    pub open spec fn synced(self, events: Seq<GroupEvent>, slave: int, steps: nat) -> bool {
        exists|at: Seq<int>, local_time: u32|
            at.len() == steps && #[trigger] self.synced_at(events, slave, at, local_time)
    }

    /// The number of steps of the configuration of a slave's sync signals that have been done at this
    /// point.
    spec fn steps_done(self, slave: int) -> nat {
        match self.stage {
            GroupStage::Outputs { slave: s } => if slave < s {
                5
            } else {
                0
            },
            GroupStage::Sync { slave: s, setup } => if slave < s {
                5
            } else if slave > s {
                0
            } else {
                match setup.stage {
                    SyncStage::Disable => 0,
                    SyncStage::LocalTime => 1,
                    SyncStage::StartTime { .. } => 2,
                    SyncStage::CycleTime => 3,
                    SyncStage::Enable => 4,
                    SyncStage::Finished(_) => 5,
                }
            },
            GroupStage::SafeOp { slave: s } => if slave <= s {
                5
            } else {
                0
            },
            GroupStage::Finished(Ok(_)) => 5,
            _ => 0,
        }
    }

    /// The slave of a stage that follows the inputs is in the group, and its sync signals are
    /// configured with default times.
    spec fn sync_wf(self) -> bool {
        match self.stage {
            GroupStage::Outputs { slave } | GroupStage::SafeOp { slave } => slave
                < self.slaves.len(),
            GroupStage::Sync { slave, setup } => slave < self.slaves.len() && !(
            setup.stage is Finished) && setup == self.sync_at(slave as int, setup.stage),
            _ => true,
        }
    }

    /// The start time that is about to be written is that of the clock reading.
    spec fn starts_from(self, slave: int, local_time: u32) -> bool {
        self.stage matches GroupStage::Sync { slave: s, setup } ==> s == slave ==> (
        setup.stage matches SyncStage::StartTime { start_time } ==> start_time == (local_time
            + 102_000_000) as u32)
    }

    /// What has been done for a slave's sync signals by the end of the events.
    proof fn lemma_synced(self, events: Seq<GroupEvent>, slave: int) -> (done: (Seq<int>, u32))
        requires
            self.stage == GroupStage::Initialize,
            self.joined,
            0 <= slave < self.slaves.len() <= usize::MAX,
        ensures
            ({
                let after = self.after_all(events);
                &&& after.slaves == self.slaves
                &&& after.joined
                &&& after.sync_wf()
                &&& done.0.len() == after.steps_done(slave)
                &&& self.synced_at(events, slave, done.0, done.1)
                &&& after.starts_from(slave, done.1)
            }),
        decreases events.len(),
    {
        if events.len() == 0 {
            (Seq::empty(), 0u32)
        } else {
            let last = events.len() - 1;
            let before = self.after_all(events.drop_last());
            let after = self.after_all(events);
            let (at, local_time) = self.lemma_synced(events.drop_last(), slave);
            assert(events.take(last) =~= events.drop_last());
            assert forall|step: int| 0 <= step < at.len() implies self.done_at(
                events,
                #[trigger] at[step],
                self.sync_step_action(slave, step, local_time),
                GroupModel::sync_step_event(step, local_time),
            ) by {
                assert(events.take(at[step]) =~= events.drop_last().take(at[step]));
            }
            if after.steps_done(slave) == at.len() {
                (at, local_time)
            } else if after.steps_done(slave) == 0 {
                (Seq::empty(), 0u32)
            } else {
                let local_time_2 = match events.last() {
                    GroupEvent::Sync(SyncEvent::Read(t)) => t,
                    _ => local_time,
                };
                assert(after.steps_done(slave) == at.len() + 1);
                let at_2 = at.push(last);
                assert forall|step: int| 0 <= step < at_2.len() implies self.done_at(
                    events,
                    #[trigger] at_2[step],
                    self.sync_step_action(slave, step, local_time_2),
                    GroupModel::sync_step_event(step, local_time_2),
                ) by {
                    if step < at.len() {
                        assert(at_2[step] == at[step]);
                    }
                }
                (at_2, local_time_2)
            }
        }
    }

    /// If all slaves are initialized at the same time and the configuration ends well, then the sync
    /// signals of every slave have been configured: they were disabled, the slave's clock was read,
    /// the start time that follows from it and the cycle time were written, and the signals were
    /// enabled, in this order and without a failure.
    pub proof fn law_sync_signals_of_every_slave_are_configured(
        self,
        events: Seq<GroupEvent>,
        slave: int,
    )
        requires
            self.wf(),
            self.stage == GroupStage::Initialize,
            self.slaves.len() <= usize::MAX,
            0 <= slave < self.slaves.len(),
            self.after_all(events).stage matches GroupStage::Finished(Ok(_)),
        ensures
            self.synced(events, slave, 5),
    {
        let (at, local_time) = self.lemma_synced(events, slave);
        assert(self.synced_at(events, slave, at, local_time));
    }
}

/// The number of slaves in a list that have a property.
pub open spec fn count(has: Seq<bool>) -> nat
    decreases has.len(),
{
    if has.len() == 0 {
        0
    } else {
        count(has.drop_last()) + if has.last() {
            1nat
        } else {
            0
        }
    }
}

/// If each slave adds 1 to the working counter for its inputs and 2 for its outputs, then the
/// working counter of the group is `(slaves with inputs) + (2 * slaves with outputs)`.
pub proof fn law_working_counter_counts_inputs_and_outputs(
    sums: Seq<nat>,
    has_inputs: Seq<bool>,
    has_outputs: Seq<bool>,
)
    requires
        has_inputs.len() == sums.len(),
        has_outputs.len() == sums.len(),
        forall|i: int|
            0 <= i < sums.len() ==> #[trigger] sums[i] == (if has_inputs[i] {
                1int
            } else {
                0
            }) + (if has_outputs[i] {
                2int
            } else {
                0
            }),
    ensures
        total(sums) == count(has_inputs) + 2 * count(has_outputs),
    decreases sums.len(),
{
    if sums.len() > 0 {
        law_working_counter_counts_inputs_and_outputs(
            sums.drop_last(),
            has_inputs.drop_last(),
            has_outputs.drop_last(),
        );
    }
}

/// The action that maps one direction of a slave's process data, `bytes` bytes after the start of the
/// group's PDI.
pub open spec fn mapping(start: u32, bytes: nat, slave: nat, direction: PdoDirection) -> GroupAction {
    GroupAction::ConfigureFmmus {
        slave: slave as usize,
        offset: place(start, bytes),
        start_address: start,
        direction,
    }
}

/// A configuration of either kind keeps the group's slaves and sizes, sets the start of its PDI to the
/// given offset and has mapped nothing. Slaves that are initialized at the same time come first.
/// Otherwise the mailboxes of the first slave do.
pub proof fn law_configuration_begins_at_offset(
    group: &mut SlaveGroupRef,
    other: &mut SlaveGroupRef,
    offset: PdiOffset,
    joined: GroupConfiguration,
    one_by_one: GroupConfiguration,
    joined_action: GroupAction,
    action: GroupAction,
)
    requires
        *old(other) == *old(group),
        call_ensures(SlaveGroupRef::initialize_from_eeprom, (group, offset), joined),
        call_ensures(SlaveGroupRef::configure_from_eeprom, (other, offset), one_by_one),
        call_ensures(GroupConfiguration::action, (&joined, &*final(group)), joined_action),
        call_ensures(GroupConfiguration::action, (&one_by_one, &*final(other)), action),
    ensures
        final(group).inner.start_address == offset.start_address,
        final(other).inner.start_address == offset.start_address,
        final(group).inner.slaves@ == old(group).inner.slaves@,
        final(other).inner.slaves@ == old(group).inner.slaves@,
        final(group).inner.group_working_counter == old(group).inner.group_working_counter,
        final(other).inner.group_working_counter == old(group).inner.group_working_counter,
        final(group).max_pdi_len == old(group).max_pdi_len,
        final(other).max_pdi_len == old(group).max_pdi_len,
        joined.model(*final(group)).offset == offset,
        one_by_one.model(*final(other)).offset == offset,
        joined_action == GroupAction::InitializeSlaves,
        old(group).inner.slaves@.len() > 0 ==> action == (GroupAction::ConfigureMailboxes {
            slave: 0,
        }),
        old(group).inner.slaves@.len() == 0 ==> action == GroupAction::Finish(Ok(offset))
            && final(other).inner.read_pdi_len == 0 && final(other).inner.pdi_len == 0,
{
}

impl GroupModel {
    /// The configuration has just begun in one of the two ways, at the start of the group's PDI.
    pub open spec fn just_begun(self) -> bool {
        &&& self.offset.start_address == self.start_address
        &&& self.slaves.len() > 0
        &&& self.stage == if self.joined {
            GroupStage::Initialize
        } else {
            GroupStage::Mailboxes { slave: 0 }
        }
    }

    /// The configuration after slaves that are initialized at the same time have been.
    pub open spec fn initialized(self) -> GroupModel {
        if self.joined {
            self.after(GroupEvent::SlavesInitialized)
        } else {
            self
        }
    }

    proof fn lemma_initialized(self)
        requires
            self.just_begun(),
        ensures
            self.initialized() == self.at_inputs(0),
    {
    }

    /// After the inputs of some slaves, the inputs of the next slave are due, just after them. Without
    /// joint initialization, the mailboxes of that slave and then the hook, if there is one, come
    /// before its inputs.
    pub proof fn law_inputs_follow_each_other(self, inputs: Seq<nat>)
        requires
            self.just_begun(),
            inputs.len() < self.slaves.len() <= usize::MAX,
            self.start_address + total(inputs) <= u32::MAX,
        ensures
            ({
                let k = inputs.len();
                let due = self.initialized().after_all(self.input_events(inputs));
                let map = mapping(self.start_address, total(inputs), k, PdoDirection::MasterRead);
                let ready = due.after(GroupEvent::MailboxesConfigured);
                &&& self.joined ==> due.spec_action() == map
                &&& !self.joined ==> due.spec_action() == (GroupAction::ConfigureMailboxes {
                    slave: k as usize,
                })
                &&& !self.joined && !self.hook ==> ready.spec_action() == map
                &&& !self.joined && self.hook ==> ready.spec_action() == (GroupAction::RunHook {
                    slave: k as usize,
                }) && ready.after(GroupEvent::HookRun).spec_action() == map
            }),
    {
        self.lemma_initialized();
        self.lemma_inputs(inputs);
    }

    /// After the inputs of all slaves and the outputs of some, the outputs of the next slave are due,
    /// just after them. Then comes the configuration of that slave's sync signals in the joint way, and
    /// after that its SAFE-OP request.
    pub proof fn law_outputs_follow_all_inputs(
        self,
        inputs: Seq<nat>,
        outputs: Seq<nat>,
        times: Seq<u32>,
        sums: Seq<nat>,
        end: PdiOffset,
        local_time: u32,
    )
        requires
            self.just_begun(),
            inputs.len() == self.slaves.len() <= usize::MAX,
            outputs.len() < self.slaves.len(),
            times.len() == outputs.len(),
            sums.len() == outputs.len(),
            self.start_address + total(inputs) + total(outputs) <= u32::MAX,
            self.working_counter + total(sums) <= u16::MAX,
            GroupModel::in_time(times),
            local_time + 102_000_000 <= u32::MAX,
        ensures
            ({
                let k = outputs.len();
                let due = self.initialized().after_all(self.input_events(inputs)).after_all(
                    self.output_events(total(inputs), outputs, times, sums),
                );
                let mapped = due.after(GroupEvent::FmmusConfigured(end));
                let request = GroupAction::RequestSafeOp { slave: k as usize };
                &&& due.read_pdi_len == total(inputs)
                &&& due.working_counter == self.working_counter + total(sums)
                &&& due.spec_action() == mapping(
                    self.start_address,
                    total(inputs) + total(outputs),
                    k,
                    PdoDirection::MasterWrite,
                )
                &&& mapped.offset == end
                &&& !self.joined ==> mapped.spec_action() == request
                &&& self.joined ==> (mapped.spec_action() matches GroupAction::Synchronize {
                    slave,
                    slave_addr,
                    action,
                } && slave == k && slave_addr == self.slaves[k as int].configured_address && (
                action matches SyncAction::WriteU8 { register, value, .. } && register.location()
                    == 0x981 && value == 0))
                &&& self.joined ==> mapped.after_all(self.sync_events(local_time)).spec_action()
                    == request
            }),
    {
        self.lemma_initialized();
        self.lemma_inputs(inputs);
        let read = GroupModel {
            offset: place(self.start_address, total(inputs)),
            read_pdi_len: total(inputs) as usize,
            ..self
        };
        assert(self.at_inputs(0).after_all(self.input_events(inputs)) == read.at_outputs(0));
        read.lemma_outputs(total(inputs), outputs, times, sums);
        self.lemma_output_events(read, total(inputs), outputs, times, sums);
        let due = read.at_outputs(0).after_all(
            self.output_events(total(inputs), outputs, times, sums),
        );
        let mapped = due.after(GroupEvent::FmmusConfigured(end));
        mapped.lemma_sync(local_time, outputs.len() as usize);
        assert(mapped.sync_events(local_time) =~= self.sync_events(local_time));
    }

    /// The PDI of a group is complete once the outputs of all slaves are mapped. If it fits, its lengths
    /// are recorded and its end is handed out. Otherwise the configuration ends with both lengths, and
    /// the total length is not recorded.
    pub proof fn law_complete_pdi_is_recorded_if_it_fits(
        self,
        inputs: Seq<nat>,
        outputs: Seq<nat>,
        times: Seq<u32>,
        sums: Seq<nat>,
    )
        requires
            self.just_begun(),
            inputs.len() == self.slaves.len() <= usize::MAX,
            outputs.len() == self.slaves.len(),
            times.len() == outputs.len(),
            sums.len() == outputs.len(),
            self.start_address + total(inputs) + total(outputs) <= u32::MAX,
            self.working_counter + total(sums) <= u16::MAX,
            GroupModel::in_time(times),
        ensures
            ({
                let done = self.initialized().after_all(self.input_events(inputs)).after_all(
                    self.output_events(total(inputs), outputs, times, sums),
                );
                let len = total(inputs) + total(outputs);
                &&& done.read_pdi_len == total(inputs)
                &&& done.working_counter == self.working_counter + total(sums)
                &&& done.start_address == self.start_address
                &&& len <= self.max_pdi_len ==> done.pdi_len == len && (
                done.spec_action() matches GroupAction::Finish(Ok(end)) && end.start_address
                    == self.start_address + len)
                &&& len > self.max_pdi_len ==> done.pdi_len == self.pdi_len && (
                done.spec_action() matches GroupAction::Finish(Err(e)) && (
                e matches Error::PdiTooLong { max_length, desired_length } && max_length
                    == self.max_pdi_len && desired_length == len))
            }),
    {
        self.lemma_initialized();
        self.law_pdi_holds_inputs_and_then_outputs(inputs, outputs, times, sums);
    }
}

/// A failure ends a configuration with its error at any point. The group then keeps the lengths and the
/// working counter that were recorded.
pub proof fn law_failure_ends_configuration(
    configuration: &mut GroupConfiguration,
    group: &mut SlaveGroupRef,
    e: Error,
    before: GroupAction,
    action: GroupAction,
)
    requires
        old(configuration).wf(*old(group)),
        call_ensures(GroupConfiguration::action, (&*old(configuration), &*old(group)), before),
        call_ensures(
            GroupConfiguration::handle,
            (configuration, group, GroupEvent::Failed(e)),
            (),
        ),
        call_ensures(GroupConfiguration::action, (&*final(configuration), &*final(group)), action),
    ensures
        before is Finish ==> action == before,
        !(before is Finish) ==> action == GroupAction::Finish(Err(e)),
        final(group)@ == old(group)@,
{
    let m = old(configuration).model(*old(group));
    assert(final(configuration).model(*final(group)).slaves == m.slaves);
    assert(final(group)@ =~= old(group)@);
}

/// A step that fails on the way to a slave's sync signals ends the configuration with its error too.
pub proof fn law_failed_sync_ends_configuration(
    configuration: &mut GroupConfiguration,
    group: &mut SlaveGroupRef,
    e: Error,
    before: GroupAction,
    action: GroupAction,
)
    requires
        old(configuration).wf(*old(group)),
        call_ensures(GroupConfiguration::action, (&*old(configuration), &*old(group)), before),
        before is Synchronize,
        call_ensures(
            GroupConfiguration::handle,
            (configuration, group, GroupEvent::Sync(SyncEvent::Failed(e))),
            (),
        ),
        call_ensures(GroupConfiguration::action, (&*final(configuration), &*final(group)), action),
    ensures
        action == GroupAction::Finish(Err(e)),
{
}

/// No event changes the slaves of a group, its sizes or the start of its PDI. The working counter only
/// changes with a SAFE-OP request, by what the slave adds. The length of the inputs is only recorded
/// with the last inputs, or with the initialization of a group without slaves, and the total length is
/// only recorded at the end.
pub proof fn law_group_changes_only_with_its_events(
    configuration: &mut GroupConfiguration,
    group: &mut SlaveGroupRef,
    event: GroupEvent,
    before: GroupAction,
    after: GroupAction,
)
    requires
        old(configuration).wf(*old(group)),
        old(configuration).model(*old(group)).accepts(event),
        call_ensures(GroupConfiguration::action, (&*old(configuration), &*old(group)), before),
        call_ensures(GroupConfiguration::handle, (configuration, group, event), ()),
        call_ensures(GroupConfiguration::action, (&*final(configuration), &*final(group)), after),
    ensures
        final(group).inner.slaves@ == old(group).inner.slaves@,
        final(group).id == old(group).id,
        final(group).max_slaves == old(group).max_slaves,
        final(group).max_pdi_len == old(group).max_pdi_len,
        final(group).preop_safeop_hook == old(group).preop_safeop_hook,
        final(group).inner.start_address == old(group).inner.start_address,
        final(group).inner.group_working_counter == old(group).inner.group_working_counter + (
        if before is RequestSafeOp && event is SafeOpRequested {
            event->working_counter_sum as int
        } else {
            0
        }),
        final(group).inner.read_pdi_len != old(group).inner.read_pdi_len ==> (
        before matches GroupAction::ConfigureFmmus { slave, direction, .. } && direction
            == PdoDirection::MasterRead && slave + 1 == old(group).inner.slaves@.len()) || old(
            group).inner.slaves@.len() == 0,
        final(group).inner.pdi_len != old(group).inner.pdi_len ==> (after matches GroupAction::Finish(
            Ok(end),
        ) && end.start_address == final(group).inner.start_address + final(group).inner.pdi_len),
        before is Finish ==> after == before && final(group)@ == old(group)@,
{
    old(configuration).lemma_model_is_of_group(*old(group));
    final(configuration).lemma_model_is_of_group(*final(group));
    if before is Finish {
        assert(final(group)@ =~= old(group)@);
    }
}

/// Only what came of the action that had to be done takes a configuration on.
pub proof fn law_configuration_ignores_other_events(
    configuration: &mut GroupConfiguration,
    group: &mut SlaveGroupRef,
    event: GroupEvent,
    before: GroupAction,
)
    requires
        old(configuration).wf(*old(group)),
        call_ensures(GroupConfiguration::action, (&*old(configuration), &*old(group)), before),
        call_ensures(GroupConfiguration::handle, (configuration, group, event), ()),
        final(configuration).model(*final(group)) != old(configuration).model(*old(group)),
    ensures
        !(before is Finish),
        match event {
            GroupEvent::SlavesInitialized => before is InitializeSlaves,
            GroupEvent::MailboxesConfigured => before is ConfigureMailboxes,
            GroupEvent::HookRun => before is RunHook,
            GroupEvent::FmmusConfigured(_) => before is ConfigureFmmus,
            GroupEvent::Sync(_) => before is Synchronize,
            GroupEvent::SafeOpRequested { .. } => before is RequestSafeOp,
            GroupEvent::Failed(_) => true,
        },
{
}

/// Each action that is done is followed by the one that is due next. Process data is mapped where the
/// process data before it ended, first the inputs of all slaves and then their outputs, always from the
/// start of the group's PDI on. When the last slave has been told to go to SAFE-OP, the configuration
/// is over, and it ended well exactly if what was mapped fits.
pub proof fn law_done_action_is_followed_by_next(
    configuration: &mut GroupConfiguration,
    group: &mut SlaveGroupRef,
    event: GroupEvent,
    before: GroupAction,
    after: GroupAction,
)
    requires
        old(configuration).wf(*old(group)),
        old(configuration).model(*old(group)).accepts(event),
        call_ensures(GroupConfiguration::action, (&*old(configuration), &*old(group)), before),
        call_ensures(GroupConfiguration::handle, (configuration, group, event), ()),
        call_ensures(GroupConfiguration::action, (&*final(configuration), &*final(group)), after),
    ensures
        ({
            let start = old(group).inner.start_address;
            let len = old(group).inner.slaves@.len();
            let joined = old(configuration).model(*old(group)).joined;
            let hook = old(group).preop_safeop_hook;
            let reached = old(configuration).model(*old(group)).offset;
            &&& final(configuration).model(*final(group)).joined == joined
            &&& final(configuration).model(*final(group)).offset == if before is ConfigureFmmus
                && event is FmmusConfigured {
                event->FmmusConfigured_0
            } else {
                reached
            }
            &&& before is InitializeSlaves && event is SlavesInitialized && len > 0 ==> after
                == mapping_at(start, reached, 0, PdoDirection::MasterRead)
            &&& (before matches GroupAction::ConfigureMailboxes { slave } ==> event is MailboxesConfigured
                ==> after == if hook {
                GroupAction::RunHook { slave }
            } else {
                mapping_at(start, reached, slave as int, PdoDirection::MasterRead)
            })
            &&& (before matches GroupAction::RunHook { slave } ==> event is HookRun ==> after
                == mapping_at(start, reached, slave as int, PdoDirection::MasterRead))
            &&& (before matches GroupAction::ConfigureFmmus {
                slave,
                offset,
                start_address,
                direction,
            } ==> {
                &&& offset == reached
                &&& start_address == start
                &&& (event matches GroupEvent::FmmusConfigured(end) ==> {
                    &&& direction == PdoDirection::MasterRead && slave + 1 < len ==> after
                        == if joined {
                        mapping_at(start, end, slave + 1, PdoDirection::MasterRead)
                    } else {
                        GroupAction::ConfigureMailboxes { slave: (slave + 1) as usize }
                    }
                    &&& direction == PdoDirection::MasterRead && slave + 1 == len ==> after
                        == mapping_at(start, end, 0, PdoDirection::MasterWrite) && final(
                        group).inner.read_pdi_len == end.start_address - start
                    &&& direction == PdoDirection::MasterWrite && !joined ==> after == (
                    GroupAction::RequestSafeOp { slave })
                    &&& direction == PdoDirection::MasterWrite && joined ==> (
                    after matches GroupAction::Synchronize { slave: s, slave_addr, .. } && s
                        == slave && slave_addr == old(
                        group).inner.slaves@[slave as int].configured_address)
                })
            })
            &&& (before matches GroupAction::Synchronize { slave, slave_addr, .. } ==> (
            after is Finish || after == (GroupAction::RequestSafeOp { slave }) || (
            after matches GroupAction::Synchronize { slave: s, slave_addr: a, .. } && s == slave && a
                == slave_addr)))
            &&& (before matches GroupAction::RequestSafeOp { slave } ==> event is SafeOpRequested ==> {
                &&& slave + 1 < len ==> after == mapping_at(
                    start,
                    reached,
                    slave + 1,
                    PdoDirection::MasterWrite,
                )
                &&& slave + 1 == len ==> {
                    let total_len = reached.start_address - start;
                    &&& total_len <= old(group).max_pdi_len ==> after == GroupAction::Finish(
                        Ok(reached),
                    ) && final(group).inner.pdi_len == total_len
                    &&& total_len > old(group).max_pdi_len ==> (after matches GroupAction::Finish(
                        Err(e),
                    ) && (e matches Error::PdiTooLong { max_length, desired_length } && max_length
                        == old(group).max_pdi_len && desired_length == total_len))
                }
            })
        }),
{
    old(configuration).lemma_model_is_of_group(*old(group));
    final(configuration).lemma_model_is_of_group(*final(group));
}

/// The action that maps one direction of a slave's process data at the given place.
pub open spec fn mapping_at(
    start: u32,
    offset: PdiOffset,
    slave: int,
    direction: PdoDirection,
) -> GroupAction {
    GroupAction::ConfigureFmmus { slave: slave as usize, offset, start_address: start, direction }
}

} // verus!
