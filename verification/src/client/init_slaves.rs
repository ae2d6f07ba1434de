//! Detecting all slaves on the network and giving them their station addresses.

use super::reset::ResetStep;
use super::services::{auto_increment_address, ReadRequest, WriteRequest};
use super::{Client, BASE_SLAVE_ADDR};
use crate::bytes::le_16;
use crate::command::Command;
use crate::error::{checked, wkc, Error, Item};
use crate::register::RegisterAddress;
use crate::slave::queue::SlaveQueue;
use crate::slave::Slave;
use vstd::prelude::*;

verus! {

/// What has to be done next to detect the slaves.
#[derive(Debug, PartialEq, Eq)]
pub enum InitAction {
    /// Send a broadcast of the sequence that resets all slaves.
    Reset(ResetStep),
    /// Read the type of all slaves, which counts them.
    ReadType(ReadRequest),
    /// Write its station address to one slave.
    SetStationAddress(WriteRequest),
    /// Read what there is to know of one slave.
    CreateSlave {
        /// The position of the slave on the network.
        index: usize,
        /// The station address of the slave.
        configured_address: u16,
    },
    /// Configure the distributed clocks of the slaves.
    ConfigureDc,
    /// Synchronise the clocks of the slaves with a reference clock.
    StaticSync {
        /// The position of the slave with the reference clock.
        master: usize,
        /// The number of times that the reference time is sent.
        iterations: u32,
    },
    /// Nothing: the detection is over.
    Finish(Result<(), Error>),
}

/// What came of an action.
#[derive(Debug, PartialEq)]
pub enum InitEvent {
    /// A broadcast of the reset sequence has been answered.
    ResetSent,
    /// The type of all slaves has been read.
    TypeRead {
        /// The number of slaves that answered.
        working_counter: u16,
    },
    /// A station address has been written.
    AddressSet {
        /// The number of slaves that took the address.
        working_counter: u16,
    },
    /// What there is to know of one slave.
    Created(Slave),
    /// The distributed clocks are configured.
    DcConfigured {
        /// The position of the slave with the reference clock, if any slave has a clock.
        master: Option<usize>,
    },
    /// The clocks are synchronised.
    Synchronised,
    /// The last action failed.
    Failed(Error),
}

/// How far the detection has come.
#[derive(Debug, PartialEq, Eq, Copy, Clone)]
pub enum InitStage {
    /// The first `done` broadcasts of the reset sequence have been sent.
    Reset {
        done: usize,
    },
    /// The slaves have to be counted.
    ReadType,
    /// The slave at this position has no station address yet.
    SetAddress {
        slave: u16,
    },
    /// The slave at this position has its station address, and nothing else is known of it.
    Create {
        slave: u16,
    },
    /// All slaves are known.
    ConfigureDc,
    /// The distributed clocks are configured.
    StaticSync {
        master: usize,
    },
    /// The detection is over.
    Finished(Result<(), Error>),
}

/// The station address of the slave at the given position.
pub open spec fn station_address(slave: u16) -> u16 {
    ((BASE_SLAVE_ADDR + slave) % 0x1_0000) as u16
}

/// The state of a detection.
#[verifier::ext_equal]
pub struct InitModel {
    /// The most slaves that can be listed.
    pub capacity: nat,
    /// How far the detection has come.
    pub stage: InitStage,
    /// The broadcasts that reset the slaves.
    pub reset: Seq<ResetStep>,
    /// The number of slaves that answered.
    pub num_slaves: u16,
    /// The slaves that are known so far.
    pub slaves: Seq<Slave>,
    /// The number of times that the reference time is sent.
    pub iterations: u32,
}

impl InitModel {
    /// The positions in the reset sequence and in the list of slaves are in bounds.
    pub open spec fn wf(self) -> bool {
        &&& self.slaves.len() <= self.capacity
        &&& match self.stage {
            InitStage::Reset { done } => done < self.reset.len() && self.slaves.len() == 0,
            InitStage::ReadType => self.slaves.len() == 0,
            InitStage::SetAddress { slave } | InitStage::Create { slave } => slave < self.num_slaves
                && self.slaves.len() == slave,
            InitStage::ConfigureDc | InitStage::StaticSync { .. } => self.slaves.len()
                == self.num_slaves,
            InitStage::Finished(result) => result is Ok ==> self.slaves.len() == self.num_slaves,
        }
    }

    /// The detection has come this far.
    pub open spec fn at(self, stage: InitStage) -> InitModel {
        InitModel { stage, ..self }
    }

    /// The detection goes on with the slave at the given position, or with the clocks if there is
    /// no such slave.
    pub open spec fn at_slave(self, slave: int) -> InitModel {
        self.at(
            if slave < self.num_slaves {
                InitStage::SetAddress { slave: slave as u16 }
            } else {
                InitStage::ConfigureDc
            },
        )
    }

    /// The detection has ended with an error.
    pub open spec fn failed(self, e: Error) -> InitModel {
        self.at(InitStage::Finished(Err(e)))
    }

    /// The detection after an event. An event that does not belong to the action that had to be
    /// done changes nothing.
    pub open spec fn after(self, event: InitEvent) -> InitModel {
        match (self.stage, event) {
            (InitStage::Finished(_), _) => self,
            (_, InitEvent::Failed(e)) => self.failed(e),
            (InitStage::Reset { done }, InitEvent::ResetSent) => self.at(
                if done + 1 < self.reset.len() {
                    InitStage::Reset { done: (done + 1) as usize }
                } else {
                    InitStage::ReadType
                },
            ),
            (InitStage::ReadType, InitEvent::TypeRead { working_counter }) => (InitModel {
                num_slaves: working_counter,
                ..self
            }).at_slave(0),
            (InitStage::SetAddress { slave }, InitEvent::AddressSet { working_counter }) =>
                match checked(((), working_counter), 1, "set station address") {
                    Ok(_) => self.at(InitStage::Create { slave }),
                    Err(e) => self.failed(e),
                },
            (InitStage::Create { slave }, InitEvent::Created(s)) => if self.slaves.len()
                < self.capacity {
                (InitModel { slaves: self.slaves.push(s), ..self }).at_slave(slave + 1)
            } else {
                self.failed(Error::Capacity(Item::Slave))
            },
            (InitStage::ConfigureDc, InitEvent::DcConfigured { master }) => self.at(
                match master {
                    Some(master) => InitStage::StaticSync { master },
                    None => InitStage::Finished(Ok(())),
                },
            ),
            (InitStage::StaticSync { .. }, InitEvent::Synchronised) => self.at(
                InitStage::Finished(Ok(())),
            ),
            _ => self,
        }
    }

    /// The detection after a number of events.
    pub open spec fn after_all(self, events: Seq<InitEvent>) -> InitModel
        decreases events.len(),
    {
        if events.len() == 0 {
            self
        } else {
            self.after_all(events.drop_last()).after(events.last())
        }
    }

    /// The action is the one to do at this point of the detection.
    pub open spec fn calls_for(self, action: InitAction) -> bool {
        match self.stage {
            InitStage::Reset { done } => action == InitAction::Reset(self.reset[done as int]),
            InitStage::ReadType => action == InitAction::ReadType(
                ReadRequest {
                    command: Command::Brd {
                        address: 0,
                        register: RegisterAddress::Type.location(),
                    },
                    len: 1,
                },
            ),
            InitStage::SetAddress { slave } => action matches InitAction::SetStationAddress(request)
                && request.command == (Command::Apwr {
                address: auto_increment_address(slave),
                register: RegisterAddress::ConfiguredStationAddress.location(),
            }) && request.data@ == le_16(station_address(slave)),
            InitStage::Create { slave } => action == (InitAction::CreateSlave {
                index: slave as usize,
                configured_address: station_address(slave),
            }),
            InitStage::ConfigureDc => action == InitAction::ConfigureDc,
            InitStage::StaticSync { master } => action == (InitAction::StaticSync {
                master,
                iterations: self.iterations,
            }),
            InitStage::Finished(result) => action == InitAction::Finish(result),
        }
    }
}

/// A detection of at most `N` slaves.
pub struct SlaveInit<const N: usize> {
    stage: InitStage,
    reset: Vec<ResetStep>,
    num_slaves: u16,
    slaves: SlaveQueue<N>,
    iterations: u32,
}

impl<const N: usize> View for SlaveInit<N> {
    type V = InitModel;

    closed spec fn view(&self) -> InitModel {
        InitModel {
            capacity: N as nat,
            stage: self.stage,
            reset: self.reset@,
            num_slaves: self.num_slaves,
            slaves: self.slaves@,
            iterations: self.iterations,
        }
    }
}

impl<const N: usize> SlaveInit<N> {
    /// The state of the detection is well-formed, and no slave has been taken from the list.
    pub closed spec fn wf(self) -> bool {
        &&& self@.wf()
        &&& self.slaves.untouched()
    }

    /// What has to be done next.
    pub fn action(&self, client: &Client) -> (action: InitAction)
        requires
            self.wf(),
        ensures
            self@.calls_for(action),
    {
        match self.stage {
            InitStage::Reset { done } => InitAction::Reset(self.reset[done]),
            // Each slave increments working counter, so we can use it as a total count of slaves
            InitStage::ReadType => InitAction::ReadType(client.brd::<u8>(RegisterAddress::Type)),
            InitStage::SetAddress { slave } => InitAction::SetStationAddress(
                client.apwr(
                    slave,
                    RegisterAddress::ConfiguredStationAddress,
                    BASE_SLAVE_ADDR.wrapping_add(slave),
                ),
            ),
            InitStage::Create { slave } => InitAction::CreateSlave {
                index: slave as usize,
                configured_address: BASE_SLAVE_ADDR.wrapping_add(slave),
            },
            InitStage::ConfigureDc => InitAction::ConfigureDc,
            InitStage::StaticSync { master } => InitAction::StaticSync {
                master,
                iterations: self.iterations,
            },
            InitStage::Finished(result) => InitAction::Finish(result),
        }
    }

    /// Take in what came of the last action.
    ///
    /// The client learns the number of slaves when they have been counted.
    pub fn handle(&mut self, client: &mut Client, event: InitEvent)
        requires
            old(self).wf(),
        ensures
            final(self).wf(),
            final(self)@ == old(self)@.after(event),
            final(client).slave_count() == match (old(self)@.stage, event) {
                (InitStage::ReadType, InitEvent::TypeRead { working_counter }) => working_counter,
                _ => old(client).slave_count(),
            },
            final(client).max_frame_data() == old(client).max_frame_data(),
            final(client).spec_timeouts() == old(client).spec_timeouts(),
            final(client).counter() == old(client).counter(),
            final(client).spec_config() == old(client).spec_config(),
    {
        match (self.stage, event) {
            (InitStage::Finished(_), _) => {},
            (_, InitEvent::Failed(e)) => {
                self.stage = InitStage::Finished(Err(e));
            },
            (InitStage::Reset { done }, InitEvent::ResetSent) => {
                let steps: usize = self.reset.len();

                self.stage = if done + 1 < steps {
                    InitStage::Reset { done: done + 1 }
                } else {
                    InitStage::ReadType
                };
            },
            (InitStage::ReadType, InitEvent::TypeRead { working_counter }) => {
                // This is the only place we store the number of slave devices
                client.set_num_slaves(working_counter);
                self.num_slaves = working_counter;
                self.go_to_slave(0);
            },
            (InitStage::SetAddress { slave }, InitEvent::AddressSet { working_counter }) => {
                self.stage = match wkc(((), working_counter), 1, "set station address") {
                    Ok(_) => InitStage::Create { slave },
                    Err(e) => InitStage::Finished(Err(e)),
                };
            },
            (InitStage::Create { slave }, InitEvent::Created(s)) => {
                match self.slaves.push_back(s) {
                    Ok(()) => {
                        self.go_to_slave(slave + 1);
                    },
                    Err(_) => {
                        self.stage = InitStage::Finished(Err(Error::Capacity(Item::Slave)));
                    },
                }
            },
            (InitStage::ConfigureDc, InitEvent::DcConfigured { master }) => {
                self.stage = match master {
                    Some(master) => InitStage::StaticSync { master },
                    None => InitStage::Finished(Ok(())),
                };
            },
            (InitStage::StaticSync { .. }, InitEvent::Synchronised) => {
                self.stage = InitStage::Finished(Ok(()));
            },
            _ => {},
        }
    }

    fn go_to_slave(&mut self, slave: u16)
        ensures
            final(self)@ == old(self)@.at_slave(slave as int),
            final(self).slaves == old(self).slaves,
    {
        self.stage = if slave < self.num_slaves {
            InitStage::SetAddress { slave }
        } else {
            InitStage::ConfigureDc
        };
    }

    /// The slaves that are known so far, in a single list so that the topology can be read from
    /// them.
    pub fn known_slaves(&mut self) -> (slaves: &mut [Slave])
        requires
            old(self).wf(),
        ensures
            slaves@ == old(self)@.slaves,
            final(slaves)@.len() == slaves@.len(),
            final(self)@ == (InitModel { slaves: final(slaves)@, ..old(self)@ }),
            final(self).wf(),
    {
        let slices = self.slaves.as_mut_slices();
        assert(slices.0@ + slices.1@ =~= slices.0@);
        assert(final(slices.0)@ + final(slices.1)@ =~= final(slices.0)@);
        slices.0
    }

    /// Hand out the list of slaves.
    pub fn into_slaves(self) -> (slaves: SlaveQueue<N>)
        ensures
            slaves@ == self@.slaves,
            self.wf() ==> slaves.untouched(),
    {
        self.slaves
    }
}

impl Client {
    fn set_num_slaves(&mut self, num_slaves: u16)
        ensures
            final(self).slave_count() == num_slaves,
            final(self).max_frame_data() == old(self).max_frame_data(),
            final(self).spec_timeouts() == old(self).spec_timeouts(),
            final(self).counter() == old(self).counter(),
            final(self).spec_config() == old(self).spec_config(),
    {
        proof {
            use_type_invariant(&*self);
        }
        self.num_slaves = num_slaves;
    }

    /// Detect slaves, set their configured station addresses and list at most `MAX_SLAVES` of them.
    pub fn init_slaves<const MAX_SLAVES: usize>(&self) -> (init: SlaveInit<MAX_SLAVES>)
        requires
            self.max_frame_data() > 0,
            MAX_SLAVES > 0,
        ensures
            init.wf(),
            init@ == (InitModel {
                capacity: MAX_SLAVES as nat,
                stage: InitStage::Reset { done: 0 },
                reset: super::reset::reset_steps(self.max_frame_data() as int),
                num_slaves: 0,
                slaves: Seq::empty(),
                iterations: self.spec_config().dc_static_sync_iterations,
            }),
    {
        SlaveInit {
            stage: InitStage::Reset { done: 0 },
            reset: self.reset_slaves(),
            num_slaves: 0,
            slaves: SlaveQueue::new(),
            iterations: self.config.dc_static_sync_iterations,
        }
    }
}

/// The events of a reset sequence of which every broadcast is answered.
pub open spec fn reset_events(n: nat) -> Seq<InitEvent> {
    Seq::new(n, |i: int| InitEvent::ResetSent)
}

/// The events of slaves that take their station addresses and become known, one after the other.
pub open spec fn slave_events(found: Seq<Slave>) -> Seq<InitEvent>
    decreases found.len(),
{
    if found.len() == 0 {
        Seq::empty()
    } else {
        slave_events(found.drop_last()).push(InitEvent::AddressSet { working_counter: 1 }).push(
            InitEvent::Created(found.last()),
        )
    }
}

/// Every broadcast of the reset sequence is sent, in order, before the slaves are counted.
pub proof fn law_whole_reset_precedes_count(init: InitModel, done: nat)
    requires
        init.wf(),
        init.stage == (InitStage::Reset { done: 0 }),
        init.reset.len() <= usize::MAX,
        done <= init.reset.len(),
    ensures
        init.after_all(reset_events(done)) == init.at(
            if done < init.reset.len() {
                InitStage::Reset { done: done as usize }
            } else {
                InitStage::ReadType
            },
        ),
    decreases done,
{
    if done > 0 {
        law_whole_reset_precedes_count(init, (done - 1) as nat);
        assert(reset_events(done).drop_last() =~= reset_events((done - 1) as nat));
    }
}

/// Slaves that were counted and then answer as they should are all listed, in the order of their
/// positions, as far as there is room for them. Then the clocks are configured.
pub proof fn law_counted_slaves_are_listed(init: InitModel, num_slaves: u16, found: Seq<Slave>)
    requires
        init.wf(),
        init.stage == InitStage::ReadType,
        found.len() <= num_slaves,
        found.len() <= init.capacity,
    ensures
        init.after(InitEvent::TypeRead { working_counter: num_slaves }).after_all(
            slave_events(found),
        ) == (InitModel { num_slaves, slaves: found, ..init }).at_slave(found.len() as int),
    decreases found.len(),
{
    let counted = init.after(InitEvent::TypeRead { working_counter: num_slaves });
    if found.len() == 0 {
        assert(found =~= init.slaves);
    } else {
        let before = found.drop_last();
        law_counted_slaves_are_listed(init, num_slaves, before);
        let known = counted.after_all(slave_events(before));
        let addressed = slave_events(before).push(InitEvent::AddressSet { working_counter: 1 });
        assert(addressed.drop_last() =~= slave_events(before));
        assert(slave_events(found).drop_last() =~= addressed);
        assert(counted.after_all(addressed) == known.at(
            InitStage::Create { slave: before.len() as u16 },
        ));
        assert(before.push(found.last()) =~= found);
    }
}

/// When the list is full and one more slave becomes known, the detection ends with an error.
pub proof fn law_too_many_slaves_are_refused(
    init: InitModel,
    num_slaves: u16,
    found: Seq<Slave>,
    extra: Slave,
)
    requires
        init.wf(),
        init.stage == InitStage::ReadType,
        found.len() == init.capacity,
        init.capacity < num_slaves,
    ensures
        init.after(InitEvent::TypeRead { working_counter: num_slaves }).after_all(
            slave_events(found.push(extra)),
        ).stage == InitStage::Finished(Err(Error::Capacity(Item::Slave))),
{
    let counted = init.after(InitEvent::TypeRead { working_counter: num_slaves });
    let all = found.push(extra);
    law_counted_slaves_are_listed(init, num_slaves, found);
    assert(all.drop_last() =~= found);
    let known = counted.after_all(slave_events(found));
    let addressed = slave_events(found).push(InitEvent::AddressSet { working_counter: 1 });
    assert(addressed.drop_last() =~= slave_events(found));
    assert(slave_events(all).drop_last() =~= addressed);
    assert(counted.after_all(addressed) == known.at(
        InitStage::Create { slave: found.len() as u16 },
    ));
}

/// The state of a detection stays well-formed whatever happens: no more slaves are listed than
/// there is room for, and a detection that ends well has listed as many slaves as were counted.
pub proof fn law_detection_stays_well_formed(init: InitModel, events: Seq<InitEvent>)
    requires
        init.wf(),
        init.reset.len() <= usize::MAX,
    ensures
        init.after_all(events).wf(),
        init.after_all(events).capacity == init.capacity,
        init.after_all(events).reset == init.reset,
    decreases events.len(),
{
    if events.len() > 0 {
        law_detection_stays_well_formed(init, events.drop_last());
    }
}

/// No two slaves get the same station address, and as long as addresses do not wrap around, they
/// follow each other from [`BASE_SLAVE_ADDR`] on.
pub proof fn law_station_addresses_differ(a: u16, b: u16)
    ensures
        station_address(a) == station_address(b) ==> a == b,
        BASE_SLAVE_ADDR + a <= u16::MAX ==> station_address(a) == BASE_SLAVE_ADDR + a,
{
}

/// The station address that is written to a slave is the first station address plus the position of
/// the slave, to the slave at that position. It is the address that the slave is then known by, and no
/// other slave is given the same one.
pub proof fn law_slave_gets_address_of_its_position<const N: usize>(
    client: Client,
    init: SlaveInit<N>,
    action: InitAction,
    next: SlaveInit<N>,
    next_action: InitAction,
    slave: u16,
    other: SlaveInit<N>,
    other_action: InitAction,
    other_slave: u16,
)
    requires
        init@.stage == (InitStage::SetAddress { slave }),
        call_ensures(SlaveInit::<N>::action, (&init, &client), action),
        next@.stage == (InitStage::Create { slave }),
        call_ensures(SlaveInit::<N>::action, (&next, &client), next_action),
        other@.stage == (InitStage::SetAddress { slave: other_slave }),
        call_ensures(SlaveInit::<N>::action, (&other, &client), other_action),
    ensures
        action matches InitAction::SetStationAddress(request) && {
            let value = request.data@[0] + 0x100 * request.data@[1];
            &&& request.data@.len() == 2
            &&& value == (0x1000 + slave) % 0x1_0000
            &&& (request.command matches Command::Apwr { address, register } && (address + slave)
                % 0x1_0000 == 0 && register == 0x10)
            &&& (next_action matches InitAction::CreateSlave { index, configured_address } && index
                == slave && configured_address == value)
        },
        slave != other_slave ==> action->SetStationAddress_0.data@
            != other_action->SetStationAddress_0.data@,
{
    if slave != other_slave {
        let mine = action->SetStationAddress_0.data@;
        let theirs = other_action->SetStationAddress_0.data@;
        assert(mine[0] + 0x100 * mine[1] == (0x1000 + slave) % 0x1_0000);
        assert(theirs[0] + 0x100 * theirs[1] == (0x1000 + other_slave) % 0x1_0000);
    }
}

/// Slaves are counted by reading one byte at the start of the memory of all of them. The clocks are
/// synchronised with the slave that was found to have the reference clock, as often as configured.
pub proof fn law_detection_does_what_is_due<const N: usize>(
    client: Client,
    init: SlaveInit<N>,
    action: InitAction,
)
    requires
        call_ensures(SlaveInit::<N>::action, (&init, &client), action),
    ensures
        init@.stage matches InitStage::Reset { done } ==> action == InitAction::Reset(
            init@.reset[done as int],
        ),
        init@.stage is ReadType ==> (action matches InitAction::ReadType(request) && request.command
            == (Command::Brd { address: 0, register: 0 }) && request.len == 1),
        init@.stage is ConfigureDc <==> action is ConfigureDc,
        init@.stage matches InitStage::StaticSync { master } ==> action == (InitAction::StaticSync {
            master,
            iterations: init@.iterations,
        }),
        init@.stage matches InitStage::Finished(result) ==> action == InitAction::Finish(result),
        action is Finish ==> init@.stage is Finished,
{
}

/// A detection begins with the reset of the client's slaves. It has counted and listed none, and will
/// synchronise clocks as often as the client is configured to.
pub proof fn law_detection_begins_with_reset<const N: usize>(
    client: Client,
    init: SlaveInit<N>,
    steps: Vec<ResetStep>,
)
    requires
        client.max_frame_data() > 0,
        N > 0,
        call_ensures(Client::init_slaves::<N>, (&client,), init),
        call_ensures(Client::reset_slaves, (&client,), steps),
    ensures
        init@.stage == (InitStage::Reset { done: 0 }),
        init@.reset == steps@,
        init@.capacity == N,
        init@.slaves.len() == 0,
        init@.num_slaves == 0,
        init@.iterations == client.spec_config().dc_static_sync_iterations,
{
}

/// A detection ends with an error exactly if something failed, if another number of slaves than one
/// took a station address, or if one more slave was found than there is room for.
pub proof fn law_detection_ends_with_what_went_wrong<const N: usize>(
    init: &mut SlaveInit<N>,
    client: &mut Client,
    event: InitEvent,
    e: Error,
)
    requires
        old(init).wf(),
        !(old(init)@.stage is Finished),
        call_ensures(SlaveInit::<N>::handle, (init, client, event), ()),
    ensures
        final(init)@.stage == InitStage::Finished(Err(e)) <==> {
            ||| event == InitEvent::Failed(e)
            ||| old(init)@.stage is SetAddress && (event matches InitEvent::AddressSet {
                working_counter,
            } && working_counter != 1 && e == (Error::WorkingCounter {
                expected: 1,
                received: working_counter,
                context: "set station address",
            }))
            ||| old(init)@.stage is Create && event is Created && old(init)@.slaves.len() == N && e
                == Error::Capacity(Item::Slave)
        },
{
}

/// A detection ends well exactly when the clocks are configured and no slave has one, or when the
/// clocks are synchronised.
pub proof fn law_detection_ends_well_after_clocks<const N: usize>(
    init: &mut SlaveInit<N>,
    client: &mut Client,
    event: InitEvent,
)
    requires
        old(init).wf(),
        !(old(init)@.stage is Finished),
        call_ensures(SlaveInit::<N>::handle, (init, client, event), ()),
    ensures
        final(init)@.stage == InitStage::Finished(Ok(())) <==> {
            ||| old(init)@.stage is ConfigureDc && event == (InitEvent::DcConfigured { master: None })
            ||| old(init)@.stage is StaticSync && event is Synchronised
        },
        old(init)@.stage is ConfigureDc ==> (event matches InitEvent::DcConfigured {
            master: Some(master),
        } ==> final(init)@.stage == (InitStage::StaticSync { master })),
{
}

/// The slaves are counted once, by the number that answered, and the client learns that number. After
/// that it stays.
pub proof fn law_slaves_are_counted_by_their_answers<const N: usize>(
    init: &mut SlaveInit<N>,
    client: &mut Client,
    event: InitEvent,
    num_slaves: usize,
)
    requires
        old(init).wf(),
        call_ensures(SlaveInit::<N>::handle, (init, client, event), ()),
        call_ensures(Client::num_slaves, (&*final(client),), num_slaves),
    ensures
        event matches InitEvent::TypeRead { working_counter } ==> old(init)@.stage is ReadType ==> {
            &&& final(init)@.num_slaves == working_counter
            &&& num_slaves == working_counter
            &&& final(init)@.stage == if working_counter == 0 {
                InitStage::ConfigureDc
            } else {
                InitStage::SetAddress { slave: 0 }
            }
        },
        !(old(init)@.stage is ReadType && event is TypeRead) ==> final(init)@.num_slaves == old(init)@.num_slaves && num_slaves == old(client).slave_count(),
{
}

/// Slaves are given their addresses one after the other, in the order of their positions. Each one is
/// listed after the others when it is known, and then the next one has its turn, until all that were
/// counted are listed.
pub proof fn law_slaves_take_turns<const N: usize>(
    init: &mut SlaveInit<N>,
    client: &mut Client,
    event: InitEvent,
)
    requires
        old(init).wf(),
        call_ensures(SlaveInit::<N>::handle, (init, client, event), ()),
    ensures
        old(init)@.stage matches InitStage::SetAddress { slave } ==> event == (
        InitEvent::AddressSet { working_counter: 1 }) ==> final(init)@.stage == (
        InitStage::Create { slave }),
        old(init)@.stage matches InitStage::Create { slave } ==> (event matches InitEvent::Created(
            found,
        ) ==> old(init)@.slaves.len() < N ==> {
            &&& final(init)@.slaves.len() == old(init)@.slaves.len() + 1
            &&& final(init)@.slaves.last() == found
            &&& final(init)@.slaves.drop_last() == old(init)@.slaves
            &&& final(init)@.stage == if final(init)@.slaves.len() == old(init)@.num_slaves {
                InitStage::ConfigureDc
            } else {
                InitStage::SetAddress { slave: (slave + 1) as u16 }
            }
        }),
        !(old(init)@.stage is Create && event is Created) ==> final(init)@.slaves == old(init)@.slaves,
        old(init)@.stage matches InitStage::Reset { done } ==> event is ResetSent ==> final(init)@.stage == if done + 1 == old(init)@.reset.len() {
            InitStage::ReadType
        } else {
            InitStage::Reset { done: (done + 1) as usize }
        },
{
    if let InitStage::Create { slave } = old(init)@.stage {
        if let InitEvent::Created(found) = event {
            if old(init)@.slaves.len() < N {
                assert(old(init)@.slaves.push(found).drop_last() =~= old(init)@.slaves);
            }
        }
    }
}

/// Only what came of the action that had to be done takes a detection on.
pub proof fn law_detection_ignores_other_events<const N: usize>(
    init: &mut SlaveInit<N>,
    client: &mut Client,
    event: InitEvent,
)
    requires
        old(init).wf(),
        call_ensures(SlaveInit::<N>::handle, (init, client, event), ()),
        final(init)@ != old(init)@,
    ensures
        !(old(init)@.stage is Finished),
        match event {
            InitEvent::ResetSent => old(init)@.stage is Reset,
            InitEvent::TypeRead { .. } => old(init)@.stage is ReadType,
            InitEvent::AddressSet { .. } => old(init)@.stage is SetAddress,
            InitEvent::Created(_) => old(init)@.stage is Create,
            InitEvent::DcConfigured { .. } => old(init)@.stage is ConfigureDc,
            InitEvent::Synchronised => old(init)@.stage is StaticSync,
            InitEvent::Failed(_) => true,
        },
{
}

/// A network whose slaves are reset, counted, addressed and known as they should be, and fit in the
/// list, is detected: the list holds all slaves in the order of their positions.
pub proof fn law_good_network_is_detected<const N: usize>(
    client: Client,
    init: SlaveInit<N>,
    found: Seq<Slave>,
)
    requires
        client.max_frame_data() > 0,
        N > 0,
        call_ensures(Client::init_slaves::<N>, (&client,), init),
        init@.reset.len() <= usize::MAX,
        found.len() <= N,
        found.len() <= u16::MAX,
    ensures
        ({
            let done = init@.after_all(reset_events(init@.reset.len())).after(
                InitEvent::TypeRead { working_counter: found.len() as u16 },
            ).after_all(slave_events(found)).after(InitEvent::DcConfigured { master: None });
            &&& done.stage == InitStage::Finished(Ok(()))
            &&& done.slaves == found
            &&& done.num_slaves == found.len()
        }),
{
    law_whole_reset_precedes_count(init@, init@.reset.len());
    let counting = init@.after_all(reset_events(init@.reset.len()));
    law_counted_slaves_are_listed(counting, found.len() as u16, found);
}

/// What is detected, and how, does not change on the way: the room for slaves, the reset sequence and
/// the number of times that the reference time is sent stay. The list that is handed out is the one
/// that was made.
pub proof fn law_detection_hands_out_its_list<const N: usize>(
    init: &mut SlaveInit<N>,
    client: &mut Client,
    event: InitEvent,
    slaves: SlaveQueue<N>,
)
    requires
        old(init).wf(),
        call_ensures(SlaveInit::<N>::handle, (init, client, event), ()),
        call_ensures(SlaveInit::<N>::into_slaves, (*final(init),), slaves),
    ensures
        final(init)@.capacity == old(init)@.capacity,
        final(init)@.reset == old(init)@.reset,
        final(init)@.iterations == old(init)@.iterations,
        slaves@ == final(init)@.slaves,
        slaves@.len() <= old(init)@.slaves.len() + 1,
{
}

/// Whoever looks at the known slaves sees all of them in order, and what is done to them is done to the
/// list.
pub proof fn law_known_slaves_are_the_listed_ones<const N: usize>(
    init: &mut SlaveInit<N>,
    slaves: &mut [Slave],
)
    requires
        old(init).wf(),
        call_ensures(SlaveInit::<N>::known_slaves, (init,), slaves),
    ensures
        old(slaves)@.len() == old(init)@.slaves.len(),
        forall|i: int|
            0 <= i < old(slaves)@.len() ==> #[trigger] old(slaves)@[i] == old(init)@.slaves[i],
        final(init)@.slaves == final(slaves)@,
        final(init)@.stage == old(init)@.stage,
        final(init)@.num_slaves == old(init)@.num_slaves,
{
}

} // verus!
