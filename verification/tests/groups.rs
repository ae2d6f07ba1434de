use core::time::Duration;
use ethercat_master::client::init_slaves::{InitAction, InitEvent};
use ethercat_master::client::{Client, ClientConfig, PduLoop, Timeouts};
use ethercat_master::error::{Error, Item};
use ethercat_master::pdi::{PdiOffset, PdoDirection};
use ethercat_master::register::RegisterAddress;
use ethercat_master::slave::ports::Ports;
use ethercat_master::slave::queue::SlaveQueue;
use ethercat_master::slave::Slave;
use ethercat_master::slave_group::configurator::{GroupAction, GroupConfiguration, GroupEvent};
use ethercat_master::slave_group::offset_helper::OffsetHelper;
use ethercat_master::slave_group::slave_config::{SlaveConfigAction, SlaveConfigEvent};
use ethercat_master::slave_group::synchronization::{SyncAction, SyncEvent};
use ethercat_master::slave_group::{SlaveGroup, SlaveGroupRef};

fn client() -> Client {
    Client::new(
        PduLoop { max_frame_data: 1100 },
        Timeouts {
            pdu: Duration::from_millis(30),
            state_transition: Duration::from_millis(5000),
            wait_loop_delay: Duration::from_millis(1),
        },
        ClientConfig { dc_static_sync_iterations: 0 },
    )
}

fn slave(name: &str) -> Slave {
    Slave { configured_address: 0x1000, name: name.to_string(), ports: Ports::default() }
}

fn queue<const N: usize>(client: &mut Client, names: &[&str]) -> SlaveQueue<N> {
    let mut init = client.init_slaves::<N>();

    while let InitAction::Reset(_) = init.action(client) {
        init.handle(client, InitEvent::ResetSent);
    }
    init.handle(client, InitEvent::TypeRead { working_counter: names.len() as u16 });
    for name in names {
        init.handle(client, InitEvent::AddressSet { working_counter: 1 });
        init.handle(client, InitEvent::Created(slave(name)));
    }

    init.into_slaves()
}

fn group<const MAX_SLAVES: usize, const MAX_PDI: usize>(id: usize) -> SlaveGroupRef {
    SlaveGroupRef::new(SlaveGroup::<MAX_SLAVES, MAX_PDI>::new(id, false))
}

fn filled<const MAX_PDI: usize>(names: &[&str], hook: bool) -> SlaveGroupRef {
    let mut group = SlaveGroupRef::new(SlaveGroup::<8, MAX_PDI>::new(1, hook));
    for name in names {
        assert_eq!(group.push(slave(name)), Ok(()));
    }

    group
}

fn names(group: &SlaveGroupRef) -> Vec<&str> {
    group.inner.slaves.iter().map(|slave| slave.name.as_str()).collect()
}

fn at(start_address: u32) -> PdiOffset {
    PdiOffset { start_address }
}

/// Run a configuration in which every slave has two bytes of inputs and three bytes of outputs, and
/// a clock that shows 1000 ns.
fn run(
    configuration: &mut GroupConfiguration,
    group: &mut SlaveGroupRef,
) -> (Vec<GroupAction>, Result<PdiOffset, Error>) {
    let mut actions = vec![];

    loop {
        let action = configuration.action(group);
        actions.push(action);
        let event = match action {
            GroupAction::InitializeSlaves => GroupEvent::SlavesInitialized,
            GroupAction::ConfigureMailboxes { .. } => GroupEvent::MailboxesConfigured,
            GroupAction::RunHook { .. } => GroupEvent::HookRun,
            GroupAction::ConfigureFmmus { offset, direction, .. } => {
                let len = match direction {
                    PdoDirection::MasterRead => 2,
                    PdoDirection::MasterWrite => 3,
                };
                GroupEvent::FmmusConfigured(at(offset.start_address + len))
            }
            GroupAction::Synchronize { action: SyncAction::ReadU32 { .. }, .. } => {
                GroupEvent::Sync(SyncEvent::Read(1000))
            }
            GroupAction::Synchronize { .. } => GroupEvent::Sync(SyncEvent::Written),
            GroupAction::RequestSafeOp { .. } => {
                GroupEvent::SafeOpRequested { working_counter_sum: 3 }
            }
            GroupAction::Finish(result) => return (actions, result),
        };
        configuration.handle(group, event);
    }
}

fn fmmus(slave: usize, offset: u32, direction: PdoDirection) -> GroupAction {
    GroupAction::ConfigureFmmus { slave, offset: at(offset), start_address: 10, direction }
}

/// The actions that configure the sync signals of a slave whose clock shows 1000 ns.
fn synchronized(slave: usize) -> Vec<GroupAction> {
    [
        SyncAction::WriteU8 {
            register: RegisterAddress::DcSyncActive,
            value: 0,
            context: "disable sync",
        },
        SyncAction::ReadU32 { register: RegisterAddress::DcSystemTime, context: "local time" },
        SyncAction::WriteU32 {
            register: RegisterAddress::DcSyncStartTime,
            value: 102_001_000,
            context: "sync start time",
        },
        SyncAction::WriteU32 {
            register: RegisterAddress::DcSync0CycleTime,
            value: 2_000_000,
            context: "sync cycle time",
        },
        SyncAction::WriteU8 {
            register: RegisterAddress::DcSyncActive,
            value: 0b11,
            context: "enable sync0",
        },
    ]
    .into_iter()
    .map(|action| GroupAction::Synchronize { slave, slave_addr: 0x1000, action })
    .collect()
}

#[test]
fn offset_helper_counts_and_measures() {
    let mut helper = OffsetHelper::new(at(10), PdoDirection::MasterRead);

    assert_eq!(helper.calling_cnt(), 0);
    assert_eq!(helper.request(), (at(10), 10, PdoDirection::MasterRead));
    assert_eq!(helper.configure_fmmus(Ok(at(12))), Ok(()));
    assert_eq!(helper.configure_fmmus(Err(Error::Timeout)), Err(Error::Timeout));
    assert_eq!(helper.configure_fmmus(Ok(at(17))), Ok(()));
    assert_eq!(helper.request(), (at(17), 10, PdoDirection::MasterRead));
    assert_eq!(helper.calling_cnt(), 3);
    assert_eq!(helper.finish(), 7);

    let helper = OffsetHelper::resume(at(17), 10, PdoDirection::MasterWrite);
    assert_eq!(helper.request(), (at(17), 10, PdoDirection::MasterWrite));
    assert_eq!(helper.calling_cnt(), 0);
    assert_eq!(helper.finish(), 7);
}

#[test]
fn group_of_any_size() {
    let mut group = group::<1, 20>(5);

    assert_eq!(group.id, 5);
    assert_eq!(group.max_slaves, 1);
    assert_eq!(group.max_pdi_len, 20);
    assert_eq!(group.push(slave("A")), Ok(()));
    assert_eq!(group.push(slave("B")), Err(Error::Capacity(Item::Slave)));
    assert_eq!(names(&group), ["A"]);
}

#[test]
fn initialize_maps_inputs_and_then_outputs() {
    let mut group = filled::<10>(&["A", "B"], true);
    let mut configuration = group.initialize_from_eeprom(at(10));
    let (actions, result) = run(&mut configuration, &mut group);

    let mut expected = vec![
        GroupAction::InitializeSlaves,
        fmmus(0, 10, PdoDirection::MasterRead),
        fmmus(1, 12, PdoDirection::MasterRead),
    ];
    expected.push(fmmus(0, 14, PdoDirection::MasterWrite));
    expected.extend(synchronized(0));
    expected.push(GroupAction::RequestSafeOp { slave: 0 });
    expected.push(fmmus(1, 17, PdoDirection::MasterWrite));
    expected.extend(synchronized(1));
    expected.push(GroupAction::RequestSafeOp { slave: 1 });
    expected.push(GroupAction::Finish(Ok(at(20))));

    assert_eq!(actions, expected);
    assert_eq!(result, Ok(at(20)));
    assert_eq!(group.inner.start_address, 10);
    assert_eq!(group.inner.read_pdi_len, 4);
    assert_eq!(group.inner.pdi_len, 10);
    assert_eq!(group.inner.group_working_counter, 6);
}

#[test]
fn configure_takes_slaves_one_by_one() {
    let mut group = filled::<10>(&["A", "B"], true);
    let mut configuration = group.configure_from_eeprom(at(10));
    let (actions, result) = run(&mut configuration, &mut group);

    assert_eq!(
        actions,
        [
            GroupAction::ConfigureMailboxes { slave: 0 },
            GroupAction::RunHook { slave: 0 },
            fmmus(0, 10, PdoDirection::MasterRead),
            GroupAction::ConfigureMailboxes { slave: 1 },
            GroupAction::RunHook { slave: 1 },
            fmmus(1, 12, PdoDirection::MasterRead),
            fmmus(0, 14, PdoDirection::MasterWrite),
            GroupAction::RequestSafeOp { slave: 0 },
            fmmus(1, 17, PdoDirection::MasterWrite),
            GroupAction::RequestSafeOp { slave: 1 },
            GroupAction::Finish(Ok(at(20))),
        ]
    );
    assert_eq!(result, Ok(at(20)));
}

#[test]
fn both_ways_lay_out_the_same_pdi() {
    for hook in [false, true] {
        let mut one_by_one = filled::<30>(&["A", "B", "C"], hook);
        let mut joined = filled::<30>(&["A", "B", "C"], hook);
        let mut configuration = one_by_one.configure_from_eeprom(at(7));
        let one_by_one_result = run(&mut configuration, &mut one_by_one).1;
        let mut configuration = joined.initialize_from_eeprom(at(7));
        let joined_result = run(&mut configuration, &mut joined).1;

        assert_eq!(one_by_one_result, Ok(at(22)));
        assert_eq!(one_by_one_result, joined_result);
        assert_eq!(one_by_one, joined);
    }
}

#[test]
fn too_long_pdi() {
    let mut group = filled::<9>(&["A", "B"], false);
    let mut configuration = group.initialize_from_eeprom(at(10));

    assert_eq!(
        run(&mut configuration, &mut group).1,
        Err(Error::PdiTooLong { max_length: 9, desired_length: 10 })
    );
    assert_eq!(group.inner.read_pdi_len, 4);
    assert_eq!(group.inner.pdi_len, 0);
}

#[test]
fn empty_group() {
    let mut group = filled::<0>(&[], false);
    let mut configuration = group.initialize_from_eeprom(at(10));
    assert_eq!(run(&mut configuration, &mut group).1, Ok(at(10)));

    let mut configuration = group.configure_from_eeprom(at(11));
    assert_eq!(configuration.action(&group), GroupAction::Finish(Ok(at(11))));
    assert_eq!(group.inner.start_address, 11);
}

#[test]
fn all_slaves_have_inputs() {
    let mut group = filled::<30>(&["A", "B", "C", "D", "E"], false);
    let mut configuration = group.initialize_from_eeprom(at(10));
    let (_, result) = run(&mut configuration, &mut group);

    assert_eq!(result, Ok(at(35)));
    assert_eq!(group.inner.read_pdi_len, 10);
    assert_eq!(group.inner.pdi_len, 25);
}

#[test]
fn failed_synchronization_ends_the_configuration() {
    let mut group = filled::<30>(&["A"], false);
    let mut configuration = group.initialize_from_eeprom(at(10));

    configuration.handle(&mut group, GroupEvent::SlavesInitialized);
    configuration.handle(&mut group, GroupEvent::FmmusConfigured(at(12)));
    configuration.handle(&mut group, GroupEvent::FmmusConfigured(at(15)));
    configuration.handle(&mut group, GroupEvent::Sync(SyncEvent::Written));
    configuration.handle(&mut group, GroupEvent::Sync(SyncEvent::Failed(Error::Timeout)));
    assert_eq!(configuration.action(&group), GroupAction::Finish(Err(Error::Timeout)));
    assert_eq!(group.inner.pdi_len, 0);
}

#[test]
fn slave_is_initialized_with_its_hook() {
    let mut config = filled::<30>(&["A"], true).initialize_slave_config();

    assert_eq!(config.action(), SlaveConfigAction::ConfigureMailboxes);
    config.handle(SlaveConfigEvent::HookRun);
    assert_eq!(config.action(), SlaveConfigAction::ConfigureMailboxes);
    config.handle(SlaveConfigEvent::MailboxesConfigured);
    assert_eq!(config.action(), SlaveConfigAction::RunHook);
    config.handle(SlaveConfigEvent::MailboxesConfigured);
    assert_eq!(config.action(), SlaveConfigAction::RunHook);
    config.handle(SlaveConfigEvent::HookRun);
    assert_eq!(config.action(), SlaveConfigAction::Finish);
    config.handle(SlaveConfigEvent::HookRun);
    assert_eq!(config.action(), SlaveConfigAction::Finish);
}

#[test]
fn slave_is_initialized_without_a_hook() {
    let mut config = filled::<30>(&["A"], false).initialize_slave_config();

    config.handle(SlaveConfigEvent::MailboxesConfigured);
    assert_eq!(config.action(), SlaveConfigAction::Finish);
}

#[test]
fn slave_queue_of_fixed_capacity() {
    let mut slaves = SlaveQueue::<2>::new();

    assert!(slaves.is_empty());
    assert_eq!(slaves.pop_front(), None);
    assert_eq!(slaves.push_back(slave("A")), Ok(()));
    assert_eq!(slaves.push_back(slave("B")), Ok(()));
    assert_eq!(slaves.push_back(slave("C")), Err(slave("C")));
    assert_eq!(slaves.len(), 2);
    assert_eq!(slaves.pop_front(), Some(slave("A")));
    assert_eq!(slaves.push_back(slave("C")), Ok(()));

    let (first, second) = slaves.as_mut_slices();
    assert_eq!(first.len() + second.len(), 2);
    first[0].configured_address = 7;
    assert_eq!(slaves.pop_front().map(|s| (s.configured_address, s.name)), Some((7, "B".to_string())));
    assert_eq!(slaves.pop_front(), Some(slave("C")));
    assert_eq!(slaves.pop_front(), None);
}

#[test]
fn failed_group_configuration() {
    let mut group = filled::<30>(&["A"], false);
    let mut configuration = group.configure_from_eeprom(at(10));

    configuration.handle(&mut group, GroupEvent::HookRun);
    assert_eq!(configuration.action(&group), GroupAction::ConfigureMailboxes { slave: 0 });
    configuration.handle(&mut group, GroupEvent::Failed(Error::Timeout));
    assert_eq!(configuration.action(&group), GroupAction::Finish(Err(Error::Timeout)));
    configuration.handle(&mut group, GroupEvent::MailboxesConfigured);
    assert_eq!(configuration.action(&group), GroupAction::Finish(Err(Error::Timeout)));
}

#[test]
fn slaves_go_to_their_groups() {
    let mut client = client();
    let mut slaves = queue::<4>(&mut client, &["COUPLER", "COOLSERVO", "IO69420"]);
    let filter = |_: &Vec<SlaveGroupRef>, slave: &Slave| match slave.name.as_str() {
        "COUPLER" | "IO69420" => Ok(0),
        "COOLSERVO" => Ok(1),
        _ => Err(Error::UnknownSlave),
    };
    let groups = vec![group::<2, 10>(21), group::<1, 4>(22), group::<1, 4>(23)];

    let (mut groups, mut setup) =
        client.configure_slave_group(at(100), groups, &mut slaves, filter).unwrap();

    assert_eq!(names(&groups[0]), ["COUPLER", "IO69420"]);
    assert_eq!(names(&groups[1]), ["COOLSERVO"]);
    assert!(names(&groups[2]).is_empty());

    // The group that was found last is configured first
    let mut order = vec![];
    while let Some((id, index)) = setup.next_group() {
        order.push(id);
        let group = &mut groups[index];
        let mut configuration = setup.start_group(group);
        let outcome = run(&mut configuration, group).1;
        match setup.group_configured(outcome) {
            Ok(()) => {}
            Err(e) => {
                assert_eq!(id, 22);
                assert_eq!(e, Error::PdiTooLong { max_length: 4, desired_length: 5 });
                group.max_pdi_len = 5;
                let mut configuration = setup.start_group(group);
                let outcome = run(&mut configuration, group).1;
                assert_eq!(setup.group_configured(outcome), Ok(()));
            }
        }
    }

    assert_eq!(order, [22, 21]);
    assert_eq!(groups[1].inner.start_address, 100);
    assert_eq!(groups[1].inner.pdi_len, 5);
    assert_eq!(groups[0].inner.start_address, 105);
    assert_eq!(groups[0].inner.pdi_len, 10);
    assert_eq!(setup.offset(), at(115));
}

#[test]
fn unknown_slave_ends_the_assignment() {
    let mut client = client();
    let mut slaves = queue::<4>(&mut client, &["A", "B", "C"]);
    let filter =
        |_: &Vec<SlaveGroupRef>, slave: &Slave| match slave.name.as_str() {
            "B" => Err(Error::UnknownSlave),
            _ => Ok(0),
        };

    let result =
        client.configure_slave_group(at(0), vec![group::<4, 10>(1)], &mut slaves, filter);
    assert!(matches!(result, Err(Error::UnknownSlave)));

    // The slaves behind the unknown one are left
    let (groups, _) = client
        .configure_slave_group(at(0), vec![group::<4, 10>(1)], &mut slaves, |_: &Vec<SlaveGroupRef>, _: &Slave| Ok(0))
        .unwrap();
    assert_eq!(names(&groups[0]), ["C"]);
}

#[test]
fn full_group_ends_the_assignment() {
    let mut client = client();
    let mut slaves = queue::<4>(&mut client, &["A", "B"]);

    let result = client.configure_slave_group(
        at(0),
        vec![group::<1, 10>(1)],
        &mut slaves,
        |_: &Vec<SlaveGroupRef>, _: &Slave| Ok(0),
    );
    assert!(matches!(result, Err(Error::Capacity(Item::Slave))));
}

#[test]
fn full_group_comes_before_the_next_slave() {
    let mut client = client();
    let mut slaves = queue::<4>(&mut client, &["A", "B", "C", "D"]);

    // The error is that of the second slave, and the filter never sees the third one
    let result = client.configure_slave_group(
        at(0),
        vec![group::<1, 10>(1)],
        &mut slaves,
        |_: &Vec<SlaveGroupRef>, slave: &Slave| match slave.name.as_str() {
            "C" => Err(Error::UnknownSlave),
            _ => Ok(0),
        },
    );
    assert!(matches!(result, Err(Error::Capacity(Item::Slave))));
    assert_eq!(slaves.len(), 2);
    assert_eq!(slaves.pop_front(), Some(slave("C")));
}

#[test]
fn filter_looks_at_the_groups() {
    let mut client = client();
    let mut slaves = queue::<4>(&mut client, &["A", "B", "C"]);

    let (groups, _) = client
        .configure_slave_group(
            at(0),
            vec![group::<2, 10>(1), group::<2, 10>(2)],
            &mut slaves,
            |groups: &Vec<SlaveGroupRef>, _: &Slave| {
                groups
                    .iter()
                    .position(|group| group.inner.slaves.len() < group.max_slaves)
                    .ok_or(Error::UnknownSlave)
            },
        )
        .unwrap();

    assert_eq!(names(&groups[0]), ["A", "B"]);
    assert_eq!(names(&groups[1]), ["C"]);
    assert!(slaves.is_empty());
}

#[test]
fn a_group_for_every_slave_fits() {
    let mut client = client();
    let all = ["A", "B", "C", "D"];
    let mut slaves = queue::<4>(&mut client, &all);
    let groups = (0..4).map(|i| group::<1, 10>(40 + i)).collect();

    let (groups, mut setup) = client
        .configure_slave_group(at(0), groups, &mut slaves, |_: &Vec<SlaveGroupRef>, slave: &Slave| {
            Ok(all.iter().position(|name| *name == slave.name).unwrap())
        })
        .unwrap();

    for (group, name) in groups.iter().zip(all) {
        assert_eq!(names(group), [name]);
    }
    let mut order = vec![];
    while let Some(next) = setup.next_group() {
        order.push(next);
        assert_eq!(setup.group_configured(Ok(at(0))), Ok(()));
    }
    assert_eq!(order, [(43, 3), (42, 2), (41, 1), (40, 0)]);
}

#[test]
fn groups_with_the_same_id_share_an_entry() {
    let mut client = client();
    let mut slaves = queue::<2>(&mut client, &["A", "B"]);

    let (groups, setup) = client
        .configure_slave_group(
            at(0),
            vec![group::<1, 10>(7), group::<1, 10>(7)],
            &mut slaves,
            |_: &Vec<SlaveGroupRef>, slave: &Slave| Ok(if slave.name == "A" { 0 } else { 1 }),
        )
        .unwrap();

    assert_eq!(names(&groups[0]), ["A"]);
    assert_eq!(names(&groups[1]), ["B"]);
    assert_eq!(setup.next_group(), Some((7, 1)));
}

#[test]
fn synchronization() {
    let group = filled::<10>(&["A"], false);
    let mut setup = group.set_synchronization(0x1000, None, None);

    assert_eq!(setup.slave_addr, 0x1000);
    assert_eq!(
        setup.action(),
        SyncAction::WriteU8 {
            register: RegisterAddress::DcSyncActive,
            value: 0,
            context: "disable sync",
        }
    );
    setup.handle(SyncEvent::Written);
    assert_eq!(
        setup.action(),
        SyncAction::ReadU32 { register: RegisterAddress::DcSystemTime, context: "local time" }
    );
    setup.handle(SyncEvent::Read(5));
    assert_eq!(
        setup.action(),
        SyncAction::WriteU32 {
            register: RegisterAddress::DcSyncStartTime,
            value: 102_000_005,
            context: "sync start time",
        }
    );
    setup.handle(SyncEvent::Written);
    assert_eq!(
        setup.action(),
        SyncAction::WriteU32 {
            register: RegisterAddress::DcSync0CycleTime,
            value: 2_000_000,
            context: "sync cycle time",
        }
    );
    setup.handle(SyncEvent::Written);
    assert_eq!(
        setup.action(),
        SyncAction::WriteU8 {
            register: RegisterAddress::DcSyncActive,
            value: 3,
            context: "enable sync0",
        }
    );
    setup.handle(SyncEvent::Written);
    assert_eq!(setup.action(), SyncAction::Finish(Ok(())));
}

#[test]
fn synchronization_times() {
    let group = filled::<10>(&["A"], false);

    for millis in [0, 1, 4294, 4295, u64::MAX] {
        let setup = group.set_synchronization(0x1000, Some(millis), Some(millis));
        let nanos = Duration::from_millis(millis).as_nanos() as u32;

        assert_eq!(setup.cycle_time, nanos);
        assert_eq!(setup.startup_delay, nanos);
    }
}

#[test]
fn synchronization_fails() {
    let group = filled::<10>(&["A"], false);
    let mut setup = group.set_synchronization(0x1000, Some(1), Some(1));

    setup.handle(SyncEvent::Read(1));
    setup.handle(SyncEvent::Failed(Error::Timeout));
    setup.handle(SyncEvent::Written);
    assert_eq!(setup.action(), SyncAction::Finish(Err(Error::Timeout)));
}
