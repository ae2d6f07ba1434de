use core::time::Duration;
use ethercat_master::client::init::{StartupAction, StartupEvent};
use ethercat_master::client::init_slaves::{InitAction, InitEvent, SlaveInit};
use ethercat_master::client::request_state::{RequestAction, RequestEvent};
use ethercat_master::client::reset::{ResetStep, ZeroChunk};
use ethercat_master::client::services::{ReadRequest, WriteRequest};
use ethercat_master::client::wait_for_state::{WaitAction, WaitEvent};
use ethercat_master::client::{Client, ClientConfig, PduLoop, Timeouts, BASE_SLAVE_ADDR};
use ethercat_master::command::Command;
use ethercat_master::error::{wkc, Error, Item, PduError};
use ethercat_master::pdi::PdiOffset;
use ethercat_master::pdu_data::{PduData, PduRead};
use ethercat_master::register::RegisterAddress;
use ethercat_master::slave::ports::Ports;
use ethercat_master::slave::Slave;
use ethercat_master::state::{AlControl, SlaveState};

fn client(max_frame_data: usize) -> Client {
    Client::new(
        PduLoop { max_frame_data },
        Timeouts {
            pdu: Duration::from_millis(30),
            state_transition: Duration::from_millis(5000),
            wait_loop_delay: Duration::from_millis(1),
        },
        ClientConfig { dc_static_sync_iterations: 10_000 },
    )
}

fn slave(configured_address: u16) -> Slave {
    Slave { configured_address, name: "EL2004".to_string(), ports: Ports::default() }
}

/// Run a detection in which `num_slaves` slaves answer as they should, up to the clocks.
fn detect<const N: usize>(client: &mut Client, num_slaves: u16) -> SlaveInit<N> {
    let mut init = client.init_slaves::<N>();

    while let InitAction::Reset(_) = init.action(client) {
        init.handle(client, InitEvent::ResetSent);
    }
    init.handle(client, InitEvent::TypeRead { working_counter: num_slaves });
    for i in 0..num_slaves {
        init.handle(client, InitEvent::AddressSet { working_counter: 1 });
        init.handle(client, InitEvent::Created(slave(BASE_SLAVE_ADDR + i)));
    }

    init
}

fn status(state: SlaveState, error: bool, working_counter: u16) -> WaitEvent {
    WaitEvent::Status {
        status: AlControl { state, error, id_request: false },
        working_counter,
    }
}

#[test]
fn new_client() {
    let client = client(100);

    assert_eq!(client.num_slaves(), 0);
    assert_eq!(client.timeouts().pdu, Duration::from_millis(30));
    assert_eq!(client.config().dc_static_sync_iterations, 10_000);
}

#[test]
fn mailbox_counter_cycles_from_1_to_7() {
    let mut client = client(100);
    let counters: Vec<u8> = (0..15).map(|_| client.mailbox_counter()).collect();

    assert_eq!(counters, [1, 2, 3, 4, 5, 6, 7, 1, 2, 3, 4, 5, 6, 7, 1]);
}

#[test]
fn values_in_pdus() {
    assert_eq!(u8::len(), 1);
    assert_eq!(u16::len(), 2);
    assert_eq!(u32::len(), 4);
    assert_eq!(0x12u8.as_bytes(), [0x12]);
    assert_eq!(0x1234u16.as_bytes(), [0x34, 0x12]);
    assert_eq!(0x1234_5678u32.as_bytes(), [0x78, 0x56, 0x34, 0x12]);
    assert_eq!(u8::try_from_slice(&[0x12]), Some(0x12));
    assert_eq!(u16::try_from_slice(&[0x34, 0x12]), Some(0x1234));
    assert_eq!(u32::try_from_slice(&[0x78, 0x56, 0x34, 0x12]), Some(0x1234_5678));
    assert_eq!(u8::try_from_slice(&[]), None);
    assert_eq!(u16::try_from_slice(&[1, 2, 3]), None);
    assert_eq!(u32::try_from_slice(&[1, 2]), None);
    assert_eq!(<[u8; 2]>::len(), 2);
    assert_eq!([0x34u8, 0x12].as_bytes(), [0x34, 0x12]);
    assert_eq!(<[u8; 2]>::try_from_slice(&[0x34, 0x12]), Some([0x34, 0x12]));
    assert_eq!(<[u8; 2]>::try_from_slice(&[0x34]), None);
}

#[test]
fn requests() {
    let client = client(100);
    let register = 0x0130;

    assert_eq!(
        client.brd::<u16>(RegisterAddress::AlStatus),
        ReadRequest { command: Command::Brd { address: 0, register }, len: 2 }
    );
    assert_eq!(
        client.bwr(RegisterAddress::DcControlLoopParam3, 0x0c00u16),
        WriteRequest {
            command: Command::Bwr { address: 0, register: 0x0934 },
            data: vec![0x00, 0x0c],
        }
    );
    assert_eq!(
        client.aprd::<u8>(0, RegisterAddress::AlStatus).command,
        Command::Aprd { address: 0, register }
    );
    assert_eq!(
        client.aprd::<u8>(3, RegisterAddress::AlStatus).command,
        Command::Aprd { address: 0xfffd, register }
    );
    assert_eq!(
        client.apwr(1, RegisterAddress::ConfiguredStationAddress, 0x1001u16),
        WriteRequest {
            command: Command::Apwr { address: 0xffff, register: 0x0010 },
            data: vec![0x01, 0x10],
        }
    );
    assert_eq!(
        client.fprd::<u32>(0x1000, RegisterAddress::DcSystemTime),
        ReadRequest { command: Command::Fprd { address: 0x1000, register: 0x0910 }, len: 4 }
    );
    assert_eq!(
        client.fpwr(0x1000, 0x0981, 3u8),
        WriteRequest {
            command: Command::Fpwr { address: 0x1000, register: 0x0981 },
            data: vec![3],
        }
    );
    assert_eq!(
        client.frmw::<u32>(0x1000, RegisterAddress::DcSystemTime).command,
        Command::Frmw { address: 0x1000, register: 0x0910 }
    );
    assert_eq!(client.lwr(7, 1u8).command, Command::Lwr { address: 7 });
    assert_eq!(client.lrw(7, 1u8).command, Command::Lrw { address: 7 });
}

#[test]
fn responses() {
    let client = client(100);

    assert_eq!(client.decode_response::<u16>(Ok((vec![0x34, 0x12], 3))), Ok((0x1234, 3)));
    assert_eq!(
        client.decode_response::<u16>(Ok((vec![0x34], 3))),
        Err(Error::Pdu(PduError::Decode))
    );
    assert_eq!(client.decode_response::<u16>(Err(Error::Timeout)), Err(Error::Timeout));
    assert_eq!(client.bwr_response::<u16>(Ok((vec![0x34, 0x12], 3))), Ok(((), 3)));
    assert_eq!(
        client.bwr_response::<u16>(Ok((vec![], 3))),
        Err(Error::Pdu(PduError::Decode))
    );
    assert_eq!(client.bwr_response::<u16>(Err(Error::Timeout)), Err(Error::Timeout));
}

#[test]
fn echoed_write_is_read_back() {
    let client = client(100);
    let request = client.lrw(0, 0xdead_beefu32);

    assert_eq!(client.decode_response::<u32>(Ok((request.data, 3))), Ok((0xdead_beef, 3)));
}

#[test]
fn lrw_buffer() {
    let client = client(8);
    let mut value = [1, 2, 3, 4, 5, 6, 7, 8];

    assert_eq!(
        client.lrw_buf(0x100, &value),
        WriteRequest {
            command: Command::Lrw { address: 0x100 },
            data: vec![1, 2, 3, 4, 5, 6, 7, 8],
        }
    );
    assert_eq!(client.lrw_buf_response(&mut value, 4, Err(Error::Timeout)), Err(Error::Timeout));
    assert_eq!(
        client.lrw_buf_response(&mut value, 4, Ok((vec![0; 7], 3))),
        Err(Error::Pdu(PduError::Decode))
    );
    assert_eq!(value, [1, 2, 3, 4, 5, 6, 7, 8]);
    assert_eq!(
        client.lrw_buf_response(&mut value, 4, Ok((vec![11, 12, 13, 14, 15, 16, 17, 18], 3))),
        Ok(3)
    );
    assert_eq!(value, [11, 12, 13, 14, 5, 6, 7, 8]);
    assert_eq!(client.lrw_buf_response(&mut value, 0, Ok((vec![9; 8], 1))), Ok(1));
    assert_eq!(value, [11, 12, 13, 14, 5, 6, 7, 8]);
}

#[test]
fn working_counter_check() {
    assert_eq!(wkc((5u8, 2), 2, "read"), Ok(5));
    assert_eq!(
        wkc((5u8, 1), 2, "read"),
        Err(Error::WorkingCounter { expected: 2, received: 1, context: "read" })
    );
}

#[test]
fn blank_memory_in_chunks() {
    assert_eq!(
        client(100).blank_memory(0x0600, 0xff),
        [
            ZeroChunk { start: 0x0600, len: 100 },
            ZeroChunk { start: 0x0664, len: 100 },
            ZeroChunk { start: 0x06c8, len: 100 },
        ]
    );
    assert_eq!(
        client(4).blank_memory(0x0910, 8),
        [ZeroChunk { start: 0x0910, len: 4 }, ZeroChunk { start: 0x0914, len: 4 }]
    );
    assert_eq!(client(4).blank_memory(0x0910, 0), []);
    // A frame length that takes more than 16 bits loses its upper bits
    assert_eq!(
        client(0x1_0003).blank_memory(0x0910, 8),
        [ZeroChunk { start: 0x0910, len: 3 }]
    );
}

#[test]
fn blank_memory_covers_every_byte_once() {
    for step in [1, 3, 5, 127, 1000] {
        let chunks = client(step).blank_memory(0x0800, 0x7f);
        for location in 0x0800..0x087f {
            let covering = chunks
                .iter()
                .filter(|c| c.start <= location && location < c.start + c.len)
                .count();
            assert_eq!(covering, 1);
        }
    }
}

#[test]
fn reset_sequence() {
    assert_eq!(
        client(1100).reset_slaves(),
        [
            ResetStep::Control(AlControl {
                state: SlaveState::Init,
                error: true,
                id_request: false,
            }),
            ResetStep::Zeros(ZeroChunk { start: 0x0600, len: 1100 }),
            ResetStep::Zeros(ZeroChunk { start: 0x0800, len: 1100 }),
            ResetStep::Zeros(ZeroChunk { start: 0x0910, len: 1100 }),
            ResetStep::Zeros(ZeroChunk { start: 0x0920, len: 1100 }),
            ResetStep::Zeros(ZeroChunk { start: 0x0928, len: 1100 }),
            ResetStep::Write { register: RegisterAddress::DcControlLoopParam3, value: 0x0c00 },
            ResetStep::Write { register: RegisterAddress::DcControlLoopParam1, value: 0x1000 },
        ]
    );
}

#[test]
fn detection_of_two_slaves() {
    let mut client = client(1100);
    let mut init = client.init_slaves::<4>();
    let mut resets = vec![];

    while let InitAction::Reset(step) = init.action(&client) {
        resets.push(step);
        init.handle(&mut client, InitEvent::ResetSent);
    }
    assert_eq!(resets, client.reset_slaves());
    assert_eq!(
        init.action(&client),
        InitAction::ReadType(ReadRequest {
            command: Command::Brd { address: 0, register: 0 },
            len: 1,
        })
    );
    init.handle(&mut client, InitEvent::TypeRead { working_counter: 2 });
    assert_eq!(client.num_slaves(), 2);

    assert_eq!(
        init.action(&client),
        InitAction::SetStationAddress(WriteRequest {
            command: Command::Apwr { address: 0, register: 0x0010 },
            data: vec![0x00, 0x10],
        })
    );
    init.handle(&mut client, InitEvent::AddressSet { working_counter: 1 });
    assert_eq!(
        init.action(&client),
        InitAction::CreateSlave { index: 0, configured_address: 0x1000 }
    );
    init.handle(&mut client, InitEvent::Created(slave(0x1000)));

    assert_eq!(
        init.action(&client),
        InitAction::SetStationAddress(WriteRequest {
            command: Command::Apwr { address: 0xffff, register: 0x0010 },
            data: vec![0x01, 0x10],
        })
    );
    init.handle(&mut client, InitEvent::AddressSet { working_counter: 1 });
    assert_eq!(
        init.action(&client),
        InitAction::CreateSlave { index: 1, configured_address: 0x1001 }
    );
    // An event that does not belong to the action changes nothing
    init.handle(&mut client, InitEvent::Synchronised);
    init.handle(&mut client, InitEvent::Created(slave(0x1001)));

    assert_eq!(init.action(&client), InitAction::ConfigureDc);
    assert_eq!(init.known_slaves(), [slave(0x1000), slave(0x1001)]);
    init.known_slaves()[1].ports.0[0].active = true;
    init.handle(&mut client, InitEvent::DcConfigured { master: Some(1) });
    assert_eq!(
        init.action(&client),
        InitAction::StaticSync { master: 1, iterations: 10_000 }
    );
    init.handle(&mut client, InitEvent::Synchronised);
    assert_eq!(init.action(&client), InitAction::Finish(Ok(())));
    assert!(init.known_slaves()[1].ports.0[0].active);
}

#[test]
fn detection_without_clocks_or_slaves() {
    let mut client = client(1100);
    let mut init = detect::<4>(&mut client, 0);

    assert_eq!(init.action(&client), InitAction::ConfigureDc);
    init.handle(&mut client, InitEvent::DcConfigured { master: None });
    assert_eq!(init.action(&client), InitAction::Finish(Ok(())));
    assert_eq!(init.known_slaves(), []);
}

#[test]
fn detection_fills_the_list() {
    let mut client = client(1100);
    let mut init = detect::<4>(&mut client, 4);

    assert_eq!(init.action(&client), InitAction::ConfigureDc);
    assert_eq!(
        init.known_slaves(),
        [slave(0x1000), slave(0x1001), slave(0x1002), slave(0x1003)]
    );
}

#[test]
fn detection_of_too_many_slaves() {
    let mut client = client(1100);
    let init = detect::<4>(&mut client, 5);

    assert_eq!(
        init.action(&client),
        InitAction::Finish(Err(Error::Capacity(Item::Slave)))
    );
    assert_eq!(client.num_slaves(), 5);
}

#[test]
fn detection_fails() {
    let mut client = client(1100);
    let mut init = client.init_slaves::<4>();
    init.handle(&mut client, InitEvent::Failed(Error::Timeout));
    assert_eq!(init.action(&client), InitAction::Finish(Err(Error::Timeout)));
    init.handle(&mut client, InitEvent::ResetSent);
    assert_eq!(init.action(&client), InitAction::Finish(Err(Error::Timeout)));

    let mut init = client.init_slaves::<4>();
    while let InitAction::Reset(_) = init.action(&client) {
        init.handle(&mut client, InitEvent::ResetSent);
    }
    init.handle(&mut client, InitEvent::TypeRead { working_counter: 1 });
    init.handle(&mut client, InitEvent::AddressSet { working_counter: 0 });
    assert_eq!(
        init.action(&client),
        InitAction::Finish(Err(Error::WorkingCounter {
            expected: 1,
            received: 0,
            context: "set station address",
        }))
    );
}

#[test]
fn wait_until_state_is_reached() {
    let mut client = client(1100);
    detect::<4>(&mut client, 2);
    let mut wait = client.wait_for_state(SlaveState::SafeOp);

    assert_eq!(
        wait.action(),
        WaitAction::ReadStatus(Command::Brd { address: 0, register: 0x0130 })
    );
    wait.handle(status(SlaveState::PreOp, false, 2));
    assert_eq!(wait.action(), WaitAction::LoopTick);
    wait.handle(WaitEvent::Tick);
    wait.handle(status(SlaveState::SafeOp, false, 2));
    assert_eq!(wait.action(), WaitAction::Finish(Ok(())));
    wait.handle(WaitEvent::Failed(Error::Timeout));
    assert_eq!(wait.action(), WaitAction::Finish(Ok(())));
}

#[test]
fn wait_reads_status_codes_on_error() {
    let mut client = client(1100);
    detect::<4>(&mut client, 2);
    let mut wait = client.wait_for_state(SlaveState::SafeOp);

    wait.handle(status(SlaveState::SafeOp, true, 2));
    assert_eq!(
        wait.action(),
        WaitAction::ReadStatusCode {
            slave_addr: 0x1000,
            command: Command::Fprd { address: 0x1000, register: 0x0134 },
        }
    );
    wait.handle(WaitEvent::StatusCode);
    assert_eq!(
        wait.action(),
        WaitAction::ReadStatusCode {
            slave_addr: 0x1001,
            command: Command::Fprd { address: 0x1001, register: 0x0134 },
        }
    );
    wait.handle(WaitEvent::StatusCode);
    assert_eq!(wait.action(), WaitAction::Finish(Err(Error::StateTransition)));
}

#[test]
fn wait_fails() {
    let mut client = client(1100);
    detect::<4>(&mut client, 2);

    let mut wait = client.wait_for_state(SlaveState::Op);
    wait.handle(status(SlaveState::Op, false, 1));
    assert_eq!(
        wait.action(),
        WaitAction::Finish(Err(Error::WorkingCounter {
            expected: 2,
            received: 1,
            context: "read all slaves state",
        }))
    );

    let mut wait = client.wait_for_state(SlaveState::Op);
    wait.handle(WaitEvent::Failed(Error::Timeout));
    assert_eq!(wait.action(), WaitAction::Finish(Err(Error::Timeout)));
}

#[test]
fn wait_without_slaves_reads_no_status_code() {
    let mut wait = client(1100).wait_for_state(SlaveState::Op);

    wait.handle(status(SlaveState::Op, true, 0));
    assert_eq!(wait.action(), WaitAction::Finish(Err(Error::StateTransition)));
}

#[test]
fn request_of_a_state() {
    let mut client = client(1100);
    detect::<4>(&mut client, 2);
    let mut request = client.request_slave_state(SlaveState::Op);

    assert_eq!(
        request.action(),
        RequestAction::WriteControl {
            command: Command::Bwr { address: 0, register: 0x0120 },
            control: AlControl { state: SlaveState::Op, error: false, id_request: false },
        }
    );
    request.handle(RequestEvent::ControlWritten { working_counter: 2 });
    assert_eq!(
        request.action(),
        RequestAction::Wait(WaitAction::ReadStatus(Command::Brd { address: 0, register: 0x0130 }))
    );
    request.handle(RequestEvent::Wait(status(SlaveState::Op, false, 2)));
    assert_eq!(request.action(), RequestAction::Wait(WaitAction::Finish(Ok(()))));
}

#[test]
fn request_of_a_state_fails() {
    let mut client = client(1100);
    detect::<4>(&mut client, 2);

    let mut request = client.request_slave_state(SlaveState::Op);
    request.handle(RequestEvent::ControlWritten { working_counter: 1 });
    assert_eq!(
        request.action(),
        RequestAction::Wait(WaitAction::Finish(Err(Error::WorkingCounter {
            expected: 2,
            received: 1,
            context: "set all slaves state",
        })))
    );

    let mut request = client.request_slave_state(SlaveState::Op);
    request.handle(RequestEvent::Wait(WaitEvent::Failed(Error::Timeout)));
    assert_eq!(
        request.action(),
        RequestAction::Wait(WaitAction::Finish(Err(Error::Timeout)))
    );
}

#[test]
fn startup_in_order() {
    let mut startup = client(1100).init();
    let mut actions = vec![];

    while !matches!(startup.action(), StartupAction::Finish(_)) {
        actions.push(startup.action());
        startup.handle(StartupEvent::Done);
    }

    assert_eq!(
        actions,
        [
            StartupAction::DetectSlaves,
            StartupAction::ConfigureGroups { start_offset: PdiOffset { start_address: 0 } },
            StartupAction::WaitForState(SlaveState::SafeOp),
        ]
    );
    assert_eq!(startup.action(), StartupAction::Finish(Ok(())));
}

#[test]
fn advanced_startup_in_order() {
    let mut startup = client(1100).advanced_init();
    let mut actions = vec![];

    while !matches!(startup.action(), StartupAction::Finish(_)) {
        actions.push(startup.action());
        startup.handle(StartupEvent::Done);
    }

    assert_eq!(
        actions,
        [
            StartupAction::DetectSlaves,
            StartupAction::PostInit,
            StartupAction::ConfigureGroups { start_offset: PdiOffset { start_address: 0 } },
            StartupAction::PostConfig,
            StartupAction::WaitForState(SlaveState::SafeOp),
        ]
    );
    assert_eq!(startup.action(), StartupAction::Finish(Ok(())));
}

#[test]
fn startup_ends_with_the_first_failure() {
    for steps in 0..3 {
        let mut startup = client(1100).init();
        for _ in 0..steps {
            startup.handle(StartupEvent::Done);
        }
        startup.handle(StartupEvent::Failed(Error::Timeout));
        startup.handle(StartupEvent::Done);

        assert_eq!(startup.action(), StartupAction::Finish(Err(Error::Timeout)));
    }
}
