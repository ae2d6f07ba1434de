use ethercat_master::slave::ports::{Port, Ports, Topology};

const ENTRY_RECEIVE: u32 = 1234;

fn make_ports(active0: bool, active3: bool, active1: bool, active2: bool) -> Ports {
    Ports([
        Port {
            active: active0,
            number: 0,
            dc_receive_time: ENTRY_RECEIVE,
            ..Port::default()
        },
        Port {
            active: active3,
            number: 3,
            dc_receive_time: ENTRY_RECEIVE + 100,
            ..Port::default()
        },
        Port {
            active: active1,
            number: 1,
            dc_receive_time: ENTRY_RECEIVE + 200,
            ..Port::default()
        },
        Port {
            active: active2,
            number: 2,
            dc_receive_time: ENTRY_RECEIVE + 300,
            ..Port::default()
        },
    ])
}

#[test]
fn open_ports() {
    // EK1100 with children attached to port 3 and downstream devices on port 1
    let ports = make_ports(true, true, true, false);
    // Normal slave has no children, so no child delay
    let passthrough = make_ports(true, true, false, false);

    assert_eq!(ports.open_ports(), 3);
    assert_eq!(passthrough.open_ports(), 2);
}

#[test]
fn topologies() {
    let passthrough = make_ports(true, true, false, false);
    let passthrough_skip_port = make_ports(true, false, true, false);
    let fork = make_ports(true, true, true, false);
    let line_end = make_ports(true, false, false, false);

    assert_eq!(passthrough.topology(), Topology::Passthrough);
    assert_eq!(passthrough_skip_port.topology(), Topology::Passthrough);
    assert_eq!(fork.topology(), Topology::Fork);
    assert_eq!(line_end.topology(), Topology::LineEnd);
}

#[test]
fn entry_port() {
    // EK1100 with children attached to port 3 and downstream devices on port 1
    let ports = make_ports(true, true, true, false);

    assert_eq!(
        ports.entry_port(),
        Some(Port {
            active: true,
            number: 0,
            dc_receive_time: ENTRY_RECEIVE,
            ..Port::default()
        })
    );
}

#[test]
fn propagation_time() {
    // Passthrough slave
    let ports = make_ports(true, true, false, false);

    assert_eq!(ports.propagation_time(), Some(100));
}

#[test]
fn child_delay() {
    // EK1100 with children attached to port 3 and downstream devices on port 1
    let ports = make_ports(true, true, true, false);
    // Normal slave has no children, so no child delay
    let passthrough = make_ports(true, true, false, false);

    assert_eq!(ports.child_delay(), Some(100));
    assert_eq!(passthrough.child_delay(), None);
}

#[test]
fn assign_downstream_port() {
    let mut ports = make_ports(true, true, true, false);

    let port_number = ports.assign_next_downstream_port(1);

    assert_eq!(port_number, Some(3), "assign slave idx 1");

    let port_number = ports.assign_next_downstream_port(2);

    assert_eq!(port_number, Some(1), "assign slave idx 2");
}

#[test]
fn prev_open_port() {
    let ports = make_ports(true, true, true, false);

    let start_port = &ports.0[2];

    let start_port = ports.prev_open_port(&start_port);

    assert_eq!(
        start_port,
        Some(&Port {
            active: true,
            number: 3,
            dc_receive_time: ENTRY_RECEIVE + 100,
            ..Port::default()
        }),
        "first previous port"
    );

    let start_port = ports.prev_open_port(start_port.unwrap());

    assert_eq!(
        start_port,
        Some(&Port {
            active: true,
            number: 0,
            dc_receive_time: ENTRY_RECEIVE,
            ..Port::default()
        }),
        "second previous port"
    );

    let start_port = ports.prev_open_port(start_port.unwrap());

    assert_eq!(
        start_port,
        Some(&Port {
            active: true,
            number: 1,
            dc_receive_time: ENTRY_RECEIVE + 200,
            ..Port::default()
        }),
        "third previous port"
    );
}

#[test]
fn default_ports_are_closed() {
    let ports = Ports::default();

    assert_eq!(ports.open_ports(), 0);
    assert_eq!(ports.entry_port(), None);
    assert_eq!(ports.last_port(), None);
    assert_eq!(ports.propagation_time(), None);
    assert_eq!(ports.next_open_port(&ports.0[0]), None);
    assert_eq!(ports.prev_open_port(&ports.0[0]), None);
    assert!(!ports.is_last_port(&ports.0[0]));
}

#[test]
fn ties_in_receive_time() {
    let mut ports = make_ports(true, true, true, true);
    for port in ports.0.iter_mut() {
        port.dc_receive_time = 7;
    }

    assert_eq!(ports.entry_port(), Some(ports.0[0]));
    assert_eq!(ports.last_port(), Some(ports.0[3]));
    assert_eq!(ports.propagation_time(), None);
}

#[test]
fn last_port_is_recognised() {
    let ports = make_ports(true, true, true, false);

    assert!(ports.is_last_port(&ports.0[2]));
    assert!(!ports.is_last_port(&ports.0[0]));
    assert!(!ports.is_last_port(&ports.0[3]));
}

#[test]
fn next_and_prev_undo_each_other() {
    let ports = make_ports(true, false, true, true);

    for i in [0, 2, 3] {
        let next = ports.next_open_port(&ports.0[i]).unwrap();
        assert_eq!(ports.prev_open_port(next), Some(&ports.0[i]));
    }
    assert_eq!(ports.next_open_port(&ports.0[0]), Some(&ports.0[2]));
}

#[test]
fn assignment_keeps_traffic_and_ends() {
    let before = make_ports(true, true, true, false);
    let mut ports = before;

    assert_eq!(ports.assign_next_downstream_port(1), Some(3));
    assert_eq!(ports.0[1].downstream_to, Some(1));
    assert_eq!(ports.entry_port().unwrap().number, 0);
    assert_eq!(ports.child_delay(), before.child_delay());
    assert_eq!(ports.propagation_time(), before.propagation_time());

    assert_eq!(ports.assign_next_downstream_port(2), Some(1));
    // Only the entry port is left
    assert_eq!(ports.assign_next_downstream_port(3), Some(0));
    assert_eq!(ports.0[0].downstream_to, Some(3));

    let full = ports;
    assert_eq!(ports.assign_next_downstream_port(4), None);
    assert_eq!(ports, full);
    assert_eq!(ports.0[3], before.0[3]);
}

#[test]
fn no_assignable_port() {
    let mut closed = make_ports(false, false, false, false);
    let port = closed.0[0];
    assert_eq!(closed.next_assignable_port(&port), None);

    let mut ports = make_ports(true, false, false, false);
    ports.0[0].downstream_to = Some(1);
    let port = ports.0[0];
    assert_eq!(ports.next_assignable_port(&port), None);
}

#[test]
fn child_delay_of_a_fork_only() {
    assert_eq!(make_ports(false, false, false, false).child_delay(), None);
    assert_eq!(make_ports(true, false, false, false).child_delay(), None);
    assert_eq!(make_ports(true, false, true, false).child_delay(), None);
    assert_eq!(make_ports(true, false, true, true).child_delay(), Some(200));
    assert_eq!(make_ports(true, true, true, true).child_delay(), None);
}

#[test]
fn next_assignable_port_is_writable() {
    let mut ports = make_ports(true, true, true, false);
    let entry = ports.0[0];

    ports.next_assignable_port(&entry).unwrap().downstream_to = Some(9);

    assert_eq!(ports.0[1].downstream_to, Some(9));
}

#[test]
fn port_index_follows_frame_order() {
    let ports = make_ports(true, true, true, true);

    for i in 0..4 {
        assert_eq!(ports.0[i].index(), i);
    }
}
