//! The four ports of a slave device and what their states and receive times say of the topology.

use vstd::prelude::*;

verus! {

/// Flags showing which ports are active or not on the slave.
#[derive(Debug, PartialEq, Eq, Structural, Copy, Clone)]
pub struct Port {
    pub active: bool,
    pub dc_receive_time: u32,
    /// The EtherCAT port number, ordered as 0 -> 3 -> 1 -> 2.
    pub number: usize,
    /// Holds the index of the downstream slave this port is connected to.
    pub downstream_to: Option<usize>,
}

impl Default for Port {
    /// An inactive port with number 0, receive time 0 and no downstream slave.
    fn default() -> (port: Self)
        ensures
            port == (Port { active: false, dc_receive_time: 0, number: 0, downstream_to: None }),
    {
        Port { active: false, dc_receive_time: 0, number: 0, downstream_to: None }
    }
}

/// The position that a port number takes in the order 0 -> 3 -> 1 -> 2.
pub open spec fn position(number: usize) -> int {
    if number == 0 {
        0
    } else if number == 3 {
        1
    } else if number == 1 {
        2
    } else {
        3
    }
}

impl Port {
    /// The position of this port in the order in which a frame visits the ports.
    pub fn index(&self) -> (index: usize)
        requires
            self.number < 4,
        ensures
            index == position(self.number),
            index < 4,
    {
        match self.number {
            0 => 0,
            3 => 1,
            1 => 2,
            _ => 3,
        }
    }
}

/// How a slave device is linked into the network.
#[derive(Debug, PartialEq, Eq, Structural, Copy, Clone)]
pub enum Topology {
    /// The slave device has two open ports, with only upstream and downstream slaves.
    Passthrough,
    /// The slave device is the last device in its fork of the topology tree, with only one open
    /// port.
    LineEnd,
    /// The slave device forms a fork in the topology, with 3 open ports.
    Fork,
}

/// The four ports of a slave device, in the order in which a frame visits them.
#[derive(Copy, Clone, Debug, PartialEq)]
pub struct Ports(pub [Port; 4]);

impl Default for Ports {
    /// Four default ports.
    fn default() -> (ports: Self)
        ensures
            forall|i: int| 0 <= i < 4 ==> #[trigger] ports.0@[i] == (Port {
                active: false,
                dc_receive_time: 0,
                number: 0,
                downstream_to: None,
            }),
    {
        Ports([Port::default(), Port::default(), Port::default(), Port::default()])
    }
}

/// How many ports lie between position `from` and position `to` when walking forwards, counting
/// `to` itself. Walking from a position to itself takes a full round.
pub open spec fn steps(from: int, to: int) -> int {
    if to > from {
        to - from
    } else {
        to - from + 4
    }
}

impl Ports {
    /// The port at position `i` is open.
    pub open spec fn open(self, i: int) -> bool {
        0 <= i < 4 && self.0@[i].active
    }

    /// The port at position `i` is open and leads to no slave yet.
    pub open spec fn free(self, i: int) -> bool {
        self.open(i) && self.0@[i].downstream_to is None
    }

    /// The receive time of the port at position `i`.
    pub open spec fn time(self, i: int) -> int {
        self.0@[i].dc_receive_time as int
    }

    /// 1 if the port at position `i` is open, 0 otherwise.
    pub open spec fn open_bit(self, i: int) -> nat {
        if self.open(i) {
            1
        } else {
            0
        }
    }

    /// The number of open ports.
    pub open spec fn open_count(self) -> nat {
        self.open_bit(0) + self.open_bit(1) + self.open_bit(2) + self.open_bit(3)
    }

    /// Position `i` holds the open port with the earliest receive time, and the first such port
    /// where several share that time.
    pub open spec fn is_entry(self, i: int) -> bool {
        &&& self.open(i)
        &&& forall|j: int| #[trigger]
            self.open(j) ==> self.time(i) <= self.time(j) && (j < i ==> self.time(i) < self.time(j))
    }

    /// Position `i` holds the open port with the latest receive time, and the last such port where
    /// several share that time.
    pub open spec fn is_last(self, i: int) -> bool {
        &&& self.open(i)
        &&& forall|j: int| #[trigger]
            self.open(j) ==> self.time(j) <= self.time(i) && (i < j ==> self.time(j) < self.time(i))
    }

    /// Position `n` is the first open one after position `from`, walking forwards for at most one
    /// round.
    pub open spec fn is_next_open(self, from: int, n: int) -> bool {
        &&& self.open(n)
        &&& forall|j: int| #[trigger] self.open(j) ==> steps(from, n) <= steps(from, j)
    }

    /// Position `n` is the first open one before position `from`, walking backwards for at most one
    /// round.
    pub open spec fn is_prev_open(self, from: int, n: int) -> bool {
        &&& self.open(n)
        &&& forall|j: int| #[trigger] self.open(j) ==> steps(n, from) <= steps(j, from)
    }

    /// Position `n` is the first free one after position `from`, walking forwards for at most one
    /// round.
    pub open spec fn is_next_assignable(self, from: int, n: int) -> bool {
        &&& self.free(n)
        &&& forall|j: int| #[trigger] self.free(j) ==> steps(from, n) <= steps(from, j)
    }

    /// The entry port, where there is one, carries one of the four port numbers.
    pub open spec fn entry_is_numbered(self) -> bool {
        forall|i: int| #[trigger] self.is_entry(i) ==> self.0@[i].number < 4
    }

    /// The ports carry the numbers that belong to their positions: 0, 3, 1, 2.
    pub open spec fn is_numbered(self) -> bool {
        forall|i: int| 0 <= i < 4 ==> (#[trigger] self.0@[i]).number < 4 && position(self.0@[i].number) == i
    }

    /// The number of open ports.
    pub fn open_ports(&self) -> (count: u8)
        ensures
            count == self.open_count(),
    {
        let mut count: u8 = 0;

        for i in 0..4usize
            invariant
                count <= i,
                i == 0 ==> count == 0,
                i == 1 ==> count == self.open_bit(0),
                i == 2 ==> count == self.open_bit(0) + self.open_bit(1),
                i == 3 ==> count == self.open_bit(0) + self.open_bit(1) + self.open_bit(2),
                i == 4 ==> count == self.open_count(),
        {
            if self.0[i].active {
                count = count + 1;
            }
        }

        count
    }

    /// The port of the slave that first sees EtherCAT traffic.
    ///
    /// Returns `None` if no port is open. Of ports with the same receive time the first one counts.
    pub fn entry_port(&self) -> (entry: Option<Port>)
        ensures
            entry matches Some(port) ==> exists|i: int|
                #![trigger self.is_entry(i)]
                self.is_entry(i) && port == self.0@[i],
            entry is None ==> forall|i: int| !self.open(i),
    {
        let mut entry: Option<usize> = None;

        for i in 0..4usize
            invariant
                entry matches Some(e) ==> e < i && self.open(e as int) && forall|j: int|
                    j < i && #[trigger] self.open(j) ==> self.time(e as int) <= self.time(j) && (j
                        < e ==> self.time(e as int) < self.time(j)),
                entry is None ==> forall|j: int| j < i ==> !self.open(j),
        {
            if self.0[i].active {
                assert(self.open(i as int));
                match entry {
                    Some(e) => if self.0[i].dc_receive_time < self.0[e].dc_receive_time {
                        entry = Some(i);
                    },
                    None => {
                        entry = Some(i);
                    },
                }
            }
        }

        match entry {
            Some(e) => {
                assert(self.is_entry(e as int));
                Some(self.0[e])
            },
            None => None,
        }
    }

    /// The port of the slave that last sees EtherCAT traffic.
    ///
    /// Returns `None` if no port is open. Of ports with the same receive time the last one counts.
    pub fn last_port(&self) -> (last: Option<Port>)
        ensures
            last matches Some(port) ==> exists|i: int|
                #![trigger self.is_last(i)]
                self.is_last(i) && port == self.0@[i],
            last is None ==> forall|i: int| !self.open(i),
    {
        let mut last: Option<usize> = None;

        for i in 0..4usize
            invariant
                last matches Some(e) ==> e < i && self.open(e as int) && forall|j: int|
                    j < i && #[trigger] self.open(j) ==> self.time(j) <= self.time(e as int) && (e
                        < j ==> self.time(j) < self.time(e as int)),
                last is None ==> forall|j: int| j < i ==> !self.open(j),
        {
            if self.0[i].active {
                assert(self.open(i as int));
                match last {
                    Some(e) => if self.0[i].dc_receive_time >= self.0[e].dc_receive_time {
                        last = Some(i);
                    },
                    None => {
                        last = Some(i);
                    },
                }
            }
        }

        match last {
            Some(e) => {
                assert(self.is_last(e as int));
                Some(self.0[e])
            },
            None => None,
        }
    }

    /// Find the next port that hasn't already been assigned as the upstream port of another slave.
    ///
    /// The walk starts after `port` and ends with `port` itself. Returns `None` if every open port has
    /// been assigned.
    pub fn next_assignable_port(&mut self, port: &Port) -> (next: Option<&mut Port>)
        requires
            port.number < 4,
        ensures
            next is None <==> forall|i: int| !old(self).free(i),
            next is None ==> *final(self) == *old(self),
            next matches Some(p) ==> exists|n: int|
                #![trigger old(self).is_next_assignable(position(port.number), n)]
                old(self).is_next_assignable(position(port.number), n) && *p == old(self).0@[n]
                    && final(self).0@ == old(self).0@.update(n, *final(p)),
    {
        let start: usize = port.index();
        let mut index: usize = start;
        let mut found: bool = false;
        let mut k: usize = 0;

        while k < 4 && !found
            invariant
                *self == *old(self),
                start == position(port.number),
                start < 4,
                k <= 4,
                index == (start + k) % 4,
                found ==> self.free(index as int) && k >= 1 && forall|j: int| #[trigger]
                    self.free(j) ==> k <= steps(start as int, j),
                !found ==> forall|j: int| #[trigger] self.free(j) ==> k < steps(start as int, j),
            decreases 4 - k + if found { 0int } else { 1 },
        {
            index = (index + 1) % 4;
            k = k + 1;

            let next_port = self.0[index];
            assert forall|j: int| #[trigger] self.free(j) implies k <= steps(start as int, j) && (j
                == index <==> steps(start as int, j) == k) by {
                assert(0 <= j < 4);
            }

            if next_port.active && next_port.downstream_to.is_none() {
                assert(self.free(index as int));
                found = true;
            }
        }

        if found {
            assert(steps(start as int, index as int) == k);
            assert(self.is_next_assignable(position(port.number), index as int));
            Some(&mut self.0[index])
        } else {
            assert forall|j: int| !self.free(j) by {
                assert(self.free(j) ==> 4 < steps(start as int, j));
            }
            None
        }
    }

    /// Find the next open port after the given port.
    ///
    /// The walk ends with the given port itself. Returns `None` if no port is open.
    pub fn next_open_port(&self, port: &Port) -> (next: Option<&Port>)
        requires
            port.number < 4,
        ensures
            next matches Some(p) ==> exists|n: int|
                #![trigger self.is_next_open(position(port.number), n)]
                self.is_next_open(position(port.number), n) && *p == self.0@[n],
            next is None ==> forall|i: int| !self.open(i),
    {
        let start: usize = port.index();
        let mut index: usize = start;

        for k in 0..4usize
            invariant
                start == position(port.number),
                start < 4,
                index == (start + k) % 4,
                forall|j: int| #[trigger] self.open(j) ==> k < steps(start as int, j),
        {
            index = (index + 1) % 4;

            assert forall|j: int| #[trigger] self.open(j) implies (j == index <==> steps(
                start as int,
                j,
            ) == k + 1) by {
                assert(0 <= j < 4);
            }

            let next_port = &self.0[index];

            if next_port.active {
                assert(self.open(index as int));
                assert(self.is_next_open(start as int, index as int));
                return Some(next_port);
            }
        }

        None
    }

    /// Find the first open port before the given port.
    ///
    /// The walk ends with the given port itself. Returns `None` if no port is open.
    pub fn prev_open_port(&self, port: &Port) -> (prev: Option<&Port>)
        requires
            port.number < 4,
        ensures
            prev matches Some(p) ==> exists|n: int|
                #![trigger self.is_prev_open(position(port.number), n)]
                self.is_prev_open(position(port.number), n) && *p == self.0@[n],
            prev is None ==> forall|i: int| !self.open(i),
    {
        let start: usize = port.index();
        let mut index: usize = start;

        for k in 0..4usize
            invariant
                start == position(port.number),
                start < 4,
                index == (start + 4 - k) % 4,
                forall|j: int| #[trigger] self.open(j) ==> k < steps(j, start as int),
        {
            index = if index == 0 {
                3
            } else {
                index - 1
            };

            assert forall|j: int| #[trigger] self.open(j) implies (j == index <==> steps(
                j,
                start as int,
            ) == k + 1) by {
                assert(0 <= j < 4);
            }

            let prev_port = &self.0[index];

            if prev_port.active {
                assert(self.open(index as int));
                assert(self.is_prev_open(start as int, index as int));
                return Some(prev_port);
            }
        }

        None
    }

    /// Link a downstream device to the current device using the next open port from the entry port.
    ///
    /// Returns the number of the port that now leads to the slave with the given index, or `None` if
    /// every open port leads to a slave already. Nothing changes then.
    pub fn assign_next_downstream_port(&mut self, downstream_slave_index: usize) -> (number: Option<
        usize,
    >)
        requires
            old(self).open_count() > 0,
            old(self).entry_is_numbered(),
        ensures
            number is None <==> forall|i: int| !old(self).free(i),
            number is None ==> *final(self) == *old(self),
            number matches Some(m) ==> exists|e: int, n: int|
                #![trigger old(self).is_entry(e), old(self).is_next_assignable(
                    position(old(self).0@[e].number),
                    n,
                )]
                old(self).is_entry(e) && old(self).is_next_assignable(
                    position(old(self).0@[e].number),
                    n,
                ) && m == old(self).0@[n].number && final(self).0@ == old(self).0@.update(
                    n,
                    Port { downstream_to: Some(downstream_slave_index), ..old(self).0@[n] },
                ),
    {
        let entry_port = match self.entry_port() {
            Some(port) => port,
            None => {
                assert(!self.open(0) && !self.open(1) && !self.open(2) && !self.open(3));
                return None;
            },
        };

        match self.next_assignable_port(&entry_port) {
            Some(next_port) => {
                next_port.downstream_to = Some(downstream_slave_index);

                Some(next_port.number)
            },
            None => None,
        }
    }

    /// How this device is linked into the network, by its number of open ports.
    pub fn topology(&self) -> (topology: Topology)
        requires
            1 <= self.open_count() <= 3,
        ensures
            topology == Topology::LineEnd <==> self.open_count() == 1,
            topology == Topology::Passthrough <==> self.open_count() == 2,
            topology == Topology::Fork <==> self.open_count() == 3,
    {
        match self.open_ports() {
            1 => Topology::LineEnd,
            2 => Topology::Passthrough,
            _ => Topology::Fork,
        }
    }

    /// Whether the given port is the one that last sees EtherCAT traffic.
    pub fn is_last_port(&self, port: &Port) -> (is_last: bool)
        ensures
            is_last == exists|i: int| #[trigger] self.is_last(i) && self.0@[i] == *port,
    {
        match self.last_port() {
            Some(last) => {
                proof {
                    let l = choose|i: int| #[trigger] self.is_last(i) && last == self.0@[i];
                    assert forall|i: int| #[trigger] self.is_last(i) implies i == l by {
                        assert(self.open(i) && self.open(l));
                    }
                }
                last == *port
            },
            None => false,
        }
    }

    /// If the current node is a fork in the network, compute the propagation delay of all the
    /// children.
    ///
    /// Returns `None` if the current node is not a fork.
    pub fn child_delay(&self) -> (delay: Option<u32>)
        requires
            self.open_count() == 3 ==> self.entry_is_numbered(),
        ensures
            delay is Some <==> self.open_count() == 3,
            delay matches Some(d) ==> exists|e: int, n: int|
                #![trigger self.is_entry(e), self.is_next_open(position(self.0@[e].number), n)]
                self.is_entry(e) && self.is_next_open(position(self.0@[e].number), n) && d
                    == self.time(n) - self.time(e),
    {
        // A fork has 3 open ports
        if self.open_ports() == 3 {
            assert(self.open(0) || self.open(1));
            let input_port = match self.entry_port() {
                Some(port) => port,
                None => return None,
            };

            // Because this is a fork, the slave's children will always be attached to the next open
            // port after the input.
            let children_port = match self.next_open_port(&input_port) {
                Some(port) => port,
                None => return None,
            };

            Some(children_port.dc_receive_time - input_port.dc_receive_time)
        } else {
            None
        }
    }

    /// The time in nanoseconds for a packet to completely traverse all active ports of a slave
    /// device.
    ///
    /// Returns `None` if no port is open or if all open ports have the same receive time.
    pub fn propagation_time(&self) -> (time: Option<u32>)
        ensures
            time matches Some(t) ==> t > 0 && exists|e: int, l: int|
                #![trigger self.is_entry(e), self.is_last(l)]
                self.is_entry(e) && self.is_last(l) && t == self.time(l) - self.time(e),
            time is None ==> forall|e: int, l: int| #[trigger]
                self.is_entry(e) && #[trigger] self.is_last(l) ==> self.time(l) == self.time(e),
    {
        let mut range: Option<(usize, usize)> = None;

        for i in 0..4usize
            invariant
                range matches Some((min, max)) ==> min < i && max < i && self.open(min as int)
                    && self.open(max as int) && forall|j: int|
                    j < i && #[trigger] self.open(j) ==> self.time(min as int) <= self.time(j)
                        <= self.time(max as int) && (j < min ==> self.time(min as int) < self.time(
                        j,
                    )) && (max < j ==> self.time(j) < self.time(max as int)),
                range is None ==> forall|j: int| j < i ==> !self.open(j),
        {
            if self.0[i].active {
                assert(self.open(i as int));
                match range {
                    Some((min, max)) => {
                        let time: u32 = self.0[i].dc_receive_time;
                        let min: usize = if time < self.0[min].dc_receive_time {
                            i
                        } else {
                            min
                        };
                        let max: usize = if time >= self.0[max].dc_receive_time {
                            i
                        } else {
                            max
                        };
                        range = Some((min, max));
                    },
                    None => {
                        range = Some((i, i));
                    },
                }
            }
        }

        match range {
            Some((min, max)) => {
                assert(self.is_entry(min as int) && self.is_last(max as int));
                proof {
                    self.lemma_entry_and_last_are_unique();
                }
                let time: u32 = self.0[max].dc_receive_time - self.0[min].dc_receive_time;

                if time > 0 {
                    Some(time)
                } else {
                    None
                }
            },
            None => None,
        }
    }

    /// A device has at most one entry port and at most one last port.
    pub proof fn lemma_entry_and_last_are_unique(self)
        ensures
            forall|i: int, j: int| #[trigger] self.is_entry(i) && #[trigger] self.is_entry(j) ==> i == j,
            forall|i: int, j: int| #[trigger] self.is_last(i) && #[trigger] self.is_last(j) ==> i == j,
    {
        assert forall|i: int, j: int| #[trigger] self.is_entry(i) && #[trigger] self.is_entry(
            j,
        ) implies i == j by {
            assert(self.open(i) && self.open(j));
        }
        assert forall|i: int, j: int| #[trigger] self.is_last(i) && #[trigger] self.is_last(
            j,
        ) implies i == j by {
            assert(self.open(i) && self.open(j));
        }
    }

    /// A device with an open port has an entry port and a last port.
    pub proof fn law_open_device_has_entry_and_last(self)
        requires
            self.open_count() > 0,
        ensures
            exists|e: int| self.is_entry(e),
            exists|l: int| self.is_last(l),
    {
        let first = if self.open(0) {
            0int
        } else if self.open(1) {
            1
        } else if self.open(2) {
            2
        } else {
            3
        };
        assert(self.open(first));
        let e1 = self.earlier_of(first, 1);
        let e2 = self.earlier_of(e1, 2);
        let e = self.earlier_of(e2, 3);
        assert(self.is_entry(e));
        let l1 = self.later_of(first, 1);
        let l2 = self.later_of(l1, 2);
        let l = self.later_of(l2, 3);
        assert(self.is_last(l));
    }

    spec fn earlier_of(self, best: int, i: int) -> int {
        if self.open(i) && self.time(i) < self.time(best) {
            i
        } else {
            best
        }
    }

    spec fn later_of(self, best: int, i: int) -> int {
        if self.open(i) && self.time(i) >= self.time(best) {
            i
        } else {
            best
        }
    }

    /// Walking back from the next open port of an open port leads to that port again, and walking
    /// forwards from its previous open port does too.
    pub proof fn law_prev_and_next_open_port_undo_each_other(self, i: int, n: int)
        requires
            self.is_numbered(),
            self.open(i),
            self.open(n),
        ensures
            self.is_next_open(position(self.0@[i].number), n) <==> self.is_prev_open(
                position(self.0@[n].number),
                i,
            ),
    {
        assert(position(self.0@[i].number) == i);
        assert(position(self.0@[n].number) == n);
        if self.is_next_open(i, n) {
            assert forall|j: int| #[trigger] self.open(j) implies steps(i, n) <= steps(j, n) by {
                assert(steps(i, n) <= steps(i, j));
                assert(0 <= j < 4);
            }
        }
        if self.is_prev_open(n, i) {
            assert forall|j: int| #[trigger] self.open(j) implies steps(i, n) <= steps(i, j) by {
                assert(steps(i, n) <= steps(j, n));
                assert(0 <= j < 4);
            }
        }
    }

    /// The delay to any open port of a device is no longer than the time a packet takes to traverse
    /// the device.
    pub proof fn law_child_delay_is_within_propagation_time(self, e: int, n: int, l: int)
        requires
            self.is_entry(e),
            self.open(n),
            self.is_last(l),
        ensures
            0 <= self.time(n) - self.time(e) <= self.time(l) - self.time(e),
    {
    }

    /// Linking a downstream slave to the port at position `n` changes neither which ports are open,
    /// nor which port sees traffic first or last, nor where walks along open ports lead.
    pub proof fn law_assignment_keeps_traffic(self, after: Ports, n: int, slave: usize)
        requires
            0 <= n < 4,
            after.0@ == self.0@.update(n, Port { downstream_to: Some(slave), ..self.0@[n] }),
        ensures
            after.open_count() == self.open_count(),
            forall|i: int| #[trigger] after.open(i) == self.open(i),
            forall|i: int| #[trigger] after.is_entry(i) == self.is_entry(i),
            forall|i: int| #[trigger] after.is_last(i) == self.is_last(i),
            forall|f: int, i: int| #[trigger] after.is_next_open(f, i) == self.is_next_open(f, i),
            forall|f: int, i: int| #[trigger] after.is_prev_open(f, i) == self.is_prev_open(f, i),
            forall|i: int| 0 <= i < 4 ==> (#[trigger] after.0@[i]).number == self.0@[i].number,
    {
        assert(forall|i: int| #[trigger] after.open(i) == self.open(i));
        assert forall|i: int| #[trigger] after.is_entry(i) == self.is_entry(i) by {
            assert(forall|j: int| #[trigger] self.open(j) == after.open(j));
        }
        assert forall|i: int| #[trigger] after.is_last(i) == self.is_last(i) by {
            assert(forall|j: int| #[trigger] self.open(j) == after.open(j));
        }
        assert forall|f: int, i: int| #[trigger] after.is_next_open(f, i) == self.is_next_open(
            f,
            i,
        ) by {
            assert(forall|j: int| #[trigger] self.open(j) == after.open(j));
        }
        assert forall|f: int, i: int| #[trigger] after.is_prev_open(f, i) == self.is_prev_open(
            f,
            i,
        ) by {
            assert(forall|j: int| #[trigger] self.open(j) == after.open(j));
        }
    }

    /// An assignment picks a free port, and every later assignment picks another one: the port of
    /// the first one is not free any more, whatever is assigned in between.
    pub proof fn law_assignments_use_different_ports(
        self,
        after: Ports,
        from: int,
        n: int,
        slave: usize,
        later: Ports,
        from_2: int,
        n_2: int,
    )
        requires
            self.is_next_assignable(from, n),
            after.0@ == self.0@.update(n, Port { downstream_to: Some(slave), ..self.0@[n] }),
            forall|i: int|
                0 <= i < 4 && (#[trigger] after.0@[i]).downstream_to is Some
                    ==> later.0@[i].downstream_to is Some,
            later.is_next_assignable(from_2, n_2),
        ensures
            self.free(n),
            later.free(n_2),
            n_2 != n,
    {
        assert(after.0@[n].downstream_to is Some);
    }

    /// Every assignment takes one free port: a device can be assigned as many downstream slaves as
    /// it has free ports, and then no more.
    pub proof fn law_assignment_takes_one_free_port(self, after: Ports, from: int, n: int, slave: usize)
        requires
            self.is_next_assignable(from, n),
            after.0@ == self.0@.update(n, Port { downstream_to: Some(slave), ..self.0@[n] }),
        ensures
            after.free_count() == self.free_count() - 1,
            after.free_count() == 0 <==> forall|i: int| !after.free(i),
    {
        if after.free_count() == 0 {
            assert(!after.free(0) && !after.free(1) && !after.free(2) && !after.free(3));
        } else {
            assert(after.free(0) || after.free(1) || after.free(2) || after.free(3));
        }
    }

    /// 1 if the port at position `i` is free, 0 otherwise.
    pub open spec fn free_bit(self, i: int) -> nat {
        if self.free(i) {
            1
        } else {
            0
        }
    }

    /// The number of free ports.
    pub open spec fn free_count(self) -> nat {
        self.free_bit(0) + self.free_bit(1) + self.free_bit(2) + self.free_bit(3)
    }
}

/// The numbers of the ports, in the order in which a frame visits them.
pub open spec fn frame_order() -> Seq<usize> {
    seq![0, 3, 1, 2]
}

/// A port is found at the position at which a frame visits it.
pub proof fn law_port_is_at_its_place_in_frame_order(port: Port, index: usize)
    requires
        port.number < 4,
        call_ensures(Port::index, (&port,), index),
    ensures
        index < 4,
        frame_order()[index as int] == port.number,
        index == position(port.number),
{
}

/// Closed devices have no open ports, and opening a closed port makes one more.
pub proof fn law_every_open_port_counts_once(
    ports: Ports,
    count: u8,
    other: Ports,
    other_count: u8,
    i: int,
)
    requires
        call_ensures(Ports::open_ports, (&ports,), count),
        call_ensures(Ports::open_ports, (&other,), other_count),
        0 <= i < 4,
        !ports.0@[i].active,
        other.0@[i].active,
        forall|j: int| 0 <= j < 4 && j != i ==> (#[trigger] other.0@[j]).active == ports.0@[j].active,
    ensures
        other_count == count + 1,
        count == 0 <==> forall|j: int| 0 <= j < 4 ==> !(#[trigger] ports.0@[j]).active,
        count == ports.open_count(),
{
    assert(forall|j: int| 0 <= j < 4 ==> other.0@[j].active == ports.0@[j].active || j == i);
    assert(other.0@[0].active == ports.0@[0].active || i == 0);
    assert(other.0@[1].active == ports.0@[1].active || i == 1);
    assert(other.0@[2].active == ports.0@[2].active || i == 2);
    assert(other.0@[3].active == ports.0@[3].active || i == 3);
    if forall|j: int| 0 <= j < 4 ==> !(#[trigger] ports.0@[j]).active {
        assert(!ports.0@[0].active && !ports.0@[1].active && !ports.0@[2].active
            && !ports.0@[3].active);
    }
}

/// The entry port is the open port that sees traffic first, and the last port is the open port that
/// sees it last. Where receive times are the same, the first and the last such port count.
pub proof fn law_entry_is_earliest_and_last_is_latest(
    ports: Ports,
    entry: Option<Port>,
    last: Option<Port>,
)
    requires
        call_ensures(Ports::entry_port, (&ports,), entry),
        call_ensures(Ports::last_port, (&ports,), last),
    ensures
        entry is Some <==> exists|i: int| 0 <= i < 4 && (#[trigger] ports.0@[i]).active,
        last is Some <==> entry is Some,
        entry matches Some(port) ==> exists|e: int|
            0 <= e < 4 && #[trigger] ports.0@[e] == port && port.active && forall|j: int|
                0 <= j < 4 && (#[trigger] ports.0@[j]).active ==> if j < e {
                    port.dc_receive_time < ports.0@[j].dc_receive_time
                } else {
                    port.dc_receive_time <= ports.0@[j].dc_receive_time
                },
        last matches Some(port) ==> exists|l: int|
            0 <= l < 4 && #[trigger] ports.0@[l] == port && port.active && forall|j: int|
                0 <= j < 4 && (#[trigger] ports.0@[j]).active ==> if l < j {
                    ports.0@[j].dc_receive_time < port.dc_receive_time
                } else {
                    ports.0@[j].dc_receive_time <= port.dc_receive_time
                },
{
    if exists|i: int| 0 <= i < 4 && (#[trigger] ports.0@[i]).active {
        let i = choose|i: int| 0 <= i < 4 && (#[trigger] ports.0@[i]).active;
        assert(ports.open(i));
    }
    if let Some(port) = entry {
        let e = choose|e: int| #[trigger] ports.is_entry(e) && port == ports.0@[e];
        assert(ports.open(e));
        assert forall|j: int| 0 <= j < 4 && (#[trigger] ports.0@[j]).active implies if j < e {
            port.dc_receive_time < ports.0@[j].dc_receive_time
        } else {
            port.dc_receive_time <= ports.0@[j].dc_receive_time
        } by {
            assert(ports.open(j));
        }
        assert(ports.0@[e] == port);
    }
    if let Some(port) = last {
        let l = choose|l: int| #[trigger] ports.is_last(l) && port == ports.0@[l];
        assert(ports.open(l));
        assert forall|j: int| 0 <= j < 4 && (#[trigger] ports.0@[j]).active implies if l < j {
            ports.0@[j].dc_receive_time < port.dc_receive_time
        } else {
            ports.0@[j].dc_receive_time <= port.dc_receive_time
        } by {
            assert(ports.open(j));
        }
        assert(ports.0@[l] == port);
    }
}

/// A port is the last one exactly if it is the port that sees traffic last.
pub proof fn law_last_port_is_recognised(
    ports: Ports,
    last: Option<Port>,
    port: Port,
    is_last: bool,
)
    requires
        call_ensures(Ports::last_port, (&ports,), last),
        call_ensures(Ports::is_last_port, (&ports, &port), is_last),
    ensures
        is_last <==> last == Some(port),
{
    ports.lemma_entry_and_last_are_unique();
    if let Some(p) = last {
        let l = choose|l: int| #[trigger] ports.is_last(l) && p == ports.0@[l];
        assert(ports.is_last(l));
        if is_last {
            let k = choose|k: int| #[trigger] ports.is_last(k) && ports.0@[k] == port;
            assert(ports.is_last(k));
        }
    } else if is_last {
        let k = choose|k: int| #[trigger] ports.is_last(k) && ports.0@[k] == port;
        assert(ports.open(k));
    }
}

proof fn lemma_place_in_frame_order(number: usize)
    requires
        number < 4,
    ensures
        frame_order().index_of(number) == position(number),
        0 <= position(number) < 4,
{
    let order = frame_order();
    assert(order[position(number)] == number);
    assert(order.contains(number));
    let i = order.index_of(number);
    assert(0 <= i < 4 && order[i] == number);
}

/// The next open port is the first open one that a frame visits after the given port, going round to
/// that port itself. The previous open port is the first open one against the order of visits.
pub proof fn law_open_ports_are_met_in_frame_order(
    ports: Ports,
    port: Port,
    next: Option<&Port>,
    prev: Option<&Port>,
)
    requires
        port.number < 4,
        call_ensures(Ports::next_open_port, (&ports, &port), next),
        call_ensures(Ports::prev_open_port, (&ports, &port), prev),
    ensures
        next is Some <==> exists|i: int| 0 <= i < 4 && (#[trigger] ports.0@[i]).active,
        prev is Some <==> next is Some,
        next matches Some(p) ==> exists|d: int|
            1 <= d <= 4 && *p == #[trigger] ports.0@[(frame_order().index_of(port.number) + d) % 4]
                && p.active && forall|c: int|
                1 <= c < d ==> !(#[trigger] ports.0@[(frame_order().index_of(port.number) + c)
                    % 4]).active,
        prev matches Some(p) ==> exists|d: int|
            1 <= d <= 4 && *p == #[trigger] ports.0@[(frame_order().index_of(port.number) + 4 - d)
                % 4] && p.active && forall|c: int|
                1 <= c < d ==> !(#[trigger] ports.0@[(frame_order().index_of(port.number) + 4 - c)
                    % 4]).active,
{
    lemma_place_in_frame_order(port.number);
    let from = position(port.number);
    if exists|i: int| 0 <= i < 4 && (#[trigger] ports.0@[i]).active {
        let i = choose|i: int| 0 <= i < 4 && (#[trigger] ports.0@[i]).active;
        assert(ports.open(i));
    }
    if let Some(p) = next {
        let n = choose|n: int| #[trigger] ports.is_next_open(from, n) && *p == ports.0@[n];
        assert(ports.open(n));
        let d = steps(from, n);
        assert((from + d) % 4 == n);
        assert forall|c: int| 1 <= c < d implies !(#[trigger] ports.0@[(from + c) % 4]).active by {
            let j = (from + c) % 4;
            assert(steps(from, j) == c);
            if ports.0@[j].active {
                assert(ports.open(j));
            }
        }
        assert(*p == ports.0@[(from + d) % 4]);
    }
    if let Some(p) = prev {
        let n = choose|n: int| #[trigger] ports.is_prev_open(from, n) && *p == ports.0@[n];
        assert(ports.open(n));
        let d = steps(n, from);
        assert((from + 4 - d) % 4 == n);
        assert forall|c: int| 1 <= c < d implies !(#[trigger] ports.0@[(from + 4 - c) % 4]).active by {
            let j = (from + 4 - c) % 4;
            assert(steps(j, from) == c);
            if ports.0@[j].active {
                assert(ports.open(j));
            }
        }
        assert(*p == ports.0@[(from + 4 - d) % 4]);
    }
}

/// The position that a frame reaches `d` ports after the port with the given number.
pub open spec fn port_after(number: usize, d: int) -> int {
    (frame_order().index_of(number) + d) % 4
}

/// The port `d` ports after the one with the given number is open and leads to no slave, and none of
/// the ports in between is like that.
pub open spec fn is_first_free(ports: Ports, number: usize, d: int) -> bool {
    &&& 1 <= d <= 4
    &&& ports.0@[port_after(number, d)].active
    &&& ports.0@[port_after(number, d)].downstream_to is None
    &&& forall|c: int|
        1 <= c < d ==> !(#[trigger] ports.0@[port_after(number, c)]).active || ports.0@[port_after(
            number,
            c,
        )].downstream_to is Some
}

/// The port at this position leads to the slave, and nothing else has changed.
pub open spec fn is_linked(before: Ports, after: Ports, at: int, slave: usize) -> bool {
    &&& after.0@[at].downstream_to == Some(slave)
    &&& after.0@[at].active == before.0@[at].active
    &&& after.0@[at].number == before.0@[at].number
    &&& after.0@[at].dc_receive_time == before.0@[at].dc_receive_time
    &&& forall|j: int| 0 <= j < 4 && j != at ==> #[trigger] after.0@[j] == before.0@[j]
}

/// A downstream slave is linked to the first port after the entry port, in the order in which a frame
/// visits the ports, that is open and leads to no slave. Only that port changes, and only in the slave
/// that it leads to. Without such a port nothing changes.
pub proof fn law_slave_is_linked_to_first_free_port(
    ports: &mut Ports,
    slave: usize,
    entry: Option<Port>,
    number: Option<usize>,
)
    requires
        old(ports).open_count() > 0,
        old(ports).entry_is_numbered(),
        call_ensures(Ports::entry_port, (&*old(ports),), entry),
        call_ensures(Ports::assign_next_downstream_port, (ports, slave), number),
    ensures
        number is Some <==> exists|i: int|
            0 <= i < 4 && (#[trigger] old(ports).0@[i]).active && old(ports).0@[i].downstream_to is None,
        number is None ==> *final(ports) == *old(ports),
        number matches Some(m) ==> exists|d: int| #[trigger]
            is_first_free(*old(ports), entry->Some_0.number, d) && is_linked(
                *old(ports),
                *final(ports),
                port_after(entry->Some_0.number, d),
                slave,
            ) && m == old(ports).0@[port_after(entry->Some_0.number, d)].number,
{
    let before = *old(ports);
    before.lemma_entry_and_last_are_unique();
    if exists|i: int|
        0 <= i < 4 && (#[trigger] before.0@[i]).active && before.0@[i].downstream_to is None {
        let i = choose|i: int|
            0 <= i < 4 && (#[trigger] before.0@[i]).active && before.0@[i].downstream_to is None;
        assert(before.free(i));
    }
    if number is Some {
        assert(exists|i: int| before.free(i));
        let f = choose|i: int| before.free(i);
        assert(before.0@[f].active && before.0@[f].downstream_to is None);
        let (e, n) = choose|e: int, n: int| #[trigger]
            before.is_entry(e) && #[trigger] before.is_next_assignable(
                position(before.0@[e].number),
                n,
            ) && number == Some(before.0@[n].number) && final(ports).0@ == before.0@.update(
                n,
                Port { downstream_to: Some(slave), ..before.0@[n] },
            );
        assert(before.is_entry(e));
        assert(entry is Some) by {
            assert(before.open(e));
        }
        let k = choose|k: int| #[trigger] before.is_entry(k) && entry->Some_0 == before.0@[k];
        assert(before.is_entry(k));
        lemma_place_in_frame_order(before.0@[e].number);
        let from = position(before.0@[e].number);
        let d = steps(from, n);
        assert(before.free(n));
        assert((from + d) % 4 == n);
        assert forall|c: int| 1 <= c < d implies !(#[trigger] before.0@[port_after(
            entry->Some_0.number,
            c,
        )]).active || before.0@[port_after(entry->Some_0.number, c)].downstream_to is Some by {
            let j = (from + c) % 4;
            assert(steps(from, j) == c);
            if before.0@[j].active && before.0@[j].downstream_to is None {
                assert(before.free(j));
            }
        }
        assert(is_first_free(before, entry->Some_0.number, d));
    }
}

/// The port that is handed out to be assigned is the first one after the given port, in the order in
/// which a frame visits the ports, that is open and leads to no slave. What is done to it is done to
/// the device.
pub proof fn law_assignable_port_is_first_free_one(
    ports: &mut Ports,
    port: Port,
    next: Option<&mut Port>,
)
    requires
        port.number < 4,
        call_ensures(Ports::next_assignable_port, (ports, &port), next),
    ensures
        next is Some <==> exists|i: int|
            0 <= i < 4 && (#[trigger] old(ports).0@[i]).active && old(ports).0@[i].downstream_to is None,
        next is None ==> *final(ports) == *old(ports),
        next matches Some(p) ==> exists|d: int| #[trigger]
            is_first_free(*old(ports), port.number, d) && *p == old(ports).0@[port_after(
                port.number,
                d,
            )] && final(ports).0@ == old(ports).0@.update(port_after(port.number, d), *final(p)),
{
    let before = *old(ports);
    lemma_place_in_frame_order(port.number);
    if exists|i: int|
        0 <= i < 4 && (#[trigger] before.0@[i]).active && before.0@[i].downstream_to is None {
        let i = choose|i: int|
            0 <= i < 4 && (#[trigger] before.0@[i]).active && before.0@[i].downstream_to is None;
        assert(before.free(i));
    }
    if let Some(p) = next {
        assert(exists|i: int| before.free(i));
        let f = choose|i: int| before.free(i);
        assert(before.0@[f].active && before.0@[f].downstream_to is None);
        let from = position(port.number);
        let n = choose|n: int| #[trigger]
            before.is_next_assignable(from, n) && *p == before.0@[n] && final(ports).0@
                == before.0@.update(n, *final(p));
        assert(before.is_next_assignable(from, n));
        let d = steps(from, n);
        assert(before.free(n));
        assert((from + d) % 4 == n);
        assert forall|c: int| 1 <= c < d implies !(#[trigger] before.0@[port_after(
            port.number,
            c,
        )]).active || before.0@[port_after(port.number, c)].downstream_to is Some by {
            let j = (from + c) % 4;
            assert(steps(from, j) == c);
            if before.0@[j].active && before.0@[j].downstream_to is None {
                assert(before.free(j));
            }
        }
        assert(is_first_free(before, port.number, d));
    }
}

/// The topology of a device follows from its number of open ports: a line ends at a device with one, goes
/// on through a device with two, and forks at a device with three.
pub proof fn law_topology_follows_from_open_ports(ports: Ports, count: u8, topology: Topology)
    requires
        1 <= ports.open_count() <= 3,
        call_ensures(Ports::open_ports, (&ports,), count),
        call_ensures(Ports::topology, (&ports,), topology),
    ensures
        topology == Topology::LineEnd <==> count == 1,
        topology == Topology::Passthrough <==> count == 2,
        topology == Topology::Fork <==> count == 3,
{
}

/// A fork has a child delay, and no other device has one. It is the time from the entry port to the
/// next open port. The propagation time of a device is the time from its entry port to its last port,
/// where that is not zero.
pub proof fn law_delays_are_between_ports(
    ports: Ports,
    count: u8,
    entry: Option<Port>,
    last: Option<Port>,
    next: Option<&Port>,
    delay: Option<u32>,
    time: Option<u32>,
)
    requires
        ports.entry_is_numbered(),
        call_ensures(Ports::open_ports, (&ports,), count),
        call_ensures(Ports::entry_port, (&ports,), entry),
        call_ensures(Ports::last_port, (&ports,), last),
        entry matches Some(e) ==> call_ensures(Ports::next_open_port, (&ports, &e), next),
        call_ensures(Ports::child_delay, (&ports,), delay),
        call_ensures(Ports::propagation_time, (&ports,), time),
    ensures
        delay is Some <==> count == 3,
        delay matches Some(d) ==> entry is Some && next is Some && entry->Some_0.dc_receive_time + d
            == next->Some_0.dc_receive_time,
        time is Some <==> entry is Some && last is Some && entry->Some_0.dc_receive_time
            < last->Some_0.dc_receive_time,
        time matches Some(t) ==> entry->Some_0.dc_receive_time + t == last->Some_0.dc_receive_time,
{
    ports.lemma_entry_and_last_are_unique();
    if let Some(d) = delay {
        let (e, n) = choose|e: int, n: int| #[trigger]
            ports.is_entry(e) && #[trigger] ports.is_next_open(position(ports.0@[e].number), n) && d
                == ports.time(n) - ports.time(e);
        assert(ports.is_entry(e) && ports.open(e) && ports.open(n));
        let k = choose|k: int| #[trigger] ports.is_entry(k) && entry->Some_0 == ports.0@[k];
        assert(ports.is_entry(k));
        let m = choose|m: int| #[trigger]
            ports.is_next_open(position(ports.0@[e].number), m) && *next->Some_0 == ports.0@[m];
        assert(ports.is_next_open(position(ports.0@[e].number), m));
        assert(ports.open(m));
        assert(m == n);
    }
    if let Some(t) = time {
        let (e, l) = choose|e: int, l: int| #[trigger]
            ports.is_entry(e) && #[trigger] ports.is_last(l) && t == ports.time(l) - ports.time(e);
        assert(ports.is_entry(e) && ports.is_last(l) && ports.open(e));
        let k = choose|k: int| #[trigger] ports.is_entry(k) && entry->Some_0 == ports.0@[k];
        let m = choose|m: int| #[trigger] ports.is_last(m) && last->Some_0 == ports.0@[m];
        assert(ports.is_entry(k) && ports.is_last(m));
    } else if entry is Some && last is Some {
        let k = choose|k: int| #[trigger] ports.is_entry(k) && entry->Some_0 == ports.0@[k];
        let m = choose|m: int| #[trigger] ports.is_last(m) && last->Some_0 == ports.0@[m];
        assert(ports.is_entry(k) && ports.is_last(m));
    }
}

} // verus!
