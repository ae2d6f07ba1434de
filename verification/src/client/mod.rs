//! A medium-level interface over PDUs and other EtherCAT master related infrastructure.

pub mod configure_slave_group;
pub mod init;
pub mod init_slaves;
pub mod request_state;
pub mod reset;
pub mod services;
pub mod wait_for_state;

use core::time::Duration;
use vstd::prelude::*;

verus! {

/// The configured station address of the first slave. The others follow in the order in which
/// they were found.
pub const BASE_SLAVE_ADDR: u16 = 0x1000;

/// What the master knows of the loop that sends and receives PDUs.
#[derive(Debug, Copy, Clone)]
pub struct PduLoop {
    /// The most data bytes that fit in one frame.
    pub max_frame_data: usize,
}

/// How long the master waits for responses and state changes.
#[derive(Debug, Copy, Clone)]
pub struct Timeouts {
    /// The time to wait for the response to a PDU.
    pub pdu: Duration,
    /// The time to wait for all slaves to reach a state.
    pub state_transition: Duration,
    /// The time between two looks at a condition that is waited for.
    pub wait_loop_delay: Duration,
}

/// Configuration of a [`Client`].
#[derive(Debug, Copy, Clone)]
pub struct ClientConfig {
    /// The number of times that the time of the reference clock is sent to all slaves.
    pub dc_static_sync_iterations: u32,
}

/// A medium-level interface over PDUs (e.g. `BRD`, `LRW`, etc) and other EtherCAT master related
/// infrastructure.
#[derive(Debug)]
pub struct Client {
    pdu_loop: PduLoop,
    /// The total number of discovered slaves.
    num_slaves: u16,
    timeouts: Timeouts,
    /// The 1-7 cyclic counter used when working with mailbox requests.
    mailbox_counter: u8,
    config: ClientConfig,
}

/// The value that follows `n` in the cycle of mailbox counter values.
pub open spec fn next_mailbox_counter(n: u8) -> u8 {
    if n >= 7 {
        1
    } else {
        (n + 1) as u8
    }
}

impl Client {
    /// The most data bytes that fit in one frame.
    pub closed spec fn max_frame_data(self) -> usize {
        self.pdu_loop.max_frame_data
    }

    /// The number of discovered slaves.
    pub closed spec fn slave_count(self) -> u16 {
        self.num_slaves
    }

    /// How long the client waits for responses and state changes.
    pub closed spec fn spec_timeouts(self) -> Timeouts {
        self.timeouts
    }

    /// The next mailbox counter value.
    pub closed spec fn counter(self) -> u8 {
        self.mailbox_counter
    }

    /// The configuration of the client.
    pub closed spec fn spec_config(self) -> ClientConfig {
        self.config
    }

    #[verifier::type_invariant]
    spec fn counter_is_in_cycle(self) -> bool {
        1 <= self.mailbox_counter <= 7
    }

    /// Create a new client.
    pub fn new(pdu_loop: PduLoop, timeouts: Timeouts, config: ClientConfig) -> (client: Self)
        ensures
            client.max_frame_data() == pdu_loop.max_frame_data,
            client.slave_count() == 0,
            client.spec_timeouts() == timeouts,
            client.counter() == 1,
            client.spec_config() == config,
    {
        Client {
            pdu_loop,
            num_slaves: 0,
            timeouts,
            // 0 is a reserved value, so we initialise the cycle at 1. The cycle repeats 1 - 7.
            mailbox_counter: 1,
            config,
        }
    }

    /// Return the current cyclic mailbox counter value, from 1-7.
    ///
    /// Calling this method internally increments the counter, so subequent calls will produce a new
    /// value.
    pub fn mailbox_counter(&mut self) -> (counter: u8)
        ensures
            1 <= counter <= 7,
            counter == old(self).counter(),
            final(self).counter() == next_mailbox_counter(counter),
            final(self).max_frame_data() == old(self).max_frame_data(),
            final(self).slave_count() == old(self).slave_count(),
            final(self).spec_timeouts() == old(self).spec_timeouts(),
            final(self).spec_config() == old(self).spec_config(),
    {
        proof {
            use_type_invariant(&*self);
        }
        let counter: u8 = self.mailbox_counter;

        self.mailbox_counter = if counter >= 7 {
            1
        } else {
            counter + 1
        };

        counter
    }

    /// Get the number of discovered slaves in the EtherCAT network.
    ///
    /// Slave autodetection must have run before this method to get an accurate count.
    pub fn num_slaves(&self) -> (num_slaves: usize)
        ensures
            num_slaves == self.slave_count(),
    {
        self.num_slaves as usize
    }

    /// How long the client waits for responses and state changes.
    pub fn timeouts(&self) -> (timeouts: Timeouts)
        ensures
            timeouts == self.spec_timeouts(),
    {
        self.timeouts
    }

    /// The configuration of the client.
    pub fn config(&self) -> (config: ClientConfig)
        ensures
            config == self.spec_config(),
    {
        self.config
    }
}

/// The mailbox counter never takes the reserved value 0. It takes a new value with every call and
/// is back at the first one after seven calls, not before.
pub proof fn law_mailbox_counter_cycles(n: u8)
    requires
        1 <= n <= 7,
    ensures
        1 <= next_mailbox_counter(n) <= 7,
        forall|k: nat| 1 <= k < 7 ==> #[trigger] mailbox_counter_after(n, k) != n,
        mailbox_counter_after(n, 7) == n,
{
    reveal_with_fuel(mailbox_counter_after, 8);
    assert forall|k: nat| 1 <= k < 7 implies #[trigger] mailbox_counter_after(n, k) != n by {
        assert(k == 1 || k == 2 || k == 3 || k == 4 || k == 5 || k == 6);
    }
}

/// The mailbox counter value that comes `calls` calls after the value `n`.
pub open spec fn mailbox_counter_after(n: u8, calls: nat) -> u8
    decreases calls,
{
    if calls == 0 {
        n
    } else {
        next_mailbox_counter(mailbox_counter_after(n, (calls - 1) as nat))
    }
}

/// A new client knows of no slave, counts mailbox requests from 1 on, and has the times and the
/// configuration that it was given.
pub proof fn law_new_client_has_found_nothing(
    pdu_loop: PduLoop,
    timeouts: Timeouts,
    config: ClientConfig,
    client: Client,
    num_slaves: usize,
    its_timeouts: Timeouts,
    its_config: ClientConfig,
)
    requires
        call_ensures(Client::new, (pdu_loop, timeouts, config), client),
        call_ensures(Client::num_slaves, (&client,), num_slaves),
        call_ensures(Client::timeouts, (&client,), its_timeouts),
        call_ensures(Client::config, (&client,), its_config),
    ensures
        num_slaves == 0,
        its_timeouts == timeouts,
        its_config == config,
        client.counter() == 1,
        client.max_frame_data() == pdu_loop.max_frame_data,
{
}

/// Each mailbox request gets the number after the one before it, with 1 after 7. Nothing else about
/// the client changes.
pub proof fn law_mailbox_numbers_follow_each_other(
    client: &mut Client,
    first: u8,
    again: &mut Client,
    second: u8,
)
    requires
        call_ensures(Client::mailbox_counter, (client,), first),
        *old(again) == *final(client),
        call_ensures(Client::mailbox_counter, (again,), second),
    ensures
        first == old(client).counter(),
        1 <= first <= 7,
        second == first % 7 + 1,
        final(client).slave_count() == old(client).slave_count(),
        final(client).max_frame_data() == old(client).max_frame_data(),
        final(client).spec_timeouts() == old(client).spec_timeouts(),
        final(client).spec_config() == old(client).spec_config(),
{
}

} // verus!
