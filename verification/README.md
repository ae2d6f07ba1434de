# ethercat_master

The decision logic of an EtherCAT master, verified with Verus.

- `src/` decides: which PDUs to send and what their responses mean, how slaves are reset, detected
  and given addresses, how they are assigned to groups, where their process data goes, and what
  their ports say of the topology. Whatever takes several exchanges with the network is a state
  machine: `action` says what to do next, and `handle` takes in what came of it.
- `app/` acts: an asynchronous client that carries out those actions over a network that implements
  its `PduLoop` and `Devices` traits.
- `tests/` runs the library on concrete values.

Slaves that were found are held in a `heapless::Deque` and groups in a `heapless::FnvIndexMap`. The
contracts of the functions that call them, in `src/slave/queue.rs` and
`src/slave_group/group_map.rs`, are the only ones that are not proved.
