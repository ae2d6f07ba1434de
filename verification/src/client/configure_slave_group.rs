//! Assigning the detected slaves to groups and laying out the process data of all groups.

use super::Client;
use crate::error::{Error, Item};
use crate::pdi::PdiOffset;
use crate::slave::queue::SlaveQueue;
use crate::slave::Slave;
use crate::slave_group::configurator::{GroupAction, GroupConfiguration, GroupModel, GroupStage};
use crate::slave_group::group_map::{
    distinct_keys, has_key, has_key_at, is_map_capacity, with_entry, GroupMap,
};
use crate::slave_group::{GroupView, SlaveGroupRef};
use vstd::prelude::*;

verus! {

/// The states of a list of groups.
pub open spec fn views(groups: Seq<SlaveGroupRef>) -> Seq<GroupView> {
    groups.map_values(|group: SlaveGroupRef| group@)
}

/// Groups that slaves are being assigned to.
#[verifier::ext_equal]
pub struct Grouping {
    /// The groups.
    pub groups: Seq<GroupView>,
    /// The ids and positions of the groups that have been assigned a slave, in the order in which
    /// that first happened.
    pub entries: Seq<(usize, usize)>,
}

impl Grouping {
    /// What becomes of the groups when a slave is assigned to the group at position `choice`, with
    /// room for `capacity` groups that are assigned a slave.
    pub open spec fn with_slave(self, slave: Slave, choice: usize, capacity: nat) -> Result<
        Grouping,
        Error,
    > {
        let group = self.groups[choice as int];
        if group.slaves.len() >= group.max_slaves {
            Err(Error::Capacity(Item::Slave))
        } else if !has_key(self.entries, group.id) && self.entries.len() >= capacity {
            Err(Error::Capacity(Item::Group))
        } else {
            Ok(
                Grouping {
                    groups: self.groups.update(choice as int, group.with_slave(slave)),
                    entries: with_entry(self.entries, group.id, choice),
                },
            )
        }
    }

    /// What becomes of the groups when the first `n` slaves are assigned to the groups at the
    /// positions that were chosen for them.
    pub open spec fn with_slaves(
        self,
        slaves: Seq<Slave>,
        choices: Seq<usize>,
        capacity: nat,
        n: nat,
    ) -> Result<Grouping, Error>
        decreases n,
    {
        if n == 0 {
            Ok(self)
        } else {
            match self.with_slaves(slaves, choices, capacity, (n - 1) as nat) {
                Ok(grouping) => grouping.with_slave(slaves[n - 1], choices[n - 1], capacity),
                Err(e) => Err(e),
            }
        }
    }
}

/// These are the groups after the first `n` slaves have been assigned to the groups that were chosen
/// for them.
pub open spec fn groups_after(
    start: Grouping,
    slaves: Seq<Slave>,
    choices: Seq<usize>,
    capacity: nat,
    n: nat,
    groups: Vec<SlaveGroupRef>,
) -> bool {
    start.with_slaves(slaves, choices, capacity, n) matches Ok(grouping) && grouping.groups == views(
        groups@,
    )
}

/// The filter may choose these groups for the first slaves of the list, looking at the groups as they
/// are at each point.
pub open spec fn may_choose<F: Fn(&Vec<SlaveGroupRef>, &Slave) -> Result<usize, Error>>(
    group_filter: F,
    start: Grouping,
    slaves: Seq<Slave>,
    choices: Seq<usize>,
    seen: Seq<Vec<SlaveGroupRef>>,
    capacity: nat,
) -> bool {
    &&& choices.len() <= slaves.len()
    &&& seen.len() == choices.len()
    &&& forall|i: int|
        #![trigger seen[i]]
        #![trigger choices[i]]
        0 <= i < choices.len() ==> call_ensures(
            group_filter,
            (&seen[i], &slaves[i]),
            Ok::<usize, Error>(choices[i]),
        )
    &&& forall|n: nat|
        n < choices.len() ==> #[trigger] groups_after(
            start,
            slaves,
            choices,
            capacity,
            n,
            seen[n as int],
        )
}

/// The filter may return this error for the slave after those for which groups were chosen.
pub open spec fn may_refuse<F: Fn(&Vec<SlaveGroupRef>, &Slave) -> Result<usize, Error>>(
    group_filter: F,
    start: Grouping,
    slaves: Seq<Slave>,
    choices: Seq<usize>,
    capacity: nat,
    e: Error,
) -> bool {
    &&& choices.len() < slaves.len()
    &&& exists|groups: Vec<SlaveGroupRef>| #[trigger]
        groups_after(start, slaves, choices, capacity, choices.len(), groups) && call_ensures(
            group_filter,
            (&groups, &slaves[choices.len() as int]),
            Err::<usize, Error>(e),
        )
}

/// Assign a slave to the group at position `choice`.
///
/// If the group is full, nothing changes. If the map has no room for the group, the slave has been
/// added to the group all the same.
pub fn assign_slave<const N: usize>(
    groups: &mut Vec<SlaveGroupRef>,
    group_map: &mut GroupMap<N>,
    slave: Slave,
    choice: usize,
) -> (assigned: Result<(), Error>)
    requires
        is_map_capacity(N),
        old(group_map).wf(),
        choice < old(groups)@.len(),
    ensures
        final(group_map).wf(),
        final(groups)@.len() == old(groups)@.len(),
        match (Grouping { groups: views(old(groups)@), entries: old(group_map)@ }).with_slave(
            slave,
            choice,
            N as nat,
        ) {
            Ok(grouping) => assigned == Ok::<(), Error>(()) && views(final(groups)@)
                == grouping.groups && final(group_map)@ == grouping.entries,
            Err(e) => assigned == Err::<(), Error>(e) && final(group_map)@ == old(group_map)@ && views(
                final(groups)@,
            ) == if e == Error::Capacity(Item::Slave) {
                views(old(groups)@)
            } else {
                views(old(groups)@).update(
                    choice as int,
                    views(old(groups)@)[choice as int].with_slave(slave),
                )
            },
        },
{
    let ghost before = views(groups@);
    let id: usize = groups[choice].id;

    match groups[choice].push(slave) {
        Ok(()) => {},
        Err(e) => {
            assert(views(groups@) =~= before);
            return Err(e);
        },
    }
    assert(views(groups@) =~= before.update(choice as int, before[choice as int].with_slave(slave)));

    match group_map.insert(id, choice) {
        Ok(_) => Ok(()),
        Err(_) => Err(Error::Capacity(Item::Group)),
    }
}

/// The configuration of a number of groups, one after the other.
pub struct GroupSetup {
    order: Vec<(usize, usize)>,
    next: usize,
    offset: PdiOffset,
}

impl GroupSetup {
    /// The ids and positions of the groups, in the order in which they are configured.
    pub closed spec fn spec_order(self) -> Seq<(usize, usize)> {
        self.order@
    }

    /// The number of groups that have been configured.
    pub closed spec fn done(self) -> nat {
        self.next as nat
    }

    /// The end of the PDI of the groups that have been configured.
    pub closed spec fn spec_offset(self) -> PdiOffset {
        self.offset
    }

    /// No more groups have been configured than there are.
    pub open spec fn wf(self) -> bool {
        self.done() <= self.spec_order().len()
    }

    /// The id and the position of the group that is configured next, if any is left.
    pub fn next_group(&self) -> (group: Option<(usize, usize)>)
        ensures
            group == if self.done() < self.spec_order().len() {
                Some(self.spec_order()[self.done() as int])
            } else {
                None
            },
    {
        if self.next < self.order.len() {
            Some(self.order[self.next])
        } else {
            None
        }
    }

    /// The end of the PDI of the groups that have been configured.
    pub fn offset(&self) -> (offset: PdiOffset)
        ensures
            offset == self.spec_offset(),
    {
        self.offset
    }

    /// Start to configure a group just after the PDI of the groups before it.
    pub fn start_group(&self, group: &mut SlaveGroupRef) -> (configuration: GroupConfiguration)
        requires
            old(group)@.slaves.len() <= u32::MAX,
        ensures
            configuration.wf(*final(group)),
            configuration.model(*final(group)) == (GroupModel {
                slaves: old(group)@.slaves,
                max_pdi_len: old(group)@.max_pdi_len,
                hook: old(group)@.preop_safeop_hook,
                read_pdi_len: old(group)@.read_pdi_len,
                pdi_len: old(group)@.pdi_len,
                start_address: self.spec_offset().start_address,
                working_counter: old(group)@.group_working_counter,
                joined: true,
                offset: self.spec_offset(),
                stage: GroupStage::Initialize,
            }),
            final(group)@.id == old(group)@.id,
            final(group)@.max_slaves == old(group)@.max_slaves,
    {
        group.initialize_from_eeprom(self.offset)
    }

    /// Take in the end of the PDI of the group that was configured last, or the error that its
    /// configuration ended with.
    pub fn group_configured(&mut self, outcome: Result<PdiOffset, Error>) -> (result: Result<
        (),
        Error,
    >)
        requires
            old(self).done() < old(self).spec_order().len(),
        ensures
            final(self).wf(),
            result == match outcome {
                Ok(_) => Ok(()),
                Err(e) => Err(e),
            },
            final(self).spec_order() == old(self).spec_order(),
            final(self).done() == old(self).done() + if outcome is Ok {
                1int
            } else {
                0
            },
            final(self).spec_offset() == match outcome {
                Ok(offset) => offset,
                Err(_) => old(self).spec_offset(),
            },
    {
        match outcome {
            Ok(offset) => {
                assert(self.next < self.order.len());
                self.offset = offset;
                self.next = self.next + 1;
                Ok(())
            },
            Err(e) => Err(e),
        }
    }
}

impl Client {
    /// Assign all slaves to groups, and get ready to configure the groups that have been assigned a
    /// slave.
    ///
    /// `group_filter` looks at the groups and at a slave, and returns the position of the group to add
    /// the slave to. All slaves must be assigned to a group even if they are unused. If a slave cannot
    /// or should not be added to a group, the filter returns an error. The first slave that the filter
    /// has an error for, or that there is no room for, ends the assignment. The slaves after it stay in
    /// the queue.
    ///
    /// The groups are configured from the one that was first assigned a slave last to the one that
    /// was first assigned a slave first. The PDI of the first of them begins at `start_offset`.
    ///
    /// `MAX_SLAVES` must be a power of 2 greater than 1.
    pub fn configure_slave_group<
        const MAX_SLAVES: usize,
        F: Fn(&Vec<SlaveGroupRef>, &Slave) -> Result<usize, Error>,
    >(
        &self,
        start_offset: PdiOffset,
        groups: Vec<SlaveGroupRef>,
        slaves: &mut SlaveQueue<MAX_SLAVES>,
        group_filter: F,
    ) -> (configured: Result<(Vec<SlaveGroupRef>, GroupSetup), Error>)
        requires
            is_map_capacity(MAX_SLAVES),
            forall|seen: Vec<SlaveGroupRef>, slave: Slave|
                seen@.len() == groups@.len() ==> #[trigger] call_requires(
                    group_filter,
                    (&seen, &slave),
                ),
            forall|seen: Vec<SlaveGroupRef>, slave: Slave, choice: usize|
                seen@.len() == groups@.len() && #[trigger] call_ensures(
                    group_filter,
                    (&seen, &slave),
                    Ok::<usize, Error>(choice),
                ) ==> choice < groups@.len(),
        ensures
            ({
                let start = Grouping { groups: views(groups@), entries: Seq::empty() };
                let capacity = MAX_SLAVES as nat;
                match configured {
                    Ok((assigned, setup)) => {
                        &&& final(slaves)@.len() == 0
                        &&& setup.done() == 0
                        &&& setup.spec_offset() == start_offset
                        &&& exists|choices: Seq<usize>, seen: Seq<Vec<SlaveGroupRef>>|
                            {
                                &&& choices.len() == old(slaves)@.len()
                                &&& #[trigger] may_choose(
                                    group_filter,
                                    start,
                                    old(slaves)@,
                                    choices,
                                    seen,
                                    capacity,
                                )
                                &&& start.with_slaves(
                                    old(slaves)@,
                                    choices,
                                    capacity,
                                    choices.len(),
                                ) == Ok::<Grouping, Error>(
                                    Grouping {
                                        groups: views(assigned@),
                                        entries: setup.spec_order().reverse(),
                                    },
                                )
                            }
                    },
                    Err(e) => exists|choices: Seq<usize>, seen: Seq<Vec<SlaveGroupRef>>|
                        {
                            &&& #[trigger] may_choose(
                                group_filter,
                                start,
                                old(slaves)@,
                                choices,
                                seen,
                                capacity,
                            )
                            &&& {
                                ||| {
                                    &&& choices.len() > 0
                                    &&& start.with_slaves(
                                        old(slaves)@,
                                        choices,
                                        capacity,
                                        (choices.len() - 1) as nat,
                                    ) is Ok
                                    &&& start.with_slaves(
                                        old(slaves)@,
                                        choices,
                                        capacity,
                                        choices.len(),
                                    ) == Err::<Grouping, Error>(e)
                                    &&& final(slaves)@ == old(slaves)@.skip(choices.len() as int)
                                }
                                ||| {
                                    &&& start.with_slaves(
                                        old(slaves)@,
                                        choices,
                                        capacity,
                                        choices.len(),
                                    ) is Ok
                                    &&& may_refuse(
                                        group_filter,
                                        start,
                                        old(slaves)@,
                                        choices,
                                        capacity,
                                        e,
                                    )
                                    &&& final(slaves)@ == old(slaves)@.skip(
                                        choices.len() as int + 1,
                                    )
                                }
                            }
                        },
                }
            }),
    {
        let mut assigned = groups;
        // A unique list of groups so we can iterate over them and assign consecutive PDIs to each
        // one.
        let mut group_map: GroupMap<MAX_SLAVES> = GroupMap::new();
        let ghost start = Grouping { groups: views(groups@), entries: Seq::empty() };
        let ghost all = slaves@;
        let ghost mut choices: Seq<usize> = Seq::empty();
        let ghost mut seen: Seq<Vec<SlaveGroupRef>> = Seq::empty();
        let ghost len = groups@.len();

        loop
            invariant
                is_map_capacity(MAX_SLAVES),
                forall|seen: Vec<SlaveGroupRef>, slave: Slave|
                    seen@.len() == len ==> #[trigger] call_requires(group_filter, (&seen, &slave)),
                forall|seen: Vec<SlaveGroupRef>, slave: Slave, choice: usize|
                    seen@.len() == len && #[trigger] call_ensures(
                        group_filter,
                        (&seen, &slave),
                        Ok::<usize, Error>(choice),
                    ) ==> choice < len,
                assigned@.len() == len,
                all == old(slaves)@,
                group_map.wf(),
                may_choose(group_filter, start, all, choices, seen, MAX_SLAVES as nat),
                slaves@ == all.skip(choices.len() as int),
                start.with_slaves(all, choices, MAX_SLAVES as nat, choices.len()) == Ok::<
                    Grouping,
                    Error,
                >(Grouping { groups: views(assigned@), entries: group_map@ }),
                start == (Grouping { groups: views(groups@), entries: Seq::empty() }),
            ensures
                slaves@.len() == 0,
            decreases slaves@.len(),
        {
            let slave = match slaves.pop_front() {
                Some(slave) => slave,
                None => {
                    break;
                },
            };
            assert(slave == all[choices.len() as int]);
            assert(slaves@ =~= all.skip(choices.len() as int + 1));

            assert(groups_after(
                start,
                all,
                choices,
                MAX_SLAVES as nat,
                choices.len(),
                assigned,
            ));
            let choice: usize = match group_filter(&assigned, &slave) {
                Ok(choice) => choice,
                Err(e) => {
                    assert(may_refuse(group_filter, start, all, choices, MAX_SLAVES as nat, e));
                    return Err(e);
                },
            };
            proof {
                lemma_one_more_choice(
                    group_filter,
                    start,
                    all,
                    choices,
                    seen,
                    MAX_SLAVES as nat,
                    choice,
                    assigned,
                );
                choices = choices.push(choice);
                seen = seen.push(assigned);
            }
            match assign_slave(&mut assigned, &mut group_map, slave, choice) {
                Ok(()) => {},
                Err(e) => {
                    return Err(e);
                },
            }
        }

        let order = group_map.into_entries();
        assert(order@.reverse() =~= group_map@);

        Ok((assigned, GroupSetup { order, next: 0, offset: start_offset }))
    }
}

/// What becomes of the groups only depends on the choices for the slaves that are assigned.
proof fn lemma_with_slaves_prefix(
    grouping: Grouping,
    slaves: Seq<Slave>,
    choices: Seq<usize>,
    choice: usize,
    capacity: nat,
    n: nat,
)
    requires
        n <= choices.len(),
    ensures
        grouping.with_slaves(slaves, choices.push(choice), capacity, n) == grouping.with_slaves(
            slaves,
            choices,
            capacity,
            n,
        ),
    decreases n,
{
    if n > 0 {
        lemma_with_slaves_prefix(grouping, slaves, choices, choice, capacity, (n - 1) as nat);
    }
}

/// The filter may choose one more group, looking at the groups after the choices so far.
proof fn lemma_one_more_choice<F: Fn(&Vec<SlaveGroupRef>, &Slave) -> Result<usize, Error>>(
    group_filter: F,
    start: Grouping,
    slaves: Seq<Slave>,
    choices: Seq<usize>,
    seen: Seq<Vec<SlaveGroupRef>>,
    capacity: nat,
    choice: usize,
    groups: Vec<SlaveGroupRef>,
)
    requires
        may_choose(group_filter, start, slaves, choices, seen, capacity),
        choices.len() < slaves.len(),
        groups_after(start, slaves, choices, capacity, choices.len(), groups),
        call_ensures(
            group_filter,
            (&groups, &slaves[choices.len() as int]),
            Ok::<usize, Error>(choice),
        ),
    ensures
        may_choose(
            group_filter,
            start,
            slaves,
            choices.push(choice),
            seen.push(groups),
            capacity,
        ),
        start.with_slaves(slaves, choices.push(choice), capacity, choices.len())
            == start.with_slaves(slaves, choices, capacity, choices.len()),
{
    lemma_with_slaves_prefix(start, slaves, choices, choice, capacity, choices.len());
    assert forall|n: nat| n < choices.len() + 1 implies #[trigger] groups_after(
        start,
        slaves,
        choices.push(choice),
        capacity,
        n,
        seen.push(groups)[n as int],
    ) by {
        lemma_with_slaves_prefix(start, slaves, choices, choice, capacity, n);
        if n < choices.len() {
            assert(groups_after(start, slaves, choices, capacity, n, seen[n as int]));
        }
    }
}

/// The first `n` slaves for which the group at position `group` was chosen, in order.
pub open spec fn chosen_for(slaves: Seq<Slave>, choices: Seq<usize>, group: int, n: nat) -> Seq<
    Slave,
>
    decreases n,
{
    if n == 0 {
        Seq::empty()
    } else if choices[n - 1] == group {
        chosen_for(slaves, choices, group, (n - 1) as nat).push(slaves[n - 1])
    } else {
        chosen_for(slaves, choices, group, (n - 1) as nat)
    }
}

/// Every slave is in the group that was chosen for it, after the slaves that were there before, and
/// in no other group. Nothing else about the groups changes.
pub proof fn law_every_slave_is_in_its_group(
    grouping: Grouping,
    slaves: Seq<Slave>,
    choices: Seq<usize>,
    capacity: nat,
    n: nat,
    group: int,
)
    requires
        n <= choices.len(),
        n <= slaves.len(),
        forall|i: int| 0 <= i < choices.len() ==> #[trigger] choices[i] < grouping.groups.len(),
        0 <= group < grouping.groups.len(),
    ensures
        grouping.with_slaves(slaves, choices, capacity, n) matches Ok(after) ==> {
            &&& after.groups.len() == grouping.groups.len()
            &&& after.groups[group] == (GroupView {
                slaves: grouping.groups[group].slaves + chosen_for(slaves, choices, group, n),
                ..grouping.groups[group]
            })
        },
    decreases n,
{
    if n == 0 {
        assert(grouping.groups[group].slaves + Seq::<Slave>::empty()
            =~= grouping.groups[group].slaves);
    } else {
        law_every_slave_is_in_its_group(
            grouping,
            slaves,
            choices,
            capacity,
            (n - 1) as nat,
            group,
        );
        let before = chosen_for(slaves, choices, group, (n - 1) as nat);
        assert((grouping.groups[group].slaves + before).push(slaves[n - 1])
            =~= grouping.groups[group].slaves + before.push(slaves[n - 1]));
    }
}

/// Assigning slaves fails for want of room for groups only if there are more slaves than room.
pub proof fn law_groups_always_fit(
    grouping: Grouping,
    slaves: Seq<Slave>,
    choices: Seq<usize>,
    capacity: nat,
    n: nat,
)
    requires
        grouping.entries.len() == 0,
        n <= capacity,
    ensures
        grouping.with_slaves(slaves, choices, capacity, n) != Err::<Grouping, Error>(
            Error::Capacity(Item::Group),
        ),
        grouping.with_slaves(slaves, choices, capacity, n) matches Ok(after) ==> after.entries.len()
            <= n,
    decreases n,
{
    if n > 0 {
        law_groups_always_fit(grouping, slaves, choices, capacity, (n - 1) as nat);
        if let Ok(before) = grouping.with_slaves(slaves, choices, capacity, (n - 1) as nat) {
            lemma_with_entry_keeps_len(
                before.entries,
                before.groups[choices[n - 1] as int].id,
                choices[n - 1],
            );
        }
    }
}

proof fn lemma_with_entry_keeps_len(entries: Seq<(usize, usize)>, key: usize, value: usize)
    ensures
        with_entry(entries, key, value).len() == entries.len() + if has_key(entries, key) {
            0int
        } else {
            1
        },
{
}

/// If no two groups share an id, the groups to configure are exactly those that were chosen for a
/// slave, and each of them is configured once.
pub proof fn law_chosen_groups_are_configured_once(
    grouping: Grouping,
    slaves: Seq<Slave>,
    choices: Seq<usize>,
    capacity: nat,
    n: nat,
)
    requires
        grouping.entries.len() == 0,
        n <= choices.len(),
        forall|i: int| 0 <= i < choices.len() ==> #[trigger] choices[i] < grouping.groups.len(),
        forall|a: int, b: int|
            0 <= a < grouping.groups.len() && 0 <= b < grouping.groups.len() && (
            #[trigger] grouping.groups[a]).id == (#[trigger] grouping.groups[b]).id ==> a == b,
    ensures
        grouping.with_slaves(slaves, choices, capacity, n) matches Ok(after) ==> {
            &&& distinct_keys(after.entries)
            &&& after.groups.len() == grouping.groups.len()
            &&& forall|g: int|
                0 <= g < grouping.groups.len() ==> (#[trigger] after.groups[g]).id
                    == grouping.groups[g].id
            &&& forall|i: int|
                0 <= i < after.entries.len() ==> (#[trigger] after.entries[i]).1
                    < grouping.groups.len() && after.entries[i].0
                    == grouping.groups[after.entries[i].1 as int].id && chosen(
                    choices,
                    after.entries[i].1,
                    n,
                )
            &&& forall|g: usize| #[trigger]
                chosen(choices, g, n) ==> has_key(after.entries, grouping.groups[g as int].id)
        },
    decreases n,
{
    if n > 0 {
        law_chosen_groups_are_configured_once(grouping, slaves, choices, capacity, (n - 1) as nat);
        if let Ok(before) = grouping.with_slaves(slaves, choices, capacity, (n - 1) as nat) {
            if let Ok(after) = grouping.with_slaves(slaves, choices, capacity, n) {
                let choice = choices[n - 1];
                let key = grouping.groups[choice as int].id;
                assert(before.groups[choice as int].id == key);
                assert(after.entries == with_entry(before.entries, key, choice));
                if has_key(before.entries, key) {
                    let at = choose|i: int| has_key_at(before.entries, key, i);
                    assert(has_key_at(before.entries, key, at));
                    assert(grouping.groups[before.entries[at].1 as int].id == key);
                    assert(before.entries[at].1 == choice);
                    assert(after.entries =~= before.entries);
                } else {
                    assert forall|i: int| 0 <= i < before.entries.len() implies (
                    #[trigger] before.entries[i]).0 != key by {
                        assert(!has_key_at(before.entries, key, i));
                    }
                }
                assert(has_key(after.entries, key)) by {
                    if !has_key(before.entries, key) {
                        assert(has_key_at(after.entries, key, before.entries.len() as int));
                    }
                }
                assert forall|i: int| 0 <= i < after.entries.len() implies chosen(
                    choices,
                    (#[trigger] after.entries[i]).1,
                    n,
                ) by {
                    if i < before.entries.len() {
                        assert(after.entries[i] == before.entries[i]);
                        let k = choose|k: int|
                            0 <= k < n - 1 && #[trigger] choices[k] == before.entries[i].1;
                        assert(choices[k] == after.entries[i].1);
                    } else {
                        assert(choices[n - 1] == after.entries[i].1);
                    }
                }
                assert forall|g: usize| #[trigger] chosen(choices, g, n) implies has_key(
                    after.entries,
                    grouping.groups[g as int].id,
                ) by {
                    let k = choose|k: int| 0 <= k < n && #[trigger] choices[k] == g;
                    if k < n - 1 {
                        assert(chosen(choices, g, (n - 1) as nat));
                        let id = grouping.groups[g as int].id;
                        let i = choose|i: int| has_key_at(before.entries, id, i);
                        assert(has_key_at(before.entries, id, i));
                        assert(has_key_at(after.entries, id, i));
                    }
                }
            }
        }
    }
}

/// The group at this position was chosen for one of the first `n` slaves.
pub open spec fn chosen(choices: Seq<usize>, group: usize, n: nat) -> bool {
    exists|k: int| 0 <= k < n && #[trigger] choices[k] == group
}

/// Groups whose configurations ended well, one after the other, have PDIs that follow each other
/// without gaps and do not overlap, if each configuration starts at the offset that the one before
/// it ended with.
pub proof fn law_groups_get_consecutive_segments(
    configured: Seq<GroupModel>,
    ends: Seq<PdiOffset>,
    i: int,
    j: int,
)
    requires
        ends.len() == configured.len(),
        forall|k: int|
            0 <= k < configured.len() ==> (#[trigger] configured[k]).wf() && configured[k].stage
                == GroupStage::Finished(Ok(ends[k])),
        forall|k: int|
            0 < k < configured.len() ==> (#[trigger] configured[k]).start_address == ends[k
                - 1].start_address,
        0 <= i < j < configured.len(),
    ensures
        configured[i].start_address + configured[i].pdi_len <= configured[j].start_address,
        j == i + 1 ==> configured[i].start_address + configured[i].pdi_len
            == configured[j].start_address,
        ends[j].start_address == configured[j].start_address + configured[j].pdi_len,
    decreases j - i,
{
    assert(configured[i].wf() && configured[j].wf());
    if i + 1 < j {
        law_groups_get_consecutive_segments(configured, ends, i, j - 1);
    }
}

/// A group has room for the slaves among the first `n` for which it was chosen.
pub open spec fn has_room(
    grouping: Grouping,
    slaves: Seq<Slave>,
    choices: Seq<usize>,
    group: int,
    n: nat,
) -> bool {
    let chosen = chosen_for(slaves, choices, group, n).len();
    chosen == 0 || grouping.groups[group].slaves.len() + chosen <= grouping.groups[group].max_slaves
}

/// Assigning slaves succeeds exactly if every group has room for the slaves that it already holds
/// together with those for which it was chosen, if there are no more slaves than room for groups.
/// Nothing else about a group plays a part.
pub proof fn law_assignment_succeeds_exactly_with_room(
    grouping: Grouping,
    slaves: Seq<Slave>,
    choices: Seq<usize>,
    capacity: nat,
    n: nat,
)
    requires
        grouping.entries.len() == 0,
        n <= capacity,
        n <= choices.len(),
        n <= slaves.len(),
        forall|i: int| 0 <= i < choices.len() ==> #[trigger] choices[i] < grouping.groups.len(),
    ensures
        grouping.with_slaves(slaves, choices, capacity, n) is Ok <==> forall|g: int|
            0 <= g < grouping.groups.len() ==> #[trigger] has_room(grouping, slaves, choices, g, n),
        grouping.with_slaves(slaves, choices, capacity, n) matches Err(e) ==> e == Error::Capacity(
            Item::Slave,
        ),
    decreases n,
{
    if n > 0 {
        let m = (n - 1) as nat;
        law_assignment_succeeds_exactly_with_room(grouping, slaves, choices, capacity, m);
        law_groups_always_fit(grouping, slaves, choices, capacity, n);
        let choice = choices[n - 1];
        law_every_slave_is_in_its_group(grouping, slaves, choices, capacity, m, choice as int);
        assert forall|g: int|
            0 <= g < grouping.groups.len() && !has_room(grouping, slaves, choices, g, m) implies !(
        #[trigger] has_room(grouping, slaves, choices, g, n)) by {}
        if grouping.with_slaves(slaves, choices, capacity, m) is Ok {
            assert forall|g: int| 0 <= g < grouping.groups.len() && g != choice implies (
            #[trigger] has_room(grouping, slaves, choices, g, n)) by {
                assert(has_room(grouping, slaves, choices, g, m));
            }
            assert(has_room(grouping, slaves, choices, choice as int, m));
            assert(has_room(grouping, slaves, choices, choice as int, n) <==> grouping.with_slaves(
                slaves,
                choices,
                capacity,
                n,
            ) is Ok);
        } else {
            let g = choose|g: int|
                0 <= g < grouping.groups.len() && !(#[trigger] has_room(
                    grouping,
                    slaves,
                    choices,
                    g,
                    m,
                ));
            assert(!has_room(grouping, slaves, choices, g, n));
        }
    }
}

/// A slave is refused for want of room in its group exactly if the group holds as many slaves as it has
/// room for. Otherwise it is refused exactly if its group is not in the map and the map is full. A slave
/// that is not refused comes after the others in its group, the map holds the position of its group
/// under the group's id, and no other group changes.
pub proof fn law_slave_is_refused_only_for_want_of_room<const N: usize>(
    groups: &mut Vec<SlaveGroupRef>,
    group_map: &mut GroupMap<N>,
    slave: Slave,
    choice: usize,
    assigned: Result<(), Error>,
)
    requires
        old(group_map).wf(),
        choice < old(groups)@.len(),
        call_ensures(assign_slave::<N>, (groups, group_map, slave, choice), assigned),
    ensures
        ({
            let group = old(groups)@[choice as int];
            let full = group.inner.slaves@.len() >= group.max_slaves;
            let known = exists|i: int|
                0 <= i < old(group_map)@.len() && (#[trigger] old(group_map)@[i]).0 == group.id;
            let crowded = !known && old(group_map)@.len() >= N;
            let after = final(groups)@[choice as int];
            &&& final(groups)@.len() == old(groups)@.len()
            &&& assigned is Ok <==> !full && !crowded
            &&& assigned matches Err(e) ==> e == Error::Capacity(
                if full {
                    Item::Slave
                } else {
                    Item::Group
                },
            )
            &&& full ==> after.inner.slaves@ == group.inner.slaves@
            &&& !full ==> after.inner.slaves@.len() == group.inner.slaves@.len() + 1
            &&& !full ==> after.inner.slaves@.last() == slave
            &&& !full ==> after.inner.slaves@.drop_last() == group.inner.slaves@
            &&& after.id == group.id && after.max_slaves == group.max_slaves && after.max_pdi_len
                == group.max_pdi_len
            &&& forall|g: int|
                0 <= g < old(groups)@.len() && g != choice ==> (#[trigger] final(groups)@[g])@
                    == old(groups)@[g]@
            &&& assigned is Ok ==> exists|i: int|
                0 <= i < final(group_map)@.len() && #[trigger] final(group_map)@[i] == (
                    group.id,
                    choice,
                )
            &&& assigned is Ok ==> final(group_map)@.len() == old(group_map)@.len() + if known {
                0int
            } else {
                1
            }
            &&& assigned is Err ==> final(group_map)@ == old(group_map)@
        }),
{
    let before = old(groups)@;
    let after = final(groups)@;
    let group = before[choice as int];
    let entries = old(group_map)@;
    let known = exists|i: int| 0 <= i < entries.len() && (#[trigger] entries[i]).0 == group.id;
    assert(views(before)[choice as int] == group@);
    assert(views(after)[choice as int] == after[choice as int]@);
    assert(group@.slaves.push(slave).drop_last() =~= group@.slaves);
    if known {
        let i = choose|i: int| 0 <= i < entries.len() && (#[trigger] entries[i]).0 == group.id;
        assert(has_key_at(entries, group.id, i));
        let k = choose|k: int| has_key_at(entries, group.id, k);
        assert(has_key_at(entries, group.id, k));
        assert(with_entry(entries, group.id, choice)[k] == (group.id, choice));
    } else {
        assert(!has_key(entries, group.id)) by {
            if has_key(entries, group.id) {
                let i = choose|i: int| has_key_at(entries, group.id, i);
                assert(entries[i].0 == group.id);
            }
        }
        assert(with_entry(entries, group.id, choice)[entries.len() as int] == (group.id, choice));
    }
    assert forall|g: int| 0 <= g < before.len() && g != choice implies (#[trigger] after[g])@
        == before[g]@ by {
        assert(views(after)[g] == after[g]@);
        assert(views(before)[g] == before[g]@);
    }
}

/// The group was chosen for one of the first slaves before the other one was.
pub open spec fn chosen_before(choices: Seq<usize>, first: usize, second: usize, n: nat) -> bool {
    exists|k: int|
        0 <= k < n && #[trigger] choices[k] == first && forall|m: int|
            0 <= m <= k ==> #[trigger] choices[m] != second
}

/// If no two groups share an id, the groups that were chosen are entered in the order in which they
/// were first chosen.
pub proof fn law_groups_are_entered_when_first_chosen(
    grouping: Grouping,
    slaves: Seq<Slave>,
    choices: Seq<usize>,
    capacity: nat,
    n: nat,
)
    requires
        grouping.entries.len() == 0,
        n <= choices.len(),
        forall|i: int| 0 <= i < choices.len() ==> #[trigger] choices[i] < grouping.groups.len(),
        forall|a: int, b: int|
            0 <= a < grouping.groups.len() && 0 <= b < grouping.groups.len() && (
            #[trigger] grouping.groups[a]).id == (#[trigger] grouping.groups[b]).id ==> a == b,
    ensures
        grouping.with_slaves(slaves, choices, capacity, n) matches Ok(after) ==> forall|
            i: int,
            j: int,
        |
            0 <= i < j < after.entries.len() ==> chosen_before(
                choices,
                (#[trigger] after.entries[i]).1,
                (#[trigger] after.entries[j]).1,
                n,
            ),
    decreases n,
{
    if n > 0 {
        let m = (n - 1) as nat;
        law_groups_are_entered_when_first_chosen(grouping, slaves, choices, capacity, m);
        law_chosen_groups_are_configured_once(grouping, slaves, choices, capacity, m);
        if let Ok(before) = grouping.with_slaves(slaves, choices, capacity, m) {
            if let Ok(after) = grouping.with_slaves(slaves, choices, capacity, n) {
                let choice = choices[n - 1];
                let key = grouping.groups[choice as int].id;
                assert(before.groups[choice as int].id == key);
                assert(after.entries == with_entry(before.entries, key, choice));
                if has_key(before.entries, key) {
                    let at = choose|i: int| has_key_at(before.entries, key, i);
                    assert(has_key_at(before.entries, key, at));
                    assert(before.entries[at].1 == choice);
                    assert(after.entries =~= before.entries);
                }
                assert forall|i: int, j: int| 0 <= i < j < after.entries.len() implies chosen_before(
                    choices,
                    (#[trigger] after.entries[i]).1,
                    (#[trigger] after.entries[j]).1,
                    n,
                ) by {
                    assert(after.entries[i] == before.entries[i]);
                    if j < before.entries.len() {
                        assert(after.entries[j] == before.entries[j]);
                        assert(chosen_before(
                            choices,
                            before.entries[i].1,
                            before.entries[j].1,
                            m,
                        ));
                        let k = choose|k: int|
                            0 <= k < m && #[trigger] choices[k] == before.entries[i].1 && forall|
                                l: int,
                            |
                                0 <= l <= k ==> #[trigger] choices[l] != before.entries[j].1;
                        assert(choices[k] == after.entries[i].1);
                    } else {
                        assert(chosen(choices, before.entries[i].1, m));
                        let k = choose|k: int|
                            0 <= k < m && #[trigger] choices[k] == before.entries[i].1;
                        assert forall|l: int| 0 <= l <= k implies #[trigger] choices[l] != choice by {
                            if choices[l] == choice {
                                assert(chosen(choices, choice, m));
                            }
                        }
                        assert(choices[k] == after.entries[i].1);
                    }
                }
            }
        }
    }
}

/// After an assignment that ended well, no slave is left, every group holds the slaves it held before
/// and after them those for which the filter chose it, and the groups are about to be configured from
/// the given offset on.
pub proof fn law_assigned_slaves_are_in_chosen_groups<
    const MAX_SLAVES: usize,
    F: Fn(&Vec<SlaveGroupRef>, &Slave) -> Result<usize, Error>,
>(
    client: Client,
    start_offset: PdiOffset,
    groups: Vec<SlaveGroupRef>,
    slaves: &mut SlaveQueue<MAX_SLAVES>,
    group_filter: F,
    assigned: Vec<SlaveGroupRef>,
    setup: GroupSetup,
    offset: PdiOffset,
)
    requires
        forall|seen: Vec<SlaveGroupRef>, slave: Slave, choice: usize| #[trigger]
            call_ensures(group_filter, (&seen, &slave), Ok::<usize, Error>(choice)) ==> choice
                < groups@.len(),
        call_ensures(
            Client::configure_slave_group::<MAX_SLAVES, F>,
            (&client, start_offset, groups, slaves, group_filter),
            Ok::<(Vec<SlaveGroupRef>, GroupSetup), Error>((assigned, setup)),
        ),
        call_ensures(GroupSetup::offset, (&setup,), offset),
    ensures
        final(slaves)@.len() == 0,
        offset == start_offset,
        setup.done() == 0,
        assigned@.len() == groups@.len(),
        exists|choices: Seq<usize>|
            {
                &&& choices.len() == old(slaves)@.len()
                &&& #[trigger] all_below(choices, groups@.len())
                &&& forall|g: int|
                    0 <= g < groups@.len() ==> (#[trigger] assigned@[g]).inner.slaves@
                        == groups@[g].inner.slaves@ + chosen_for(
                        old(slaves)@,
                        choices,
                        g,
                        choices.len(),
                    ) && assigned@[g].id == groups@[g].id && assigned@[g].max_slaves
                        == groups@[g].max_slaves && assigned@[g].max_pdi_len
                        == groups@[g].max_pdi_len
                &&& distinct_ids(groups@) ==> is_turn_order(setup.spec_order(), groups@, choices)
            },
{
    let start = Grouping { groups: views(groups@), entries: Seq::empty() };
    let capacity = MAX_SLAVES as nat;
    let all = old(slaves)@;
    let (choices, seen) = choose|choices: Seq<usize>, seen: Seq<Vec<SlaveGroupRef>>|
        {
            &&& choices.len() == all.len()
            &&& #[trigger] may_choose(group_filter, start, all, choices, seen, capacity)
            &&& start.with_slaves(all, choices, capacity, choices.len()) == Ok::<Grouping, Error>(
                Grouping {
                    groups: views(assigned@),
                    entries: setup.spec_order().reverse(),
                },
            )
        };
    assert(may_choose(group_filter, start, all, choices, seen, capacity));
    assert forall|i: int| 0 <= i < choices.len() implies #[trigger] choices[i] < groups@.len() by {
        assert(call_ensures(
            group_filter,
            (&seen[i], &all[i]),
            Ok::<usize, Error>(choices[i]),
        ));
    }
    assert(all_below(choices, groups@.len()));
    lemma_len_of_groups(start, all, choices, capacity, choices.len());
    assert forall|g: int| 0 <= g < groups@.len() implies (#[trigger] assigned@[g]).inner.slaves@
        == groups@[g].inner.slaves@ + chosen_for(all, choices, g, choices.len()) && assigned@[g].id
        == groups@[g].id && assigned@[g].max_slaves == groups@[g].max_slaves
        && assigned@[g].max_pdi_len == groups@[g].max_pdi_len by {
        law_every_slave_is_in_its_group(start, all, choices, capacity, choices.len(), g);
        assert(views(assigned@)[g] == assigned@[g]@);
        assert(views(groups@)[g] == groups@[g]@);
    }
    if distinct_ids(groups@) {
        lemma_turn_order(start, all, choices, capacity, groups@, setup.spec_order());
    }
}

/// No two groups share an id.
pub open spec fn distinct_ids(groups: Seq<SlaveGroupRef>) -> bool {
    forall|a: int, b: int|
        0 <= a < groups.len() && 0 <= b < groups.len() && (#[trigger] groups[a]).id == (
        #[trigger] groups[b]).id ==> a == b
}

/// These are the turns of the groups that were chosen for a slave, each with its id: every one of them
/// has one turn, and the one that was first chosen last has the first.
pub open spec fn is_turn_order(
    order: Seq<(usize, usize)>,
    groups: Seq<SlaveGroupRef>,
    choices: Seq<usize>,
) -> bool {
    &&& forall|i: int|
        0 <= i < order.len() ==> (#[trigger] order[i]).1 < groups.len() && order[i].0
            == groups[order[i].1 as int].id && chosen(choices, order[i].1, choices.len())
    &&& forall|g: usize| #[trigger]
        chosen(choices, g, choices.len()) ==> exists|i: int|
            0 <= i < order.len() && (#[trigger] order[i]).1 == g
    &&& forall|i: int, j: int|
        0 <= i < j < order.len() ==> chosen_before(
            choices,
            (#[trigger] order[j]).1,
            (#[trigger] order[i]).1,
            choices.len(),
        )
}

proof fn lemma_turn_order(
    start: Grouping,
    slaves: Seq<Slave>,
    choices: Seq<usize>,
    capacity: nat,
    groups: Seq<SlaveGroupRef>,
    order: Seq<(usize, usize)>,
)
    requires
        start == (Grouping { groups: views(groups), entries: Seq::empty() }),
        start.with_slaves(slaves, choices, capacity, choices.len()) matches Ok(after)
            && after.entries == order.reverse(),
        all_below(choices, groups.len()),
        distinct_ids(groups),
    ensures
        is_turn_order(order, groups, choices),
{
    let entries = order.reverse();
    assert forall|a: int, b: int|
        0 <= a < start.groups.len() && 0 <= b < start.groups.len() && (
        #[trigger] start.groups[a]).id == (#[trigger] start.groups[b]).id implies a == b by {
        assert(start.groups[a] == groups[a]@ && start.groups[b] == groups[b]@);
        assert(groups[a].id == groups[b].id);
    }
    law_chosen_groups_are_configured_once(start, slaves, choices, capacity, choices.len());
    law_groups_are_entered_when_first_chosen(start, slaves, choices, capacity, choices.len());
    assert forall|i: int| 0 <= i < order.len() implies (#[trigger] order[i]).1 < groups.len()
        && order[i].0 == groups[order[i].1 as int].id && chosen(
        choices,
        order[i].1,
        choices.len(),
    ) by {
        assert(order[i] == entries[order.len() - 1 - i]);
        assert(start.groups[order[i].1 as int] == groups[order[i].1 as int]@);
    }
    assert forall|g: usize| #[trigger] chosen(choices, g, choices.len()) implies exists|i: int|
        0 <= i < order.len() && (#[trigger] order[i]).1 == g by {
        let id = start.groups[g as int].id;
        let k = choose|k: int| has_key_at(entries, id, k);
        assert(has_key_at(entries, id, k));
        assert(entries[k] == order[order.len() - 1 - k]);
        let c = choose|c: int| 0 <= c < choices.len() && #[trigger] choices[c] == g;
        assert(choices[c] < groups.len());
        assert(start.groups[entries[k].1 as int].id == id);
        assert(order[order.len() - 1 - k].1 == g);
    }
    assert forall|i: int, j: int| 0 <= i < j < order.len() implies chosen_before(
        choices,
        (#[trigger] order[j]).1,
        (#[trigger] order[i]).1,
        choices.len(),
    ) by {
        assert(order[j] == entries[order.len() - 1 - j]);
        assert(order[i] == entries[order.len() - 1 - i]);
    }
}

/// All choices are positions below the given one.
pub open spec fn all_below(choices: Seq<usize>, len: nat) -> bool {
    forall|i: int| 0 <= i < choices.len() ==> #[trigger] choices[i] < len
}

proof fn lemma_len_of_groups(
    grouping: Grouping,
    slaves: Seq<Slave>,
    choices: Seq<usize>,
    capacity: nat,
    n: nat,
)
    requires
        n <= choices.len(),
        all_below(choices, grouping.groups.len()),
    ensures
        grouping.with_slaves(slaves, choices, capacity, n) matches Ok(after) ==> after.groups.len()
            == grouping.groups.len(),
    decreases n,
{
    if n > 0 {
        lemma_len_of_groups(grouping, slaves, choices, capacity, (n - 1) as nat);
    }
}

/// If the filter has a group for every slave, and every group has room for all slaves, then the
/// assignment ends well.
pub proof fn law_assignment_ends_well_with_room<
    const MAX_SLAVES: usize,
    F: Fn(&Vec<SlaveGroupRef>, &Slave) -> Result<usize, Error>,
>(
    client: Client,
    start_offset: PdiOffset,
    groups: Vec<SlaveGroupRef>,
    slaves: &mut SlaveQueue<MAX_SLAVES>,
    group_filter: F,
    configured: Result<(Vec<SlaveGroupRef>, GroupSetup), Error>,
)
    requires
        old(slaves)@.len() <= MAX_SLAVES,
        forall|seen: Vec<SlaveGroupRef>, slave: Slave, choice: usize| #[trigger]
            call_ensures(group_filter, (&seen, &slave), Ok::<usize, Error>(choice)) ==> choice
                < groups@.len(),
        forall|seen: Vec<SlaveGroupRef>, slave: Slave, e: Error|
            !(#[trigger] call_ensures(group_filter, (&seen, &slave), Err::<usize, Error>(e))),
        forall|g: int|
            0 <= g < groups@.len() ==> (#[trigger] groups@[g]).inner.slaves@.len()
                + old(slaves)@.len() <= groups@[g].max_slaves,
        call_ensures(
            Client::configure_slave_group::<MAX_SLAVES, F>,
            (&client, start_offset, groups, slaves, group_filter),
            configured,
        ),
    ensures
        configured is Ok,
{
    if let Err(e) = configured {
        let start = Grouping { groups: views(groups@), entries: Seq::empty() };
        let capacity = MAX_SLAVES as nat;
        let all = old(slaves)@;
        let (choices, seen) = choose|choices: Seq<usize>, seen: Seq<Vec<SlaveGroupRef>>|
            {
                &&& #[trigger] may_choose(group_filter, start, all, choices, seen, capacity)
                &&& (start.with_slaves(all, choices, capacity, choices.len()) == Err::<
                    Grouping,
                    Error,
                >(e) || may_refuse(group_filter, start, all, choices, capacity, e))
            };
        assert(may_choose(group_filter, start, all, choices, seen, capacity));
        assert forall|i: int| 0 <= i < choices.len() implies #[trigger] choices[i] < groups@.len() by {
            assert(call_ensures(
                group_filter,
                (&seen[i], &all[i]),
                Ok::<usize, Error>(choices[i]),
            ));
        }
        assert(!may_refuse(group_filter, start, all, choices, capacity, e));
        law_assignment_succeeds_exactly_with_room(start, all, choices, capacity, choices.len());
        assert forall|g: int| 0 <= g < start.groups.len() implies #[trigger] has_room(
            start,
            all,
            choices,
            g,
            choices.len(),
        ) by {
            lemma_chosen_are_some(all, choices, g, choices.len());
            assert(views(groups@)[g] == groups@[g]@);
        }
    }
}

proof fn lemma_chosen_are_some(slaves: Seq<Slave>, choices: Seq<usize>, group: int, n: nat)
    ensures
        chosen_for(slaves, choices, group, n).len() <= n,
    decreases n,
{
    if n > 0 {
        lemma_chosen_are_some(slaves, choices, group, (n - 1) as nat);
    }
}

/// The groups have their turns in the order of the setup. A group that was configured is followed by
/// the next one, which begins where it ended. After an error the same group has its turn.
pub proof fn law_groups_have_their_turns(
    setup: &mut GroupSetup,
    outcome: Result<PdiOffset, Error>,
    result: Result<(), Error>,
    before: Option<(usize, usize)>,
    after: Option<(usize, usize)>,
    offset: PdiOffset,
)
    requires
        old(setup).done() < old(setup).spec_order().len(),
        call_ensures(GroupSetup::next_group, (&*old(setup),), before),
        call_ensures(GroupSetup::group_configured, (setup, outcome), result),
        call_ensures(GroupSetup::next_group, (&*final(setup),), after),
        call_ensures(GroupSetup::offset, (&*final(setup),), offset),
    ensures
        before == Some(old(setup).spec_order()[old(setup).done() as int]),
        result is Ok <==> outcome is Ok,
        outcome matches Ok(end) ==> {
            let rest = old(setup).spec_order().skip(old(setup).done() as int + 1);
            &&& offset == end
            &&& after == if rest.len() > 0 {
                Some(rest[0])
            } else {
                None
            }
        },
        outcome matches Err(e) ==> result == Err::<(), Error>(e) && after == before && offset == old(
            setup).spec_offset(),
{
}

/// A group that has its turn begins at the offset of the setup and is initialized first. Its slaves
/// and its size stay as they are.
pub proof fn law_group_begins_at_offset_of_setup(
    setup: GroupSetup,
    offset: PdiOffset,
    group: &mut SlaveGroupRef,
    configuration: GroupConfiguration,
    action: GroupAction,
)
    requires
        call_ensures(GroupSetup::offset, (&setup,), offset),
        call_ensures(GroupSetup::start_group, (&setup, group), configuration),
        call_ensures(GroupConfiguration::action, (&configuration, &*final(group)), action),
    ensures
        final(group).inner.start_address == offset.start_address,
        final(group).inner.slaves@ == old(group).inner.slaves@,
        final(group).id == old(group).id,
        final(group).max_slaves == old(group).max_slaves,
        final(group).max_pdi_len == old(group).max_pdi_len,
        final(group).inner.group_working_counter == old(group).inner.group_working_counter,
        action == GroupAction::InitializeSlaves,
{
    configuration.lemma_model_is_of_group(*final(group));
}

/// An assignment that fails has taken at least one slave from the front of the queue and leaves the
/// others. If every group has room for all slaves, the error is one that the filter returned for one of
/// them. If the filter has a group for every slave, the error is that a group is full.
pub proof fn law_failed_assignment_has_a_reason<
    const MAX_SLAVES: usize,
    F: Fn(&Vec<SlaveGroupRef>, &Slave) -> Result<usize, Error>,
>(
    client: Client,
    start_offset: PdiOffset,
    groups: Vec<SlaveGroupRef>,
    slaves: &mut SlaveQueue<MAX_SLAVES>,
    group_filter: F,
    e: Error,
)
    requires
        old(slaves)@.len() <= MAX_SLAVES,
        forall|seen: Vec<SlaveGroupRef>, slave: Slave, choice: usize| #[trigger]
            call_ensures(group_filter, (&seen, &slave), Ok::<usize, Error>(choice)) ==> choice
                < groups@.len(),
        call_ensures(
            Client::configure_slave_group::<MAX_SLAVES, F>,
            (&client, start_offset, groups, slaves, group_filter),
            Err::<(Vec<SlaveGroupRef>, GroupSetup), Error>(e),
        ),
    ensures
        old(slaves)@.len() > 0,
        final(slaves)@.len() < old(slaves)@.len(),
        final(slaves)@ == old(slaves)@.skip(old(slaves)@.len() - final(slaves)@.len()),
        e == Error::Capacity(Item::Slave) || {
            let refused = old(slaves)@[old(slaves)@.len() - final(slaves)@.len() - 1];
            exists|seen: Vec<SlaveGroupRef>| #[trigger]
                call_ensures(group_filter, (&seen, &refused), Err::<usize, Error>(e))
        },
        (forall|g: int|
            0 <= g < groups@.len() ==> (#[trigger] groups@[g]).inner.slaves@.len()
                + old(slaves)@.len() <= groups@[g].max_slaves) ==> {
            let refused = old(slaves)@[old(slaves)@.len() - final(slaves)@.len() - 1];
            exists|seen: Vec<SlaveGroupRef>| #[trigger]
                call_ensures(group_filter, (&seen, &refused), Err::<usize, Error>(e))
        },
{
    let start = Grouping { groups: views(groups@), entries: Seq::empty() };
    let capacity = MAX_SLAVES as nat;
    let all = old(slaves)@;
    let (choices, seen) = choose|choices: Seq<usize>, seen: Seq<Vec<SlaveGroupRef>>|
        {
            &&& #[trigger] may_choose(group_filter, start, all, choices, seen, capacity)
            &&& {
                ||| choices.len() > 0 && start.with_slaves(
                    all,
                    choices,
                    capacity,
                    choices.len(),
                ) == Err::<Grouping, Error>(e) && final(slaves)@ == all.skip(choices.len() as int)
                ||| may_refuse(group_filter, start, all, choices, capacity, e) && final(slaves)@
                    == all.skip(choices.len() as int + 1)
            }
        };
    assert(may_choose(group_filter, start, all, choices, seen, capacity));
    assert forall|i: int| 0 <= i < choices.len() implies #[trigger] choices[i] < groups@.len() by {
        assert(call_ensures(
            group_filter,
            (&seen[i], &all[i]),
            Ok::<usize, Error>(choices[i]),
        ));
    }
    if may_refuse(group_filter, start, all, choices, capacity, e) && final(slaves)@ == all.skip(
        choices.len() as int + 1,
    ) {
        let looked = choose|looked: Vec<SlaveGroupRef>| #[trigger]
            groups_after(start, all, choices, capacity, choices.len(), looked) && call_ensures(
                group_filter,
                (&looked, &all[choices.len() as int]),
                Err::<usize, Error>(e),
            );
        assert(call_ensures(
            group_filter,
            (&looked, &all[all.len() - final(slaves)@.len() - 1]),
            Err::<usize, Error>(e),
        ));
    } else {
        law_assignment_succeeds_exactly_with_room(start, all, choices, capacity, choices.len());
        if forall|g: int|
            0 <= g < groups@.len() ==> (#[trigger] groups@[g]).inner.slaves@.len() + all.len()
                <= groups@[g].max_slaves {
            assert forall|g: int| 0 <= g < start.groups.len() implies #[trigger] has_room(
                start,
                all,
                choices,
                g,
                choices.len(),
            ) by {
                lemma_chosen_are_some(all, choices, g, choices.len());
                assert(views(groups@)[g] == groups@[g]@);
            }
        }
    }
}

} // verus!
