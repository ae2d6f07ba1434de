//! Groups of slaves that share a segment of the process data image.

pub mod configurator;
pub mod group_map;
pub mod offset_helper;
pub mod slave_config;
pub mod synchronization;

use crate::error::{Error, Item};
use crate::slave::Slave;
use vstd::prelude::*;

verus! {

/// What there is to know of a group of slaves.
#[derive(Debug, PartialEq)]
pub struct GroupInner {
    /// The slaves in the group.
    pub slaves: Vec<Slave>,
    /// The number of bytes at the beginning of the PDI reserved for slave inputs.
    pub read_pdi_len: usize,
    /// The total length (I and O) of the PDI for this group.
    pub pdi_len: usize,
    /// The address at which the PDI of this group begins.
    pub start_address: u32,
    /// Expected working counter when performing a read/write to all slaves in this group.
    ///
    /// This should be equivalent to `(slaves with inputs) + (2 * slaves with outputs)`.
    pub group_working_counter: u16,
}

/// A group of at most `MAX_SLAVES` slaves with at most `MAX_PDI` bytes of process data.
#[derive(Debug, PartialEq)]
pub struct SlaveGroup<const MAX_SLAVES: usize, const MAX_PDI: usize> {
    /// The number that tells this group from others.
    pub id: usize,
    /// Whether something has to be run for each slave between PRE-OP and SAFE-OP.
    pub preop_safeop_hook: bool,
    /// What there is to know of the group.
    pub inner: GroupInner,
}

impl<const MAX_SLAVES: usize, const MAX_PDI: usize> SlaveGroup<MAX_SLAVES, MAX_PDI> {
    /// An empty group.
    pub fn new(id: usize, preop_safeop_hook: bool) -> (group: Self)
        ensures
            group.id == id,
            group.preop_safeop_hook == preop_safeop_hook,
            group.inner.slaves@.len() == 0,
            group.inner.read_pdi_len == 0,
            group.inner.pdi_len == 0,
            group.inner.start_address == 0,
            group.inner.group_working_counter == 0,
    {
        SlaveGroup {
            id,
            preop_safeop_hook,
            inner: GroupInner {
                slaves: Vec::new(),
                read_pdi_len: 0,
                pdi_len: 0,
                start_address: 0,
                group_working_counter: 0,
            },
        }
    }
}

/// A [`SlaveGroup`] of any size.
#[derive(Debug, PartialEq)]
pub struct SlaveGroupRef {
    /// The number that tells this group from others.
    pub id: usize,
    /// The most slaves that the group can hold.
    pub max_slaves: usize,
    /// The most bytes of process data that the group can hold.
    pub max_pdi_len: usize,
    /// Whether something has to be run for each slave between PRE-OP and SAFE-OP.
    pub preop_safeop_hook: bool,
    /// What there is to know of the group.
    pub inner: GroupInner,
}

/// The state of a group.
#[verifier::ext_equal]
pub struct GroupView {
    pub id: usize,
    pub max_slaves: usize,
    pub max_pdi_len: usize,
    pub preop_safeop_hook: bool,
    pub slaves: Seq<Slave>,
    pub read_pdi_len: usize,
    pub pdi_len: usize,
    pub start_address: u32,
    pub group_working_counter: u16,
}

impl GroupView {
    /// The group with one more slave.
    pub open spec fn with_slave(self, slave: Slave) -> GroupView {
        GroupView { slaves: self.slaves.push(slave), ..self }
    }
}

impl View for SlaveGroupRef {
    type V = GroupView;

    open spec fn view(&self) -> GroupView {
        GroupView {
            id: self.id,
            max_slaves: self.max_slaves,
            max_pdi_len: self.max_pdi_len,
            preop_safeop_hook: self.preop_safeop_hook,
            slaves: self.inner.slaves@,
            read_pdi_len: self.inner.read_pdi_len,
            pdi_len: self.inner.pdi_len,
            start_address: self.inner.start_address,
            group_working_counter: self.inner.group_working_counter,
        }
    }
}

impl SlaveGroupRef {
    /// The given group, with its size as values.
    pub fn new<const MAX_SLAVES: usize, const MAX_PDI: usize>(
        group: SlaveGroup<MAX_SLAVES, MAX_PDI>,
    ) -> (reference: Self)
        ensures
            reference == (SlaveGroupRef {
                id: group.id,
                max_slaves: MAX_SLAVES,
                max_pdi_len: MAX_PDI,
                preop_safeop_hook: group.preop_safeop_hook,
                inner: group.inner,
            }),
    {
        SlaveGroupRef {
            id: group.id,
            max_slaves: MAX_SLAVES,
            max_pdi_len: MAX_PDI,
            preop_safeop_hook: group.preop_safeop_hook,
            inner: group.inner,
        }
    }

    /// Add a slave to the group, if there is room for it.
    pub fn push(&mut self, slave: Slave) -> (pushed: Result<(), Error>)
        ensures
            pushed == if old(self)@.slaves.len() < old(self)@.max_slaves {
                Ok(())
            } else {
                Err(Error::Capacity(Item::Slave))
            },
            final(self)@ == if pushed is Ok {
                old(self)@.with_slave(slave)
            } else {
                old(self)@
            },
    {
        if self.inner.slaves.len() < self.max_slaves {
            self.inner.slaves.push(slave);
            Ok(())
        } else {
            Err(Error::Capacity(Item::Slave))
        }
    }
}

/// A new group is empty, and as a group of any size it has room for as many slaves and for as many
/// bytes as it was made for.
pub proof fn law_group_has_the_size_it_was_made_for<const MAX_SLAVES: usize, const MAX_PDI: usize>(
    id: usize,
    hook: bool,
    group: SlaveGroup<MAX_SLAVES, MAX_PDI>,
    reference: SlaveGroupRef,
)
    requires
        call_ensures(SlaveGroup::<MAX_SLAVES, MAX_PDI>::new, (id, hook), group),
        call_ensures(SlaveGroupRef::new::<MAX_SLAVES, MAX_PDI>, (group,), reference),
    ensures
        reference.id == id,
        reference.preop_safeop_hook == hook,
        reference.max_slaves == MAX_SLAVES,
        reference.max_pdi_len == MAX_PDI,
        reference.inner.slaves@.len() == 0,
        reference.inner.read_pdi_len == 0 && reference.inner.pdi_len == 0,
        reference.inner.start_address == 0 && reference.inner.group_working_counter == 0,
{
}

/// A slave is added to a group exactly if the group holds fewer slaves than it has room for, whatever
/// the size of its process data. It comes after the slaves that are there. Nothing else changes.
pub proof fn law_group_takes_slaves_up_to_its_size(
    group: &mut SlaveGroupRef,
    slave: Slave,
    pushed: Result<(), Error>,
)
    requires
        call_ensures(SlaveGroupRef::push, (group, slave), pushed),
    ensures
        pushed is Ok <==> old(group).inner.slaves@.len() < old(group).max_slaves,
        pushed matches Err(e) ==> e == Error::Capacity(Item::Slave) && final(group)@ == old(group)@,
        pushed is Ok ==> {
            let slaves = final(group).inner.slaves@;
            &&& slaves.len() == old(group).inner.slaves@.len() + 1
            &&& slaves.last() == slave
            &&& forall|i: int|
                0 <= i < old(group).inner.slaves@.len() ==> #[trigger] slaves[i] == old(
                    group).inner.slaves@[i]
        },
        final(group).id == old(group).id,
        final(group).max_slaves == old(group).max_slaves,
        final(group).max_pdi_len == old(group).max_pdi_len,
        final(group).preop_safeop_hook == old(group).preop_safeop_hook,
        final(group).inner.read_pdi_len == old(group).inner.read_pdi_len,
        final(group).inner.pdi_len == old(group).inner.pdi_len,
        final(group).inner.start_address == old(group).inner.start_address,
        final(group).inner.group_working_counter == old(group).inner.group_working_counter,
{
    assert(final(group)@.id == final(group).id);
    assert(final(group)@.slaves == final(group).inner.slaves@);
}

} // verus!
