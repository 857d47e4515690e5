//! Sharding: the key space is cut into 16384 slots, each key falls into
//! the slot that its CRC16 names, and each slot belongs to a node.

use vstd::prelude::*;
use super::node::{bump_epoch, next_epoch, NodeId};

verus! {

/// Total number of slots.
pub const TOTAL_SLOTS: u16 = 16384;

/// A single slot.
#[derive(Debug, Clone, Copy, PartialEq, Eq, Structural)]
pub struct Slot(pub u16);

/// One step of the CRC: the register moves left by one bit, and the
/// polynomial 0x1021 is added where a one fell out.
pub open spec fn crc16_shift(crc: u16) -> u16 {
    if crc & 0x8000 != 0 {
        (crc << 1) ^ 0x1021
    } else {
        crc << 1
    }
}

/// The register after one more byte: the byte is added to the high half,
/// then the register takes eight steps.
pub open spec fn crc16_byte(crc: u16, byte: u8) -> u16 {
    crc16_shift(
        crc16_shift(
            crc16_shift(
                crc16_shift(
                    crc16_shift(
                        crc16_shift(crc16_shift(crc16_shift(crc ^ ((byte as u16) << 8)))),
                    ),
                ),
            ),
        ),
    )
}

/// CRC16 of the XMODEM kind: polynomial 0x1021, start value zero, most
/// significant bit first.
pub open spec fn crc16_of(data: Seq<u8>) -> u16
    decreases data.len(),
{
    if data.len() == 0 {
        0
    } else {
        crc16_byte(crc16_of(data.drop_last()), data.last())
    }
}

fn shift(crc: u16) -> (r: u16)
    ensures
        r == crc16_shift(crc),
{
    if crc & 0x8000 != 0 {
        (crc << 1) ^ 0x1021
    } else {
        crc << 1
    }
}

/// Computes the CRC16 of `data`.
pub fn crc16(data: &[u8]) -> (crc: u16)
    ensures
        crc == crc16_of(data@),
{
    let mut crc: u16 = 0;
    let mut i: usize = 0;
    assert(data@.take(0) =~= Seq::<u8>::empty());
    while i < data.len()
        invariant
            i <= data@.len(),
            crc == crc16_of(data@.take(i as int)),
        decreases data@.len() - i,
    {
        proof {
            let next = data@.take(i + 1);
            assert(next.drop_last() =~= data@.take(i as int));
            assert(next.last() == data@[i as int]);
        }
        crc = crc ^ ((data[i] as u16) << 8);
        crc = shift(crc);
        crc = shift(crc);
        crc = shift(crc);
        crc = shift(crc);
        crc = shift(crc);
        crc = shift(crc);
        crc = shift(crc);
        crc = shift(crc);
        i += 1;
    }
    assert(data@.take(data@.len() as int) =~= data@);
    crc
}

impl Slot {
    /// The slot of this number.
    pub fn new(slot: u16) -> (s: Slot)
        ensures
            s == Slot(slot),
    {
        Slot(slot)
    }

    /// The slot of a key: its CRC16 modulo the number of slots.
    pub fn from_key(key: &[u8]) -> (s: Slot)
        ensures
            s.0 == crc16_of(key@) % TOTAL_SLOTS,
            s.0 < TOTAL_SLOTS,
    {
        let hash = crc16(key);
        Slot(hash % TOTAL_SLOTS)
    }
}

/// A range of slots, both ends included.
#[derive(Debug, Clone, Copy, PartialEq, Eq, Structural)]
pub struct SlotRange {
    pub start: u16,
    pub end: u16,
}

impl SlotRange {
    /// The range is not empty and lies within the slots.
    pub open spec fn wf(&self) -> bool {
        self.start <= self.end < TOTAL_SLOTS
    }

    /// The range from `start` to `end`.
    pub fn new(start: u16, end: u16) -> (r: SlotRange)
        ensures
            r == (SlotRange { start, end }),
    {
        SlotRange { start, end }
    }

    /// Whether the range holds the slot.
    pub fn contains(&self, slot: Slot) -> (r: bool)
        ensures
            r == (self.start <= slot.0 <= self.end),
    {
        slot.0 >= self.start && slot.0 <= self.end
    }

    /// The number of slots of the range.
    pub fn count(&self) -> (n: u16)
        requires
            self.wf(),
        ensures
            n == self.end - self.start + 1,
    {
        self.end - self.start + 1
    }
}

/// A range of slots in the hands of a node.
#[derive(Debug, Clone, Copy, PartialEq, Eq, Structural)]
pub struct SlotAssignment {
    pub node_id: NodeId,
    pub range: SlotRange,
    /// The node that the range is moving to.
    pub migrating_to: Option<NodeId>,
    /// The node that the range is coming from.
    pub importing_from: Option<NodeId>,
}

/// The slot at which the share of node `i` starts, where the slots are
/// dealt out to the nodes in their order, `per` to each and one more to
/// each of the first `extra`.
pub open spec fn share_start(i: int, per: int, extra: int) -> int
    decreases i,
{
    if i <= 0 {
        0
    } else {
        share_start(i - 1, per, extra) + per + if i - 1 < extra {
            1int
        } else {
            0int
        }
    }
}

/// Where a share starts, in closed form.
proof fn lemma_share_start(i: int, per: int, extra: int)
    requires
        0 <= i,
        0 <= per,
        0 <= extra,
    ensures
        share_start(i, per, extra) == i * per + if i < extra {
            i
        } else {
            extra
        },
    decreases i,
{
    if i == 0 {
        assert(i * per == 0) by (nonlinear_arith)
            requires
                i == 0,
        ;
    } else {
        lemma_share_start(i - 1, per, extra);
        let a = (i - 1) * per;
        let b = i * per;
        assert(b == a + per) by (nonlinear_arith)
            requires
                a == (i - 1) * per,
                b == i * per,
        ;
    }
}

/// Whether the shares of the first `upto` nodes are in their hands.
pub open spec fn dealt(
    owners: Seq<Option<NodeId>>,
    nodes: Seq<NodeId>,
    upto: int,
    per: int,
    extra: int,
) -> bool {
    forall|j: int, s: int|
        0 <= j < upto && share_start(j, per, extra) <= s < share_start(j + 1, per, extra) ==> (
        #[trigger] owners[s]) == Some(#[trigger] nodes[j])
}

/// Where the share of node `i` is handed to it and nothing else changes,
/// the shares of the first `i + 1` nodes are in their hands.
proof fn lemma_dealt_step(
    before: Seq<Option<NodeId>>,
    after: Seq<Option<NodeId>>,
    nodes: Seq<NodeId>,
    i: int,
    per: int,
    extra: int,
)
    requires
        0 <= i < nodes.len(),
        0 <= per,
        dealt(before, nodes, i, per, extra),
        before.len() == TOTAL_SLOTS,
        after.len() == TOTAL_SLOTS,
        share_start(i + 1, per, extra) <= TOTAL_SLOTS,
        forall|s: int|
            0 <= s < TOTAL_SLOTS ==> after[s] == if share_start(i, per, extra) <= s < share_start(
                i + 1,
                per,
                extra,
            ) {
                Some(nodes[i])
            } else {
                before[s]
            },
    ensures
        dealt(after, nodes, i + 1, per, extra),
{
    assert forall|j: int, s: int|
        0 <= j < i + 1 && share_start(j, per, extra) <= s < share_start(
            j + 1,
            per,
            extra,
        ) implies (#[trigger] after[s]) == Some(#[trigger] nodes[j]) by {
        lemma_share_monotone(0, j, per, extra);
        lemma_share_monotone(j + 1, i + 1, per, extra);
        if j < i {
            lemma_share_monotone(j + 1, i, per, extra);
            assert(before[s] == Some(nodes[j]));
        }
    }
}

/// A later share starts no earlier.
proof fn lemma_share_monotone(a: int, b: int, per: int, extra: int)
    requires
        0 <= a <= b,
        0 <= per,
    ensures
        share_start(a, per, extra) <= share_start(b, per, extra),
    decreases b,
{
    if a < b {
        lemma_share_monotone(a, b - 1, per, extra);
    }
}

/// The number of the first `n` slots that equal `owner`.
pub open spec fn owned_among(slots: Seq<Option<NodeId>>, n: int, owner: Option<NodeId>) -> int
    decreases n,
{
    if n <= 0 {
        0
    } else {
        owned_among(slots, n - 1, owner) + if slots[n - 1] == owner {
            1int
        } else {
            0int
        }
    }
}

/// An owner has no more slots than there are.
proof fn lemma_owned_bound(slots: Seq<Option<NodeId>>, n: int, owner: Option<NodeId>)
    requires
        0 <= n <= slots.len(),
    ensures
        0 <= owned_among(slots, n, owner) <= n,
    decreases n,
{
    if n > 0 {
        lemma_owned_bound(slots, n - 1, owner);
    }
}

/// Whether a table of migrations names `slot`.
pub open spec fn migrating(migrations: Seq<(u16, NodeId)>, slot: u16) -> bool {
    exists|i: int| 0 <= i < migrations.len() && (#[trigger] migrations[i]).0 == slot
}

/// The place of `slot` in a table of migrations that names it.
pub open spec fn migration_index(migrations: Seq<(u16, NodeId)>, slot: u16) -> int {
    choose|i: int| 0 <= i < migrations.len() && (#[trigger] migrations[i]).0 == slot
}

/// The ranges that were given to each node, in the order in which the
/// nodes got their first.
pub type RangeTable = Seq<(NodeId, Seq<SlotRange>)>;

/// A table of ranges with one more for a node: behind the ranges that the
/// node has, or as the first of the node, behind all other nodes.
pub open spec fn noted(table: RangeTable, node_id: NodeId, range: SlotRange) -> RangeTable
    decreases table.len(),
{
    if table.len() == 0 {
        seq![(node_id, seq![range])]
    } else if table[0].0 == node_id {
        seq![(node_id, table[0].1.push(range))] + table.skip(1)
    } else {
        seq![table[0]] + noted(table.skip(1), node_id, range)
    }
}

/// The ranges that a node has in a table: those of its entry, or none
/// where it has no entry.
pub open spec fn ranges_in(table: RangeTable, node_id: NodeId) -> Seq<SlotRange>
    decreases table.len(),
{
    if table.len() == 0 {
        Seq::empty()
    } else if table[0].0 == node_id {
        table[0].1
    } else {
        ranges_in(table.skip(1), node_id)
    }
}

/// Noting a range changes the first entry of the node, or adds an entry
/// where the node has none.
proof fn lemma_noted(table: RangeTable, node_id: NodeId, range: SlotRange, at: int)
    requires
        0 <= at <= table.len(),
        forall|j: int| 0 <= j < at ==> (#[trigger] table[j]).0 != node_id,
        at < table.len() ==> table[at].0 == node_id,
    ensures
        noted(table, node_id, range) == if at < table.len() {
            table.update(at, (node_id, table[at].1.push(range)))
        } else {
            table.push((node_id, seq![range]))
        },
    decreases table.len(),
{
    if table.len() == 0 {
        assert(table.push((node_id, seq![range])) =~= seq![(node_id, seq![range])]);
    } else if at == 0 {
        assert(seq![(node_id, table[0].1.push(range))] + table.skip(1) =~= table.update(
            0,
            (node_id, table[0].1.push(range)),
        ));
    } else {
        let tail = table.skip(1);
        assert(table[0].0 != node_id);
        assert forall|j: int| 0 <= j < at - 1 implies (#[trigger] tail[j]).0 != node_id by {
            assert(tail[j] == table[j + 1]);
        }
        lemma_noted(tail, node_id, range, at - 1);
        if at < table.len() {
            assert(tail[at - 1] == table[at]);
            assert(seq![table[0]] + tail.update(at - 1, (node_id, table[at].1.push(range)))
                =~= table.update(at, (node_id, table[at].1.push(range))));
        } else {
            assert(seq![table[0]] + tail.push((node_id, seq![range])) =~= table.push(
                (node_id, seq![range]),
            ));
        }
    }
}

/// The epoch after `n` changes: as many more, up to the greatest number
/// that the counter holds.
pub open spec fn advanced(epoch: u64, n: int) -> u64 {
    if epoch + n <= u64::MAX {
        (epoch + n) as u64
    } else {
        u64::MAX
    }
}

/// The range that is the share of node `i`.
pub open spec fn share_range(i: int, per: int, extra: int) -> SlotRange {
    SlotRange {
        start: share_start(i, per, extra) as u16,
        end: (share_start(i + 1, per, extra) - 1) as u16,
    }
}

/// The table of ranges after the shares of the first `upto` nodes were
/// noted, each for its node, in the order of the nodes.
pub open spec fn dealt_ranges(
    table: RangeTable,
    nodes: Seq<NodeId>,
    upto: int,
    per: int,
    extra: int,
) -> RangeTable
    decreases upto,
{
    if upto <= 0 {
        table
    } else {
        noted(
            dealt_ranges(table, nodes, upto - 1, per, extra),
            nodes[upto - 1],
            share_range(upto - 1, per, extra),
        )
    }
}

/// Shard manager: which node owns which slot, which ranges each node was
/// given, and which slots are on their way to another node.
pub struct ShardManager {
    slots: Vec<Option<NodeId>>,
    node_slots: Vec<(NodeId, Vec<SlotRange>)>,
    migrations: Vec<(u16, NodeId)>,
    epoch: u64,
}

impl ShardManager {
    /// The owner of each slot.
    pub closed spec fn owners(&self) -> Seq<Option<NodeId>> {
        self.slots@
    }

    /// The ranges that each node was given.
    pub closed spec fn ranges(&self) -> RangeTable {
        Seq::new(
            self.node_slots@.len(),
            |i: int| (self.node_slots@[i].0, self.node_slots@[i].1@),
        )
    }

    /// The slots that are migrating, each with its target.
    pub closed spec fn migrations(&self) -> Seq<(u16, NodeId)> {
        self.migrations@
    }

    /// The count of changes of the assignment.
    pub closed spec fn spec_epoch(&self) -> u64 {
        self.epoch
    }

    /// There is an owner entry for each slot, and no slot migrates twice.
    pub open spec fn wf(&self) -> bool {
        &&& self.owners().len() == TOTAL_SLOTS
        &&& forall|i: int, j: int|
            0 <= i < j < self.migrations().len() ==> (#[trigger] self.migrations()[i]).0 != (
            #[trigger] self.migrations()[j]).0
    }

    /// A manager in which no slot has an owner.
    pub fn new() -> (m: ShardManager)
        ensures
            m.wf(),
            forall|s: int| 0 <= s < TOTAL_SLOTS ==> m.owners()[s] is None,
            m.migrations().len() == 0,
            m.ranges().len() == 0,
            m.spec_epoch() == 0,
    {
        let mut slots: Vec<Option<NodeId>> = Vec::new();
        let mut i: u16 = 0;
        while i < TOTAL_SLOTS
            invariant
                i <= TOTAL_SLOTS,
                slots@.len() == i,
                forall|s: int| 0 <= s < i ==> slots@[s] is None,
            decreases TOTAL_SLOTS - i,
        {
            slots.push(None);
            i += 1;
        }
        ShardManager { slots, node_slots: Vec::new(), migrations: Vec::new(), epoch: 0 }
    }

    /// The node that owns the slot of a key.
    pub fn get_node_for_key(&self, key: &[u8]) -> (r: Option<NodeId>)
        requires
            self.wf(),
        ensures
            r == self.owners()[(crc16_of(key@) % TOTAL_SLOTS) as int],
    {
        let slot = Slot::from_key(key);
        self.get_node_for_slot(slot)
    }

    /// The node that owns a slot.
    pub fn get_node_for_slot(&self, slot: Slot) -> (r: Option<NodeId>)
        requires
            self.wf(),
            slot.0 < TOTAL_SLOTS,
        ensures
            r == self.owners()[slot.0 as int],
    {
        self.slots[slot.0 as usize]
    }

    /// The ranges that a node was given, in the order in which it got
    /// them.
    pub fn node_ranges(&self, node_id: NodeId) -> (r: Vec<SlotRange>)
        ensures
            r@ == ranges_in(self.ranges(), node_id),
    {
        let ghost table = self.ranges();
        let mut i: usize = 0;
        assert(table.skip(0) =~= table);
        while i < self.node_slots.len()
            invariant
                i <= self.node_slots@.len(),
                table == self.ranges(),
                ranges_in(table, node_id) == ranges_in(table.skip(i as int), node_id),
            decreases self.node_slots@.len() - i,
        {
            let ghost rest = table.skip(i as int);
            assert(rest[0] == table[i as int]);
            if self.node_slots[i].0 == node_id {
                return self.node_slots[i].1.clone();
            }
            assert(rest.skip(1) =~= table.skip(i + 1));
            i += 1;
        }
        assert(table.skip(i as int).len() == 0);
        Vec::new()
    }

    /// Notes that a node was given a range: behind the ranges that the
    /// node has, or as its first.
    fn note_range(&mut self, node_id: NodeId, range: SlotRange)
        ensures
            final(self).ranges() == noted(old(self).ranges(), node_id, range),
            final(self).slots == old(self).slots,
            final(self).migrations == old(self).migrations,
            final(self).epoch == old(self).epoch,
    {
        let ghost before = self.ranges();
        let mut i: usize = 0;
        while i < self.node_slots.len()
            invariant
                i <= self.node_slots@.len(),
                self.ranges() == before,
                before == old(self).ranges(),
                forall|j: int| 0 <= j < i ==> (#[trigger] before[j]).0 != node_id,
                self.slots == old(self).slots,
                self.migrations == old(self).migrations,
                self.epoch == old(self).epoch,
            decreases self.node_slots@.len() - i,
        {
            assert(before[i as int].0 == self.node_slots@[i as int].0);
            if self.node_slots[i].0 == node_id {
                let (id, mut ranges) = self.node_slots.remove(i);
                assert(ranges@ == before[i as int].1);
                ranges.push(range);
                self.node_slots.insert(i, (id, ranges));
                proof {
                    lemma_noted(before, node_id, range, i as int);
                    assert(self.ranges() =~= before.update(
                        i as int,
                        (node_id, before[i as int].1.push(range)),
                    ));
                }
                return ;
            }
            i += 1;
        }
        let mut ranges: Vec<SlotRange> = Vec::new();
        ranges.push(range);
        self.node_slots.push((node_id, ranges));
        proof {
            lemma_noted(before, node_id, range, before.len() as int);
            assert(self.ranges() =~= before.push((node_id, seq![range])));
        }
    }

    /// Gives the slots of a range to a node.
    pub fn assign_slots(&mut self, node_id: NodeId, range: SlotRange)
        requires
            old(self).wf(),
            range.wf(),
        ensures
            final(self).wf(),
            final(self).migrations() == old(self).migrations(),
            final(self).spec_epoch() == next_epoch(old(self).spec_epoch()),
            final(self).ranges() == noted(old(self).ranges(), node_id, range),
            forall|s: int|
                0 <= s < TOTAL_SLOTS ==> final(self).owners()[s] == if range.start <= s
                    <= range.end {
                    Some(node_id)
                } else {
                    old(self).owners()[s]
                },
    {
        let mut slot: u16 = range.start;
        while slot <= range.end
            invariant
                range.wf(),
                old(self).wf(),
                range.start <= slot <= range.end + 1,
                self.slots@.len() == TOTAL_SLOTS,
                self.migrations == old(self).migrations,
                self.node_slots == old(self).node_slots,
                self.epoch == old(self).epoch,
                forall|s: int|
                    0 <= s < TOTAL_SLOTS ==> self.slots@[s] == if range.start <= s < slot {
                        Some(node_id)
                    } else {
                        old(self).slots@[s]
                    },
            decreases range.end + 1 - slot,
        {
            self.slots.set(slot as usize, Some(node_id));
            slot += 1;
        }
        self.note_range(node_id, range);
        self.epoch = bump_epoch(self.epoch);
        assert(self.migrations() == old(self).migrations());
    }

    /// Deals the slots out to the nodes in their order, as evenly as it
    /// goes: each gets the whole part of 16384 divided by their number,
    /// and the first few one more. Each share is one range, noted for its
    /// node, and counts as one change. Without nodes nothing changes.
    pub fn distribute_slots(&mut self, nodes: &[NodeId])
        requires
            old(self).wf(),
            nodes@.len() <= TOTAL_SLOTS,
        ensures
            final(self).wf(),
            final(self).migrations() == old(self).migrations(),
            nodes@.len() == 0 ==> final(self).owners() == old(self).owners()
                && final(self).ranges() == old(self).ranges(),
            final(self).spec_epoch() == advanced(old(self).spec_epoch(), nodes@.len() as int),
            nodes@.len() > 0 ==> final(self).ranges() == dealt_ranges(
                old(self).ranges(),
                nodes@,
                nodes@.len() as int,
                TOTAL_SLOTS as int / nodes@.len() as int,
                TOTAL_SLOTS as int % nodes@.len() as int,
            ),
            nodes@.len() > 0 ==> dealt(
                final(self).owners(),
                nodes@,
                nodes@.len() as int,
                TOTAL_SLOTS as int / nodes@.len() as int,
                TOTAL_SLOTS as int % nodes@.len() as int,
            ) && share_start(
                nodes@.len() as int,
                TOTAL_SLOTS as int / nodes@.len() as int,
                TOTAL_SLOTS as int % nodes@.len() as int,
            ) == TOTAL_SLOTS,
    {
        if nodes.len() == 0 {
            return ;
        }
        let n = nodes.len();
        let slots_per_node: usize = TOTAL_SLOTS as usize / n;
        let extra: usize = TOTAL_SLOTS as usize % n;
        let ghost per = slots_per_node as int;
        let ghost ext = extra as int;
        proof {
            assert(n * per + ext == 16384) by (nonlinear_arith)
                requires
                    per == 16384int / (n as int),
                    ext == 16384int % (n as int),
                    n > 0,
            ;
            assert(per >= 1) by (nonlinear_arith)
                requires
                    per == 16384int / (n as int),
                    0 < n <= 16384,
            ;
        }
        assert(slots_per_node <= 16384);
        proof {
            lemma_share_start(n as int, per, ext);
        }
        let mut start: usize = 0;
        let mut i: usize = 0;
        while i < n
            invariant
                i <= n,
                n == nodes@.len(),
                0 < n <= 16384,
                slots_per_node <= 16384,
                per == slots_per_node,
                ext == extra,
                per >= 1,
                0 <= ext < n,
                n * per + ext == 16384,
                start == share_start(i as int, per, ext),
                self.wf(),
                self.migrations() == old(self).migrations(),
                self.spec_epoch() == advanced(old(self).spec_epoch(), i as int),
                self.ranges() == dealt_ranges(old(self).ranges(), nodes@, i as int, per, ext),
                dealt(self.owners(), nodes@, i as int, per, ext),
            decreases n - i,
        {
            let count: usize = slots_per_node + if i < extra {
                1
            } else {
                0
            };
            proof {
                lemma_share_start(i as int, per, ext);
                lemma_share_start(i + 1, per, ext);
                lemma_share_start(n as int, per, ext);
                assert((i + 1) * per <= n * per) by (nonlinear_arith)
                    requires
                        i + 1 <= n,
                        per >= 0,
                ;
            }
            assert(share_start(i + 1, per, ext) == start + count);
            assert(start + count <= 16384);
            let end: usize = start + count - 1;
            let node_id = nodes[i];
            let ghost before = self.owners();
            self.assign_slots(node_id, SlotRange::new(start as u16, end as u16));
            proof {
                lemma_dealt_step(before, self.owners(), nodes@, i as int, per, ext);
            }
            start = end + 1;
            i += 1;
        }
    }

    fn find_migration(&self, slot: u16) -> (r: Option<usize>)
        ensures
            match r {
                Some(i) => i < self.migrations().len() && self.migrations()[i as int].0 == slot,
                None => !migrating(self.migrations(), slot),
            },
    {
        let mut i: usize = 0;
        while i < self.migrations.len()
            invariant
                i <= self.migrations@.len(),
                forall|j: int| 0 <= j < i ==> (#[trigger] self.migrations@[j]).0 != slot,
            decreases self.migrations@.len() - i,
        {
            if self.migrations[i].0 == slot {
                return Some(i);
            }
            i += 1;
        }
        None
    }

    /// Notes that a slot is on its way to a node, in the place of any
    /// target noted before.
    pub fn start_migration(&mut self, slot: u16, to_node: NodeId)
        requires
            old(self).wf(),
        ensures
            final(self).wf(),
            final(self).ranges() == old(self).ranges(),
            final(self).owners() == old(self).owners(),
            final(self).spec_epoch() == old(self).spec_epoch(),
            migrating(final(self).migrations(), slot),
            final(self).migrations()[migration_index(final(self).migrations(), slot)].1 == to_node,
            forall|other: u16|
                other != slot ==> migrating(final(self).migrations(), other) == migrating(
                    old(self).migrations(),
                    other,
                )
                    && (migrating(old(self).migrations(), other)
                        ==> final(self).migrations()[migration_index(final(self).migrations(),
                            other)].1 == old(self).migrations()[migration_index(old(self).migrations(), other)].1),
    {
        let ghost before = self.migrations@;
        match self.find_migration(slot) {
            Some(i) => {
                self.migrations.set(i, (slot, to_node));
            },
            None => {
                self.migrations.push((slot, to_node));
            },
        }
        proof {
            let after = self.migrations@;
            let w = if migrating(before, slot) {
                migration_index(before, slot)
            } else {
                before.len() as int
            };
            lemma_unique_index(before, slot);
            assert(after[w] == (slot, to_node));
            assert forall|a: int, b: int| 0 <= a < b < after.len() implies (
            #[trigger] after[a]).0 != (#[trigger] after[b]).0 by {
                if b < before.len() {
                    assert(before[a].0 != before[b].0);
                }
                if a < before.len() && a != w {
                    assert(after[a] == before[a]);
                }
                if b < before.len() && b != w {
                    assert(after[b] == before[b]);
                }
            }
            lemma_unique_index(after, slot);
            assert forall|other: u16| other != slot implies migrating(after, other) == migrating(
                before,
                other,
            ) && (migrating(before, other) ==> after[migration_index(after, other)].1
                == before[migration_index(before, other)].1) by {
                if migrating(before, other) {
                    let k = migration_index(before, other);
                    assert(after[k] == before[k]);
                    lemma_unique_index(after, other);
                }
                if migrating(after, other) {
                    let k = migration_index(after, other);
                    assert(before[k] == after[k]);
                }
            }
        }
    }

    /// Ends the migration of a slot: the slot now belongs to its target.
    /// A slot that is not migrating stays as it is.
    pub fn complete_migration(&mut self, slot: u16)
        requires
            old(self).wf(),
            slot < TOTAL_SLOTS,
        ensures
            final(self).wf(),
            final(self).ranges() == old(self).ranges(),
            !migrating(final(self).migrations(), slot),
            !migrating(old(self).migrations(), slot) ==> final(self).owners() == old(self).owners()
                && final(self).migrations() == old(self).migrations()
                && final(self).spec_epoch() == old(self).spec_epoch(),
            migrating(old(self).migrations(), slot)
                ==> final(self).owners() == old(self).owners().update(
                slot as int,
                Some(old(self).migrations()[migration_index(old(self).migrations(), slot)].1),
            ) && final(self).migrations() == old(self).migrations().remove(
                migration_index(old(self).migrations(), slot),
            ) && final(self).spec_epoch() == next_epoch(old(self).spec_epoch()),
    {
        let ghost before = self.migrations@;
        match self.find_migration(slot) {
            Some(i) => {
                proof {
                    lemma_unique_index(before, slot);
                }
                let (_, to_node) = self.migrations.remove(i);
                self.slots.set(slot as usize, Some(to_node));
                self.epoch = bump_epoch(self.epoch);
                proof {
                    lemma_removed(before, i as int);
                }
            },
            None => {},
        }
    }

    /// Forgets the migration of a slot.
    pub fn cancel_migration(&mut self, slot: u16)
        requires
            old(self).wf(),
        ensures
            final(self).wf(),
            final(self).ranges() == old(self).ranges(),
            final(self).owners() == old(self).owners(),
            final(self).spec_epoch() == old(self).spec_epoch(),
            !migrating(final(self).migrations(), slot),
            final(self).migrations() == if migrating(old(self).migrations(), slot) {
                old(self).migrations().remove(migration_index(old(self).migrations(), slot))
            } else {
                old(self).migrations()
            },
    {
        let ghost before = self.migrations@;
        match self.find_migration(slot) {
            Some(i) => {
                proof {
                    lemma_unique_index(before, slot);
                }
                self.migrations.remove(i);
                proof {
                    lemma_removed(before, i as int);
                }
            },
            None => {},
        }
    }

    /// The node that a slot is migrating to, if it is migrating.
    pub fn is_migrating(&self, slot: u16) -> (r: Option<NodeId>)
        requires
            self.wf(),
        ensures
            r is Some <==> migrating(self.migrations(), slot),
            r matches Some(node) ==> node == self.migrations()[migration_index(
                self.migrations(),
                slot,
            )].1,
    {
        match self.find_migration(slot) {
            Some(i) => {
                proof {
                    lemma_unique_index(self.migrations@, slot);
                }
                Some(self.migrations[i].1)
            },
            None => None,
        }
    }

    /// The slots of a node, in ascending order.
    pub fn get_node_slots(&self, node_id: NodeId) -> (r: Vec<u16>)
        requires
            self.wf(),
        ensures
            r@.len() == owned_among(self.owners(), TOTAL_SLOTS as int, Some(node_id)),
            forall|i: int|
                0 <= i < r@.len() ==> r@[i] < TOTAL_SLOTS && self.owners()[r@[i] as int] == Some(
                    node_id,
                ),
            forall|i: int, j: int| 0 <= i < j < r@.len() ==> r@[i] < r@[j],
            forall|s: int|
                0 <= s < TOTAL_SLOTS && self.owners()[s] == Some(node_id) ==> exists|i: int|
                    0 <= i < r@.len() && #[trigger] r@[i] == s,
    {
        let mut out: Vec<u16> = Vec::new();
        let mut s: u16 = 0;
        while s < TOTAL_SLOTS
            invariant
                s <= TOTAL_SLOTS,
                self.slots@.len() == TOTAL_SLOTS,
                out@.len() == owned_among(self.slots@, s as int, Some(node_id)),
                out@.len() <= s,
                forall|i: int|
                    0 <= i < out@.len() ==> out@[i] < s && self.slots@[out@[i] as int] == Some(
                        node_id,
                    ),
                forall|i: int, j: int| 0 <= i < j < out@.len() ==> out@[i] < out@[j],
                forall|t: int|
                    0 <= t < s && self.slots@[t] == Some(node_id) ==> exists|i: int|
                        0 <= i < out@.len() && #[trigger] out@[i] == t,
            decreases TOTAL_SLOTS - s,
        {
            if self.slots[s as usize] == Some(node_id) {
                let ghost before = out@;
                out.push(s);
                proof {
                    assert forall|t: int|
                        0 <= t < s + 1 && self.slots@[t] == Some(node_id) implies exists|i: int|
                        0 <= i < out@.len() && #[trigger] out@[i] == t by {
                        if t < s {
                            let i = choose|i: int| 0 <= i < before.len() && #[trigger] before[i]
                                == t;
                            assert(out@[i] == t);
                        } else {
                            assert(out@[before.len() as int] == t);
                        }
                    }
                }
            }
            s += 1;
        }
        out
    }

    /// The number of slots of a node.
    pub fn get_node_slot_count(&self, node_id: NodeId) -> (n: usize)
        requires
            self.wf(),
        ensures
            n == owned_among(self.owners(), TOTAL_SLOTS as int, Some(node_id)),
    {
        self.get_node_slots(node_id).len()
    }

    /// The count of changes of the assignment.
    pub fn epoch(&self) -> (e: u64)
        ensures
            e == self.spec_epoch(),
    {
        self.epoch
    }

    /// The number of slots that have an owner.
    pub fn assigned_slot_count(&self) -> (n: usize)
        requires
            self.wf(),
        ensures
            n == TOTAL_SLOTS - owned_among(self.owners(), TOTAL_SLOTS as int, None),
    {
        let mut n: usize = 0;
        let mut s: u16 = 0;
        while s < TOTAL_SLOTS
            invariant
                s <= TOTAL_SLOTS,
                self.slots@.len() == TOTAL_SLOTS,
                n == s - owned_among(self.slots@, s as int, None),
                n <= s,
            decreases TOTAL_SLOTS - s,
        {
            if self.slots[s as usize].is_some() {
                n += 1;
            }
            s += 1;
        }
        n
    }
}

impl Default for ShardManager {
    fn default() -> (m: ShardManager)
        ensures
            m.wf(),
    {
        ShardManager::new()
    }
}

/// In a table without repeated slots, the place of a slot is the only one
/// that holds it.
proof fn lemma_unique_index(table: Seq<(u16, NodeId)>, slot: u16)
    requires
        forall|i: int, j: int|
            0 <= i < j < table.len() ==> (#[trigger] table[i]).0 != (#[trigger] table[j]).0,
    ensures
        forall|i: int|
            0 <= i < table.len() && (#[trigger] table[i]).0 == slot ==> migration_index(
                table,
                slot,
            ) == i,
{
    assert forall|i: int| 0 <= i < table.len()
        && (#[trigger] table[i]).0 == slot implies migration_index(
        table,
        slot,
    ) == i by {
        let c = migration_index(table, slot);
        if c < i {
            assert(table[c].0 != table[i].0);
        } else if c > i {
            assert(table[i].0 != table[c].0);
        }
    }
}

/// A table without repeated slots has none repeated after a removal, and
/// no longer holds the slot that was removed.
proof fn lemma_removed(table: Seq<(u16, NodeId)>, at: int)
    requires
        0 <= at < table.len(),
        forall|i: int, j: int|
            0 <= i < j < table.len() ==> (#[trigger] table[i]).0 != (#[trigger] table[j]).0,
    ensures
        !migrating(table.remove(at), table[at].0),
        forall|i: int, j: int|
            0 <= i < j < table.remove(at).len() ==> (#[trigger] table.remove(at)[i]).0 != (
            #[trigger] table.remove(at)[j]).0,
{
    let after = table.remove(at);
    assert forall|k: int| 0 <= k < after.len() implies (#[trigger] after[k]).0 != table[at].0 by {
        if k < at {
            assert(after[k] == table[k]);
            assert(table[k].0 != table[at].0);
        } else {
            assert(after[k] == table[k + 1]);
            assert(table[at].0 != table[k + 1].0);
        }
    }
    assert forall|a: int, b: int| 0 <= a < b < after.len() implies (#[trigger] after[a]).0 != (
    #[trigger] after[b]).0 by {
        let a0 = if a < at {
            a
        } else {
            a + 1
        };
        let b0 = if b < at {
            b
        } else {
            b + 1
        };
        assert(after[a] == table[a0] && after[b] == table[b0]);
        assert(table[a0].0 != table[b0].0);
    }
}

} // verus!
