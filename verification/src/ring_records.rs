//! A meadow level's blades as **records**, not geometry.
//!
//! Every level keeps three things: an index mesh all its chunks share, a buffer
//! with one 16-byte record per blade, and a book of **slots** saying which chunk
//! lives in which. Every chunk of a level carries exactly the same number of
//! blades, so a slot is an index with a fixed stride, never a range: released
//! slots are simply handed out again and the buffer never fragments.
//!
//! The two handle types (`M` for the shared mesh, `B` for the GPU buffer) are
//! whatever the renderer uses; this book only carries them.

use std::collections::HashMap;
use vstd::prelude::*;

verus! {

broadcast use vstd::std_specs::hash::group_hash_axioms;

/// A chunk's cell on a ring's chunk grid.
#[derive(Clone, Copy, PartialEq, Eq, Debug, Hash, Structural)]
pub struct ChunkCell {
    pub x: i32,
    pub z: i32,
}

/// Bytes per record: four 32-bit lanes.
pub const RECORD_BYTES: usize = 16;

/// The key a cell is stored under: both coordinates packed into one word.
pub open spec fn cell_key(cell: ChunkCell) -> u64 {
    ((cell.x as u32 as u64) << 32u64) | (cell.z as u32 as u64)
}

/// The cell stored under a key.
pub open spec fn key_cell(key: u64) -> ChunkCell {
    ChunkCell { x: (key >> 32u64) as u32 as i32, z: key as u32 as i32 }
}

proof fn key_round_trips(cell: ChunkCell, key: u64)
    ensures
        key_cell(cell_key(cell)) == cell,
        cell_key(key_cell(key)) == key,
{
    let x = cell.x;
    let z = cell.z;
    assert((((((x as u32 as u64) << 32u64) | (z as u32 as u64)) >> 32u64) as u32 as i32) == x)
        by (bit_vector);
    assert(((((x as u32 as u64) << 32u64) | (z as u32 as u64)) as u32 as i32) == z)
        by (bit_vector);
    assert(((((key >> 32u64) as u32 as i32) as u32 as u64) << 32u64) | (((key as u32 as i32)
        as u32) as u64) == key) by (bit_vector);
}

fn pack_cell(cell: ChunkCell) -> (key: u64)
    ensures
        key == cell_key(cell),
{
    let x = cell.x as u32 as u64;
    let z = cell.z as u32 as u64;
    (x << 32u64) | z
}

/// The abstract state of a slot book: which chunk holds which slot, the
/// released slots waiting to be reused (the last released is the first
/// reused), and the high-water mark below which every slot has been handed out
/// at least once.
pub struct SlotModel {
    pub slots: Map<ChunkCell, u32>,
    pub free: Seq<u32>,
    pub next: u32,
}

/// A slot book is consistent: every slot under the high-water mark is either
/// free or held by exactly one chunk, never both, and nothing above the mark
/// exists.
pub open spec fn slot_model_wf(m: SlotModel) -> bool {
    &&& m.slots.dom().finite()
    &&& m.free.no_duplicates()
    &&& forall|i: int| 0 <= i < m.free.len() ==> m.free[i] < m.next
    &&& forall|c: ChunkCell| #[trigger]
        m.slots.contains_key(c) ==> m.slots[c] < m.next && !m.free.contains(m.slots[c])
    &&& forall|a: ChunkCell, b: ChunkCell|
        #![trigger m.slots[a], m.slots[b]]
        m.slots.contains_key(a) && m.slots.contains_key(b) && a != b ==> m.slots[a] != m.slots[b]
    &&& forall|s: u32|
        s < m.next ==> #[trigger] m.free.contains(s) || exists|c: ChunkCell|
            #[trigger] m.slots.contains_key(c) && m.slots[c] == s
}

/// Whether `slot_for(cell)` can answer without running out of slot numbers.
pub open spec fn has_room_for(m: SlotModel, cell: ChunkCell) -> bool {
    m.slots.contains_key(cell) || m.free.len() > 0 || m.next < u32::MAX
}

/// The slot a chunk gets, and the book after giving it: a chunk that already
/// holds one keeps it; a new one takes the last released slot, or a fresh one
/// above the high-water mark when none is free.
pub open spec fn spec_slot_for(m: SlotModel, cell: ChunkCell) -> (SlotModel, u32) {
    if m.slots.contains_key(cell) {
        (m, m.slots[cell])
    } else if m.free.len() > 0 {
        (
            SlotModel {
                slots: m.slots.insert(cell, m.free.last()),
                free: m.free.drop_last(),
                next: m.next,
            },
            m.free.last(),
        )
    } else {
        (
            SlotModel { slots: m.slots.insert(cell, m.next), free: m.free, next: (m.next + 1) as u32 },
            m.next,
        )
    }
}

/// The book after a chunk leaves: its slot goes back on the free list. A chunk
/// that held no slot changes nothing.
pub open spec fn spec_release(m: SlotModel, cell: ChunkCell) -> SlotModel {
    if m.slots.contains_key(cell) {
        SlotModel { slots: m.slots.remove(cell), free: m.free.push(m.slots[cell]), next: m.next }
    } else {
        m
    }
}

/// The empty book.
pub open spec fn empty_slot_model() -> SlotModel {
    SlotModel { slots: Map::empty(), free: Seq::empty(), next: 0 }
}

/// The bytes of a 32-bit lane, least significant first.
pub open spec fn lane_byte(value: u32, k: int) -> u8 {
    ((value >> ((8 * k) as u32)) & 0xffu32) as u8
}

/// The buffer after writing `records` into `slot` with `stride` records per
/// slot: grown with zeroes to cover the slot if needed, the first
/// `min(records, stride)` records of the slot overwritten lane by lane, and
/// every other byte as it was.
pub open spec fn spec_written(data: Seq<u8>, slot: int, stride: int, records: Seq<[u32; 4]>) -> Seq<
    u8,
> {
    let needed = (slot + 1) * stride * (RECORD_BYTES as int);
    let len = if data.len() < needed {
        needed
    } else {
        data.len() as int
    };
    let start = slot * stride * (RECORD_BYTES as int);
    let count = if records.len() < stride {
        records.len() as int
    } else {
        stride
    };
    Seq::new(
        len as nat,
        |i: int|
            if start <= i < start + count * (RECORD_BYTES as int) {
                let offset = i - start;
                lane_byte(records[offset / 16][(offset % 16) / 4], offset % 4)
            } else if i < data.len() {
                data[i]
            } else {
                0u8
            },
    )
}

/// What one level keeps for the GPU: the shared index mesh, the record buffer
/// and its CPU copy, and the slot book.
pub struct RingRecords<M, B> {
    /// The mesh all chunks of the level share. `None` until it is known how
    /// many blades a chunk carries, which depends on the knobs.
    pub mesh: Option<M>,
    pub buffer: B,
    /// The CPU copy of the buffer. Grows to the slot high-water mark and never
    /// shrinks: rolling the grid recycles slots.
    data: Vec<u8>,
    free: Vec<u32>,
    next: u32,
    by_chunk: HashMap<u64, u32>,
    /// Blades per chunk of this level: the buffer's stride.
    pub stride: u32,
    dirty: bool,
}

impl<M, B> RingRecords<M, B> {
    /// The slot book, as a model.
    pub closed spec fn model(&self) -> SlotModel {
        SlotModel {
            slots: Map::new(
                |c: ChunkCell| self.by_chunk@.contains_key(cell_key(c)),
                |c: ChunkCell| self.by_chunk@[cell_key(c)],
            ),
            free: self.free@,
            next: self.next,
        }
    }

    /// The CPU copy of the record buffer.
    pub closed spec fn bytes(&self) -> Seq<u8> {
        self.data@
    }

    /// The level's buffer handle.
    pub closed spec fn spec_buffer(&self) -> B {
        self.buffer
    }

    /// The level's shared mesh, once built.
    pub closed spec fn spec_mesh(&self) -> Option<M> {
        self.mesh
    }

    /// Blades per chunk: the buffer's stride.
    pub closed spec fn spec_stride(&self) -> u32 {
        self.stride
    }

    /// Whether something was written since the last upload.
    pub closed spec fn is_dirty(&self) -> bool {
        self.dirty
    }

    /// The book is consistent.
    pub open spec fn wf(&self) -> bool {
        slot_model_wf(self.model())
    }

    proof fn lemma_model_dom(&self)
        ensures
            self.model().slots.dom() == self.by_chunk@.dom().map(|k: u64| key_cell(k)),
            self.model().slots.dom().finite(),
            self.model().slots.dom().len() == self.by_chunk@.dom().len(),
    {
        let f = |k: u64| key_cell(k);
        let dom = self.by_chunk@.dom();
        assert forall|c: ChunkCell| self.model().slots.dom().contains(c) <==> dom.map(f).contains(
            c,
        ) by {
            key_round_trips(c, cell_key(c));
            if dom.map(f).contains(c) {
                let k = choose|k: u64| dom.contains(k) && f(k) == c;
                key_round_trips(c, k);
            }
        }
        assert(self.model().slots.dom() =~= dom.map(f));
        assert forall|a: u64, b: u64| dom.contains(a) && dom.contains(b) && f(a) == f(b) implies a
            == b by {
            key_round_trips(f(a), a);
            key_round_trips(f(b), b);
        }
        assert(vstd::relations::injective_on(f, dom));
        vstd::set_lib::lemma_map_size(dom, dom.map(f), f);
    }

    /// A level just born: its buffer, no mesh yet, no blades.
    pub fn new(buffer: B) -> (records: Self)
        ensures
            records.wf(),
            records.model() == empty_slot_model(),
            records.bytes() == Seq::<u8>::empty(),
            records.spec_buffer() == buffer,
            records.spec_mesh() is None,
            records.spec_stride() == 0,
            !records.is_dirty(),
    {
        let records = RingRecords {
            mesh: None,
            buffer,
            data: Vec::new(),
            free: Vec::new(),
            next: 0,
            by_chunk: HashMap::new(),
            stride: 0,
            dirty: false,
        };
        assert(records.model().slots =~= Map::<ChunkCell, u32>::empty());
        records
    }

    /// Blades per chunk of this level.
    pub fn stride(&self) -> (stride: u32)
        ensures
            stride == self.spec_stride(),
    {
        self.stride
    }

    /// Sets the blades per chunk once the knobs say how many a chunk carries;
    /// the slot book, the bytes and the handles stay as they were.
    pub fn set_stride(&mut self, stride: u32)
        ensures
            final(self).spec_stride() == stride,
            final(self).model() == old(self).model(),
            final(self).bytes() == old(self).bytes(),
            final(self).spec_buffer() == old(self).spec_buffer(),
            final(self).spec_mesh() == old(self).spec_mesh(),
            final(self).is_dirty() == old(self).is_dirty(),
    {
        self.stride = stride;
    }

    /// Installs the shared index mesh of this level; everything else stays.
    pub fn set_mesh(&mut self, mesh: M)
        ensures
            final(self).spec_mesh() == Some(mesh),
            final(self).spec_stride() == old(self).spec_stride(),
            final(self).model() == old(self).model(),
            final(self).bytes() == old(self).bytes(),
            final(self).spec_buffer() == old(self).spec_buffer(),
            final(self).is_dirty() == old(self).is_dirty(),
    {
        self.mesh = Some(mesh);
    }

    /// Drops everything that depended on the previous configuration. A change
    /// of density invalidates the whole index mesh, so the knob that moves it
    /// calls this.
    pub fn reset(&mut self)
        ensures
            final(self).wf(),
            final(self).model() == empty_slot_model(),
            final(self).bytes() == Seq::<u8>::empty(),
            final(self).spec_mesh() is None,
            final(self).spec_stride() == 0,
            final(self).is_dirty(),
            final(self).spec_buffer() == old(self).spec_buffer(),
    {
        self.mesh = None;
        self.data.clear();
        self.free.clear();
        self.next = 0;
        self.by_chunk.clear();
        self.stride = 0;
        self.dirty = true;
        assert(self.model().slots =~= Map::<ChunkCell, u32>::empty());
    }

    /// The slot of a chunk, taking a free one if the chunk is new.
    pub fn slot_for(&mut self, cell: ChunkCell) -> (slot: u32)
        requires
            old(self).wf(),
            has_room_for(old(self).model(), cell),
        ensures
            final(self).wf(),
            (final(self).model(), slot) == spec_slot_for(old(self).model(), cell),
            final(self).bytes() == old(self).bytes(),
            final(self).spec_stride() == old(self).spec_stride(),
            final(self).is_dirty() == old(self).is_dirty(),
            final(self).spec_buffer() == old(self).spec_buffer(),
            final(self).spec_mesh() == old(self).spec_mesh(),
    {
        let key = pack_cell(cell);
        let ghost m = self.model();
        proof {
            key_round_trips(cell, key);
            self.lemma_model_dom();
        }
        match self.by_chunk.get(&key) {
            Some(slot) => *slot,
            None => {
                let slot = match self.free.pop() {
                    Some(slot) => slot,
                    None => {
                        let slot = self.next;
                        self.next = self.next + 1;
                        slot
                    },
                };
                self.by_chunk.insert(key, slot);
                proof {
                    let (m2, s2) = spec_slot_for(m, cell);
                    assert(slot == s2);
                    assert forall|c: ChunkCell| #[trigger]
                        self.model().slots.contains_key(c) == m2.slots.contains_key(c) by {
                        key_round_trips(c, cell_key(c));
                        if cell_key(c) == key {
                            key_round_trips(c, key);
                        }
                    }
                    assert forall|c: ChunkCell| #[trigger]
                        self.model().slots.contains_key(c) implies self.model().slots[c]
                        == m2.slots[c] by {
                        if cell_key(c) == key {
                            key_round_trips(c, key);
                            key_round_trips(cell, key);
                        }
                    }
                    assert(self.model().slots =~= m2.slots);
                    assert(self.model().free =~= m2.free);
                    lemma_slot_for_keeps_wf(m, cell);
                }
                slot
            },
        }
    }

    /// Releases the slot of a chunk that leaves. Without this the buffer would
    /// only grow: the grid rolls all the time.
    pub fn release(&mut self, cell: ChunkCell)
        requires
            old(self).wf(),
        ensures
            final(self).wf(),
            final(self).model() == spec_release(old(self).model(), cell),
            final(self).bytes() == old(self).bytes(),
            final(self).spec_stride() == old(self).spec_stride(),
            final(self).is_dirty() == old(self).is_dirty(),
            final(self).spec_buffer() == old(self).spec_buffer(),
            final(self).spec_mesh() == old(self).spec_mesh(),
    {
        let key = pack_cell(cell);
        let ghost m = self.model();
        proof {
            key_round_trips(cell, key);
        }
        if let Some(slot) = self.by_chunk.remove(&key) {
            self.free.push(slot);
            proof {
                let m2 = spec_release(m, cell);
                assert forall|c: ChunkCell| #[trigger]
                    self.model().slots.contains_key(c) == m2.slots.contains_key(c) by {
                    key_round_trips(c, cell_key(c));
                    if cell_key(c) == key {
                        key_round_trips(c, key);
                    }
                }
                assert(self.model().slots =~= m2.slots);
                lemma_release_keeps_wf(m, cell);
            }
        } else {
            proof {
                assert(self.model().slots =~= m.slots);
            }
        }
    }

    /// Copies a chunk's records into its slot, growing the buffer if needed.
    /// Each record is four 32-bit lanes (the bit patterns of the blade's
    /// floats), stored least significant byte first; at most `stride` records
    /// are written.
    pub fn write(&mut self, slot: u32, records: &[[u32; 4]])
        requires
            (slot as int + 1) * (old(self).spec_stride() as int) * (RECORD_BYTES as int) <= usize::MAX,
        ensures
            final(self).bytes() == spec_written(
                old(self).bytes(),
                slot as int,
                old(self).spec_stride() as int,
                records@,
            ),
            final(self).is_dirty(),
            final(self).model() == old(self).model(),
            final(self).spec_stride() == old(self).spec_stride(),
            final(self).spec_buffer() == old(self).spec_buffer(),
            final(self).spec_mesh() == old(self).spec_mesh(),
    {
        let stride = self.stride as usize;
        let slot = slot as usize;
        let ghost m0 = self.model();
        let ghost b0 = self.buffer;
        let ghost mesh0 = self.mesh;
        let ghost st = self.stride;
        proof {
            assert((slot as int) * (stride as int) * 16 + (stride as int) * 16 == (slot as int + 1)
                * (stride as int) * 16) by (nonlinear_arith);
            assert(0 <= (slot as int) * (stride as int) * 16) by (nonlinear_arith);
            assert(0 <= (slot as int) * (stride as int)) by (nonlinear_arith);
            assert((slot as int) * (stride as int) <= (slot as int) * (stride as int) * 16) by (nonlinear_arith)
                requires 0 <= (slot as int) * (stride as int);
        }
        let start = slot * stride * RECORD_BYTES;
        let needed = start + stride * RECORD_BYTES;
        let ghost old_data = self.data@;
        if self.data.len() < needed {
            self.data.resize(needed, 0u8);
        }
        let ghost base = self.data@;
        let count = if records.len() < stride {
            records.len()
        } else {
            stride
        };
        proof {
            assert(start + count * 16 <= needed) by (nonlinear_arith)
                requires
                    start == slot * stride * 16,
                    needed == (slot + 1) * stride * 16,
                    count <= stride,
            ;
        }
        let mut index: usize = 0;
        while index < count
            invariant
                self.model() == m0,
                self.buffer == b0,
                self.mesh == mesh0,
                self.stride == st,
                count <= stride,
                count <= records@.len(),
                start + count * 16 <= needed,
                needed <= self.data@.len(),
                self.data@.len() == base.len(),
                0 <= index <= count,
                forall|i: int|
                    0 <= i < self.data@.len() ==> #[trigger] self.data@[i] == if start <= i < start
                        + index * 16 {
                        lane_byte(records@[(i - start) / 16][((i - start) % 16) / 4], (i - start) % 4)
                    } else {
                        base[i]
                    },
            decreases count - index,
        {
            let record = records[index];
            let mut lane: usize = 0;
            while lane < 4
                invariant
                    self.model() == m0,
                    self.buffer == b0,
                    self.mesh == mesh0,
                    self.stride == st,
                    count <= records@.len(),
                    0 <= index < count,
                    start + count * 16 <= needed,
                    needed <= self.data@.len(),
                    self.data@.len() == base.len(),
                    record == records@[index as int],
                    0 <= lane <= 4,
                    forall|i: int|
                        0 <= i < self.data@.len() ==> #[trigger] self.data@[i] == if start <= i
                            < start + index * 16 + lane * 4 {
                            lane_byte(
                                records@[(i - start) / 16][((i - start) % 16) / 4],
                                (i - start) % 4,
                            )
                        } else {
                            base[i]
                        },
                decreases 4 - lane,
            {
                let value = record[lane];
                let at = start + index * RECORD_BYTES + lane * 4;
                let mut k: usize = 0;
                while k < 4
                    invariant
                        self.model() == m0,
                        self.buffer == b0,
                        self.mesh == mesh0,
                        self.stride == st,
                        count <= records@.len(),
                        0 <= index < count,
                        0 <= lane < 4,
                        start + count * 16 <= needed,
                        needed <= self.data@.len(),
                        self.data@.len() == base.len(),
                        value == records@[index as int][lane as int],
                        at == start + index * 16 + lane * 4,
                        0 <= k <= 4,
                        forall|i: int|
                            0 <= i < self.data@.len() ==> #[trigger] self.data@[i] == if start <= i
                                < at + k {
                                lane_byte(
                                    records@[(i - start) / 16][((i - start) % 16) / 4],
                                    (i - start) % 4,
                                )
                            } else {
                                base[i]
                            },
                    decreases 4 - k,
                {
                    let shift = (8 * k) as u32;
                    let byte = #[verifier::truncate] (((value >> shift) & 0xffu32) as u8);
                    self.data.set(at + k, byte);
                    proof {
                        let i = (at + k) as int;
                        assert((i - start) / 16 == index as int);
                        assert(((i - start) % 16) / 4 == lane as int);
                        assert((i - start) % 4 == k as int);
                    }
                    k = k + 1;
                }
                lane = lane + 1;
            }
            index = index + 1;
        }
        self.dirty = true;
        proof {
            let expected = spec_written(old_data, slot as int, stride as int, records@);
            assert(expected.len() == self.data@.len());
            assert forall|i: int| 0 <= i < self.data@.len() implies self.data@[i] == expected[i] by {
                if !(start <= i < start + count * 16) {
                    if i < old_data.len() {
                        assert(base[i] == old_data[i]);
                    } else {
                        assert(base[i] == 0u8);
                    }
                }
            }
            assert(self.data@ =~= expected);
        }
    }

    /// The bytes to send to the GPU, if anything was written since the last
    /// upload and there is anything at all.
    pub fn pending_upload(&self) -> (payload: Option<&Vec<u8>>)
        ensures
            payload is Some <==> (self.is_dirty() && self.bytes().len() > 0),
            payload matches Some(bytes) ==> bytes@ == self.bytes(),
    {
        if !self.dirty || self.data.len() == 0 {
            None
        } else {
            Some(&self.data)
        }
    }

    /// Records that the pending bytes reached the GPU.
    pub fn mark_uploaded(&mut self)
        ensures
            !final(self).is_dirty(),
            final(self).bytes() == old(self).bytes(),
            final(self).model() == old(self).model(),
            final(self).spec_stride() == old(self).spec_stride(),
            final(self).spec_buffer() == old(self).spec_buffer(),
            final(self).spec_mesh() == old(self).spec_mesh(),
    {
        self.dirty = false;
    }

    /// How many bytes this level occupies in its buffer. The scene inventory
    /// counts meshes and not buffers, so without this number the memory moved
    /// into records would be invisible.
    pub fn buffer_bytes(&self) -> (bytes: usize)
        ensures
            bytes == self.bytes().len(),
    {
        self.data.len()
    }

    /// How many chunks currently hold a slot.
    pub fn chunks(&self) -> (chunks: usize)
        ensures
            chunks == self.model().slots.dom().len(),
    {
        proof {
            self.lemma_model_dom();
        }
        self.by_chunk.len()
    }
}

proof fn lemma_slot_for_keeps_wf(m: SlotModel, cell: ChunkCell)
    requires
        slot_model_wf(m),
        has_room_for(m, cell),
    ensures
        slot_model_wf(spec_slot_for(m, cell).0),
        !m.slots.contains_key(cell) ==> !m.slots.values().contains(spec_slot_for(m, cell).1),
{
    let (m2, s) = spec_slot_for(m, cell);
    if !m.slots.contains_key(cell) {
        if m.free.len() > 0 {
            let last = m.free.last();
            assert(m.free.contains(last));
            assert forall|i: int| 0 <= i < m2.free.len() implies m2.free[i] != last by {
                assert(m.free[i] == m2.free[i]);
                assert(m.free[m.free.len() - 1] == last);
            }
            assert forall|x: u32| m2.free.contains(x) implies m.free.contains(x) by {
                let i = choose|i: int| 0 <= i < m2.free.len() && m2.free[i] == x;
                assert(m.free[i] == x);
            }
            assert forall|x: u32| x < m2.next implies #[trigger] m2.free.contains(x) || exists|
                c: ChunkCell,
            | #[trigger] m2.slots.contains_key(c) && m2.slots[c] == x by {
                if x == last {
                    assert(m2.slots.contains_key(cell) && m2.slots[cell] == x);
                } else if m.free.contains(x) {
                    let i = choose|i: int| 0 <= i < m.free.len() && m.free[i] == x;
                    assert(i != m.free.len() - 1);
                    assert(m2.free[i] == x);
                } else {
                    let c = choose|c: ChunkCell| #[trigger]
                        m.slots.contains_key(c) && m.slots[c] == x;
                    assert(m2.slots.contains_key(c) && m2.slots[c] == x);
                }
            }
            assert(!m.slots.values().contains(last)) by {
                if m.slots.values().contains(last) {
                    let c = choose|c: ChunkCell| m.slots.contains_key(c) && m.slots[c] == last;
                    assert(!m.free.contains(m.slots[c]));
                }
            }
        } else {
            assert forall|x: u32| x < m2.next implies #[trigger] m2.free.contains(x) || exists|
                c: ChunkCell,
            | #[trigger] m2.slots.contains_key(c) && m2.slots[c] == x by {
                if x == m.next {
                    assert(m2.slots.contains_key(cell) && m2.slots[cell] == x);
                } else if m.free.contains(x) {
                } else {
                    let c = choose|c: ChunkCell| #[trigger]
                        m.slots.contains_key(c) && m.slots[c] == x;
                    assert(m2.slots.contains_key(c) && m2.slots[c] == x);
                }
            }
            assert(!m.slots.values().contains(m.next)) by {
                if m.slots.values().contains(m.next) {
                    let c = choose|c: ChunkCell| m.slots.contains_key(c) && m.slots[c] == m.next;
                    assert(m.slots[c] < m.next);
                }
            }
        }
    }
}

proof fn lemma_release_keeps_wf(m: SlotModel, cell: ChunkCell)
    requires
        slot_model_wf(m),
    ensures
        slot_model_wf(spec_release(m, cell)),
{
    if m.slots.contains_key(cell) {
        let s = m.slots[cell];
        let m2 = spec_release(m, cell);
        assert(!m.free.contains(s));
        assert forall|x: u32| m.free.contains(x) implies m2.free.contains(x) by {
            let i = choose|i: int| 0 <= i < m.free.len() && m.free[i] == x;
            assert(m2.free[i] == x);
        }
        assert(m2.free[m2.free.len() - 1] == s);
        assert forall|i: int, j: int|
            0 <= i < m2.free.len() && 0 <= j < m2.free.len() && i != j implies m2.free[i]
            != m2.free[j] by {
            if i < m.free.len() && j < m.free.len() {
            } else if i < m.free.len() {
                assert(m.free.contains(m2.free[i]));
            } else if j < m.free.len() {
                assert(m.free.contains(m2.free[j]));
            }
        }
        assert forall|c: ChunkCell| #[trigger]
            m2.slots.contains_key(c) implies m2.slots[c] < m2.next && !m2.free.contains(
            m2.slots[c],
        ) by {
            assert(m.slots[c] != s);
            if m2.free.contains(m2.slots[c]) {
                let i = choose|i: int| 0 <= i < m2.free.len() && m2.free[i] == m2.slots[c];
                if i < m.free.len() {
                    assert(m.free.contains(m.slots[c]));
                }
            }
        }
        assert forall|x: u32| x < m2.next implies #[trigger] m2.free.contains(x) || exists|
            c: ChunkCell,
        | #[trigger] m2.slots.contains_key(c) && m2.slots[c] == x by {
            if x == s {
            } else if m.free.contains(x) {
            } else {
                let c = choose|c: ChunkCell| #[trigger] m.slots.contains_key(c) && m.slots[c] == x;
                assert(c != cell);
                assert(m2.slots.contains_key(c) && m2.slots[c] == x);
            }
        }
    }
}

/// A chunk keeps its slot: asking again for the same chunk answers the same
/// slot and changes nothing. If it changed, its blades would jump to another
/// chunk's from one frame to the next.
pub proof fn a_chunk_keeps_its_slot(m: SlotModel, cell: ChunkCell)
    requires
        slot_model_wf(m),
        has_room_for(m, cell),
    ensures
        spec_slot_for(spec_slot_for(m, cell).0, cell) == (
            spec_slot_for(m, cell).0,
            spec_slot_for(m, cell).1,
        ),
{
}

/// Two chunks that hold a slot at the same time never share it: records of
/// one never land in the other's slot.
pub proof fn live_chunks_never_share_a_slot(m: SlotModel, cell: ChunkCell)
    requires
        slot_model_wf(m),
        has_room_for(m, cell),
    ensures
        slot_model_wf(spec_slot_for(m, cell).0),
        forall|other: ChunkCell|
            #![trigger spec_slot_for(m, cell).0.slots[other]]
            spec_slot_for(m, cell).0.slots.contains_key(other) && other != cell ==> spec_slot_for(
                m,
                cell,
            ).0.slots[other] != spec_slot_for(m, cell).1,
{
    lemma_slot_for_keeps_wf(m, cell);
    let m2 = spec_slot_for(m, cell).0;
    assert(m2.slots.contains_key(cell));
}

/// A released slot is handed out again to the next chunk that needs one, so
/// the buffer does not grow without a ceiling while the player walks.
pub proof fn a_released_slot_is_handed_out_again(m: SlotModel, leaving: ChunkCell, arriving: ChunkCell)
    requires
        slot_model_wf(m),
        m.slots.contains_key(leaving),
        !m.slots.contains_key(arriving) || arriving == leaving,
    ensures
        spec_slot_for(spec_release(m, leaving), arriving).1 == m.slots[leaving],
        spec_slot_for(spec_release(m, leaving), arriving).0.next == m.next,
{
}

/// Records land in their own slot and in no other: a write leaves every byte
/// outside its slot as it was, and the slot's bytes are the records' lanes,
/// least significant byte first.
pub proof fn records_land_in_their_own_slot(
    data: Seq<u8>,
    slot: int,
    stride: int,
    records: Seq<[u32; 4]>,
    i: int,
)
    requires
        0 <= slot,
        0 <= stride,
        0 <= i < data.len(),
        !(slot * stride * 16 <= i < (slot + 1) * stride * 16),
    ensures
        spec_written(data, slot, stride, records)[i] == data[i],
{
    let start = slot * stride * 16;
    let count = if records.len() < stride {
        records.len() as int
    } else {
        stride
    };
    assert(start + count * 16 <= (slot + 1) * stride * 16) by (nonlinear_arith)
        requires
            start == slot * stride * 16,
            count <= stride,
    ;
    assert(data.len() <= spec_written(data, slot, stride, records).len());
}

} // verus!
