//! A chunk of memory: a buffer of bytes with a fixed capacity, the index of its
//! first unused byte, and the descriptions of the types whose objects it holds.
//!
//! Droppable objects are laid out as records. A record opens with a packed word
//! that points at the description of the object and tells whether the object was
//! fully initialised; the object follows at the next offset that suits its
//! alignment; the record ends at the next offset that suits a packed word. A
//! walk over the records needs nothing but the bytes of the chunk and the
//! descriptions.

use crate::utils::{
    checked_round_up,
    is_aligned,
    lemma_pow2_is_positive,
    lemma_round_up_fits,
    lemma_round_up_is_least,
    lemma_word_align_is_pow2,
    round_up,
    round_up_spec,
    un_bitpack_type_description_ptr,
    unpack_spec,
    TypeDescription,
    WORD_ALIGN,
    WORD_SIZE,
};
use vstd::arithmetic::power2::is_pow2;
use vstd::prelude::*;

verus! {

/// One record of droppable data in a chunk. All offsets count from the start of the chunk.
#[derive(Clone, Copy, Debug, PartialEq, Eq, Structural)]
pub struct Record {
    /// Offset of the packed word that opens the record.
    pub type_description_start: usize,
    /// Pointer to the description of the object, as the packed word holds it.
    pub type_description: usize,
    /// Whether the object was fully initialised.
    pub is_done: bool,
    /// Offset of the object.
    pub start: usize,
    /// Offset of the first byte behind the record.
    pub end: usize,
}

/// The two kinds of data that a double-ended allocator tells apart.
#[derive(Clone, Copy, Debug, PartialEq, Eq, Structural)]
pub enum ChunkType {
    /// Data that is needed for a while only.
    TempData,
    /// Data that stays.
    ResidentData,
}

/// The view of a chunk: its bytes, its fill, its type descriptions, and the
/// address at which its bytes start.
pub ghost struct ChunkView {
    pub bytes: Seq<u8>,
    pub fill: nat,
    pub types: Seq<TypeDescription>,
    pub address: usize,
}

/// The largest number of type descriptions a chunk keeps: a pointer to any of
/// them fits in a `usize` with its lowest bit free.
pub open spec fn max_type_descriptions() -> int {
    usize::MAX / 2 + 1
}

/// The word held by the eight bytes of `bytes` that start at `at`, lowest byte first.
pub open spec fn word_at(bytes: Seq<u8>, at: int) -> int
    recommends
        0 <= at,
        at + WORD_SIZE <= bytes.len(),
{
    bytes[at] as int + 0x100 * (bytes[at + 1] as int) + 0x1_0000 * (bytes[at + 2] as int)
        + 0x100_0000 * (bytes[at + 3] as int) + 0x1_0000_0000 * (bytes[at + 4] as int)
        + 0x100_0000_0000 * (bytes[at + 5] as int) + 0x1_0000_0000_0000 * (bytes[at + 6] as int)
        + 0x100_0000_0000_0000 * (bytes[at + 7] as int)
}

/// The description that the pointer `p` points at, if it points at one.
pub open spec fn description_at(types: Seq<TypeDescription>, p: int) -> Option<TypeDescription> {
    if p % 2 == 0 && 0 <= p / 2 < types.len() {
        Some(types[p / 2])
    } else {
        None
    }
}

/// Offset of an object with alignment `align` whose record starts at `at`.
pub open spec fn object_start(at: int, align: int) -> int {
    round_up_spec(at + WORD_SIZE, align)
}

/// Offset of the first byte behind a record that starts at `at` and holds an
/// object of `size` bytes with alignment `align`.
pub open spec fn record_end(at: int, size: int, align: int) -> int {
    round_up_spec(object_start(at, align) + size, WORD_ALIGN as int)
}

impl ChunkView {
    /// Number of bytes of the chunk.
    pub open spec fn capacity(self) -> nat {
        self.bytes.len()
    }

    /// The fill is within the capacity, which a `usize` can hold, and the
    /// descriptions are distinct, few enough to be pointed at, and each with a
    /// power of two as its alignment.
    pub open spec fn wf(self) -> bool {
        &&& self.fill <= self.capacity() <= usize::MAX
        &&& self.types.len() <= max_type_descriptions()
        &&& self.types.no_duplicates()
        &&& forall|i: int|
            0 <= i < self.types.len() ==> is_pow2((#[trigger] self.types[i]).alignment as int)
    }

    /// The description that the packed word at `at` points at.
    pub open spec fn described_at(self, at: int) -> Option<TypeDescription> {
        description_at(self.types, unpack_spec(word_at(self.bytes, at)).0)
    }

    /// Offset of the first byte behind the record that starts at `at`.
    pub open spec fn end_of(self, at: int) -> int {
        let description = self.described_at(at).unwrap();
        record_end(at, description.size as int, description.alignment as int)
    }

    /// The record that starts at `at`.
    pub open spec fn record_at(self, at: int) -> Record {
        let (p, is_done) = unpack_spec(word_at(self.bytes, at));
        let description = self.described_at(at).unwrap();
        Record {
            type_description_start: at as usize,
            type_description: p as usize,
            is_done,
            start: object_start(at, description.alignment as int) as usize,
            end: self.end_of(at) as usize,
        }
    }

    /// A record starts at `at` and ends at or before `limit`: its packed word
    /// points at a description, and the record that this description gives
    /// stays within `limit`.
    pub open spec fn is_record(self, at: int, limit: int) -> bool {
        &&& 0 <= at
        &&& limit <= self.capacity()
        &&& self.described_at(at) is Some
        &&& at + WORD_SIZE <= self.end_of(at) <= limit
    }

    /// Stepping from record to record leads from `from` exactly to `to`.
    #[verifier::opaque]
    pub open spec fn reaches(self, from: int, to: int) -> bool
        decreases to - from,
    {
        if from >= to {
            from == to
        } else if self.is_record(from, to) {
            self.reaches(self.end_of(from), to)
        } else {
            false
        }
    }

    /// The records met when stepping from `from` to `to`, lowest offset first.
    #[verifier::opaque]
    pub open spec fn records(self, from: int, to: int) -> Seq<Record>
        decreases to - from,
    {
        if from < to && self.is_record(from, to) {
            seq![self.record_at(from)] + self.records(self.end_of(from), to)
        } else {
            Seq::empty()
        }
    }

    /// The bytes up to the fill are a sequence of records.
    pub open spec fn holds_records(self) -> bool {
        self.reaches(0, self.fill as int)
    }

    /// `marker` is the start of a record of the chunk, or its fill.
    pub open spec fn is_marker(self, marker: int) -> bool {
        &&& 0 <= marker <= self.fill
        &&& self.reaches(0, marker)
        &&& self.reaches(marker, self.fill as int)
    }

    /// The records of the chunk from `marker` up to its fill whose objects were
    /// fully initialised: those whose destructors a walk from `marker` runs,
    /// in the order in which it runs them.
    pub open spec fn droppable_from(self, marker: int) -> Seq<Record> {
        self.records(marker, self.fill as int).filter(is_done())
    }

    /// Offset at which copyable data with alignment `align` would be placed.
    pub open spec fn start_copy(self, align: int) -> int {
        round_up_spec(self.fill as int, align)
    }

    /// Offset of the first byte behind copyable data of `size` bytes with
    /// alignment `align`, once it is placed.
    pub open spec fn end_copy(self, size: int, align: int) -> int {
        self.start_copy(align) + size
    }

    /// There is room for copyable data of `size` bytes with alignment `align`:
    /// it ends below the capacity.
    pub open spec fn fits_copy(self, size: int, align: int) -> bool {
        self.end_copy(size, align) < self.capacity()
    }

    /// The chunk once its fill is `fill`.
    pub open spec fn with_fill(self, fill: int) -> ChunkView {
        ChunkView { fill: fill as nat, ..self }
    }

    /// Copyable data that fits leaves a well-formed chunk, and is placed at a
    /// multiple of its alignment.
    pub proof fn lemma_allocated_copy(self, size: int, align: int)
        requires
            self.wf(),
            0 <= size,
            0 < align,
            self.fits_copy(size, align),
        ensures
            self.with_fill(self.end_copy(size, align)).wf(),
            self.fill <= self.start_copy(align) < self.fill + align,
            is_aligned(self.start_copy(align), align),
    {
        lemma_round_up_is_least(self.fill as int, align);
    }

    /// The pointer under which `description` is kept, or would be kept if it were added.
    pub open spec fn pointer_to(self, description: TypeDescription) -> int {
        if self.types.contains(description) {
            2 * self.types.index_of(description)
        } else {
            2 * (self.types.len() as int)
        }
    }

    /// `description` is kept already, or there is room to keep it.
    pub open spec fn can_describe(self, description: TypeDescription) -> bool {
        self.types.contains(description) || self.types.len() < max_type_descriptions()
    }

    /// The descriptions once `description` is kept.
    pub open spec fn types_with(self, description: TypeDescription) -> Seq<TypeDescription> {
        if self.types.contains(description) {
            self.types
        } else {
            self.types.push(description)
        }
    }
}

/// The predicate that picks the records whose objects were fully initialised.
pub open spec fn is_done() -> spec_fn(Record) -> bool {
    |record: Record| record.is_done
}

/// A record is longer than its packed word, holds its object behind the word
/// and in front of its end, and ends at a multiple of the word's alignment.
pub proof fn lemma_record_bounds(at: int, size: int, align: int)
    requires
        0 <= size,
        0 < align,
    ensures
        at + WORD_SIZE <= object_start(at, align) < at + WORD_SIZE + align,
        is_aligned(object_start(at, align), align),
        object_start(at, align) + size <= record_end(at, size, align) < object_start(at, align)
            + size + WORD_ALIGN,
        is_aligned(record_end(at, size, align), WORD_ALIGN as int),
{
    lemma_round_up_is_least(at + WORD_SIZE, align);
    lemma_round_up_is_least(object_start(at, align) + size, WORD_ALIGN as int);
}

/// A record takes less than the size of its packed word, the alignment of its
/// object, the size of its object and the alignment of a packed word together.
pub proof fn lemma_record_takes_at_most(at: int, size: int, align: int)
    requires
        0 <= size,
        0 < align,
    ensures
        at + WORD_SIZE + size <= record_end(at, size, align) < at + WORD_SIZE + align + size
            + WORD_ALIGN,
{
    lemma_record_bounds(at, size, align);
}

/// The record of an object of no size ends where the object stands, rounded
/// up to the alignment of a packed word. The object stands at a multiple of
/// its alignment, and the record takes the room of its packed word at least.
pub proof fn lemma_record_of_no_size(at: int, align: int)
    requires
        0 < align,
    ensures
        record_end(at, 0, align) == round_up_spec(object_start(at, align), WORD_ALIGN as int),
        is_aligned(object_start(at, align), align),
        at + WORD_SIZE <= record_end(at, 0, align),
        is_aligned(record_end(at, 0, align), WORD_ALIGN as int),
{
    lemma_record_bounds(at, 0, align);
}

/// An offset that is a multiple of `align` gives an address that is a multiple
/// of `align`, where the chunk starts at a multiple of `align`.
pub proof fn lemma_address_is_aligned(base: int, offset: int, align: int)
    requires
        0 < align,
        is_aligned(base, align),
        is_aligned(offset, align),
    ensures
        is_aligned(base + offset, align),
{
    vstd::arithmetic::div_mod::lemma_fundamental_div_mod(base, align);
    vstd::arithmetic::div_mod::lemma_fundamental_div_mod(offset, align);
    let q = base / align + offset / align;
    assert(base + offset == align * q) by (nonlinear_arith)
        requires
            base == align * (base / align),
            offset == align * (offset / align),
            q == base / align + offset / align,
    ;
    vstd::arithmetic::div_mod::lemma_fundamental_div_mod_converse(base + offset, align, q, 0);
}

impl ChunkView {
    /// One step: from `from` the steps lead to `to` if `from` is `to`, or if a
    /// record starts at `from` and the steps lead from its end to `to`; the
    /// records met are that record and those met from its end on.
    pub proof fn lemma_step(self, from: int, to: int)
        ensures
            from >= to ==> self.reaches(from, to) == (from == to) && self.records(from, to)
                == Seq::<Record>::empty(),
            from < to ==> self.reaches(from, to) == (self.is_record(from, to) && self.reaches(
                self.end_of(from),
                to,
            )),
            from < to && self.is_record(from, to) ==> self.records(from, to) == seq![
                self.record_at(from),
            ] + self.records(self.end_of(from), to),
            from < to && !self.is_record(from, to) ==> self.records(from, to) == Seq::<
                Record,
            >::empty(),
    {
        reveal(ChunkView::reaches);
        reveal(ChunkView::records);
    }

    /// A record that ends within a limit is the only record between its start and its end.
    pub proof fn lemma_one_record(self, at: int, limit: int)
        requires
            self.is_record(at, limit),
        ensures
            self.is_record(at, self.end_of(at)),
            self.reaches(at, self.end_of(at)),
            self.records(at, self.end_of(at)) == seq![self.record_at(at)],
    {
        let end = self.end_of(at);
        self.lemma_step(at, end);
        self.lemma_step(end, end);
        assert(seq![self.record_at(at)] + Seq::<Record>::empty() =~= seq![self.record_at(at)]);
    }

    /// Steps that lead from `from` to `mid` and on from `mid` to `to` lead from
    /// `from` to `to`, and meet the records of both parts.
    pub proof fn lemma_join(self, from: int, mid: int, to: int)
        requires
            self.reaches(from, mid),
            self.reaches(mid, to),
            to <= self.capacity(),
        ensures
            from <= mid <= to,
            self.reaches(from, to),
            self.records(from, to) == self.records(from, mid) + self.records(mid, to),
        decreases mid - from,
    {
        self.lemma_reaches_ordered(from, mid);
        self.lemma_reaches_ordered(mid, to);
        self.lemma_step(from, mid);
        self.lemma_step(from, to);
        if from < mid {
            let next = self.end_of(from);
            self.lemma_join(next, mid, to);
            assert(self.is_record(from, to));
            assert(self.records(from, to) == seq![self.record_at(from)] + (self.records(next, mid)
                + self.records(mid, to)));
            assert(self.records(from, mid) == seq![self.record_at(from)] + self.records(
                next,
                mid,
            ));
            assert(seq![self.record_at(from)] + (self.records(next, mid) + self.records(mid, to))
                =~= (seq![self.record_at(from)] + self.records(next, mid)) + self.records(
                mid,
                to,
            ));
        } else {
            assert(self.records(from, mid) == Seq::<Record>::empty());
            assert(Seq::<Record>::empty() + self.records(mid, to) =~= self.records(mid, to));
        }
    }

    /// Steps lead upwards only.
    pub proof fn lemma_reaches_ordered(self, from: int, to: int)
        requires
            self.reaches(from, to),
        ensures
            from <= to,
    {
        self.lemma_step(from, to);
    }

    /// Where steps lead from `from` both to `mid` and to `to`, with `mid` not
    /// above `to`, they lead from `mid` to `to`, and the records up to `to` are
    /// those up to `mid` and then those from `mid` on.
    pub proof fn lemma_split(self, from: int, mid: int, to: int)
        requires
            self.reaches(from, mid),
            self.reaches(from, to),
            mid <= to,
        ensures
            self.reaches(mid, to),
            self.records(from, to) == self.records(from, mid) + self.records(mid, to),
        decreases mid - from,
    {
        self.lemma_step(from, mid);
        self.lemma_step(from, to);
        if from < mid {
            let next = self.end_of(from);
            self.lemma_split(next, mid, to);
            assert(seq![self.record_at(from)] + (self.records(next, mid) + self.records(mid, to))
                =~= (seq![self.record_at(from)] + self.records(next, mid)) + self.records(
                mid,
                to,
            ));
        } else {
            assert(self.records(from, mid) == Seq::<Record>::empty());
            assert(Seq::<Record>::empty() + self.records(mid, to) =~= self.records(mid, to));
        }
    }

    /// Steps and records between `from` and `to` depend only on the bytes
    /// between `from` and `to` and on the descriptions kept: a chunk `other`
    /// with the same capacity, the same bytes there, and the same descriptions
    /// under the same pointers, has the same.
    pub proof fn lemma_same_records(self, other: ChunkView, from: int, to: int)
        requires
            self.reaches(from, to),
            0 <= from,
            other.bytes.len() == self.bytes.len(),
            forall|i: int| from <= i < to ==> other.bytes[i] == self.bytes[i],
            self.types.is_prefix_of(other.types),
        ensures
            other.reaches(from, to),
            other.records(from, to) == self.records(from, to),
        decreases to - from,
    {
        self.lemma_step(from, to);
        other.lemma_step(from, to);
        if from < to {
            assert(word_at(other.bytes, from) == word_at(self.bytes, from));
            let p = unpack_spec(word_at(self.bytes, from)).0;
            assert(other.types[p / 2] == self.types[p / 2]);
            self.lemma_same_records(other, self.end_of(from), to);
        }
    }

    /// Every record met between `from` and `to` starts at or above `from` and below `to`.
    pub proof fn lemma_records_within(self, from: int, to: int)
        requires
            self.wf(),
            self.reaches(from, to),
            0 <= from,
        ensures
            forall|i: int|
                0 <= i < self.records(from, to).len() ==> from <= (#[trigger] self.records(
                    from,
                    to,
                )[i]).type_description_start < to,
        decreases to - from,
    {
        self.lemma_step(from, to);
        if from < to {
            let next = self.end_of(from);
            self.lemma_records_within(next, to);
            let rest = self.records(next, to);
            assert forall|i: int| 0 <= i < self.records(from, to).len() implies from <= (
            #[trigger] self.records(from, to)[i]).type_description_start < to by {
                if i > 0 {
                    assert(self.records(from, to)[i] == rest[i - 1]);
                }
            }
        }
    }

    /// Copyable data takes less than its alignment and its size together.
    pub proof fn lemma_copy_takes_at_most(self, size: int, align: int)
        requires
            0 <= size,
            0 < align,
        ensures
            self.fill + size <= self.end_copy(size, align) < self.fill + align + size,
            self.fill == 0 ==> self.end_copy(size, align) == size,
    {
        lemma_round_up_is_least(self.fill as int, align);
        if self.fill == 0 {
            vstd::arithmetic::div_mod::lemma_small_mod(0, align as nat);
        }
    }

    /// Where every record between `from` and `to` was fully initialised, a walk
    /// meets them all.
    pub proof fn lemma_all_done(records: Seq<Record>)
        requires
            forall|i: int| 0 <= i < records.len() ==> (#[trigger] records[i]).is_done,
        ensures
            records.filter(is_done()) == records,
        decreases records.len(),
    {
        reveal(Seq::filter);
        if records.len() > 0 {
            Self::lemma_all_done(records.drop_last());
            assert(records.drop_last().push(records.last()) =~= records);
        }
    }

    /// The records that a walk from `marker` meets once one more record,
    /// between `fill` and `end`, is part of the chunk.
    pub proof fn lemma_filter_push(records: Seq<Record>, record: Record)
        ensures
            records.push(record).filter(is_done()) == if record.is_done {
                records.filter(is_done()).push(record)
            } else {
                records.filter(is_done())
            },
    {
        reveal(Seq::filter);
        assert(records.push(record).drop_last() =~= records);
    }
}

/// The MemoryChunk is just a chunk of memory: a buffer of bytes allocated once,
/// and the index of its first unused byte.
///
/// For the types whose objects need their destructor to run, it keeps a
/// description of the type and places a pointer to it next to each object, so
/// that a walk over the chunk finds every such object again.
///
/// The allocators manage memory chunks; use them rather than a chunk directly.
pub struct MemoryChunk {
    storage: Vec<u8>,
    /// Index of the first unused byte.
    fill: usize,
    types: Vec<TypeDescription>,
    /// Address at which the storage starts.
    address: usize,
}

impl View for MemoryChunk {
    type V = ChunkView;

    closed spec fn view(&self) -> ChunkView {
        ChunkView {
            bytes: self.storage@,
            fill: self.fill as nat,
            types: self.types@,
            address: self.address,
        }
    }
}

impl MemoryChunk {
    /// Creates a new memory chunk, allocating the given number of bytes.
    pub fn new(size: usize) -> (chunk: Self)
        ensures
            chunk@.wf(),
            chunk@.capacity() == size,
            chunk@.fill == 0,
            chunk@.types.len() == 0,
            chunk@.holds_records(),
    {
        let storage: Vec<u8> = vec![0u8; size];
        let address: usize = buffer_address(&storage);
        let chunk = MemoryChunk { storage, fill: 0, types: Vec::new(), address };
        proof {
            chunk@.lemma_step(0, 0);
        }
        chunk
    }

    /// Returns the index of the first unused byte in the memory storage of the chunk.
    pub fn fill(&self) -> (fill: usize)
        ensures
            fill == self@.fill,
    {
        self.fill
    }

    /// Set the index of the first unused byte in the memory storage of the chunk.
    pub fn set_fill(&mut self, first_unused_byte: usize)
        requires
            first_unused_byte <= old(self)@.capacity(),
        ensures
            final(self)@ == old(self)@.with_fill(first_unused_byte as int),
    {
        self.fill = first_unused_byte;
    }

    /// Returns the maximal number of bytes the chunk can store.
    pub fn capacity(&self) -> (capacity: usize)
        ensures
            capacity == self@.capacity(),
    {
        self.storage.len()
    }

    /// Reads the word held by the eight bytes that start at `at`.
    pub fn read_word(&self, at: usize) -> (word: u64)
        requires
            at + WORD_SIZE <= self@.capacity(),
        ensures
            word == word_at(self@.bytes, at as int),
    {
        assert(self@.capacity() == self.storage.len());
        let b0: u64 = self.storage[at] as u64;
        let b1: u64 = self.storage[at + 1] as u64;
        let b2: u64 = self.storage[at + 2] as u64;
        let b3: u64 = self.storage[at + 3] as u64;
        let b4: u64 = self.storage[at + 4] as u64;
        let b5: u64 = self.storage[at + 5] as u64;
        let b6: u64 = self.storage[at + 6] as u64;
        let b7: u64 = self.storage[at + 7] as u64;
        proof {
            assert(b0 | b1 << 8 | b2 << 16 | b3 << 24 | b4 << 32 | b5 << 40 | b6 << 48 | b7 << 56
                == b0 + 0x100 * b1 + 0x1_0000 * b2 + 0x100_0000 * b3 + 0x1_0000_0000 * b4
                + 0x100_0000_0000 * b5 + 0x1_0000_0000_0000 * b6 + 0x100_0000_0000_0000 * b7)
                by (bit_vector)
                requires
                    b0 < 0x100,
                    b1 < 0x100,
                    b2 < 0x100,
                    b3 < 0x100,
                    b4 < 0x100,
                    b5 < 0x100,
                    b6 < 0x100,
                    b7 < 0x100,
            ;
        }
        b0 | b1 << 8 | b2 << 16 | b3 << 24 | b4 << 32 | b5 << 40 | b6 << 48 | b7 << 56
    }

    /// Writes `word` into the eight bytes that start at `at`, lowest byte first.
    pub fn write_word(&mut self, at: usize, word: usize)
        requires
            at + WORD_SIZE <= old(self)@.capacity(),
        ensures
            final(self)@.fill == old(self)@.fill,
            final(self)@.types == old(self)@.types,
            final(self)@.address == old(self)@.address,
            final(self)@.bytes.len() == old(self)@.bytes.len(),
            word_at(final(self)@.bytes, at as int) == word,
            forall|i: int|
                0 <= i < old(self)@.bytes.len() && !(at <= i < at + WORD_SIZE)
                    ==> final(self)@.bytes[i] == old(self)@.bytes[i],
    {
        assert(old(self)@.capacity() == self.storage.len());
        let w: u64 = word as u64;
        proof {
            assert((w & 0xff) < 0x100 && ((w >> 8) & 0xff) < 0x100 && ((w >> 16) & 0xff) < 0x100
                && ((w >> 24) & 0xff) < 0x100 && ((w >> 32) & 0xff) < 0x100 && ((w >> 40) & 0xff)
                < 0x100 && ((w >> 48) & 0xff) < 0x100 && ((w >> 56) & 0xff) < 0x100)
                by (bit_vector);
        }
        let b0: u8 = (w & 0xff) as u8;
        let b1: u8 = ((w >> 8) & 0xff) as u8;
        let b2: u8 = ((w >> 16) & 0xff) as u8;
        let b3: u8 = ((w >> 24) & 0xff) as u8;
        let b4: u8 = ((w >> 32) & 0xff) as u8;
        let b5: u8 = ((w >> 40) & 0xff) as u8;
        let b6: u8 = ((w >> 48) & 0xff) as u8;
        let b7: u8 = ((w >> 56) & 0xff) as u8;
        proof {
            assert((w & 0xff) + 0x100 * ((w >> 8) & 0xff) + 0x1_0000 * ((w >> 16) & 0xff)
                + 0x100_0000 * ((w >> 24) & 0xff) + 0x1_0000_0000 * ((w >> 32) & 0xff)
                + 0x100_0000_0000 * ((w >> 40) & 0xff) + 0x1_0000_0000_0000 * ((w >> 48) & 0xff)
                + 0x100_0000_0000_0000 * ((w >> 56) & 0xff) == w) by (bit_vector);
        }
        self.storage.set(at, b0);
        self.storage.set(at + 1, b1);
        self.storage.set(at + 2, b2);
        self.storage.set(at + 3, b3);
        self.storage.set(at + 4, b4);
        self.storage.set(at + 5, b5);
        self.storage.set(at + 6, b6);
        self.storage.set(at + 7, b7);
    }

    /// Keeps `description` among the descriptions of the chunk, unless it is
    /// kept already, and returns the pointer under which it is kept.
    ///
    /// Returns `None`, and changes nothing, when the description is new and
    /// the chunk keeps as many descriptions as it can point at.
    pub fn describe(&mut self, description: TypeDescription) -> (pointer: Option<usize>)
        requires
            old(self)@.wf(),
            is_pow2(description.alignment as int),
        ensures
            final(self)@.wf(),
            final(self)@.bytes == old(self)@.bytes,
            final(self)@.fill == old(self)@.fill,
            final(self)@.address == old(self)@.address,
            match pointer {
                Some(p) => {
                    &&& old(self)@.can_describe(description)
                    &&& p == old(self)@.pointer_to(description)
                    &&& final(self)@.types == old(self)@.types_with(description)
                    &&& description_at(final(self)@.types, p as int) == Some(description)
                },
                None => {
                    &&& !old(self)@.can_describe(description)
                    &&& final(self)@.types == old(self)@.types
                },
            },
    {
        let len: usize = self.types.len();
        let mut i: usize = 0;
        while i < len
            invariant
                self@ == old(self)@,
                self@.wf(),
                len == self.types@.len(),
                i <= len,
                forall|j: int| 0 <= j < i ==> self.types@[j] != description,
            decreases len - i,
        {
            if self.types[i] == description {
                proof {
                    assert(self@.types.contains(description));
                    let k = self@.types.index_of(description);
                    assert(k == i);
                }
                return Some(2 * i);
            }
            i += 1;
        }
        if len > usize::MAX / 2 {
            return None;
        }
        self.types.push(description);
        proof {
            let old_types = old(self)@.types;
            assert(!old_types.contains(description));
            assert(self@.types == old_types.push(description));
            assert(self@.types.no_duplicates());
            assert forall|i: int| 0 <= i < self@.types.len() implies is_pow2(
                (#[trigger] self@.types[i]).alignment as int,
            ) by {
                if i < old_types.len() {
                    assert(self@.types[i] == old_types[i]);
                }
            }
        }
        Some(2 * len)
    }

    /// Returns the description that the pointer `p` points at, if it points at one.
    pub fn type_description(&self, p: usize) -> (description: Option<TypeDescription>)
        ensures
            description == description_at(self@.types, p as int),
    {
        let index: usize = p / 2;
        if p % 2 == 0 && index < self.types.len() {
            Some(self.types[index])
        } else {
            None
        }
    }

    /// Reads the record that starts at `at`, if one starts there and ends at or
    /// before `limit`.
    pub fn record(&self, at: usize, limit: usize) -> (record: Option<Record>)
        requires
            self@.wf(),
            limit <= self@.capacity(),
        ensures
            match record {
                Some(r) => self@.is_record(at as int, limit as int) && r == self@.record_at(
                    at as int,
                ),
                None => !self@.is_record(at as int, limit as int),
            },
    {
        if limit < WORD_SIZE || at > limit - WORD_SIZE {
            return None;
        }
        let word: u64 = self.read_word(at);
        let index: u64 = word / 2;
        if index >= self.types.len() as u64 {
            return None;
        }
        let (type_description, is_done) = un_bitpack_type_description_ptr(word as usize);
        let description: TypeDescription = self.types[index as usize];
        proof {
            assert(self@.described_at(at as int) == Some(description));
            lemma_word_align_is_pow2();
            lemma_pow2_is_positive(description.alignment as int);
            lemma_record_bounds(
                at as int,
                description.size as int,
                description.alignment as int,
            );
        }
        let after_type_description: usize = at + WORD_SIZE;
        let start: usize = match checked_round_up(after_type_description, description.alignment) {
            Some(start) => start,
            None => {
                return None;
            },
        };
        let unaligned_end: usize = match start.checked_add(description.size) {
            Some(unaligned_end) => unaligned_end,
            None => {
                return None;
            },
        };
        let end: usize = match checked_round_up(unaligned_end, WORD_ALIGN) {
            Some(end) => end,
            None => {
                return None;
            },
        };
        if end > limit {
            return None;
        }
        Some(Record { type_description_start: at, type_description, is_done, start, end })
    }

    /// Tells whether stepping from record to record leads from `marker` exactly
    /// to the fill: whether a walk may start at `marker`.
    pub fn is_record_start(&self, marker: usize) -> (b: bool)
        requires
            self@.wf(),
        ensures
            b == self@.reaches(marker as int, self@.fill as int),
    {
        let fill: usize = self.fill;
        let mut index: usize = marker;
        while index < fill
            invariant
                self@.wf(),
                fill == self@.fill,
                marker <= index,
                self@.reaches(marker as int, fill as int) == self@.reaches(
                    index as int,
                    fill as int,
                ),
            decreases fill - index,
        {
            proof {
                self@.lemma_step(index as int, fill as int);
            }
            match self.record(index, fill) {
                Some(record) => {
                    index = record.end;
                },
                None => {
                    return false;
                },
            }
        }
        proof {
            self@.lemma_step(index as int, fill as int);
        }
        index == fill
    }

    /// Tells whether `marker` is the start of a record of the chunk, or its fill:
    /// whether the chunk can be reset to `marker`.
    pub fn is_marker(&self, marker: usize) -> (b: bool)
        requires
            self@.wf(),
            self@.holds_records(),
        ensures
            b == self@.is_marker(marker as int),
    {
        let fill: usize = self.fill;
        if marker > fill {
            return false;
        }
        let mut index: usize = 0;
        proof {
            self@.lemma_step(0, 0);
        }
        while index < marker
            invariant
                self@.wf(),
                fill == self@.fill,
                marker <= fill,
                index <= fill,
                self@.reaches(0, index as int),
                self@.reaches(index as int, fill as int),
                index > marker ==> !self@.reaches(0, marker as int),
            decreases fill - index,
        {
            let record: Option<Record> = self.record(index, fill);
            proof {
                self@.lemma_step(index as int, fill as int);
                self@.lemma_one_record(index as int, fill as int);
                self@.lemma_join(0, index as int, self@.end_of(index as int));
                if self@.reaches(0, marker as int) {
                    self@.lemma_split(0, index as int, marker as int);
                    self@.lemma_step(index as int, marker as int);
                }
            }
            index = record.unwrap().end;
        }
        index == marker
    }

    /// Walks over the records from `marker` up to the fill, and returns those
    /// whose objects were fully initialised, lowest offset first: the objects
    /// whose destructors are to run, in the order in which they are to run.
    ///
    /// The walk leaves the chunk as it is: setting the fill back to `marker`
    /// is for the caller.
    pub fn destroy_to_marker(&self, marker: usize) -> (destroyed: Vec<Record>)
        requires
            self@.wf(),
            self@.reaches(marker as int, self@.fill as int),
        ensures
            destroyed@ == self@.droppable_from(marker as int),
    {
        //Get the index of the marker.
        //We'll start walking from this location.
        let mut index: usize = marker;

        //Get the index of the first unused memory address.
        //We'll stop when we are at this location.
        let fill: usize = self.fill;

        let mut destroyed: Vec<Record> = Vec::new();

        proof {
            self@.lemma_reaches_ordered(marker as int, fill as int);
            self@.lemma_step(marker as int, marker as int);
            reveal(Seq::filter);
        }

        //While the starting index is inferior to the ending one...
        while index < fill
            invariant
                self@.wf(),
                fill == self@.fill,
                marker <= index <= fill,
                self@.reaches(marker as int, index as int),
                self@.reaches(index as int, fill as int),
                destroyed@ == self@.records(marker as int, index as int).filter(is_done()),
            decreases fill - index,
        {
            proof {
                self@.lemma_step(index as int, fill as int);
            }

            //Read the packed word that opens the record.
            let word: u64 = self.read_word(index);

            //Decode it to obtain the pointer to the description of the object, and a
            //boolean to know if the object has been initialized.
            let (type_description, is_done) = un_bitpack_type_description_ptr(word as usize);

            //Get the size and the alignment of the object, with its type description.
            let description: TypeDescription = self.types[type_description / 2];

            proof {
                lemma_word_align_is_pow2();
                lemma_pow2_is_positive(description.alignment as int);
                lemma_record_bounds(
                    index as int,
                    description.size as int,
                    description.alignment as int,
                );
                lemma_round_up_fits((index + WORD_SIZE) as usize, description.alignment);
                lemma_round_up_fits(
                    (object_start(index as int, description.alignment as int)
                        + description.size) as usize,
                    WORD_ALIGN,
                );
            }

            //Get the index of the memory address just after the packed word.
            //It's the unaligned memory address of the object.
            let after_type_description: usize = index + WORD_SIZE;

            //Get the aligned memory address, with the unaligned one and the alignment of the object.
            //This is where the object *really* lives.
            let start: usize = round_up(after_type_description, description.alignment);

            //Find where the next packed word lives.
            let end: usize = round_up(start + description.size, WORD_ALIGN);

            //If the object has been successfully initialized, its destructor is to run.
            if is_done {
                destroyed.push(
                    Record { type_description_start: index, type_description, is_done, start, end },
                );
            }

            proof {
                let record = self@.record_at(index as int);
                self@.lemma_one_record(index as int, fill as int);
                self@.lemma_join(marker as int, index as int, end as int);
                assert(self@.records(marker as int, end as int) == self@.records(
                    marker as int,
                    index as int,
                ).push(record));
                ChunkView::lemma_filter_push(self@.records(marker as int, index as int), record);
            }

            index = end;
        }
        destroyed
    }

    /// Walks over all the records of the chunk: see [`MemoryChunk::destroy_to_marker`].
    pub fn destroy(&self) -> (destroyed: Vec<Record>)
        requires
            self@.wf(),
            self@.holds_records(),
        ensures
            destroyed@ == self@.droppable_from(0),
    {
        self.destroy_to_marker(0)
    }

    /// Returns the address of the start of the memory storage used by the chunk.
    ///
    /// The address is the one that the chunk took down when it allocated its
    /// storage. The storage never grows, so it stays where it is, and no
    /// operation on the chunk changes the address.
    pub fn as_ptr(&self) -> (address: usize)
        ensures
            address == self@.address,
    {
        self.address
    }
}

/// Returns the address at which the buffer of `storage` starts.
///
/// Calls `Vec::as_ptr` and hands the pointer on as an integer. Nothing is
/// claimed of the address: it is where the host placed the buffer.
#[verifier::external_body]
fn buffer_address(storage: &Vec<u8>) -> (address: usize) {
    storage.as_ptr() as usize
}

} // verus!
