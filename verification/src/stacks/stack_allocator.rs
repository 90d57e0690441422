//! The stack allocator: two memory chunks filled from the bottom up, one for
//! data that needs its destructor to run and one for data that does not.

use crate::allocation_error::{AllocationError, AllocationResult};
use crate::memory_chunk::{
    is_done,
    lemma_record_bounds,
    object_start,
    record_end,
    word_at,
    ChunkView,
    MemoryChunk,
    Record,
};
use crate::utils::{
    bitpack_type_description_ptr,
    checked_round_up,
    get_type_description,
    is_aligned,
    lemma_pow2_is_positive,
    lemma_round_up_fits,
    lemma_round_up_is_least,
    lemma_unpack_pack,
    lemma_word_align_is_pow2,
    pack_spec,
    round_up,
    type_description_of,
    TypeDescription,
    WORD_ALIGN,
    WORD_SIZE,
};
use vstd::arithmetic::power2::is_pow2;
use vstd::layout::align_of;
use vstd::prelude::*;

verus! {

/// Tells whether values of `T` need their destructor to run.
///
/// This is `core::mem::needs_drop`. Nothing is claimed of its answer: the
/// allocator is verified for either one.
pub assume_specification<T: ?Sized>[ core::mem::needs_drop::<T> ]() -> (needs_drop: bool);

/// A value together with the place that the allocator reserved for it.
pub struct Allocation<T> {
    /// Offset of the place from the start of the chunk, a multiple of the alignment of `T`.
    pub offset: usize,
    /// The value that the initialiser returned.
    pub value: T,
}

/// What a checked allocation of copyable data with the given description
/// returns when it goes to the chunk `pre`, and the chunk `post` that it
/// leaves. `message` is the message of the error, where it fails.
pub open spec fn copy_result<T>(
    pre: ChunkView,
    post: ChunkView,
    description: TypeDescription,
    r: AllocationResult<Allocation<T>>,
    message: Seq<char>,
) -> bool {
    let size = description.size as int;
    let align = description.alignment as int;
    match r {
        Ok(allocation) => {
            &&& pre.fits_copy(size, align)
            &&& allocation.offset == pre.start_copy(align)
            &&& post == pre.with_fill(pre.end_copy(size, align))
        },
        Err(e) => {
            &&& !pre.fits_copy(size, align)
            &&& post == pre
            &&& e matches AllocationError::OutOfMemoryError(text)
            &&& text@ == message
        },
    }
}

/// The view of a stack allocator: its two chunks.
pub ghost struct StackView {
    /// The chunk for data that needs its destructor to run.
    pub storage: ChunkView,
    /// The chunk for data that does not.
    pub storage_copy: ChunkView,
}

impl StackView {
    /// Number of bytes of the chunk for droppable data.
    pub open spec fn capacity(self) -> nat {
        self.storage.capacity()
    }

    /// Number of bytes of the chunk for copyable data.
    pub open spec fn capacity_copy(self) -> nat {
        self.storage_copy.capacity()
    }

    /// Index of the first unused byte of the chunk for droppable data.
    pub open spec fn marker(self) -> nat {
        self.storage.fill
    }

    /// Index of the first unused byte of the chunk for copyable data.
    pub open spec fn marker_copy(self) -> nat {
        self.storage_copy.fill
    }

    /// The records of droppable data, in the order in which they were allocated.
    pub open spec fn records(self) -> Seq<Record> {
        self.storage.records(0, self.storage.fill as int)
    }

    /// The records of droppable data from `marker` on.
    pub open spec fn records_from(self, marker: int) -> Seq<Record> {
        self.storage.records(marker, self.storage.fill as int)
    }

    /// `marker` is the start of a record of droppable data, or the first unused byte.
    pub open spec fn is_marker(self, marker: int) -> bool {
        self.storage.is_marker(marker)
    }

    /// Both fills are within their capacity, and the droppable data up to its
    /// fill is a sequence of records, each of a fully initialised object.
    pub open spec fn wf(self) -> bool {
        &&& self.storage.wf()
        &&& self.storage_copy.wf()
        &&& self.storage.holds_records()
        &&& forall|i: int| 0 <= i < self.records().len() ==> (#[trigger] self.records()[i]).is_done
    }

    /// Offset at which droppable data with alignment `align` would be placed.
    pub open spec fn start(self, align: int) -> int {
        object_start(self.marker() as int, align)
    }

    /// Offset of the first byte behind droppable data of `size` bytes with
    /// alignment `align`, once it is placed.
    pub open spec fn end(self, size: int, align: int) -> int {
        record_end(self.marker() as int, size, align)
    }

    /// There is room for droppable data of `size` bytes with alignment `align`:
    /// its record ends below the capacity.
    pub open spec fn fits(self, size: int, align: int) -> bool {
        self.end(size, align) < self.capacity()
    }

    /// Offset at which copyable data with alignment `align` would be placed.
    pub open spec fn start_copy(self, align: int) -> int {
        self.storage_copy.start_copy(align)
    }

    /// Offset of the first byte behind copyable data of `size` bytes with
    /// alignment `align`, once it is placed.
    pub open spec fn end_copy(self, size: int, align: int) -> int {
        self.storage_copy.end_copy(size, align)
    }

    /// There is room for copyable data of `size` bytes with alignment `align`:
    /// it ends below the capacity.
    pub open spec fn fits_copy(self, size: int, align: int) -> bool {
        self.storage_copy.fits_copy(size, align)
    }

    /// The record that an allocation of droppable data with the given description adds.
    pub open spec fn new_record(self, description: TypeDescription) -> Record {
        Record {
            type_description_start: self.marker() as usize,
            type_description: self.storage.pointer_to(description) as usize,
            is_done: true,
            start: self.start(description.alignment as int) as usize,
            end: self.end(description.size as int, description.alignment as int) as usize,
        }
    }

    /// `post` is the allocator after droppable data with the given description
    /// was allocated: the description is kept, the packed word of the new
    /// record stands at the old fill, and the fill is the end of the record.
    /// Everything else is as it was.
    pub open spec fn allocated(self, post: StackView, description: TypeDescription) -> bool {
        let record = self.new_record(description);
        &&& post.storage_copy == self.storage_copy
        &&& post.storage.types == self.storage.types_with(description)
        &&& post.storage.fill == record.end
        &&& post.storage.address == self.storage.address
        &&& post.storage.bytes.len() == self.storage.bytes.len()
        &&& word_at(post.storage.bytes, record.type_description_start as int) == pack_spec(
            record.type_description as int,
            true,
        )
        &&& forall|i: int|
            0 <= i < self.storage.bytes.len() && !(record.type_description_start <= i
                < record.type_description_start + WORD_SIZE) ==> post.storage.bytes[i]
                == self.storage.bytes[i]
    }

    /// `post` is the allocator after copyable data of `size` bytes with
    /// alignment `align` was allocated: the fill of the chunk for copyable
    /// data is the end of the data. Everything else is as it was.
    pub open spec fn allocated_copy(self, post: StackView, size: int, align: int) -> bool {
        &&& post.storage == self.storage
        &&& post.storage_copy == self.storage_copy.with_fill(self.end_copy(size, align))
    }

    /// Droppable data with the given description can be allocated: there is
    /// room for its record, and its description is kept or can be kept.
    pub open spec fn can_alloc(self, description: TypeDescription) -> bool {
        &&& self.fits(description.size as int, description.alignment as int)
        &&& self.storage.can_describe(description)
    }

    /// What a checked allocation of droppable data with the given description
    /// returns, and the allocator `post` that it leaves.
    pub open spec fn alloc_non_copy_result<T>(
        self,
        post: StackView,
        description: TypeDescription,
        r: AllocationResult<Allocation<T>>,
    ) -> bool {
        match r {
            Ok(allocation) => {
                &&& self.can_alloc(description)
                &&& allocation.offset == self.start(description.alignment as int)
                &&& self.allocated(post, description)
            },
            Err(e) => {
                &&& !self.can_alloc(description)
                &&& post == self
                &&& e matches AllocationError::OutOfMemoryError(message)
                &&& message@ == "The stack allocator is out of memory !"@
            },
        }
    }

    /// What a checked allocation of copyable data with the given description
    /// returns, and the allocator `post` that it leaves.
    pub open spec fn alloc_copy_result<T>(
        self,
        post: StackView,
        description: TypeDescription,
        r: AllocationResult<Allocation<T>>,
    ) -> bool {
        &&& post.storage == self.storage
        &&& copy_result(
            self.storage_copy,
            post.storage_copy,
            description,
            r,
            "The copy stack allocator is out of memory !"@,
        )
    }

    /// An allocation of droppable data leaves a well-formed allocator, appends
    /// the record of the data to the records, and keeps every marker usable.
    pub proof fn lemma_allocated(self, post: StackView, description: TypeDescription)
        requires
            self.wf(),
            is_pow2(description.alignment as int),
            self.can_alloc(description),
            self.allocated(post, description),
        ensures
            post.wf(),
            post.capacity() == self.capacity(),
            post.records() == self.records().push(self.new_record(description)),
            post.marker() == self.end(description.size as int, description.alignment as int),
            forall|marker: int| self.is_marker(marker) ==> #[trigger] post.is_marker(marker),
            post.is_marker(post.marker() as int),
    {
        let s = self.storage;
        let t = post.storage;
        let fill = s.fill as int;
        let record = self.new_record(description);
        let end = self.end(description.size as int, description.alignment as int);
        let p = s.pointer_to(description);
        lemma_pow2_is_positive(description.alignment as int);
        lemma_record_bounds(fill, description.size as int, description.alignment as int);
        assert(s.types.is_prefix_of(t.types));
        assert(t.types[p / 2] == description) by {
            if s.types.contains(description) {
                assert(s.types[s.types.index_of(description)] == description);
            }
        }
        assert(t.wf()) by {
            assert forall|i: int| 0 <= i < t.types.len() implies is_pow2(
                (#[trigger] t.types[i]).alignment as int,
            ) by {
                if i < s.types.len() {
                    assert(t.types[i] == s.types[i]);
                }
            }
        }
        s.lemma_same_records(t, 0, fill);
        lemma_unpack_pack(p, true);
        assert(t.described_at(fill) == Some(description));
        assert(t.is_record(fill, end));
        assert(t.record_at(fill) == record);
        t.lemma_one_record(fill, end);
        t.lemma_join(0, fill, end);
        t.lemma_step(end, end);
        assert(post.records() == self.records().push(record));
        assert forall|marker: int| self.is_marker(marker) implies #[trigger] post.is_marker(
            marker,
        ) by {
            s.lemma_same_records(t, 0, marker);
            s.lemma_same_records(t, marker, fill);
            t.lemma_join(marker, fill, end);
        }
    }

    /// An allocation of copyable data leaves a well-formed allocator.
    pub proof fn lemma_allocated_copy(self, post: StackView, size: int, align: int)
        requires
            self.wf(),
            0 <= size,
            0 < align,
            self.fits_copy(size, align),
            self.allocated_copy(post, size, align),
        ensures
            post.wf(),
            post.records() == self.records(),
            post.marker() == self.marker(),
            post.marker_copy() == self.end_copy(size, align),
    {
        lemma_round_up_is_least(self.marker_copy() as int, align);
        assert(post.storage_copy.wf());
        assert(post.storage.wf());
        assert(post.storage.holds_records());
        assert(post.records() == self.records());
    }

    /// A reset of the droppable data to a marker leaves a well-formed
    /// allocator. The records below the marker stay, the records from the
    /// marker on go, and all of these are met by the walk from the marker.
    /// The markers that stay usable are those at or below the marker.
    pub proof fn lemma_reset_to(self, marker: int)
        requires
            self.wf(),
            self.is_marker(marker),
        ensures
            self.reset_to(marker).wf(),
            self.reset_to(marker).marker() == marker,
            self.records() == self.reset_to(marker).records() + self.records_from(marker),
            self.storage.droppable_from(marker) == self.records_from(marker),
            forall|i: int|
                0 <= i < self.reset_to(marker).records().len() ==> (#[trigger] self.reset_to(
                    marker,
                ).records()[i]).type_description_start < marker,
            forall|i: int|
                0 <= i < self.records_from(marker).len() ==> (#[trigger] self.records_from(
                    marker,
                )[i]).type_description_start >= marker,
            forall|m: int|
                #[trigger] self.reset_to(marker).is_marker(m) <==> self.is_marker(m) && m
                    <= marker,
    {
        let s = self.storage;
        let p = self.reset_to(marker).storage;
        let fill = s.fill as int;
        s.lemma_same_records(p, 0, marker);
        s.lemma_split(0, marker, fill);
        let below = s.records(0, marker);
        let above = s.records(marker, fill);
        assert forall|i: int| 0 <= i < below.len() implies (#[trigger] below[i]).is_done by {
            assert(below[i] == self.records()[i]);
        }
        assert forall|i: int| 0 <= i < above.len() implies (#[trigger] above[i]).is_done by {
            assert(above[i] == self.records()[below.len() + i]);
        }
        ChunkView::lemma_all_done(above);
        s.lemma_records_within(0, marker);
        s.lemma_records_within(marker, fill);
        assert forall|m: int| #[trigger]
            self.reset_to(marker).is_marker(m) <==> self.is_marker(m) && m <= marker by {
            if self.is_marker(m) && m <= marker {
                s.lemma_same_records(p, 0, m);
                s.lemma_split(0, m, marker);
                s.lemma_same_records(p, m, marker);
            }
            if self.reset_to(marker).is_marker(m) {
                p.lemma_same_records(s, 0, m);
                p.lemma_same_records(s, m, marker);
                s.lemma_join(m, marker, fill);
            }
        }
    }

    /// A reset of the droppable data is idempotent: a second reset changes
    /// nothing, and finds nothing to drop.
    pub proof fn lemma_reset_is_idempotent(self)
        requires
            self.wf(),
        ensures
            self.reset_to(0).wf(),
            self.reset_to(0).is_marker(0),
            self.reset_to(0).reset_to(0) == self.reset_to(0),
            self.reset_to(0).records() == Seq::<Record>::empty(),
    {
        self.storage.lemma_step(0, 0);
        self.lemma_reset_to(0);
        self.reset_to(0).storage.lemma_step(0, 0);
    }

    /// A reset of the droppable data to the first unused byte is no reset at
    /// all: it changes nothing, and finds nothing to drop.
    pub proof fn lemma_reset_to_marker_of_now(self)
        requires
            self.wf(),
        ensures
            self.is_marker(self.marker() as int),
            self.reset_to(self.marker() as int) == self,
            self.records_from(self.marker() as int) == Seq::<Record>::empty(),
    {
        self.storage.lemma_step(self.marker() as int, self.marker() as int);
    }

    /// A reset of the copyable data is idempotent, and a reset of the copyable
    /// data to the first unused byte changes nothing.
    pub proof fn lemma_reset_copy_is_idempotent(self)
        ensures
            self.reset_copy_to(0).reset_copy_to(0) == self.reset_copy_to(0),
            self.reset_copy_to(self.marker_copy() as int) == self,
    {
    }

    /// Data whose record would end at the capacity, or beyond it, does not fit:
    /// the last byte of a chunk is never given out.
    pub proof fn lemma_end_at_capacity_does_not_fit(self, size: int, align: int)
        ensures
            self.end(size, align) >= self.capacity() ==> !self.fits(size, align),
            self.end_copy(size, align) >= self.capacity_copy() ==> !self.fits_copy(size, align),
            self.end(size, align) < self.capacity() ==> self.fits(size, align),
            self.end_copy(size, align) < self.capacity_copy() ==> self.fits_copy(size, align),
    {
    }

    /// A reset of the copyable data to an offset within the capacity leaves a
    /// well-formed allocator, with the droppable data as it was.
    pub proof fn lemma_reset_copy_to(self, marker: int)
        requires
            self.wf(),
            0 <= marker <= self.capacity_copy(),
        ensures
            self.reset_copy_to(marker).wf(),
            self.reset_copy_to(marker).marker_copy() == marker,
            self.reset_copy_to(marker).records() == self.records(),
            self.reset_copy_to(marker).marker() == self.marker(),
    {
        let post = self.reset_copy_to(marker);
        assert(post.storage_copy.wf());
        assert(post.storage.wf());
        assert(post.storage.holds_records());
        assert(post.records() == self.records());
    }

    /// The allocator once the fill of the chunk for droppable data is set back to `marker`.
    pub open spec fn reset_to(self, marker: int) -> StackView {
        StackView { storage: self.storage.with_fill(marker), ..self }
    }

    /// The allocator once the fill of the chunk for copyable data is set back to `marker`.
    pub open spec fn reset_copy_to(self, marker: int) -> StackView {
        StackView { storage_copy: self.storage_copy.with_fill(marker), ..self }
    }
}

/// A stack-based allocator.
///
/// It manages two memory storages to:
///
/// - Allocate bytes in a stack-like fashion.
///
/// - Store different types of objects in the same storage.
///
/// - Tell which objects are to be dropped when a storage is reset.
///
/// One storage is used for data that needs its destructor to run, the other
/// for data that does not. To find the first kind again, the allocator places
/// a pointer to a description of the type next to each object.
///
/// # Details
///
/// ## Instantiation
/// When instantiated, the `StackAllocator` pre-allocates the given number of
/// bytes for each memory storage.
///
/// ## Allocation
/// When an object is allocated, the allocator:
///
/// - Checks if the object needs to be dropped, and chooses the memory storage accordingly,
///
/// - Finds the next offset in that storage that suits the alignment of the object,
///
/// - Runs the initialiser,
///
/// - Moves the first unused byte of the storage behind the object,
///
/// - And returns the object together with its offset.
///
/// The allocator never touches the bytes of an object. Moving the object to
/// its offset, and calling its destructor when a reset says so, is for the
/// code that owns the memory.
///
/// ## Roll-back
///
/// A **marker** is the index of the first unused byte of a storage at some
/// moment. A storage can be reset to a marker, or reset entirely: the first
/// unused byte moves back to the marker (or to the bottom), and for the
/// storage of droppable data the allocator returns the objects that lay
/// between the marker and the first unused byte, first allocated first.
pub struct StackAllocator {
    storage: MemoryChunk,
    storage_copy: MemoryChunk,
}

impl View for StackAllocator {
    type V = StackView;

    closed spec fn view(&self) -> StackView {
        StackView { storage: self.storage@, storage_copy: self.storage_copy@ }
    }
}

impl StackAllocator {
    /// Creates a StackAllocator with the given capacities, in bytes.
    ///
    /// The first capacity is for the memory storage holding droppable data,
    /// the second is for the memory storage holding copyable data.
    pub fn with_capacity(capacity: usize, capacity_copy: usize) -> (allocator: Self)
        ensures
            allocator@.wf(),
            allocator@.capacity() == capacity,
            allocator@.capacity_copy() == capacity_copy,
            allocator@.marker() == 0,
            allocator@.marker_copy() == 0,
            allocator@.records() == Seq::<Record>::empty(),
            allocator@.storage.types.len() == 0,
    {
        let allocator = StackAllocator {
            storage: MemoryChunk::new(capacity),
            storage_copy: MemoryChunk::new(capacity_copy),
        };
        proof {
            allocator@.storage.lemma_step(0, 0);
        }
        allocator
    }

    /// Returns the memory storage holding droppable data.
    pub fn storage(&self) -> (storage: &MemoryChunk)
        ensures
            storage@ == self@.storage,
    {
        &self.storage
    }

    /// Returns the memory storage holding copyable data.
    pub fn storage_copy(&self) -> (storage: &MemoryChunk)
        ensures
            storage@ == self@.storage_copy,
    {
        &self.storage_copy
    }

    /// Finds the place of droppable data of `n_bytes` bytes with alignment
    /// `align`: the offset of its packed word, the offset of the data, and the
    /// offset of the first byte behind its record.
    fn alloc_non_copy_inner(&self, n_bytes: usize, align: usize) -> (r: AllocationResult<
        (usize, usize, usize),
    >)
        requires
            self@.wf(),
            is_pow2(align as int),
        ensures
            match r {
                Ok((type_description_start, start, end)) => {
                    &&& self@.fits(n_bytes as int, align as int)
                    &&& type_description_start == self@.marker()
                    &&& start == self@.start(align as int)
                    &&& end == self@.end(n_bytes as int, align as int)
                },
                Err(e) => {
                    &&& !self@.fits(n_bytes as int, align as int)
                    &&& e matches AllocationError::OutOfMemoryError(message)
                    &&& message@ == "The stack allocator is out of memory !"@
                },
            },
    {
        proof {
            lemma_word_align_is_pow2();
            lemma_pow2_is_positive(align as int);
            lemma_record_bounds(self@.marker() as int, n_bytes as int, align as int);
        }
        //Get the index of the first unused byte in the memory chunk.
        let fill: usize = self.storage.fill();

        //The packed word is written at the first unused byte in the memory chunk.
        let type_description_start: usize = fill;

        //Get the index of where the object should reside (unaligned location actually).
        let after_type_description: Option<usize> = fill.checked_add(WORD_SIZE);

        //With the index to the unaligned memory address, determine the index to
        //the aligned memory address where the object will reside,
        //according to its memory alignment.
        let start: Option<usize> = match after_type_description {
            Some(after_type_description) => checked_round_up(after_type_description, align),
            None => None,
        };

        //Determine the index of the next aligned memory address for a packed word,
        //according to the size of the object and the memory alignment of a packed word.
        let unaligned_end: Option<usize> = match start {
            Some(start) => start.checked_add(n_bytes),
            None => None,
        };
        let end: Option<usize> = match unaligned_end {
            Some(unaligned_end) => checked_round_up(unaligned_end, WORD_ALIGN),
            None => None,
        };

        //If the record does not end below the capacity, the allocator is out of memory.
        match (start, end) {
            (Some(start), Some(end)) => {
                if end >= self.storage.capacity() {
                    Err(AllocationError::OutOfMemoryError(
                        "The stack allocator is out of memory !".to_owned(),
                    ))
                } else {
                    Ok((type_description_start, start, end))
                }
            },
            _ => Err(AllocationError::OutOfMemoryError(
                "The stack allocator is out of memory !".to_owned(),
            )),
        }
    }

    /// Finds the place of droppable data like [`StackAllocator::alloc_non_copy_inner`],
    /// without the check: the caller knows that there is room.
    fn alloc_non_copy_inner_unchecked(&self, n_bytes: usize, align: usize) -> (r: (
        usize,
        usize,
        usize,
    ))
        requires
            self@.wf(),
            is_pow2(align as int),
            self@.fits(n_bytes as int, align as int),
        ensures
            r.0 == self@.marker(),
            r.1 == self@.start(align as int),
            r.2 == self@.end(n_bytes as int, align as int),
    {
        proof {
            lemma_word_align_is_pow2();
            lemma_pow2_is_positive(align as int);
            lemma_record_bounds(self@.marker() as int, n_bytes as int, align as int);
            lemma_round_up_fits((self@.marker() + WORD_SIZE) as usize, align);
            lemma_round_up_fits((self@.start(align as int) + n_bytes) as usize, WORD_ALIGN);
        }
        //Get the index of the first unused byte in the memory chunk.
        let fill: usize = self.storage.fill();

        //The packed word is written at the first unused byte in the memory chunk.
        let type_description_start: usize = fill;

        //Get the index of where the object should reside (unaligned location actually).
        let after_type_description: usize = fill + WORD_SIZE;

        //With the index to the unaligned memory address, determine the index to
        //the aligned memory address where the object will reside,
        //according to its memory alignment.
        let start: usize = round_up(after_type_description, align);

        //Determine the index of the next aligned memory address for a packed word,
        //according to the size of the object and the memory alignment of a packed word.
        let end: usize = round_up(start + n_bytes, WORD_ALIGN);

        (type_description_start, start, end)
    }

    /// Finds the place of copyable data of `n_bytes` bytes with alignment
    /// `align`: the offset of the data and the offset of the first byte behind it.
    fn alloc_copy_inner(&self, n_bytes: usize, align: usize) -> (r: AllocationResult<
        (usize, usize),
    >)
        requires
            self@.wf(),
            is_pow2(align as int),
        ensures
            match r {
                Ok((start, end)) => {
                    &&& self@.fits_copy(n_bytes as int, align as int)
                    &&& start == self@.start_copy(align as int)
                    &&& end == self@.end_copy(n_bytes as int, align as int)
                },
                Err(e) => {
                    &&& !self@.fits_copy(n_bytes as int, align as int)
                    &&& e matches AllocationError::OutOfMemoryError(message)
                    &&& message@ == "The copy stack allocator is out of memory !"@
                },
            },
    {
        //Get the index of the first unused memory address in the memory chunk.
        let fill: usize = self.storage_copy.fill();

        //Get the index of the aligned memory address, which will be returned.
        let start: Option<usize> = checked_round_up(fill, align);

        //Get the index of the future first unused memory address, according to the size of the object.
        let end: Option<usize> = match start {
            Some(start) => start.checked_add(n_bytes),
            None => None,
        };

        //We don't grow the capacity, or create another chunk.
        match (start, end) {
            (Some(start), Some(end)) => {
                if end >= self.storage_copy.capacity() {
                    Err(AllocationError::OutOfMemoryError(
                        "The copy stack allocator is out of memory !".to_owned(),
                    ))
                } else {
                    Ok((start, end))
                }
            },
            _ => Err(AllocationError::OutOfMemoryError(
                "The copy stack allocator is out of memory !".to_owned(),
            )),
        }
    }

    /// Finds the place of copyable data like [`StackAllocator::alloc_copy_inner`],
    /// without the check: the caller knows that there is room.
    fn alloc_copy_inner_unchecked(&self, n_bytes: usize, align: usize) -> (r: (usize, usize))
        requires
            self@.wf(),
            is_pow2(align as int),
            self@.fits_copy(n_bytes as int, align as int),
        ensures
            r.0 == self@.start_copy(align as int),
            r.1 == self@.end_copy(n_bytes as int, align as int),
    {
        proof {
            lemma_pow2_is_positive(align as int);
            lemma_round_up_is_least(self@.marker_copy() as int, align as int);
            lemma_round_up_fits(self@.marker_copy() as usize, align);
        }
        //Get the index of the first unused memory address in the memory chunk.
        let fill: usize = self.storage_copy.fill();

        //Get the index of the aligned memory address, which will be returned.
        let start: usize = round_up(fill, align);

        //Get the index of the future first unused memory address, according to the size of the object.
        let end: usize = start + n_bytes;

        (start, end)
    }

    /// Allocates droppable data: finds its place, keeps the description of
    /// `T`, writes the packed word of the record, runs the initialiser, and
    /// moves the first unused byte behind the record.
    ///
    /// The packed word says that the object is not initialised while the
    /// initialiser runs, and the first unused byte moves only when it has
    /// returned: an initialiser that does not return leaves no record behind.
    ///
    /// # Error
    /// Returns an error, and changes nothing, if the record would not end below
    /// the capacity, or if the description of `T` is new and no further
    /// description can be kept.
    pub fn alloc_non_copy<T, F>(&mut self, op: F) -> (r: AllocationResult<Allocation<T>>) where
        F: FnOnce() -> T,

        requires
            old(self)@.wf(),
            op.requires(()),
        ensures
            final(self)@.wf(),
            old(self)@.alloc_non_copy_result(final(self)@, type_description_of::<T>(), r),
            r matches Ok(allocation) ==> {
                &&& op.ensures((), allocation.value)
                &&& is_aligned(allocation.offset as int, align_of::<T>() as int)
                &&& final(self)@.records() == old(self)@.records().push(
                    old(self)@.new_record(type_description_of::<T>()),
                )
            },
    {
        //Get the type description of the type T.
        let description: TypeDescription = get_type_description::<T>();

        //Ask where the packed word and the object go.
        let (type_description_start, start, end) = match self.alloc_non_copy_inner(
            description.size,
            description.alignment,
        ) {
            Ok(place) => place,
            Err(e) => {
                return Err(e);
            },
        };
        let type_description: usize = match self.storage.describe(description) {
            Some(type_description) => type_description,
            None => {
                return Err(
                    AllocationError::OutOfMemoryError(
                        "The stack allocator is out of memory !".to_owned(),
                    ),
                );
            },
        };
        proof {
            lemma_pow2_is_positive(description.alignment as int);
            lemma_record_bounds(
                old(self)@.marker() as int,
                description.size as int,
                description.alignment as int,
            );
        }

        //write in our type description along with a bit indicating that the object has *not*
        //been initialized yet.
        self.storage.write_word(
            type_description_start,
            bitpack_type_description_ptr(type_description, false),
        );

        //Initialize the object.
        let value: T = op();

        //Now that we are done, update the type description to indicate
        //that the object is there.
        self.storage.write_word(
            type_description_start,
            bitpack_type_description_ptr(type_description, true),
        );

        //Update the current top of the stack.
        //The first unused memory address is at index 'end',
        //where the next type description would be written
        //if an allocation was asked.
        self.storage.set_fill(end);

        proof {
            old(self)@.lemma_allocated(self@, description);
        }
        Ok(Allocation { offset: start, value })
    }

    /// Allocates droppable data like [`StackAllocator::alloc_non_copy`],
    /// without the checks: the caller knows that the data can be allocated.
    pub fn alloc_non_copy_unchecked<T, F>(&mut self, op: F) -> (allocation: Allocation<T>) where
        F: FnOnce() -> T,

        requires
            old(self)@.wf(),
            old(self)@.can_alloc(type_description_of::<T>()),
            op.requires(()),
        ensures
            final(self)@.wf(),
            old(self)@.allocated(final(self)@, type_description_of::<T>()),
            allocation.offset == old(self)@.start(type_description_of::<T>().alignment as int),
            is_aligned(allocation.offset as int, align_of::<T>() as int),
            op.ensures((), allocation.value),
            final(self)@.records() == old(self)@.records().push(
                old(self)@.new_record(type_description_of::<T>()),
            ),
    {
        //Get the type description of the type T.
        let description: TypeDescription = get_type_description::<T>();

        //Ask where the packed word and the object go.
        let (type_description_start, start, end) = self.alloc_non_copy_inner_unchecked(
            description.size,
            description.alignment,
        );
        let type_description: usize = self.storage.describe(description).unwrap();
        proof {
            lemma_pow2_is_positive(description.alignment as int);
            lemma_record_bounds(
                old(self)@.marker() as int,
                description.size as int,
                description.alignment as int,
            );
        }

        //write in our type description along with a bit indicating that the object has *not*
        //been initialized yet.
        self.storage.write_word(
            type_description_start,
            bitpack_type_description_ptr(type_description, false),
        );

        //Initialize the object.
        let value: T = op();

        //Now that we are done, update the type description to indicate
        //that the object is there.
        self.storage.write_word(
            type_description_start,
            bitpack_type_description_ptr(type_description, true),
        );

        //Update the current top of the stack.
        self.storage.set_fill(end);

        proof {
            old(self)@.lemma_allocated(self@, description);
        }
        Allocation { offset: start, value }
    }

    /// Allocates copyable data: finds its place, runs the initialiser, and
    /// moves the first unused byte behind the data.
    ///
    /// # Error
    /// Returns an error, and changes nothing, if the data would not end below the capacity.
    pub fn alloc_copy<T, F>(&mut self, op: F) -> (r: AllocationResult<Allocation<T>>) where
        F: FnOnce() -> T,

        requires
            old(self)@.wf(),
            op.requires(()),
        ensures
            final(self)@.wf(),
            old(self)@.alloc_copy_result(final(self)@, type_description_of::<T>(), r),
            r matches Ok(allocation) ==> {
                &&& op.ensures((), allocation.value)
                &&& is_aligned(allocation.offset as int, align_of::<T>() as int)
            },
    {
        let description: TypeDescription = get_type_description::<T>();

        //Get the aligned offset to place the object at.
        let (start, end) = match self.alloc_copy_inner(description.size, description.alignment) {
            Ok(place) => place,
            Err(e) => {
                return Err(e);
            },
        };

        //Initialize the object.
        let value: T = op();

        //Set the first unused memory address of the memory chunk to the index calculated earlier.
        self.storage_copy.set_fill(end);

        proof {
            lemma_pow2_is_positive(description.alignment as int);
            lemma_round_up_is_least(old(self)@.marker_copy() as int, description.alignment as int);
            old(self)@.lemma_allocated_copy(
                self@,
                description.size as int,
                description.alignment as int,
            );
        }
        Ok(Allocation { offset: start, value })
    }

    /// Allocates copyable data like [`StackAllocator::alloc_copy`], without the
    /// check: the caller knows that there is room.
    pub fn alloc_copy_unchecked<T, F>(&mut self, op: F) -> (allocation: Allocation<T>) where
        F: FnOnce() -> T,

        requires
            old(self)@.wf(),
            old(self)@.fits_copy(
                type_description_of::<T>().size as int,
                type_description_of::<T>().alignment as int,
            ),
            op.requires(()),
        ensures
            final(self)@.wf(),
            old(self)@.allocated_copy(
                final(self)@,
                type_description_of::<T>().size as int,
                type_description_of::<T>().alignment as int,
            ),
            allocation.offset == old(self)@.start_copy(
                type_description_of::<T>().alignment as int,
            ),
            is_aligned(allocation.offset as int, align_of::<T>() as int),
            op.ensures((), allocation.value),
    {
        let description: TypeDescription = get_type_description::<T>();

        //Get the aligned offset to place the object at.
        let (start, end) = self.alloc_copy_inner_unchecked(description.size, description.alignment);

        //Initialize the object.
        let value: T = op();

        //Set the first unused memory address of the memory chunk to the index calculated earlier.
        self.storage_copy.set_fill(end);

        proof {
            lemma_pow2_is_positive(description.alignment as int);
            lemma_round_up_is_least(old(self)@.marker_copy() as int, description.alignment as int);
            old(self)@.lemma_allocated_copy(
                self@,
                description.size as int,
                description.alignment as int,
            );
        }
        Allocation { offset: start, value }
    }

    /// Allocates data in the allocator's memory, returning the data together with its offset.
    ///
    /// If the allocated data needs its destructor to run, it will be placed in
    /// the memory storage holding droppable data. Otherwise, it will be placed
    /// in the other memory storage.
    ///
    /// # Error
    /// This function will return an error if the allocation exceeds the maximum storage capacity of the allocator.
    pub fn allocate<T, F>(&mut self, op: F) -> (r: AllocationResult<Allocation<T>>) where
        F: FnOnce() -> T,

        requires
            old(self)@.wf(),
            op.requires(()),
        ensures
            final(self)@.wf(),
            old(self)@.alloc_non_copy_result(final(self)@, type_description_of::<T>(), r) || old(
                self,
            )@.alloc_copy_result(final(self)@, type_description_of::<T>(), r),
            r matches Ok(allocation) ==> {
                &&& op.ensures((), allocation.value)
                &&& is_aligned(allocation.offset as int, align_of::<T>() as int)
            },
    {
        if core::mem::needs_drop::<T>() {
            self.alloc_non_copy(op)
        } else {
            self.alloc_copy(op)
        }
    }

    /// Allocates data in the allocator's memory like [`StackAllocator::allocate`],
    /// for data that the caller goes on to change.
    ///
    /// # Error
    /// This function will return an error if the allocation exceeds the maximum storage capacity of the allocator.
    pub fn alloc_mut<T, F>(&mut self, op: F) -> (r: AllocationResult<Allocation<T>>) where
        F: FnOnce() -> T,

        requires
            old(self)@.wf(),
            op.requires(()),
        ensures
            final(self)@.wf(),
            old(self)@.alloc_non_copy_result(final(self)@, type_description_of::<T>(), r) || old(
                self,
            )@.alloc_copy_result(final(self)@, type_description_of::<T>(), r),
            r matches Ok(allocation) ==> {
                &&& op.ensures((), allocation.value)
                &&& is_aligned(allocation.offset as int, align_of::<T>() as int)
            },
    {
        if core::mem::needs_drop::<T>() {
            self.alloc_non_copy(op)
        } else {
            self.alloc_copy(op)
        }
    }

    /// Allocates data in the allocator's memory, returning the data together with its offset.
    ///
    /// If the allocated data needs its destructor to run, it will be placed in
    /// the memory storage holding droppable data. Otherwise, it will be placed
    /// in the other memory storage.
    ///
    /// # Warning
    /// This function doesn't return an error if the allocated data doesn't fit
    /// in the `StackAllocator`'s remaining capacity. It doesn't perform any check.
    ///
    /// Use it if you know that the data will fit into memory and you can't afford the checks.
    pub fn alloc_unchecked<T, F>(&mut self, op: F) -> (allocation: Allocation<T>) where
        F: FnOnce() -> T,

        requires
            old(self)@.wf(),
            old(self)@.can_alloc(type_description_of::<T>()),
            old(self)@.fits_copy(
                type_description_of::<T>().size as int,
                type_description_of::<T>().alignment as int,
            ),
            op.requires(()),
        ensures
            final(self)@.wf(),
            old(self)@.alloc_non_copy_result(
                final(self)@,
                type_description_of::<T>(),
                Ok::<Allocation<T>, AllocationError>(allocation),
            ) || old(self)@.alloc_copy_result(
                final(self)@,
                type_description_of::<T>(),
                Ok::<Allocation<T>, AllocationError>(allocation),
            ),
            op.ensures((), allocation.value),
            is_aligned(allocation.offset as int, align_of::<T>() as int),
    {
        if core::mem::needs_drop::<T>() {
            self.alloc_non_copy_unchecked(op)
        } else {
            self.alloc_copy_unchecked(op)
        }
    }

    /// Allocates data in the allocator's memory like
    /// [`StackAllocator::alloc_unchecked`], for data that the caller goes on to change.
    ///
    /// # Warning
    /// This function doesn't return an error if the allocated data doesn't fit
    /// in the `StackAllocator`'s remaining capacity. It doesn't perform any check.
    pub fn alloc_mut_unchecked<T, F>(&mut self, op: F) -> (allocation: Allocation<T>) where
        F: FnOnce() -> T,

        requires
            old(self)@.wf(),
            old(self)@.can_alloc(type_description_of::<T>()),
            old(self)@.fits_copy(
                type_description_of::<T>().size as int,
                type_description_of::<T>().alignment as int,
            ),
            op.requires(()),
        ensures
            final(self)@.wf(),
            old(self)@.alloc_non_copy_result(
                final(self)@,
                type_description_of::<T>(),
                Ok::<Allocation<T>, AllocationError>(allocation),
            ) || old(self)@.alloc_copy_result(
                final(self)@,
                type_description_of::<T>(),
                Ok::<Allocation<T>, AllocationError>(allocation),
            ),
            op.ensures((), allocation.value),
            is_aligned(allocation.offset as int, align_of::<T>() as int),
    {
        if core::mem::needs_drop::<T>() {
            self.alloc_non_copy_unchecked(op)
        } else {
            self.alloc_copy_unchecked(op)
        }
    }

    /// Returns the index of the first unused memory address of the memory storage holding droppable data.
    pub fn marker(&self) -> (marker: usize)
        ensures
            marker == self@.marker(),
    {
        self.storage.fill()
    }

    /// Returns the index of the first unused memory address of the memory storage holding copyable data.
    pub fn marker_copy(&self) -> (marker: usize)
        ensures
            marker == self@.marker_copy(),
    {
        self.storage_copy.fill()
    }

    /// Tells whether `marker` is the start of a record of droppable data, or
    /// the first unused byte: whether the allocator can be reset to `marker`.
    pub fn is_marker(&self, marker: usize) -> (b: bool)
        requires
            self@.wf(),
        ensures
            b == self@.is_marker(marker as int),
    {
        self.storage.is_marker(marker)
    }

    /// Reset the memory storage holding droppable data, and returns the records
    /// of all the data residing inside it, first allocated first: the objects
    /// to drop, in the order in which to drop them.
    pub fn reset(&mut self) -> (destroyed: Vec<Record>)
        requires
            old(self)@.wf(),
        ensures
            final(self)@.wf(),
            final(self)@ == old(self)@.reset_to(0),
            final(self)@.marker() == 0,
            final(self)@.records() == Seq::<Record>::empty(),
            destroyed@ == old(self)@.records(),
    {
        proof {
            old(self)@.storage.lemma_step(0, 0);
            old(self)@.lemma_reset_to(0);
        }
        let destroyed: Vec<Record> = self.storage.destroy();
        self.storage.set_fill(0);
        destroyed
    }

    /// Reset the memory storage holding copyable data.
    pub fn reset_copy(&mut self)
        requires
            old(self)@.wf(),
        ensures
            final(self)@.wf(),
            final(self)@ == old(self)@.reset_copy_to(0),
            final(self)@.marker_copy() == 0,
    {
        proof {
            old(self)@.lemma_reset_copy_to(0);
        }
        self.storage_copy.set_fill(0);
    }

    /// Reset partially the memory storage holding droppable data, and returns
    /// the records of the data residing between the marker and the first unused
    /// memory address, first allocated first: the objects to drop, in the order
    /// in which to drop them.
    ///
    /// `marker` is a marker that this allocator gave and that no reset has
    /// passed since.
    pub fn reset_to_marker(&mut self, marker: usize) -> (destroyed: Vec<Record>)
        requires
            old(self)@.wf(),
            old(self)@.is_marker(marker as int),
        ensures
            final(self)@.wf(),
            final(self)@ == old(self)@.reset_to(marker as int),
            final(self)@.marker() == marker,
            destroyed@ == old(self)@.records_from(marker as int),
            old(self)@.records() == final(self)@.records() + destroyed@,
    {
        proof {
            old(self)@.lemma_reset_to(marker as int);
        }
        let destroyed: Vec<Record> = self.storage.destroy_to_marker(marker);
        self.storage.set_fill(marker);
        destroyed
    }

    /// Reset partially the memory storage holding copyable data.
    ///
    /// `marker` is a marker that this allocator gave and that no reset has
    /// passed since: it is not above the first unused memory address.
    pub fn reset_to_marker_copy(&mut self, marker: usize)
        requires
            old(self)@.wf(),
            marker <= old(self)@.marker_copy(),
        ensures
            final(self)@.wf(),
            final(self)@ == old(self)@.reset_copy_to(marker as int),
            final(self)@.marker_copy() == marker,
    {
        proof {
            old(self)@.lemma_reset_copy_to(marker as int);
        }
        self.storage_copy.set_fill(marker);
    }

    /// Returns the maximum capacity the memory storage holding droppable data can hold.
    pub fn capacity(&self) -> (capacity: usize)
        ensures
            capacity == self@.capacity(),
    {
        self.storage.capacity()
    }

    /// Returns the maximum capacity the memory storage holding copyable data can hold.
    pub fn capacity_copy(&self) -> (capacity: usize)
        ensures
            capacity == self@.capacity_copy(),
    {
        self.storage_copy.capacity()
    }

    /// Returns the address of the start of the memory storage holding droppable data.
    pub fn storage_as_ptr(&self) -> (address: usize)
        ensures
            address == self@.storage.address,
    {
        self.storage.as_ptr()
    }

    /// Returns the address of the start of the memory storage holding copyable data.
    pub fn storage_copy_as_ptr(&self) -> (address: usize)
        ensures
            address == self@.storage_copy.address,
    {
        self.storage_copy.as_ptr()
    }

    /// Returns the records of all the droppable data, first allocated first:
    /// the objects to drop when the allocator itself goes.
    pub fn destroy_stack(&self) -> (destroyed: Vec<Record>)
        requires
            self@.wf(),
        ensures
            destroyed@ == self@.records(),
    {
        proof {
            self@.storage.lemma_step(0, 0);
            self@.lemma_reset_to(0);
        }
        self.storage.destroy()
    }
}

} // verus!
