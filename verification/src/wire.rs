//! The flatbuffers calls that the server makes: reading the root of a
//! received buffer, and writing response tables through a builder.
//!
//! A builder is described by the calls made on it so far
//! ([`builder_steps`]); the offsets it hands back and the bytes it finally
//! produces are determined by that sequence of calls.
//!
//! The builder keeps its offsets in 32 bits and grows its buffer up to the
//! 2 GiB that a flatbuffer holds, and a table's vtable addresses its fields
//! with 16-bit offsets; the calls here take as much as stays within those
//! limits, counted by [`written_bound`] and [`table_bound`].

use vstd::prelude::*;
use flatbuffers::{
    FlatBufferBuilder, InvalidFlatbuffer, TableFinishedWIPOffset, TableUnfinishedWIPOffset,
    WIPOffset,
};

verus! {

#[verifier::external_type_specification]
#[verifier::external_body]
pub struct ExInvalidFlatbuffer(InvalidFlatbuffer);

// ---------------------------------------------------------------------------
// Reading
// ---------------------------------------------------------------------------

/// The little-endian `u32` stored in the first four bytes of `buf`.
pub open spec fn root_offset(buf: Seq<u8>) -> int {
    buf[0] as int + buf[1] as int * 0x100 + buf[2] as int * 0x1_0000 + buf[3] as int * 0x100_0000
}

/// The byte that the root offset of `buf` points at, if `buf` holds both
/// the offset and that byte.
pub open spec fn root_byte(buf: Seq<u8>) -> Option<u8> {
    if buf.len() >= 4 && root_offset(buf) < buf.len() {
        Some(buf[root_offset(buf)])
    } else {
        None
    }
}

/// Calls `flatbuffers::root::<u8>`: with the default verifier options it
/// checks that `buf` holds a four-byte little-endian root offset and, at
/// that offset, one byte, and returns that byte. Any other buffer gives an
/// error.
#[verifier::external_body]
pub(crate) fn read_root_byte(buf: &[u8]) -> (res: Result<u8, InvalidFlatbuffer>)
    ensures
        match res {
            Ok(b) => root_byte(buf@) == Some(b),
            Err(_) => root_byte(buf@) is None,
        },
{
    flatbuffers::root::<u8>(buf)
}

// ---------------------------------------------------------------------------
// Building
// ---------------------------------------------------------------------------

/// One call made on a flatbuffer builder, with the arguments that shape
/// the bytes it writes.
pub enum BuildStep {
    /// `start_table`
    StartTable,
    /// `push_slot_always::<u8>` (or `push_slot` with a non-default value)
    PushByte { slot: u16, value: u8 },
    /// `push_slot_always` of the offset of a finished table
    PushOffset { slot: u16, target: u32 },
    /// `end_table` of the table started at `start`
    EndTable { start: u32 },
    /// `finish` with the table at `root` as root and no file identifier
    Finish { root: u32 },
}

/// A `flatbuffers::FlatBufferBuilder` with the default allocator, kept in
/// a private field that the specifications leave opaque. What is known of
/// a value is [`builder_steps`], the calls made on it.
#[verifier::external_body]
pub struct ResponseBuilder<'fbb> {
    inner: FlatBufferBuilder<'fbb>,
}

/// The calls made on `builder` since it was created.
pub uninterp spec fn builder_steps(builder: ResponseBuilder<'_>) -> Seq<BuildStep>;

/// What `start_table` returns after the calls `steps`.
pub uninterp spec fn start_table_offset(steps: Seq<BuildStep>) -> u32;

/// What `end_table` returns when it is the last of the calls `steps`.
pub uninterp spec fn end_table_offset(steps: Seq<BuildStep>) -> u32;

/// What `finished_data` holds after the calls `steps`.
pub uninterp spec fn finished_bytes(steps: Seq<BuildStep>) -> Seq<u8>;

/// The index of the `StartTable` of the table still open after `steps`.
pub open spec fn open_table_index(steps: Seq<BuildStep>) -> Option<int>
    decreases steps.len(),
{
    if steps.len() == 0 {
        None
    } else {
        match steps.last() {
            BuildStep::StartTable => Some(steps.len() - 1),
            BuildStep::EndTable { .. } => None,
            BuildStep::Finish { .. } => None,
            _ => open_table_index(steps.drop_last()),
        }
    }
}

/// After `steps`, a table is under construction.
pub open spec fn in_table(steps: Seq<BuildStep>) -> bool {
    open_table_index(steps) is Some
}

/// The offset that `start_table` returned for the table still open after `steps`.
pub open spec fn open_table_start(steps: Seq<BuildStep>) -> u32 {
    start_table_offset(steps.take(open_table_index(steps).unwrap()))
}

/// After `steps`, the buffer has been finished.
pub open spec fn is_finished(steps: Seq<BuildStep>) -> bool {
    exists|i: int| 0 <= i < steps.len() && (#[trigger] steps[i]) is Finish
}

/// `off` is an offset that `end_table` returned during `steps`.
pub open spec fn is_table_offset(steps: Seq<BuildStep>, off: u32) -> bool {
    exists|i: int|
        0 <= i < steps.len() && (#[trigger] steps[i]) is EndTable && end_table_offset(
            steps.take(i + 1),
        ) == off
}

/// A field slot as a vtable addresses it: an even byte offset past the
/// four-byte vtable header, small enough that the vtable (two bytes past
/// the largest slot) keeps a length that fits 16 bits.
pub open spec fn valid_slot(slot: u16) -> bool {
    4 <= slot <= 0xFFFC && slot % 2 == 0
}

/// The most bytes a flatbuffer holds (`flatbuffers::FLATBUFFERS_MAX_BUFFER_SIZE`, 2 GiB).
pub open spec fn max_buffer_bytes() -> int {
    0x8000_0000
}

/// The largest field slot written in the table still open after `steps`
/// (0 when none is).
pub open spec fn open_max_slot(steps: Seq<BuildStep>) -> int
    decreases steps.len(),
{
    if steps.len() == 0 {
        0
    } else {
        match steps.last() {
            BuildStep::PushByte { slot, .. } => {
                let m = open_max_slot(steps.drop_last());
                if slot as int > m {
                    slot as int
                } else {
                    m
                }
            },
            BuildStep::PushOffset { slot, .. } => {
                let m = open_max_slot(steps.drop_last());
                if slot as int > m {
                    slot as int
                } else {
                    m
                }
            },
            _ => 0,
        }
    }
}

/// The most bytes the vtable of the table still open after `steps` takes:
/// two bytes past its largest slot, and at least its four-byte header.
pub open spec fn vtable_bound(steps: Seq<BuildStep>) -> int {
    if open_max_slot(steps) + 2 < 4 {
        4
    } else {
        open_max_slot(steps) + 2
    }
}

/// The most bytes that `step`, made after `steps`, writes: a byte field is
/// one byte; an offset, the `u32` ending a table and the root offset are
/// four bytes after at most three bytes of alignment padding; ending a
/// table also writes its vtable.
pub open spec fn step_cost(steps: Seq<BuildStep>, step: BuildStep) -> int {
    match step {
        BuildStep::StartTable => 0,
        BuildStep::PushByte { .. } => 1,
        BuildStep::PushOffset { .. } => 7,
        BuildStep::EndTable { .. } => 7 + vtable_bound(steps),
        BuildStep::Finish { .. } => 7,
    }
}

/// The most bytes that the calls `steps` write.
pub open spec fn written_bound(steps: Seq<BuildStep>) -> int
    decreases steps.len(),
{
    if steps.len() == 0 {
        0
    } else {
        written_bound(steps.drop_last()) + step_cost(steps.drop_last(), steps.last())
    }
}

/// The most bytes written for the fields of the table still open after `steps`.
pub open spec fn table_bound(steps: Seq<BuildStep>) -> int
    decreases steps.len(),
{
    if steps.len() == 0 {
        0
    } else {
        match steps.last() {
            BuildStep::PushByte { .. } => table_bound(steps.drop_last()) + 1,
            BuildStep::PushOffset { .. } => table_bound(steps.drop_last()) + 7,
            _ => 0,
        }
    }
}

/// Every field of the table still open after `steps` went to a valid slot.
pub open spec fn open_slots_valid(steps: Seq<BuildStep>) -> bool
    decreases steps.len(),
{
    if steps.len() == 0 {
        true
    } else {
        match steps.last() {
            BuildStep::PushByte { slot, .. } => valid_slot(slot) && open_slots_valid(
                steps.drop_last(),
            ),
            BuildStep::PushOffset { slot, .. } => valid_slot(slot) && open_slots_valid(
                steps.drop_last(),
            ),
            _ => true,
        }
    }
}

/// What the calls `steps` write stays within the largest flatbuffer.
pub open spec fn fits_in_buffer(steps: Seq<BuildStep>) -> bool {
    written_bound(steps) < max_buffer_bytes()
}

/// The open table, with the offset to its vtable that `end_table` writes
/// (at most seven bytes), stays below the 64 KiB that a vtable entry addresses.
pub open spec fn fits_in_table(steps: Seq<BuildStep>) -> bool {
    table_bound(steps) + 7 < 0x1_0000
}

/// What one more call does to the quantities that describe the builder.
pub proof fn lemma_push(steps: Seq<BuildStep>, step: BuildStep)
    ensures
        written_bound(steps.push(step)) == written_bound(steps) + step_cost(steps, step),
        step_cost(steps, step) >= 0,
        table_bound(steps.push(step)) == match step {
            BuildStep::PushByte { .. } => table_bound(steps) + 1,
            BuildStep::PushOffset { .. } => table_bound(steps) + 7,
            _ => 0,
        },
        open_max_slot(steps.push(step)) == match step {
            BuildStep::PushByte { slot, .. } => if slot as int > open_max_slot(steps) {
                slot as int
            } else {
                open_max_slot(steps)
            },
            BuildStep::PushOffset { slot, .. } => if slot as int > open_max_slot(steps) {
                slot as int
            } else {
                open_max_slot(steps)
            },
            _ => 0,
        },
        open_slots_valid(steps.push(step)) == match step {
            BuildStep::PushByte { slot, .. } => valid_slot(slot) && open_slots_valid(steps),
            BuildStep::PushOffset { slot, .. } => valid_slot(slot) && open_slots_valid(steps),
            _ => true,
        },
        is_finished(steps.push(step)) <==> (is_finished(steps) || step is Finish),
        forall|off: u32|
            is_table_offset(steps, off) ==> #[trigger] is_table_offset(steps.push(step), off),
{
    let s = steps.push(step);
    assert(s.drop_last() =~= steps);
    assert(s.last() == step);
    lemma_open_max_slot_nonneg(steps);
    if is_finished(steps) {
        let i = choose|i: int| 0 <= i < steps.len() && (#[trigger] steps[i]) is Finish;
        assert(s[i] == steps[i]);
    }
    if step is Finish {
        assert(s[s.len() - 1] is Finish);
    }
    if !is_finished(steps) && !(step is Finish) {
        assert forall|i: int| 0 <= i < s.len() implies !(#[trigger] s[i] is Finish) by {
            if i < steps.len() {
                assert(s[i] == steps[i]);
            }
        }
    }
    assert forall|off: u32| is_table_offset(steps, off) implies #[trigger] is_table_offset(
        s,
        off,
    ) by {
        lemma_table_offset_kept(steps, step, off);
    }
}

proof fn lemma_open_max_slot_nonneg(steps: Seq<BuildStep>)
    ensures
        open_max_slot(steps) >= 0,
    decreases steps.len(),
{
    if steps.len() > 0 {
        lemma_open_max_slot_nonneg(steps.drop_last());
    }
}

// ---------------------------------------------------------------------------
// The fields that the calls give each table
// ---------------------------------------------------------------------------

/// The byte last written in `slot` of the table still open after `steps`,
/// if a byte was written there and not covered by a later offset.
pub open spec fn open_byte_field(steps: Seq<BuildStep>, slot: u16) -> Option<u8>
    decreases steps.len(),
{
    if steps.len() == 0 {
        None
    } else {
        match steps.last() {
            BuildStep::PushByte { slot: s, value } => if s == slot {
                Some(value)
            } else {
                open_byte_field(steps.drop_last(), slot)
            },
            BuildStep::PushOffset { slot: s, .. } => if s == slot {
                None
            } else {
                open_byte_field(steps.drop_last(), slot)
            },
            _ => None,
        }
    }
}

/// The table offset last written in `slot` of the table still open after
/// `steps`, if an offset was written there and not covered by a later byte.
pub open spec fn open_offset_field(steps: Seq<BuildStep>, slot: u16) -> Option<u32>
    decreases steps.len(),
{
    if steps.len() == 0 {
        None
    } else {
        match steps.last() {
            BuildStep::PushOffset { slot: s, target } => if s == slot {
                Some(target)
            } else {
                open_offset_field(steps.drop_last(), slot)
            },
            BuildStep::PushByte { slot: s, .. } => if s == slot {
                None
            } else {
                open_offset_field(steps.drop_last(), slot)
            },
            _ => None,
        }
    }
}

/// The call `steps[end]` ended a table, and `end_table` gave it the offset `off`.
pub open spec fn ends_table_at(steps: Seq<BuildStep>, end: int, off: u32) -> bool {
    &&& 0 <= end < steps.len()
    &&& steps[end] is EndTable
    &&& end_table_offset(steps.take(end + 1)) == off
}

/// The byte in `slot` of the table that `steps[end]` ended: the value
/// written there, or the default 0 when the slot was left out.
pub open spec fn table_byte(steps: Seq<BuildStep>, end: int, slot: u16) -> u8 {
    match open_byte_field(steps.take(end), slot) {
        Some(v) => v,
        None => 0,
    }
}

/// The table offset in `slot` of the table that `steps[end]` ended.
pub open spec fn table_offset_field(steps: Seq<BuildStep>, end: int, slot: u16) -> Option<u32> {
    open_offset_field(steps.take(end), slot)
}

/// A table that the calls `steps` wrote at offset `off` holds `value` in `slot`.
pub open spec fn reads_byte(steps: Seq<BuildStep>, off: u32, slot: u16, value: u8) -> bool {
    exists|end: int| #[trigger] ends_table_at(steps, end, off) && table_byte(steps, end, slot) == value
}

/// A table that the calls `steps` wrote at offset `off` points from `slot`
/// to the table at `target`.
pub open spec fn reads_offset(steps: Seq<BuildStep>, off: u32, slot: u16, target: u32) -> bool {
    exists|end: int|
        #[trigger] ends_table_at(steps, end, off) && table_offset_field(steps, end, slot) == Some(
            target,
        )
}

/// The root that the calls `steps` finished the buffer with, if they did.
pub open spec fn finished_root(steps: Seq<BuildStep>) -> Option<u32>
    decreases steps.len(),
{
    if steps.len() == 0 {
        None
    } else {
        match steps.last() {
            BuildStep::Finish { root } => Some(root),
            _ => finished_root(steps.drop_last()),
        }
    }
}

/// A table that ends a prefix of the calls keeps its offset and fields in
/// everything that follows.
pub proof fn lemma_table_in_prefix(steps: Seq<BuildStep>, prefix: Seq<BuildStep>)
    requires
        prefix.len() >= 1,
        prefix.last() is EndTable,
        prefix.len() <= steps.len(),
        steps.take(prefix.len() as int) == prefix,
    ensures
        ends_table_at(steps, prefix.len() - 1, end_table_offset(prefix)),
        forall|slot: u16|
            #[trigger] table_byte(steps, prefix.len() - 1, slot) == match open_byte_field(
                prefix.drop_last(),
                slot,
            ) {
                Some(v) => v,
                None => 0,
            },
        forall|slot: u16|
            #[trigger] table_offset_field(steps, prefix.len() - 1, slot) == open_offset_field(
                prefix.drop_last(),
                slot,
            ),
{
    let n = prefix.len() as int;
    assert(steps[n - 1] == prefix[n - 1]);
    assert(steps.take(n - 1 + 1) =~= prefix);
    assert(steps.take(n - 1) =~= prefix.drop_last());
}

/// Starting a table opens it, at the offset `start_table` gave.
pub proof fn lemma_start_opens(steps: Seq<BuildStep>)
    ensures
        in_table(steps.push(BuildStep::StartTable)),
        open_table_start(steps.push(BuildStep::StartTable)) == start_table_offset(steps),
{
    assert(steps.push(BuildStep::StartTable).take(steps.len() as int) =~= steps);
}

/// Writing a field keeps the same table open.
pub proof fn lemma_push_keeps_table(steps: Seq<BuildStep>, step: BuildStep)
    requires
        in_table(steps),
        step is PushByte || step is PushOffset,
    ensures
        in_table(steps.push(step)),
        open_table_start(steps.push(step)) == open_table_start(steps),
{
    let s = steps.push(step);
    assert(s.drop_last() =~= steps);
    let k = open_table_index(steps).unwrap();
    assert(0 <= k < steps.len()) by {
        lemma_open_index_in_range(steps);
    }
    assert(s.take(k) =~= steps.take(k));
}

proof fn lemma_open_index_in_range(steps: Seq<BuildStep>)
    ensures
        open_table_index(steps) matches Some(k) ==> 0 <= k < steps.len(),
    decreases steps.len(),
{
    if steps.len() > 0 {
        lemma_open_index_in_range(steps.drop_last());
    }
}

/// Ending a table closes it and makes its offset a finished table's offset.
pub proof fn lemma_end_closes(steps: Seq<BuildStep>, start: u32)
    ensures
        !in_table(steps.push(BuildStep::EndTable { start })),
        is_table_offset(
            steps.push(BuildStep::EndTable { start }),
            end_table_offset(steps.push(BuildStep::EndTable { start })),
        ),
{
    let s = steps.push(BuildStep::EndTable { start });
    assert(s.take(s.len() - 1 + 1) =~= s);
    assert(s[s.len() - 1] is EndTable);
}

/// Further calls keep the offsets of tables finished earlier.
pub proof fn lemma_table_offset_kept(steps: Seq<BuildStep>, step: BuildStep, off: u32)
    requires
        is_table_offset(steps, off),
    ensures
        is_table_offset(steps.push(step), off),
{
    let i = choose|i: int|
        0 <= i < steps.len() && (#[trigger] steps[i]) is EndTable && end_table_offset(
            steps.take(i + 1),
        ) == off;
    let s = steps.push(step);
    assert(s.take(i + 1) =~= steps.take(i + 1));
    assert(s[i] == steps[i]);
}

impl<'fbb> ResponseBuilder<'fbb> {
    pub open spec fn steps(self) -> Seq<BuildStep> {
        builder_steps(self)
    }

    /// Calls `FlatBufferBuilder::new`: a builder on which nothing was called yet.
    #[verifier::external_body]
    fn create() -> (b: ResponseBuilder<'fbb>)
        ensures
            builder_steps(b) == Seq::<BuildStep>::empty(),
    {
        ResponseBuilder { inner: FlatBufferBuilder::new() }
    }

    /// A new, empty builder.
    pub fn new() -> (b: ResponseBuilder<'fbb>)
        ensures
            b.steps() == Seq::<BuildStep>::empty(),
    {
        Self::create()
    }

    /// Calls `FlatBufferBuilder::start_table` and returns the offset it gives.
    /// Outside a table, as the builder asserts.
    #[verifier::external_body]
    pub(crate) fn start_table(&mut self) -> (start: u32)
        requires
            !in_table(builder_steps(*old(self))),
        ensures
            builder_steps(*final(self)) == builder_steps(*old(self)).push(BuildStep::StartTable),
            start == start_table_offset(builder_steps(*old(self))),
    {
        self.inner.start_table().value()
    }

    /// Calls `FlatBufferBuilder::push_slot::<u8>`: it writes `value` in
    /// `slot` unless `value` equals `default`, and does nothing then.
    #[verifier::external_body]
    pub(crate) fn push_byte_slot(&mut self, slot: u16, value: u8, default: u8)
        requires
            in_table(builder_steps(*old(self))),
            valid_slot(slot),
            value != default ==> fits_in_buffer(
                builder_steps(*old(self)).push(BuildStep::PushByte { slot, value }),
            ),
            value != default ==> fits_in_table(
                builder_steps(*old(self)).push(BuildStep::PushByte { slot, value }),
            ),
        ensures
            builder_steps(*final(self)) == if value != default {
                builder_steps(*old(self)).push(BuildStep::PushByte { slot, value })
            } else {
                builder_steps(*old(self))
            },
    {
        self.inner.push_slot::<u8>(slot, value, default)
    }

    /// Calls `FlatBufferBuilder::push_slot_always::<u8>`, which writes `value` in `slot`.
    #[verifier::external_body]
    pub(crate) fn push_byte_slot_always(&mut self, slot: u16, value: u8)
        requires
            in_table(builder_steps(*old(self))),
            valid_slot(slot),
            fits_in_buffer(builder_steps(*old(self)).push(BuildStep::PushByte { slot, value })),
            fits_in_table(builder_steps(*old(self)).push(BuildStep::PushByte { slot, value })),
        ensures
            builder_steps(*final(self)) == builder_steps(*old(self)).push(
                BuildStep::PushByte { slot, value },
            ),
    {
        self.inner.push_slot_always::<u8>(slot, value)
    }

    /// Calls `FlatBufferBuilder::push_slot_always` with the offset of a
    /// finished table, which writes a forward offset to it in `slot`.
    #[verifier::external_body]
    pub(crate) fn push_offset_slot_always(&mut self, slot: u16, target: u32)
        requires
            in_table(builder_steps(*old(self))),
            valid_slot(slot),
            is_table_offset(builder_steps(*old(self)), target),
            fits_in_buffer(
                builder_steps(*old(self)).push(BuildStep::PushOffset { slot, target }),
            ),
            fits_in_table(builder_steps(*old(self)).push(BuildStep::PushOffset { slot, target })),
        ensures
            builder_steps(*final(self)) == builder_steps(*old(self)).push(
                BuildStep::PushOffset { slot, target },
            ),
    {
        self.inner.push_slot_always(slot, WIPOffset::<TableFinishedWIPOffset>::new(target))
    }

    /// Calls `FlatBufferBuilder::end_table` on the open table, which writes
    /// its vtable, and returns the offset of the table. Its fields must sit
    /// in valid slots, so that the vtable holds its header and a 16-bit
    /// length, and the table must stay below the 64 KiB that the builder
    /// asserts for a table.
    #[verifier::external_body]
    pub(crate) fn end_table(&mut self, start: u32) -> (table: u32)
        requires
            in_table(builder_steps(*old(self))),
            start == open_table_start(builder_steps(*old(self))),
            open_slots_valid(builder_steps(*old(self))),
            fits_in_table(builder_steps(*old(self))),
            fits_in_buffer(builder_steps(*old(self)).push(BuildStep::EndTable { start })),
        ensures
            builder_steps(*final(self)) == builder_steps(*old(self)).push(
                BuildStep::EndTable { start },
            ),
            table == end_table_offset(builder_steps(*final(self))),
    {
        self.inner.end_table(WIPOffset::<TableUnfinishedWIPOffset>::new(start)).value()
    }

    /// Calls `FlatBufferBuilder::finish` with the table at `root` and no file identifier.
    #[verifier::external_body]
    pub(crate) fn finish(&mut self, root: u32)
        requires
            !in_table(builder_steps(*old(self))),
            !is_finished(builder_steps(*old(self))),
            is_table_offset(builder_steps(*old(self)), root),
            fits_in_buffer(builder_steps(*old(self)).push(BuildStep::Finish { root })),
        ensures
            builder_steps(*final(self)) == builder_steps(*old(self)).push(
                BuildStep::Finish { root },
            ),
    {
        self.inner.finish(WIPOffset::<TableFinishedWIPOffset>::new(root), None)
    }

    /// Calls `FlatBufferBuilder::finished_data` and copies the bytes out.
    #[verifier::external_body]
    pub(crate) fn finished_data(&self) -> (data: Vec<u8>)
        requires
            is_finished(builder_steps(*self)),
        ensures
            data@ == finished_bytes(builder_steps(*self)),
    {
        self.inner.finished_data().to_vec()
    }
}

} // verus!
