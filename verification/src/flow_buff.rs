//! One direction of a TCP connection: the reassembly buffer, the record of
//! which parts of it are filled, and the sequence-number bookkeeping.

use vstd::prelude::*;
use vstd::slice::slice_subrange;

verus! {

/// Size of the 32-bit TCP sequence space.
pub const SEQ_SPACE: u64 = 0x1_0000_0000;

/// How far beyond the highest sequence seen so far a segment may end and
/// still be taken as in order.
pub const MAX_FORWARD_SEQ_JUMP: u64 = 100000;

/// The largest buffer a flow will hold.
pub const MAX_BUFFER_SIZE: usize = 1000000;

/// The largest window-scale shift a SYN may announce.
pub const MAX_WINDOW_SHIFT: u8 = 14;

/// A half-open interval `[start, end)` of buffer offsets that hold payload.
#[derive(Clone, Copy, Debug, PartialEq, Eq, Structural)]
pub struct FilledRange {
    pub start: usize,
    pub end: usize,
}

impl FilledRange {
    /// Number of bytes the interval covers.
    pub open spec fn width(self) -> int {
        self.end - self.start
    }
}

/// Index of the first range at or after `from` that ends at `at`, or the
/// length of the list when there is none.
pub open spec fn first_ending_at(ranges: Seq<FilledRange>, at: usize, from: int) -> int
    decreases ranges.len() - from,
{
    if from < 0 || from >= ranges.len() {
        ranges.len() as int
    } else if ranges[from].end == at {
        from
    } else {
        first_ending_at(ranges, at, from + 1)
    }
}

/// Index of the first range at or after `from` that starts at `at`, or the
/// length of the list when there is none.
pub open spec fn first_starting_at(ranges: Seq<FilledRange>, at: usize, from: int) -> int
    decreases ranges.len() - from,
{
    if from < 0 || from >= ranges.len() {
        ranges.len() as int
    } else if ranges[from].start == at {
        from
    } else {
        first_starting_at(ranges, at, from + 1)
    }
}

/// Inserts `[start, end)` into a list of filled ranges.
///
/// The first range that ends at `start` is extended to `end`. Failing that,
/// the first range that starts at `start` has its end raised to `end` if it
/// was lower. Failing that, the first range that starts at `end` is extended
/// back to `start`. Otherwise the interval is appended as a new range.
pub open spec fn merge_range(ranges: Seq<FilledRange>, start: usize, end: usize) -> Seq<
    FilledRange,
> {
    let successor_of = first_ending_at(ranges, start, 0);
    let same_start = first_starting_at(ranges, start, 0);
    let predecessor_of = first_starting_at(ranges, end, 0);
    if successor_of < ranges.len() {
        ranges.update(successor_of, FilledRange { start: ranges[successor_of].start, end })
    } else if same_start < ranges.len() {
        let kept = ranges[same_start].end;
        ranges.update(same_start, FilledRange { start, end: if kept < end { end } else { kept } })
    } else if predecessor_of < ranges.len() {
        ranges.update(predecessor_of, FilledRange { start, end: ranges[predecessor_of].end })
    } else {
        ranges.push(FilledRange { start, end })
    }
}

/// A scan that found no range ending at `at` before `i`, and either ran off
/// the list at `i` or found such a range there, has found the first one.
pub proof fn lemma_first_ending_at(ranges: Seq<FilledRange>, at: usize, from: int, i: int)
    requires
        0 <= from <= i <= ranges.len(),
        forall|j: int| from <= j < i ==> ranges[j].end != at,
        i < ranges.len() ==> ranges[i].end == at,
    ensures
        first_ending_at(ranges, at, from) == i,
    decreases i - from,
{
    if from < i {
        lemma_first_ending_at(ranges, at, from + 1, i);
    }
}

/// A scan that found no range starting at `at` before `i`, and either ran
/// off the list at `i` or found such a range there, has found the first one.
pub proof fn lemma_first_starting_at(ranges: Seq<FilledRange>, at: usize, from: int, i: int)
    requires
        0 <= from <= i <= ranges.len(),
        forall|j: int| from <= j < i ==> ranges[j].start != at,
        i < ranges.len() ==> ranges[i].start == at,
    ensures
        first_starting_at(ranges, at, from) == i,
    decreases i - from,
{
    if from < i {
        lemma_first_starting_at(ranges, at, from + 1, i);
    }
}

/// What the sequence policy made of one segment.
#[derive(Clone, Copy, Debug, PartialEq, Eq, Structural)]
pub enum SeqVerdict {
    /// The segment ends just past a roll-over of the 32-bit sequence space.
    Wrapped,
    /// The segment ends at or before the highest sequence seen, or less than
    /// the forward-jump tolerance beyond it.
    InOrder,
    /// The segment ends too far from the highest sequence seen to be trusted.
    Suspicious,
}

/// The mathematical content of a [`FlowBuff`].
pub struct FlowModel {
    /// The reassembly buffer, indexed by relative sequence offset.
    pub data: Seq<u8>,
    /// The parts of the buffer that hold payload.
    pub ranges: Seq<FilledRange>,
    /// Sequence number of the SYN, once one was seen.
    pub isn: Option<u32>,
    /// Highest extended sequence accepted so far.
    pub max_seq: nat,
    /// Number of roll-overs of the sequence space accepted so far.
    pub wrap_around: nat,
    /// Payload bytes seen, retransmissions included.
    pub byte_count: nat,
    /// Segments seen, empty ones included.
    pub packet_count: nat,
    /// Multiplier for the advertised window.
    pub window_scale: nat,
}

/// Whether `scale` is a power of two from `1` to `2^14`.
pub open spec fn valid_window_scale(scale: nat) -> bool {
    exists|shift: u8| shift <= MAX_WINDOW_SHIFT && scale == #[trigger] window_scale_for(shift)
}

/// The window multiplier `2^shift`.
pub open spec fn window_scale_for(shift: u8) -> nat {
    vstd::arithmetic::power2::pow2(shift as nat)
}

/// The buffer `data` after `bytes` were written at offset `at`: grown with
/// zero bytes where it was too short, and unchanged outside the write.
pub open spec fn overwrite(data: Seq<u8>, at: nat, bytes: Seq<u8>) -> Seq<u8> {
    let size = if data.len() < at + bytes.len() { at + bytes.len() } else { data.len() };
    Seq::new(
        size,
        |i: int|
            if at <= i < at + bytes.len() {
                bytes[i - at]
            } else if i < data.len() {
                data[i]
            } else {
                0u8
            },
    )
}

impl FlowModel {
    /// A flow that has seen nothing.
    pub open spec fn fresh() -> FlowModel {
        FlowModel {
            data: Seq::empty(),
            ranges: Seq::empty(),
            isn: None,
            max_seq: 0,
            wrap_around: 0,
            byte_count: 0,
            packet_count: 0,
            window_scale: 1,
        }
    }

    /// The invariant of a flow: every filled range lies inside the buffer,
    /// no roll-over was counted without a segment, the window multiplier is
    /// a valid one, and every quantity fits its machine representation.
    pub open spec fn wf(self) -> bool {
        &&& forall|i: int|
            0 <= i < self.ranges.len() ==> (#[trigger] self.ranges[i]).start <= self.ranges[i].end
                <= self.data.len()
        &&& self.wrap_around <= self.packet_count
        &&& valid_window_scale(self.window_scale)
        &&& self.data.len() <= usize::MAX
        &&& self.max_seq <= u64::MAX
        &&& self.byte_count <= u64::MAX
        &&& self.packet_count <= u32::MAX
    }

    /// Whether the first filled range holds at least `min` bytes.
    pub open spec fn ready_bytes(self, min: usize) -> bool {
        self.ranges.len() > 0 && self.ranges[0].width() >= min
    }

    /// Whether there is a first filled range, and it either holds at least
    /// `min` bytes or the connection is closed.
    pub open spec fn ready_buffer(self, closed: bool, min: usize) -> bool {
        self.ranges.len() > 0 && (closed || self.ranges[0].width() >= min)
    }

    /// The flow after a SYN with sequence number `isn` was seen.
    pub open spec fn with_isn(self, isn: u32) -> FlowModel {
        FlowModel { isn: Some(isn), max_seq: isn as nat, ..self }
    }

    /// The flow with window multiplier `2^shift`.
    pub open spec fn with_window_shift(self, shift: u8) -> FlowModel {
        FlowModel { window_scale: window_scale_for(shift), ..self }
    }

    /// The buffer offset of the byte with sequence number `seq`: the first
    /// payload byte, which follows the SYN, has offset `0`. Meaningful once
    /// a SYN was seen.
    pub open spec fn relative(self, seq: u32) -> int {
        seq + self.wrap_around * SEQ_SPACE - self.isn.unwrap() - 1
    }

    /// Whether `seq` has a buffer offset: a SYN was seen and `seq` is not
    /// before the first payload byte.
    pub open spec fn has_relative(self, seq: u32) -> bool {
        self.isn is Some && self.relative(seq) >= 0
    }

    /// The buffer offset of the byte with sequence number `seq`, where it
    /// has one.
    pub open spec fn checked_relative(self, seq: u32) -> Option<u64> {
        if self.has_relative(seq) {
            Some(self.relative(seq) as u64)
        } else {
            None
        }
    }

    /// The advertised window `window` times the window multiplier.
    pub open spec fn scaled(self, window: u16) -> nat {
        window as nat * self.window_scale
    }

    /// The extended sequence just past a segment of `len` bytes at `seq`.
    pub open spec fn last_seq(self, seq: u32, len: nat) -> nat {
        seq as nat + len + self.wrap_around * (SEQ_SPACE as nat)
    }

    /// The sequence policy for a segment of `len` payload bytes at `seq`.
    pub open spec fn verdict(self, seq: u32, len: nat) -> SeqVerdict {
        let last = self.last_seq(seq, len);
        if last < self.max_seq && last + SEQ_SPACE > self.max_seq && last + SEQ_SPACE
            - MAX_FORWARD_SEQ_JUMP <= self.max_seq {
            SeqVerdict::Wrapped
        } else if last - MAX_FORWARD_SEQ_JUMP < self.max_seq {
            SeqVerdict::InOrder
        } else {
            SeqVerdict::Suspicious
        }
    }

    /// The flow after the sequence policy was applied to a segment of `len`
    /// payload bytes at `seq`.
    pub open spec fn sequenced(self, seq: u32, len: nat) -> FlowModel {
        match self.verdict(seq, len) {
            SeqVerdict::Wrapped => FlowModel {
                wrap_around: self.wrap_around + 1,
                max_seq: self.last_seq(seq, len) + SEQ_SPACE as nat,
                ..self
            },
            SeqVerdict::InOrder => FlowModel { max_seq: self.last_seq(seq, len), ..self },
            SeqVerdict::Suspicious => self,
        }
    }

    /// The flow with one more segment of `len` payload bytes counted.
    pub open spec fn counted(self, len: nat) -> FlowModel {
        FlowModel {
            packet_count: self.packet_count + 1,
            byte_count: self.byte_count + len,
            ..self
        }
    }

    /// Whether a segment of `len` bytes at `seq` has a place in the buffer:
    /// its offset exists and the write stays under the size limit.
    pub open spec fn placeable(self, seq: u32, len: nat) -> bool {
        self.has_relative(seq) && self.relative(seq) + len <= MAX_BUFFER_SIZE
    }

    /// The flow with its buffer grown to `size` bytes by zero bytes, or
    /// unchanged when it is that long already.
    pub open spec fn resized(self, size: nat) -> FlowModel {
        FlowModel { data: overwrite(self.data, size, Seq::empty()), ..self }
    }

    /// The flow with a filled range `[start, end)` merged in.
    pub open spec fn with_range(self, start: usize, end: usize) -> FlowModel {
        FlowModel { ranges: merge_range(self.ranges, start, end), ..self }
    }

    /// The flow after `bytes` were written at buffer offset `at`.
    pub open spec fn written(self, at: usize, bytes: Seq<u8>) -> FlowModel
        recommends
            at + bytes.len() <= usize::MAX,
    {
        FlowModel {
            data: overwrite(self.data, at as nat, bytes),
            ranges: merge_range(self.ranges, at, (at + bytes.len()) as usize),
            ..self
        }
    }

    /// Whether the counters have room for one more segment of `len` payload
    /// bytes.
    pub open spec fn accepts(self, len: nat) -> bool {
        &&& self.packet_count < u32::MAX
        &&& self.byte_count + len <= u64::MAX
        &&& (self.wrap_around + 2) * SEQ_SPACE + len <= u64::MAX
    }

    /// Whether a segment of `len` payload bytes at `seq` gets written to the
    /// buffer: it carries payload and, once the sequence policy was applied,
    /// has a place there.
    pub open spec fn stores(self, seq: u32, len: nat) -> bool {
        len > 0 && self.sequenced(seq, len).placeable(seq, len)
    }

    /// What there is to report of a segment of `len` payload bytes at `seq`:
    /// the outcome of the sequence policy, if it carries payload, and
    /// whether the payload gets written.
    pub open spec fn report(self, seq: u32, len: nat) -> AddReport {
        AddReport {
            verdict: if len == 0 {
                None
            } else {
                Some(self.verdict(seq, len))
            },
            stored: self.stores(seq, len),
        }
    }

    /// The flow after a segment at `seq` whose payload is `payload`: counted
    /// always, run through the sequence policy when it carries payload, and
    /// written to the buffer when it has a place there.
    pub open spec fn added(self, seq: u32, payload: Seq<u8>) -> FlowModel {
        if payload.len() == 0 {
            self.counted(0)
        } else {
            let seen = self.sequenced(seq, payload.len()).counted(payload.len());
            if self.stores(seq, payload.len()) {
                seen.written(seen.relative(seq) as usize, payload)
            } else {
                seen
            }
        }
    }
}

/// Why a read from the buffer failed.
#[derive(Clone, Copy, Debug, PartialEq, Eq, Structural)]
pub enum BufferError {
    /// The buffer ends before the requested bytes do.
    UnexpectedEof,
}

/// What became of one segment handed to [`FlowBuff::add_bytes`].
#[derive(Clone, Copy, Debug, PartialEq, Eq, Structural)]
pub struct AddReport {
    /// The outcome of the sequence policy; `None` for a segment without
    /// payload, which the policy does not look at.
    pub verdict: Option<SeqVerdict>,
    /// Whether the payload was written to the buffer.
    pub stored: bool,
}

/// Buffer and statistics of one direction of a connection.
#[derive(Clone, Debug)]
pub struct FlowBuff {
    /// Where the payloads are copied to, by relative sequence offset.
    data: Vec<u8>,
    /// The parts of `data` that hold payload.
    data_filled_ranges: Vec<FilledRange>,
    /// Sequence number of the SYN: the one before the first payload byte.
    initial_sequence_number: Option<u32>,
    /// Highest extended sequence accepted so far.
    max_seq: u64,
    /// Number of times the sequence numbers rolled over.
    wrap_around: u32,
    /// Payload bytes seen, retransmissions and overlaps included.
    byte_count: u64,
    /// Segments seen, empty ones included.
    packet_count: u32,
    /// Multiplier for the advertised window, from `1` to `2^14`.
    window_scale: u16,
}

impl View for FlowBuff {
    type V = FlowModel;

    closed spec fn view(&self) -> FlowModel {
        FlowModel {
            data: self.data@,
            ranges: self.data_filled_ranges@,
            isn: self.initial_sequence_number,
            max_seq: self.max_seq as nat,
            wrap_around: self.wrap_around as nat,
            byte_count: self.byte_count as nat,
            packet_count: self.packet_count as nat,
            window_scale: self.window_scale as nat,
        }
    }
}

impl FlowBuff {
    /// A flow that has seen nothing: empty buffer, no SYN, window
    /// multiplier `1`.
    pub fn new() -> (flow: Self)
        ensures
            flow@ == FlowModel::fresh(),
            flow@.wf(),
    {
        proof {
            vstd::arithmetic::power2::lemma2_to64();
            assert(window_scale_for(0) == 1);
        }
        Self {
            data: Vec::new(),
            data_filled_ranges: Vec::new(),
            initial_sequence_number: None,
            byte_count: 0,
            packet_count: 0,
            wrap_around: 0,
            max_seq: 0,
            window_scale: 1,
        }
    }

    /// Whether the first filled range holds at least `min_ready_bytes`.
    pub fn has_ready_bytes(&self, min_ready_bytes: usize) -> (ready: bool)
        ensures
            ready == self@.ready_bytes(min_ready_bytes),
    {
        if self.data_filled_ranges.len() == 0 {
            return false;
        }
        let first = self.data_filled_ranges[0];
        first.end >= first.start && first.end - first.start >= min_ready_bytes
    }

    /// Whether there is a first filled range that either holds at least
    /// `min_ready_bytes` or belongs to a closed connection.
    pub fn has_ready_buffer(&self, closed_connection: bool, min_ready_bytes: usize) -> (ready: bool)
        ensures
            ready == self@.ready_buffer(closed_connection, min_ready_bytes),
    {
        if self.data_filled_ranges.len() == 0 {
            return false;
        }
        let first = self.data_filled_ranges[0];
        closed_connection || (first.end >= first.start && first.end - first.start
            >= min_ready_bytes)
    }

    /// The buffer size.
    pub fn len(&self) -> (len: usize)
        ensures
            len == self@.data.len(),
    {
        self.data.len()
    }

    /// The buffer.
    pub fn data(&self) -> (data: &[u8])
        ensures
            data@ == self@.data,
    {
        self.data.as_slice()
    }

    /// The filled ranges, in the order in which they were opened.
    pub fn filled_ranges(&self) -> (ranges: &[FilledRange])
        ensures
            ranges@ == self@.ranges,
    {
        self.data_filled_ranges.as_slice()
    }

    /// Sequence number of the SYN, once one was seen.
    pub fn initial_sequence_number(&self) -> (isn: Option<u32>)
        ensures
            isn == self@.isn,
    {
        self.initial_sequence_number
    }

    /// Highest extended sequence accepted so far.
    pub fn max_seq(&self) -> (max_seq: u64)
        ensures
            max_seq == self@.max_seq,
    {
        self.max_seq
    }

    /// Number of roll-overs of the sequence space accepted so far.
    pub fn wrap_around(&self) -> (wraps: u32)
        ensures
            wraps == self@.wrap_around,
    {
        self.wrap_around
    }

    /// Payload bytes seen.
    pub fn byte_count(&self) -> (count: u64)
        ensures
            count == self@.byte_count,
    {
        self.byte_count
    }

    /// Segments seen.
    pub fn packet_count(&self) -> (count: u32)
        ensures
            count == self@.packet_count,
    {
        self.packet_count
    }

    /// Multiplier for the advertised window.
    pub fn window_scale(&self) -> (scale: u16)
        ensures
            scale == self@.window_scale,
    {
        self.window_scale
    }

    /// Index of the first filled range that ends at `at`, or the number of
    /// ranges when none does.
    fn find_ending_at(&self, at: usize) -> (found: usize)
        ensures
            found == first_ending_at(self@.ranges, at, 0),
            found <= self@.ranges.len(),
            found < self@.ranges.len() ==> self@.ranges[found as int].end == at,
    {
        let count = self.data_filled_ranges.len();
        let mut i: usize = 0;
        while i < count && self.data_filled_ranges[i].end != at
            invariant
                i <= count,
                count == self.data_filled_ranges@.len(),
                forall|j: int| 0 <= j < i ==> self.data_filled_ranges@[j].end != at,
            decreases count - i,
        {
            i += 1;
        }
        proof {
            lemma_first_ending_at(self.data_filled_ranges@, at, 0, i as int);
        }
        i
    }

    /// Index of the first filled range that starts at `at`, or the number
    /// of ranges when none does.
    fn find_starting_at(&self, at: usize) -> (found: usize)
        ensures
            found == first_starting_at(self@.ranges, at, 0),
            found <= self@.ranges.len(),
            found < self@.ranges.len() ==> self@.ranges[found as int].start == at,
    {
        let count = self.data_filled_ranges.len();
        let mut i: usize = 0;
        while i < count && self.data_filled_ranges[i].start != at
            invariant
                i <= count,
                count == self.data_filled_ranges@.len(),
                forall|j: int| 0 <= j < i ==> self.data_filled_ranges@[j].start != at,
            decreases count - i,
        {
            i += 1;
        }
        proof {
            lemma_first_starting_at(self.data_filled_ranges@, at, 0, i as int);
        }
        i
    }

    /// Adds `[start, end)` to the filled ranges, merging it into a range
    /// that it touches at an edge or shares its start with. It fills no gap
    /// between two ranges and merges no partial overlap.
    fn add_data_filled_range(&mut self, start: usize, end: usize)
        ensures
            final(self)@ == old(self)@.with_range(start, end),
            old(self)@.wf() && start <= end <= old(self)@.data.len() ==> final(self)@.wf(),
    {
        let count = self.data_filled_ranges.len();
        let successor_of = self.find_ending_at(start);
        if successor_of < count {
            let range = self.data_filled_ranges[successor_of];
            self.data_filled_ranges.set(successor_of, FilledRange { start: range.start, end });
            return ;
        }
        let same_start = self.find_starting_at(start);
        if same_start < count {
            let range = self.data_filled_ranges[same_start];
            let new_end = if range.end < end { end } else { range.end };
            self.data_filled_ranges.set(same_start, FilledRange { start, end: new_end });
            return ;
        }
        let predecessor_of = self.find_starting_at(end);
        if predecessor_of < count {
            let range = self.data_filled_ranges[predecessor_of];
            self.data_filled_ranges.set(predecessor_of, FilledRange { start, end: range.end });
            return ;
        }
        self.data_filled_ranges.push(FilledRange { start, end });
    }

    /// Grows the buffer to `size` bytes, the new ones zero. A buffer that
    /// is that long already is left as it is: this never shrinks one.
    pub fn resize(&mut self, size: usize)
        ensures
            final(self)@ == old(self)@.resized(size as nat),
            old(self)@.wf() ==> final(self)@.wf(),
    {
        if size > self.data.len() {
            self.data.resize(size, 0u8);
        }
        assert(self.data@ =~= overwrite(old(self).data@, size as nat, Seq::empty()));
    }

    /// Writes `bytes` into the buffer at offset `wpos` and records the
    /// range as filled. The buffer grows as needed, up to
    /// [`MAX_BUFFER_SIZE`].
    pub fn write_bytes(&mut self, bytes: &[u8], wpos: usize)
        requires
            wpos + bytes.len() <= MAX_BUFFER_SIZE,
        ensures
            final(self)@ == old(self)@.written(wpos, bytes@),
            old(self)@.wf() ==> final(self)@.wf(),
    {
        let size = bytes.len() + wpos;
        if size > self.data.len() {
            self.resize(size);
        }
        let ghost grown = self.data@;
        let mut done: usize = 0;
        while done < bytes.len()
            invariant
                done <= bytes.len(),
                wpos + bytes.len() <= self.data.len(),
                self.data@.len() == grown.len(),
                forall|i: int|
                    0 <= i < grown.len() ==> self.data@[i] == if wpos <= i < wpos + done {
                        bytes@[i - wpos]
                    } else {
                        grown[i]
                    },
                self.data_filled_ranges@ == old(self).data_filled_ranges@,
                self.initial_sequence_number == old(self).initial_sequence_number,
                self.max_seq == old(self).max_seq,
                self.wrap_around == old(self).wrap_around,
                self.byte_count == old(self).byte_count,
                self.packet_count == old(self).packet_count,
                self.window_scale == old(self).window_scale,
            decreases bytes.len() - done,
        {
            self.data.set(wpos + done, bytes[done]);
            done += 1;
        }
        assert(self.data@ =~= overwrite(old(self).data@, wpos as nat, bytes@));
        self.add_data_filled_range(wpos, size);
    }

    /// Reads `size` bytes at offset `rpos`, or fails when the buffer ends
    /// before they do. The flow is left as it was either way.
    pub fn read_bytes(&mut self, size: usize, rpos: usize) -> (read: Result<Vec<u8>, BufferError>)
        ensures
            *final(self) == *old(self),
            read is Ok <==> rpos + size <= old(self)@.data.len(),
            read matches Ok(bytes) ==> bytes@ == old(self)@.data.subrange(
                rpos as int,
                rpos + size,
            ),
            read matches Err(error) ==> error == BufferError::UnexpectedEof,
    {
        let len = self.data.len();
        if size > len || rpos > len - size {
            return Err(BufferError::UnexpectedEof);
        }
        let mut res: Vec<u8> = Vec::new();
        res.extend_from_slice(slice_subrange(self.data.as_slice(), rpos, rpos + size));
        Ok(res)
    }

    /// Records the sequence number of the SYN, from which offsets into the
    /// buffer are counted, and restarts the highest sequence seen there.
    pub fn set_initial_sequence_number(&mut self, initial_sequence_number: u32)
        ensures
            final(self)@ == old(self)@.with_isn(initial_sequence_number),
            old(self)@.wf() ==> final(self)@.wf(),
    {
        self.initial_sequence_number = Some(initial_sequence_number);
        self.max_seq = initial_sequence_number as u64;
    }

    /// Sets the window multiplier to `2^shift`, as a SYN announced it.
    pub fn set_window_shift(&mut self, shift: u8)
        requires
            shift <= MAX_WINDOW_SHIFT,
        ensures
            final(self)@ == old(self)@.with_window_shift(shift),
            old(self)@.wf() ==> final(self)@.wf(),
    {
        let mut scale: u16 = 1;
        let mut i: u8 = 0;
        proof {
            vstd::arithmetic::power2::lemma2_to64();
        }
        while i < shift
            invariant
                i <= shift <= MAX_WINDOW_SHIFT,
                scale == vstd::arithmetic::power2::pow2(i as nat),
                scale <= 0x4000,
            decreases shift - i,
        {
            proof {
                vstd::arithmetic::power2::lemma_pow2_unfold((i + 1) as nat);
                vstd::arithmetic::power2::lemma_pow2_strictly_increases(
                    (i + 1) as nat,
                    15,
                );
                vstd::arithmetic::power2::lemma2_to64();
            }
            scale = scale * 2;
            i += 1;
        }
        self.window_scale = scale;
    }

    /// The offset in the buffer of the byte with sequence number `seq`,
    /// counting the roll-overs seen so far: the first payload byte has
    /// offset `0`, the next one `1`.
    pub fn relative_seq(&self, seq: u32) -> (offset: u64)
        requires
            self@.has_relative(seq),
        ensures
            offset == self@.relative(seq),
    {
        let isn = self.initial_sequence_number.unwrap();
        (seq as u64) + (self.wrap_around as u64) * SEQ_SPACE - (isn as u64) - 1u64
    }

    /// The offset in the buffer of the byte with sequence number `seq`, or
    /// `None` where it has none: before a SYN was seen, and for a sequence
    /// number before the first payload byte.
    pub fn checked_relative_seq(&self, seq: u32) -> (offset: Option<u64>)
        ensures
            offset == self@.checked_relative(seq),
    {
        match self.initial_sequence_number {
            None => None,
            Some(isn) => {
                let extended = (seq as u64) + (self.wrap_around as u64) * SEQ_SPACE;
                if extended > isn as u64 {
                    Some(self.relative_seq(seq))
                } else {
                    None
                }
            },
        }
    }

    /// The window that an advertised `window` stands for under the window
    /// multiplier of this flow.
    pub fn scaled_window(&self, window: u16) -> (scaled: u32)
        ensures
            scaled == self@.scaled(window),
    {
        assert(window * self.window_scale <= 0xffff * 0xffff) by (nonlinear_arith)
            requires
                window <= 0xffff,
                self.window_scale <= 0xffff,
        ;
        (window as u32) * (self.window_scale as u32)
    }

    /// Whether the counters have room for one more segment of `len`
    /// payload bytes.
    pub fn accepts(&self, len: usize) -> (room: bool)
        ensures
            room == self@.accepts(len as nat),
    {
        if self.wrap_around > u32::MAX - 2 {
            return false;
        }
        let spare = u64::MAX - (self.wrap_around as u64 + 2) * SEQ_SPACE;
        self.packet_count < u32::MAX && len as u64 <= u64::MAX - self.byte_count && len as u64
            <= spare
    }

    /// Accounts for one segment of this direction, whose payload is the
    /// last `byte_count` bytes of `data`.
    ///
    /// The segment is counted. If it carries payload, the payload is
    /// counted, the sequence policy decides whether the segment moves the
    /// highest sequence seen or the roll-over count, and the payload goes
    /// into the buffer at its relative offset. A payload without such an
    /// offset, or one that would reach past [`MAX_BUFFER_SIZE`], is counted
    /// but not written.
    pub fn add_bytes(&mut self, tcp_seq: u32, byte_count: usize, data: &[u8]) -> (report: AddReport)
        requires
            byte_count <= data.len(),
            old(self)@.accepts(byte_count as nat),
        ensures
            final(self)@ == old(self)@.added(
                tcp_seq,
                data@.subrange(data.len() - byte_count, data.len() as int),
            ),
            old(self)@.wf() ==> final(self)@.wf(),
            report == old(self)@.report(tcp_seq, byte_count as nat),
    {
        self.packet_count += 1;
        if byte_count == 0 {
            return AddReport { verdict: None, stored: false };
        }
        self.byte_count += byte_count as u64;
        let last_seq: u64 = (tcp_seq as u64) + (byte_count as u64) + (self.wrap_around as u64)
            * SEQ_SPACE;
        let verdict = if last_seq < self.max_seq && last_seq + SEQ_SPACE > self.max_seq && last_seq
            + SEQ_SPACE - MAX_FORWARD_SEQ_JUMP <= self.max_seq {
            self.wrap_around += 1;
            self.max_seq = last_seq + SEQ_SPACE;
            SeqVerdict::Wrapped
        } else if last_seq < MAX_FORWARD_SEQ_JUMP || last_seq - MAX_FORWARD_SEQ_JUMP
            < self.max_seq {
            self.max_seq = last_seq;
            SeqVerdict::InOrder
        } else {
            SeqVerdict::Suspicious
        };
        let payload = slice_subrange(data, data.len() - byte_count, data.len());
        let stored = match self.checked_relative_seq(tcp_seq) {
            Some(at) => {
                if at <= MAX_BUFFER_SIZE as u64 && byte_count <= MAX_BUFFER_SIZE - at as usize {
                    self.write_bytes(payload, at as usize);
                    true
                } else {
                    false
                }
            },
            None => false,
        };
        AddReport { verdict: Some(verdict), stored }
    }
}

} // verus!
