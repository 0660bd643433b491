//! The chunk pump: the read, write, count loop that every transfer runs, as a
//! state machine. The host reads and writes; the pump says what comes next.

use vstd::prelude::*;

verus! {

/// Smallest chunk size in use: 64 KiB.
pub const MIN_CHUNK_SIZE: usize = 65536;

/// Largest chunk size in use: 10 MiB.
pub const MAX_CHUNK_SIZE: usize = 10485760;

/// The code of a cancelled operation.
pub const CODE_CANCELLED: isize = -7;

/// The code of a read or write that failed.
pub const CODE_IO_FAILED: isize = -6;

/// The code of an input that was missing: here, an event out of turn.
pub const CODE_NULL_POINTER: isize = -1;

/// A chunk size brought into the range from 64 KiB to 10 MiB.
pub open spec fn clamped_chunk_size(chunk_size: usize) -> usize {
    if chunk_size < MIN_CHUNK_SIZE {
        MIN_CHUNK_SIZE
    } else if chunk_size > MAX_CHUNK_SIZE {
        MAX_CHUNK_SIZE
    } else {
        chunk_size
    }
}

/// Brings a chunk size into the range from 64 KiB to 10 MiB.
pub fn clamp_chunk_size(chunk_size: usize) -> (clamped: usize)
    ensures
        clamped == clamped_chunk_size(chunk_size),
        MIN_CHUNK_SIZE <= clamped <= MAX_CHUNK_SIZE,
{
    if chunk_size < MIN_CHUNK_SIZE {
        MIN_CHUNK_SIZE
    } else if chunk_size > MAX_CHUNK_SIZE {
        MAX_CHUNK_SIZE
    } else {
        chunk_size
    }
}

/// Where the pump stands.
#[derive(Clone, Copy, Debug, PartialEq, Eq, Structural)]
pub enum PumpPhase {
    /// Between two chunks.
    Ready,
    /// The host reads up to `len` bytes.
    Reading { len: usize },
    /// The host writes the `len` bytes that it read.
    Writing { len: usize },
    /// The pump has failed or was cancelled, and answers every event with
    /// `code`.
    Stopped { code: isize },
}

/// What the host tells the pump.
#[derive(Clone, Copy, Debug, PartialEq, Eq, Structural)]
pub enum PumpEvent {
    /// The host asks for the next chunk; it has polled the cancellation token
    /// and offers a buffer of `buffer_size` bytes.
    Start { cancelled: bool, buffer_size: usize },
    /// The read ended: with the number of bytes read, 0 at the end of the
    /// data, or a negative error code.
    ReadDone { result: isize },
    /// The write ended: with 0 or a negative error code.
    WriteDone { status: i32 },
}

/// What the pump tells the host to do.
#[derive(Clone, Copy, Debug, PartialEq, Eq, Structural)]
pub enum PumpAction {
    /// Read up to `len` bytes from the source at `offset` into the buffer.
    Read { len: usize, offset: u64 },
    /// Write the first `len` bytes of the buffer to the sink at `offset`.
    Write { len: usize, offset: u64 },
    /// A chunk of `len` bytes is through.
    ChunkDone { len: usize },
    /// The data is at its end: the source gave no more, or the size set for
    /// the data is reached.
    EndOfData,
    /// The transfer is over with this code, which is negative.
    Stop { code: isize },
}

/// What a pump holds, as plain values.
pub struct PumpView {
    pub phase: PumpPhase,
    pub chunk_size: usize,
    pub bytes_done: u64,
    pub offset: u64,
    pub limit: Option<u64>,
}

/// The lesser of two numbers.
pub open spec fn lesser(a: int, b: int) -> int {
    if a <= b {
        a
    } else {
        b
    }
}

/// A sum of byte counts, held at the largest count there is.
pub open spec fn capped_add(a: u64, b: usize) -> u64 {
    if a + b > u64::MAX {
        u64::MAX
    } else {
        (a + b) as u64
    }
}

/// Bytes to ask for in the next read: as many as the chunk size, the buffer
/// and what is left of the data allow.
pub open spec fn next_read_len(state: PumpView, buffer_size: usize) -> usize {
    let room = lesser(state.chunk_size as int, buffer_size as int);
    match state.limit {
        Some(limit) => lesser(room, limit - state.offset) as usize,
        None => room as usize,
    }
}

/// Whether the size set for the data is reached.
pub open spec fn limit_reached(state: PumpView) -> bool {
    state.limit is Some && state.offset >= state.limit->0
}

/// The pump after an event.
pub open spec fn pump_state_after(state: PumpView, event: PumpEvent) -> PumpView {
    match (state.phase, event) {
        (PumpPhase::Stopped { code }, _) => state,
        (PumpPhase::Ready, PumpEvent::Start { cancelled, buffer_size }) => {
            if cancelled {
                PumpView { phase: PumpPhase::Stopped { code: CODE_CANCELLED }, ..state }
            } else if limit_reached(state) {
                state
            } else {
                PumpView {
                    phase: PumpPhase::Reading { len: next_read_len(state, buffer_size) },
                    ..state
                }
            }
        },
        (PumpPhase::Reading { len }, PumpEvent::ReadDone { result }) => {
            if result < 0 {
                PumpView { phase: PumpPhase::Stopped { code: result }, ..state }
            } else if result == 0 {
                PumpView { phase: PumpPhase::Ready, ..state }
            } else if result > len {
                PumpView { phase: PumpPhase::Stopped { code: CODE_IO_FAILED }, ..state }
            } else {
                PumpView { phase: PumpPhase::Writing { len: result as usize }, ..state }
            }
        },
        (PumpPhase::Writing { len }, PumpEvent::WriteDone { status }) => {
            if status < 0 {
                PumpView { phase: PumpPhase::Stopped { code: status as isize }, ..state }
            } else {
                PumpView {
                    phase: PumpPhase::Ready,
                    bytes_done: capped_add(state.bytes_done, len),
                    offset: capped_add(state.offset, len),
                    ..state
                }
            }
        },
        _ => state,
    }
}

/// What the pump answers to an event.
pub open spec fn pump_action(state: PumpView, event: PumpEvent) -> PumpAction {
    match (state.phase, event) {
        (PumpPhase::Stopped { code }, _) => PumpAction::Stop { code },
        (PumpPhase::Ready, PumpEvent::Start { cancelled, buffer_size }) => {
            if cancelled {
                PumpAction::Stop { code: CODE_CANCELLED }
            } else if limit_reached(state) {
                PumpAction::EndOfData
            } else {
                PumpAction::Read { len: next_read_len(state, buffer_size), offset: state.offset }
            }
        },
        (PumpPhase::Reading { len }, PumpEvent::ReadDone { result }) => {
            if result < 0 {
                PumpAction::Stop { code: result }
            } else if result == 0 {
                PumpAction::EndOfData
            } else if result > len {
                PumpAction::Stop { code: CODE_IO_FAILED }
            } else {
                PumpAction::Write { len: result as usize, offset: state.offset }
            }
        },
        (PumpPhase::Writing { len }, PumpEvent::WriteDone { status }) => {
            if status < 0 {
                PumpAction::Stop { code: status as isize }
            } else {
                PumpAction::ChunkDone { len }
            }
        },
        _ => PumpAction::Stop { code: CODE_NULL_POINTER },
    }
}

/// The pump after each of `events`, in order.
pub open spec fn pump_state_after_all(state: PumpView, events: Seq<PumpEvent>) -> PumpView
    decreases events.len(),
{
    if events.len() == 0 {
        state
    } else {
        pump_state_after(pump_state_after_all(state, events.drop_last()), events.last())
    }
}

/// The number of writes that the pump asks for in answer to `events`.
pub open spec fn writes_asked(state: PumpView, events: Seq<PumpEvent>) -> nat
    decreases events.len(),
{
    if events.len() == 0 {
        0
    } else {
        let before = pump_state_after_all(state, events.drop_last());
        writes_asked(state, events.drop_last()) + if pump_action(before, events.last())
            is Write {
            1nat
        } else {
            0nat
        }
    }
}

/// Whether every request for a chunk among `events` finds the token set.
pub open spec fn cancelled_throughout(events: Seq<PumpEvent>) -> bool {
    forall|i: int|
        0 <= i < events.len() ==> ((#[trigger] events[i]) matches PumpEvent::Start {
            cancelled,
            ..
        } ==> cancelled)
}

/// The count of bytes never falls.
pub proof fn lemma_bytes_never_fall(state: PumpView, event: PumpEvent)
    ensures
        pump_state_after(state, event).bytes_done >= state.bytes_done,
        pump_state_after(state, event).chunk_size == state.chunk_size,
        pump_state_after(state, event).limit == state.limit,
{
}

/// A request for a chunk that finds the token set is answered with the code
/// for cancellation, and nothing is read or written; from then on every event
/// gets the same answer and the count of bytes stands.
pub proof fn lemma_cancel_before_start(state: PumpView, buffer_size: usize, later: PumpEvent)
    requires
        state.phase == PumpPhase::Ready,
    ensures
        pump_action(state, PumpEvent::Start { cancelled: true, buffer_size }) == (PumpAction::Stop {
            code: CODE_CANCELLED,
        }),
        pump_action(
            pump_state_after(state, PumpEvent::Start { cancelled: true, buffer_size }),
            later,
        ) == (PumpAction::Stop { code: CODE_CANCELLED }),
        pump_state_after(
            pump_state_after(state, PumpEvent::Start { cancelled: true, buffer_size }),
            later,
        ).bytes_done == state.bytes_done,
{
}

/// Once the token is set, the pump asks for one more write at most, whatever
/// phase it is in and whatever the host reports.
pub proof fn lemma_cancel_mid_transfer(state: PumpView, events: Seq<PumpEvent>)
    requires
        cancelled_throughout(events),
    ensures
        writes_asked(state, events) <= 1,
        writes_asked(state, events) == 1 ==> !(pump_state_after_all(state, events).phase
            is Reading),
        state.phase is Ready || state.phase is Writing || state.phase is Stopped ==> writes_asked(
            state,
            events,
        ) == 0 && !(pump_state_after_all(state, events).phase is Reading),
    decreases events.len(),
{
    if events.len() > 0 {
        let earlier = events.drop_last();
        assert(cancelled_throughout(earlier)) by {
            assert forall|i: int| 0 <= i < earlier.len() implies ((#[trigger] earlier[i]) matches PumpEvent::Start {
                cancelled,
                ..
            } ==> cancelled) by {
                assert(earlier[i] == events[i]);
            }
        }
        lemma_cancel_mid_transfer(state, earlier);
        assert(events.last() == events[events.len() - 1]);
    }
}

/// The chunk pump.
pub struct ChunkPump {
    phase: PumpPhase,
    chunk_size: usize,
    bytes_done: u64,
    offset: u64,
    limit: Option<u64>,
}

impl ChunkPump {
    /// What the pump holds.
    pub closed spec fn view(&self) -> PumpView {
        PumpView {
            phase: self.phase,
            chunk_size: self.chunk_size,
            bytes_done: self.bytes_done,
            offset: self.offset,
            limit: self.limit,
        }
    }

    /// A pump that is ready, with no bytes done and no size set for the data.
    pub fn new(chunk_size: usize) -> (pump: Self)
        ensures
            pump@ == (PumpView {
                phase: PumpPhase::Ready,
                chunk_size,
                bytes_done: 0,
                offset: 0,
                limit: None,
            }),
    {
        ChunkPump { phase: PumpPhase::Ready, chunk_size, bytes_done: 0, offset: 0, limit: None }
    }

    /// Starts on new data, of `size` bytes where the size is known: the offset
    /// goes back to 0 and the pump is ready, unless it has stopped.
    pub fn begin_data(&mut self, size: Option<u64>)
        ensures
            final(self)@ == if old(self)@.phase is Stopped {
                old(self)@
            } else {
                PumpView { phase: PumpPhase::Ready, offset: 0, limit: size, ..old(self)@ }
            },
    {
        match self.phase {
            PumpPhase::Stopped { code } => {},
            _ => {
                self.phase = PumpPhase::Ready;
                self.offset = 0;
                self.limit = size;
            },
        }
    }

    /// Where the pump stands.
    pub fn phase(&self) -> (phase: PumpPhase)
        ensures
            phase == self@.phase,
    {
        self.phase
    }

    /// Bytes through so far.
    pub fn bytes_done(&self) -> (bytes: u64)
        ensures
            bytes == self@.bytes_done,
    {
        self.bytes_done
    }

    /// Bytes through of the data at hand.
    pub fn offset(&self) -> (offset: u64)
        ensures
            offset == self@.offset,
    {
        self.offset
    }

    /// The chunk size.
    pub fn chunk_size(&self) -> (size: usize)
        ensures
            size == self@.chunk_size,
    {
        self.chunk_size
    }

    /// Takes an event and says what the host is to do next.
    pub fn step(&mut self, event: PumpEvent) -> (action: PumpAction)
        ensures
            final(self)@ == pump_state_after(old(self)@, event),
            action == pump_action(old(self)@, event),
            final(self)@.bytes_done >= old(self)@.bytes_done,
    {
        match self.phase {
            PumpPhase::Stopped { code } => PumpAction::Stop { code },
            PumpPhase::Ready => match event {
                PumpEvent::Start { cancelled, buffer_size } => {
                    if cancelled {
                        self.phase = PumpPhase::Stopped { code: CODE_CANCELLED };
                        return PumpAction::Stop { code: CODE_CANCELLED };
                    }
                    let mut len = if self.chunk_size <= buffer_size {
                        self.chunk_size
                    } else {
                        buffer_size
                    };
                    match self.limit {
                        Some(limit) => {
                            if self.offset >= limit {
                                return PumpAction::EndOfData;
                            }
                            let left = limit - self.offset;
                            if left < len as u64 {
                                len = left as usize;
                            }
                        },
                        None => {},
                    }
                    self.phase = PumpPhase::Reading { len };
                    PumpAction::Read { len, offset: self.offset }
                },
                _ => PumpAction::Stop { code: CODE_NULL_POINTER },
            },
            PumpPhase::Reading { len } => match event {
                PumpEvent::ReadDone { result } => {
                    if result < 0 {
                        self.phase = PumpPhase::Stopped { code: result };
                        PumpAction::Stop { code: result }
                    } else if result == 0 {
                        self.phase = PumpPhase::Ready;
                        PumpAction::EndOfData
                    } else if result as usize > len {
                        self.phase = PumpPhase::Stopped { code: CODE_IO_FAILED };
                        PumpAction::Stop { code: CODE_IO_FAILED }
                    } else {
                        self.phase = PumpPhase::Writing { len: result as usize };
                        PumpAction::Write { len: result as usize, offset: self.offset }
                    }
                },
                _ => PumpAction::Stop { code: CODE_NULL_POINTER },
            },
            PumpPhase::Writing { len } => match event {
                PumpEvent::WriteDone { status } => {
                    if status < 0 {
                        self.phase = PumpPhase::Stopped { code: status as isize };
                        PumpAction::Stop { code: status as isize }
                    } else {
                        self.phase = PumpPhase::Ready;
                        self.bytes_done = Self::add_capped(self.bytes_done, len);
                        self.offset = Self::add_capped(self.offset, len);
                        PumpAction::ChunkDone { len }
                    }
                },
                _ => PumpAction::Stop { code: CODE_NULL_POINTER },
            },
        }
    }

    /// A sum of byte counts, held at the largest count there is.
    fn add_capped(a: u64, b: usize) -> (sum: u64)
        ensures
            sum == capped_add(a, b),
    {
        if b as u64 > u64::MAX - a {
            u64::MAX
        } else {
            a + b as u64
        }
    }
}

} // verus!
