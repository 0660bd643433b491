//! Local copies and the cloud relay: sessions that count bytes and files,
//! poll for cancellation, throttle their progress reports, and tell the host
//! which read or write comes next.

use crate::cancel::{is_cancelled, CancellationToken};
use crate::error::ErrorKind;
use crate::progress::{update_due, ProgressThrottler, ThrottlerView, PROGRESS_UPDATE_INTERVAL_MS};
use crate::pump::{
    clamp_chunk_size, clamped_chunk_size, pump_action, pump_state_after, ChunkPump, PumpAction,
    PumpEvent, PumpPhase, PumpView, CODE_IO_FAILED,
};
use vstd::prelude::*;

verus! {

/// Chunk size of a file copy where none is asked for: 1 MiB.
pub const COPY_CHUNK_SIZE: usize = 1048576;

/// How far a copy is: bytes and files, done and in all.
#[derive(Clone, Copy, Debug, PartialEq, Eq, Structural)]
pub struct CopyProgress {
    pub bytes_copied: usize,
    pub total_bytes: usize,
    pub files_processed: usize,
    pub total_files: usize,
}

/// What a copy session tells the host to do.
#[derive(Clone, Copy, Debug, PartialEq, Eq, Structural)]
pub enum CopyAction {
    /// Read up to `len` bytes from the source into the buffer.
    Read { len: usize, offset: u64 },
    /// Write the first `len` bytes of the buffer to the destination.
    Write { len: usize, offset: u64 },
    /// A chunk of `len` bytes is through; report the progress where `report`
    /// is given, then ask for the next chunk.
    ChunkDone { len: usize, report: Option<CopyProgress> },
    /// The source is at its end: report `last` unthrottled, flush the
    /// destination, and finish.
    Finish { last: CopyProgress },
    /// The session is over with this code.
    Stop { code: isize },
}

/// A count of bytes with `len` more, held at the largest count there is.
pub open spec fn bytes_after(bytes: usize, len: usize) -> usize {
    if bytes + len > usize::MAX {
        usize::MAX
    } else {
        (bytes + len) as usize
    }
}

/// What a copy session holds, as plain values.
pub struct CopyView {
    pub bytes_copied: usize,
    pub total_bytes: usize,
    pub files_processed: usize,
    pub total_files: usize,
    pub is_folder: bool,
    pub pump: PumpView,
    pub throttler: ThrottlerView,
}

impl CopyView {
    /// The progress of the session.
    pub open spec fn progress(self) -> CopyProgress {
        CopyProgress {
            bytes_copied: self.bytes_copied,
            total_bytes: self.total_bytes,
            files_processed: self.files_processed,
            total_files: self.total_files,
        }
    }

    /// The progress that a copy of one file reports after `bytes` bytes.
    pub open spec fn file_progress(self, bytes: usize) -> CopyProgress {
        CopyProgress {
            bytes_copied: bytes,
            total_bytes: self.total_bytes,
            files_processed: 1,
            total_files: 1,
        }
    }

    /// The session after an event that comes at the moment `now_ms` of the
    /// throttler's clock.
    pub open spec fn after(self, event: PumpEvent, now_ms: u64) -> CopyView {
        let pump = pump_state_after(self.pump, event);
        match pump_action(self.pump, event) {
            PumpAction::ChunkDone { len } => {
                let bytes = bytes_after(self.bytes_copied, len);
                let due = update_due(self.throttler, now_ms, bytes, self.total_bytes);
                CopyView {
                    bytes_copied: bytes,
                    pump,
                    throttler: if due {
                        ThrottlerView {
                            last_update_ms: now_ms,
                            update_interval_ms: self.throttler.update_interval_ms,
                            last_bytes_processed: bytes,
                            last_bytes_transferred: self.total_bytes,
                        }
                    } else {
                        self.throttler
                    },
                    ..self
                }
            },
            _ => CopyView { pump, ..self },
        }
    }

    /// What the session answers to an event that comes at the moment `now_ms`.
    pub open spec fn action(self, event: PumpEvent, now_ms: u64) -> CopyAction {
        match pump_action(self.pump, event) {
            PumpAction::Read { len, offset } => CopyAction::Read { len, offset },
            PumpAction::Write { len, offset } => CopyAction::Write { len, offset },
            PumpAction::ChunkDone { len } => {
                let bytes = bytes_after(self.bytes_copied, len);
                CopyAction::ChunkDone {
                    len,
                    report: if update_due(self.throttler, now_ms, bytes, self.total_bytes) {
                        Some(self.file_progress(bytes))
                    } else {
                        None
                    },
                }
            },
            PumpAction::EndOfData => CopyAction::Finish {
                last: self.file_progress(self.total_bytes),
            },
            PumpAction::Stop { code } => CopyAction::Stop { code },
        }
    }
}

/// A copy of one file, chunk by chunk: the host reads and writes, the session
/// counts, polls for cancellation between chunks, and says when progress is
/// to be reported.
pub struct CopyContext {
    bytes_copied: usize,
    total_bytes: usize,
    files_processed: usize,
    total_files: usize,
    cancel_flag: Option<CancellationToken>,
    progress_throttler: ProgressThrottler,
    is_folder: bool,
    pump: ChunkPump,
}

impl CopyContext {
    /// What the session holds.
    pub closed spec fn view(&self) -> CopyView {
        CopyView {
            bytes_copied: self.bytes_copied,
            total_bytes: self.total_bytes,
            files_processed: self.files_processed,
            total_files: self.total_files,
            is_folder: self.is_folder,
            pump: self.pump@,
            throttler: self.progress_throttler@,
        }
    }

    /// A session that has copied nothing yet, with chunks of 1 MiB and
    /// progress reports half a second apart.
    pub fn new(
        total_bytes: usize,
        total_files: usize,
        cancel_flag: Option<CancellationToken>,
        is_folder: bool,
    ) -> (context: Self)
        ensures
            context.cancellable() == (cancel_flag is Some),
            context@.bytes_copied == 0,
            context@.total_bytes == total_bytes,
            context@.files_processed == 0,
            context@.total_files == total_files,
            context@.is_folder == is_folder,
            context@.pump == (PumpView {
                phase: PumpPhase::Ready,
                chunk_size: COPY_CHUNK_SIZE,
                bytes_done: 0,
                offset: 0,
                limit: None,
            }),
            context@.throttler == (ThrottlerView {
                last_update_ms: 0,
                update_interval_ms: PROGRESS_UPDATE_INTERVAL_MS,
                last_bytes_processed: 0,
                last_bytes_transferred: 0,
            }),
    {
        CopyContext {
            bytes_copied: 0,
            total_bytes,
            files_processed: 0,
            total_files,
            cancel_flag,
            progress_throttler: ProgressThrottler::new(PROGRESS_UPDATE_INTERVAL_MS),
            is_folder,
            pump: ChunkPump::new(COPY_CHUNK_SIZE),
        }
    }

    /// A session for one file of `total_bytes` bytes, with the chunk size
    /// asked for brought into the range from 64 KiB to 10 MiB.
    pub fn for_file(total_bytes: usize, chunk_size: usize, cancel_flag: Option<CancellationToken>) -> (context:
        Self)
        ensures
            context.cancellable() == (cancel_flag is Some),
            context@.bytes_copied == 0,
            context@.total_bytes == total_bytes,
            context@.files_processed == 0,
            context@.total_files == 1,
            !context@.is_folder,
            context@.pump == (PumpView {
                phase: PumpPhase::Ready,
                chunk_size: clamped_chunk_size(chunk_size),
                bytes_done: 0,
                offset: 0,
                limit: None,
            }),
            context@.throttler == (ThrottlerView {
                last_update_ms: 0,
                update_interval_ms: PROGRESS_UPDATE_INTERVAL_MS,
                last_bytes_processed: 0,
                last_bytes_transferred: 0,
            }),
    {
        CopyContext {
            bytes_copied: 0,
            total_bytes,
            files_processed: 0,
            total_files: 1,
            cancel_flag,
            progress_throttler: ProgressThrottler::new(PROGRESS_UPDATE_INTERVAL_MS),
            is_folder: false,
            pump: ChunkPump::new(clamp_chunk_size(chunk_size)),
        }
    }

    /// Whether the session has a token, so that it can be cancelled at all.
    pub closed spec fn cancellable(&self) -> bool {
        self.cancel_flag is Some
    }

    /// Whether the session's token is set at this moment; never, where it has
    /// none.
    pub fn is_cancelled(&self) -> (cancelled: bool)
        ensures
            !self.cancellable() ==> !cancelled,
    {
        is_cancelled(&self.cancel_flag)
    }

    /// How far the copy is.
    pub fn copy_get_progress(&self) -> (progress: CopyProgress)
        ensures
            progress == self@.progress(),
    {
        CopyProgress {
            bytes_copied: self.bytes_copied,
            total_bytes: self.total_bytes,
            files_processed: self.files_processed,
            total_files: self.total_files,
        }
    }

    /// Takes an event at the moment `now_ms` of the throttler's clock and
    /// says what the host is to do next. A chunk that is through is counted;
    /// its progress is to be reported only when the interval has passed since
    /// the last report or the copy is complete.
    pub fn step_at(&mut self, event: PumpEvent, now_ms: u64) -> (action: CopyAction)
        ensures
            final(self).cancellable() == old(self).cancellable(),
            final(self)@ == old(self)@.after(event, now_ms),
            action == old(self)@.action(event, now_ms),
            final(self)@.bytes_copied >= old(self)@.bytes_copied,
    {
        match self.pump.step(event) {
            PumpAction::Read { len, offset } => CopyAction::Read { len, offset },
            PumpAction::Write { len, offset } => CopyAction::Write { len, offset },
            PumpAction::ChunkDone { len } => {
                self.bytes_copied = if len > usize::MAX - self.bytes_copied {
                    usize::MAX
                } else {
                    self.bytes_copied + len
                };
                let due = self.progress_throttler.should_update_at(
                    now_ms,
                    self.bytes_copied,
                    self.total_bytes,
                );
                let report = if due {
                    Some(
                        CopyProgress {
                            bytes_copied: self.bytes_copied,
                            total_bytes: self.total_bytes,
                            files_processed: 1,
                            total_files: 1,
                        },
                    )
                } else {
                    None
                };
                CopyAction::ChunkDone { len, report }
            },
            PumpAction::EndOfData => CopyAction::Finish {
                last: CopyProgress {
                    bytes_copied: self.total_bytes,
                    total_bytes: self.total_bytes,
                    files_processed: 1,
                    total_files: 1,
                },
            },
            PumpAction::Stop { code } => CopyAction::Stop { code },
        }
    }

    /// Takes an event now: as [`Self::step_at`] at the moment that the
    /// throttler's clock shows.
    pub fn step(&mut self, event: PumpEvent) -> (action: CopyAction)
        ensures
            final(self).cancellable() == old(self).cancellable(),
            exists|now_ms: u64|
                final(self)@ == old(self)@.after(event, now_ms) && action == old(self)@.action(
                    event,
                    now_ms,
                ),
            final(self)@.bytes_copied >= old(self)@.bytes_copied,
    {
        let now_ms = self.progress_throttler.clock_ms();
        self.step_at(event, now_ms)
    }

    /// Asks for the next chunk: polls the session's token, then steps. A token
    /// that is set stops the session with the code for cancellation before
    /// anything is read or written.
    /// A session without a token is never cancelled. The moment of the clock
    /// plays no part: no chunk is through at this event.
    pub fn start_chunk(&mut self, buffer_size: usize) -> (action: CopyAction)
        ensures
            final(self).cancellable() == old(self).cancellable(),
            exists|cancelled: bool, now_ms: u64|
                (!old(self).cancellable() ==> !cancelled) && final(self)@ == #[trigger] old(self)@.after(PumpEvent::Start { cancelled, buffer_size }, now_ms) && action == old(self)@.action(PumpEvent::Start { cancelled, buffer_size }, now_ms),
            !old(self).cancellable() ==> forall|now_ms: u64|
                final(self)@ == #[trigger] old(self)@.after(
                    PumpEvent::Start { cancelled: false, buffer_size },
                    now_ms,
                ) && action == old(self)@.action(
                    PumpEvent::Start { cancelled: false, buffer_size },
                    now_ms,
                ),
            !(action is Write),
    {
        let cancelled = self.is_cancelled();
        self.step(PumpEvent::Start { cancelled, buffer_size })
    }
}

/// What the metadata of a copy's source decides: a source that is missing is
/// not found, one that is no regular file is no valid path, and a regular
/// file is copied in its full length.
pub fn check_copy_source(exists: bool, is_file: bool, len: u64) -> (checked: Result<usize, ErrorKind>)
    ensures
        !exists ==> checked == Err::<usize, ErrorKind>(ErrorKind::FileNotFound),
        exists && !is_file ==> checked == Err::<usize, ErrorKind>(ErrorKind::InvalidPath),
        exists && is_file && len > usize::MAX ==> checked == Err::<usize, ErrorKind>(
            ErrorKind::BufferAllocFailed,
        ),
        exists && is_file && len <= usize::MAX ==> checked == Ok::<usize, ErrorKind>(len as usize),
{
    if !exists {
        Err(ErrorKind::FileNotFound)
    } else if !is_file {
        Err(ErrorKind::InvalidPath)
    } else if len > usize::MAX as u64 {
        Err(ErrorKind::BufferAllocFailed)
    } else {
        Ok(len as usize)
    }
}

/// What a cloud relay holds, as plain values.
pub struct CloudCopyView {
    pub chunk_size: usize,
    pub bytes_copied: usize,
    pub total_bytes: usize,
    pub pump: PumpView,
}

impl CloudCopyView {
    /// The relay after an event.
    pub open spec fn after(self, event: PumpEvent) -> CloudCopyView {
        CloudCopyView {
            bytes_copied: match pump_action(self.pump, event) {
                PumpAction::ChunkDone { len } => bytes_after(self.bytes_copied, len),
                _ => self.bytes_copied,
            },
            pump: pump_state_after(self.pump, event),
            ..self
        }
    }
}

/// What the host hands back from a call that moved one chunk: the bytes of the
/// chunk, 0 at the end of the data, or the code that stopped the relay.
pub open spec fn relay_result(action: PumpAction) -> Option<isize> {
    match action {
        PumpAction::ChunkDone { len } => Some(len as isize),
        PumpAction::EndOfData => Some(0),
        PumpAction::Stop { code } => Some(code),
        _ => None,
    }
}

/// A relay from one cloud to another: the host reads a chunk from the source
/// into a buffer and writes it to the destination; the relay counts and polls
/// for cancellation. At any moment one chunk at most is in memory.
pub struct CloudCopyContext {
    chunk_size: usize,
    bytes_copied: usize,
    total_bytes: usize,
    cancel_flag: Option<CancellationToken>,
    progress_throttler: ProgressThrottler,
    pump: ChunkPump,
}

impl CloudCopyContext {
    /// What the relay holds.
    pub closed spec fn view(&self) -> CloudCopyView {
        CloudCopyView {
            chunk_size: self.chunk_size,
            bytes_copied: self.bytes_copied,
            total_bytes: self.total_bytes,
            pump: self.pump@,
        }
    }

    /// A relay that has copied nothing yet, with the chunk size as given.
    pub fn new(chunk_size: usize, total_bytes: usize, cancel_flag: Option<CancellationToken>) -> (context:
        Self)
        ensures
            context.cancellable() == (cancel_flag is Some),
            context@ == (CloudCopyView {
                chunk_size,
                bytes_copied: 0,
                total_bytes,
                pump: PumpView {
                    phase: PumpPhase::Ready,
                    chunk_size,
                    bytes_done: 0,
                    offset: 0,
                    limit: None,
                },
            }),
    {
        CloudCopyContext {
            chunk_size,
            bytes_copied: 0,
            total_bytes,
            cancel_flag,
            progress_throttler: ProgressThrottler::new(PROGRESS_UPDATE_INTERVAL_MS),
            pump: ChunkPump::new(chunk_size),
        }
    }

    /// Whether the session has a token, so that it can be cancelled at all.
    pub closed spec fn cancellable(&self) -> bool {
        self.cancel_flag is Some
    }

    /// Whether the relay's token is set at this moment; never, where it has
    /// none.
    pub fn is_cancelled(&self) -> (cancelled: bool)
        ensures
            !self.cancellable() ==> !cancelled,
    {
        is_cancelled(&self.cancel_flag)
    }

    /// Takes an event and says what the host is to do next. A chunk that is
    /// through is counted.
    pub fn step(&mut self, event: PumpEvent) -> (action: PumpAction)
        ensures
            final(self).cancellable() == old(self).cancellable(),
            final(self)@ == old(self)@.after(event),
            action == pump_action(old(self)@.pump, event),
            final(self)@.bytes_copied >= old(self)@.bytes_copied,
    {
        let action = self.pump.step(event);
        match action {
            PumpAction::ChunkDone { len } => {
                self.bytes_copied = if len > usize::MAX - self.bytes_copied {
                    usize::MAX
                } else {
                    self.bytes_copied + len
                };
            },
            _ => {},
        }
        action
    }

    /// Asks for the next chunk: polls the relay's token, then steps. A relay
    /// without a token is never cancelled.
    pub fn start_chunk(&mut self, buffer_size: usize) -> (action: PumpAction)
        ensures
            final(self).cancellable() == old(self).cancellable(),
            exists|cancelled: bool|
                (!old(self).cancellable() ==> !cancelled) && final(self)@ == old(self)@.after(
                    PumpEvent::Start { cancelled, buffer_size },
                ) && action == pump_action(
                    old(self)@.pump,
                    PumpEvent::Start { cancelled, buffer_size },
                ),
            !old(self).cancellable() ==> final(self)@ == old(self)@.after(
                PumpEvent::Start { cancelled: false, buffer_size },
            ) && action == pump_action(
                old(self)@.pump,
                PumpEvent::Start { cancelled: false, buffer_size },
            ),
            !(action is Write),
    {
        let cancelled = self.is_cancelled();
        self.step(PumpEvent::Start { cancelled, buffer_size })
    }

    /// Bytes copied and bytes in all.
    pub fn cloud_copy_get_progress(&self) -> (progress: (usize, usize))
        ensures
            progress == (self@.bytes_copied, self@.total_bytes),
    {
        (self.bytes_copied, self.total_bytes)
    }

    /// Ends the relay; there is nothing to release.
    pub fn cloud_copy_finalize(&self) -> (code: ErrorKind)
        ensures
            code == ErrorKind::Success,
    {
        ErrorKind::Success
    }
}

/// Opens a relay with the chunk size asked for brought into the range from
/// 64 KiB to 10 MiB. `total_bytes` is 0 where the total is not known.
pub fn cloud_copy_init(chunk_size: usize, total_bytes: usize, cancel_flag: CancellationToken) -> (context:
    CloudCopyContext)
    ensures
        context.cancellable(),
        context@ == (CloudCopyView {
            chunk_size: clamped_chunk_size(chunk_size),
            bytes_copied: 0,
            total_bytes,
            pump: PumpView {
                phase: PumpPhase::Ready,
                chunk_size: clamped_chunk_size(chunk_size),
                bytes_done: 0,
                offset: 0,
                limit: None,
            },
        }),
{
    CloudCopyContext::new(clamp_chunk_size(chunk_size), total_bytes, Some(cancel_flag))
}

/// What the host hands back from a call that moved one chunk.
pub fn relay_return_value(action: PumpAction) -> (value: Option<isize>)
    ensures
        value == relay_result(action),
{
    match action {
        PumpAction::ChunkDone { len } => Some(len as isize),
        PumpAction::EndOfData => Some(0),
        PumpAction::Stop { code } => Some(code),
        _ => None,
    }
}

/// What a chunked copy holds, as plain values.
pub struct ChunkedCopyView {
    pub source_path: Seq<char>,
    pub dest_path: Seq<char>,
    pub chunk_size: usize,
    pub bytes_copied: usize,
    pub total_bytes: usize,
    pub is_open: bool,
    pub throttler: ThrottlerView,
}

impl ChunkedCopyView {
    /// The progress of the copy, which is of one file.
    pub open spec fn progress(self) -> CopyProgress {
        CopyProgress {
            bytes_copied: self.bytes_copied,
            total_bytes: self.total_bytes,
            files_processed: 1,
            total_files: 1,
        }
    }
}

/// What the host hands back from a read: the bytes read, 0 at the end of the
/// file, the code of an I/O failure where the read failed, or the negative
/// number that the data callback gave.
pub open spec fn chunked_read_result(read: isize, callback: Option<isize>) -> isize {
    if read < 0 {
        CODE_IO_FAILED
    } else if read > 0 && callback is Some && callback->0 < 0 {
        callback->0
    } else {
        read
    }
}

/// A copy of one file in which the host asks for each read and each write.
pub struct ChunkedCopyContext {
    source_path: String,
    dest_path: String,
    chunk_size: usize,
    bytes_copied: usize,
    total_bytes: usize,
    cancel_flag: Option<CancellationToken>,
    progress_throttler: ProgressThrottler,
    is_open: bool,
}

impl ChunkedCopyContext {
    /// What the copy holds.
    pub closed spec fn view(&self) -> ChunkedCopyView {
        ChunkedCopyView {
            source_path: self.source_path@,
            dest_path: self.dest_path@,
            chunk_size: self.chunk_size,
            bytes_copied: self.bytes_copied,
            total_bytes: self.total_bytes,
            is_open: self.is_open,
            throttler: self.progress_throttler@,
        }
    }

    /// A copy that has copied nothing yet and whose source is not open.
    pub fn new(
        source_path: String,
        dest_path: String,
        chunk_size: usize,
        total_bytes: usize,
        cancel_flag: Option<CancellationToken>,
    ) -> (context: Self)
        ensures
            context.cancellable() == (cancel_flag is Some),
            context@ == (ChunkedCopyView {
                source_path: source_path@,
                dest_path: dest_path@,
                chunk_size,
                bytes_copied: 0,
                total_bytes,
                is_open: false,
                throttler: ThrottlerView {
                    last_update_ms: 0,
                    update_interval_ms: PROGRESS_UPDATE_INTERVAL_MS,
                    last_bytes_processed: 0,
                    last_bytes_transferred: 0,
                },
            }),
    {
        ChunkedCopyContext {
            source_path,
            dest_path,
            chunk_size,
            bytes_copied: 0,
            total_bytes,
            cancel_flag,
            progress_throttler: ProgressThrottler::new(PROGRESS_UPDATE_INTERVAL_MS),
            is_open: false,
        }
    }

    /// Whether the session has a token, so that it can be cancelled at all.
    pub closed spec fn cancellable(&self) -> bool {
        self.cancel_flag is Some
    }

    /// Whether the copy's token is set at this moment; never, where it has
    /// none.
    pub fn is_cancelled(&self) -> (cancelled: bool)
        ensures
            !self.cancellable() ==> !cancelled,
    {
        is_cancelled(&self.cancel_flag)
    }

    /// The path of the source.
    pub fn source_path(&self) -> (path: &str)
        ensures
            path@ == self@.source_path,
    {
        self.source_path.as_str()
    }

    /// The path of the destination.
    pub fn dest_path(&self) -> (path: &str)
        ensures
            path@ == self@.dest_path,
    {
        self.dest_path.as_str()
    }

    /// The chunk size.
    pub fn chunk_size(&self) -> (size: usize)
        ensures
            size == self@.chunk_size,
    {
        self.chunk_size
    }

    /// Records whether the host could open the source: a source that cannot
    /// be opened is not found.
    pub fn chunked_copy_open_source(&mut self, opened: bool) -> (outcome: ErrorKind)
        ensures
            final(self).cancellable() == old(self).cancellable(),
            outcome == if opened {
                ErrorKind::Success
            } else {
                ErrorKind::FileNotFound
            },
            final(self)@ == (ChunkedCopyView {
                is_open: old(self)@.is_open || opened,
                ..old(self)@
            }),
    {
        if opened {
            self.is_open = true;
            ErrorKind::Success
        } else {
            ErrorKind::FileNotFound
        }
    }

    /// Whether a read may go ahead, given what the poll of the token gave: not
    /// when the token is set, and not before the source is open.
    pub fn before_read_polled(&self, cancelled: bool) -> (outcome: ErrorKind)
        ensures
            outcome == if cancelled {
                ErrorKind::Cancelled
            } else if !self@.is_open {
                ErrorKind::FileNotFound
            } else {
                ErrorKind::Success
            },
    {
        if cancelled {
            ErrorKind::Cancelled
        } else if !self.is_open {
            ErrorKind::FileNotFound
        } else {
            ErrorKind::Success
        }
    }

    /// Counts what a read gave and says what the host hands back. `read` is
    /// the number of bytes read, or negative where the read failed;
    /// `callback` is what the data callback gave for the bytes, where there
    /// is one and bytes were read.
    pub fn chunk_read(&mut self, read: isize, callback: Option<isize>) -> (value: isize)
        ensures
            final(self).cancellable() == old(self).cancellable(),
            value == chunked_read_result(read, callback),
            final(self)@ == (ChunkedCopyView {
                bytes_copied: if read > 0 {
                    bytes_after(old(self)@.bytes_copied, read as usize)
                } else {
                    old(self)@.bytes_copied
                },
                ..old(self)@
            }),
            final(self)@.bytes_copied >= old(self)@.bytes_copied,
    {
        if read < 0 {
            return CODE_IO_FAILED;
        }
        if read == 0 {
            return 0;
        }
        let len = read as usize;
        self.bytes_copied = if len > usize::MAX - self.bytes_copied {
            usize::MAX
        } else {
            self.bytes_copied + len
        };
        match callback {
            Some(written) => {
                if written < 0 {
                    return written;
                }
            },
            None => {},
        }
        read
    }

    /// Whether a write may go ahead, given what the poll of the token gave.
    pub fn before_write_polled(&self, cancelled: bool) -> (outcome: ErrorKind)
        ensures
            outcome == if cancelled {
                ErrorKind::Cancelled
            } else {
                ErrorKind::Success
            },
    {
        if cancelled {
            ErrorKind::Cancelled
        } else {
            ErrorKind::Success
        }
    }

    /// Takes the outcome of a write at the moment `now_ms` of the throttler's
    /// clock: a write that failed is an I/O failure; after one that went well
    /// the progress is handed back where a report is due.
    pub fn chunk_written_at(&mut self, written: bool, now_ms: u64) -> (outcome: (
        ErrorKind,
        Option<CopyProgress>,
    ))
        ensures
            final(self).cancellable() == old(self).cancellable(),
            outcome.0 == if written {
                ErrorKind::Success
            } else {
                ErrorKind::IoFailed
            },
            outcome.1 is Some <==> written && update_due(
                old(self)@.throttler,
                now_ms,
                old(self)@.bytes_copied,
                old(self)@.total_bytes,
            ),
            outcome.1 is Some ==> outcome.1->0 == old(self)@.progress(),
            final(self)@ == (ChunkedCopyView {
                throttler: final(self)@.throttler,
                ..old(self)@
            }),
            outcome.1 is None ==> final(self)@ == old(self)@,
    {
        if !written {
            return (ErrorKind::IoFailed, None);
        }
        if self.progress_throttler.should_update_at(now_ms, self.bytes_copied, self.total_bytes) {
            (
                ErrorKind::Success,
                Some(
                    CopyProgress {
                        bytes_copied: self.bytes_copied,
                        total_bytes: self.total_bytes,
                        files_processed: 1,
                        total_files: 1,
                    },
                ),
            )
        } else {
            (ErrorKind::Success, None)
        }
    }

    /// Takes the outcome of a write now: as [`Self::chunk_written_at`] at the
    /// moment that the throttler's clock shows. A write that completes the
    /// copy is always reported.
    pub fn chunk_written(&mut self, written: bool) -> (outcome: (ErrorKind, Option<CopyProgress>))
        ensures
            final(self).cancellable() == old(self).cancellable(),
            outcome.0 == if written {
                ErrorKind::Success
            } else {
                ErrorKind::IoFailed
            },
            outcome.1 is Some ==> written && outcome.1->0 == old(self)@.progress(),
            written && old(self)@.bytes_copied == old(self)@.total_bytes ==> outcome.1 is Some,
            final(self)@ == (ChunkedCopyView {
                throttler: final(self)@.throttler,
                ..old(self)@
            }),
            outcome.1 is None ==> final(self)@ == old(self)@,
    {
        let now_ms = self.progress_throttler.clock_ms();
        self.chunk_written_at(written, now_ms)
    }

    /// What a flush of the destination comes to.
    pub fn chunked_copy_flush(&self, flushed: bool) -> (outcome: ErrorKind)
        ensures
            outcome == if flushed {
                ErrorKind::Success
            } else {
                ErrorKind::IoFailed
            },
    {
        if flushed {
            ErrorKind::Success
        } else {
            ErrorKind::IoFailed
        }
    }

    /// Ends the copy after the last flush: hands back the progress to report
    /// last, and the outcome. A flush that failed is an I/O failure, and the
    /// copy stays open.
    pub fn chunked_copy_finalize(&mut self, flushed: bool) -> (outcome: (ErrorKind, CopyProgress))
        ensures
            final(self).cancellable() == old(self).cancellable(),
            outcome.0 == if flushed {
                ErrorKind::Success
            } else {
                ErrorKind::IoFailed
            },
            outcome.1 == old(self)@.progress(),
            final(self)@ == (ChunkedCopyView {
                is_open: old(self)@.is_open && !flushed,
                ..old(self)@
            }),
    {
        let progress = CopyProgress {
            bytes_copied: self.bytes_copied,
            total_bytes: self.total_bytes,
            files_processed: 1,
            total_files: 1,
        };
        if flushed {
            self.is_open = false;
            (ErrorKind::Success, progress)
        } else {
            (ErrorKind::IoFailed, progress)
        }
    }

    /// Bytes copied and bytes in all.
    pub fn chunked_copy_get_progress(&self) -> (progress: (usize, usize))
        ensures
            progress == (self@.bytes_copied, self@.total_bytes),
    {
        (self.bytes_copied, self.total_bytes)
    }
}

/// Opens a chunked copy of the file at `source_path`, given what the host
/// found there, with the chunk size asked for brought into the range from
/// 64 KiB to 10 MiB. Fails as [`check_copy_source`] says.
pub fn chunked_copy_init(
    source_path: String,
    dest_path: String,
    chunk_size: usize,
    source_exists: bool,
    source_is_file: bool,
    source_len: u64,
    cancel_flag: Option<CancellationToken>,
) -> (context: Result<ChunkedCopyContext, ErrorKind>)
    ensures
        context is Ok ==> context->Ok_0.cancellable() == (cancel_flag is Some),
        !source_exists ==> context is Err && context->Err_0 == ErrorKind::FileNotFound,
        source_exists && !source_is_file ==> context is Err && context->Err_0
            == ErrorKind::InvalidPath,
        source_exists && source_is_file && source_len > usize::MAX ==> context is Err
            && context->Err_0 == ErrorKind::BufferAllocFailed,
        source_exists && source_is_file && source_len <= usize::MAX ==> context is Ok
            && context->Ok_0@ == (ChunkedCopyView {
            source_path: source_path@,
            dest_path: dest_path@,
            chunk_size: clamped_chunk_size(chunk_size),
            bytes_copied: 0,
            total_bytes: source_len as usize,
            is_open: false,
            throttler: ThrottlerView {
                last_update_ms: 0,
                update_interval_ms: PROGRESS_UPDATE_INTERVAL_MS,
                last_bytes_processed: 0,
                last_bytes_transferred: 0,
            },
        }),
{
    match check_copy_source(source_exists, source_is_file, source_len) {
        Ok(total_bytes) => Ok(
            ChunkedCopyContext::new(
                source_path,
                dest_path,
                clamp_chunk_size(chunk_size),
                total_bytes,
                cancel_flag,
            ),
        ),
        Err(kind) => Err(kind),
    }
}

} // verus!
