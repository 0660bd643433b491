//! The unified relay between clouds: any source to any destination, file by
//! file, one chunk in memory at a time.

use crate::cancel::{is_cancelled, CancellationToken};
use crate::pump::{
    capped_add, clamp_chunk_size, clamped_chunk_size, pump_action, pump_state_after, ChunkPump,
    PumpAction, PumpEvent, PumpPhase, PumpView,
};
use vstd::prelude::*;

verus! {

/// How far a relay is: bytes and files, done and in all.
#[derive(Clone, Copy, Debug, PartialEq, Eq, Structural)]
pub struct UnifiedProgress {
    pub bytes_copied: u64,
    pub total_bytes: u64,
    pub files_processed: u32,
    pub total_files: u32,
}

/// What the relay tells the host to do.
#[derive(Clone, Copy, Debug, PartialEq, Eq, Structural)]
pub enum UnifiedAction {
    /// Read up to `len` bytes of the file at `offset` into the buffer.
    Read { len: usize, offset: u64 },
    /// Write the first `len` bytes of the buffer to the file at `offset`.
    Write { len: usize, offset: u64 },
    /// A chunk is through: report this progress, then ask for the next chunk.
    Report { progress: UnifiedProgress },
    /// The file is through; `more` says whether files are left.
    FileDone { more: bool },
    /// The relay is over with this code.
    Stop { code: isize },
}

/// A count of files with one more, held at the largest count there is.
pub open spec fn files_after(files: u32) -> u32 {
    if files == u32::MAX {
        u32::MAX
    } else {
        (files + 1) as u32
    }
}

/// What a relay holds, as plain values.
pub struct UnifiedView {
    pub total_bytes: u64,
    pub bytes_copied: u64,
    pub chunk_size: usize,
    pub files_processed: u32,
    pub total_files: u32,
    pub pump: PumpView,
}

impl UnifiedView {
    /// The progress of the relay.
    pub open spec fn progress(self) -> UnifiedProgress {
        UnifiedProgress {
            bytes_copied: self.bytes_copied,
            total_bytes: self.total_bytes,
            files_processed: self.files_processed,
            total_files: self.total_files,
        }
    }

    /// The relay after an event. A chunk that is through is counted; at the
    /// end of a file the file is counted.
    pub open spec fn after(self, event: PumpEvent) -> UnifiedView {
        let pump = pump_state_after(self.pump, event);
        match pump_action(self.pump, event) {
            PumpAction::ChunkDone { len } => UnifiedView {
                bytes_copied: capped_add(self.bytes_copied, len),
                pump,
                ..self
            },
            PumpAction::EndOfData => UnifiedView {
                files_processed: files_after(self.files_processed),
                pump,
                ..self
            },
            _ => UnifiedView { pump, ..self },
        }
    }

    /// What the relay answers to an event. The progress after a chunk counts
    /// the file at hand as processed.
    pub open spec fn action(self, event: PumpEvent) -> UnifiedAction {
        match pump_action(self.pump, event) {
            PumpAction::Read { len, offset } => UnifiedAction::Read { len, offset },
            PumpAction::Write { len, offset } => UnifiedAction::Write { len, offset },
            PumpAction::ChunkDone { len } => UnifiedAction::Report {
                progress: UnifiedProgress {
                    bytes_copied: capped_add(self.bytes_copied, len),
                    total_bytes: self.total_bytes,
                    files_processed: files_after(self.files_processed),
                    total_files: self.total_files,
                },
            },
            PumpAction::EndOfData => UnifiedAction::FileDone {
                more: files_after(self.files_processed) < self.total_files,
            },
            PumpAction::Stop { code } => UnifiedAction::Stop { code },
        }
    }
}

/// A relay of files from one cloud to another.
pub struct UnifiedCopyContext {
    total_bytes: u64,
    bytes_copied: u64,
    chunk_size: usize,
    files_processed: u32,
    total_files: u32,
    cancel_flag: Option<CancellationToken>,
    pump: ChunkPump,
}

impl UnifiedCopyContext {
    /// What the relay holds.
    pub closed spec fn view(&self) -> UnifiedView {
        UnifiedView {
            total_bytes: self.total_bytes,
            bytes_copied: self.bytes_copied,
            chunk_size: self.chunk_size,
            files_processed: self.files_processed,
            total_files: self.total_files,
            pump: self.pump@,
        }
    }

    /// A relay that has copied nothing yet, with the chunk size as given.
    pub fn new(
        total_bytes: u64,
        total_files: u32,
        chunk_size: usize,
        cancel_flag: Option<CancellationToken>,
    ) -> (context: Self)
        ensures
            context.cancellable() == (cancel_flag is Some),
            context@ == (UnifiedView {
                total_bytes,
                bytes_copied: 0,
                chunk_size,
                files_processed: 0,
                total_files,
                pump: PumpView {
                    phase: PumpPhase::Ready,
                    chunk_size,
                    bytes_done: 0,
                    offset: 0,
                    limit: None,
                },
            }),
    {
        UnifiedCopyContext {
            total_bytes,
            bytes_copied: 0,
            chunk_size,
            files_processed: 0,
            total_files,
            cancel_flag,
            pump: ChunkPump::new(chunk_size),
        }
    }

    /// Whether the session has a token, so that it can be cancelled at all.
    pub closed spec fn cancellable(&self) -> bool {
        self.cancel_flag is Some
    }

    /// Whether the relay's token is set at this moment; never, where it has
    /// none.
    pub fn is_cancelled(&self) -> (cancelled: bool)
        ensures
            !self.cancellable() ==> !cancelled,
    {
        is_cancelled(&self.cancel_flag)
    }

    /// Starts on a file of `file_size` bytes.
    pub fn begin_file(&mut self, file_size: u64)
        ensures
            final(self).cancellable() == old(self).cancellable(),
            final(self)@ == (UnifiedView {
                pump: if old(self)@.pump.phase is Stopped {
                    old(self)@.pump
                } else {
                    PumpView {
                        phase: PumpPhase::Ready,
                        offset: 0,
                        limit: Some(file_size),
                        ..old(self)@.pump
                    }
                },
                ..old(self)@
            }),
    {
        self.pump.begin_data(Some(file_size));
    }

    /// Takes an event and says what the host is to do next.
    pub fn step(&mut self, event: PumpEvent) -> (action: UnifiedAction)
        ensures
            final(self).cancellable() == old(self).cancellable(),
            final(self)@ == old(self)@.after(event),
            action == old(self)@.action(event),
            final(self)@.bytes_copied >= old(self)@.bytes_copied,
            final(self)@.files_processed >= old(self)@.files_processed,
    {
        match self.pump.step(event) {
            PumpAction::Read { len, offset } => UnifiedAction::Read { len, offset },
            PumpAction::Write { len, offset } => UnifiedAction::Write { len, offset },
            PumpAction::ChunkDone { len } => {
                self.bytes_copied = if len as u64 > u64::MAX - self.bytes_copied {
                    u64::MAX
                } else {
                    self.bytes_copied + len as u64
                };
                UnifiedAction::Report {
                    progress: UnifiedProgress {
                        bytes_copied: self.bytes_copied,
                        total_bytes: self.total_bytes,
                        files_processed: self.files_processed.saturating_add(1),
                        total_files: self.total_files,
                    },
                }
            },
            PumpAction::EndOfData => {
                self.files_processed = self.files_processed.saturating_add(1);
                UnifiedAction::FileDone { more: self.files_processed < self.total_files }
            },
            PumpAction::Stop { code } => UnifiedAction::Stop { code },
        }
    }

    /// Asks for the next chunk: polls the relay's token, then steps. A relay
    /// without a token is never cancelled.
    pub fn start_chunk(&mut self, buffer_size: usize) -> (action: UnifiedAction)
        ensures
            final(self).cancellable() == old(self).cancellable(),
            exists|cancelled: bool|
                (!old(self).cancellable() ==> !cancelled) && final(self)@ == old(self)@.after(
                    PumpEvent::Start { cancelled, buffer_size },
                ) && action == old(self)@.action(PumpEvent::Start { cancelled, buffer_size }),
            !old(self).cancellable() ==> final(self)@ == old(self)@.after(
                PumpEvent::Start { cancelled: false, buffer_size },
            ) && action == old(self)@.action(PumpEvent::Start { cancelled: false, buffer_size }),
            !(action is Write),
    {
        let cancelled = self.is_cancelled();
        self.step(PumpEvent::Start { cancelled, buffer_size })
    }

    /// How far the relay is.
    pub fn unified_copy_get_progress(&self) -> (progress: UnifiedProgress)
        ensures
            progress == self@.progress(),
    {
        UnifiedProgress {
            bytes_copied: self.bytes_copied,
            total_bytes: self.total_bytes,
            files_processed: self.files_processed,
            total_files: self.total_files,
        }
    }

    /// The progress to report at the end of the relay.
    pub fn unified_copy_finalize(&self) -> (progress: UnifiedProgress)
        ensures
            progress == self@.progress(),
    {
        self.unified_copy_get_progress()
    }

    /// Bytes copied so far.
    pub fn unified_copy_get_bytes_copied(&self) -> (bytes: u64)
        ensures
            bytes == self@.bytes_copied,
    {
        self.bytes_copied
    }

    /// Bytes to copy in all.
    pub fn unified_copy_get_total_bytes(&self) -> (bytes: u64)
        ensures
            bytes == self@.total_bytes,
    {
        self.total_bytes
    }

    /// Files through so far.
    pub fn unified_copy_get_files_processed(&self) -> (files: u32)
        ensures
            files == self@.files_processed,
    {
        self.files_processed
    }

    /// Files to copy in all.
    pub fn unified_copy_get_total_files(&self) -> (files: u32)
        ensures
            files == self@.total_files,
    {
        self.total_files
    }
}

/// Opens a relay with the chunk size asked for brought into the range from
/// 64 KiB to 10 MiB. A relay without a token cannot be cancelled.
pub fn unified_copy_init(
    total_bytes: u64,
    total_files: u32,
    chunk_size: usize,
    cancel_flag: Option<CancellationToken>,
) -> (context: UnifiedCopyContext)
    ensures
        context.cancellable() == (cancel_flag is Some),
        context@ == (UnifiedView {
            total_bytes,
            bytes_copied: 0,
            chunk_size: clamped_chunk_size(chunk_size),
            files_processed: 0,
            total_files,
            pump: PumpView {
                phase: PumpPhase::Ready,
                chunk_size: clamped_chunk_size(chunk_size),
                bytes_done: 0,
                offset: 0,
                limit: None,
            },
        }),
{
    UnifiedCopyContext::new(total_bytes, total_files, clamp_chunk_size(chunk_size), cancel_flag)
}

} // verus!
