//! The download session: remote to local file, chunk by chunk, decrypted
//! where asked for. The host receives the chunks and writes what the session
//! hands out.

use crate::cancel::{is_cancelled, CancellationToken};
use crate::container::{append_bytes, HEADER_SIZE};
use crate::copy::bytes_after;
use crate::error::ErrorKind;
use crate::le_bytes::u32_from_le;
use crate::progress::{update_due, ProgressThrottler, ThrottlerView, PROGRESS_UPDATE_INTERVAL_MS};
use crate::session::{
    announced_prefix_len, decrypt_chunk, decrypt_file_finalize, decrypt_file_init,
    opened_frame_at, opened_prefix, DecryptionContext,
};
use crate::upload::kept_key;
use crate::whole_file::Progress;
use vstd::prelude::*;
use vstd::slice::slice_subrange;

verus! {

/// What the session answers to a chunk.
#[derive(Debug, Clone)]
pub struct DownloadStep {
    /// The bytes to write to the file, in full, before anything else is done.
    pub write: Vec<u8>,
    /// `Success`, or why the chunk was refused. A chunk may be refused after
    /// part of it was taken: what is in `write` is written all the same.
    pub outcome: ErrorKind,
    /// The progress, where it is to be reported now.
    pub report: Option<Progress>,
}

/// The decryption session of a download, as plain values: its key, and the
/// index that the next frame must carry.
pub struct OpenSession {
    pub fek: Seq<u8>,
    pub next_index: u64,
}

/// What a download session holds, as plain values.
pub struct DownloadView {
    pub file_path: Seq<char>,
    pub master_key: Seq<u8>,
    pub bytes_written: usize,
    pub total_bytes: usize,
    pub should_decrypt: bool,
    pub header_written: bool,
    pub is_finalized: bool,
    /// Key and next frame index of the decryption session, once it is open.
    pub session: Option<OpenSession>,
    pub throttler: ThrottlerView,
}

impl DownloadView {
    /// Whether the next chunk opens the decryption session: decryption is
    /// asked for, there is a master key, and no session is open yet.
    pub open spec fn awaits_prefix(self) -> bool {
        self.should_decrypt && self.session is None && self.master_key.len() > 0
    }

    /// What is written for a chunk, and the outcome, leaving cancellation
    /// aside.
    ///
    /// The first chunk of a decrypted download must hold the whole prefix, or
    /// it is refused as no valid path; the prefix opens the session and is
    /// written through as it is, and what follows it in the chunk is one
    /// frame. Every later chunk is one frame. Without decryption the chunk is
    /// written as it is.
    pub open spec fn write_for(self, data: Seq<u8>) -> (Seq<u8>, ErrorKind) {
        if self.awaits_prefix() {
            if data.len() < HEADER_SIZE || data.len() < announced_prefix_len(data) {
                (Seq::empty(), ErrorKind::InvalidPath)
            } else {
                let prefix = data.subrange(0, announced_prefix_len(data));
                let tail = data.subrange(announced_prefix_len(data), data.len() as int);
                match opened_prefix(prefix, self.master_key) {
                    Err(kind) => (Seq::empty(), kind),
                    Ok(fek) => if tail.len() == 0 {
                        (prefix, ErrorKind::Success)
                    } else {
                        match opened_frame_at(tail, fek, 0) {
                            Ok(plain) => (prefix + plain, ErrorKind::Success),
                            Err(kind) => (prefix, kind),
                        }
                    },
                }
            }
        } else if self.should_decrypt && self.session is Some {
            match opened_frame_at(data, self.session->0.fek, self.session->0.next_index as int) {
                Ok(plain) => (plain, ErrorKind::Success),
                Err(kind) => (Seq::empty(), kind),
            }
        } else {
            (data, ErrorKind::Success)
        }
    }

    /// The decryption session after a chunk: opened by a prefix that is
    /// accepted, and one frame further for each frame that opens.
    pub open spec fn session_after(self, data: Seq<u8>) -> Option<OpenSession> {
        if self.awaits_prefix() {
            if data.len() < HEADER_SIZE || data.len() < announced_prefix_len(data) {
                None
            } else {
                let prefix = data.subrange(0, announced_prefix_len(data));
                let tail = data.subrange(announced_prefix_len(data), data.len() as int);
                match opened_prefix(prefix, self.master_key) {
                    Err(_) => None,
                    Ok(fek) => if tail.len() > 0 && opened_frame_at(tail, fek, 0) is Ok {
                        Some(OpenSession { fek, next_index: 1 })
                    } else {
                        Some(OpenSession { fek, next_index: 0 })
                    },
                }
            }
        } else if self.should_decrypt && self.session is Some {
            if opened_frame_at(data, self.session->0.fek, self.session->0.next_index as int) is Ok {
                Some(
                    OpenSession {
                        fek: self.session->0.fek,
                        next_index: (self.session->0.next_index + 1) as u64,
                    },
                )
            } else {
                self.session
            }
        } else {
            self.session
        }
    }

    /// The throttler after a chunk: a report at the moment `now_ms` with
    /// `bytes` bytes written is recorded as the last one.
    pub open spec fn throttler_after(
        self,
        reported: bool,
        now_ms: u64,
        bytes: usize,
    ) -> ThrottlerView {
        if reported {
            ThrottlerView {
                last_update_ms: now_ms,
                update_interval_ms: self.throttler.update_interval_ms,
                last_bytes_processed: bytes,
                last_bytes_transferred: self.total_bytes,
            }
        } else {
            self.throttler
        }
    }

    /// Whether a step with these bytes to write, this outcome and this report,
    /// and the session `after`, are what follows this session when a chunk
    /// arrives, the poll of the token gave `cancelled` and the throttler's
    /// clock shows `now_ms`.
    ///
    /// A token that is set refuses the chunk and leaves the session as it is.
    /// Else the bytes and the outcome are those of [`Self::write_for`], the
    /// bytes to write are counted, and the progress is reported exactly where
    /// the chunk was taken and a report is due.
    pub open spec fn appends_to(
        self,
        after: DownloadView,
        data: Seq<u8>,
        cancelled: bool,
        now_ms: u64,
        write: Seq<u8>,
        outcome: ErrorKind,
        report: Option<Progress>,
    ) -> bool {
        if cancelled {
            outcome == ErrorKind::Cancelled && write.len() == 0 && report is None && after == self
        } else {
            &&& (write, outcome) == self.write_for(data)
            &&& after.session == self.session_after(data)
            &&& after.bytes_written == bytes_after(self.bytes_written, write.len() as usize)
            &&& after.total_bytes == self.total_bytes
            &&& after.master_key == self.master_key
            &&& after.should_decrypt == self.should_decrypt
            &&& after.file_path == self.file_path
            &&& after.is_finalized == self.is_finalized
            &&& after.header_written == (self.header_written || (self.awaits_prefix()
                && after.session is Some))
            &&& report is Some <==> outcome == ErrorKind::Success && update_due(
                self.throttler,
                now_ms,
                after.bytes_written,
                self.total_bytes,
            )
            &&& report is Some ==> report->0 == (Progress {
                bytes_processed: after.bytes_written,
                total_bytes: self.total_bytes,
            })
            &&& after.throttler == self.throttler_after(report is Some, now_ms, after.bytes_written)
        }
    }

    /// Whether a step and the session `after` are what follows this session
    /// when bytes that are plain already arrive, the poll of the token gave
    /// `cancelled` and the throttler's clock shows `now_ms`.
    ///
    /// A token that is set refuses the bytes and leaves the session as it is.
    /// Else they are written as they are and counted, and the progress is
    /// reported exactly where a report is due.
    pub open spec fn appends_plain_to(
        self,
        after: DownloadView,
        data: Seq<u8>,
        cancelled: bool,
        now_ms: u64,
        write: Seq<u8>,
        outcome: ErrorKind,
        report: Option<Progress>,
    ) -> bool {
        if cancelled {
            outcome == ErrorKind::Cancelled && write.len() == 0 && report is None && after == self
        } else {
            &&& write == data
            &&& outcome == ErrorKind::Success
            &&& after == (DownloadView {
                bytes_written: bytes_after(self.bytes_written, data.len() as usize),
                throttler: self.throttler_after(report is Some, now_ms, after.bytes_written),
                ..self
            })
            &&& report is Some <==> update_due(
                self.throttler,
                now_ms,
                after.bytes_written,
                self.total_bytes,
            )
            &&& report is Some ==> report->0 == (Progress {
                bytes_processed: after.bytes_written,
                total_bytes: self.total_bytes,
            })
        }
    }
}

/// A download in progress.
pub struct DownloadContext {
    file_path: String,
    decryption_context: Option<DecryptionContext>,
    master_key: Vec<u8>,
    bytes_written: usize,
    total_bytes: usize,
    should_decrypt: bool,
    cancel_flag: Option<CancellationToken>,
    progress_throttler: ProgressThrottler,
    is_finalized: bool,
    header_written: bool,
}

impl DownloadContext {
    /// Whether the session is in order: a decryption session that is there is
    /// open and has not run out of frame numbers. Every operation that takes
    /// chunks asks for it and keeps it.
    pub closed spec fn wf(&self) -> bool {
        match self.decryption_context {
            Some(session) => session.is_open() && session.index_view() <= 0x1_0000_0000,
            None => true,
        }
    }

    /// What the session holds.
    pub closed spec fn view(&self) -> DownloadView {
        DownloadView {
            file_path: self.file_path@,
            master_key: self.master_key@,
            bytes_written: self.bytes_written,
            total_bytes: self.total_bytes,
            should_decrypt: self.should_decrypt,
            header_written: self.header_written,
            is_finalized: self.is_finalized,
            session: match self.decryption_context {
                Some(session) => Some(
                    OpenSession { fek: session.fek_view(), next_index: session.index_view() },
                ),
                None => None,
            },
            throttler: self.progress_throttler@,
        }
    }

    /// A session that has written nothing yet.
    pub fn new(
        file_path: String,
        total_bytes: usize,
        should_decrypt: bool,
        master_key: Vec<u8>,
        cancel_flag: Option<CancellationToken>,
    ) -> (context: Self)
        ensures
            context.cancellable() == (cancel_flag is Some),
            context.wf(),
            context@ == (DownloadView {
                file_path: file_path@,
                master_key: master_key@,
                bytes_written: 0,
                total_bytes,
                should_decrypt,
                header_written: false,
                is_finalized: false,
                session: None,
                throttler: ThrottlerView {
                    last_update_ms: 0,
                    update_interval_ms: PROGRESS_UPDATE_INTERVAL_MS,
                    last_bytes_processed: 0,
                    last_bytes_transferred: 0,
                },
            }),
    {
        DownloadContext {
            file_path,
            decryption_context: None,
            master_key,
            bytes_written: 0,
            total_bytes,
            should_decrypt,
            cancel_flag,
            progress_throttler: ProgressThrottler::new(PROGRESS_UPDATE_INTERVAL_MS),
            is_finalized: false,
            header_written: false,
        }
    }

    /// Whether the session has a token, so that it can be cancelled at all.
    pub closed spec fn cancellable(&self) -> bool {
        self.cancel_flag is Some
    }

    /// Whether the session's token is set at this moment; never, where it has
    /// none.
    pub fn is_cancelled(&self) -> (cancelled: bool)
        ensures
            !self.cancellable() ==> !cancelled,
    {
        is_cancelled(&self.cancel_flag)
    }

    /// The path of the file.
    pub fn file_path(&self) -> (path: &str)
        ensures
            path@ == self@.file_path,
    {
        self.file_path.as_str()
    }

    /// Bytes written so far.
    pub fn download_get_bytes_written(&self) -> (bytes: usize)
        ensures
            bytes == self@.bytes_written,
    {
        self.bytes_written
    }

    /// Bytes in all; 0 where the total is not known.
    pub fn download_get_total_bytes(&self) -> (bytes: usize)
        ensures
            bytes == self@.total_bytes,
    {
        self.total_bytes
    }

    /// Sets the total, for the reports of progress.
    pub fn download_set_total_bytes(&mut self, total_bytes: usize)
        ensures
            final(self).cancellable() == old(self).cancellable(),
            final(self)@ == (DownloadView { total_bytes, ..old(self)@ }),
            final(self).wf() == old(self).wf(),
    {
        self.total_bytes = total_bytes;
    }

    /// Counts `len` bytes as written and decides on the report.
    fn count_written(&mut self, len: usize, now_ms: u64) -> (report: Option<Progress>)
        ensures
            final(self).cancellable() == old(self).cancellable(),
            final(self).decryption_context == old(self).decryption_context,
            final(self)@ == (DownloadView {
                bytes_written: bytes_after(old(self)@.bytes_written, len),
                throttler: final(self)@.throttler,
                ..old(self)@
            }),
            report is Some <==> update_due(
                old(self)@.throttler,
                now_ms,
                bytes_after(old(self)@.bytes_written, len),
                old(self)@.total_bytes,
            ),
            report is Some ==> report->0 == (Progress {
                bytes_processed: bytes_after(old(self)@.bytes_written, len),
                total_bytes: old(self)@.total_bytes,
            }),
            final(self)@.throttler == old(self)@.throttler_after(
                report is Some,
                now_ms,
                bytes_after(old(self)@.bytes_written, len),
            ),
    {
        self.bytes_written = if len > usize::MAX - self.bytes_written {
            usize::MAX
        } else {
            self.bytes_written + len
        };
        if self.progress_throttler.should_update_at(now_ms, self.bytes_written, self.total_bytes) {
            Some(Progress { bytes_processed: self.bytes_written, total_bytes: self.total_bytes })
        } else {
            None
        }
    }

    /// Takes the first chunk of a decrypted download.
    fn take_first_chunk(&mut self, data: &[u8]) -> (taken: (Vec<u8>, ErrorKind))
        requires
            old(self).wf(),
            old(self)@.awaits_prefix(),
        ensures
            final(self).cancellable() == old(self).cancellable(),
            final(self).wf(),
            (taken.0@, taken.1) == old(self)@.write_for(data@),
            final(self)@ == (DownloadView {
                session: old(self)@.session_after(data@),
                header_written: old(self)@.header_written || final(self)@.session is Some,
                ..old(self)@
            }),
    {
        let empty: Vec<u8> = Vec::new();
        if data.len() < HEADER_SIZE {
            return (empty, ErrorKind::InvalidPath);
        }
        let fek_length = u32_from_le(data, 8) as usize;
        if data.len() - HEADER_SIZE < fek_length {
            return (empty, ErrorKind::InvalidPath);
        }
        let split = HEADER_SIZE + fek_length;
        let prefix = slice_subrange(data, 0, split);
        let tail = slice_subrange(data, split, data.len());
        let mut session = match decrypt_file_init(prefix, self.master_key.as_slice()) {
            Ok(session) => session,
            Err(kind) => {
                return (empty, kind);
            },
        };
        let mut write: Vec<u8> = Vec::new();
        append_bytes(&mut write, prefix);
        let mut outcome = ErrorKind::Success;
        if tail.len() > 0 {
            match decrypt_chunk(&mut session, tail) {
                Ok(plain) => {
                    append_bytes(&mut write, plain.as_slice());
                },
                Err(kind) => {
                    outcome = kind;
                },
            }
        }
        self.decryption_context = Some(session);
        self.header_written = true;
        (write, outcome)
    }

    /// Takes a chunk at the moment `now_ms` of the throttler's clock, given
    /// what the poll of the token gave. A token that is set refuses the chunk
    /// with `Cancelled` before anything is written. Else what is to be
    /// written and the outcome are as [`DownloadView::write_for`] says; the
    /// bytes to write are counted; and the progress is to be reported where
    /// the chunk was taken and a report is due.
    pub fn append_chunk_polled_at(&mut self, data: &[u8], cancelled: bool, now_ms: u64) -> (step:
        DownloadStep)
        requires
            old(self).wf(),
        ensures
            final(self).cancellable() == old(self).cancellable(),
            final(self).wf(),
            final(self)@.bytes_written >= old(self)@.bytes_written,
            old(self)@.appends_to(
                final(self)@,
                data@,
                cancelled,
                now_ms,
                step.write@,
                step.outcome,
                step.report,
            ),
    {
        if cancelled {
            return DownloadStep { write: Vec::new(), outcome: ErrorKind::Cancelled, report: None };
        }
        let wants_prefix = self.should_decrypt && self.decryption_context.is_none()
            && self.master_key.len() > 0;
        let (write, outcome) = if wants_prefix {
            self.take_first_chunk(data)
        } else if self.should_decrypt && self.decryption_context.is_some() {
            let opened = match &mut self.decryption_context {
                Some(session) => decrypt_chunk(session, data),
                None => Err(ErrorKind::DecryptionFailed),
            };
            match opened {
                Ok(plain) => (plain, ErrorKind::Success),
                Err(kind) => (Vec::new(), kind),
            }
        } else {
            let mut copy: Vec<u8> = Vec::new();
            append_bytes(&mut copy, data);
            (copy, ErrorKind::Success)
        };
        let report = match outcome {
            ErrorKind::Success => self.count_written(write.len(), now_ms),
            _ => {
                let len = write.len();
                self.bytes_written = if len > usize::MAX - self.bytes_written {
                    usize::MAX
                } else {
                    self.bytes_written + len
                };
                None
            },
        };
        DownloadStep { write, outcome, report }
    }

    /// Takes a chunk now: polls the token, reads the throttler's clock, and
    /// goes on as [`Self::append_chunk_polled_at`]. A session without a token
    /// is never cancelled. Whatever the poll and the clock gave, the bytes to
    /// write are counted, a report carries the count after them, and a chunk
    /// that completes the total is reported.
    pub fn download_append_chunk(&mut self, data: &[u8]) -> (step: DownloadStep)
        requires
            old(self).wf(),
        ensures
            final(self).cancellable() == old(self).cancellable(),
            final(self).wf(),
            final(self)@.bytes_written >= old(self)@.bytes_written,
            exists|cancelled: bool, now_ms: u64|
                (!old(self).cancellable() ==> !cancelled) && #[trigger] old(self)@.appends_to(
                    final(self)@,
                    data@,
                    cancelled,
                    now_ms,
                    step.write@,
                    step.outcome,
                    step.report,
                ),
            !old(self).cancellable() ==> {
                &&& (step.write@, step.outcome) == old(self)@.write_for(data@)
                &&& final(self)@.session == old(self)@.session_after(data@)
            },
            final(self)@.bytes_written == bytes_after(
                old(self)@.bytes_written,
                step.write@.len() as usize,
            ),
            final(self)@.total_bytes == old(self)@.total_bytes,
            final(self)@.master_key == old(self)@.master_key,
            final(self)@.should_decrypt == old(self)@.should_decrypt,
            step.outcome == ErrorKind::Cancelled || (step.write@, step.outcome) == old(self)@.write_for(data@),
            step.outcome == ErrorKind::Cancelled && old(self)@.write_for(data@).1
                != ErrorKind::Cancelled ==> step.write@.len() == 0 && final(self)@ == old(self)@,
            step.report is Some ==> step.outcome == ErrorKind::Success && step.report->0 == (
            Progress {
                bytes_processed: final(self)@.bytes_written,
                total_bytes: old(self)@.total_bytes,
            }),
            step.outcome == ErrorKind::Success && final(self)@.bytes_written == old(self)@.total_bytes ==> step.report is Some,
    {
        let cancelled = self.is_cancelled();
        let now_ms = self.progress_throttler.clock_ms();
        self.append_chunk_polled_at(data, cancelled, now_ms)
    }

    /// Takes bytes that are plain already, at the moment `now_ms`, given what
    /// the poll of the token gave: they are written as they are.
    pub fn append_decrypted_polled_at(&mut self, data: &[u8], cancelled: bool, now_ms: u64) -> (step:
        DownloadStep)
        ensures
            final(self).cancellable() == old(self).cancellable(),
            final(self).wf() == old(self).wf(),
            old(self)@.appends_plain_to(
                final(self)@,
                data@,
                cancelled,
                now_ms,
                step.write@,
                step.outcome,
                step.report,
            ),
    {
        if cancelled {
            return DownloadStep { write: Vec::new(), outcome: ErrorKind::Cancelled, report: None };
        }
        let mut copy: Vec<u8> = Vec::new();
        append_bytes(&mut copy, data);
        let report = self.count_written(data.len(), now_ms);
        DownloadStep { write: copy, outcome: ErrorKind::Success, report }
    }

    /// Takes bytes that are plain already, now: polls the token, reads the
    /// throttler's clock, and goes on as [`Self::append_decrypted_polled_at`].
    /// A session without a token is never cancelled.
    pub fn download_append_decrypted(&mut self, data: &[u8]) -> (step: DownloadStep)
        ensures
            final(self).cancellable() == old(self).cancellable(),
            final(self).wf() == old(self).wf(),
            exists|cancelled: bool, now_ms: u64|
                (!old(self).cancellable() ==> !cancelled) && #[trigger] old(self)@.appends_plain_to(
                    final(self)@,
                    data@,
                    cancelled,
                    now_ms,
                    step.write@,
                    step.outcome,
                    step.report,
                ),
            !old(self).cancellable() ==> step.outcome == ErrorKind::Success && step.write@
                == data@,
            step.outcome == ErrorKind::Cancelled || (step.outcome == ErrorKind::Success
                && step.write@ == data@),
            final(self)@ == (DownloadView {
                bytes_written: bytes_after(old(self)@.bytes_written, step.write@.len() as usize),
                throttler: final(self)@.throttler,
                ..old(self)@
            }),
            final(self)@.bytes_written >= old(self)@.bytes_written,
            step.report is Some ==> step.outcome == ErrorKind::Success && step.report->0 == (
            Progress {
                bytes_processed: final(self)@.bytes_written,
                total_bytes: old(self)@.total_bytes,
            }),
            step.outcome == ErrorKind::Success && final(self)@.bytes_written == old(self)@.total_bytes ==> step.report is Some,
    {
        let cancelled = self.is_cancelled();
        let now_ms = self.progress_throttler.clock_ms();
        self.append_decrypted_polled_at(data, cancelled, now_ms)
    }

    /// Ends the session, after the host has flushed the file: the decryption
    /// session is closed and its key wiped. A flush that failed is an I/O
    /// failure, and the session is not ended.
    pub fn download_finalize(&mut self, flushed: bool) -> (outcome: ErrorKind)
        ensures
            final(self).cancellable() == old(self).cancellable(),
            outcome == if flushed {
                ErrorKind::Success
            } else {
                ErrorKind::IoFailed
            },
            final(self)@.bytes_written == old(self)@.bytes_written,
            final(self)@.total_bytes == old(self)@.total_bytes,
            final(self)@.is_finalized == (flushed || old(self)@.is_finalized),
    {
        match &mut self.decryption_context {
            Some(session) => {
                decrypt_file_finalize(session);
            },
            None => {},
        }
        if !flushed {
            return ErrorKind::IoFailed;
        }
        self.is_finalized = true;
        ErrorKind::Success
    }
}

/// Opens a download session to the file at `file_path`; the total is not
/// known. Without a master key, or with an empty one, the download is written
/// as it comes. A master key is kept whatever its length: a download that is
/// to be decrypted under a key that does not have 32 bytes refuses its first
/// chunk with `InvalidKeySize`.
pub fn download_init(
    file_path: String,
    master_key: Option<&[u8]>,
    should_decrypt: bool,
    cancel_flag: Option<CancellationToken>,
) -> (context: DownloadContext)
    ensures
        context.cancellable() == (cancel_flag is Some),
        context.wf(),
        context@ == (DownloadView {
            file_path: file_path@,
            master_key: kept_key(
                match master_key {
                    Some(key) => Some(key@),
                    None => None,
                },
            ),
            bytes_written: 0,
            total_bytes: 0,
            should_decrypt,
            header_written: false,
            is_finalized: false,
            session: None,
            throttler: ThrottlerView {
                last_update_ms: 0,
                update_interval_ms: PROGRESS_UPDATE_INTERVAL_MS,
                last_bytes_processed: 0,
                last_bytes_transferred: 0,
            },
        }),
{
    download_init_with_size(file_path, 0, master_key, should_decrypt, cancel_flag)
}

/// Opens a download session to the file at `file_path`, of `total_bytes`
/// bytes in all; the master key is kept as [`download_init`] keeps it.
pub fn download_init_with_size(
    file_path: String,
    total_bytes: usize,
    master_key: Option<&[u8]>,
    should_decrypt: bool,
    cancel_flag: Option<CancellationToken>,
) -> (context: DownloadContext)
    ensures
        context.cancellable() == (cancel_flag is Some),
        context.wf(),
        context@ == (DownloadView {
            file_path: file_path@,
            master_key: kept_key(
                match master_key {
                    Some(key) => Some(key@),
                    None => None,
                },
            ),
            bytes_written: 0,
            total_bytes,
            should_decrypt,
            header_written: false,
            is_finalized: false,
            session: None,
            throttler: ThrottlerView {
                last_update_ms: 0,
                update_interval_ms: PROGRESS_UPDATE_INTERVAL_MS,
                last_bytes_processed: 0,
                last_bytes_transferred: 0,
            },
        }),
{
    let mut key: Vec<u8> = Vec::new();
    match master_key {
        Some(given) => {
            append_bytes(&mut key, given);
        },
        None => {},
    }
    DownloadContext::new(file_path, total_bytes, should_decrypt, key, cancel_flag)
}

} // verus!
