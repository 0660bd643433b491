//! The upload session: local file to remote, chunk by chunk, encrypted where
//! asked for. The host reads the file and sends what the session hands out.

use crate::cancel::{is_cancelled, CancellationToken};
use crate::container::{
    append_bytes, fits_with_tag, frame_index, frame_payload_len, frameable, header_bytes,
    sealed_frame, unwrapped_key, wrapped_key, CHUNK_HEADER_SIZE, DEFAULT_CHUNK_SIZE,
};
use crate::error::ErrorKind;
use crate::primitives::{os_random, KEY_SIZE, MAC_SIZE, NONCE_SIZE};
use crate::progress::{update_due, ProgressThrottler, ThrottlerView, PROGRESS_UPDATE_INTERVAL_MS};
use crate::session::{
    encrypt_chunk_with, encrypt_file_finalize, encrypt_file_init_with, opened_frame_at,
    EncryptionContext, WRAPPED_FEK_SIZE,
};
use crate::whole_file::Progress;
use vstd::prelude::*;

verus! {

/// What the session asks of the host next.
#[derive(Debug, Clone)]
pub enum UploadStep {
    /// Send these bytes first: the header and the wrapped key.
    Prefix { data: Vec<u8> },
    /// Read up to `len` bytes from the file and hand them to
    /// [`UploadContext::chunk_read`].
    Read { len: usize },
    /// The file is through.
    Done,
    /// The session is over with this outcome.
    Stop { kind: ErrorKind },
}

/// One chunk, ready to be sent.
#[derive(Debug, Clone)]
pub struct UploadChunk {
    /// The bytes to send: a frame where the upload is encrypted, the bytes
    /// read where it is not.
    pub data: Vec<u8>,
    /// Number of the chunk, from 0.
    pub chunk_index: u32,
    /// Bytes of the file that the chunk holds.
    pub plaintext_len: usize,
    /// The progress, where it is to be reported now.
    pub report: Option<Progress>,
}

/// What an upload session holds, as plain values.
pub struct UploadView {
    pub file_path: Seq<char>,
    pub master_key: Seq<u8>,
    pub bytes_read: usize,
    pub total_bytes: usize,
    pub chunk_index: u32,
    pub should_encrypt: bool,
    pub prefix_sent: bool,
    pub is_finalized: bool,
    pub fek: Option<Seq<u8>>,
    pub throttler: ThrottlerView,
}

impl UploadView {
    /// Whether the chunks are encrypted: encryption is asked for and there
    /// is a master key.
    pub open spec fn encrypts(self) -> bool {
        self.should_encrypt && self.master_key.len() > 0
    }

    /// Bytes to read for the next chunk: what is left of the file, 1 MiB at
    /// most.
    pub open spec fn next_len(self) -> usize {
        if self.total_bytes - self.bytes_read > DEFAULT_CHUNK_SIZE {
            DEFAULT_CHUNK_SIZE
        } else {
            (self.total_bytes - self.bytes_read) as usize
        }
    }

    /// Why an encrypted upload fails where it does: the master key does not
    /// have 32 bytes, or else the encryption itself gave out.
    pub open spec fn failure(self) -> ErrorKind {
        if self.master_key.len() != KEY_SIZE {
            ErrorKind::InvalidKeySize
        } else {
            ErrorKind::EncryptionFailed
        }
    }

    /// Whether the encryption session has yet to be opened: the upload is
    /// encrypted and holds no file-encryption key.
    pub open spec fn needs_session(self) -> bool {
        self.encrypts() && self.fek is None
    }

    /// Whether the upload can go on with this file-encryption key and this
    /// nonce to wrap it with: it needs no session, or the master key and the
    /// key have 32 bytes and the nonce has 12.
    pub open spec fn opens_with(self, fek: Seq<u8>, key_nonce: Seq<u8>) -> bool {
        !self.needs_session() || (self.master_key.len() == KEY_SIZE && fek.len() == KEY_SIZE
            && key_nonce.len() == NONCE_SIZE)
    }

    /// The file-encryption key after a session is opened with `fek` where
    /// one is needed.
    pub open spec fn fek_with(self, fek: Seq<u8>) -> Option<Seq<u8>> {
        if self.needs_session() {
            Some(fek)
        } else {
            self.fek
        }
    }

    /// Whether `step` and the session `after` are what follows this session
    /// when the poll of the token gave `cancelled`; `after_prefix` is the
    /// header and wrapped key that the session holds then.
    ///
    /// A token that is set stops the session as it is. Else an encrypted
    /// upload that has not sent its prefix opens its encryption session and
    /// hands out the 72 bytes of the prefix, or stops where that fails: always
    /// so where the master key does not have 32 bytes. Else the file is
    /// through, or the next chunk is to be read.
    pub open spec fn steps_to(
        self,
        after: UploadView,
        after_prefix: Option<Seq<u8>>,
        step: UploadStepView,
        cancelled: bool,
    ) -> bool {
        if cancelled {
            step == (UploadStepView::Stop { kind: ErrorKind::Cancelled }) && after == self
        } else if self.encrypts() && !self.prefix_sent {
            match step {
                UploadStepView::Prefix { data } => {
                    &&& self.master_key.len() == KEY_SIZE
                    &&& data.len() == 72
                    &&& after_prefix == Some(data)
                    &&& after.fek is Some
                    &&& after == (UploadView { fek: after.fek, prefix_sent: true, ..self })
                },
                UploadStepView::Stop { kind } => kind == self.failure() && after == self,
                _ => false,
            }
        } else {
            after == self && step == (if self.bytes_read >= self.total_bytes {
                UploadStepView::Done
            } else {
                UploadStepView::Read { len: self.next_len() }
            })
        }
    }

    /// Whether a chunk of `len` bytes cannot be sent whatever the random
    /// source gives: the upload is encrypted, and the numbering of the chunks
    /// is used up, the chunk is too long for a frame, or the master key is no
    /// key.
    pub open spec fn cannot_seal(self, len: nat) -> bool {
        self.encrypts() && (self.chunk_index == u32::MAX || !frameable(len)
            || self.master_key.len() != KEY_SIZE)
    }

    /// Whether `chunk` and the session `after` are what follows this session
    /// when the host has read `data` and the throttler's clock shows
    /// `now_ms`.
    ///
    /// A plain upload always hands the bytes back as they are. An encrypted
    /// one hands back a frame that carries the number of the chunk and opens
    /// to the bytes under the session's key; it fails where the chunk cannot
    /// be sealed or the random source does not deliver, and then nothing is
    /// counted. A chunk that is handed back is counted and numbered, and its
    /// progress is to be reported exactly when a report is due.
    pub open spec fn reads_to(
        self,
        after: UploadView,
        data: Seq<u8>,
        now_ms: u64,
        chunk: Result<UploadChunk, ErrorKind>,
    ) -> bool {
        &&& after.total_bytes == self.total_bytes
        &&& after.master_key == self.master_key
        &&& after.prefix_sent == self.prefix_sent
        &&& after.should_encrypt == self.should_encrypt
        &&& !self.encrypts() ==> chunk is Ok
        &&& self.cannot_seal(data.len()) ==> chunk is Err
        &&& match chunk {
            Ok(c) => {
                &&& c.chunk_index == self.chunk_index
                &&& c.plaintext_len == data.len()
                &&& after.chunk_index == next_chunk_index(self.chunk_index)
                &&& after.bytes_read == crate::copy::bytes_after(
                    self.bytes_read,
                    data.len() as usize,
                )
                &&& self.encrypts() ==> {
                    &&& after.chunk_index == self.chunk_index + 1
                    &&& after.fek is Some
                    &&& self.fek is Some ==> after.fek == self.fek
                    &&& c.data@.len() == data.len() + CHUNK_HEADER_SIZE
                    &&& frame_index(c.data@) == self.chunk_index
                    &&& frame_payload_len(c.data@) == data.len() + MAC_SIZE
                    &&& opened_frame_at(c.data@, after.fek->0, self.chunk_index as int) == Ok::<
                        Seq<u8>,
                        ErrorKind,
                    >(data)
                }
                &&& !self.encrypts() ==> c.data@ == data && after.fek == self.fek
                &&& c.report is Some <==> update_due(
                    self.throttler,
                    now_ms,
                    after.bytes_read,
                    self.total_bytes,
                )
                &&& c.report is Some ==> c.report->0 == (Progress {
                    bytes_processed: after.bytes_read,
                    total_bytes: self.total_bytes,
                })
                &&& after.throttler == if c.report is Some {
                    ThrottlerView {
                        last_update_ms: now_ms,
                        update_interval_ms: self.throttler.update_interval_ms,
                        last_bytes_processed: after.bytes_read,
                        last_bytes_transferred: self.total_bytes,
                    }
                } else {
                    self.throttler
                }
            },
            Err(kind) => {
                &&& kind == self.failure()
                &&& self.encrypts()
                &&& after.bytes_read == self.bytes_read
                &&& after.chunk_index == self.chunk_index
                &&& after.throttler == self.throttler
            },
        }
    }
}

/// The number of the chunk after chunk `index`; the numbering stops at the
/// largest number there is.
pub open spec fn next_chunk_index(index: u32) -> u32 {
    if index == u32::MAX {
        u32::MAX
    } else {
        (index + 1) as u32
    }
}

/// The master key that a session keeps: the key given, as it is, and no key
/// where none is given.
pub open spec fn kept_key(master_key: Option<Seq<u8>>) -> Seq<u8> {
    match master_key {
        Some(key) => key,
        None => Seq::empty(),
    }
}

/// What an encryption session is opened with: the file-encryption key and
/// the nonce to wrap it with.
struct KeyMaterial {
    fek: Vec<u8>,
    key_nonce: Vec<u8>,
}

/// An upload in progress.
pub struct UploadContext {
    file_path: String,
    encryption_context: Option<EncryptionContext>,
    master_key: Vec<u8>,
    bytes_read: usize,
    total_bytes: usize,
    chunk_index: u32,
    should_encrypt: bool,
    cancel_flag: Option<CancellationToken>,
    progress_throttler: ProgressThrottler,
    is_finalized: bool,
    prefix_sent: bool,
}

impl UploadContext {
    /// Whether the session is in order: an encryption session that is there
    /// is open, holds a key of 32 bytes, and wraps it under the master key.
    /// Every operation asks for it and keeps it.
    pub closed spec fn wf(&self) -> bool {
        match self.encryption_context {
            Some(session) => {
                &&& session.is_open()
                &&& session.fek_view().len() == KEY_SIZE
                &&& session.wrapped_view().len() == WRAPPED_FEK_SIZE
                &&& session.header_view() == header_bytes(WRAPPED_FEK_SIZE as u32)
                &&& unwrapped_key(session.wrapped_view(), self.master_key@) == Some(
                    session.fek_view(),
                )
            },
            None => true,
        }
    }

    /// What the session holds.
    pub closed spec fn view(&self) -> UploadView {
        UploadView {
            file_path: self.file_path@,
            master_key: self.master_key@,
            bytes_read: self.bytes_read,
            total_bytes: self.total_bytes,
            chunk_index: self.chunk_index,
            should_encrypt: self.should_encrypt,
            prefix_sent: self.prefix_sent,
            is_finalized: self.is_finalized,
            fek: match self.encryption_context {
                Some(session) => Some(session.fek_view()),
                None => None,
            },
            throttler: self.progress_throttler@,
        }
    }

    /// The header and the wrapped key of the encryption session, if there is
    /// one.
    pub closed spec fn prefix_view(&self) -> Option<Seq<u8>> {
        match self.encryption_context {
            Some(session) => Some(session.prefix_view()),
            None => None,
        }
    }

    /// A session that has read nothing yet.
    pub fn new(
        file_path: String,
        total_bytes: usize,
        should_encrypt: bool,
        master_key: Vec<u8>,
        cancel_flag: Option<CancellationToken>,
    ) -> (context: Self)
        ensures
            context.cancellable() == (cancel_flag is Some),
            context.wf(),
            context@ == (UploadView {
                file_path: file_path@,
                master_key: master_key@,
                bytes_read: 0,
                total_bytes,
                chunk_index: 0,
                should_encrypt,
                prefix_sent: false,
                is_finalized: false,
                fek: None,
                throttler: ThrottlerView {
                    last_update_ms: 0,
                    update_interval_ms: PROGRESS_UPDATE_INTERVAL_MS,
                    last_bytes_processed: 0,
                    last_bytes_transferred: 0,
                },
            }),
    {
        UploadContext {
            file_path,
            encryption_context: None,
            master_key,
            bytes_read: 0,
            total_bytes,
            chunk_index: 0,
            should_encrypt,
            cancel_flag,
            progress_throttler: ProgressThrottler::new(PROGRESS_UPDATE_INTERVAL_MS),
            is_finalized: false,
            prefix_sent: false,
        }
    }

    /// Whether the session has a token, so that it can be cancelled at all.
    pub closed spec fn cancellable(&self) -> bool {
        self.cancel_flag is Some
    }

    /// Whether the session's token is set at this moment; never, where it has
    /// none.
    pub fn is_cancelled(&self) -> (cancelled: bool)
        ensures
            !self.cancellable() ==> !cancelled,
    {
        is_cancelled(&self.cancel_flag)
    }

    /// The path of the file.
    pub fn file_path(&self) -> (path: &str)
        ensures
            path@ == self@.file_path,
    {
        self.file_path.as_str()
    }

    /// Bytes of the file in all, as set when the session was opened.
    pub fn upload_get_total_bytes(&self) -> (bytes: usize)
        ensures
            bytes == self@.total_bytes,
    {
        self.total_bytes
    }

    /// Bytes of the file read so far.
    pub fn upload_get_bytes_processed(&self) -> (bytes: usize)
        ensures
            bytes == self@.bytes_read,
    {
        self.bytes_read
    }

    /// Number of the next chunk.
    pub fn chunk_index(&self) -> (index: u32)
        ensures
            index == self@.chunk_index,
    {
        self.chunk_index
    }

    /// Opens the encryption session with the file-encryption key and the
    /// nonce given, where the upload needs one: where it is encrypted and
    /// none is open yet. Else nothing changes.
    ///
    /// Succeeds exactly when [`UploadView::opens_with`] holds; where it
    /// fails, the session stays as it was.
    pub fn open_session_with(&mut self, fek: &[u8], key_nonce: &[u8]) -> (outcome: Result<
        (),
        ErrorKind,
    >)
        requires
            old(self).wf(),
        ensures
            final(self).cancellable() == old(self).cancellable(),
            final(self).wf(),
            outcome is Ok <==> old(self)@.opens_with(fek@, key_nonce@),
            outcome is Err ==> outcome->Err_0 == old(self)@.failure() && final(self)@ == old(self)@ && final(self).prefix_view() == old(self).prefix_view(),
            outcome is Ok ==> final(self)@ == (UploadView {
                fek: old(self)@.fek_with(fek@),
                ..old(self)@
            }),
            outcome is Ok && !old(self)@.needs_session() ==> final(self).prefix_view() == old(self).prefix_view(),
            outcome is Ok && old(self)@.needs_session() ==> final(self).prefix_view() == Some(
                header_bytes(WRAPPED_FEK_SIZE as u32) + wrapped_key(
                    fek@,
                    old(self)@.master_key,
                    key_nonce@,
                ),
            ),
            outcome is Ok && old(self)@.encrypts() ==> final(self)@.fek is Some && final(self).prefix_view() is Some && final(self).prefix_view()->0.len() == 72,
    {
        if !(self.should_encrypt && self.master_key.len() > 0) || self.encryption_context.is_some() {
            return Ok(());
        }
        if self.master_key.len() != KEY_SIZE {
            return Err(ErrorKind::InvalidKeySize);
        }
        match encrypt_file_init_with(self.master_key.as_slice(), fek, key_nonce) {
            Ok(session) => {
                self.encryption_context = Some(session);
                Ok(())
            },
            Err(_) => Err(ErrorKind::EncryptionFailed),
        }
    }

    /// Draws what a session is opened with, a file-encryption key and the
    /// nonce to wrap it with, where `wanted` and the upload needs a session
    /// that its master key allows; else hands back two empty strings. Nothing
    /// comes back where the random source does not deliver.
    fn draw_key_material(&self, wanted: bool) -> (material: Option<KeyMaterial>)
        ensures
            material is None ==> wanted && self@.needs_session() && self@.master_key.len()
                == KEY_SIZE,
            material is Some && wanted && self@.master_key.len() == KEY_SIZE ==> self@.opens_with(
                material->0.fek@,
                material->0.key_nonce@,
            ),
    {
        if wanted && self.should_encrypt && self.master_key.len() == KEY_SIZE
            && self.encryption_context.is_none() {
            let fek = match os_random(KEY_SIZE) {
                Some(fresh) => fresh,
                None => {
                    return None;
                },
            };
            let key_nonce = match os_random(NONCE_SIZE) {
                Some(fresh) => fresh,
                None => {
                    return None;
                },
            };
            Some(KeyMaterial { fek, key_nonce })
        } else {
            Some(KeyMaterial { fek: Vec::new(), key_nonce: Vec::new() })
        }
    }

    /// The header and the wrapped key that go before the first chunk, with
    /// the file-encryption key and the nonce given for a session that is yet
    /// to be opened: twelve zero bytes and no key where the upload is not
    /// encrypted. Once they are handed out here they are not handed out by
    /// [`Self::next_step_polled`] again.
    ///
    /// An encrypted upload succeeds exactly when [`UploadView::opens_with`]
    /// holds. A session that is opened here wraps the key given with the
    /// nonce given; one that was open hands out what it holds.
    pub fn upload_get_header_with(&mut self, fek: &[u8], key_nonce: &[u8]) -> (prefix: Result<
        (Vec<u8>, Vec<u8>),
        ErrorKind,
    >)
        requires
            old(self).wf(),
        ensures
            final(self).cancellable() == old(self).cancellable(),
            final(self).wf(),
            !old(self)@.encrypts() ==> prefix is Ok && prefix->Ok_0.0@ == Seq::new(
                12,
                |i: int| 0u8,
            ) && prefix->Ok_0.1@.len() == 0 && final(self)@ == old(self)@,
            prefix is Ok <==> old(self)@.opens_with(fek@, key_nonce@),
            old(self)@.encrypts() && prefix is Ok ==> {
                &&& prefix->Ok_0.0@ == header_bytes(WRAPPED_FEK_SIZE as u32)
                &&& prefix->Ok_0.1@.len() == WRAPPED_FEK_SIZE
                &&& final(self)@.fek == old(self)@.fek_with(fek@)
                &&& final(self)@.fek is Some
                &&& unwrapped_key(prefix->Ok_0.1@, old(self)@.master_key) == final(self)@.fek
                &&& final(self).prefix_view() == Some(prefix->Ok_0.0@ + prefix->Ok_0.1@)
                &&& final(self)@ == (UploadView {
                    fek: final(self)@.fek,
                    prefix_sent: true,
                    ..old(self)@
                })
            },
            prefix is Ok && old(self)@.needs_session() ==> prefix->Ok_0.1@ == wrapped_key(
                fek@,
                old(self)@.master_key,
                key_nonce@,
            ),
            prefix is Ok && old(self)@.encrypts() && !old(self)@.needs_session() ==> old(self).prefix_view() == Some(prefix->Ok_0.0@ + prefix->Ok_0.1@),
            prefix is Err ==> final(self)@ == old(self)@ && prefix->Err_0 == old(self)@.failure()
                && final(self).prefix_view() == old(self).prefix_view(),
    {
        if !(self.should_encrypt && self.master_key.len() > 0) {
            let mut header: Vec<u8> = Vec::new();
            let mut i: usize = 0;
            while i < 12
                invariant
                    i <= 12,
                    header@ == Seq::new(i as nat, |k: int| 0u8),
                decreases 12 - i,
            {
                header.push(0u8);
                i += 1;
                assert(header@ =~= Seq::new(i as nat, |k: int| 0u8));
            }
            return Ok((header, Vec::new()));
        }
        match self.open_session_with(fek, key_nonce) {
            Ok(()) => {},
            Err(kind) => {
                return Err(kind);
            },
        }
        self.prefix_sent = true;
        match &self.encryption_context {
            Some(session) => {
                let mut header: Vec<u8> = Vec::new();
                append_bytes(&mut header, session.header().as_slice());
                let wrapped = crate::session::encrypt_file_get_wrapped_fek(session);
                proof {
                    let whole = header@ + wrapped@;
                    assert(whole.subrange(12, 72) =~= wrapped@);
                    if old(self)@.needs_session() {
                        let made = header_bytes(WRAPPED_FEK_SIZE as u32) + wrapped_key(
                            fek@,
                            old(self)@.master_key,
                            key_nonce@,
                        );
                        assert(made.subrange(12, 72) =~= wrapped_key(
                            fek@,
                            old(self)@.master_key,
                            key_nonce@,
                        ));
                    }
                }
                Ok((header, wrapped))
            },
            None => Err(ErrorKind::EncryptionFailed),
        }
    }

    /// The header and the wrapped key that go before the first chunk, as
    /// [`Self::upload_get_header_with`] hands them out with a key and a nonce
    /// drawn from the random source where a session is yet to be opened.
    pub fn upload_get_header(&mut self) -> (prefix: Result<(Vec<u8>, Vec<u8>), ErrorKind>)
        requires
            old(self).wf(),
        ensures
            final(self).cancellable() == old(self).cancellable(),
            final(self).wf(),
            !old(self)@.encrypts() ==> prefix is Ok && prefix->Ok_0.0@ == Seq::new(
                12,
                |i: int| 0u8,
            ) && prefix->Ok_0.1@.len() == 0 && final(self)@ == old(self)@,
            old(self)@.encrypts() && prefix is Ok ==> {
                &&& prefix->Ok_0.0@ == header_bytes(WRAPPED_FEK_SIZE as u32)
                &&& prefix->Ok_0.1@.len() == WRAPPED_FEK_SIZE
                &&& final(self)@.fek is Some
                &&& unwrapped_key(prefix->Ok_0.1@, old(self)@.master_key) == final(self)@.fek
                &&& final(self).prefix_view() == Some(prefix->Ok_0.0@ + prefix->Ok_0.1@)
                &&& final(self)@ == (UploadView {
                    fek: final(self)@.fek,
                    prefix_sent: true,
                    ..old(self)@
                })
            },
            prefix is Err ==> final(self)@ == old(self)@ && prefix->Err_0 == old(self)@.failure(),
            old(self)@.encrypts() && old(self)@.master_key.len() != KEY_SIZE ==> prefix is Err,
            old(self)@.encrypts() && old(self)@.fek is Some ==> prefix is Ok && final(self)@.fek
                == old(self)@.fek,
    {
        match self.draw_key_material(true) {
            Some(material) => self.upload_get_header_with(
                material.fek.as_slice(),
                material.key_nonce.as_slice(),
            ),
            None => Err(ErrorKind::EncryptionFailed),
        }
    }

    /// Says what comes next, given what the poll of the token gave and the
    /// file-encryption key and nonce for a session that is yet to be opened.
    /// A token that is set stops the session before anything is read or sent.
    /// An encrypted upload hands out its prefix first; then the file is read
    /// chunk by chunk until it is through.
    ///
    /// The prefix is handed out exactly when [`UploadView::opens_with`]
    /// holds. A session that is opened here wraps the key given with the
    /// nonce given; one that was open hands out what it holds.
    pub fn next_step_with(&mut self, cancelled: bool, fek: &[u8], key_nonce: &[u8]) -> (step:
        UploadStep)
        requires
            old(self).wf(),
        ensures
            final(self).cancellable() == old(self).cancellable(),
            final(self).wf(),
            old(self)@.steps_to(final(self)@, final(self).prefix_view(), step@, cancelled),
            !cancelled && old(self)@.encrypts() && !old(self)@.prefix_sent ==> (step@ is Prefix
                <==> old(self)@.opens_with(fek@, key_nonce@)),
            step@ is Prefix ==> final(self)@.fek == old(self)@.fek_with(fek@),
            step@ is Prefix && old(self)@.needs_session() ==> step@->data == header_bytes(
                WRAPPED_FEK_SIZE as u32,
            ) + wrapped_key(fek@, old(self)@.master_key, key_nonce@),
            step@ is Prefix && !old(self)@.needs_session() ==> Some(step@->data) == old(self).prefix_view(),
            !(step@ is Prefix) ==> final(self).prefix_view() == old(self).prefix_view(),
    {
        if cancelled {
            return UploadStep::Stop { kind: ErrorKind::Cancelled };
        }
        if self.should_encrypt && self.master_key.len() > 0 && !self.prefix_sent {
            match self.open_session_with(fek, key_nonce) {
                Ok(()) => {},
                Err(kind) => {
                    return UploadStep::Stop { kind };
                },
            }
            self.prefix_sent = true;
            return match &self.encryption_context {
                Some(session) => UploadStep::Prefix { data: session.prefix() },
                None => UploadStep::Stop { kind: ErrorKind::EncryptionFailed },
            };
        }
        if self.bytes_read >= self.total_bytes {
            return UploadStep::Done;
        }
        let left = self.total_bytes - self.bytes_read;
        let len = if left > DEFAULT_CHUNK_SIZE {
            DEFAULT_CHUNK_SIZE
        } else {
            left
        };
        UploadStep::Read { len }
    }

    /// Says what comes next, given what the poll of the token gave: as
    /// [`Self::next_step_with`] does with a key and a nonce drawn from the
    /// random source where a session is yet to be opened.
    pub fn next_step_polled(&mut self, cancelled: bool) -> (step: UploadStep)
        requires
            old(self).wf(),
        ensures
            final(self).cancellable() == old(self).cancellable(),
            final(self).wf(),
            old(self)@.steps_to(final(self)@, final(self).prefix_view(), step@, cancelled),
    {
        match self.draw_key_material(!cancelled && !self.prefix_sent) {
            Some(material) => self.next_step_with(
                cancelled,
                material.fek.as_slice(),
                material.key_nonce.as_slice(),
            ),
            None => UploadStep::Stop { kind: ErrorKind::EncryptionFailed },
        }
    }

    /// Polls the token and says what comes next: as [`Self::next_step_polled`]
    /// does with what the poll gave. A session without a token is never
    /// cancelled. Nothing is read or counted by this call.
    pub fn upload_process_chunk(&mut self) -> (step: UploadStep)
        requires
            old(self).wf(),
        ensures
            final(self).cancellable() == old(self).cancellable(),
            final(self).wf(),
            exists|cancelled: bool|
                (!old(self).cancellable() ==> !cancelled) && #[trigger] old(self)@.steps_to(
                    final(self)@,
                    final(self).prefix_view(),
                    step@,
                    cancelled,
                ),
            !old(self).cancellable() ==> old(self)@.steps_to(
                final(self)@,
                final(self).prefix_view(),
                step@,
                false,
            ),
            final(self)@.bytes_read == old(self)@.bytes_read,
            final(self)@.chunk_index == old(self)@.chunk_index,
            final(self)@.total_bytes == old(self)@.total_bytes,
    {
        let cancelled = self.is_cancelled();
        self.next_step_polled(cancelled)
    }

    /// Takes the bytes that the host read, at the moment `now_ms` of the
    /// throttler's clock, and hands back the chunk to send: the bytes
    /// themselves where the upload is not encrypted, and where it is, the
    /// frame that carries the number of the chunk and holds the bytes sealed
    /// with `chunk_nonce` under the session's key. A session that is yet to
    /// be opened is opened with `fek` and `key_nonce`. The bytes are counted,
    /// and the chunks are numbered 0, 1, 2 and so on. Progress is that of the
    /// file, not of what is sent.
    ///
    /// An encrypted upload succeeds exactly when the chunk can be sealed, the
    /// session is open or opens, and the nonce for the chunk has 12 bytes. It
    /// fails with `InvalidKeySize` exactly where the master key does not have
    /// 32 bytes, and else with `EncryptionFailed`; the session then stays as
    /// it was.
    pub fn chunk_read_with(
        &mut self,
        data: &[u8],
        now_ms: u64,
        fek: &[u8],
        key_nonce: &[u8],
        chunk_nonce: &[u8],
    ) -> (chunk: Result<UploadChunk, ErrorKind>)
        requires
            old(self).wf(),
        ensures
            final(self).cancellable() == old(self).cancellable(),
            final(self).wf(),
            final(self)@.bytes_read >= old(self)@.bytes_read,
            old(self)@.reads_to(final(self)@, data@, now_ms, chunk),
            old(self)@.encrypts() ==> (chunk is Ok <==> !old(self)@.cannot_seal(data@.len())
                && old(self)@.opens_with(fek@, key_nonce@) && chunk_nonce@.len() == NONCE_SIZE),
            chunk is Ok && old(self)@.encrypts() ==> final(self)@.fek == old(self)@.fek_with(fek@)
                && chunk->Ok_0.data@ == sealed_frame(
                data@,
                final(self)@.fek->0,
                old(self)@.chunk_index,
                chunk_nonce@,
            ),
            chunk is Ok && old(self)@.needs_session() ==> final(self).prefix_view() == Some(
                header_bytes(WRAPPED_FEK_SIZE as u32) + wrapped_key(
                    fek@,
                    old(self)@.master_key,
                    key_nonce@,
                ),
            ),
            chunk is Ok && !old(self)@.needs_session() ==> final(self).prefix_view() == old(self).prefix_view(),
            chunk is Err ==> final(self)@ == old(self)@ && final(self).prefix_view() == old(self).prefix_view(),
    {
        let index = self.chunk_index;
        let out: Vec<u8> = if self.should_encrypt && self.master_key.len() > 0 {
            if self.master_key.len() != KEY_SIZE {
                return Err(ErrorKind::InvalidKeySize);
            }
            if index == u32::MAX || data.len() > 0xFFFF_FFEF || !fits_with_tag(data.len())
                || chunk_nonce.len() != NONCE_SIZE {
                return Err(ErrorKind::EncryptionFailed);
            }
            match self.open_session_with(fek, key_nonce) {
                Ok(()) => {},
                Err(kind) => {
                    return Err(kind);
                },
            }
            let sealed = match &mut self.encryption_context {
                Some(session) => encrypt_chunk_with(session, data, index, chunk_nonce),
                None => None,
            };
            assert(sealed is Some);
            match sealed {
                Some(frame) => frame,
                None => {
                    return Err(ErrorKind::EncryptionFailed);
                },
            }
        } else {
            let mut copy: Vec<u8> = Vec::new();
            append_bytes(&mut copy, data);
            copy
        };
        let len = data.len();
        self.bytes_read = if len > usize::MAX - self.bytes_read {
            usize::MAX
        } else {
            self.bytes_read + len
        };
        self.chunk_index = if index == u32::MAX {
            u32::MAX
        } else {
            index + 1
        };
        let report = if self.progress_throttler.should_update_at(
            now_ms,
            self.bytes_read,
            self.total_bytes,
        ) {
            Some(Progress { bytes_processed: self.bytes_read, total_bytes: self.total_bytes })
        } else {
            None
        };
        Ok(UploadChunk { data: out, chunk_index: index, plaintext_len: len, report })
    }

    /// Draws the nonce for a chunk where the upload seals its chunks and its
    /// master key allows it; else hands back an empty string. Nothing comes
    /// back where the random source does not deliver.
    fn draw_chunk_nonce(&self) -> (nonce: Option<Vec<u8>>)
        ensures
            nonce is None ==> self@.encrypts() && self@.master_key.len() == KEY_SIZE,
            nonce is Some && self@.encrypts() && self@.master_key.len() == KEY_SIZE
                ==> nonce->0@.len() == NONCE_SIZE,
    {
        if self.should_encrypt && self.master_key.len() == KEY_SIZE {
            os_random(NONCE_SIZE)
        } else {
            Some(Vec::new())
        }
    }

    /// Takes the bytes that the host read, at the moment `now_ms` of the
    /// throttler's clock: as [`Self::chunk_read_with`] does with a nonce
    /// drawn from the random source for the chunk, and with a key and a nonce
    /// drawn for a session that is yet to be opened.
    ///
    /// Fails with `InvalidKeySize` exactly where the master key of an
    /// encrypted upload does not have 32 bytes, and with `EncryptionFailed`
    /// where the chunk cannot be sealed or the random source does not
    /// deliver; the chunk is then not counted.
    pub fn chunk_read_at(&mut self, data: &[u8], now_ms: u64) -> (chunk: Result<
        UploadChunk,
        ErrorKind,
    >)
        requires
            old(self).wf(),
        ensures
            final(self).cancellable() == old(self).cancellable(),
            final(self).wf(),
            final(self)@.bytes_read >= old(self)@.bytes_read,
            old(self)@.reads_to(final(self)@, data@, now_ms, chunk),
    {
        let chunk_nonce = match self.draw_chunk_nonce() {
            Some(nonce) => nonce,
            None => {
                return Err(ErrorKind::EncryptionFailed);
            },
        };
        match self.draw_key_material(true) {
            Some(material) => self.chunk_read_with(
                data,
                now_ms,
                material.fek.as_slice(),
                material.key_nonce.as_slice(),
                chunk_nonce.as_slice(),
            ),
            None => Err(ErrorKind::EncryptionFailed),
        }
    }

    /// Takes the bytes that the host read, now: as [`Self::chunk_read_at`] at
    /// the moment that the throttler's clock shows. A plain upload always
    /// gets its bytes back, counted; an encrypted one gets the frame of the
    /// chunk, unless the chunk cannot be sealed or the random source does not
    /// deliver. The last chunk of the file is always reported.
    pub fn chunk_read(&mut self, data: &[u8]) -> (chunk: Result<UploadChunk, ErrorKind>)
        requires
            old(self).wf(),
        ensures
            final(self).cancellable() == old(self).cancellable(),
            final(self).wf(),
            final(self)@.bytes_read >= old(self)@.bytes_read,
            exists|now_ms: u64| #[trigger]
                old(self)@.reads_to(final(self)@, data@, now_ms, chunk),
            !old(self)@.encrypts() ==> chunk is Ok && chunk->Ok_0.data@ == data@,
            old(self)@.cannot_seal(data@.len()) ==> chunk is Err,
            chunk is Ok ==> {
                &&& chunk->Ok_0.chunk_index == old(self)@.chunk_index
                &&& chunk->Ok_0.plaintext_len == data@.len()
                &&& final(self)@.chunk_index == next_chunk_index(old(self)@.chunk_index)
                &&& final(self)@.bytes_read == crate::copy::bytes_after(
                    old(self)@.bytes_read,
                    data@.len() as usize,
                )
                &&& final(self)@.bytes_read == old(self)@.total_bytes ==> chunk->Ok_0.report
                    == Some(
                    Progress {
                        bytes_processed: final(self)@.bytes_read,
                        total_bytes: old(self)@.total_bytes,
                    },
                )
            },
            chunk is Ok && old(self)@.encrypts() ==> final(self)@.fek is Some && opened_frame_at(
                chunk->Ok_0.data@,
                final(self)@.fek->0,
                old(self)@.chunk_index as int,
            ) == Ok::<Seq<u8>, ErrorKind>(data@),
            chunk is Err ==> final(self)@.bytes_read == old(self)@.bytes_read
                && final(self)@.chunk_index == old(self)@.chunk_index,
    {
        let now_ms = self.progress_throttler.clock_ms();
        self.chunk_read_at(data, now_ms)
    }

    /// Ends the session: the encryption session is closed and its key wiped.
    /// Ending a session twice changes nothing.
    pub fn upload_finalize(&mut self) -> (outcome: ErrorKind)
        ensures
            final(self).cancellable() == old(self).cancellable(),
            outcome == ErrorKind::Success,
            final(self)@.is_finalized,
            final(self)@.bytes_read == old(self)@.bytes_read,
            final(self)@.total_bytes == old(self)@.total_bytes,
            final(self)@.chunk_index == old(self)@.chunk_index,
    {
        match &mut self.encryption_context {
            Some(session) => {
                encrypt_file_finalize(session);
            },
            None => {},
        }
        self.is_finalized = true;
        ErrorKind::Success
    }
}

/// What a step says, as plain values.
pub enum UploadStepView {
    Prefix { data: Seq<u8> },
    Read { len: usize },
    Done,
    Stop { kind: ErrorKind },
}

impl View for UploadStep {
    type V = UploadStepView;

    open spec fn view(&self) -> UploadStepView {
        match self {
            UploadStep::Prefix { data } => UploadStepView::Prefix { data: data@ },
            UploadStep::Read { len } => UploadStepView::Read { len: *len },
            UploadStep::Done => UploadStepView::Done,
            UploadStep::Stop { kind } => UploadStepView::Stop { kind: *kind },
        }
    }
}

/// Opens an upload session for a file of `total_bytes` bytes. Without a
/// master key, or with an empty one, the upload goes out as it is. A master
/// key is kept whatever its length: an upload that is to be encrypted under a
/// key that does not have 32 bytes stops with `InvalidKeySize` at its first
/// step, and sends nothing.
pub fn upload_init(
    file_path: String,
    total_bytes: usize,
    master_key: Option<&[u8]>,
    should_encrypt: bool,
    cancel_flag: Option<CancellationToken>,
) -> (context: UploadContext)
    ensures
        context.cancellable() == (cancel_flag is Some),
        context.wf(),
        context@ == (UploadView {
            file_path: file_path@,
            master_key: kept_key(
                match master_key {
                    Some(key) => Some(key@),
                    None => None,
                },
            ),
            bytes_read: 0,
            total_bytes,
            chunk_index: 0,
            should_encrypt,
            prefix_sent: false,
            is_finalized: false,
            fek: None,
            throttler: ThrottlerView {
                last_update_ms: 0,
                update_interval_ms: PROGRESS_UPDATE_INTERVAL_MS,
                last_bytes_processed: 0,
                last_bytes_transferred: 0,
            },
        }),
{
    let mut key: Vec<u8> = Vec::new();
    match master_key {
        Some(given) => {
            append_bytes(&mut key, given);
        },
        None => {},
    }
    UploadContext::new(file_path, total_bytes, should_encrypt, key, cancel_flag)
}

} // verus!
