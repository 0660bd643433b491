//! Streaming encryption and decryption sessions, one chunk at a time.

use crate::container::{
    append_bytes, build_header, decrypt_chunk_impl, encrypt_chunk_with_nonce, frame_index,
    frame_nonce, frame_payload_len, frameable, header_bytes, header_fields, opened_frame,
    parse_header, sealed_frame, unwrap_key, unwrapped_key, wrap_key_with_nonce, wrapped_key,
    CHUNK_HEADER_SIZE, FRAME_HEADER_SIZE, HEADER_SIZE, MAGIC, VERSION,
};
use crate::error::ErrorKind;
use crate::le_bytes::{le32_bytes, lemma_le32_of_bytes, u32_from_le};
use crate::primitives::{os_random, KEY_SIZE, MAC_SIZE, NONCE_SIZE};
use vstd::prelude::*;
use vstd::slice::slice_subrange;

verus! {

/// Length of a wrapped 32-byte key: nonce, key and tag.
pub const WRAPPED_FEK_SIZE: usize = 60;

/// Length of what precedes the first frame of a container: the header and the
/// wrapped key.
pub const PREFIX_SIZE: usize = 72;

/// `len` zero bytes.
pub open spec fn zero_bytes(len: nat) -> Seq<u8> {
    Seq::new(len, |i: int| 0u8)
}

/// An encryption session: a file-encryption key, that key wrapped under the
/// master key, the header that announces it, and the index of the chunk
/// sealed last. It is open from creation until it is finalized.
pub struct EncryptionContext {
    fek: Vec<u8>,
    wrapped_fek: Vec<u8>,
    header: [u8; 12],
    chunk_index: u32,
    open: bool,
}

impl EncryptionContext {
    /// The file-encryption key; all zero once the session is closed.
    pub closed spec fn fek_view(&self) -> Seq<u8> {
        self.fek@
    }

    /// The file-encryption key as wrapped under the master key.
    pub closed spec fn wrapped_view(&self) -> Seq<u8> {
        self.wrapped_fek@
    }

    /// The header of the container.
    pub closed spec fn header_view(&self) -> Seq<u8> {
        self.header@
    }

    /// Index given with the latest chunk; 0 before the first.
    pub closed spec fn index_view(&self) -> u32 {
        self.chunk_index
    }

    /// Whether the session still accepts chunks.
    pub closed spec fn is_open(&self) -> bool {
        self.open
    }

    /// What a container starts with: the header, then the wrapped key.
    pub open spec fn prefix_view(&self) -> Seq<u8> {
        self.header_view() + self.wrapped_view()
    }

    /// The header of the container.
    pub fn header(&self) -> (header: [u8; 12])
        ensures
            header@ == self.header_view(),
    {
        self.header
    }

    /// Index given with the latest chunk; 0 before the first.
    pub fn chunk_index(&self) -> (index: u32)
        ensures
            index == self.index_view(),
    {
        self.chunk_index
    }

    /// Whether the session still accepts chunks.
    pub fn accepts_chunks(&self) -> (open: bool)
        ensures
            open == self.is_open(),
    {
        self.open
    }

    /// The bytes that come before the first frame: header, then wrapped key.
    pub fn prefix(&self) -> (bytes: Vec<u8>)
        ensures
            bytes@ == self.prefix_view(),
    {
        let mut bytes: Vec<u8> = Vec::new();
        append_bytes(&mut bytes, self.header.as_slice());
        append_bytes(&mut bytes, self.wrapped_fek.as_slice());
        bytes
    }
}

/// Opens an encryption session under `master_key` with the file-encryption
/// key given, wrapped at once with the nonce given.
///
/// Succeeds exactly when both keys have 32 bytes and the nonce 12. Fails with
/// `InvalidKeySize` where one of the keys is not 32 bytes long, and else with
/// `EncryptionFailed`.
pub fn encrypt_file_init_with(master_key: &[u8], fek: &[u8], key_nonce: &[u8]) -> (session: Result<
    EncryptionContext,
    ErrorKind,
>)
    ensures
        session is Ok <==> master_key@.len() == KEY_SIZE && fek@.len() == KEY_SIZE
            && key_nonce@.len() == NONCE_SIZE,
        session matches Err(kind) ==> kind == (if master_key@.len() != KEY_SIZE || fek@.len()
            != KEY_SIZE {
            ErrorKind::InvalidKeySize
        } else {
            ErrorKind::EncryptionFailed
        }),
        session matches Ok(s) ==> {
            &&& s.is_open()
            &&& s.index_view() == 0
            &&& s.fek_view() == fek@
            &&& s.wrapped_view() == wrapped_key(fek@, master_key@, key_nonce@)
            &&& s.wrapped_view().len() == WRAPPED_FEK_SIZE
            &&& s.header_view() == header_bytes(WRAPPED_FEK_SIZE as u32)
            &&& unwrapped_key(s.wrapped_view(), master_key@) == Some(s.fek_view())
        },
{
    if master_key.len() != KEY_SIZE || fek.len() != KEY_SIZE {
        return Err(ErrorKind::InvalidKeySize);
    }
    let wrapped_fek = wrap_key_with_nonce(fek, master_key, key_nonce);
    if wrapped_fek.len() == 0 {
        return Err(ErrorKind::EncryptionFailed);
    }
    let mut key: Vec<u8> = Vec::new();
    append_bytes(&mut key, fek);
    let header = build_header(wrapped_fek.len() as u32);
    Ok(EncryptionContext { fek: key, wrapped_fek, header, chunk_index: 0, open: true })
}

/// Opens an encryption session under `master_key`, as
/// [`encrypt_file_init_with`] does with a nonce drawn from the random source.
/// With no `fek` a fresh file-encryption key is drawn too.
///
/// Fails with `InvalidKeySize` exactly when the master key, or a key given,
/// is not 32 bytes long; with `EncryptionFailed` where the random source does
/// not deliver.
pub fn encrypt_file_init(master_key: &[u8], fek: Option<&[u8]>) -> (session: Result<
    EncryptionContext,
    ErrorKind,
>)
    ensures
        session == Err::<EncryptionContext, ErrorKind>(ErrorKind::InvalidKeySize) <==> (
        master_key@.len() != KEY_SIZE || (fek is Some && fek->0@.len() != KEY_SIZE)),
        session is Err ==> session->Err_0 == ErrorKind::InvalidKeySize || session->Err_0
            == ErrorKind::EncryptionFailed,
        session is Ok ==> {
            let s = session->Ok_0;
            &&& s.is_open()
            &&& s.index_view() == 0
            &&& s.fek_view().len() == KEY_SIZE
            &&& fek is Some ==> s.fek_view() == fek->0@
            &&& s.wrapped_view().len() == WRAPPED_FEK_SIZE
            &&& s.wrapped_view() == wrapped_key(
                s.fek_view(),
                master_key@,
                s.wrapped_view().subrange(0, NONCE_SIZE as int),
            )
            &&& s.header_view() == header_bytes(WRAPPED_FEK_SIZE as u32)
            &&& unwrapped_key(s.wrapped_view(), master_key@) == Some(s.fek_view())
        },
{
    if master_key.len() != KEY_SIZE {
        return Err(ErrorKind::InvalidKeySize);
    }
    let key: Vec<u8> = match fek {
        Some(given) => {
            if given.len() != KEY_SIZE {
                return Err(ErrorKind::InvalidKeySize);
            }
            let mut copy: Vec<u8> = Vec::new();
            append_bytes(&mut copy, given);
            copy
        },
        None => match os_random(KEY_SIZE) {
            Some(fresh) => fresh,
            None => {
                return Err(ErrorKind::EncryptionFailed);
            },
        },
    };
    let key_nonce = match os_random(NONCE_SIZE) {
        Some(fresh) => fresh,
        None => {
            return Err(ErrorKind::EncryptionFailed);
        },
    };
    let session = encrypt_file_init_with(master_key, key.as_slice(), key_nonce.as_slice());
    proof {
        if session is Ok {
            let wrapped = session->Ok_0.wrapped_view();
            assert(wrapped.subrange(0, NONCE_SIZE as int) =~= key_nonce@);
        }
    }
    session
}

/// Seals one chunk in the session with the nonce given and frames it with
/// `chunk_index`, which an open session records. The caller numbers the
/// chunks 0, 1, 2, ...; the session does not hold it to that.
///
/// A frame comes back exactly when the session is open, its key has 32
/// bytes, the nonce has 12 and the chunk fits a frame.
pub fn encrypt_chunk_with(
    context: &mut EncryptionContext,
    chunk_data: &[u8],
    chunk_index: u32,
    nonce: &[u8],
) -> (frame: Option<Vec<u8>>)
    ensures
        final(context).fek_view() == old(context).fek_view(),
        final(context).wrapped_view() == old(context).wrapped_view(),
        final(context).header_view() == old(context).header_view(),
        final(context).is_open() == old(context).is_open(),
        final(context).index_view() == if old(context).is_open() {
            chunk_index
        } else {
            old(context).index_view()
        },
        frame is Some <==> old(context).is_open() && old(context).fek_view().len() == KEY_SIZE
            && nonce@.len() == NONCE_SIZE && frameable(chunk_data@.len()),
        frame is Some ==> frame->0@ == sealed_frame(
            chunk_data@,
            old(context).fek_view(),
            chunk_index,
            nonce@,
        ),
        frame is Some ==> frame->0@.len() == chunk_data@.len() + CHUNK_HEADER_SIZE,
        frame is Some ==> frame_index(frame->0@) == chunk_index,
        frame is Some ==> frame_payload_len(frame->0@) == chunk_data@.len() + MAC_SIZE,
        frame is Some ==> frame_nonce(frame->0@) == nonce@,
        frame is Some ==> opened_frame(frame->0@, old(context).fek_view()) == Ok::<
            Seq<u8>,
            ErrorKind,
        >(chunk_data@),
{
    if !context.open {
        return None;
    }
    context.chunk_index = chunk_index;
    encrypt_chunk_with_nonce(chunk_data, context.fek.as_slice(), chunk_index, nonce)
}

/// Seals one chunk in the session, as [`encrypt_chunk_with`] does with a
/// nonce drawn from the random source. Nothing comes back from a closed
/// session, for a chunk too long for a frame, or where the random source does
/// not deliver.
pub fn encrypt_chunk(context: &mut EncryptionContext, chunk_data: &[u8], chunk_index: u32) -> (frame:
    Option<Vec<u8>>)
    ensures
        final(context).fek_view() == old(context).fek_view(),
        final(context).wrapped_view() == old(context).wrapped_view(),
        final(context).header_view() == old(context).header_view(),
        final(context).is_open() == old(context).is_open(),
        final(context).index_view() == if old(context).is_open() {
            chunk_index
        } else {
            old(context).index_view()
        },
        !old(context).is_open() || old(context).fek_view().len() != KEY_SIZE || !frameable(
            chunk_data@.len(),
        ) ==> frame is None,
        frame is Some ==> frame->0@ == sealed_frame(
            chunk_data@,
            old(context).fek_view(),
            chunk_index,
            frame_nonce(frame->0@),
        ),
        frame is Some ==> frame->0@.len() == chunk_data@.len() + CHUNK_HEADER_SIZE,
        frame is Some ==> frame_index(frame->0@) == chunk_index,
        frame is Some ==> frame_payload_len(frame->0@) == chunk_data@.len() + MAC_SIZE,
        frame is Some ==> opened_frame(frame->0@, old(context).fek_view()) == Ok::<
            Seq<u8>,
            ErrorKind,
        >(chunk_data@),
{
    if !context.open {
        return None;
    }
    match os_random(NONCE_SIZE) {
        Some(nonce) => encrypt_chunk_with(context, chunk_data, chunk_index, nonce.as_slice()),
        None => {
            context.chunk_index = chunk_index;
            None
        },
    }
}

/// The wrapped file-encryption key, which follows the header in the output.
pub fn encrypt_file_get_wrapped_fek(context: &EncryptionContext) -> (wrapped: Vec<u8>)
    ensures
        wrapped@ == context.wrapped_view(),
{
    let mut wrapped: Vec<u8> = Vec::new();
    append_bytes(&mut wrapped, context.wrapped_fek.as_slice());
    wrapped
}

/// Closes the session and overwrites its key with zeros. Closing a closed
/// session changes nothing.
pub fn encrypt_file_finalize(context: &mut EncryptionContext)
    ensures
        !final(context).is_open(),
        final(context).fek_view() == zero_bytes(old(context).fek_view().len()),
        final(context).wrapped_view() == old(context).wrapped_view(),
        final(context).header_view() == old(context).header_view(),
        final(context).index_view() == old(context).index_view(),
{
    let n = context.fek.len();
    let mut zeros: Vec<u8> = Vec::new();
    let mut i: usize = 0;
    while i < n
        invariant
            i <= n,
            zeros@ == zero_bytes(i as nat),
        decreases n - i,
    {
        zeros.push(0u8);
        i += 1;
        assert(zeros@ =~= zero_bytes(i as nat));
    }
    context.fek = zeros;
    context.open = false;
}

/// A decryption session: the file-encryption key taken from a container's
/// prefix, and the index that the next frame must carry.
pub struct DecryptionContext {
    fek: Vec<u8>,
    next_index: u64,
    open: bool,
}

impl DecryptionContext {
    /// The file-encryption key; all zero once the session is closed.
    pub closed spec fn fek_view(&self) -> Seq<u8> {
        self.fek@
    }

    /// Index that the next frame must carry: the number of frames opened.
    pub closed spec fn index_view(&self) -> u64 {
        self.next_index
    }

    /// Whether the session still accepts frames.
    pub closed spec fn is_open(&self) -> bool {
        self.open
    }

    /// Index that the next frame must carry: the number of frames opened.
    pub fn chunk_index(&self) -> (index: u64)
        ensures
            index == self.index_view(),
    {
        self.next_index
    }

    /// Whether the session still accepts frames.
    pub fn accepts_chunks(&self) -> (open: bool)
        ensures
            open == self.is_open(),
    {
        self.open
    }
}

/// Length of a container's prefix as its header announces it: the header and
/// the wrapped key.
pub open spec fn announced_prefix_len(data: Seq<u8>) -> int
    recommends
        data.len() >= HEADER_SIZE,
{
    HEADER_SIZE + header_fields(data).2
}

/// The file-encryption key that the prefix of a container yields under
/// `master`. A master key that is not 32 bytes is refused as such; input
/// shorter than a header, a wrong magic or version, input shorter than the
/// header announces, and a wrapped key that does not unwrap are all a
/// malformed container.
pub open spec fn opened_prefix(data: Seq<u8>, master: Seq<u8>) -> Result<Seq<u8>, ErrorKind> {
    if master.len() != KEY_SIZE {
        Err(ErrorKind::InvalidKeySize)
    } else if data.len() < HEADER_SIZE {
        Err(ErrorKind::InvalidFormat)
    } else if header_fields(data).0 != MAGIC || header_fields(data).1 != VERSION {
        Err(ErrorKind::InvalidFormat)
    } else if data.len() < announced_prefix_len(data) {
        Err(ErrorKind::InvalidFormat)
    } else {
        match unwrapped_key(data.subrange(HEADER_SIZE as int, announced_prefix_len(data)), master) {
            Some(fek) => Ok(fek),
            None => Err(ErrorKind::InvalidFormat),
        }
    }
}

/// Opens a decryption session from the start of a container, which must hold
/// the header and the whole wrapped key. Succeeds and fails exactly as
/// [`opened_prefix`] says.
pub fn decrypt_file_init(encrypted_data: &[u8], master_key: &[u8]) -> (session: Result<
    DecryptionContext,
    ErrorKind,
>)
    ensures
        match session {
            Ok(s) => opened_prefix(encrypted_data@, master_key@) == Ok::<Seq<u8>, ErrorKind>(
                s.fek_view(),
            ) && s.is_open() && s.index_view() == 0,
            Err(kind) => opened_prefix(encrypted_data@, master_key@) == Err::<
                Seq<u8>,
                ErrorKind,
            >(kind),
        },
{
    if master_key.len() != KEY_SIZE {
        return Err(ErrorKind::InvalidKeySize);
    }
    let (magic, version, fek_length) = match parse_header(encrypted_data) {
        Ok(fields) => fields,
        Err(_) => {
            return Err(ErrorKind::InvalidFormat);
        },
    };
    if magic != MAGIC || version != VERSION {
        return Err(ErrorKind::InvalidFormat);
    }
    if encrypted_data.len() - HEADER_SIZE < fek_length {
        return Err(ErrorKind::InvalidFormat);
    }
    let wrapped = slice_subrange(encrypted_data, HEADER_SIZE, HEADER_SIZE + fek_length);
    match unwrap_key(wrapped, master_key) {
        Ok(fek) => Ok(DecryptionContext { fek, next_index: 0, open: true }),
        Err(_) => Err(ErrorKind::InvalidFormat),
    }
}

/// What opening a frame gives in a session that expects `expected` as its
/// index. A frame that is not as long as it says is malformed; one that
/// carries another index, or whose payload the cipher rejects, fails
/// decryption.
pub open spec fn opened_frame_at(frame: Seq<u8>, fek: Seq<u8>, expected: int) -> Result<
    Seq<u8>,
    ErrorKind,
> {
    if frame.len() < FRAME_HEADER_SIZE {
        Err(ErrorKind::InvalidFormat)
    } else if frame.len() != FRAME_HEADER_SIZE + frame_payload_len(frame) {
        Err(ErrorKind::InvalidFormat)
    } else if frame_index(frame) != expected {
        Err(ErrorKind::DecryptionFailed)
    } else {
        opened_frame(frame, fek)
    }
}

/// A frame with its index field set to `index`.
pub open spec fn with_index(frame: Seq<u8>, index: u32) -> Seq<u8> {
    le32_bytes(index) + frame.skip(4)
}

/// A frame with its payload-length field set to `len`.
pub open spec fn with_payload_len(frame: Seq<u8>, len: u32) -> Seq<u8> {
    frame.take(4) + le32_bytes(len) + frame.skip(8)
}

/// A frame that is as long as it says fails decryption once its index field
/// holds any index but the one that the session expects, as the index of
/// another chunk of the file does.
pub proof fn lemma_foreign_index_fails(frame: Seq<u8>, fek: Seq<u8>, expected: int, index: u32)
    requires
        frame.len() >= FRAME_HEADER_SIZE,
        frame.len() == FRAME_HEADER_SIZE + frame_payload_len(frame),
        index != expected,
    ensures
        opened_frame_at(with_index(frame, index), fek, expected) == Err::<Seq<u8>, ErrorKind>(
            ErrorKind::DecryptionFailed,
        ),
{
    let changed = with_index(frame, index);
    lemma_le32_of_bytes(index);
    assert(changed.len() == frame.len());
    assert(changed[0] == le32_bytes(index)[0] && changed[1] == le32_bytes(index)[1] && changed[2]
        == le32_bytes(index)[2] && changed[3] == le32_bytes(index)[3]);
    assert(changed[4] == frame[4] && changed[5] == frame[5] && changed[6] == frame[6]
        && changed[7] == frame[7]);
    assert(frame_index(changed) == index);
    assert(frame_payload_len(changed) == frame_payload_len(frame));
}

/// A frame that is as long as it says is malformed once its payload-length
/// field holds any other length, as that of a chunk of another size does.
pub proof fn lemma_foreign_length_fails(frame: Seq<u8>, fek: Seq<u8>, expected: int, len: u32)
    requires
        frame.len() >= FRAME_HEADER_SIZE,
        frame.len() == FRAME_HEADER_SIZE + frame_payload_len(frame),
        len != frame_payload_len(frame),
    ensures
        opened_frame_at(with_payload_len(frame, len), fek, expected) == Err::<Seq<u8>, ErrorKind>(
            ErrorKind::InvalidFormat,
        ),
{
    let changed = with_payload_len(frame, len);
    lemma_le32_of_bytes(len);
    assert(changed.len() == frame.len());
    assert(changed[4] == le32_bytes(len)[0] && changed[5] == le32_bytes(len)[1] && changed[6]
        == le32_bytes(len)[2] && changed[7] == le32_bytes(len)[3]);
    assert(frame_payload_len(changed) == len);
}

/// Opens the next frame of the session. `encrypted_chunk` must be exactly one
/// frame, and its index must be the number of frames that the session has
/// opened. On success the session moves on to the next index; on failure it
/// stays where it is. A closed session fails decryption.
pub fn decrypt_chunk(context: &mut DecryptionContext, encrypted_chunk: &[u8]) -> (plain: Result<
    Vec<u8>,
    ErrorKind,
>)
    ensures
        final(context).fek_view() == old(context).fek_view(),
        final(context).is_open() == old(context).is_open(),
        !old(context).is_open() ==> plain == Err::<Vec<u8>, ErrorKind>(
            ErrorKind::DecryptionFailed,
        ),
        old(context).is_open() ==> match plain {
            Ok(bytes) => opened_frame_at(
                encrypted_chunk@,
                old(context).fek_view(),
                old(context).index_view() as int,
            ) == Ok::<Seq<u8>, ErrorKind>(bytes@),
            Err(kind) => opened_frame_at(
                encrypted_chunk@,
                old(context).fek_view(),
                old(context).index_view() as int,
            ) == Err::<Seq<u8>, ErrorKind>(kind),
        },
        final(context).index_view() == if plain is Ok {
            old(context).index_view() + 1
        } else {
            old(context).index_view() as int
        },
        plain is Ok ==> plain->Ok_0@.len() + CHUNK_HEADER_SIZE == encrypted_chunk@.len(),
        plain is Ok ==> old(context).index_view() <= u32::MAX,
{
    if !context.open {
        return Err(ErrorKind::DecryptionFailed);
    }
    if encrypted_chunk.len() < FRAME_HEADER_SIZE {
        return Err(ErrorKind::InvalidFormat);
    }
    let payload_len = u32_from_le(encrypted_chunk, 4) as usize;
    if encrypted_chunk.len() - FRAME_HEADER_SIZE != payload_len {
        return Err(ErrorKind::InvalidFormat);
    }
    let index = u32_from_le(encrypted_chunk, 0);
    if index as u64 != context.next_index {
        return Err(ErrorKind::DecryptionFailed);
    }
    match decrypt_chunk_impl(encrypted_chunk, context.fek.as_slice()) {
        Ok((bytes, _)) => {
            context.next_index = context.next_index + 1;
            Ok(bytes)
        },
        Err(kind) => Err(kind),
    }
}

/// Closes the session and overwrites its key with zeros. Closing a closed
/// session changes nothing.
pub fn decrypt_file_finalize(context: &mut DecryptionContext)
    ensures
        !final(context).is_open(),
        final(context).fek_view() == zero_bytes(old(context).fek_view().len()),
        final(context).index_view() == old(context).index_view(),
{
    let n = context.fek.len();
    let mut zeros: Vec<u8> = Vec::new();
    let mut i: usize = 0;
    while i < n
        invariant
            i <= n,
            zeros@ == zero_bytes(i as nat),
        decreases n - i,
    {
        zeros.push(0u8);
        i += 1;
        assert(zeros@ =~= zero_bytes(i as nat));
    }
    context.fek = zeros;
    context.open = false;
}

} // verus!
