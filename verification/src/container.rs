//! The container format: a fixed header, the wrapped file-encryption key, and
//! one frame per encrypted chunk.

use crate::error::ErrorKind;
use crate::le_bytes::{le32_at, le32_bytes, lemma_le32_of_bytes, u32_from_le, u32_to_le};
use crate::primitives::{
    aead_open, aead_seal, aes_gcm_open, aes_gcm_seal, os_random, KEY_SIZE, MAC_SIZE,
    NONCE_SIZE, sealable,
};
use vstd::prelude::*;
use vstd::slice::slice_subrange;

verus! {

/// First four bytes of every container, read as a little-endian integer.
pub const MAGIC: u32 = 0x434E4552;

/// The only format version there is.
pub const VERSION: u8 = 1;

/// Length of the fixed header: magic, version, three reserved bytes, and the
/// length of the wrapped key.
pub const HEADER_SIZE: usize = 12;

/// Length of what precedes the ciphertext in a frame: index, payload length
/// and nonce.
pub const FRAME_HEADER_SIZE: usize = 20;

/// Bytes that a frame adds to its plaintext: index, payload length, nonce and
/// tag.
pub const CHUNK_HEADER_SIZE: usize = 36;

/// Plaintext bytes per chunk in whole-file operations.
pub const DEFAULT_CHUNK_SIZE: usize = 1048576;

/// Appends `src` to `dst`.
pub fn append_bytes(dst: &mut Vec<u8>, src: &[u8])
    ensures
        final(dst)@ == old(dst)@ + src@,
{
    let n = src.len();
    let mut i: usize = 0;
    while i < n
        invariant
            n == src@.len(),
            i <= n,
            dst@ == old(dst)@ + src@.subrange(0, i as int),
        decreases n - i,
    {
        dst.push(src[i]);
        i += 1;
        assert(dst@ =~= old(dst)@ + src@.subrange(0, i as int));
    }
    assert(src@.subrange(0, n as int) =~= src@);
}

/// The header of a container whose wrapped key is `fek_length` bytes long.
pub open spec fn header_bytes(fek_length: u32) -> Seq<u8> {
    le32_bytes(MAGIC) + seq![VERSION, 0u8, 0u8, 0u8] + le32_bytes(fek_length)
}

/// What a header says: magic, version, and length of the wrapped key.
pub open spec fn header_fields(header: Seq<u8>) -> (int, u8, int)
    recommends
        header.len() >= HEADER_SIZE,
{
    (le32_at(header, 0), header[4], le32_at(header, 8))
}

/// Layout of a header: twelve bytes that start with `52 45 4E 43`, the
/// little-endian magic; then the version, 1; three zero bytes; and the length
/// of the wrapped key, little-endian. Reading the fields back gives the magic,
/// the version and that length.
pub proof fn lemma_header_layout(fek_length: u32)
    ensures
        header_bytes(fek_length).len() == HEADER_SIZE,
        header_bytes(fek_length).subrange(0, 4) == seq![0x52u8, 0x45u8, 0x4Eu8, 0x43u8],
        le32_at(header_bytes(fek_length), 0) == MAGIC,
        header_bytes(fek_length)[4] == 1,
        header_bytes(fek_length)[5] == 0,
        header_bytes(fek_length)[6] == 0,
        header_bytes(fek_length)[7] == 0,
        le32_at(header_bytes(fek_length), 8) == fek_length,
        header_fields(header_bytes(fek_length)) == (MAGIC as int, VERSION, fek_length as int),
{
    let h = header_bytes(fek_length);
    lemma_le32_of_bytes(MAGIC);
    lemma_le32_of_bytes(fek_length);
    assert(h.len() == 12);
    assert(le32_bytes(MAGIC) =~= seq![0x52u8, 0x45u8, 0x4Eu8, 0x43u8]);
    assert(h.subrange(0, 4) =~= le32_bytes(MAGIC));
    assert(h[0] == le32_bytes(MAGIC)[0] && h[1] == le32_bytes(MAGIC)[1] && h[2] == le32_bytes(
        MAGIC,
    )[2] && h[3] == le32_bytes(MAGIC)[3]);
    assert(h[8] == le32_bytes(fek_length)[0] && h[9] == le32_bytes(fek_length)[1] && h[10]
        == le32_bytes(fek_length)[2] && h[11] == le32_bytes(fek_length)[3]);
}

/// Builds the fixed header for a wrapped key of `fek_length` bytes.
pub fn build_header(fek_length: u32) -> (header: [u8; 12])
    ensures
        header@ == header_bytes(fek_length),
{
    let m = u32_to_le(MAGIC);
    let l = u32_to_le(fek_length);
    let header = [m[0], m[1], m[2], m[3], VERSION, 0u8, 0u8, 0u8, l[0], l[1], l[2], l[3]];
    assert(header@ =~= header_bytes(fek_length));
    header
}

/// Reads magic, version and wrapped-key length from the first twelve bytes of
/// `header`. Nothing is validated: the caller checks magic and version. Fails
/// exactly when fewer than twelve bytes are given.
pub fn parse_header(header: &[u8]) -> (fields: Result<(u32, u8, usize), ()>)
    ensures
        fields is Err <==> header@.len() < HEADER_SIZE,
        fields is Ok ==> (fields->Ok_0.0 as int, fields->Ok_0.1, fields->Ok_0.2 as int)
            == header_fields(header@),
{
    if header.len() < HEADER_SIZE {
        return Err(());
    }
    let magic = u32_from_le(header, 0);
    let version = header[4];
    let fek_length = u32_from_le(header, 8) as usize;
    Ok((magic, version, fek_length))
}

/// Whether `len` bytes with a tag behind them fit the largest allocation
/// there is.
pub fn fits_with_tag(len: usize) -> (fits: bool)
    ensures
        fits == (len + MAC_SIZE <= isize::MAX),
{
    len <= isize::MAX as usize - MAC_SIZE
}

/// Whether a chunk of this length can be framed: its payload length fits the
/// frame's 32-bit field, and the payload fits in memory.
pub open spec fn frameable(len: nat) -> bool {
    len + MAC_SIZE <= u32::MAX && len + MAC_SIZE <= isize::MAX
}

/// A key wrapped under `master` with `nonce`: the nonce, then the sealed key.
pub open spec fn wrapped_key(key: Seq<u8>, master: Seq<u8>, nonce: Seq<u8>) -> Seq<u8> {
    nonce + aes_gcm_seal(master, nonce, key)
}

/// The key that `wrapped` holds under `master`, if it is long enough for a
/// nonce and a tag, `master` is a key, and the cipher accepts it.
pub open spec fn unwrapped_key(wrapped: Seq<u8>, master: Seq<u8>) -> Option<Seq<u8>> {
    if wrapped.len() < NONCE_SIZE + MAC_SIZE || master.len() != KEY_SIZE {
        None
    } else {
        aes_gcm_open(
            master,
            wrapped.subrange(0, NONCE_SIZE as int),
            wrapped.subrange(NONCE_SIZE as int, wrapped.len() as int),
        )
    }
}

/// A wrapped key starts with the nonce that it was wrapped with.
pub proof fn lemma_wrapped_key_starts_with_nonce(key: Seq<u8>, master: Seq<u8>, nonce: Seq<u8>)
    ensures
        wrapped_key(key, master, nonce).len() >= nonce.len(),
        wrapped_key(key, master, nonce).subrange(0, nonce.len() as int) == nonce,
{
    assert(wrapped_key(key, master, nonce).subrange(0, nonce.len() as int) =~= nonce);
}

/// Wraps `key` under `master_key` with the nonce given. The result is empty
/// where the master key is not 32 bytes, the nonce not 12, or the key too long
/// to be sealed; otherwise it is the nonce followed by the sealed key, 28
/// bytes longer than the key, and unwrapping it gives `key` back.
pub fn wrap_key_with_nonce(key: &[u8], master_key: &[u8], nonce: &[u8]) -> (wrapped: Vec<u8>)
    ensures
        wrapped@ == if master_key@.len() == KEY_SIZE && nonce@.len() == NONCE_SIZE && sealable(
            key@.len(),
        ) {
            wrapped_key(key@, master_key@, nonce@)
        } else {
            Seq::<u8>::empty()
        },
        wrapped@.len() > 0 <==> master_key@.len() == KEY_SIZE && nonce@.len() == NONCE_SIZE
            && sealable(key@.len()),
        wrapped@.len() > 0 ==> wrapped@.len() == NONCE_SIZE + key@.len() + MAC_SIZE,
        wrapped@.len() > 0 ==> wrapped@.subrange(0, NONCE_SIZE as int) == nonce@,
        wrapped@.len() > 0 ==> unwrapped_key(wrapped@, master_key@) == Some(key@),
{
    let mut wrapped: Vec<u8> = Vec::new();
    if nonce.len() != NONCE_SIZE || !fits_with_tag(key.len()) {
        return wrapped;
    }
    match aead_seal(master_key, nonce, key) {
        Some(sealed) => {
            append_bytes(&mut wrapped, nonce);
            append_bytes(&mut wrapped, sealed.as_slice());
            proof {
                assert(wrapped@.subrange(0, NONCE_SIZE as int) =~= nonce@);
                assert(wrapped@.subrange(NONCE_SIZE as int, wrapped@.len() as int) =~= sealed@);
            }
            wrapped
        },
        None => wrapped,
    }
}

/// Wraps `key` under `master_key` with a fresh random nonce. The result is
/// empty on failure: a master key that is not 32 bytes, a key too long to be
/// sealed, or a random source that does not deliver. Otherwise it is 28 bytes
/// longer than the key, and unwrapping it gives `key` back.
pub fn wrap_key(key: &[u8], master_key: &[u8]) -> (wrapped: Vec<u8>)
    ensures
        master_key@.len() != KEY_SIZE || !sealable(key@.len()) ==> wrapped@.len() == 0,
        wrapped@.len() > 0 ==> wrapped@.len() == NONCE_SIZE + key@.len() + MAC_SIZE,
        wrapped@.len() > 0 ==> unwrapped_key(wrapped@, master_key@) == Some(key@),
        wrapped@.len() > 0 ==> wrapped@ == wrapped_key(
            key@,
            master_key@,
            wrapped@.subrange(0, NONCE_SIZE as int),
        ),
{
    match os_random(NONCE_SIZE) {
        Some(nonce) => {
            let wrapped = wrap_key_with_nonce(key, master_key, nonce.as_slice());
            proof {
                if wrapped@.len() > 0 {
                    assert(wrapped@.subrange(0, NONCE_SIZE as int) =~= nonce@);
                }
            }
            wrapped
        },
        None => Vec::new(),
    }
}

/// Unwraps a key: succeeds exactly when `wrapped` has at least 28 bytes,
/// `master_key` has 32, and the cipher authenticates the rest of `wrapped`
/// under the nonce that its first 12 bytes hold.
pub fn unwrap_key(wrapped_key: &[u8], master_key: &[u8]) -> (key: Result<Vec<u8>, ()>)
    ensures
        key is Ok <==> unwrapped_key(wrapped_key@, master_key@) is Some,
        key is Ok ==> unwrapped_key(wrapped_key@, master_key@) == Some(key->Ok_0@),
        key is Ok ==> key->Ok_0@.len() + NONCE_SIZE + MAC_SIZE == wrapped_key@.len(),
{
    if wrapped_key.len() < NONCE_SIZE + MAC_SIZE || master_key.len() != KEY_SIZE {
        return Err(());
    }
    let nonce = slice_subrange(wrapped_key, 0, NONCE_SIZE);
    let sealed = slice_subrange(wrapped_key, NONCE_SIZE, wrapped_key.len());
    match aead_open(master_key, nonce, sealed) {
        Some(key) => Ok(key),
        None => Err(()),
    }
}

/// The index that a frame claims.
pub open spec fn frame_index(frame: Seq<u8>) -> int
    recommends
        frame.len() >= FRAME_HEADER_SIZE,
{
    le32_at(frame, 0)
}

/// The payload length that a frame claims: ciphertext and tag together.
pub open spec fn frame_payload_len(frame: Seq<u8>) -> int
    recommends
        frame.len() >= FRAME_HEADER_SIZE,
{
    le32_at(frame, 4)
}

/// The nonce of a frame.
pub open spec fn frame_nonce(frame: Seq<u8>) -> Seq<u8>
    recommends
        frame.len() >= FRAME_HEADER_SIZE,
{
    frame.subrange(8, FRAME_HEADER_SIZE as int)
}

/// The payload of a frame: all that follows its 20-byte header.
pub open spec fn frame_payload(frame: Seq<u8>) -> Seq<u8>
    recommends
        frame.len() >= FRAME_HEADER_SIZE,
{
    frame.subrange(FRAME_HEADER_SIZE as int, frame.len() as int)
}

/// A frame: index, payload length, nonce, then the payload.
pub open spec fn frame_bytes(index: u32, nonce: Seq<u8>, payload: Seq<u8>) -> Seq<u8> {
    le32_bytes(index) + le32_bytes(payload.len() as u32) + nonce + payload
}

/// The frame that holds `data` sealed under `fek` with `nonce`.
pub open spec fn sealed_frame(data: Seq<u8>, fek: Seq<u8>, index: u32, nonce: Seq<u8>) -> Seq<
    u8,
> {
    frame_bytes(index, nonce, aes_gcm_seal(fek, nonce, data))
}

/// What opening a frame under `fek` gives. A frame shorter than its header,
/// or whose length is not 20 plus the payload length it claims, is malformed;
/// a payload that the cipher rejects fails decryption.
pub open spec fn opened_frame(frame: Seq<u8>, fek: Seq<u8>) -> Result<Seq<u8>, ErrorKind> {
    if frame.len() < FRAME_HEADER_SIZE {
        Err(ErrorKind::InvalidFormat)
    } else if frame.len() != FRAME_HEADER_SIZE + frame_payload_len(frame) {
        Err(ErrorKind::InvalidFormat)
    } else {
        match aes_gcm_open(fek, frame_nonce(frame), frame_payload(frame)) {
            Some(plain) => Ok(plain),
            None => Err(ErrorKind::DecryptionFailed),
        }
    }
}

/// The parts of a frame are where its layout puts them.
pub proof fn lemma_frame_layout(index: u32, nonce: Seq<u8>, payload: Seq<u8>)
    requires
        nonce.len() == NONCE_SIZE,
        payload.len() <= u32::MAX,
    ensures
        frame_bytes(index, nonce, payload).len() == FRAME_HEADER_SIZE + payload.len(),
        frame_index(frame_bytes(index, nonce, payload)) == index,
        frame_payload_len(frame_bytes(index, nonce, payload)) == payload.len(),
        frame_nonce(frame_bytes(index, nonce, payload)) == nonce,
        frame_payload(frame_bytes(index, nonce, payload)) == payload,
{
    let f = frame_bytes(index, nonce, payload);
    let n = payload.len() as u32;
    lemma_le32_of_bytes(index);
    lemma_le32_of_bytes(n);
    assert(f[0] == le32_bytes(index)[0] && f[1] == le32_bytes(index)[1] && f[2] == le32_bytes(
        index,
    )[2] && f[3] == le32_bytes(index)[3]);
    assert(f[4] == le32_bytes(n)[0] && f[5] == le32_bytes(n)[1] && f[6] == le32_bytes(n)[2]
        && f[7] == le32_bytes(n)[3]);
    assert(frame_nonce(f) =~= nonce);
    assert(frame_payload(f) =~= payload);
}

/// A frame carries the nonce that it was made with at its bytes 8 to 20, so
/// that frames made with different nonces carry different nonces.
pub proof fn lemma_frame_carries_nonce(index: u32, nonce: Seq<u8>, payload: Seq<u8>)
    requires
        nonce.len() == NONCE_SIZE,
    ensures
        frame_bytes(index, nonce, payload).len() >= FRAME_HEADER_SIZE,
        frame_nonce(frame_bytes(index, nonce, payload)) == nonce,
        frame_bytes(index, nonce, payload).subrange(8, 20) == nonce,
{
    lemma_le32_of_bytes(index);
    lemma_le32_of_bytes(payload.len() as u32);
    assert(frame_bytes(index, nonce, payload).subrange(8, 20) =~= nonce);
}

/// Seals `data` under `fek` with the nonce given and frames it with
/// `chunk_index`. Fails exactly when the key is not 32 bytes, the nonce not
/// 12, or the chunk too long to be framed.
pub fn encrypt_chunk_with_nonce(data: &[u8], fek: &[u8], chunk_index: u32, nonce: &[u8]) -> (frame:
    Option<Vec<u8>>)
    ensures
        frame is Some <==> fek@.len() == KEY_SIZE && nonce@.len() == NONCE_SIZE && frameable(
            data@.len(),
        ),
        frame is Some ==> frame->0@ == sealed_frame(data@, fek@, chunk_index, nonce@),
        frame is Some ==> frame->0@.len() == data@.len() + CHUNK_HEADER_SIZE,
        frame is Some ==> frame_index(frame->0@) == chunk_index,
        frame is Some ==> frame_payload_len(frame->0@) == data@.len() + MAC_SIZE,
        frame is Some ==> frame_nonce(frame->0@) == nonce@,
        frame is Some ==> opened_frame(frame->0@, fek@) == Ok::<Seq<u8>, ErrorKind>(data@),
{
    if nonce.len() != NONCE_SIZE || data.len() > 0xFFFF_FFEF || !fits_with_tag(data.len()) {
        return None;
    }
    match aead_seal(fek, nonce, data) {
        Some(sealed) => {
            let mut frame: Vec<u8> = Vec::new();
            let index_bytes = u32_to_le(chunk_index);
            let length_bytes = u32_to_le(sealed.len() as u32);
            append_bytes(&mut frame, index_bytes.as_slice());
            append_bytes(&mut frame, length_bytes.as_slice());
            append_bytes(&mut frame, nonce);
            append_bytes(&mut frame, sealed.as_slice());
            proof {
                lemma_frame_layout(chunk_index, nonce@, sealed@);
                assert(frame@ =~= frame_bytes(chunk_index, nonce@, sealed@));
            }
            Some(frame)
        },
        None => None,
    }
}

/// Seals `data` under `fek` with a fresh random nonce and frames it with
/// `chunk_index`. Fails where the key is not 32 bytes, the chunk is too long
/// for the frame's length field, or the random source does not deliver. A
/// frame that comes back carries the index given and opens to `data`.
pub fn encrypt_chunk_impl(data: &[u8], fek: &[u8], chunk_index: u32) -> (frame: Option<Vec<u8>>)
    ensures
        fek@.len() != KEY_SIZE || !frameable(data@.len()) ==> frame is None,
        frame is Some ==> frame->0@ == sealed_frame(
            data@,
            fek@,
            chunk_index,
            frame_nonce(frame->0@),
        ),
        frame is Some ==> frame->0@.len() == data@.len() + CHUNK_HEADER_SIZE,
        frame is Some ==> frame_index(frame->0@) == chunk_index,
        frame is Some ==> frame_payload_len(frame->0@) == data@.len() + MAC_SIZE,
        frame is Some ==> opened_frame(frame->0@, fek@) == Ok::<Seq<u8>, ErrorKind>(data@),
{
    match os_random(NONCE_SIZE) {
        Some(nonce) => encrypt_chunk_with_nonce(data, fek, chunk_index, nonce.as_slice()),
        None => None,
    }
}

/// Opens one frame under `fek`: checks that the frame is exactly as long as
/// its header says, then decrypts. Returns the plaintext and the length of the
/// frame. The index field is not looked at.
pub fn decrypt_chunk_impl(encrypted_data: &[u8], fek: &[u8]) -> (opened: Result<
    (Vec<u8>, usize),
    ErrorKind,
>)
    ensures
        match opened {
            Ok((plain, frame_len)) => opened_frame(encrypted_data@, fek@) == Ok::<
                Seq<u8>,
                ErrorKind,
            >(plain@) && frame_len == encrypted_data@.len() && plain@.len() + CHUNK_HEADER_SIZE
                == encrypted_data@.len(),
            Err(kind) => opened_frame(encrypted_data@, fek@) == Err::<Seq<u8>, ErrorKind>(kind),
        },
{
    let len = encrypted_data.len();
    if len < FRAME_HEADER_SIZE {
        return Err(ErrorKind::InvalidFormat);
    }
    let payload_len = u32_from_le(encrypted_data, 4) as usize;
    if len - FRAME_HEADER_SIZE != payload_len {
        return Err(ErrorKind::InvalidFormat);
    }
    let nonce = slice_subrange(encrypted_data, 8, FRAME_HEADER_SIZE);
    let payload = slice_subrange(encrypted_data, FRAME_HEADER_SIZE, len);
    match aead_open(fek, nonce, payload) {
        Some(plain) => Ok((plain, len)),
        None => Err(ErrorKind::DecryptionFailed),
    }
}

} // verus!
