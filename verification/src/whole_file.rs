//! Whole-buffer encryption and decryption built on the chunk sessions, with a
//! fixed plaintext chunk size, and the one-shot operations beside them.

use crate::container::{
    append_bytes, build_header, encrypt_chunk_with_nonce, frame_index, frame_payload_len,
    header_bytes, header_fields, lemma_header_layout, sealed_frame, unwrap_key, unwrapped_key,
    wrap_key, wrap_key_with_nonce, wrapped_key, CHUNK_HEADER_SIZE, DEFAULT_CHUNK_SIZE,
    FRAME_HEADER_SIZE, HEADER_SIZE, MAGIC, VERSION,
};
use crate::error::ErrorKind;
use crate::le_bytes::{le32_at, u32_from_le};
use crate::primitives::{
    os_random, pbkdf2_derive, pbkdf2_sha256_key, sealable, KEY_SIZE, MAC_SIZE, NONCE_SIZE,
};
use crate::session::{
    announced_prefix_len, decrypt_chunk, decrypt_file_init, opened_frame_at, opened_prefix,
    DecryptionContext, PREFIX_SIZE, WRAPPED_FEK_SIZE,
};
use vstd::prelude::*;
use vstd::slice::slice_subrange;
use vstd::string::StringSliceAdditionalSpecFns;

verus! {

/// One progress notification: how far the operation is, and how far it goes.
#[derive(Clone, Copy, Debug, PartialEq, Eq, Structural)]
pub struct Progress {
    pub bytes_processed: usize,
    pub total_bytes: usize,
}

/// Result of a whole-buffer operation: the bytes, and the notifications that
/// it gives rise to, one per chunk, in order.
pub struct Processed {
    pub data: Vec<u8>,
    pub progress: Vec<Progress>,
}

/// Number of chunks that `len` plaintext bytes make.
pub open spec fn chunk_count(len: int) -> int {
    (len + 1048575) / 1048576
}

/// Where chunk `i` ends in a plaintext of `len` bytes.
pub open spec fn chunk_end(len: int, i: int) -> int {
    if (i + 1) * 1048576 < len {
        (i + 1) * 1048576
    } else {
        len
    }
}

/// Where chunk `i` starts.
pub open spec fn chunk_start(i: int) -> int {
    i * 1048576
}

/// Whether the first `done` frames of a container for `len` plaintext bytes
/// are where they belong, each with its index and the payload length of its
/// chunk.
pub open spec fn frames_laid_out(data: Seq<u8>, len: int, done: int) -> bool {
    forall|i: int|
        0 <= i < done ==> #[trigger] le32_at(data, frame_offset(i)) == i && le32_at(
            data,
            frame_offset(i) + 4,
        ) == chunk_end(len, i) - chunk_start(i) + 16
}

/// Whether the first `done` notifications of an encryption of `len` bytes are
/// the ends of the chunks, each against the total.
pub open spec fn progress_laid_out(progress: Seq<Progress>, len: int, done: int) -> bool {
    forall|i: int|
        0 <= i < done ==> (#[trigger] progress[i]).bytes_processed == chunk_end(len, i)
            && progress[i].total_bytes == len
}

/// Where frame `i` starts in a container written by [`encrypt_file_streaming`].
pub open spec fn frame_offset(i: int) -> int {
    72 + i * 1048612
}

/// `acc` followed by what `rest` gives, or the failure of `rest`.
pub open spec fn prepended(acc: Seq<u8>, rest: Result<Seq<u8>, ErrorKind>) -> Result<
    Seq<u8>,
    ErrorKind,
> {
    match rest {
        Ok(tail) => Ok(acc + tail),
        Err(kind) => Err(kind),
    }
}

/// Whether `rest` starts with a complete frame.
pub open spec fn starts_with_frame(rest: Seq<u8>) -> bool {
    rest.len() >= FRAME_HEADER_SIZE && rest.len() >= FRAME_HEADER_SIZE + frame_payload_len(rest)
}

/// Length of the frame that `rest` starts with.
pub open spec fn first_frame_len(rest: Seq<u8>) -> int {
    FRAME_HEADER_SIZE + frame_payload_len(rest)
}

/// The plaintext of a run of frames that are numbered from `index` on, or the
/// failure of the first frame that fails. Bytes left over that do not make a
/// frame are a malformed container.
pub open spec fn opened_frames(rest: Seq<u8>, fek: Seq<u8>, index: int) -> Result<
    Seq<u8>,
    ErrorKind,
>
    decreases rest.len(),
{
    if rest.len() == 0 {
        Ok(Seq::empty())
    } else if !starts_with_frame(rest) {
        Err(ErrorKind::InvalidFormat)
    } else {
        let n = first_frame_len(rest);
        match opened_frame_at(rest.subrange(0, n), fek, index) {
            Err(kind) => Err(kind),
            Ok(head) => prepended(
                head,
                opened_frames(rest.subrange(n, rest.len() as int), fek, index + 1),
            ),
        }
    }
}

/// Number of complete frames at the start of `rest`.
pub open spec fn frame_count(rest: Seq<u8>) -> nat
    decreases rest.len(),
{
    if !starts_with_frame(rest) {
        0
    } else {
        1 + frame_count(rest.subrange(first_frame_len(rest), rest.len() as int))
    }
}

/// The running totals after each frame of a run that opens, starting from
/// `done` bytes.
pub open spec fn opened_totals(rest: Seq<u8>, fek: Seq<u8>, index: int, done: int) -> Seq<int>
    decreases rest.len(),
{
    if !starts_with_frame(rest) {
        Seq::empty()
    } else {
        let n = first_frame_len(rest);
        match opened_frame_at(rest.subrange(0, n), fek, index) {
            Err(_) => Seq::empty(),
            Ok(head) => seq![done + head.len()] + opened_totals(
                rest.subrange(n, rest.len() as int),
                fek,
                index + 1,
                done + head.len(),
            ),
        }
    }
}

/// The plaintext of a whole container under `master`: the key from its
/// prefix, then its frames, numbered from 0.
pub open spec fn opened_container(data: Seq<u8>, master: Seq<u8>) -> Result<Seq<u8>, ErrorKind> {
    match opened_prefix(data, master) {
        Err(kind) => Err(kind),
        Ok(fek) => opened_frames(
            data.subrange(announced_prefix_len(data), data.len() as int),
            fek,
            0,
        ),
    }
}

/// The running totals that opening a whole container reports.
pub open spec fn container_totals(data: Seq<u8>, master: Seq<u8>) -> Seq<int> {
    match opened_prefix(data, master) {
        Err(_) => Seq::empty(),
        Ok(fek) => opened_totals(
            data.subrange(announced_prefix_len(data), data.len() as int),
            fek,
            0,
            0,
        ),
    }
}

/// A run of frames that opens, followed by another that opens from the index
/// where the first stops, opens to the two plaintexts in a row.
pub proof fn lemma_opened_frames_append(
    a: Seq<u8>,
    b: Seq<u8>,
    fek: Seq<u8>,
    index: int,
    pa: Seq<u8>,
    pb: Seq<u8>,
)
    requires
        opened_frames(a, fek, index) == Ok::<Seq<u8>, ErrorKind>(pa),
        opened_frames(b, fek, index + frame_count(a)) == Ok::<Seq<u8>, ErrorKind>(pb),
    ensures
        opened_frames(a + b, fek, index) == Ok::<Seq<u8>, ErrorKind>(pa + pb),
        frame_count(a + b) == frame_count(a) + frame_count(b),
    decreases a.len(),
{
    if a.len() == 0 {
        assert(a + b =~= b);
        assert(pa + pb =~= pb);
    } else {
        let n = first_frame_len(a);
        let ab = a + b;
        assert(frame_payload_len(ab) == frame_payload_len(a));
        assert(ab.subrange(0, n) =~= a.subrange(0, n));
        let tail = a.subrange(n, a.len() as int);
        assert(ab.subrange(n, ab.len() as int) =~= tail + b);
        let head = opened_frame_at(a.subrange(0, n), fek, index)->Ok_0;
        let pt = opened_frames(tail, fek, index + 1)->Ok_0;
        assert(pa == head + pt);
        lemma_opened_frames_append(tail, b, fek, index + 1, pt, pb);
        assert(head + (pt + pb) =~= pa + pb);
    }
}

/// A single frame that opens at `index` is a run of one.
pub proof fn lemma_single_frame(frame: Seq<u8>, fek: Seq<u8>, index: int, plain: Seq<u8>)
    requires
        opened_frame_at(frame, fek, index) == Ok::<Seq<u8>, ErrorKind>(plain),
    ensures
        opened_frames(frame, fek, index) == Ok::<Seq<u8>, ErrorKind>(plain),
        frame_count(frame) == 1,
{
    let n = first_frame_len(frame);
    assert(frame.subrange(0, n) =~= frame);
    let tail = frame.subrange(n, frame.len() as int);
    assert(tail.len() == 0);
    assert(opened_frames(tail, fek, index + 1) == Ok::<Seq<u8>, ErrorKind>(Seq::empty()));
    assert(plain + Seq::<u8>::empty() =~= plain);
    assert(frame_count(tail) == 0);
}

/// Appending a frame that opens at index `done` to a container that holds
/// `done` frames extends its layout and its plaintext by one chunk.
pub proof fn lemma_frame_appended(
    before: Seq<u8>,
    frame: Seq<u8>,
    fek: Seq<u8>,
    len: int,
    done: int,
    plain_before: Seq<u8>,
    chunk: Seq<u8>,
)
    requires
        0 <= done,
        before.len() == frame_offset(done),
        frames_laid_out(before, len, done),
        opened_frames(before.subrange(72, before.len() as int), fek, 0) == Ok::<
            Seq<u8>,
            ErrorKind,
        >(plain_before),
        frame_count(before.subrange(72, before.len() as int)) == done,
        opened_frame_at(frame, fek, done) == Ok::<Seq<u8>, ErrorKind>(chunk),
        frame_payload_len(frame) == chunk_end(len, done) - chunk_start(done) + 16,
    ensures
        frames_laid_out(before + frame, len, done + 1),
        opened_frames((before + frame).subrange(72, (before + frame).len() as int), fek, 0)
            == Ok::<Seq<u8>, ErrorKind>(plain_before + chunk),
        frame_count((before + frame).subrange(72, (before + frame).len() as int)) == done + 1,
{
    let after = before + frame;
    let frames = before.subrange(72, before.len() as int);
    lemma_single_frame(frame, fek, done, chunk);
    lemma_opened_frames_append(frames, frame, fek, 0, plain_before, chunk);
    assert(after.subrange(72, after.len() as int) =~= frames + frame);
    assert forall|i: int| 0 <= i < done + 1 implies #[trigger] le32_at(after, frame_offset(i))
        == i && le32_at(after, frame_offset(i) + 4) == chunk_end(len, i) - chunk_start(i)
        + 16 by {
        if i < done {
            assert(frame_offset(i) + 8 <= before.len());
            assert(le32_at(after, frame_offset(i)) == le32_at(before, frame_offset(i)));
            assert(le32_at(after, frame_offset(i) + 4) == le32_at(before, frame_offset(i) + 4));
        } else {
            assert(frame_offset(i) == before.len());
            assert(le32_at(after, frame_offset(i)) == frame_index(frame));
            assert(le32_at(after, frame_offset(i) + 4) == frame_payload_len(frame));
        }
    }
}

/// A prefix made of the header for a 60-byte wrapped key and such a key that
/// unwraps to `fek` yields `fek`, whatever follows it.
pub proof fn lemma_prefix_opens(data: Seq<u8>, wrapped: Seq<u8>, master: Seq<u8>, fek: Seq<u8>)
    requires
        data.len() >= 72,
        data.subrange(0, 72) == header_bytes(60) + wrapped,
        wrapped.len() == 60,
        master.len() == KEY_SIZE,
        unwrapped_key(wrapped, master) == Some(fek),
    ensures
        opened_prefix(data, master) == Ok::<Seq<u8>, ErrorKind>(fek),
        announced_prefix_len(data) == 72,
        data.subrange(0, 12) == header_bytes(60),
{
    lemma_header_layout(60);
    let prefix = data.subrange(0, 72);
    let header = header_bytes(60);
    assert(data.subrange(0, 12) =~= header) by {
        assert forall|i: int| 0 <= i < 12 implies data.subrange(0, 12)[i] == header[i] by {
            assert(data[i] == prefix[i]);
        }
    }
    assert(data[0] == header[0] && data[1] == header[1] && data[2] == header[2] && data[3]
        == header[3] && data[4] == header[4]) by {
        assert(data.subrange(0, 12)[0] == data[0]);
        assert(data.subrange(0, 12)[1] == data[1]);
        assert(data.subrange(0, 12)[2] == data[2]);
        assert(data.subrange(0, 12)[3] == data[3]);
        assert(data.subrange(0, 12)[4] == data[4]);
    }
    assert(data[8] == header[8] && data[9] == header[9] && data[10] == header[10] && data[11]
        == header[11]) by {
        assert(data.subrange(0, 12)[8] == data[8]);
        assert(data.subrange(0, 12)[9] == data[9]);
        assert(data.subrange(0, 12)[10] == data[10]);
        assert(data.subrange(0, 12)[11] == data[11]);
    }
    assert(header_fields(data) == header_fields(header));
    assert(data.subrange(12, 72) =~= wrapped) by {
        assert forall|i: int| 0 <= i < 60 implies data.subrange(12, 72)[i] == wrapped[i] by {
            assert(data[i + 12] == prefix[i + 12]);
        }
    }
}

/// What a list of byte strings holds.
pub open spec fn byte_views(list: Seq<Vec<u8>>) -> Seq<Seq<u8>> {
    Seq::new(list.len(), |i: int| list[i]@)
}

/// Chunk `i` of a plaintext.
pub open spec fn chunk_of(file: Seq<u8>, i: int) -> Seq<u8> {
    file.subrange(chunk_start(i), chunk_end(file.len() as int, i))
}

/// The first `done` frames of a container for `file`: frame `i` holds chunk
/// `i` sealed under `fek` with the nonce `nonces[i]`, and carries the index
/// `i`.
pub open spec fn sealed_frames(file: Seq<u8>, fek: Seq<u8>, nonces: Seq<Seq<u8>>, done: int) -> Seq<
    u8,
>
    decreases done,
{
    if done <= 0 {
        Seq::empty()
    } else {
        sealed_frames(file, fek, nonces, done - 1) + sealed_frame(
            chunk_of(file, done - 1),
            fek,
            (done - 1) as u32,
            nonces[done - 1],
        )
    }
}

/// The container for `file`: the header, `fek` wrapped under `master` with
/// `key_nonce`, then one frame for each chunk of the file, sealed under `fek`
/// with the nonces of `chunk_nonces` in turn.
pub open spec fn streamed_container(
    file: Seq<u8>,
    master: Seq<u8>,
    fek: Seq<u8>,
    key_nonce: Seq<u8>,
    chunk_nonces: Seq<Seq<u8>>,
) -> Seq<u8> {
    header_bytes(WRAPPED_FEK_SIZE as u32) + wrapped_key(fek, master, key_nonce) + sealed_frames(
        file,
        fek,
        chunk_nonces,
        chunk_count(file.len() as int),
    )
}

/// Whether a file of `len` bytes can be made into a container with these
/// keys and nonces: both keys have 32 bytes, the nonce for the key has 12,
/// the chunks do not outnumber what a frame index can hold, and there is a
/// nonce of 12 bytes for each chunk.
pub open spec fn streamable(
    len: int,
    master: Seq<u8>,
    fek: Seq<u8>,
    key_nonce: Seq<u8>,
    chunk_nonces: Seq<Seq<u8>>,
) -> bool {
    &&& master.len() == KEY_SIZE
    &&& fek.len() == KEY_SIZE
    &&& key_nonce.len() == NONCE_SIZE
    &&& chunk_count(len) <= 0x1_0000_0000
    &&& chunk_nonces.len() >= chunk_count(len)
    &&& forall|i: int| 0 <= i < chunk_count(len) ==> (#[trigger] chunk_nonces[i]).len() == NONCE_SIZE
}

/// Encrypts `file_data` into a container under `master_key` with the
/// file-encryption key and the nonces given: the header, the key wrapped with
/// `key_nonce`, then one frame per mebibyte of plaintext, numbered from 0,
/// frame `i` sealed with `chunk_nonces[i]`. Nonces beyond the number of
/// chunks are not used.
///
/// Succeeds exactly when [`streamable`] holds. Fails with `InvalidKeySize`
/// where one of the keys is not 32 bytes long, and else with
/// `EncryptionFailed`. The container that comes back is
/// [`streamed_container`], and opens to `file_data` under the master key.
pub fn encrypt_file_streaming_with(
    file_data: &[u8],
    master_key: &[u8],
    fek: &[u8],
    key_nonce: &[u8],
    chunk_nonces: &Vec<Vec<u8>>,
) -> (result: Result<Processed, ErrorKind>)
    ensures
        result is Ok <==> streamable(
            file_data@.len() as int,
            master_key@,
            fek@,
            key_nonce@,
            byte_views(chunk_nonces@),
        ),
        result matches Err(kind) ==> kind == (if master_key@.len() != KEY_SIZE || fek@.len()
            != KEY_SIZE {
            ErrorKind::InvalidKeySize
        } else {
            ErrorKind::EncryptionFailed
        }),
        result matches Ok(out) ==> {
            let len = file_data@.len() as int;
            &&& out.data@ == streamed_container(
                file_data@,
                master_key@,
                fek@,
                key_nonce@,
                byte_views(chunk_nonces@),
            )
            &&& out.data@.len() == PREFIX_SIZE + len + CHUNK_HEADER_SIZE * chunk_count(len)
            &&& out.data@.subrange(0, HEADER_SIZE as int) == header_bytes(WRAPPED_FEK_SIZE as u32)
            &&& frames_laid_out(out.data@, len, chunk_count(len))
            &&& opened_container(out.data@, master_key@) == Ok::<Seq<u8>, ErrorKind>(file_data@)
            &&& out.progress@.len() == chunk_count(len)
            &&& progress_laid_out(out.progress@, len, chunk_count(len))
        },
{
    if master_key.len() != KEY_SIZE || fek.len() != KEY_SIZE {
        return Err(ErrorKind::InvalidKeySize);
    }
    let wrapped = wrap_key_with_nonce(fek, master_key, key_nonce);
    if wrapped.len() == 0 {
        return Err(ErrorKind::EncryptionFailed);
    }
    let header = build_header(wrapped.len() as u32);
    let mut data: Vec<u8> = Vec::new();
    append_bytes(&mut data, header.as_slice());
    append_bytes(&mut data, wrapped.as_slice());
    let mut progress: Vec<Progress> = Vec::new();
    let len = file_data.len();
    let mut offset: usize = 0;
    let mut done: usize = 0;
    let ghost nonces = byte_views(chunk_nonces@);
    proof {
        assert(data@ =~= header_bytes(60) + wrapped@ + sealed_frames(file_data@, fek@, nonces, 0));
        assert(data@.subrange(0, 72) =~= header_bytes(60) + wrapped@);
        assert(data@.subrange(72, data@.len() as int) =~= Seq::<u8>::empty());
        assert(file_data@.subrange(0, 0) =~= Seq::<u8>::empty());
    }
    while offset < len
        invariant
            len == file_data@.len(),
            fek@.len() == KEY_SIZE,
            master_key@.len() == KEY_SIZE,
            key_nonce@.len() == NONCE_SIZE,
            wrapped@ == wrapped_key(fek@, master_key@, key_nonce@),
            nonces == byte_views(chunk_nonces@),
            offset <= len,
            offset < len ==> offset == chunk_start(done as int),
            offset == len ==> done == chunk_count(len as int),
            done <= chunk_count(len as int),
            done <= 0x1_0000_0000,
            done <= nonces.len(),
            forall|i: int| 0 <= i < done ==> (#[trigger] nonces[i]).len() == NONCE_SIZE,
            data@ == header_bytes(60) + wrapped@ + sealed_frames(
                file_data@,
                fek@,
                nonces,
                done as int,
            ),
            data@.len() == 72 + offset + 36 * done,
            data@.subrange(0, 72) == header_bytes(60) + wrapped@,
            opened_frames(data@.subrange(72, data@.len() as int), fek@, 0) == Ok::<
                Seq<u8>,
                ErrorKind,
            >(file_data@.subrange(0, offset as int)),
            frame_count(data@.subrange(72, data@.len() as int)) == done,
            frames_laid_out(data@, len as int, done as int),
            progress@.len() == done,
            progress_laid_out(progress@, len as int, done as int),
        decreases len - offset,
    {
        if done > 0xFFFF_FFFF || done >= chunk_nonces.len() {
            return Err(ErrorKind::EncryptionFailed);
        }
        let end: usize = if len - offset > DEFAULT_CHUNK_SIZE {
            offset + DEFAULT_CHUNK_SIZE
        } else {
            len
        };
        let chunk = slice_subrange(file_data, offset, end);
        assert(nonces[done as int] == chunk_nonces@[done as int]@);
        let frame = match encrypt_chunk_with_nonce(
            chunk,
            fek,
            done as u32,
            chunk_nonces[done].as_slice(),
        ) {
            Some(frame) => frame,
            None => {
                return Err(ErrorKind::EncryptionFailed);
            },
        };
        let ghost before = data@;
        let ghost reported = progress@;
        append_bytes(&mut data, frame.as_slice());
        progress.push(Progress { bytes_processed: end, total_bytes: len });
        proof {
            assert(end == chunk_end(len as int, done as int));
            assert(chunk@ == chunk_of(file_data@, done as int));
            lemma_frame_appended(
                before,
                frame@,
                fek@,
                len as int,
                done as int,
                file_data@.subrange(0, offset as int),
                chunk@,
            );
            assert(file_data@.subrange(0, offset as int) + chunk@ =~= file_data@.subrange(
                0,
                end as int,
            ));
            assert(data@.subrange(0, 72) =~= before.subrange(0, 72));
            assert(data@ =~= header_bytes(60) + wrapped@ + sealed_frames(
                file_data@,
                fek@,
                nonces,
                done + 1,
            ));
            assert forall|i: int| 0 <= i < done + 1 implies (#[trigger] progress@[i]).bytes_processed
                == chunk_end(len as int, i) && progress@[i].total_bytes == len by {
                if i < done {
                    assert(progress@[i] == reported[i]);
                }
            }
        }
        offset = end;
        done = done + 1;
    }
    proof {
        lemma_prefix_opens(data@, wrapped@, master_key@, fek@);
        assert(file_data@.subrange(0, len as int) =~= file_data@);
    }
    Ok(Processed { data, progress })
}

/// Draws `count` nonces from the random source of the operating system;
/// nothing where it does not deliver.
fn draw_nonces(count: usize) -> (nonces: Option<Vec<Vec<u8>>>)
    ensures
        nonces is Some ==> nonces->0@.len() == count && forall|i: int|
            0 <= i < count ==> (#[trigger] nonces->0@[i])@.len() == NONCE_SIZE,
{
    let mut nonces: Vec<Vec<u8>> = Vec::new();
    while nonces.len() < count
        invariant
            nonces@.len() <= count,
            forall|i: int| 0 <= i < nonces@.len() ==> (#[trigger] nonces@[i])@.len() == NONCE_SIZE,
        decreases count - nonces@.len(),
    {
        match os_random(NONCE_SIZE) {
            Some(nonce) => {
                nonces.push(nonce);
            },
            None => {
                return None;
            },
        }
    }
    Some(nonces)
}

/// Encrypts `file_data` into a container under `master_key`: the header, a
/// fresh file-encryption key wrapped under the master key, then one frame per
/// mebibyte of plaintext, numbered from 0, as
/// [`encrypt_file_streaming_with`] makes them with a key and nonces drawn
/// from the random source.
///
/// Fails with `InvalidKeySize` exactly when the master key is not 32 bytes
/// long; with `EncryptionFailed` where the random source does not deliver or
/// the chunks outnumber what a frame index can hold. A container that comes
/// back opens to `file_data` under the same master key.
pub fn encrypt_file_streaming(file_data: &[u8], master_key: &[u8]) -> (result: Result<
    Processed,
    ErrorKind,
>)
    ensures
        result matches Err(kind) ==> kind == ErrorKind::InvalidKeySize || kind
            == ErrorKind::EncryptionFailed,
        (result matches Err(kind) && kind == ErrorKind::InvalidKeySize) <==> master_key@.len()
            != KEY_SIZE,
        (master_key@.len() == KEY_SIZE && chunk_count(file_data@.len() as int) > 0x1_0000_0000)
            ==> result is Err,
        result matches Ok(out) ==> exists|
            fek: Seq<u8>,
            key_nonce: Seq<u8>,
            chunk_nonces: Seq<Seq<u8>>,
        |
            streamable(file_data@.len() as int, master_key@, fek, key_nonce, chunk_nonces)
                && out.data@ == #[trigger] streamed_container(
                file_data@,
                master_key@,
                fek,
                key_nonce,
                chunk_nonces,
            ),
        result matches Ok(out) ==> {
            let len = file_data@.len() as int;
            &&& out.data@.len() == PREFIX_SIZE + len + CHUNK_HEADER_SIZE * chunk_count(len)
            &&& out.data@.subrange(0, HEADER_SIZE as int) == header_bytes(WRAPPED_FEK_SIZE as u32)
            &&& frames_laid_out(out.data@, len, chunk_count(len))
            &&& opened_container(out.data@, master_key@) == Ok::<Seq<u8>, ErrorKind>(file_data@)
            &&& out.progress@.len() == chunk_count(len)
            &&& progress_laid_out(out.progress@, len, chunk_count(len))
        },
{
    if master_key.len() != KEY_SIZE {
        return Err(ErrorKind::InvalidKeySize);
    }
    let len = file_data.len();
    let whole = len / DEFAULT_CHUNK_SIZE;
    let count = if len % DEFAULT_CHUNK_SIZE == 0 {
        whole
    } else {
        whole + 1
    };
    assert(count == chunk_count(len as int));
    if count as u64 > 0x1_0000_0000 {
        return Err(ErrorKind::EncryptionFailed);
    }
    let fek = match os_random(KEY_SIZE) {
        Some(fresh) => fresh,
        None => {
            return Err(ErrorKind::EncryptionFailed);
        },
    };
    let key_nonce = match os_random(NONCE_SIZE) {
        Some(fresh) => fresh,
        None => {
            return Err(ErrorKind::EncryptionFailed);
        },
    };
    let chunk_nonces = match draw_nonces(count) {
        Some(drawn) => drawn,
        None => {
            return Err(ErrorKind::EncryptionFailed);
        },
    };
    encrypt_file_streaming_with(
        file_data,
        master_key,
        fek.as_slice(),
        key_nonce.as_slice(),
        &chunk_nonces,
    )
}

/// Encrypts `file_data` into a container under `master_key`, as
/// [`encrypt_file_streaming`] does, and returns only the container.
pub fn encrypt_file(file_data: &[u8], master_key: &[u8]) -> (result: Result<Vec<u8>, ErrorKind>)
    ensures
        result matches Err(kind) ==> kind == ErrorKind::InvalidKeySize || kind
            == ErrorKind::EncryptionFailed,
        (result matches Err(kind) && kind == ErrorKind::InvalidKeySize) <==> master_key@.len()
            != KEY_SIZE,
        result matches Ok(out) ==> {
            let len = file_data@.len() as int;
            &&& out@.len() == PREFIX_SIZE + len + CHUNK_HEADER_SIZE * chunk_count(len)
            &&& out@.subrange(0, HEADER_SIZE as int) == header_bytes(WRAPPED_FEK_SIZE as u32)
            &&& frames_laid_out(out@, len, chunk_count(len))
            &&& opened_container(out@, master_key@) == Ok::<Seq<u8>, ErrorKind>(file_data@)
        },
{
    match encrypt_file_streaming(file_data, master_key) {
        Ok(out) => Ok(out.data),
        Err(kind) => Err(kind),
    }
}

/// The totals that a list of notifications holds, for a decryption: there the
/// total is not known ahead, and each notification gives the running total
/// twice.
pub open spec fn totals_of(progress: Seq<Progress>) -> Seq<int> {
    Seq::new(progress.len(), |i: int| progress[i].bytes_processed as int)
}

/// Opening a run that starts with a frame that opens: the plaintext of that
/// frame, then the rest of the run.
pub proof fn lemma_frames_step(
    rest: Seq<u8>,
    fek: Seq<u8>,
    index: int,
    acc: Seq<u8>,
    head: Seq<u8>,
    done: int,
)
    requires
        starts_with_frame(rest),
        opened_frame_at(rest.subrange(0, first_frame_len(rest)), fek, index) == Ok::<
            Seq<u8>,
            ErrorKind,
        >(head),
    ensures
        prepended(acc, opened_frames(rest, fek, index)) == prepended(
            acc + head,
            opened_frames(
                rest.subrange(first_frame_len(rest), rest.len() as int),
                fek,
                index + 1,
            ),
        ),
        opened_totals(rest, fek, index, done) == seq![done + head.len()] + opened_totals(
            rest.subrange(first_frame_len(rest), rest.len() as int),
            fek,
            index + 1,
            done + head.len(),
        ),
{
    let tail = opened_frames(
        rest.subrange(first_frame_len(rest), rest.len() as int),
        fek,
        index + 1,
    );
    if tail is Ok {
        assert(acc + (head + tail->Ok_0) =~= (acc + head) + tail->Ok_0);
    }
}

/// Opens, in the session, the frame that starts at `offset` in
/// `encrypted_data`, and says where it ends. Fails as the run of frames from
/// `offset` on fails at its first frame.
fn open_frame_at_offset(
    session: &mut DecryptionContext,
    encrypted_data: &[u8],
    offset: usize,
) -> (opened: Result<(Vec<u8>, usize), ErrorKind>)
    requires
        offset < encrypted_data@.len(),
        old(session).is_open(),
    ensures
        final(session).is_open(),
        final(session).fek_view() == old(session).fek_view(),
        ({
            let rest = encrypted_data@.subrange(offset as int, encrypted_data@.len() as int);
            let fek = old(session).fek_view();
            let index = old(session).index_view() as int;
            match opened {
                Ok((plain, end)) => {
                    &&& starts_with_frame(rest)
                    &&& end == offset + first_frame_len(rest)
                    &&& end <= encrypted_data@.len()
                    &&& plain@.len() + CHUNK_HEADER_SIZE == first_frame_len(rest)
                    &&& opened_frame_at(rest.subrange(0, first_frame_len(rest)), fek, index)
                        == Ok::<Seq<u8>, ErrorKind>(plain@)
                    &&& final(session).index_view() == index + 1
                },
                Err(kind) => opened_frames(rest, fek, index) == Err::<Seq<u8>, ErrorKind>(kind),
            }
        }),
{
    let len = encrypted_data.len();
    let ghost rest = encrypted_data@.subrange(offset as int, len as int);
    if len - offset < FRAME_HEADER_SIZE {
        return Err(ErrorKind::InvalidFormat);
    }
    let payload_len = u32_from_le(encrypted_data, offset + 4) as usize;
    assert(frame_payload_len(rest) == payload_len);
    if len - offset - FRAME_HEADER_SIZE < payload_len {
        return Err(ErrorKind::InvalidFormat);
    }
    let end: usize = offset + FRAME_HEADER_SIZE + payload_len;
    let frame = slice_subrange(encrypted_data, offset, end);
    assert(frame@ =~= rest.subrange(0, first_frame_len(rest)));
    match decrypt_chunk(session, frame) {
        Ok(plain) => Ok((plain, end)),
        Err(kind) => Err(kind),
    }
}

/// Decrypts a whole container under `master_key`. The result is exactly what
/// [`opened_container`] says: the plaintext of all frames in order, or the
/// failure of the prefix or of the first frame that fails. One notification
/// per frame carries the plaintext bytes so far.
pub fn decrypt_file_streaming(encrypted_data: &[u8], master_key: &[u8]) -> (result: Result<
    Processed,
    ErrorKind,
>)
    ensures
        match result {
            Ok(out) => opened_container(encrypted_data@, master_key@) == Ok::<
                Seq<u8>,
                ErrorKind,
            >(out.data@) && totals_of(out.progress@) == container_totals(
                encrypted_data@,
                master_key@,
            ) && forall|i: int|
                0 <= i < out.progress@.len() ==> (#[trigger] out.progress@[i]).total_bytes
                    == out.progress@[i].bytes_processed,
            Err(kind) => opened_container(encrypted_data@, master_key@) == Err::<
                Seq<u8>,
                ErrorKind,
            >(kind),
        },
{
    let mut session = match decrypt_file_init(encrypted_data, master_key) {
        Ok(session) => session,
        Err(kind) => {
            return Err(kind);
        },
    };
    let len = encrypted_data.len();
    let start: usize = HEADER_SIZE + u32_from_le(encrypted_data, 8) as usize;
    let mut offset: usize = start;
    let mut data: Vec<u8> = Vec::new();
    let mut progress: Vec<Progress> = Vec::new();
    let ghost fek = session.fek_view();
    let ghost all = encrypted_data@.subrange(start as int, len as int);
    let ghost goal = opened_frames(all, fek, 0);
    let ghost goal_totals = opened_totals(all, fek, 0, 0);
    proof {
        assert(totals_of(progress@) =~= Seq::<int>::empty());
        assert(Seq::<int>::empty() + goal_totals =~= goal_totals);
        if goal is Ok {
            assert(data@ + goal->Ok_0 =~= goal->Ok_0);
        }
    }
    while offset < len
        invariant
            len == encrypted_data@.len(),
            offset <= len,
            data@.len() <= offset,
            goal == opened_container(encrypted_data@, master_key@),
            goal_totals == container_totals(encrypted_data@, master_key@),
            session.is_open(),
            session.fek_view() == fek,
            prepended(
                data@,
                opened_frames(
                    encrypted_data@.subrange(offset as int, len as int),
                    fek,
                    session.index_view() as int,
                ),
            ) == goal,
            totals_of(progress@) + opened_totals(
                encrypted_data@.subrange(offset as int, len as int),
                fek,
                session.index_view() as int,
                data@.len() as int,
            ) == goal_totals,
            forall|i: int|
                0 <= i < progress@.len() ==> (#[trigger] progress@[i]).total_bytes
                    == progress@[i].bytes_processed,
        decreases len - offset,
    {
        let ghost rest = encrypted_data@.subrange(offset as int, len as int);
        let ghost old_data = data@;
        let ghost old_totals = totals_of(progress@);
        let ghost index = session.index_view() as int;
        let (plain, end) = match open_frame_at_offset(&mut session, encrypted_data, offset) {
            Ok(opened) => opened,
            Err(kind) => {
                return Err(kind);
            },
        };
        append_bytes(&mut data, plain.as_slice());
        let total = data.len();
        progress.push(Progress { bytes_processed: total, total_bytes: total });
        proof {
            lemma_frames_step(rest, fek, index, old_data, plain@, old_data.len() as int);
            assert(encrypted_data@.subrange(end as int, len as int) =~= rest.subrange(
                first_frame_len(rest),
                rest.len() as int,
            ));
            let later = opened_totals(
                encrypted_data@.subrange(end as int, len as int),
                fek,
                index + 1,
                data@.len() as int,
            );
            assert(totals_of(progress@) =~= old_totals + seq![data@.len() as int]);
            assert(old_totals + (seq![data@.len() as int] + later) =~= totals_of(progress@)
                + later);
        }
        offset = end;
    }
    proof {
        let rest = encrypted_data@.subrange(offset as int, len as int);
        assert(rest.len() == 0);
        assert(data@ + Seq::<u8>::empty() =~= data@);
        assert(totals_of(progress@) + Seq::<int>::empty() =~= totals_of(progress@));
    }
    Ok(Processed { data, progress })
}

/// Decrypts a whole container under `master_key`, as
/// [`decrypt_file_streaming`] does, and returns only the plaintext.
pub fn decrypt_file(encrypted_data: &[u8], master_key: &[u8]) -> (result: Result<
    Vec<u8>,
    ErrorKind,
>)
    ensures
        match result {
            Ok(out) => opened_container(encrypted_data@, master_key@) == Ok::<
                Seq<u8>,
                ErrorKind,
            >(out@),
            Err(kind) => opened_container(encrypted_data@, master_key@) == Err::<
                Seq<u8>,
                ErrorKind,
            >(kind),
        },
{
    match decrypt_file_streaming(encrypted_data, master_key) {
        Ok(out) => Ok(out.data),
        Err(kind) => Err(kind),
    }
}

/// Seals `data` under `key` with a fresh random nonce: the nonce, then the
/// ciphertext with its tag, as [`wrap_key_with_nonce`] makes them for that
/// nonce. Nothing comes back where the key is not 32 bytes, the data is
/// longer than the cipher takes, or the random source does not deliver. What
/// comes back opens to `data` under `key`.
pub fn encrypt_data(data: &[u8], key: &[u8]) -> (sealed: Option<Vec<u8>>)
    ensures
        key@.len() != KEY_SIZE || !sealable(data@.len()) ==> sealed is None,
        sealed is Some ==> sealed->0@.len() == NONCE_SIZE + data@.len() + MAC_SIZE,
        sealed is Some ==> sealed->0@ == wrapped_key(
            data@,
            key@,
            sealed->0@.subrange(0, NONCE_SIZE as int),
        ),
        sealed is Some ==> unwrapped_key(sealed->0@, key@) == Some(data@),
{
    let sealed = wrap_key(data, key);
    if sealed.len() == 0 {
        None
    } else {
        Some(sealed)
    }
}

/// Opens what [`encrypt_data`] sealed: succeeds exactly when the input has at
/// least 28 bytes, the key has 32, and the cipher authenticates the input
/// under the nonce that its first 12 bytes hold.
pub fn decrypt_data(encrypted_data: &[u8], key: &[u8]) -> (plain: Option<Vec<u8>>)
    ensures
        plain is Some <==> unwrapped_key(encrypted_data@, key@) is Some,
        plain is Some ==> unwrapped_key(encrypted_data@, key@) == Some(plain->0@),
{
    match unwrap_key(encrypted_data, key) {
        Ok(plain) => Some(plain),
        Err(_) => None,
    }
}

/// The plaintext of a single-shot container under `master`: the key from its
/// prefix, then all that follows the prefix opened under that key as one
/// sealed message.
pub open spec fn opened_single(data: Seq<u8>, master: Seq<u8>) -> Option<Seq<u8>> {
    match opened_prefix(data, master) {
        Err(_) => None,
        Ok(fek) => unwrapped_key(
            data.subrange(announced_prefix_len(data), data.len() as int),
            fek,
        ),
    }
}

/// A single-shot container: the header, the file-encryption key wrapped under
/// the master key with one nonce, and the file sealed under the
/// file-encryption key with another.
pub open spec fn single_container(
    file: Seq<u8>,
    fek: Seq<u8>,
    master: Seq<u8>,
    key_nonce: Seq<u8>,
    data_nonce: Seq<u8>,
) -> Seq<u8> {
    header_bytes(WRAPPED_FEK_SIZE as u32) + wrapped_key(fek, master, key_nonce) + wrapped_key(
        file,
        fek,
        data_nonce,
    )
}

/// Encrypts `file_data` in one piece with the two nonces given: header, the
/// key wrapped with `key_nonce`, then `data_nonce` and the ciphertext with its
/// tag. Nothing comes back exactly where a key is not 32 bytes, a nonce not
/// 12, or the data longer than can be sealed. What comes back opens to
/// `file_data` under `master_key`.
pub fn encrypt_file_with_fek_and_nonces(
    file_data: &[u8],
    fek: &[u8],
    master_key: &[u8],
    key_nonce: &[u8],
    data_nonce: &[u8],
) -> (result: Option<Vec<u8>>)
    ensures
        result is Some <==> fek@.len() == KEY_SIZE && master_key@.len() == KEY_SIZE
            && key_nonce@.len() == NONCE_SIZE && data_nonce@.len() == NONCE_SIZE && sealable(
            file_data@.len(),
        ),
        result is Some ==> result->0@ == single_container(
            file_data@,
            fek@,
            master_key@,
            key_nonce@,
            data_nonce@,
        ),
        result is Some ==> result->0@.len() == PREFIX_SIZE + NONCE_SIZE + file_data@.len()
            + MAC_SIZE,
        result is Some ==> result->0@.subrange(0, HEADER_SIZE as int) == header_bytes(
            WRAPPED_FEK_SIZE as u32,
        ),
        result is Some ==> result->0@.subrange(HEADER_SIZE as int, HEADER_SIZE + NONCE_SIZE)
            == key_nonce@,
        result is Some ==> result->0@.subrange(PREFIX_SIZE as int, PREFIX_SIZE + NONCE_SIZE)
            == data_nonce@,
        result is Some ==> opened_single(result->0@, master_key@) == Some(file_data@),
{
    if fek.len() != KEY_SIZE || master_key.len() != KEY_SIZE {
        return None;
    }
    let wrapped = wrap_key_with_nonce(fek, master_key, key_nonce);
    if wrapped.len() == 0 {
        return None;
    }
    let sealed = wrap_key_with_nonce(file_data, fek, data_nonce);
    if sealed.len() == 0 {
        return None;
    }
    let header = build_header(wrapped.len() as u32);
    let mut out: Vec<u8> = Vec::new();
    append_bytes(&mut out, header.as_slice());
    append_bytes(&mut out, wrapped.as_slice());
    append_bytes(&mut out, sealed.as_slice());
    proof {
        lemma_header_layout(WRAPPED_FEK_SIZE as u32);
        assert(out@.subrange(0, HEADER_SIZE as int) =~= header@);
        assert(header_fields(out@) == header_fields(header@));
        assert(out@.subrange(HEADER_SIZE as int, PREFIX_SIZE as int) =~= wrapped@);
        assert(out@.subrange(PREFIX_SIZE as int, out@.len() as int) =~= sealed@);
        assert(out@.subrange(HEADER_SIZE as int, HEADER_SIZE + NONCE_SIZE) =~= key_nonce@);
        assert(out@.subrange(PREFIX_SIZE as int, PREFIX_SIZE + NONCE_SIZE) =~= data_nonce@);
    }
    Some(out)
}

/// Encrypts `file_data` in one piece under the file-encryption key given,
/// which is stored wrapped under `master_key`: header, wrapped key, nonce,
/// ciphertext with tag, as [`encrypt_file_with_fek_and_nonces`] makes them
/// with two fresh random nonces. Nothing comes back where a key is not 32
/// bytes, the data is longer than can be sealed, or the random source does
/// not deliver. What comes back is the container for the two nonces that
/// stand in it, and opens to `file_data` under `master_key`.
pub fn encrypt_file_with_fek(file_data: &[u8], fek: &[u8], master_key: &[u8]) -> (result: Option<
    Vec<u8>,
>)
    ensures
        fek@.len() != KEY_SIZE || master_key@.len() != KEY_SIZE || !sealable(file_data@.len())
            ==> result is None,
        result is Some ==> result->0@ == single_container(
            file_data@,
            fek@,
            master_key@,
            result->0@.subrange(HEADER_SIZE as int, HEADER_SIZE + NONCE_SIZE),
            result->0@.subrange(PREFIX_SIZE as int, PREFIX_SIZE + NONCE_SIZE),
        ),
        result is Some ==> result->0@.len() == PREFIX_SIZE + NONCE_SIZE + file_data@.len()
            + MAC_SIZE,
        result is Some ==> result->0@.subrange(0, HEADER_SIZE as int) == header_bytes(
            WRAPPED_FEK_SIZE as u32,
        ),
        result is Some ==> opened_single(result->0@, master_key@) == Some(file_data@),
{
    let key_nonce = match os_random(NONCE_SIZE) {
        Some(nonce) => nonce,
        None => {
            return None;
        },
    };
    let data_nonce = match os_random(NONCE_SIZE) {
        Some(nonce) => nonce,
        None => {
            return None;
        },
    };
    encrypt_file_with_fek_and_nonces(
        file_data,
        fek,
        master_key,
        key_nonce.as_slice(),
        data_nonce.as_slice(),
    )
}

/// Opens a single-shot container under `master_key`; the result is exactly
/// what [`opened_single`] says.
pub fn decrypt_file_with_fek(encrypted_data: &[u8], master_key: &[u8]) -> (plain: Option<Vec<u8>>)
    ensures
        plain is Some <==> opened_single(encrypted_data@, master_key@) is Some,
        plain is Some ==> opened_single(encrypted_data@, master_key@) == Some(plain->0@),
{
    if master_key.len() != KEY_SIZE || encrypted_data.len() < HEADER_SIZE {
        return None;
    }
    let magic = u32_from_le(encrypted_data, 0);
    let version = encrypted_data[4];
    let fek_length = u32_from_le(encrypted_data, 8) as usize;
    if magic != MAGIC || version != VERSION {
        return None;
    }
    if encrypted_data.len() - HEADER_SIZE < fek_length {
        return None;
    }
    let wrapped = slice_subrange(encrypted_data, HEADER_SIZE, HEADER_SIZE + fek_length);
    let fek = match unwrap_key(wrapped, master_key) {
        Ok(fek) => fek,
        Err(_) => {
            return None;
        },
    };
    let rest = slice_subrange(encrypted_data, HEADER_SIZE + fek_length, encrypted_data.len());
    match unwrap_key(rest, fek.as_slice()) {
        Ok(plain) => Some(plain),
        Err(_) => None,
    }
}

/// Derives a 32-byte key from a password and a salt with PBKDF2-HMAC-SHA-256
/// in the given number of iterations.
pub fn derive_key_from_password(password: &str, salt: &[u8], iterations: u32) -> (key: Vec<u8>)
    ensures
        key@ == pbkdf2_sha256_key(password.spec_bytes(), salt@, iterations, KEY_SIZE as nat),
        key@.len() == KEY_SIZE,
{
    pbkdf2_derive(password.as_bytes(), salt, iterations, KEY_SIZE)
}

} // verus!
