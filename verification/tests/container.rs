use cloudnexus_core::container::{
    build_header, decrypt_chunk_impl, encrypt_chunk_impl, encrypt_chunk_with_nonce, parse_header,
    unwrap_key, wrap_key, wrap_key_with_nonce, CHUNK_HEADER_SIZE, DEFAULT_CHUNK_SIZE, HEADER_SIZE,
    MAGIC, VERSION,
};
use cloudnexus_core::error::ErrorKind;
use cloudnexus_core::le_bytes::{u32_from_le, u32_to_le};
use cloudnexus_core::session::{
    decrypt_chunk, decrypt_file_finalize, decrypt_file_init, encrypt_chunk, encrypt_chunk_with,
    encrypt_file_finalize, encrypt_file_get_wrapped_fek, encrypt_file_init,
    encrypt_file_init_with,
};
use cloudnexus_core::whole_file::{
    decrypt_data, decrypt_file, decrypt_file_streaming, decrypt_file_with_fek,
    derive_key_from_password, encrypt_data, encrypt_file, encrypt_file_streaming,
    encrypt_file_streaming_with, encrypt_file_with_fek, encrypt_file_with_fek_and_nonces,
};

fn hex(bytes: &[u8]) -> String {
    let mut out = String::new();
    for b in bytes {
        out.push_str(&format!("{:02x}", b));
    }
    out
}

#[test]
fn little_endian_round_trip() {
    assert_eq!(u32_to_le(0x434E4552), [0x52, 0x45, 0x4E, 0x43]);
    assert_eq!(u32_to_le(60), [60, 0, 0, 0]);
    assert_eq!(u32_from_le(&[0x52, 0x45, 0x4E, 0x43], 0), 0x434E4552);
    assert_eq!(u32_from_le(&[9, 0xFF, 0xFF, 0xFF, 0xFF], 1), u32::MAX);
    assert_eq!(u32_to_le(u32::MAX), [0xFF; 4]);
}

#[test]
fn header_layout() {
    let header = build_header(60);
    assert_eq!(header, [0x52, 0x45, 0x4E, 0x43, 0x01, 0, 0, 0, 0x3C, 0, 0, 0]);
    assert_eq!(header.len(), HEADER_SIZE);
    assert_eq!(parse_header(&header), Ok((MAGIC, VERSION, 60)));
}

#[test]
fn parse_header_needs_twelve_bytes() {
    assert_eq!(parse_header(&[0u8; 11]), Err(()));
    assert_eq!(parse_header(&[]), Err(()));
    assert_eq!(parse_header(&[0xFFu8; 12]), Ok((u32::MAX, 0xFF, u32::MAX as usize)));
    let mut longer = build_header(7).to_vec();
    longer.extend_from_slice(&[1, 2, 3]);
    assert_eq!(parse_header(&longer), Ok((MAGIC, 1, 7)));
}

#[test]
fn wrap_then_unwrap_gives_key_back() {
    let master = [7u8; 32];
    let key = [9u8; 32];
    let wrapped = wrap_key(&key, &master);
    assert_eq!(wrapped.len(), 60);
    assert_ne!(&wrapped[12..44], &key[..]);
    assert_eq!(unwrap_key(&wrapped, &master), Ok(key.to_vec()));
}

#[test]
fn wrap_with_nonce_is_deterministic() {
    let master = [1u8; 32];
    let key = [2u8; 32];
    let nonce = [3u8; 12];
    let a = wrap_key_with_nonce(&key, &master, &nonce);
    let b = wrap_key_with_nonce(&key, &master, &nonce);
    assert_eq!(a, b);
    assert_eq!(&a[..12], &nonce[..]);
    assert_eq!(a.len(), 60);
    assert!(wrap_key_with_nonce(&key, &master, &[3u8; 11]).is_empty());
    assert!(wrap_key_with_nonce(&key, &[1u8; 31], &nonce).is_empty());
}

#[test]
fn wrap_fails_on_short_master_key() {
    assert!(wrap_key(&[9u8; 32], &[7u8; 16]).is_empty());
}

#[test]
fn unwrap_rejects_short_input_wrong_key_and_tampering() {
    let master = [7u8; 32];
    let wrapped = wrap_key(&[9u8; 32], &master);
    assert_eq!(unwrap_key(&wrapped[..27], &master), Err(()));
    assert_eq!(unwrap_key(&wrapped, &[8u8; 32]), Err(()));
    assert_eq!(unwrap_key(&wrapped, &[7u8; 31]), Err(()));
    let mut tampered = wrapped.clone();
    tampered[20] ^= 1;
    assert_eq!(unwrap_key(&tampered, &master), Err(()));
}

#[test]
fn unwrap_of_empty_payload() {
    let master = [5u8; 32];
    let wrapped = wrap_key(&[], &master);
    assert_eq!(wrapped.len(), 28);
    assert_eq!(unwrap_key(&wrapped, &master), Ok(Vec::new()));
}

#[test]
fn known_ciphertext_for_zero_key_and_nonce() {
    // AES-256-GCM, all-zero key and nonce, empty plaintext: the tag alone.
    let frame = encrypt_chunk_with_nonce(&[], &[0u8; 32], 0, &[0u8; 12]).unwrap();
    assert_eq!(frame.len(), 36);
    assert_eq!(hex(&frame[20..]), "530f8afbc74536b9a963b4f1c4cb738b");
    // and with sixteen zero bytes of plaintext
    let frame = encrypt_chunk_with_nonce(&[0u8; 16], &[0u8; 32], 0, &[0u8; 12]).unwrap();
    assert_eq!(
        hex(&frame[20..]),
        "cea7403d4d606b6e074ec5d3baf39d18d0d1c8a799996bf0265b98b5d48ab919"
    );
}

#[test]
fn frame_layout() {
    let fek = [3u8; 32];
    let frame = encrypt_chunk_impl(b"hello world", &fek, 5).unwrap();
    assert_eq!(frame.len(), 11 + CHUNK_HEADER_SIZE);
    assert_eq!(u32_from_le(&frame, 0), 5);
    assert_eq!(u32_from_le(&frame, 4), 11 + 16);
    assert_ne!(&frame[20..31], b"hello world");
    let (plain, len) = decrypt_chunk_impl(&frame, &fek).unwrap();
    assert_eq!(plain, b"hello world");
    assert_eq!(len, frame.len());
}

#[test]
fn frame_with_nonce_is_exact() {
    let fek = [3u8; 32];
    let nonce = [4u8; 12];
    let a = encrypt_chunk_with_nonce(b"abc", &fek, 1, &nonce).unwrap();
    let b = encrypt_chunk_with_nonce(b"abc", &fek, 1, &nonce).unwrap();
    assert_eq!(a, b);
    assert_eq!(&a[8..20], &nonce[..]);
    assert_eq!(encrypt_chunk_with_nonce(b"abc", &fek, 1, &[4u8; 13]), None);
    assert_eq!(encrypt_chunk_with_nonce(b"abc", &[3u8; 16], 1, &nonce), None);
    assert_eq!(encrypt_chunk_impl(b"abc", &[3u8; 16], 1), None);
}

#[test]
fn two_chunks_never_share_a_nonce() {
    let fek = [3u8; 32];
    let a = encrypt_chunk_impl(b"same", &fek, 0).unwrap();
    let b = encrypt_chunk_impl(b"same", &fek, 1).unwrap();
    assert_ne!(&a[8..20], &b[8..20]);
    assert_ne!(&a[20..], &b[20..]);
}

#[test]
fn decrypt_chunk_errors() {
    let fek = [3u8; 32];
    let frame = encrypt_chunk_impl(b"payload", &fek, 0).unwrap();
    assert_eq!(decrypt_chunk_impl(&frame[..19], &fek), Err(ErrorKind::InvalidFormat));
    assert_eq!(decrypt_chunk_impl(&frame[..frame.len() - 1], &fek), Err(ErrorKind::InvalidFormat));
    let mut longer = frame.clone();
    longer.push(0);
    assert_eq!(decrypt_chunk_impl(&longer, &fek), Err(ErrorKind::InvalidFormat));
    assert_eq!(decrypt_chunk_impl(&frame, &[4u8; 32]), Err(ErrorKind::DecryptionFailed));
    assert_eq!(decrypt_chunk_impl(&frame, &[3u8; 31]), Err(ErrorKind::DecryptionFailed));
}

#[test]
fn flipping_any_ciphertext_bit_fails_decryption() {
    let fek = [3u8; 32];
    let frame = encrypt_chunk_impl(b"some plaintext", &fek, 0).unwrap();
    for byte in 20..frame.len() {
        for bit in 0..8 {
            let mut tampered = frame.clone();
            tampered[byte] ^= 1 << bit;
            assert_eq!(decrypt_chunk_impl(&tampered, &fek), Err(ErrorKind::DecryptionFailed));
        }
    }
}

#[test]
fn swapping_frame_fields_between_chunks_fails() {
    let master = [0u8; 32];
    let mut enc = encrypt_file_init(&master, None).unwrap();
    let first = encrypt_chunk(&mut enc, b"first chunk", 0).unwrap();
    let second = encrypt_chunk(&mut enc, b"second chunk!", 1).unwrap();
    let prefix = enc.prefix();

    // the index of another chunk
    let mut dec = decrypt_file_init(&prefix, &master).unwrap();
    let mut wrong_index = first.clone();
    wrong_index[..4].copy_from_slice(&second[..4]);
    assert_eq!(decrypt_chunk(&mut dec, &wrong_index), Err(ErrorKind::DecryptionFailed));
    // the nonce of another chunk
    let mut wrong_nonce = first.clone();
    wrong_nonce[8..20].copy_from_slice(&second[8..20]);
    assert_eq!(decrypt_chunk(&mut dec, &wrong_nonce), Err(ErrorKind::DecryptionFailed));
    // the payload length of another chunk
    let mut wrong_length = first.clone();
    wrong_length[4..8].copy_from_slice(&second[4..8]);
    assert_eq!(decrypt_chunk(&mut dec, &wrong_length), Err(ErrorKind::InvalidFormat));
    // untouched, the chunks open in order
    assert_eq!(dec.chunk_index(), 0);
    assert_eq!(decrypt_chunk(&mut dec, &first), Ok(b"first chunk".to_vec()));
    assert_eq!(decrypt_chunk(&mut dec, &second), Ok(b"second chunk!".to_vec()));
    assert_eq!(dec.chunk_index(), 2);
}

#[test]
fn session_refuses_out_of_order_frames() {
    let master = [1u8; 32];
    let mut enc = encrypt_file_init(&master, None).unwrap();
    let first = encrypt_chunk(&mut enc, b"a", 0).unwrap();
    let second = encrypt_chunk(&mut enc, b"b", 1).unwrap();
    let mut dec = decrypt_file_init(&enc.prefix(), &master).unwrap();
    assert_eq!(decrypt_chunk(&mut dec, &second), Err(ErrorKind::DecryptionFailed));
    assert_eq!(decrypt_chunk(&mut dec, &first), Ok(b"a".to_vec()));
    assert_eq!(decrypt_chunk(&mut dec, &first), Err(ErrorKind::DecryptionFailed));
    assert_eq!(decrypt_chunk(&mut dec, &second), Ok(b"b".to_vec()));
}

#[test]
fn encrypt_session_init() {
    let master = [2u8; 32];
    let session = encrypt_file_init(&master, None).unwrap();
    assert!(session.accepts_chunks());
    assert_eq!(session.chunk_index(), 0);
    assert_eq!(session.header(), build_header(60));
    let wrapped = encrypt_file_get_wrapped_fek(&session);
    assert_eq!(wrapped.len(), 60);
    let prefix = session.prefix();
    assert_eq!(prefix.len(), 72);
    assert_eq!(&prefix[..12], &build_header(60)[..]);
    assert_eq!(&prefix[12..], &wrapped[..]);
    assert_eq!(u32_from_le(&prefix, 8) as usize, wrapped.len());
    assert!(wrapped.len() >= 28);
}

#[test]
fn encrypt_session_with_given_key() {
    let master = [2u8; 32];
    let fek = [0x11u8; 32];
    let mut session = encrypt_file_init(&master, Some(&fek)).unwrap();
    let wrapped = encrypt_file_get_wrapped_fek(&session);
    assert_eq!(unwrap_key(&wrapped, &master), Ok(fek.to_vec()));
    let frame = encrypt_chunk(&mut session, b"data", 0).unwrap();
    assert_eq!(decrypt_chunk_impl(&frame, &fek).unwrap().0, b"data");
}

#[test]
fn encrypt_session_key_sizes() {
    assert!(matches!(encrypt_file_init(&[0u8; 31], None), Err(ErrorKind::InvalidKeySize)));
    assert!(matches!(encrypt_file_init(&[0u8; 33], None), Err(ErrorKind::InvalidKeySize)));
    assert!(matches!(encrypt_file_init(&[], None), Err(ErrorKind::InvalidKeySize)));
    assert!(matches!(
        encrypt_file_init(&[0u8; 32], Some(&[1u8; 16])),
        Err(ErrorKind::InvalidKeySize)
    ));
}

#[test]
fn encrypt_session_records_index_and_closes() {
    let master = [2u8; 32];
    let mut session = encrypt_file_init(&master, None).unwrap();
    assert!(encrypt_chunk(&mut session, b"x", 7).is_some());
    assert_eq!(session.chunk_index(), 7);
    encrypt_file_finalize(&mut session);
    assert!(!session.accepts_chunks());
    assert_eq!(encrypt_chunk(&mut session, b"x", 8), None);
    assert_eq!(session.chunk_index(), 7);
    encrypt_file_finalize(&mut session);
    assert!(!session.accepts_chunks());
}

#[test]
fn decrypt_session_closes() {
    let master = [2u8; 32];
    let mut enc = encrypt_file_init(&master, None).unwrap();
    let frame = encrypt_chunk(&mut enc, b"x", 0).unwrap();
    let mut dec = decrypt_file_init(&enc.prefix(), &master).unwrap();
    assert!(dec.accepts_chunks());
    decrypt_file_finalize(&mut dec);
    assert!(!dec.accepts_chunks());
    assert_eq!(decrypt_chunk(&mut dec, &frame), Err(ErrorKind::DecryptionFailed));
    decrypt_file_finalize(&mut dec);
    assert!(!dec.accepts_chunks());
}

#[test]
fn malformed_container() {
    let input = [0xFFu8; 12];
    assert!(matches!(decrypt_file_init(&input, &[0u8; 32]), Err(ErrorKind::InvalidFormat)));
    assert_eq!(decrypt_file(&input, &[0u8; 32]), Err(ErrorKind::InvalidFormat));
}

#[test]
fn decrypt_init_errors() {
    let master = [6u8; 32];
    let good = encrypt_file(b"abc", &master).unwrap();
    assert!(matches!(decrypt_file_init(&good, &[6u8; 31]), Err(ErrorKind::InvalidKeySize)));
    assert!(matches!(decrypt_file_init(&good[..11], &master), Err(ErrorKind::InvalidFormat)));
    assert!(matches!(decrypt_file_init(&good[..71], &master), Err(ErrorKind::InvalidFormat)));
    assert!(decrypt_file_init(&good[..72], &master).is_ok());
    let mut bad_magic = good.clone();
    bad_magic[0] ^= 1;
    assert!(matches!(decrypt_file_init(&bad_magic, &master), Err(ErrorKind::InvalidFormat)));
    let mut bad_version = good.clone();
    bad_version[4] = 2;
    assert!(matches!(decrypt_file_init(&bad_version, &master), Err(ErrorKind::InvalidFormat)));
    let mut bad_key = good.clone();
    bad_key[30] ^= 0x80;
    assert!(matches!(decrypt_file_init(&bad_key, &master), Err(ErrorKind::InvalidFormat)));
    assert!(matches!(decrypt_file_init(&good, &[5u8; 32]), Err(ErrorKind::InvalidFormat)));
}

#[test]
fn encrypt_decrypt_three_mebibytes() {
    let master = [0u8; 32];
    let plain = vec![0x41u8; 3 * 1024 * 1024];
    let out = encrypt_file_streaming(&plain, &master).unwrap();
    let data = &out.data;
    assert_eq!(&data[..12], &[0x52, 0x45, 0x4E, 0x43, 0x01, 0x00, 0x00, 0x00, 0x3C, 0x00, 0x00, 0x00]);
    assert_eq!(data.len(), 12 + 60 + 3 * (20 + 1048592));
    let mut offset = 72;
    for index in 0..3u32 {
        assert_eq!(u32_from_le(data, offset), index);
        assert_eq!(u32_from_le(data, offset + 4), 1048592);
        offset += 20 + 1048592;
    }
    assert_eq!(offset, data.len());
    assert_eq!(out.progress.len(), 3);
    for (i, p) in out.progress.iter().enumerate() {
        assert_eq!(p.bytes_processed, (i + 1) * DEFAULT_CHUNK_SIZE);
        assert_eq!(p.total_bytes, plain.len());
    }
    let back = decrypt_file_streaming(data, &master).unwrap();
    assert_eq!(back.data, plain);
    assert_eq!(back.progress.len(), 3);
    for (i, p) in back.progress.iter().enumerate() {
        assert_eq!(p.bytes_processed, (i + 1) * DEFAULT_CHUNK_SIZE);
        assert_eq!(p.total_bytes, p.bytes_processed);
    }
}

#[test]
fn round_trip_of_odd_sizes() {
    let master = [0x5Au8; 32];
    for len in [0usize, 1, 15, 16, 17, 1048575, 1048576, 1048577] {
        let plain: Vec<u8> = (0..len).map(|i| (i % 251) as u8).collect();
        let sealed = encrypt_file(&plain, &master).unwrap();
        let chunks = (len + 1048575) / 1048576;
        assert_eq!(sealed.len(), 72 + len + 36 * chunks);
        assert_eq!(decrypt_file(&sealed, &master), Ok(plain));
    }
}

#[test]
fn last_frame_is_short() {
    let master = [0x5Au8; 32];
    let plain = vec![1u8; 1048576 + 10];
    let out = encrypt_file_streaming(&plain, &master).unwrap();
    assert_eq!(u32_from_le(&out.data, 72), 0);
    assert_eq!(u32_from_le(&out.data, 72 + 4), 1048592);
    let second = 72 + 20 + 1048592;
    assert_eq!(u32_from_le(&out.data, second), 1);
    assert_eq!(u32_from_le(&out.data, second + 4), 26);
    assert_eq!(out.progress[1].bytes_processed, plain.len());
}

#[test]
fn whole_file_errors() {
    let master = [0x5Au8; 32];
    assert!(matches!(encrypt_file_streaming(b"x", &[0u8; 16]), Err(ErrorKind::InvalidKeySize)));
    assert_eq!(encrypt_file(b"x", &[]), Err(ErrorKind::InvalidKeySize));
    let sealed = encrypt_file(b"some bytes", &master).unwrap();
    assert_eq!(decrypt_file(&sealed, &[0u8; 16]), Err(ErrorKind::InvalidKeySize));
    assert_eq!(decrypt_file(&sealed[..sealed.len() - 1], &master), Err(ErrorKind::InvalidFormat));
    assert_eq!(decrypt_file(&sealed[..80], &master), Err(ErrorKind::InvalidFormat));
    let mut extra = sealed.clone();
    extra.push(0);
    assert_eq!(decrypt_file(&extra, &master), Err(ErrorKind::InvalidFormat));
    let mut flipped = sealed.clone();
    let last = flipped.len() - 1;
    flipped[last] ^= 1;
    assert_eq!(decrypt_file(&flipped, &master), Err(ErrorKind::DecryptionFailed));
    let mut renumbered = sealed.clone();
    renumbered[72] = 1;
    assert_eq!(decrypt_file(&renumbered, &master), Err(ErrorKind::DecryptionFailed));
    assert_eq!(decrypt_file(&sealed, &[0x5Bu8; 32]), Err(ErrorKind::InvalidFormat));
}

#[test]
fn data_round_trip() {
    let key = [8u8; 32];
    let sealed = encrypt_data(b"attack at dawn", &key).unwrap();
    assert_eq!(sealed.len(), 12 + 14 + 16);
    assert_ne!(&sealed[12..26], b"attack at dawn");
    assert_eq!(decrypt_data(&sealed, &key), Some(b"attack at dawn".to_vec()));
    assert_eq!(decrypt_data(&sealed, &[9u8; 32]), None);
    assert_eq!(decrypt_data(&sealed[..27], &key), None);
    assert_eq!(encrypt_data(b"x", &[8u8; 31]), None);
    assert_eq!(decrypt_data(&sealed, &[8u8; 31]), None);
}

#[test]
fn single_shot_container_round_trip() {
    let master = [1u8; 32];
    let fek = [2u8; 32];
    let sealed = encrypt_file_with_fek(b"contents", &fek, &master).unwrap();
    assert_eq!(sealed.len(), 72 + 12 + 8 + 16);
    assert_eq!(&sealed[..12], &build_header(60)[..]);
    assert_eq!(decrypt_file_with_fek(&sealed, &master), Some(b"contents".to_vec()));
    assert_eq!(decrypt_file_with_fek(&sealed, &fek), None);
    assert_eq!(decrypt_file_with_fek(&sealed[..sealed.len() - 1], &master), None);
    assert_eq!(decrypt_file_with_fek(&sealed[..30], &master), None);
    assert_eq!(decrypt_file_with_fek(&[0xFFu8; 12], &master), None);
    assert_eq!(encrypt_file_with_fek(b"contents", &[2u8; 31], &master), None);
    assert_eq!(encrypt_file_with_fek(b"contents", &fek, &[1u8; 33]), None);
}

#[test]
fn key_derivation_vectors() {
    assert_eq!(
        hex(&derive_key_from_password("password", b"salt", 1)),
        "120fb6cffcf8b32c43e7225256c4f837a86548c92ccc35480805987cb70be17b"
    );
    assert_eq!(
        hex(&derive_key_from_password("password", b"salt", 4096)),
        "c5e478d59288c841aa530db6845c4c8d962893a001ce4e11a4963873aa98134a"
    );
    assert_eq!(derive_key_from_password("", b"", 1).len(), 32);
}

#[test]
fn error_codes() {
    assert_eq!(ErrorKind::Success.code(), 0);
    assert_eq!(ErrorKind::NullPointer.code(), -1);
    assert_eq!(ErrorKind::FileNotFound.code(), -2);
    assert_eq!(ErrorKind::PermissionDenied.code(), -3);
    assert_eq!(ErrorKind::DiskFull.code(), -4);
    assert_eq!(ErrorKind::InvalidPath.code(), -5);
    assert_eq!(ErrorKind::IoFailed.code(), -6);
    assert_eq!(ErrorKind::Cancelled.code(), -7);
    assert_eq!(ErrorKind::BufferAllocFailed.code(), -8);
    assert_eq!(ErrorKind::InvalidKeySize.code(), -9);
    assert_eq!(ErrorKind::InvalidFormat.code(), -10);
    assert_eq!(ErrorKind::EncryptionFailed.code(), -11);
    assert_eq!(ErrorKind::DecryptionFailed.code(), -12);
    for code in -14..3 {
        match ErrorKind::from_code(code) {
            Some(kind) => assert_eq!(kind.code(), code),
            None => assert!(code < -12 || code > 0),
        }
    }
}

#[test]
fn sealed_data_is_the_wrapping_for_its_nonce() {
    let key = [8u8; 32];
    let sealed = encrypt_data(b"attack at dawn", &key).unwrap();
    assert_eq!(sealed, wrap_key_with_nonce(b"attack at dawn", &key, &sealed[..12]));
}

#[test]
fn single_shot_container_with_given_nonces_is_exact() {
    let fek = [2u8; 32];
    let master = [1u8; 32];
    let key_nonce = [5u8; 12];
    let data_nonce = [6u8; 12];
    let sealed =
        encrypt_file_with_fek_and_nonces(b"contents", &fek, &master, &key_nonce, &data_nonce)
            .unwrap();
    let mut expected = build_header(60).to_vec();
    expected.extend_from_slice(&wrap_key_with_nonce(&fek, &master, &key_nonce));
    expected.extend_from_slice(&wrap_key_with_nonce(b"contents", &fek, &data_nonce));
    assert_eq!(sealed, expected);
    assert_eq!(sealed.len(), 72 + 12 + 8 + 16);
    assert_eq!(&sealed[12..24], &key_nonce);
    assert_eq!(&sealed[72..84], &data_nonce);
    assert_eq!(decrypt_file_with_fek(&sealed, &master), Some(b"contents".to_vec()));
    let again =
        encrypt_file_with_fek_and_nonces(b"contents", &fek, &master, &key_nonce, &data_nonce);
    assert_eq!(again, Some(sealed));
}

#[test]
fn single_shot_container_with_given_nonces_refuses_bad_sizes() {
    let fek = [2u8; 32];
    let master = [1u8; 32];
    let nonce = [5u8; 12];
    assert_eq!(encrypt_file_with_fek_and_nonces(b"x", &fek[..31], &master, &nonce, &nonce), None);
    assert_eq!(encrypt_file_with_fek_and_nonces(b"x", &fek, &master[..31], &nonce, &nonce), None);
    assert_eq!(encrypt_file_with_fek_and_nonces(b"x", &fek, &master, &nonce[..11], &nonce), None);
    assert_eq!(encrypt_file_with_fek_and_nonces(b"x", &fek, &master, &nonce, &[0u8; 13]), None);
    assert!(encrypt_file_with_fek_and_nonces(b"", &fek, &master, &nonce, &nonce).is_some());
}

#[test]
fn single_shot_container_is_the_one_for_its_nonces() {
    let fek = [2u8; 32];
    let master = [1u8; 32];
    let sealed = encrypt_file_with_fek(b"contents", &fek, &master).unwrap();
    let same = encrypt_file_with_fek_and_nonces(
        b"contents",
        &fek,
        &master,
        &sealed[12..24],
        &sealed[72..84],
    );
    assert_eq!(same, Some(sealed));
}

#[test]
fn container_with_given_key_and_nonces_is_exact() {
    let master = [1u8; 32];
    let fek = [2u8; 32];
    let key_nonce = [3u8; 12];
    let nonces: Vec<Vec<u8>> = (0u8..3).map(|i| vec![10 + i; 12]).collect();
    let mut file = vec![0x41u8; 2 * DEFAULT_CHUNK_SIZE];
    file.extend_from_slice(b"the tail");
    let out =
        encrypt_file_streaming_with(&file, &master, &fek, &key_nonce, &nonces).unwrap();

    let mut expected = build_header(60).to_vec();
    expected.extend_from_slice(&wrap_key_with_nonce(&fek, &master, &key_nonce));
    for (i, chunk) in file.chunks(DEFAULT_CHUNK_SIZE).enumerate() {
        let frame = encrypt_chunk_with_nonce(chunk, &fek, i as u32, &nonces[i]).unwrap();
        assert_eq!(&frame[8..20], &nonces[i][..]);
        expected.extend_from_slice(&frame);
    }
    assert_eq!(out.data, expected);
    assert_eq!(out.data.len(), 72 + file.len() + 3 * CHUNK_HEADER_SIZE);
    assert_eq!(out.progress.len(), 3);
    assert_eq!(out.progress[2].bytes_processed, file.len());
    assert_eq!(decrypt_file(&out.data, &master), Ok(file.clone()));

    let again = encrypt_file_streaming_with(&file, &master, &fek, &key_nonce, &nonces).unwrap();
    assert_eq!(again.data, out.data);
    let mut more = nonces.clone();
    more.push(vec![0u8; 5]);
    let with_spare = encrypt_file_streaming_with(&file, &master, &fek, &key_nonce, &more).unwrap();
    assert_eq!(with_spare.data, out.data);
}

#[test]
fn container_with_given_key_and_nonces_refuses_what_does_not_fit() {
    let master = [1u8; 32];
    let fek = [2u8; 32];
    let key_nonce = [3u8; 12];
    let nonces = vec![vec![9u8; 12], vec![8u8; 12]];
    let file = vec![7u8; DEFAULT_CHUNK_SIZE + 1];
    let kind = |r: Result<_, ErrorKind>| r.map(|_: cloudnexus_core::whole_file::Processed| ()).unwrap_err();
    assert_eq!(
        kind(encrypt_file_streaming_with(&file, &master[..31], &fek, &key_nonce, &nonces)),
        ErrorKind::InvalidKeySize
    );
    assert_eq!(
        kind(encrypt_file_streaming_with(&file, &master, &fek[..16], &key_nonce, &nonces)),
        ErrorKind::InvalidKeySize
    );
    assert_eq!(
        kind(encrypt_file_streaming_with(&file, &master, &fek, &key_nonce[..11], &nonces)),
        ErrorKind::EncryptionFailed
    );
    assert_eq!(
        kind(encrypt_file_streaming_with(&file, &master, &fek, &key_nonce, &nonces[..1].to_vec())),
        ErrorKind::EncryptionFailed
    );
    let short = vec![vec![9u8; 12], vec![8u8; 11]];
    assert_eq!(
        kind(encrypt_file_streaming_with(&file, &master, &fek, &key_nonce, &short)),
        ErrorKind::EncryptionFailed
    );
    let empty = encrypt_file_streaming_with(b"", &master, &fek, &key_nonce, &Vec::new()).unwrap();
    assert_eq!(empty.data.len(), 72);
    assert!(empty.progress.is_empty());
    assert_eq!(decrypt_file(&empty.data, &master), Ok(Vec::new()));
}

#[test]
fn session_with_given_key_and_nonces_is_exact() {
    let master = [1u8; 32];
    let fek = [2u8; 32];
    let key_nonce = [3u8; 12];
    let mut session = encrypt_file_init_with(&master, &fek, &key_nonce).unwrap();
    assert_eq!(
        encrypt_file_get_wrapped_fek(&session),
        wrap_key_with_nonce(&fek, &master, &key_nonce)
    );
    assert_eq!(session.header(), build_header(60));
    assert_eq!(session.chunk_index(), 0);
    let nonce = [4u8; 12];
    let frame = encrypt_chunk_with(&mut session, b"abc", 7, &nonce).unwrap();
    assert_eq!(frame, encrypt_chunk_with_nonce(b"abc", &fek, 7, &nonce).unwrap());
    assert_eq!(session.chunk_index(), 7);
    assert_eq!(encrypt_chunk_with(&mut session, b"abc", 8, &nonce[..11]), None);
    assert_eq!(session.chunk_index(), 8);
    encrypt_file_finalize(&mut session);
    assert_eq!(encrypt_chunk_with(&mut session, b"abc", 9, &nonce), None);
    assert_eq!(session.chunk_index(), 8);

    assert!(matches!(
        encrypt_file_init_with(&master[..31], &fek, &key_nonce),
        Err(ErrorKind::InvalidKeySize)
    ));
    assert!(matches!(
        encrypt_file_init_with(&master, &fek[..31], &key_nonce),
        Err(ErrorKind::InvalidKeySize)
    ));
    assert!(matches!(
        encrypt_file_init_with(&master, &fek, &[3u8; 13]),
        Err(ErrorKind::EncryptionFailed)
    ));
}

#[test]
fn wrapped_key_has_its_nonce_first_and_is_28_bytes_longer() {
    let master = [1u8; 32];
    let nonce = [6u8; 12];
    for len in [0usize, 1, 32, 100] {
        let key = vec![5u8; len];
        let wrapped = wrap_key_with_nonce(&key, &master, &nonce);
        assert_eq!(wrapped.len(), len + 28);
        assert_eq!(&wrapped[..12], &nonce[..]);
        assert_eq!(unwrap_key(&wrapped, &master), Ok(key));
    }
    assert_eq!(wrap_key_with_nonce(&[5u8; 32], &master, &nonce).len(), 60);
}
