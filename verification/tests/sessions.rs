use cloudnexus_core::cancel::CancellationToken;
use cloudnexus_core::container::{
    build_header, encrypt_chunk_with_nonce, unwrap_key, wrap_key_with_nonce,
};
use cloudnexus_core::download::{download_init, download_init_with_size, DownloadContext};
use cloudnexus_core::error::ErrorKind;
use cloudnexus_core::le_bytes::u32_from_le;
use cloudnexus_core::upload::{upload_init, UploadContext, UploadStep};
use cloudnexus_core::whole_file::{decrypt_file, encrypt_file, Progress};

fn drive_upload(upload: &mut UploadContext, file: &[u8]) -> Vec<Vec<u8>> {
    let mut sent = Vec::new();
    let mut offset = 0;
    loop {
        match upload.upload_process_chunk() {
            UploadStep::Prefix { data } => sent.push(data),
            UploadStep::Read { len } => {
                let chunk = upload.chunk_read(&file[offset..offset + len]).unwrap();
                assert_eq!(chunk.plaintext_len, len);
                assert_eq!(chunk.chunk_index as usize, offset / (1024 * 1024));
                offset += len;
                sent.push(chunk.data);
            }
            UploadStep::Done => break,
            UploadStep::Stop { kind } => panic!("stopped: {:?}", kind),
        }
    }
    sent
}

#[test]
fn plain_upload_hands_the_file_out_in_chunks() {
    let file: Vec<u8> = (0..(2 * 1024 * 1024 + 5)).map(|i| (i % 256) as u8).collect();
    let mut upload = upload_init("f.bin".to_string(), file.len(), None, false, None);
    assert_eq!(upload.file_path(), "f.bin");
    assert_eq!(upload.upload_get_total_bytes(), file.len());
    let sent = drive_upload(&mut upload, &file);
    assert_eq!(sent.len(), 3);
    assert_eq!(sent[2].len(), 5);
    assert_eq!(sent.concat(), file);
    assert_eq!(upload.upload_get_bytes_processed(), file.len());
    assert_eq!(upload.chunk_index(), 3);
    assert_eq!(upload.upload_finalize(), ErrorKind::Success);
}

#[test]
fn encrypted_upload_makes_a_container() {
    let master = [9u8; 32];
    let file: Vec<u8> = (0..(1024 * 1024 + 100)).map(|i| (i % 253) as u8).collect();
    let mut upload = upload_init("f.bin".to_string(), file.len(), Some(&master), true, None);
    let sent = drive_upload(&mut upload, &file);
    assert_eq!(sent.len(), 3);
    assert_eq!(sent[0].len(), 72);
    assert_eq!(&sent[0][..12], &build_header(60)[..]);
    assert_eq!(u32_from_le(&sent[1], 0), 0);
    assert_eq!(u32_from_le(&sent[2], 0), 1);
    assert_eq!(sent[1].len(), 1024 * 1024 + 36);
    assert_eq!(decrypt_file(&sent.concat(), &master), Ok(file.clone()));
    // progress is that of the file
    assert_eq!(upload.upload_get_bytes_processed(), file.len());
    upload.upload_finalize();
    upload.upload_finalize();
}

#[test]
fn header_asked_for_first_is_not_sent_again() {
    let master = [9u8; 32];
    let mut upload = upload_init("f".to_string(), 3, Some(&master), true, None);
    let (header, wrapped) = upload.upload_get_header().unwrap();
    assert_eq!(header, build_header(60).to_vec());
    assert_eq!(wrapped.len(), 60);
    assert_eq!(unwrap_key(&wrapped, &master).unwrap().len(), 32);
    let (again, same) = upload.upload_get_header().unwrap();
    assert_eq!((again, same), (header.clone(), wrapped.clone()));
    assert!(matches!(upload.upload_process_chunk(), UploadStep::Read { len: 3 }));
    let chunk = upload.chunk_read(b"abc").unwrap();
    let mut all = header;
    all.extend_from_slice(&wrapped);
    all.extend_from_slice(&chunk.data);
    assert_eq!(decrypt_file(&all, &master), Ok(b"abc".to_vec()));
    assert!(matches!(upload.upload_process_chunk(), UploadStep::Done));
}

#[test]
fn upload_without_a_key_goes_out_plain() {
    for key in [None, Some(&[][..])] {
        let mut upload = upload_init("f".to_string(), 3, key, true, None);
        assert_eq!(upload.upload_get_header(), Ok((vec![0u8; 12], Vec::new())));
        assert!(matches!(upload.upload_process_chunk(), UploadStep::Read { len: 3 }));
        assert_eq!(upload.chunk_read(b"abc").unwrap().data, b"abc");
    }
    let mut unused = upload_init("f".to_string(), 3, Some(&[1u8; 16]), false, None);
    assert!(matches!(unused.upload_process_chunk(), UploadStep::Read { len: 3 }));
    assert_eq!(unused.chunk_read(b"abc").unwrap().data, b"abc");
    let mut refused = upload_init("f".to_string(), 3, Some(&[1u8; 16]), true, None);
    assert!(matches!(
        refused.upload_process_chunk(),
        UploadStep::Stop { kind: ErrorKind::InvalidKeySize }
    ));
    assert_eq!(refused.upload_get_header(), Err(ErrorKind::InvalidKeySize));
    assert_eq!(refused.upload_get_bytes_processed(), 0);
    let mut direct = UploadContext::new("g".to_string(), 1, false, vec![1u8; 32], None);
    assert_eq!(direct.upload_get_header(), Ok((vec![0u8; 12], Vec::new())));
    assert!(!direct.is_cancelled());
}

#[test]
fn upload_cancelled_before_it_begins() {
    let token = CancellationToken::new();
    token.cancel();
    let mut upload = upload_init("f".to_string(), 3, Some(&[1u8; 32]), true, Some(token));
    assert!(matches!(upload.upload_process_chunk(), UploadStep::Stop { kind: ErrorKind::Cancelled }));
    assert!(matches!(upload.next_step_polled(true), UploadStep::Stop { kind: ErrorKind::Cancelled }));
    assert_eq!(upload.upload_get_bytes_processed(), 0);
    assert!(matches!(upload.next_step_polled(false), UploadStep::Prefix { .. }));
}

#[test]
fn upload_reports_are_throttled() {
    let mut upload = upload_init("f".to_string(), 30, None, false, None);
    assert_eq!(upload.chunk_read_at(&[0u8; 10], 100).unwrap().report, None);
    assert_eq!(
        upload.chunk_read_at(&[0u8; 10], 600).unwrap().report,
        Some(Progress { bytes_processed: 20, total_bytes: 30 })
    );
    assert_eq!(
        upload.chunk_read_at(&[0u8; 10], 601).unwrap().report,
        Some(Progress { bytes_processed: 30, total_bytes: 30 })
    );
    assert!(matches!(upload.next_step_polled(false), UploadStep::Done));
}

fn written(download: &mut DownloadContext, chunk: &[u8]) -> (Vec<u8>, ErrorKind) {
    let step = download.download_append_chunk(chunk);
    (step.write, step.outcome)
}

#[test]
fn download_decrypts_frame_by_frame() {
    let master = [4u8; 32];
    let plain: Vec<u8> = (0..(2 * 1024 * 1024 + 7)).map(|i| (i % 249) as u8).collect();
    let sealed = encrypt_file(&plain, &master).unwrap();
    let first_frame_end = 72 + 1024 * 1024 + 36;
    let second_frame_end = first_frame_end + 1024 * 1024 + 36;
    let mut download = download_init("out".to_string(), Some(&master), true, None);
    assert_eq!(download.file_path(), "out");
    assert_eq!(download.download_get_total_bytes(), 0);
    // the first chunk holds the prefix and the first frame
    let (bytes, outcome) = written(&mut download, &sealed[..first_frame_end]);
    assert_eq!(outcome, ErrorKind::Success);
    assert_eq!(&bytes[..72], &sealed[..72]);
    assert_eq!(&bytes[72..], &plain[..1024 * 1024]);
    assert_eq!(download.download_get_bytes_written(), 72 + 1024 * 1024);
    let (bytes, outcome) = written(&mut download, &sealed[first_frame_end..second_frame_end]);
    assert_eq!(outcome, ErrorKind::Success);
    assert_eq!(bytes, &plain[1024 * 1024..2 * 1024 * 1024]);
    // a chunk that is not one frame
    let (bytes, outcome) = written(&mut download, &sealed[second_frame_end..sealed.len() - 1]);
    assert_eq!((bytes.len(), outcome), (0, ErrorKind::InvalidFormat));
    // a frame that is tampered with
    let mut bad = sealed[second_frame_end..].to_vec();
    bad[25] ^= 1;
    assert_eq!(written(&mut download, &bad), (Vec::new(), ErrorKind::DecryptionFailed));
    let (bytes, outcome) = written(&mut download, &sealed[second_frame_end..]);
    assert_eq!(outcome, ErrorKind::Success);
    assert_eq!(bytes, &plain[2 * 1024 * 1024..]);
    assert_eq!(download.download_get_bytes_written(), 72 + plain.len());
    assert_eq!(download.download_finalize(false), ErrorKind::IoFailed);
    assert_eq!(download.download_finalize(true), ErrorKind::Success);
}

#[test]
fn download_with_the_prefix_alone_in_the_first_chunk() {
    let master = [4u8; 32];
    let sealed = encrypt_file(b"hello", &master).unwrap();
    let mut download = download_init_with_size("out".to_string(), 5, Some(&master), true, None);
    assert_eq!(download.download_get_total_bytes(), 5);
    assert_eq!(written(&mut download, &sealed[..72]), (sealed[..72].to_vec(), ErrorKind::Success));
    assert_eq!(written(&mut download, &sealed[72..]), (b"hello".to_vec(), ErrorKind::Success));
    download.download_set_total_bytes(77);
    assert_eq!(download.download_get_total_bytes(), 77);
}

#[test]
fn download_first_chunk_must_hold_the_prefix() {
    let master = [4u8; 32];
    let sealed = encrypt_file(b"hello", &master).unwrap();
    let mut download = download_init("out".to_string(), Some(&master), true, None);
    assert_eq!(written(&mut download, &sealed[..11]), (Vec::new(), ErrorKind::InvalidPath));
    assert_eq!(written(&mut download, &sealed[..71]), (Vec::new(), ErrorKind::InvalidPath));
    assert_eq!(written(&mut download, &[0xFFu8; 12]), (Vec::new(), ErrorKind::InvalidPath));
    let mut bad_magic = sealed.clone();
    bad_magic[1] ^= 1;
    assert_eq!(written(&mut download, &bad_magic), (Vec::new(), ErrorKind::InvalidFormat));
    assert_eq!(download.download_get_bytes_written(), 0);
    // the prefix is taken and written even where the frame behind it fails
    let mut bad_frame = sealed.clone();
    let last = bad_frame.len() - 1;
    bad_frame[last] ^= 1;
    assert_eq!(
        written(&mut download, &bad_frame),
        (sealed[..72].to_vec(), ErrorKind::DecryptionFailed)
    );
    assert_eq!(download.download_get_bytes_written(), 72);
    assert_eq!(written(&mut download, &sealed[72..]), (b"hello".to_vec(), ErrorKind::Success));
}

#[test]
fn plain_download_writes_what_comes() {
    let mut download = download_init("out".to_string(), None, false, None);
    assert_eq!(written(&mut download, b"abc"), (b"abc".to_vec(), ErrorKind::Success));
    let mut refused = download_init("out".to_string(), Some(&[1u8; 5]), true, None);
    let container = encrypt_file(b"abc", &[1u8; 32]).unwrap();
    assert_eq!(written(&mut refused, &container), (Vec::new(), ErrorKind::InvalidKeySize));
    assert_eq!(refused.download_get_bytes_written(), 0);
    let mut keyless = download_init("out".to_string(), Some(&[]), true, None);
    assert_eq!(written(&mut keyless, b"abc"), (b"abc".to_vec(), ErrorKind::Success));
    let step = keyless.download_append_decrypted(b"defg");
    assert_eq!((step.write, step.outcome), (b"defg".to_vec(), ErrorKind::Success));
    assert_eq!(keyless.download_get_bytes_written(), 7);
    let direct = DownloadContext::new("p".to_string(), 9, false, Vec::new(), None);
    assert_eq!(direct.download_get_total_bytes(), 9);
    assert!(!direct.is_cancelled());
}

#[test]
fn download_cancelled_before_it_begins() {
    let token = CancellationToken::new();
    let mut download = download_init("out".to_string(), None, false, Some(token.clone()));
    token.cancel();
    let step = download.download_append_chunk(b"abc");
    assert_eq!((step.write.len(), step.outcome, step.report), (0, ErrorKind::Cancelled, None));
    let step = download.download_append_decrypted(b"abc");
    assert_eq!((step.write.len(), step.outcome), (0, ErrorKind::Cancelled));
    assert_eq!(download.download_get_bytes_written(), 0);
}

#[test]
fn download_reports_are_throttled() {
    let mut download = download_init_with_size("out".to_string(), 9, None, false, None);
    assert_eq!(download.append_chunk_polled_at(b"abc", false, 10).report, None);
    assert_eq!(
        download.append_chunk_polled_at(b"abc", false, 510).report,
        Some(Progress { bytes_processed: 6, total_bytes: 9 })
    );
    assert_eq!(download.append_decrypted_polled_at(b"ab", false, 520).report, None);
    assert_eq!(
        download.append_decrypted_polled_at(b"c", false, 521).report,
        Some(Progress { bytes_processed: 9, total_bytes: 9 })
    );
    assert_eq!(download.append_chunk_polled_at(b"x", true, 9999).outcome, ErrorKind::Cancelled);
}

#[test]
fn upload_with_a_key_of_the_wrong_length_says_so() {
    let mut upload = UploadContext::new("f".to_string(), 3, true, vec![1u8; 31], None);
    assert!(matches!(
        upload.upload_process_chunk(),
        UploadStep::Stop { kind: ErrorKind::InvalidKeySize }
    ));
    assert!(matches!(
        upload.next_step_polled(false),
        UploadStep::Stop { kind: ErrorKind::InvalidKeySize }
    ));
    assert_eq!(upload.upload_get_header(), Err(ErrorKind::InvalidKeySize));
    assert!(matches!(upload.chunk_read(b"abc"), Err(ErrorKind::InvalidKeySize)));
    assert!(matches!(upload.chunk_read_at(b"abc", 5), Err(ErrorKind::InvalidKeySize)));
    assert_eq!(upload.upload_get_bytes_processed(), 0);
    assert_eq!(upload.chunk_index(), 0);
}

#[test]
fn plain_download_counts_the_sum_of_the_chunks() {
    let mut download = download_init_with_size("out.bin".to_string(), 60, None, false, None);
    let mut sum = 0usize;
    let mut last_report = 0usize;
    for len in [10usize, 0, 25, 5, 20] {
        let chunk = vec![7u8; len];
        let step = download.download_append_chunk(&chunk);
        assert_eq!(step.outcome, ErrorKind::Success);
        assert_eq!(step.write, chunk);
        sum += len;
        assert_eq!(download.download_get_bytes_written(), sum);
        if let Some(report) = step.report {
            assert_eq!(report.bytes_processed, sum);
            assert_eq!(report.total_bytes, 60);
            assert!(report.bytes_processed >= last_report);
            last_report = report.bytes_processed;
        }
    }
    assert_eq!(last_report, 60);
}

#[test]
fn download_without_a_token_is_never_cancelled() {
    let mut download = download_init("out.bin".to_string(), None, false, None);
    for _ in 0..3 {
        let step = download.download_append_chunk(b"abcd");
        assert_eq!(step.outcome, ErrorKind::Success);
        let step = download.download_append_decrypted(b"ef");
        assert_eq!(step.outcome, ErrorKind::Success);
        assert_eq!(step.write, b"ef");
    }
    assert_eq!(download.download_get_bytes_written(), 18);
}

#[test]
fn upload_with_given_key_and_nonces_is_exact() {
    let master = [1u8; 32];
    let fek = [2u8; 32];
    let key_nonce = [3u8; 12];
    let mut prefix = build_header(60).to_vec();
    prefix.extend_from_slice(&wrap_key_with_nonce(&fek, &master, &key_nonce));

    let mut upload = upload_init("f".to_string(), 6, Some(&master), true, None);
    match upload.next_step_with(false, &fek, &key_nonce) {
        UploadStep::Prefix { data } => assert_eq!(data, prefix),
        other => panic!("no prefix: {:?}", other),
    }
    assert!(matches!(upload.next_step_with(false, &[], &[]), UploadStep::Read { len: 6 }));
    let first = upload.chunk_read_with(b"abc", 0, &[], &[], &[4u8; 12]).unwrap();
    assert_eq!(first.data, encrypt_chunk_with_nonce(b"abc", &fek, 0, &[4u8; 12]).unwrap());
    assert_eq!(first.chunk_index, 0);
    let second = upload.chunk_read_with(b"def", 0, &[9u8; 32], &[9u8; 12], &[5u8; 12]).unwrap();
    assert_eq!(second.data, encrypt_chunk_with_nonce(b"def", &fek, 1, &[5u8; 12]).unwrap());
    assert_eq!(upload.upload_get_bytes_processed(), 6);
    assert!(matches!(upload.next_step_with(false, &[], &[]), UploadStep::Done));

    let mut by_header = upload_init("f".to_string(), 6, Some(&master), true, None);
    let (header, wrapped) = by_header.upload_get_header_with(&fek, &key_nonce).unwrap();
    assert_eq!([header.clone(), wrapped.clone()].concat(), prefix);
    assert_eq!(by_header.upload_get_header_with(&[], &[]), Ok((header, wrapped)));

    let mut by_chunk = upload_init("f".to_string(), 3, Some(&master), true, None);
    let chunk = by_chunk.chunk_read_with(b"abc", 0, &fek, &key_nonce, &[4u8; 12]).unwrap();
    assert_eq!(chunk.data, first.data);
    match by_chunk.next_step_with(false, &[], &[]) {
        UploadStep::Prefix { data } => assert_eq!(data, prefix),
        other => panic!("no prefix: {:?}", other),
    }
}

#[test]
fn upload_with_given_key_and_nonces_refuses_what_does_not_fit() {
    let master = [1u8; 32];
    let fek = [2u8; 32];
    let key_nonce = [3u8; 12];
    let mut upload = upload_init("f".to_string(), 3, Some(&master), true, None);
    assert_eq!(upload.open_session_with(&fek[..31], &key_nonce), Err(ErrorKind::EncryptionFailed));
    assert_eq!(upload.open_session_with(&fek, &key_nonce[..11]), Err(ErrorKind::EncryptionFailed));
    assert!(matches!(
        upload.next_step_with(false, &[], &[]),
        UploadStep::Stop { kind: ErrorKind::EncryptionFailed }
    ));
    assert!(matches!(
        upload.next_step_with(true, &fek, &key_nonce),
        UploadStep::Stop { kind: ErrorKind::Cancelled }
    ));
    assert_eq!(upload.upload_get_header_with(&fek, &[]), Err(ErrorKind::EncryptionFailed));
    assert!(matches!(
        upload.chunk_read_with(b"abc", 0, &fek, &key_nonce, &[4u8; 11]),
        Err(ErrorKind::EncryptionFailed)
    ));
    // nothing was opened or counted by the refusals
    assert_eq!(upload.upload_get_bytes_processed(), 0);
    assert_eq!(upload.chunk_index(), 0);
    assert_eq!(upload.open_session_with(&fek, &key_nonce), Ok(()));
    assert_eq!(upload.open_session_with(&[], &[]), Ok(()));

    let mut keyed_wrong = UploadContext::new("f".to_string(), 3, true, vec![1u8; 31], None);
    assert_eq!(keyed_wrong.open_session_with(&fek, &key_nonce), Err(ErrorKind::InvalidKeySize));
    assert!(matches!(
        keyed_wrong.chunk_read_with(b"abc", 0, &fek, &key_nonce, &[4u8; 12]),
        Err(ErrorKind::InvalidKeySize)
    ));

    let mut plain = upload_init("f".to_string(), 3, None, false, None);
    assert_eq!(plain.open_session_with(&[], &[]), Ok(()));
    assert_eq!(plain.chunk_read_with(b"abc", 0, &[], &[], &[]).unwrap().data, b"abc");
}
