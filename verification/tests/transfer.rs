use cloudnexus_core::cancel::{is_cancelled, CancellationToken};
use cloudnexus_core::copy::{
    check_copy_source, chunked_copy_init, cloud_copy_init, relay_return_value,
    ChunkedCopyContext, CloudCopyContext, CopyAction, CopyContext, CopyProgress,
};
use cloudnexus_core::error::ErrorKind;
use cloudnexus_core::progress::{clamp_millis, ProgressThrottler};
use cloudnexus_core::pump::{
    clamp_chunk_size, ChunkPump, PumpAction, PumpEvent, PumpPhase, CODE_CANCELLED,
    CODE_IO_FAILED, CODE_NULL_POINTER, MAX_CHUNK_SIZE, MIN_CHUNK_SIZE,
};
use cloudnexus_core::unified_copy::{
    unified_copy_init, UnifiedAction, UnifiedCopyContext, UnifiedProgress,
};

#[test]
fn chunk_size_is_clamped() {
    assert_eq!(clamp_chunk_size(0), 64 * 1024);
    assert_eq!(clamp_chunk_size(64 * 1024 - 1), 64 * 1024);
    assert_eq!(clamp_chunk_size(64 * 1024), 64 * 1024);
    assert_eq!(clamp_chunk_size(1_000_000), 1_000_000);
    assert_eq!(clamp_chunk_size(10 * 1024 * 1024), 10 * 1024 * 1024);
    assert_eq!(clamp_chunk_size(10 * 1024 * 1024 + 1), 10 * 1024 * 1024);
    assert_eq!(clamp_chunk_size(usize::MAX), MAX_CHUNK_SIZE);
    assert_eq!(MIN_CHUNK_SIZE, 65536);
}

#[test]
fn token_is_shared_and_stays_set() {
    let token = CancellationToken::new();
    let remote = token.clone();
    assert!(!token.is_cancelled());
    remote.cancel();
    assert!(token.is_cancelled());
    assert!(remote.is_cancelled());
    assert!(is_cancelled(&Some(token)));
    assert!(!is_cancelled(&None));
    assert!(!is_cancelled(&Some(CancellationToken::new())));
}

#[test]
fn throttler_lets_one_report_through_per_interval() {
    let mut throttler = ProgressThrottler::new(500);
    assert_eq!(throttler.interval_ms(), 500);
    assert!(!throttler.should_update_at(0, 10, 100));
    assert!(!throttler.should_update_at(499, 20, 100));
    assert!(throttler.should_update_at(500, 30, 100));
    assert!(!throttler.should_update_at(999, 40, 100));
    assert!(throttler.should_update_at(1000, 50, 100));
    // the clock going back counts as no time passed
    assert!(!throttler.should_update_at(10, 60, 100));
    // the report of completion always goes through
    assert!(throttler.should_update_at(1001, 100, 100));
    assert!(!throttler.should_update_at(1002, 100, 101));
    assert!(throttler.should_update_at(1501, 100, 101));
}

#[test]
fn throttler_on_the_real_clock() {
    let mut throttler = ProgressThrottler::new(3_600_000);
    assert!(throttler.clock_ms() < 60_000);
    assert!(!throttler.should_update(1, 2));
    assert!(throttler.should_update(2, 2));
    let mut always = ProgressThrottler::new(0);
    assert!(always.should_update(1, 2));
}

#[test]
fn pump_moves_chunks_until_the_source_is_empty() {
    let mut pump = ChunkPump::new(100);
    assert_eq!(pump.phase(), PumpPhase::Ready);
    assert_eq!(pump.chunk_size(), 100);
    let start = PumpEvent::Start { cancelled: false, buffer_size: 64 };
    assert_eq!(pump.step(start), PumpAction::Read { len: 64, offset: 0 });
    assert_eq!(pump.phase(), PumpPhase::Reading { len: 64 });
    assert_eq!(pump.step(PumpEvent::ReadDone { result: 40 }), PumpAction::Write { len: 40, offset: 0 });
    assert_eq!(pump.step(PumpEvent::WriteDone { status: 0 }), PumpAction::ChunkDone { len: 40 });
    assert_eq!(pump.bytes_done(), 40);
    assert_eq!(pump.offset(), 40);
    assert_eq!(pump.step(start), PumpAction::Read { len: 64, offset: 40 });
    assert_eq!(pump.step(PumpEvent::ReadDone { result: 0 }), PumpAction::EndOfData);
    assert_eq!(pump.phase(), PumpPhase::Ready);
    assert_eq!(pump.bytes_done(), 40);
}

#[test]
fn pump_stops_for_good() {
    let mut pump = ChunkPump::new(100);
    let start = PumpEvent::Start { cancelled: false, buffer_size: 200 };
    assert_eq!(pump.step(start), PumpAction::Read { len: 100, offset: 0 });
    // more than was asked for
    assert_eq!(pump.step(PumpEvent::ReadDone { result: 101 }), PumpAction::Stop { code: CODE_IO_FAILED });
    assert_eq!(pump.step(start), PumpAction::Stop { code: CODE_IO_FAILED });
    assert_eq!(pump.phase(), PumpPhase::Stopped { code: -6 });
    pump.begin_data(Some(5));
    assert_eq!(pump.step(start), PumpAction::Stop { code: CODE_IO_FAILED });

    let mut pump = ChunkPump::new(100);
    assert_eq!(pump.step(PumpEvent::ReadDone { result: 1 }), PumpAction::Stop { code: CODE_NULL_POINTER });
    assert_eq!(pump.step(PumpEvent::WriteDone { status: 0 }), PumpAction::Stop { code: CODE_NULL_POINTER });
    assert_eq!(pump.phase(), PumpPhase::Ready);
    pump.step(start);
    pump.step(PumpEvent::ReadDone { result: 5 });
    assert_eq!(pump.step(PumpEvent::WriteDone { status: -4 }), PumpAction::Stop { code: -4 });
    assert_eq!(pump.bytes_done(), 0);
}

#[test]
fn pump_respects_the_size_of_the_data() {
    let mut pump = ChunkPump::new(100);
    pump.begin_data(Some(150));
    let start = PumpEvent::Start { cancelled: false, buffer_size: 1000 };
    assert_eq!(pump.step(start), PumpAction::Read { len: 100, offset: 0 });
    pump.step(PumpEvent::ReadDone { result: 100 });
    pump.step(PumpEvent::WriteDone { status: 0 });
    assert_eq!(pump.step(start), PumpAction::Read { len: 50, offset: 100 });
    pump.step(PumpEvent::ReadDone { result: 50 });
    pump.step(PumpEvent::WriteDone { status: 0 });
    assert_eq!(pump.step(start), PumpAction::EndOfData);
    pump.begin_data(Some(0));
    assert_eq!(pump.offset(), 0);
    assert_eq!(pump.step(start), PumpAction::EndOfData);
    assert_eq!(pump.bytes_done(), 150);
}

#[test]
fn cancel_before_start_touches_nothing() {
    let token = CancellationToken::new();
    token.cancel();
    let mut copy = CopyContext::for_file(1000, 0, Some(token.clone()));
    assert_eq!(copy.start_chunk(4096), CopyAction::Stop { code: CODE_CANCELLED });
    assert_eq!(copy.start_chunk(4096), CopyAction::Stop { code: -7 });
    assert_eq!(copy.copy_get_progress().bytes_copied, 0);

    let mut relay = cloud_copy_init(0, 0, token.clone());
    assert_eq!(relay.start_chunk(4096), PumpAction::Stop { code: -7 });
    assert_eq!(relay.cloud_copy_get_progress(), (0, 0));

    let mut unified = unified_copy_init(10, 1, 0, Some(token));
    unified.begin_file(10);
    assert_eq!(unified.start_chunk(4096), UnifiedAction::Stop { code: -7 });
    assert_eq!(unified.unified_copy_get_bytes_copied(), 0);
    assert_eq!(ErrorKind::Cancelled.code() as isize, CODE_CANCELLED);
}

#[test]
fn cancel_mid_copy() {
    // a file of 10 MiB in chunks of 1 MiB; the token is set after the first report
    let token = CancellationToken::new();
    let total = 10 * 1024 * 1024;
    let mut copy = CopyContext::for_file(total, 1024 * 1024, Some(token.clone()));
    let mut written = 0usize;
    let mut reports = 0;
    let mut now = 0u64;
    let code = loop {
        match copy.start_chunk(1024 * 1024) {
            CopyAction::Read { len, .. } => {
                assert_eq!(len, 1024 * 1024);
                let action = copy.step_at(PumpEvent::ReadDone { result: len as isize }, now);
                assert_eq!(action, CopyAction::Write { len, offset: written as u64 });
                now += 600;
                match copy.step_at(PumpEvent::WriteDone { status: 0 }, now) {
                    CopyAction::ChunkDone { len, report } => {
                        written += len;
                        if let Some(progress) = report {
                            assert_eq!(progress.bytes_copied, written);
                            reports += 1;
                            token.cancel();
                        }
                    }
                    other => panic!("unexpected {:?}", other),
                }
            }
            CopyAction::Stop { code } => break code,
            other => panic!("unexpected {:?}", other),
        }
    };
    assert_eq!(code, -7);
    assert_eq!(reports, 1);
    assert_eq!(written, 1024 * 1024);
    assert!(written < total);
    assert_eq!(copy.start_chunk(1024 * 1024), CopyAction::Stop { code: -7 });
    assert_eq!(copy.copy_get_progress().bytes_copied, written);
}

#[test]
fn file_copy_reports_are_throttled_and_finish_is_not() {
    let mut copy = CopyContext::for_file(300, 0, None);
    let start = PumpEvent::Start { cancelled: false, buffer_size: 100 };
    let mut reported = Vec::new();
    for (i, now) in [100u64, 200, 700].iter().enumerate() {
        assert_eq!(copy.step_at(start, *now), CopyAction::Read { len: 100, offset: 100 * i as u64 });
        copy.step_at(PumpEvent::ReadDone { result: 100 }, *now);
        match copy.step_at(PumpEvent::WriteDone { status: 0 }, *now) {
            CopyAction::ChunkDone { len: 100, report } => reported.push(report),
            other => panic!("unexpected {:?}", other),
        }
    }
    let done = CopyProgress { bytes_copied: 300, total_bytes: 300, files_processed: 1, total_files: 1 };
    assert_eq!(reported, vec![None, None, Some(done)]);
    copy.step_at(start, 701);
    assert_eq!(copy.step_at(PumpEvent::ReadDone { result: 0 }, 701), CopyAction::Finish { last: done });
    let fresh = CopyContext::new(5, 2, None, true);
    assert_eq!(
        fresh.copy_get_progress(),
        CopyProgress { bytes_copied: 0, total_bytes: 5, files_processed: 0, total_files: 2 }
    );
    assert!(!fresh.is_cancelled());
}

#[test]
fn file_copy_passes_failures_on() {
    let mut copy = CopyContext::for_file(300, 0, None);
    let start = PumpEvent::Start { cancelled: false, buffer_size: 100 };
    copy.step(start);
    assert_eq!(copy.step(PumpEvent::ReadDone { result: -6 }), CopyAction::Stop { code: -6 });
    assert_eq!(copy.step(start), CopyAction::Stop { code: -6 });
}

#[test]
fn copy_source_checks() {
    assert_eq!(check_copy_source(false, false, 0), Err(ErrorKind::FileNotFound));
    assert_eq!(check_copy_source(true, false, 10), Err(ErrorKind::InvalidPath));
    assert_eq!(check_copy_source(true, true, 10), Ok(10));
    assert_eq!(check_copy_source(false, true, 10), Err(ErrorKind::FileNotFound));
}

#[test]
fn cloud_relay_with_flaky_source() {
    let mut relay = cloud_copy_init(65536, 0, CancellationToken::new());
    let mut reads = vec![-6isize, 65536, 65536, 65536];
    let mut writes = 0;
    let result = loop {
        match relay.start_chunk(65536) {
            PumpAction::Read { len, .. } => {
                assert_eq!(len, 65536);
                let got = reads.pop().unwrap();
                match relay.step(PumpEvent::ReadDone { result: got }) {
                    PumpAction::Write { len, .. } => {
                        assert_eq!(len, 65536);
                        writes += 1;
                        let done = relay.step(PumpEvent::WriteDone { status: 0 });
                        assert_eq!(relay_return_value(done), Some(65536));
                    }
                    other => break relay_return_value(other).unwrap(),
                }
            }
            other => break relay_return_value(other).unwrap(),
        }
    };
    assert_eq!(result, -6);
    assert_eq!(writes, 3);
    assert_eq!(relay.cloud_copy_get_progress(), (3 * 65536, 0));
    assert_eq!(relay.cloud_copy_finalize(), ErrorKind::Success);
    assert_eq!(relay_return_value(PumpAction::EndOfData), Some(0));
    assert_eq!(relay_return_value(PumpAction::Read { len: 1, offset: 0 }), None);
    let plain = CloudCopyContext::new(7, 9, None);
    assert_eq!(plain.cloud_copy_get_progress(), (0, 9));
}

#[test]
fn unified_relay_copies_files_in_turn() {
    let mut relay = unified_copy_init(250, 2, 100, None);
    let mut progress = Vec::new();
    let mut outcomes = Vec::new();
    for size in [200u64, 50] {
        relay.begin_file(size);
        let mut left = size as usize;
        loop {
            match relay.start_chunk(1 << 20) {
                UnifiedAction::Read { len, offset } => {
                    assert_eq!(offset, size - left as u64);
                    assert_eq!(len, left.min(65536));
                    relay.step(PumpEvent::ReadDone { result: len as isize });
                    match relay.step(PumpEvent::WriteDone { status: 0 }) {
                        UnifiedAction::Report { progress: p } => progress.push(p),
                        other => panic!("unexpected {:?}", other),
                    }
                    left -= len;
                }
                UnifiedAction::FileDone { more } => {
                    outcomes.push(more);
                    break;
                }
                other => panic!("unexpected {:?}", other),
            }
        }
    }
    assert_eq!(outcomes, vec![true, false]);
    assert_eq!(
        progress,
        vec![
            UnifiedProgress { bytes_copied: 200, total_bytes: 250, files_processed: 1, total_files: 2 },
            UnifiedProgress { bytes_copied: 250, total_bytes: 250, files_processed: 2, total_files: 2 },
        ]
    );
    assert_eq!(relay.unified_copy_get_bytes_copied(), 250);
    assert_eq!(relay.unified_copy_get_total_bytes(), 250);
    assert_eq!(relay.unified_copy_get_files_processed(), 2);
    assert_eq!(relay.unified_copy_get_total_files(), 2);
    assert_eq!(relay.unified_copy_finalize(), relay.unified_copy_get_progress());
    let raw = UnifiedCopyContext::new(1, 1, 5, None);
    assert!(!raw.is_cancelled());
    assert_eq!(raw.unified_copy_get_total_bytes(), 1);
}

#[test]
fn unified_relay_ends_a_file_early_and_passes_errors_on() {
    let mut relay = unified_copy_init(100, 3, 0, None);
    relay.begin_file(100);
    relay.start_chunk(10);
    assert_eq!(relay.step(PumpEvent::ReadDone { result: 0 }), UnifiedAction::FileDone { more: true });
    relay.begin_file(100);
    assert_eq!(relay.start_chunk(10), UnifiedAction::Read { len: 10, offset: 0 });
    relay.step(PumpEvent::ReadDone { result: 10 });
    assert_eq!(relay.step(PumpEvent::WriteDone { status: -3 }), UnifiedAction::Stop { code: -3 });
    assert_eq!(relay.start_chunk(10), UnifiedAction::Stop { code: -3 });
    assert_eq!(relay.unified_copy_get_files_processed(), 1);
    assert_eq!(relay.unified_copy_get_bytes_copied(), 0);
}

#[test]
fn chunked_copy_steps() {
    assert!(matches!(
        chunked_copy_init("a".to_string(), "b".to_string(), 1, false, false, 0, None),
        Err(ErrorKind::FileNotFound)
    ));
    assert!(matches!(
        chunked_copy_init("a".to_string(), "b".to_string(), 1, true, false, 0, None),
        Err(ErrorKind::InvalidPath)
    ));
    let mut copy =
        chunked_copy_init("a".to_string(), "b".to_string(), 1, true, true, 100, None).unwrap();
    assert_eq!(copy.source_path(), "a");
    assert_eq!(copy.dest_path(), "b");
    assert_eq!(copy.chunk_size(), 65536);
    assert_eq!(copy.before_read_polled(false), ErrorKind::FileNotFound);
    assert_eq!(copy.chunked_copy_open_source(false), ErrorKind::FileNotFound);
    assert_eq!(copy.chunked_copy_open_source(true), ErrorKind::Success);
    assert_eq!(copy.before_read_polled(true), ErrorKind::Cancelled);
    assert_eq!(copy.before_read_polled(false), ErrorKind::Success);
    assert_eq!(copy.chunk_read(60, None), 60);
    assert_eq!(copy.chunk_read(40, Some(-9)), -9);
    assert_eq!(copy.chunk_read(0, Some(-9)), 0);
    assert_eq!(copy.chunk_read(-1, None), -6);
    assert_eq!(copy.chunked_copy_get_progress(), (100, 100));
    assert_eq!(copy.before_write_polled(true), ErrorKind::Cancelled);
    assert_eq!(copy.before_write_polled(false), ErrorKind::Success);
    assert_eq!(copy.chunk_written_at(false, 0), (ErrorKind::IoFailed, None));
    let all = CopyProgress { bytes_copied: 100, total_bytes: 100, files_processed: 1, total_files: 1 };
    assert_eq!(copy.chunk_written_at(true, 0), (ErrorKind::Success, Some(all)));
    assert_eq!(copy.chunk_written(true), (ErrorKind::Success, Some(all)));
    assert_eq!(copy.chunked_copy_flush(true), ErrorKind::Success);
    assert_eq!(copy.chunked_copy_flush(false), ErrorKind::IoFailed);
    assert_eq!(copy.chunked_copy_finalize(false), (ErrorKind::IoFailed, all));
    assert_eq!(copy.before_read_polled(false), ErrorKind::Success);
    assert_eq!(copy.chunked_copy_finalize(true), (ErrorKind::Success, all));
    assert_eq!(copy.before_read_polled(false), ErrorKind::FileNotFound);
    let other = ChunkedCopyContext::new("x".to_string(), "y".to_string(), 5, 50, None);
    assert_eq!(other.chunk_size(), 5);
    assert!(!other.is_cancelled());
    let mut half = ChunkedCopyContext::new("x".to_string(), "y".to_string(), 5, 50, None);
    half.chunk_read(10, None);
    assert_eq!(half.chunk_written_at(true, 1), (ErrorKind::Success, None));
}

#[test]
fn clock_readings_are_held_at_the_largest_u64() {
    assert_eq!(clamp_millis(0), 0);
    assert_eq!(clamp_millis(1500), 1500);
    assert_eq!(clamp_millis(u64::MAX as u128), u64::MAX);
    assert_eq!(clamp_millis(u64::MAX as u128 + 1), u64::MAX);
    assert_eq!(clamp_millis(u128::MAX), u64::MAX);
}

#[test]
fn sessions_without_a_token_start_their_chunks() {
    let mut copy = CopyContext::for_file(1000, 0, None);
    assert!(matches!(copy.start_chunk(4096), CopyAction::Read { offset: 0, .. }));
    assert_eq!(copy.copy_get_progress().bytes_copied, 0);

    let mut relay = CloudCopyContext::new(65536, 0, None);
    assert!(matches!(relay.start_chunk(4096), PumpAction::Read { len: 4096, offset: 0 }));

    let mut unified = unified_copy_init(10, 1, 0, None);
    unified.begin_file(10);
    assert!(matches!(unified.start_chunk(4096), UnifiedAction::Read { offset: 0, .. }));
    assert_eq!(unified.unified_copy_get_bytes_copied(), 0);
}
