use perf::{
    batch_len, close_reason, deadline_millis, decode_header, encode_header, expects_response, next_chunk_len,
    rate_per_sec, summarize, Direction, Outcome, Registry, Scheduler, SchedulerAction, SendAction, Stats,
    StreamError, StreamProgress, Upload, CHUNK_SIZE, CLOSE_CODE, GRACE_MILLIS, HEADER_LEN,
};

#[test]
fn header_is_big_endian() {
    assert_eq!(encode_header(65536), [0, 0, 0, 0, 0, 1, 0, 0]);
    assert_eq!(encode_header(0x0102030405060708), [1, 2, 3, 4, 5, 6, 7, 8]);
    assert_eq!(HEADER_LEN, 8);
}

#[test]
fn header_round_trip() {
    for v in [0u64, 1, 255, 256, 1048576, u64::MAX] {
        let h = encode_header(v);
        assert_eq!(decode_header(&h), Some(v));
    }
    let mut longer = encode_header(42).to_vec();
    longer.extend_from_slice(&[9, 9, 9]);
    assert_eq!(decode_header(&longer), Some(42));
}

#[test]
fn short_header_is_rejected() {
    assert_eq!(decode_header(&[0, 0, 0, 0, 0, 0, 1]), None);
    assert_eq!(decode_header(&[]), None);
}

#[test]
fn chunk_lengths_are_bounded() {
    assert_eq!(next_chunk_len(0), 0);
    assert_eq!(next_chunk_len(5), 5);
    assert_eq!(next_chunk_len(CHUNK_SIZE), CHUNK_SIZE);
    assert_eq!(next_chunk_len(CHUNK_SIZE + 1), CHUNK_SIZE);
}

fn run_upload(total: u64) -> (Vec<u64>, bool) {
    let mut up = Upload::new(total);
    let mut writes = Vec::new();
    loop {
        match up.next_action() {
            SendAction::Write(n) => {
                assert!(up.on_written(n));
                writes.push(n);
            }
            SendAction::Finish { wait_stopped } => return (writes, wait_stopped),
        }
    }
}

#[test]
fn upload_writes_exactly_its_size() {
    let total = 2 * CHUNK_SIZE + CHUNK_SIZE / 2;
    let (writes, wait) = run_upload(total);
    assert_eq!(writes, vec![CHUNK_SIZE, CHUNK_SIZE, CHUNK_SIZE / 2]);
    assert_eq!(writes.iter().sum::<u64>(), total);
    assert!(wait);
}

#[test]
fn empty_upload_finishes_without_waiting() {
    let (writes, wait) = run_upload(0);
    assert!(writes.is_empty());
    assert!(!wait);
}

#[test]
fn upload_refuses_unplanned_write() {
    let mut up = Upload::new(10);
    assert!(!up.on_written(3));
    assert_eq!(up.sent_bytes(), 0);
    assert!(up.on_written(10));
    assert_eq!(up.sent_bytes(), 10);
    assert!(!up.on_written(0));
}

#[test]
fn zero_download_has_no_response_phase() {
    assert!(!expects_response(0));
    assert!(expects_response(1));
    let mut reg = Registry::new();
    let (writes, wait) = run_upload(0);
    assert!(writes.is_empty() && !wait);
    if expects_response(0) {
        reg.open_stream(1, Direction::Receive, 0).unwrap();
    }
    assert_eq!(reg.active_len(), 0);
    assert_eq!(reg.finished_len(), 0);
}

#[test]
fn batch_len_sums_filled_buffers() {
    let lens = vec![10usize, 20, 30];
    assert_eq!(batch_len(&lens, 2), 30);
    assert_eq!(batch_len(&lens, 3), 60);
    assert_eq!(batch_len(&lens, 0), 0);
}

#[test]
fn progress_record_rules() {
    let mut p = StreamProgress::new(Direction::Receive, 100);
    assert_eq!(p.on_bytes(60), Ok(()));
    assert_eq!(p.on_bytes(50), Err(StreamError::Overrun));
    assert_eq!(p.transferred, 60);
    assert_eq!(p.finish(10), Err(StreamError::Incomplete));
    p.on_first_byte(4);
    p.on_first_byte(7);
    assert_eq!(p.first_byte, Some(4));
    assert_eq!(p.on_bytes(40), Ok(()));
    assert_eq!(p.finish(3), Err(StreamError::ClockBackwards));
    assert_eq!(p.finish(9), Ok(()));
    assert_eq!(p.elapsed, Some(9));
    assert_eq!(p.take_unreported(), 100);
    assert_eq!(p.unreported, 0);
}

#[test]
fn receive_without_first_byte_takes_end_time() {
    let mut p = StreamProgress::new(Direction::Receive, 0);
    assert_eq!(p.finish(12), Ok(()));
    assert_eq!(p.first_byte, Some(12));
}

#[test]
fn registry_records_are_byte_exact() {
    let mut reg = Registry::new();
    reg.open_stream(1, Direction::Send, 300).unwrap();
    reg.open_stream(2, Direction::Receive, 200).unwrap();
    assert_eq!(reg.on_bytes(1, 300), Ok(()));
    assert_eq!(reg.on_bytes(2, 150), Ok(()));
    assert_eq!(reg.on_bytes(2, 51), Err(StreamError::Overrun));
    assert_eq!(reg.finish(2, 30), Err(StreamError::Incomplete));
    assert_eq!(reg.on_bytes(2, 50), Ok(()));
    assert_eq!(reg.on_first_byte(2, 5), Ok(()));
    assert_eq!(reg.finish(1, 40), Ok(()));
    assert_eq!(reg.finish(2, 30), Ok(()));
    assert_eq!(reg.active_len(), 0);
    let sample = reg.take_interval();
    assert_eq!(sample.sent, 300);
    assert_eq!(sample.received, 200);
    assert_eq!(sample.finished.len(), 2);
    for r in &sample.finished {
        assert_eq!(r.progress.transferred, r.progress.total);
    }
}

#[test]
fn registry_errors() {
    let mut reg = Registry::new();
    assert_eq!(reg.on_bytes(9, 1), Err(StreamError::UnknownStream));
    assert_eq!(reg.on_first_byte(9, 1), Err(StreamError::UnknownStream));
    assert_eq!(reg.finish(9, 1), Err(StreamError::UnknownStream));
    reg.open_stream(3, Direction::Send, 0).unwrap();
    assert_eq!(reg.open_stream(3, Direction::Receive, 5), Err(StreamError::DuplicateStream));
    assert_eq!(reg.finish(3, 1), Ok(()));
    // finished and not yet flushed: still taken
    assert_eq!(reg.open_stream(3, Direction::Send, 0), Err(StreamError::DuplicateStream));
    let _ = reg.take_interval();
    assert_eq!(reg.open_stream(3, Direction::Send, 0), Ok(()));
}

#[test]
fn partial_progress_counts_in_its_interval() {
    let mut reg = Registry::new();
    reg.open_stream(1, Direction::Receive, 1000).unwrap();
    reg.on_bytes(1, 400).unwrap();
    let s1 = reg.take_interval();
    assert_eq!(s1.received, 400);
    assert!(s1.finished.is_empty());
    reg.on_bytes(1, 600).unwrap();
    let s2 = reg.take_interval();
    assert_eq!(s2.received, 600);
    assert_eq!(reg.get(1).unwrap().transferred, 1000);
}

#[test]
fn scheduler_bounds_in_flight() {
    let mut s = Scheduler::new(3);
    for _ in 0..3 {
        assert_eq!(s.decide(), SchedulerAction::Launch);
    }
    assert_eq!(s.decide(), SchedulerAction::Wait);
    assert_eq!(s.in_flight_count(), 3);
    assert!(s.release());
    assert_eq!(s.decide(), SchedulerAction::Launch);
    assert_eq!(s.decide(), SchedulerAction::Wait);
    for _ in 0..3 {
        assert!(s.release());
    }
    assert!(!s.release());
    assert_eq!(s.in_flight_count(), 0);
}

#[test]
fn scheduler_never_exceeds_budget() {
    let mut s = Scheduler::new(4);
    let mut seed: u64 = 12345;
    for _ in 0..1000 {
        seed = seed.wrapping_mul(6364136223846793005).wrapping_add(1442695040888963407);
        if seed >> 63 == 0 {
            s.try_acquire();
        } else {
            s.release();
        }
        assert!(s.in_flight_count() <= 4);
    }
}

#[test]
fn idle_scheduler_exits() {
    let mut s = Scheduler::new(0);
    assert!(s.is_idle());
    assert_eq!(s.decide(), SchedulerAction::Exit);
    assert!(!s.try_acquire());
}

#[test]
fn rates() {
    assert_eq!(rate_per_sec(65536, 1_000_000), 65536);
    assert_eq!(rate_per_sec(1000, 500_000), 2000);
    assert_eq!(rate_per_sec(1, 0), 0);
    assert_eq!(rate_per_sec(u64::MAX, 1), u64::MAX);
}

#[test]
fn latency_summary() {
    let s = summarize(&vec![5, 3, 9]);
    assert_eq!((s.count, s.min, s.max, s.total), (3, 3, 9, 17));
    let e = summarize(&vec![]);
    assert_eq!((e.count, e.min, e.max, e.total), (0, 0, 0, 0));
    let big = summarize(&vec![u64::MAX, 1]);
    assert_eq!(big.total, u64::MAX);
}

#[test]
fn cumulative_counters_never_decrease() {
    let mut reg = Registry::new();
    let mut stats = Stats::new();
    let mut last = (0u64, 0u64);
    for tick in 0..5u64 {
        reg.open_stream(tick, Direction::Receive, 100).unwrap();
        if tick % 2 == 0 {
            reg.on_bytes(tick, 100).unwrap();
            reg.finish(tick, 10).unwrap();
        }
        let r = stats.on_interval(&mut reg, 1_000_000);
        assert!(r.total_sent >= last.0 && r.total_received >= last.1);
        last = (r.total_sent, r.total_received);
    }
    assert_eq!(last.1, 300);
}

#[test]
fn round_trip_framing_with_echoing_peer() {
    let upload = 3000u64;
    let download = 5000u64;
    let mut reg = Registry::new();
    // send side
    let header = encode_header(download);
    reg.open_stream(0, Direction::Send, upload).unwrap();
    let mut up = Upload::new(upload);
    let mut wire: Vec<u8> = header.to_vec();
    while let SendAction::Write(n) = up.next_action() {
        wire.extend(std::iter::repeat(42u8).take(n as usize));
        up.on_written(n);
        reg.on_bytes(0, n).unwrap();
    }
    // the peer reads the header and the payload, then answers
    let asked = decode_header(&wire).unwrap();
    assert_eq!(asked, download);
    assert_eq!(wire.len() as u64 - HEADER_LEN as u64, upload);
    assert_eq!(reg.finish(0, 700), Ok(()));
    // receive side: two batched reads
    reg.open_stream(1, Direction::Receive, download).unwrap();
    reg.on_first_byte(1, 800).unwrap();
    reg.on_bytes(1, batch_len(&vec![2000, 1000], 2)).unwrap();
    reg.on_bytes(1, batch_len(&vec![2000, 2000], 1)).unwrap();
    assert_eq!(reg.finish(1, 900), Ok(()));
    let sample = reg.take_interval();
    let rec = sample.finished.iter().find(|r| r.id == 1).unwrap().progress;
    assert_eq!(rec.transferred, download);
    assert!(rec.elapsed.unwrap() > 0);
    assert!(rec.first_byte.unwrap() <= rec.elapsed.unwrap());
}

#[test]
fn four_bidirectional_downloads_over_two_intervals() {
    let download = 65536u64;
    let mut sched = Scheduler::new(4);
    let mut reg = Registry::new();
    let mut stats = Stats::new();
    let mut next_id = 0u64;
    let mut reports = Vec::new();
    // the stub peer answers each request within 10 ms; two one-second ticks
    for _tick in 0..2 {
        for _step in 0..100 {
            let mut launched = Vec::new();
            while sched.decide() == SchedulerAction::Launch {
                assert!(expects_response(download));
                reg.open_stream(next_id, Direction::Receive, download).unwrap();
                launched.push(next_id);
                next_id += 1;
            }
            for id in launched {
                reg.on_first_byte(id, 2_000).unwrap();
                reg.on_bytes(id, download).unwrap();
                reg.finish(id, 10_000).unwrap();
                assert!(sched.release());
            }
        }
        reports.push(stats.on_interval(&mut reg, 1_000_000));
    }
    assert_eq!(reports.len(), 2);
    for r in &reports {
        assert!(r.receive_rate > 0);
        assert_eq!(r.send_rate, 0);
        assert_eq!(r.sent, 0);
    }
    let total = reports[1].total_received;
    assert_eq!(total % download, 0);
    // at most (duration / round trip) x concurrency requests
    assert!(total / download <= (2_000_000 / 10_000) * 4);
}

#[test]
fn interrupt_closes_with_reason() {
    assert_eq!(close_reason(Outcome::Interrupted), Some("interrupted"));
    assert_eq!(close_reason(Outcome::DeadlineReached), Some("done"));
    assert_eq!(close_reason(Outcome::DriversEnded), None);
    assert_eq!(close_reason(Outcome::StatsEnded), None);
    assert_eq!(CLOSE_CODE, 0);
}

#[test]
fn deadline_includes_grace() {
    assert_eq!(deadline_millis(2), 2200);
    assert_eq!(deadline_millis(0), GRACE_MILLIS);
    assert_eq!(deadline_millis(u64::MAX), u64::MAX);
}

#[test]
fn abandoned_stream_keeps_its_unreported_bytes() {
    let mut reg = Registry::new();
    let mut stats = Stats::new();
    reg.open_stream(7, Direction::Send, 1000).unwrap();
    reg.on_bytes(7, 250).unwrap();
    assert_eq!(reg.abandon(7), Ok(()));
    assert_eq!(reg.abandon(7), Err(StreamError::UnknownStream));
    assert_eq!(reg.active_len(), 0);
    let r = stats.on_interval(&mut reg, 500_000);
    assert_eq!(r.sent, 250);
    assert_eq!(r.send_rate, 500);
    assert_eq!(r.uploads_finished, 0);
    let r2 = stats.on_interval(&mut reg, 500_000);
    assert_eq!(r2.sent, 0);
    assert_eq!(r2.total_sent, 250);
    assert_eq!(r2.total_send_rate, 250);
}

#[test]
fn interval_report_latencies() {
    let mut reg = Registry::new();
    let mut stats = Stats::new();
    reg.open_stream(1, Direction::Receive, 10).unwrap();
    reg.open_stream(2, Direction::Receive, 10).unwrap();
    reg.open_stream(3, Direction::Send, 10).unwrap();
    for id in [1u64, 2, 3] {
        reg.on_bytes(id, 10).unwrap();
    }
    reg.on_first_byte(1, 100).unwrap();
    reg.on_first_byte(2, 300).unwrap();
    reg.finish(1, 400).unwrap();
    reg.finish(2, 800).unwrap();
    reg.finish(3, 50).unwrap();
    let r = stats.on_interval(&mut reg, 1_000_000);
    assert_eq!(r.responses_finished, 2);
    assert_eq!(r.uploads_finished, 1);
    assert_eq!((r.first_byte.count, r.first_byte.min, r.first_byte.max, r.first_byte.total), (2, 100, 300, 400));
    assert_eq!((r.response_duration.min, r.response_duration.max), (400, 800));
    assert_eq!((r.upload_duration.count, r.upload_duration.min), (1, 50));
    assert_eq!((r.sent, r.received), (10, 20));
    assert_eq!(stats.responses_finished, 2);
    assert_eq!(stats.total_elapsed, 1_000_000);
}
