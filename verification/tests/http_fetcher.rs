//! The segmented fetcher: planning, splitting, transfers, retries, resuming.
use omniget::clock::{unix_millis_from, unix_nanos_from};
use omniget::http_fetcher::config::{
    get_global_max_concurrent_segments, set_global_max_concurrent_segments, HttpFetcherConfig,
    SegmentLimit, Span,
};
use omniget::http_fetcher::failure::{after_failure, is_fatal, AfterFailure};
use omniget::http_fetcher::fetch::{
    choose_mode, chunked_result, known_probe, needs_part_file, part_path_for, probe_failure,
    probe_from_head, rename_failure, sidecar_draft_path_for, sidecar_path_for, url_hash,
    worker_count, FetchMode, HttpFetcher, ProbeResult,
};
use omniget::http_fetcher::plan::{plan_segments, ResumeSegment};
use omniget::http_fetcher::resume::{
    downloaded_total, initial_segments, resume_state, segments_from, ResumeState,
};
use omniget::http_fetcher::segment::{
    claim_pending_or_steal, claim_pending_or_steal_at, is_claimable, is_countable, pending_place,
    try_steal_at, Segment, SegmentState, LONG_TIME_SECS,
};
use omniget::http_fetcher::stream::{BodyEvent, Stream, StreamStep};
use omniget::http_fetcher::transfer::{
    check_response, chunked_outcome, finish_transfer, settle, ReadStep, Transfer, TransferStep,
};
use omniget::http_fetcher::worker::{worker_step, WorkerAction, WorkerEvent, WorkerState};

const SEC: u64 = 1_000_000_000;

fn running(id: usize, begin: u64, end: u64, downloaded: u64, now: u64) -> Segment {
    Segment { state: SegmentState::Running, ..Segment::new_at(id, begin, end, downloaded, now) }
}

/// Every byte of the file lies in exactly one segment.
fn is_partition(segs: &[Segment], total: u64) -> bool {
    (0..total).all(|b| segs.iter().filter(|s| s.begin <= b && b <= s.end_ceiling).count() == 1)
}

#[test]
fn plan_segments_uniform_division() {
    let segs = plan_segments(100, 10, 10);
    assert_eq!(segs.len(), 10);
    assert_eq!(segs.first().unwrap().begin, 0);
    assert_eq!(segs.last().unwrap().end, 99);
    for w in segs.windows(2) {
        assert_eq!(w[0].end + 1, w[1].begin);
    }
}

#[test]
fn plan_segments_remainder_distributed() {
    let segs = plan_segments(101, 10, 10);
    assert_eq!(segs.len(), 10);
    assert_eq!(segs.last().unwrap().end, 100);
    let total: u64 = segs.iter().map(|s| s.end - s.begin + 1).sum();
    assert_eq!(total, 101);
}

#[test]
fn plan_segments_capped_by_max() {
    let segs = plan_segments(1_000_000, 1024, 4);
    assert_eq!(segs.len(), 4);
    let total: u64 = segs.iter().map(|s| s.end - s.begin + 1).sum();
    assert_eq!(total, 1_000_000);
}

#[test]
fn plan_segments_capped_by_size_hint() {
    let segs = plan_segments(100, 50, 16);
    assert_eq!(segs.len(), 2);
}

#[test]
fn plan_segments_zero_total() {
    assert!(plan_segments(0, 1024, 4).is_empty());
}

#[test]
fn plan_segments_smaller_than_hint() {
    let segs = plan_segments(500, 1024, 4);
    assert_eq!(segs.len(), 1);
    assert_eq!(segs[0].begin, 0);
    assert_eq!(segs[0].end, 499);
}

#[test]
fn part_path_basic() {
    assert_eq!(part_path_for("video.mp4"), "video.mp4.part");
}

#[test]
fn sidecar_appends_resume_json() {
    let part = "video.mp4.part";
    assert_eq!(sidecar_path_for(part), "video.mp4.part.resume.json");
}

#[test]
fn url_hash_stable_and_short() {
    let h1 = url_hash("https://example.com/foo");
    let h2 = url_hash("https://example.com/foo");
    let h3 = url_hash("https://example.com/bar");
    assert_eq!(h1, h2);
    assert_ne!(h1, h3);
    assert_eq!(h1.len(), 16);
}

#[test]
fn segment_remaining_zero_when_done() {
    let seg = Segment::new(0, 0, 99, 100);
    assert_eq!(seg.remaining(), 0);
}

#[test]
fn segment_remaining_partial() {
    let seg = Segment::new(0, 0, 99, 40);
    assert_eq!(seg.remaining(), 60);
}

#[test]
fn fatal_classification_403() {
    assert!(is_fatal("HTTP 403 Forbidden"));
}

#[test]
fn fatal_classification_500_not_fatal() {
    assert!(!is_fatal("HTTP 500 Internal Server Error"));
}

#[test]
fn fatal_classification_html() {
    assert!(is_fatal("HTML instead of media"));
}

#[test]
fn fatal_classification_cancelled() {
    assert!(is_fatal("Download cancelled"));
}

#[test]
fn fatal_classification_network() {
    assert!(!is_fatal("connection reset"));
}

#[test]
fn global_concurrent_segments_setter() {
    let mut limit = SegmentLimit::unset();
    set_global_max_concurrent_segments(&mut limit, 0);
    assert_eq!(get_global_max_concurrent_segments(&limit), None);
    set_global_max_concurrent_segments(&mut limit, 7);
    assert_eq!(get_global_max_concurrent_segments(&limit), Some(7));
    set_global_max_concurrent_segments(&mut limit, 0);
}

#[test]
fn limit_starts_unset() {
    assert_eq!(get_global_max_concurrent_segments(&SegmentLimit::unset()), None);
}

#[test]
fn standard_settings() {
    let cfg = HttpFetcherConfig::default();
    assert_eq!(cfg.concurrent_segments, 8);
    assert_eq!(cfg.segment_size_hint, 4 * 1024 * 1024);
    assert_eq!(cfg.min_size_for_chunked, 50 * 1024 * 1024);
    assert_eq!(cfg.connect_timeout, Span::from_secs(10));
    assert_eq!(cfg.read_timeout.as_secs(), 30);
    assert_eq!(cfg.max_retries_per_segment, 3);
    assert_eq!(cfg.steal_threshold.as_secs(), 3);
    assert_eq!(cfg.steal_min_chunk_size, 512 * 1024);
    assert!(cfg.use_sidecar_resume);
    assert_eq!(cfg.resume_save_interval.as_secs(), 2);
    assert_eq!(cfg.known_total_bytes, None);
}

#[test]
fn plan_covers_every_byte_once() {
    let plan = plan_segments(23, 5, 4);
    let bounds: Vec<(u64, u64)> = plan.iter().map(|s| (s.begin, s.end)).collect();
    assert_eq!(bounds, vec![(0, 5), (6, 11), (12, 17), (18, 22)]);
    let segs = segments_from(&plan);
    assert!(is_partition(&segs, 23));
    assert_eq!(segs.iter().map(|s| s.remaining()).sum::<u64>(), 23);
}

#[test]
fn plan_takes_zero_settings_as_one() {
    assert_eq!(plan_segments(10, 0, 0).len(), 1);
    assert_eq!(plan_segments(3, 0, 9).len(), 3);
}

#[test]
fn split_halves_the_slowest_segment() {
    let cfg = HttpFetcherConfig { steal_min_chunk_size: 10, ..HttpFetcherConfig::default() };
    let mut segs = vec![running(0, 0, 99, 0, 0), running(1, 100, 199, 20, 0)];
    let k = try_steal_at(&mut segs, &cfg, 0);
    assert_eq!(k, Some(2));
    assert_eq!((segs[0].begin, segs[0].end_ceiling), (0, 49));
    assert_eq!((segs[2].begin, segs[2].end_ceiling), (50, 99));
    assert_eq!(segs[2].id, 2);
    assert_eq!(segs[2].state, SegmentState::Running);
    assert!(is_partition(&segs, 200));
    assert_eq!(segs.iter().map(|s| s.remaining()).sum::<u64>(), 180);
}

#[test]
fn split_leaves_enough_on_either_side() {
    let cfg = HttpFetcherConfig { steal_min_chunk_size: 60, ..HttpFetcherConfig::default() };
    let mut segs = vec![running(0, 0, 99, 0, 0)];
    assert_eq!(try_steal_at(&mut segs, &cfg, 0), None);
    assert_eq!(segs[0].end_ceiling, 99);
}

#[test]
fn split_passes_over_fast_and_idle_segments() {
    let cfg = HttpFetcherConfig { steal_min_chunk_size: 10, ..HttpFetcherConfig::default() };
    let mut fast = running(0, 0, 199, 0, 0);
    fast.downloaded = 100;
    let done = Segment { state: SegmentState::Done, ..running(1, 200, 299, 0, 0) };
    let mut segs = vec![fast, done];
    assert_eq!(segs[0].estimated_seconds_remaining_at(2 * SEC, true), 2);
    assert_eq!(try_steal_at(&mut segs, &cfg, 2 * SEC), None);
}

#[test]
fn estimate_follows_the_measured_speed() {
    let mut seg = running(0, 0, 999, 0, 5 * SEC);
    assert_eq!(seg.estimated_seconds_remaining_at(5 * SEC, true), LONG_TIME_SECS);
    assert_eq!(seg.estimated_seconds_remaining_at(5 * SEC, false), 0);
    seg.downloaded = 200;
    assert_eq!(seg.estimated_seconds_remaining_at(7 * SEC, true), 8);
    assert_eq!(seg.estimated_seconds_remaining_at(4 * SEC, false), 0);
    seg.downloaded = 1;
    assert_eq!(seg.estimated_seconds_remaining_at(10 * SEC, false), LONG_TIME_SECS);
}

#[test]
fn claims_come_in_order_then_split() {
    let cfg = HttpFetcherConfig { steal_min_chunk_size: 2, ..HttpFetcherConfig::default() };
    let mut segs = segments_from(&plan_segments(20, 10, 2));
    assert!(is_countable(&segs, &cfg));
    assert_eq!(claim_pending_or_steal_at(&mut segs, &cfg, SEC), Some(0));
    assert_eq!(claim_pending_or_steal_at(&mut segs, &cfg, SEC), Some(1));
    assert_eq!(segs[1].state, SegmentState::Running);
    assert_eq!(segs[1].speed_baseline_unix_nanos, SEC);
    assert_eq!(claim_pending_or_steal_at(&mut segs, &cfg, SEC), Some(2));
    assert!(is_partition(&segs, 20));
}

#[test]
fn claim_by_the_clock() {
    let cfg = HttpFetcherConfig::default();
    let mut segs = segments_from(&plan_segments(20, 10, 2));
    assert_eq!(claim_pending_or_steal(&mut segs, &cfg), Some(0));
    assert!(segs[0].speed_baseline_unix_nanos > 1_600_000_000 * SEC);
    segs[0].state = SegmentState::Done;
    segs[1].state = SegmentState::Failed;
    assert_eq!(claim_pending_or_steal(&mut segs, &cfg), None);
}

#[test]
fn uncountable_segments_are_told() {
    let cfg = HttpFetcherConfig::default();
    assert!(!is_countable(&vec![running(usize::MAX, 0, 9, 0, 0)], &cfg));
    assert!(!is_countable(&vec![running(0, 0, u64::MAX, 0, 0)], &cfg));
    assert!(!is_countable(&vec![running(0, 5, u64::MAX, u64::MAX, 0)], &cfg));
    assert!(is_countable(&vec![running(0, 5, 4, 0, 0)], &cfg));
}

#[test]
fn waiting_segment_is_claimed_beside_uncountable_ones() {
    let cfg = HttpFetcherConfig::default();
    let huge = running(usize::MAX, 0, u64::MAX, 0, 0);
    let mut segs = vec![huge, Segment::new_at(1, 5, 9, 0, 0)];
    assert!(!is_countable(&segs, &cfg));
    assert!(is_claimable(&segs, &cfg));
    assert_eq!(pending_place(&segs), Some(1));
    assert_eq!(claim_pending_or_steal_at(&mut segs, &cfg, 7), Some(1));
    assert_eq!((segs[0], segs[1].state), (huge, SegmentState::Running));
    assert_eq!(pending_place(&segs), None);
    assert!(!is_claimable(&segs, &cfg));
}

#[test]
fn split_of_a_single_byte_leaves_one_side_empty() {
    let cfg = HttpFetcherConfig { steal_min_chunk_size: 0, ..HttpFetcherConfig::default() };
    let mut segs = vec![running(0, 10, 19, 9, 0)];
    assert_eq!(claim_pending_or_steal_at(&mut segs, &cfg, 0), Some(1));
    assert_eq!((segs[0].end_ceiling, segs[1].begin, segs[1].end_ceiling), (19, 20, 19));
    assert!(Transfer::start(&segs[1]).is_none());
    settle(&mut segs, 1, true);
    let not_all = Err("not all segments completed".to_string());
    assert_eq!(chunked_outcome(&vec![Ok(())], &segs, 20, 20), not_all);
}

#[test]
fn transfer_asks_for_what_is_missing() {
    let seg = running(0, 100, 199, 30, 0);
    let t = Transfer::start(&seg).unwrap();
    assert_eq!(t.range_header(), "bytes=130-199");
    assert_eq!(t.target, 70);
    assert!(Transfer::start(&running(0, 100, 199, 100, 0)).is_none());
}

#[test]
fn transfer_writes_no_more_than_it_asked_for() {
    let mut seg = running(0, 0, 9, 0, 0);
    let mut t = Transfer::start(&seg).unwrap();
    match t.on_event(&mut seg, &BodyEvent::Chunk { len: 4 }, 7) {
        TransferStep::Write(c) => assert!(c.take == 4 && !c.finished),
        other => panic!("{:?}", other),
    }
    assert_eq!(seg.last_progress_unix_nanos, 7);
    match t.on_event(&mut seg, &BodyEvent::Chunk { len: 0 }, 8) {
        TransferStep::Write(c) => assert!(c.take == 0 && !c.finished),
        other => panic!("{:?}", other),
    }
    assert_eq!(seg.last_progress_unix_nanos, 7);
    match t.on_event(&mut seg, &BodyEvent::Chunk { len: 40 }, 9) {
        TransferStep::Write(c) => assert!(c.take == 6 && c.finished),
        other => panic!("{:?}", other),
    }
    assert_eq!(seg.downloaded, 10);
    assert_eq!(finish_transfer(&seg), Ok(()));
}

#[test]
fn transfer_stops_where_its_segment_was_split() {
    let mut seg = running(0, 0, 99, 0, 0);
    let t = Transfer::start(&seg).unwrap();
    assert!(matches!(t.before_read(&seg, false), ReadStep::Read));
    seg.end_ceiling = 49;
    assert!(matches!(t.before_read(&seg, false), ReadStep::Stop));
    match t.before_read(&seg, true) {
        ReadStep::Fail(e) => assert_eq!(e, "Download cancelled"),
        other => panic!("{:?}", other),
    }
}

#[test]
fn body_faults_end_a_transfer() {
    let mut seg = running(0, 0, 9, 0, 0);
    let mut t = Transfer::start(&seg).unwrap();
    match t.on_event(&mut seg, &BodyEvent::Failed { error: "reset".to_string() }, 1) {
        TransferStep::Fail(e) => assert_eq!(e, "stream error: reset"),
        other => panic!("{:?}", other),
    }
    match t.on_event(&mut seg, &BodyEvent::TimedOut { waited: "30s".to_string() }, 1) {
        TransferStep::Fail(e) => assert_eq!(e, "read timed out after 30s"),
        other => panic!("{:?}", other),
    }
    assert!(matches!(t.on_event(&mut seg, &BodyEvent::Ended, 1), TransferStep::Stop));
    let e = finish_transfer(&seg).unwrap_err();
    assert_eq!(e, "incomplete segment: 0 of 10 bytes");
    assert!(!is_fatal(&e));
}

#[test]
fn responses_are_checked() {
    assert_eq!(check_response(206, "206 Partial Content", Some("video/mp4")), Ok(()));
    assert_eq!(check_response(206, "206 Partial Content", None), Ok(()));
    assert_eq!(
        check_response(200, "200 OK", None),
        Err("server did not honor Range (HTTP 200)".to_string())
    );
    let refused = check_response(404, "404 Not Found", None).unwrap_err();
    assert_eq!(refused, "HTTP 404 Not Found");
    assert!(is_fatal(&refused));
    for code in [400u16, 401, 403, 404, 405, 410, 451] {
        let e = check_response(code, &format!("{} Because", code), None).unwrap_err();
        assert!(is_fatal(&e));
    }
    for code in [402u16, 408, 412, 429, 500, 503] {
        let e = check_response(code, &format!("{} Because", code), None).unwrap_err();
        assert!(!is_fatal(&e));
    }
    let page = check_response(206, "206 Partial Content", Some("text/html; charset=utf-8"));
    assert_eq!(page, Err("server returned HTML instead of media".to_string()));
    assert!(is_fatal(&page.unwrap_err()));
}

#[test]
fn attempts_are_limited() {
    assert_eq!(
        after_failure(false, "connection reset", 0, 3),
        AfterFailure::Retry { attempt: 1, delay_secs: 1 }
    );
    assert_eq!(
        after_failure(false, "connection reset", 1, 3),
        AfterFailure::Retry { attempt: 2, delay_secs: 2 }
    );
    assert_eq!(after_failure(false, "connection reset", 2, 3), AfterFailure::GiveUp);
    assert_eq!(after_failure(false, "HTTP 410 Gone", 0, 3), AfterFailure::GiveUp);
    assert_eq!(after_failure(true, "connection reset", 0, 3), AfterFailure::Stop);
    assert_eq!(
        after_failure(false, "slow", 8, 20),
        AfterFailure::Retry { attempt: 9, delay_secs: 5 }
    );
}

#[test]
fn worker_goes_through_its_segments() {
    let (s, a) = worker_step(WorkerState::Seeking, WorkerEvent::Started, false, 3);
    assert!(matches!(a, WorkerAction::Claim));
    let (s, a) = worker_step(s, WorkerEvent::Claimed(Some(4)), false, 3);
    assert!(matches!(a, WorkerAction::Fetch(4)));
    let (s, a) = worker_step(s, WorkerEvent::Fetched(Err("reset".to_string())), false, 3);
    assert!(matches!(a, WorkerAction::Sleep(1)));
    let (s, a) = worker_step(s, WorkerEvent::Woke, false, 3);
    assert!(matches!(a, WorkerAction::Fetch(4)));
    let (s, a) = worker_step(s, WorkerEvent::Fetched(Ok(())), false, 3);
    assert!(matches!(a, WorkerAction::DoneThenClaim(4)));
    let (s, a) = worker_step(s, WorkerEvent::Claimed(None), false, 3);
    assert!(matches!(a, WorkerAction::Stop));
    assert_eq!(s, WorkerState::Stopped);
}

#[test]
fn worker_gives_up_on_fatal_errors() {
    let held = WorkerState::Holding { segment: 1, attempt: 0 };
    match worker_step(held, WorkerEvent::Fetched(Err("HTTP 403 Forbidden".to_string())), false, 3).1 {
        WorkerAction::FailWith(k, e) => assert_eq!((k, e.as_str()), (1, "HTTP 403 Forbidden")),
        other => panic!("{:?}", other),
    }
}

#[test]
fn cancelled_worker_stops_without_an_error() {
    let held = WorkerState::Holding { segment: 1, attempt: 2 };
    let (s, a) = worker_step(held, WorkerEvent::Fetched(Err("HTTP 403".to_string())), true, 3);
    assert!(s == WorkerState::Stopped && matches!(a, WorkerAction::Stop));
    let (s, a) = worker_step(held, WorkerEvent::Fetched(Ok(())), true, 3);
    assert!(s == WorkerState::Stopped && matches!(a, WorkerAction::DoneThenStop(1)));
    let (s, a) = worker_step(held, WorkerEvent::Woke, true, 3);
    assert!(s == WorkerState::Stopped && matches!(a, WorkerAction::Stop));
}

#[test]
fn download_succeeds_only_with_every_segment() {
    let mut segs = segments_from(&plan_segments(20, 10, 2));
    let fine: Vec<Result<(), String>> = vec![Ok(()), Ok(())];
    assert_eq!(
        chunked_outcome(&fine, &segs, 20, 20),
        Err("not all segments completed".to_string())
    );
    settle(&mut segs, 0, true);
    settle(&mut segs, 1, true);
    assert_eq!(chunked_outcome(&fine, &segs, 20, 20), Ok(()));
    assert_eq!(
        chunked_outcome(&fine, &segs, 19, 20),
        Err("size mismatch: expected 20 bytes, got 19".to_string())
    );
    settle(&mut segs, 1, false);
    assert_eq!(segs[1].state, SegmentState::Failed);
    let bad = vec![Ok(()), Err("first".to_string()), Err("second".to_string())];
    assert_eq!(chunked_outcome(&bad, &segs, 20, 20), Err("first".to_string()));
}

#[test]
fn every_byte_is_fetched_however_the_workers_take_turns() {
    let total = 97u64;
    for seed in 1..40u64 {
        // With a smallest part of zero, a split may leave one side empty.
        let steal_min_chunk_size = if seed % 2 == 0 { 0 } else { 3 };
        let cfg = HttpFetcherConfig { steal_min_chunk_size, ..HttpFetcherConfig::default() };
        let mut segs = segments_from(&plan_segments(total, 40, 3));
        let mut held: Vec<(usize, Transfer)> = Vec::new();
        let mut turn = seed;
        let mut steps = 0;
        loop {
            turn = turn.wrapping_mul(6364136223846793005).wrapping_add(1442695040888963407);
            let pick = (turn >> 33) as usize;
            steps += 1;
            assert!(steps < 10_000);
            if held.len() < 5 && pick % 3 == 0 || held.is_empty() {
                match claim_pending_or_steal_at(&mut segs, &cfg, 0) {
                    Some(k) => match Transfer::start(&segs[k]) {
                        Some(t) => held.push((k, t)),
                        None => settle(&mut segs, k, true),
                    },
                    None if held.is_empty() => break,
                    None => {}
                }
            } else {
                let at = pick % held.len();
                let (k, mut t) = held[at];
                let stop = matches!(t.before_read(&segs[k], false), ReadStep::Stop);
                let finished = !stop
                    && matches!(
                        t.on_event(&mut segs[k], &BodyEvent::Chunk { len: 7 }, 0),
                        TransferStep::Write(c) if c.finished
                    );
                held[at] = (k, t);
                if stop || finished {
                    match finish_transfer(&segs[k]) {
                        Ok(()) => {
                            settle(&mut segs, k, true);
                            held.remove(at);
                        }
                        Err(_) => held[at] = (k, Transfer::start(&segs[k]).unwrap()),
                    }
                }
            }
            assert!(is_partition(&segs, total));
        }
        assert_eq!(chunked_outcome(&vec![Ok(())], &segs, total, total), Ok(()));
        assert!((0..total).all(|b| segs.iter().any(|s| s.begin <= b && b < s.begin + s.downloaded)));
    }
}

#[test]
fn stream_counts_its_bytes() {
    let mut s = Stream::start(true, "200 OK", "https://example.com/f").unwrap();
    assert_eq!(s.before_read(false), Ok(()));
    assert!(matches!(s.on_event(&BodyEvent::Chunk { len: 5 }), StreamStep::Write));
    assert!(matches!(s.on_event(&BodyEvent::Chunk { len: 6 }), StreamStep::Write));
    assert!(matches!(s.on_event(&BodyEvent::Ended), StreamStep::Finish));
    assert_eq!(s.downloaded, 11);
    assert_eq!(s.before_read(true), Err("Download cancelled".to_string()));
    match s.on_event(&BodyEvent::Failed { error: "x".to_string() }) {
        StreamStep::Fail(e) => assert_eq!(e, "stream error: x"),
        other => panic!("{:?}", other),
    }
    assert_eq!(
        Stream::start(false, "404 Not Found", "https://example.com/f").unwrap_err(),
        "HTTP 404 Not Found downloading https://example.com/f"
    );
}

#[test]
fn way_to_fetch_follows_the_probe() {
    let mut cfg = HttpFetcherConfig::default();
    assert_eq!(known_probe(&cfg), None);
    cfg.known_total_bytes = Some(0);
    let none = known_probe(&cfg).unwrap();
    assert_eq!(none, ProbeResult { content_length: Some(0), accept_ranges: true });
    assert_eq!(choose_mode(&none, &cfg), FetchMode::Streaming);
    cfg.known_total_bytes = Some(60 * 1024 * 1024);
    let probe = known_probe(&cfg).unwrap();
    assert_eq!(choose_mode(&probe, &cfg), FetchMode::Chunked { total: 60 * 1024 * 1024 });
    let small = ProbeResult { content_length: Some(10), accept_ranges: true };
    assert_eq!(choose_mode(&small, &cfg), FetchMode::Streaming);
    let whole = ProbeResult { content_length: Some(60 * 1024 * 1024), accept_ranges: false };
    assert_eq!(choose_mode(&whole, &cfg), FetchMode::Streaming);
    let unknown = ProbeResult { content_length: None, accept_ranges: true };
    assert_eq!(choose_mode(&unknown, &cfg), FetchMode::Streaming);
    cfg.min_size_for_chunked = 0;
    let empty = ProbeResult { content_length: Some(0), accept_ranges: true };
    assert_eq!(choose_mode(&empty, &cfg), FetchMode::Streaming);
}

#[test]
fn probe_reads_the_answer() {
    let p = probe_from_head(true, "200 OK", Some(9), Some("bytes")).unwrap();
    assert_eq!(p, ProbeResult { content_length: Some(9), accept_ranges: true });
    let p = probe_from_head(true, "200 OK", None, Some("none")).unwrap();
    assert_eq!(p, ProbeResult { content_length: None, accept_ranges: false });
    assert!(!probe_from_head(true, "200 OK", None, None).unwrap().accept_ranges);
    assert_eq!(
        probe_from_head(false, "403 Forbidden", None, None),
        Err("HEAD returned HTTP 403 Forbidden".to_string())
    );
    assert_eq!(probe_failure(Some("dns")), "HEAD probe failed: dns");
    assert_eq!(probe_failure(None), "HEAD probe timed out");
}

#[test]
fn files_beside_the_download() {
    assert_eq!(sidecar_draft_path_for("a.part.resume.json"), "a.part.resume.json.tmp");
    assert!(needs_part_file(None, 5));
    assert!(needs_part_file(Some(4), 5));
    assert!(!needs_part_file(Some(5), 5));
    assert_eq!(rename_failure("busy"), "rename .part to final failed: busy");
    assert_eq!(chunked_result(Some(4), 5).bytes_written, 4);
    assert_eq!(chunked_result(None, 5).bytes_written, 5);
}

#[test]
fn at_least_one_worker() {
    let cfg = HttpFetcherConfig { concurrent_segments: 0, ..HttpFetcherConfig::default() };
    assert_eq!(worker_count(&cfg), 1);
    assert_eq!(worker_count(&HttpFetcherConfig::default()), 8);
}

#[test]
fn address_digest_is_the_start_of_sha256() {
    assert_eq!(url_hash("https://example.com/foo"), "5ea6a25e064152ea");
}

#[test]
fn progress_is_found_again() {
    let cfg = HttpFetcherConfig::default();
    let mut segs = segments_from(&plan_segments(100, 50, 2));
    segs[0].downloaded = 30;
    segs[1].end_ceiling = 79;
    segs.push(running(2, 80, 99, 5, 0));
    let saved = resume_state(&segs, "deadbeef", 100);
    assert_eq!(saved.kind, "http_segmented");
    let parts = initial_segments(Some(saved), 100, "deadbeef", &cfg);
    let again = segments_from(&parts);
    assert_eq!(again.len(), 3);
    assert_eq!(again[0].downloaded, 30);
    assert_eq!((again[2].begin, again[2].end_ceiling, again[2].downloaded), (80, 99, 5));
    assert!(again.iter().all(|s| s.state == SegmentState::Pending));
    assert!(is_partition(&again, 100));
    assert_eq!(downloaded_total(&again), 35);
}

#[test]
fn foreign_progress_is_not_used() {
    let cfg = HttpFetcherConfig { segment_size_hint: 50, ..HttpFetcherConfig::default() };
    let state = |kind: &str, hash: &str, total: u64, segments: Vec<ResumeSegment>| ResumeState {
        kind: kind.to_string(),
        url_hash: hash.to_string(),
        total_bytes: total,
        segments,
    };
    let part = vec![ResumeSegment { begin: 0, end: 99, downloaded: 40 }];
    for saved in vec![
        state("other", "h", 100, part.clone()),
        state("http_segmented", "x", 100, part.clone()),
        state("http_segmented", "h", 99, part.clone()),
        state("http_segmented", "h", 100, Vec::new()),
    ] {
        assert_eq!(initial_segments(Some(saved), 100, "h", &cfg).len(), 2);
    }
    let off = HttpFetcherConfig { use_sidecar_resume: false, ..cfg };
    let saved = state("http_segmented", "h", 100, part);
    assert_eq!(initial_segments(Some(saved.clone()), 100, "h", &off).len(), 2);
    assert_eq!(initial_segments(Some(saved), 100, "h", &cfg).len(), 1);
    assert_eq!(initial_segments(None, 100, "h", &cfg).len(), 2);
}

#[test]
fn fetcher_carries_its_settings() {
    let f = HttpFetcher::new("https://example.com/a".to_string(), "a.bin".to_string());
    assert_eq!(f.output_path(), "a.bin");
    assert!(f.headers.is_none());
    let cfg = HttpFetcherConfig { concurrent_segments: 2, ..HttpFetcherConfig::default() };
    let f = f.with_headers(vec![("referer".to_string(), "x".to_string())]).with_config(cfg);
    assert_eq!(f.config.concurrent_segments, 2);
    assert_eq!(f.headers.unwrap().len(), 1);
    assert_eq!(f.url, "https://example.com/a");
}

#[test]
fn clock_readings_are_cut_to_64_bits() {
    assert_eq!(unix_nanos_from(None), 0);
    assert_eq!(unix_millis_from(None), 0);
    assert_eq!(unix_nanos_from(Some((1u128 << 64) + 5)), 5);
    assert_eq!(unix_millis_from(Some(3_500_000)), 3);
}
