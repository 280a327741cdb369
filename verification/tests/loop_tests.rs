use can_standin::frame::Frame;
use can_standin::pacing::Wait;
use can_standin::quality::fill_quality_test_payload;
use can_standin::receiver::{FrameAction, IdleAction, RxContext, RxLoop, RxMode, RxOutcome};
use can_standin::sender::{TxContext, TxLoop, TxMode, TxNext};
use can_standin::stats::{report_interval, seconds_to_nanos, Report};

const PLAIN: RxMode = RxMode { quality_test: false, test_id: None, check_counter: false };
const COUNTER: RxMode = RxMode { quality_test: false, test_id: None, check_counter: true };

fn quality(test_id: Option<u8>) -> RxMode {
    RxMode { quality_test: true, test_id, check_counter: false }
}

fn quality_frame(seq: u16, elapsed_ms: u64, test_id: u8) -> Frame {
    let mut f = Frame::template(false, 0x123, &[0u8; 8], 0);
    fill_quality_test_payload(&mut f.data, seq, elapsed_ms, test_id);
    f
}

#[test]
fn hundred_counter_frames_arrive_clean() {
    let mode = TxMode { quality_test: false, test_id: 1, use_counter: true };
    let mut tx = TxContext::new(0);
    let mut rx = RxContext::new(0);
    let mut frame = Frame::template(false, 0x123, &[0xAA; 4], 0xAA);
    let mut now = 0u64;
    let mut sent = 0;
    loop {
        tx.stamp_frame(mode, &mut frame, now / 1_000_000);
        let wire = frame.to_wire();
        let stop = tx.after_send(frame.len, 100, None, now);
        sent += 1;
        let got = Frame::from_wire(false, &wire).unwrap();
        assert_eq!(rx.on_frame(COUNTER, &got, now), RxOutcome::Plain);
        let done = rx.is_finished(100, None, now);
        assert_eq!(done, stop);
        if stop {
            break;
        }
        now += 1_000;
    }
    assert_eq!(sent, 100);
    assert_eq!(tx.stats.total_frames, 100);
    assert_eq!(tx.counter, 100);
    assert_eq!(rx.stats.total_frames, 100);
    assert_eq!(rx.stats.total_bytes, 100 * 4);
    assert_eq!(rx.counter_drops, 0);
    assert_eq!(rx.counter_ooo, 0);
    assert_eq!(rx.last_counter, Some(99));
}

#[test]
fn quality_frames_of_another_test_are_ignored() {
    let mode = TxMode { quality_test: true, test_id: 7, use_counter: false };
    let mut tx = TxContext::new(0);
    let mut rx = RxContext::new(0);
    let mut frame = Frame::template(false, 0x123, &[0u8; 8], 0);
    for i in 0..50u64 {
        tx.stamp_frame(mode, &mut frame, i);
        let got = Frame::from_wire(false, &frame.to_wire()).unwrap();
        let outcome = rx.on_frame(quality(Some(7)), &got, i * 1_000_000);
        let expected = if i == 0 { None } else { Some(1_000_000) };
        assert_eq!(outcome, RxOutcome::Accepted { interarrival_ns: expected });
        // a frame of another test on the same channel
        let before = rx;
        let foreign = quality_frame(i as u16 + 1000, i, 9);
        assert_eq!(rx.on_frame(quality(Some(7)), &foreign, i * 1_000_000 + 5), RxOutcome::Ignored);
        assert_eq!(rx, before);
    }
    assert_eq!(tx.quality_seq, 50);
    assert_eq!(rx.stats.total_frames, 50);
    assert_eq!(rx.stats.total_bytes, 400);
    assert_eq!(rx.qt_valid, 50);
    assert_eq!(rx.qt_invalid, 0);
    assert_eq!(rx.qt_drops, 0);
    assert_eq!(rx.qt_ooo, 0);
}

#[test]
fn quality_receiver_without_test_id_takes_every_test() {
    let mut rx = RxContext::new(0);
    assert!(matches!(
        rx.on_frame(quality(None), &quality_frame(0, 0, 7), 10),
        RxOutcome::Accepted { interarrival_ns: None }
    ));
    assert!(matches!(
        rx.on_frame(quality(None), &quality_frame(1, 0, 9), 30),
        RxOutcome::Accepted { interarrival_ns: Some(20) }
    ));
    assert_eq!(rx.qt_valid, 2);
}

#[test]
fn malformed_payload_is_counted_and_not_received() {
    let mut rx = RxContext::new(0);
    let mut f = quality_frame(3, 4, 7);
    f.data[3] ^= 0x10;
    assert_eq!(rx.on_frame(quality(Some(7)), &f, 10), RxOutcome::Malformed);
    assert_eq!(rx.qt_invalid, 1);
    assert_eq!(rx.qt_valid, 0);
    assert_eq!(rx.stats.total_frames, 0);
    assert_eq!(rx.last_rx, None);
}

#[test]
fn plain_data_in_quality_mode_is_ignored() {
    let mut rx = RxContext::new(0);
    let f = Frame::template(false, 0x123, &[1, 2, 3, 4, 5, 6, 7, 8], 0);
    let before = rx;
    assert_eq!(rx.on_frame(quality(None), &f, 10), RxOutcome::Ignored);
    assert_eq!(rx, before);
    // a valid payload cut short by the declared length is no payload
    let mut short = quality_frame(1, 2, 3);
    short.len = 7;
    assert_eq!(rx.on_frame(quality(None), &short, 10), RxOutcome::Ignored);
    assert_eq!(rx, before);
}

#[test]
fn quality_drops_and_reordering_are_counted() {
    let mut rx = RxContext::new(0);
    for (i, seq) in [0u16, 1, 5, 4, 5].iter().enumerate() {
        rx.on_frame(quality(None), &quality_frame(*seq, 0, 1), i as u64);
    }
    assert_eq!(rx.qt_drops, 3);
    assert_eq!(rx.qt_ooo, 1);
    assert_eq!(rx.qt_last_seq, Some(5));
    assert_eq!(rx.qt_valid, 5);
}

#[test]
fn plain_frames_are_counted_with_their_length() {
    let mut rx = RxContext::new(5);
    let f = Frame::template(true, 0x123, &[0u8; 12], 0);
    assert_eq!(rx.on_frame(PLAIN, &f, 10), RxOutcome::Plain);
    assert_eq!(rx.stats.total_frames, 1);
    assert_eq!(rx.stats.total_bytes, 12);
    assert_eq!(rx.last_rx, Some(10));
    assert_eq!(rx.last_counter, None);
}

#[test]
fn counter_check_needs_four_bytes() {
    let mut rx = RxContext::new(0);
    let f = Frame::template(false, 0x123, &[1, 0, 0], 0);
    assert_eq!(rx.on_frame(COUNTER, &f, 10), RxOutcome::Plain);
    assert_eq!(rx.last_counter, None);
    assert_eq!(rx.stats.total_bytes, 3);
    let f = Frame::template(false, 0x123, &[1, 0, 0, 0], 0);
    rx.on_frame(COUNTER, &f, 11);
    assert_eq!(rx.last_counter, Some(1));
    let f = Frame::template(false, 0x123, &[4, 0, 0, 0], 0);
    rx.on_frame(COUNTER, &f, 12);
    assert_eq!(rx.counter_drops, 2);
    let f = Frame::template(false, 0x123, &[2, 0, 0, 0], 0);
    rx.on_frame(COUNTER, &f, 13);
    assert_eq!(rx.counter_ooo, 1);
    assert_eq!(rx.last_counter, Some(2));
}

#[test]
fn idle_receiver_leaves_at_threshold() {
    let mut rx = RxContext::new(0);
    // nothing received yet: never leaves
    assert!(!rx.on_idle(Some(100), 10_000_000_000));
    let f = Frame::template(false, 0x123, &[0u8; 8], 0);
    rx.on_frame(PLAIN, &f, 1_000_000);
    assert!(!rx.on_idle(Some(100), 1_000_000));
    assert!(!rx.on_idle(Some(100), 100_999_999));
    assert!(rx.on_idle(Some(100), 101_000_000));
    assert!(rx.on_idle(Some(100), 500_000_000));
    // no threshold: never leaves
    assert!(!rx.on_idle(None, 500_000_000));
    // a clock that reads earlier than the last frame
    assert!(!rx.on_idle(Some(1), 0));
    assert!(rx.can_take_frame());
}

#[test]
fn receiver_stops_on_count_or_duration() {
    let mut rx = RxContext::new(1_000);
    let f = Frame::template(false, 0x123, &[0u8; 8], 0);
    rx.on_frame(PLAIN, &f, 2_000);
    assert!(!rx.is_finished(0, None, 1 << 60));
    assert!(!rx.is_finished(2, None, 1 << 60));
    assert!(rx.is_finished(1, None, 2_000));
    assert!(!rx.is_finished(0, Some(5_000), 5_999));
    assert!(rx.is_finished(0, Some(5_000), 6_000));
    assert!(rx.is_finished(2, Some(5_000), 6_000));
}

#[test]
fn sender_counter_wraps() {
    let mode = TxMode { quality_test: false, test_id: 0, use_counter: true };
    let mut tx = TxContext::new(0);
    tx.counter = u32::MAX;
    let mut frame = Frame::template(false, 1, &[0u8; 8], 0);
    tx.stamp_frame(mode, &mut frame, 0);
    assert_eq!(&frame.data[..4], &[0xFF, 0xFF, 0xFF, 0xFF]);
    assert_eq!(tx.counter, 0);
    tx.stamp_frame(mode, &mut frame, 0);
    assert_eq!(&frame.data[..4], &[0, 0, 0, 0]);
    assert_eq!(tx.counter, 1);
}

#[test]
fn sender_sequence_wraps() {
    let mode = TxMode { quality_test: true, test_id: 3, use_counter: true };
    let mut tx = TxContext::new(0);
    tx.quality_seq = u16::MAX;
    let mut frame = Frame::template(true, 1, &[0u8; 8], 0x11);
    tx.stamp_frame(mode, &mut frame, 70_000);
    assert_eq!(&frame.data[..7], &[0xCA, 0xFE, 0xFF, 0xFF, 0x11, 0x70, 3]);
    assert_eq!(frame.data[8], 0x11);
    assert_eq!(tx.quality_seq, 0);
    assert_eq!(tx.counter, 0);
}

#[test]
fn sender_without_mode_leaves_the_frame() {
    let mode = TxMode { quality_test: false, test_id: 3, use_counter: false };
    let mut tx = TxContext::new(0);
    let mut frame = Frame::template(false, 1, &[1, 2, 3], 9);
    tx.stamp_frame(mode, &mut frame, 5);
    assert_eq!(frame.data, vec![1, 2, 3, 9, 9, 9, 9, 9]);
    assert_eq!(tx, TxContext::new(0));
}

#[test]
fn sender_stops_on_limit_or_duration() {
    let mut tx = TxContext::new(100);
    assert!(!tx.after_send(8, 2, None, 200));
    assert!(tx.after_send(8, 2, None, 300));
    assert_eq!(tx.stats.total_bytes, 16);
    let mut tx = TxContext::new(100);
    assert!(!tx.after_send(8, 0, Some(1_000), 1_099));
    assert!(tx.after_send(8, 0, Some(1_000), 1_100));
    assert!(!tx.after_send(8, 0, None, u64::MAX));
    assert!(tx.can_take_frame());
}

fn rx_loop(mode: RxMode) -> RxLoop {
    RxLoop {
        mode,
        dump: true,
        quiet: false,
        stats_interval: Some(1_000),
        count: 3,
        duration_ns: None,
        idle_exit_ms: Some(100),
    }
}

#[test]
fn receiver_step_reports_and_stops() {
    let mut rx = RxContext::new(0);
    let f = Frame::template(false, 0x123, &[0u8; 8], 0);
    let cfg = rx_loop(PLAIN);
    assert_eq!(
        rx.handle_frame(cfg, &f, 500),
        FrameAction { outcome: RxOutcome::Plain, dump: true, report: None, stop: false }
    );
    assert_eq!(
        rx.handle_frame(cfg, &f, 1_000),
        FrameAction {
            outcome: RxOutcome::Plain,
            dump: true,
            report: Some(Report { total_frames: 2, frames: 2, bytes: 16, elapsed_ns: 1_000 }),
            stop: false
        }
    );
    assert_eq!(rx.stats.last_frames, 2);
    assert_eq!(
        rx.handle_frame(cfg, &f, 1_500),
        FrameAction { outcome: RxOutcome::Plain, dump: true, report: None, stop: true }
    );
}

#[test]
fn receiver_step_skips_what_is_not_counted() {
    let mut rx = RxContext::new(0);
    let cfg = RxLoop { count: 1, stats_interval: Some(0), ..rx_loop(quality(Some(7))) };
    let foreign = quality_frame(1, 2, 9);
    assert_eq!(
        rx.handle_frame(cfg, &foreign, 10),
        FrameAction { outcome: RxOutcome::Ignored, dump: false, report: None, stop: false }
    );
    let mut damaged = quality_frame(1, 2, 7);
    damaged.data[7] ^= 1;
    assert_eq!(
        rx.handle_frame(cfg, &damaged, 20),
        FrameAction { outcome: RxOutcome::Malformed, dump: true, report: None, stop: false }
    );
    assert_eq!(rx.stats.total_frames, 0);
    assert_eq!(
        rx.handle_frame(RxLoop { dump: false, ..cfg }, &quality_frame(1, 2, 7), 30),
        FrameAction {
            outcome: RxOutcome::Accepted { interarrival_ns: None },
            dump: false,
            report: Some(Report { total_frames: 1, frames: 1, bytes: 8, elapsed_ns: 30 }),
            stop: true
        }
    );
}

#[test]
fn receiver_idle_step() {
    let mut rx = RxContext::new(0);
    let cfg = rx_loop(PLAIN);
    assert_eq!(rx.handle_idle(cfg, 1 << 40), IdleAction { report: None, stop: false });
    let f = Frame::template(false, 0x123, &[0u8; 8], 0);
    rx.on_frame(PLAIN, &f, 1_000_000);
    assert_eq!(rx.handle_idle(cfg, 50_000_000), IdleAction { report: None, stop: false });
    let before = rx;
    assert_eq!(
        rx.handle_idle(RxLoop { quiet: true, ..cfg }, 101_000_000),
        IdleAction { report: None, stop: true }
    );
    assert_eq!(rx, before);
    assert_eq!(
        rx.handle_idle(cfg, 101_000_000),
        IdleAction {
            report: Some(Report { total_frames: 1, frames: 1, bytes: 8, elapsed_ns: 101_000_000 }),
            stop: true
        }
    );
    assert_eq!(rx.stats.last_report, 101_000_000);
    assert_eq!(rx.handle_idle(RxLoop { idle_exit_ms: None, ..cfg }, 1 << 40).stop, false);
}

#[test]
fn sender_step_paces_and_stops() {
    let mode = TxMode { quality_test: false, test_id: 0, use_counter: false };
    let cfg = TxLoop { mode, limit: 3, duration_ns: None, nanos_per_frame: 1_000_000 };
    let mut tx = TxContext::new(0);
    assert!(tx.can_schedule(cfg.nanos_per_frame, 10));
    assert_eq!(tx.handle_sent(cfg, 8, 10), TxNext::Pace { first: Wait::Ready, deadline: 0 });
    assert_eq!(tx.next_send, 1_000_010);
    assert_eq!(
        tx.handle_sent(cfg, 8, 20),
        TxNext::Pace { first: Wait::Sleep(1_000_010 - 20 - 200_000), deadline: 1_000_010 }
    );
    assert_eq!(tx.next_send, 2_000_010);
    assert_eq!(tx.handle_sent(cfg, 8, 1_000_010), TxNext::Stop);
    assert_eq!(tx.next_send, 2_000_010);
    assert_eq!(tx.stats.total_frames, 3);
    assert_eq!(tx.stats.total_bytes, 24);
}

#[test]
fn sender_step_unpaced() {
    let mode = TxMode { quality_test: false, test_id: 0, use_counter: false };
    let cfg = TxLoop { mode, limit: 0, duration_ns: Some(100), nanos_per_frame: 0 };
    let mut tx = TxContext::new(50);
    assert_eq!(tx.handle_sent(cfg, 4, 60), TxNext::Pace { first: Wait::Ready, deadline: 50 });
    assert_eq!(tx.next_send, 50);
    assert_eq!(tx.handle_sent(cfg, 4, 150), TxNext::Stop);
    tx.next_send = u64::MAX;
    assert!(tx.can_schedule(0, 0));
    assert!(!tx.can_schedule(1, 0));
}

#[test]
fn report_interval_and_seconds() {
    assert_eq!(report_interval(false, 1), Some(1_000_000_000));
    assert_eq!(report_interval(false, 0), None);
    assert_eq!(report_interval(true, 1), None);
    assert_eq!(report_interval(false, u64::MAX), Some(u64::MAX));
    assert_eq!(seconds_to_nanos(0), 0);
    assert_eq!(seconds_to_nanos(7), 7_000_000_000);
    assert_eq!(seconds_to_nanos(18_446_744_073), 18_446_744_073_000_000_000);
    assert_eq!(seconds_to_nanos(18_446_744_074), u64::MAX);
}
