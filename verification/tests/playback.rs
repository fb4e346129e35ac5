use fullerene::playback::{
    draw_origin, drain_deadline, frame_interval_tsc, playback_timing, prefill_plan, saturating_mul,
    CalAction, CalPhase, FramePacer, FramePlayer, LpibTracker, PcmCursor, PlayerAction, PlayerEvent,
    PlayerPhase, TscCalibration, AUDIO_SZ, FALLBACK_TSC_PER_MS, HALF,
};

fn run_calibration(cal: &mut TscCalibration, clocks: &mut Vec<u64>, progress: &mut Vec<Option<u64>>) -> u64 {
    clocks.reverse();
    progress.reverse();
    loop {
        match cal.action() {
            CalAction::ReadClock => cal.feed_clock(clocks.pop().expect("clock reading")),
            CalAction::ReadProgress => cal.feed_progress(progress.pop().expect("progress reading")),
            CalAction::Finish(r) => return r,
        }
    }
}

#[test]
fn calibration_without_audio_uses_fallback() {
    let cal = TscCalibration::start(false);
    assert_eq!(cal.action(), CalAction::Finish(FALLBACK_TSC_PER_MS));
}

#[test]
fn calibration_measures_half_ring() {
    let mut cal = TscCalibration::start(true);
    // t0, first position 100, no movement (clock check), movement to 200,
    // measurement clock, then positions adding up to half the ring.
    let mut clocks = vec![0, 10, 1_000_000, 1_000_010, 1_000_000 + 170 * 2_000_000];
    let mut progress = vec![Some(100), Some(100), Some(200), Some(8000), Some(16568)];
    let r = run_calibration(&mut cal, &mut clocks, &mut progress);
    // 170 ms measured over 340_000_000 ticks.
    assert_eq!(r, 2_000_000);
}

#[test]
fn calibration_wraps_around_the_ring() {
    let mut cal = TscCalibration::start(true);
    let mut clocks = vec![0, 5, 1_000_000 + 170 * 5_000_000];
    // Movement 30000 -> 30001, then 30001 -> 14633 across the wrap: 2735 + 14633 = 17368 >= HALF.
    let mut progress = vec![Some(30000), Some(30001), Some(14633)];
    let r = run_calibration(&mut cal, &mut clocks, &mut progress);
    assert_eq!(r, 5_000_000 + 1_000_000 / 170);
}

#[test]
fn calibration_rejects_out_of_range_rate() {
    let mut cal = TscCalibration::start(true);
    let mut clocks = vec![0, 0, 170 * 50];
    let mut progress = vec![Some(1), Some(2), Some(20000)];
    assert_eq!(run_calibration(&mut cal, &mut clocks, &mut progress), FALLBACK_TSC_PER_MS);
}

#[test]
fn calibration_invalid_position_falls_back() {
    let mut cal = TscCalibration::start(true);
    let mut clocks = vec![0];
    let mut progress = vec![Some(AUDIO_SZ)];
    assert_eq!(run_calibration(&mut cal, &mut clocks, &mut progress), FALLBACK_TSC_PER_MS);
    let mut cal = TscCalibration::start(true);
    let mut clocks = vec![0];
    let mut progress = vec![None];
    assert_eq!(run_calibration(&mut cal, &mut clocks, &mut progress), FALLBACK_TSC_PER_MS);
}

#[test]
fn calibration_start_timeout() {
    let mut cal = TscCalibration::start(true);
    let mut clocks = vec![1000, 1000 + 300_000_000];
    let mut progress = vec![Some(5), Some(5)];
    assert_eq!(run_calibration(&mut cal, &mut clocks, &mut progress), FALLBACK_TSC_PER_MS);
}

#[test]
fn calibration_measure_timeout() {
    let mut cal = TscCalibration::start(true);
    let mut clocks = vec![0, 7, 7 + 3_000_000_000];
    let mut progress = vec![Some(5), Some(6), None];
    assert_eq!(run_calibration(&mut cal, &mut clocks, &mut progress), FALLBACK_TSC_PER_MS);
    assert!(matches!(cal.phase, CalPhase::Done(_)));
}

#[test]
fn pcm_cursor_windows() {
    let mut c = PcmCursor::new(0, 40000);
    assert_eq!(c.next_window(), Some((0, HALF)));
    c.consume(HALF);
    assert_eq!(c.next_window(), Some((HALF, 2 * HALF)));
    c.consume(1000);
    assert_eq!(c.off, HALF + 1000);
    c.consume(0);
    assert_eq!(c.off, HALF + 1000);
    let mut c = PcmCursor::new(39000, 40000);
    assert_eq!(c.next_window(), Some((39000, 40000)));
    c.consume(1000);
    assert_eq!(c.next_window(), None);
}

#[test]
fn prefill_of_short_and_long_streams() {
    let p = prefill_plan(0);
    assert_eq!((p.first, p.second, p.off), (None, None, 0));
    let p = prefill_plan(100);
    assert_eq!((p.first, p.second, p.off), (Some((0, 100)), None, 100));
    let p = prefill_plan(HALF + 5);
    assert_eq!((p.first, p.second, p.off), (Some((0, HALF)), Some((HALF, HALF + 5)), HALF + 5));
    let p = prefill_plan(100_000);
    assert_eq!((p.first, p.second, p.off), (Some((0, HALF)), Some((HALF, 2 * HALF)), 2 * HALF));
}

#[test]
fn timing_of_frames() {
    let t = playback_timing(96_000 * 10, 300);
    assert_eq!(t.dur_ms, 10_000);
    assert_eq!(t.fi_ms, 33);
    assert_eq!(t.pcm_per_frame, 3200);
    let t = playback_timing(96_000, 0);
    assert_eq!((t.dur_ms, t.fi_ms, t.pcm_per_frame), (1000, 1000, 96_000));
    assert_eq!(frame_interval_tsc(40, 1000), 40_000);
    assert_eq!(frame_interval_tsc(10, 1000), 33_000);
    assert_eq!(frame_interval_tsc(u64::MAX, 2), u64::MAX);
    assert_eq!(saturating_mul(u64::MAX, 2), u64::MAX);
    assert_eq!(saturating_mul(6, 7), 42);
}

#[test]
fn lpib_tracks_wraps() {
    let mut t = LpibTracker::start(Some(30000));
    assert!(t.valid);
    t.feed(Some(31000));
    assert_eq!((t.wraps, t.consumed), (0, 31000));
    t.feed(Some(100));
    assert_eq!((t.wraps, t.consumed), (1, AUDIO_SZ + 100));
    t.feed(None);
    assert_eq!((t.wraps, t.consumed, t.last), (1, AUDIO_SZ + 100, 100));
    t.feed(Some(AUDIO_SZ));
    assert!(!t.valid);
    let t = LpibTracker::start(Some(AUDIO_SZ + 1));
    assert!(!t.valid);
    let t = LpibTracker::start(None);
    assert!(!t.valid);
}

#[test]
fn pacer_decisions() {
    let mut p = FramePacer { af_tsc: 100, fi_tsc: 1000, pcm_per_frame: 3200, last_af: 50 };
    assert_eq!(p.target(0), 3200);
    assert_eq!(p.target(9), 32000);
    assert!(!p.feed_due(149));
    assert_eq!(p.last_af, 50);
    assert!(p.feed_due(150));
    assert_eq!(p.last_af, 150);
    assert!(!p.wait_timed_out(10, 3009));
    assert!(p.wait_timed_out(10, 3010));
    assert_eq!(drain_deadline(5, 200, 10), 10_005);
    assert_eq!(drain_deadline(5, 2000, 10), 20_005);
    assert_eq!(drain_deadline(u64::MAX, 1000, 1), 999);
}

#[test]
fn draw_origin_offsets() {
    assert_eq!(draw_origin(0, 0), (100, 100));
    assert_eq!(draw_origin(20, 30), (120, 130));
    assert_eq!(draw_origin(u32::MAX, u32::MAX - 200), (99, 0));
}

fn pacer(pcm_per_frame: u64) -> FramePacer {
    FramePacer { af_tsc: 10, fi_tsc: 1000, pcm_per_frame, last_af: 0 }
}

#[test]
fn player_waits_on_audio_then_draws() {
    let lpib = LpibTracker::start(Some(0));
    let mut p = FramePlayer::new(2, true, lpib, pacer(100), PcmCursor::new(2 * HALF, 3 * HALF));
    assert_eq!(p.action(), PlayerAction::ReadClock);
    // The wait for frame 0 starts at 5: 100 bytes must play.
    assert_eq!(p.step(PlayerEvent::Clock(5)), PlayerAction::ReadProgress);
    assert_eq!(p.phase, PlayerPhase::WaitProgress { target: 100, ls: 5 });
    assert_eq!(p.step(PlayerEvent::Progress(Some(40))), PlayerAction::ReadClock);
    // Audio is due at 20: the next half of the stream is handed over.
    assert_eq!(p.step(PlayerEvent::Clock(20)), PlayerAction::Feed { start: 2 * HALF, end: 3 * HALF });
    assert_eq!(p.step(PlayerEvent::Fed(1000)), PlayerAction::ReadClock);
    assert_eq!(p.cursor.off, 2 * HALF + 1000);
    assert_eq!(p.step(PlayerEvent::Clock(25)), PlayerAction::ReadProgress);
    assert_eq!(p.step(PlayerEvent::Progress(Some(150))), PlayerAction::ReadClock);
    // Not due (25 - 20 < 10), but 150 >= 100 bytes played: draw frame 0.
    assert_eq!(p.step(PlayerEvent::Clock(25)), PlayerAction::Draw(0));
    // Events the phase does not wait for change nothing.
    let before = p;
    assert_eq!(p.step(PlayerEvent::Clock(99)), PlayerAction::Draw(0));
    assert_eq!(p.idx, before.idx);
    assert_eq!(p.step(PlayerEvent::Drawn), PlayerAction::ReadClock);
    assert_eq!(p.idx, 1);
    assert_eq!(p.phase, PlayerPhase::WaitStart);
}

#[test]
fn player_falls_back_to_timed_pacing() {
    // A position outside the ring ends the wait and the rest is timed.
    let mut p = FramePlayer::new(2, true, LpibTracker::start(Some(0)), pacer(100), PcmCursor::new(0, 0));
    p.step(PlayerEvent::Clock(0));
    assert_eq!(p.step(PlayerEvent::Progress(Some(AUDIO_SZ))), PlayerAction::ReadClock);
    assert_eq!(p.phase, PlayerPhase::TimedStart);
    assert!(!p.lpib.valid);
    p.step(PlayerEvent::Clock(100));
    assert_eq!(p.phase, PlayerPhase::TimedWait { fd: 1100 });
    assert_eq!(p.step(PlayerEvent::Clock(500)), PlayerAction::ReadClock);
    assert_eq!(p.step(PlayerEvent::Clock(1100)), PlayerAction::Draw(0));
    assert_eq!(p.step(PlayerEvent::Drawn), PlayerAction::ReadClock);
    assert_eq!(p.phase, PlayerPhase::TimedStart);
    p.step(PlayerEvent::Clock(2000));
    assert_eq!(p.step(PlayerEvent::Clock(3000)), PlayerAction::Draw(1));
    assert_eq!(p.step(PlayerEvent::Drawn), PlayerAction::Finish(2));

    // Three frame intervals without reaching the target also fall back.
    let mut q = FramePlayer::new(1, true, LpibTracker::start(Some(0)), pacer(100), PcmCursor::new(0, 0));
    q.step(PlayerEvent::Clock(0));
    q.step(PlayerEvent::Progress(Some(10)));
    q.step(PlayerEvent::Clock(0));
    assert_eq!(q.phase, PlayerPhase::WaitTimeoutClock { target: 100, ls: 0 });
    assert_eq!(q.step(PlayerEvent::Clock(2999)), PlayerAction::ReadProgress);
    q.step(PlayerEvent::Progress(Some(10)));
    q.step(PlayerEvent::Clock(0));
    assert_eq!(q.step(PlayerEvent::Clock(3000)), PlayerAction::ReadClock);
    assert_eq!(q.phase, PlayerPhase::TimedStart);

    // Without audio every frame is timed; no frames finish at once.
    let r = FramePlayer::new(3, false, LpibTracker::start(None), pacer(0), PcmCursor::new(0, 0));
    assert_eq!(r.phase, PlayerPhase::TimedStart);
    let e = FramePlayer::new(0, true, LpibTracker::start(Some(0)), pacer(0), PcmCursor::new(0, 0));
    assert_eq!(e.action(), PlayerAction::Finish(0));
}
