//! Timing of the Bad Apple player: TSC calibration against the audio DMA
//! position, the pacing of video frames, and the refilling of the audio
//! ring from the PCM stream.
//!
//! The caller reads the time-stamp counter and the audio controller's
//! position and hands the readings to the types here, which decide what
//! happens next.
use vstd::prelude::*;

verus! {

/// Bytes per second of the PCM stream.
pub const PCM_BPS: u64 = 96000;

/// Pixel threshold between black and white when drawing a frame.
pub const THRESHOLD: u8 = 128;

/// Width of the player window.
pub const WIN_W: u32 = 640;

/// Height of the player window.
pub const WIN_H: u32 = 480;

/// Height of a window's title bar.
pub const TITLE_BAR_H: i32 = 20;

/// Half of the audio ring: the unit in which PCM data is fed.
pub const HALF: usize = 16368;

/// Size of the audio ring in bytes; a position at or beyond it is invalid.
pub const AUDIO_SZ: u64 = 32736;

/// TSC ticks per millisecond assumed when calibration is not possible.
pub const FALLBACK_TSC_PER_MS: u64 = 3_000_000;

/// Bytes of audio played during the measurement: half the ring.
pub const CALIB_HALF: u64 = 16368;

/// Milliseconds that `CALIB_HALF` bytes last at `PCM_BPS`.
pub const CALIB_MS: u64 = 170;

/// Ticks allowed for the audio position to start moving.
pub const START_TIMEOUT: u64 = 300_000_000;

/// Ticks allowed for the measurement itself.
pub const MEASURE_TIMEOUT: u64 = 3_000_000_000;

/// `a * b`, or `u64::MAX` when it does not fit.
pub open spec fn sat_mul(a: u64, b: u64) -> u64 {
    if a * b > u64::MAX { u64::MAX } else { (a * b) as u64 }
}

/// `a.saturating_mul(b)`.
pub fn saturating_mul(a: u64, b: u64) -> (r: u64)
    ensures
        r == sat_mul(a, b),
{
    match a.checked_mul(b) {
        Some(p) => p,
        None => u64::MAX,
    }
}

/// Bytes played from ring position `prev` to ring position `cur`, the ring
/// having wrapped when `cur` is below `prev`.
pub open spec fn ring_delta(prev: u64, cur: u64) -> int {
    if cur >= prev { cur - prev } else { (AUDIO_SZ - prev) + cur }
}

/// The rate measured from `ticks` elapsed over `CALIB_MS` milliseconds,
/// replaced by the fallback when outside 100 000 ..= 10 000 000.
pub open spec fn clamp_rate(ticks: u64) -> u64 {
    let r = ticks / CALIB_MS;
    if r < 100_000 || r > 10_000_000 { FALLBACK_TSC_PER_MS } else { r }
}

/// Where a TSC calibration stands.
#[derive(Clone, Copy, Debug, PartialEq, Eq, Structural)]
pub enum CalPhase {
    /// Read the counter that starts the wait for movement.
    ReadStartClock,
    /// Read the first audio position.
    ReadFirstProgress,
    /// Read the audio position until it moves.
    AwaitMovement,
    /// Read the counter to check the wait for movement.
    CheckStartTimeout,
    /// Read the counter that starts the measurement.
    ReadMeasureClock,
    /// Read the audio position and add what was played.
    Measure,
    /// Read the counter to check the measurement.
    CheckMeasureTimeout,
    /// Read the counter that ends the measurement.
    ReadEndClock,
    /// Calibration is over: TSC ticks per millisecond.
    Done(u64),
}

/// What a calibration asks for next.
#[derive(Clone, Copy, Debug, PartialEq, Eq, Structural)]
pub enum CalAction {
    /// Read the time-stamp counter and report it with `feed_clock`.
    ReadClock,
    /// Read the audio DMA position and report it with `feed_progress`.
    ReadProgress,
    /// The calibration is over with this many ticks per millisecond.
    Finish(u64),
}

/// A TSC calibration in progress: the audio DMA position is first awaited
/// to move, then the ticks are counted while half the ring plays.
#[derive(Clone, Copy, Debug)]
pub struct TscCalibration {
    pub phase: CalPhase,
    /// Counter value at the start of the current wait.
    pub t0: u64,
    /// Last audio position read.
    pub prev: u64,
    /// Bytes played since the measurement started.
    pub total: u64,
}

/// Any finished calibration gives the fallback or a rate in range.
pub open spec fn rate_ok(r: u64) -> bool {
    r == FALLBACK_TSC_PER_MS || (100_000 <= r && r <= 10_000_000)
}

impl TscCalibration {
    /// The calibration's invariant: positions inside the ring, the
    /// measured total below half the ring while measuring, and a finished
    /// result the fallback or in range.
    pub open spec fn wf(self) -> bool {
        match self.phase {
            CalPhase::AwaitMovement | CalPhase::CheckStartTimeout | CalPhase::ReadMeasureClock => self.prev
                < AUDIO_SZ,
            CalPhase::Measure | CalPhase::CheckMeasureTimeout => self.prev < AUDIO_SZ && self.total
                < CALIB_HALF,
            CalPhase::Done(r) => rate_ok(r),
            _ => true,
        }
    }

    /// The next action of a calibration in this state.
    pub open spec fn action_spec(self) -> CalAction {
        match self.phase {
            CalPhase::ReadFirstProgress | CalPhase::AwaitMovement | CalPhase::Measure => CalAction::ReadProgress,
            CalPhase::Done(r) => CalAction::Finish(r),
            _ => CalAction::ReadClock,
        }
    }

    /// The state after the counter read `t`.
    pub open spec fn after_clock(self, t: u64) -> TscCalibration {
        let elapsed = t.wrapping_sub(self.t0);
        match self.phase {
            CalPhase::ReadStartClock => TscCalibration { phase: CalPhase::ReadFirstProgress, t0: t, ..self },
            CalPhase::CheckStartTimeout => if elapsed >= START_TIMEOUT {
                TscCalibration { phase: CalPhase::Done(FALLBACK_TSC_PER_MS), ..self }
            } else {
                TscCalibration { phase: CalPhase::AwaitMovement, ..self }
            },
            CalPhase::ReadMeasureClock => TscCalibration { phase: CalPhase::Measure, t0: t, total: 0, ..self },
            CalPhase::CheckMeasureTimeout => if elapsed >= MEASURE_TIMEOUT {
                TscCalibration { phase: CalPhase::Done(FALLBACK_TSC_PER_MS), ..self }
            } else {
                TscCalibration { phase: CalPhase::Measure, ..self }
            },
            CalPhase::ReadEndClock => TscCalibration { phase: CalPhase::Done(clamp_rate(elapsed)), ..self },
            _ => self,
        }
    }

    /// The state after the audio position read `p` (`None`: no reading).
    pub open spec fn after_progress(self, p: Option<u64>) -> TscCalibration {
        let fallback = TscCalibration { phase: CalPhase::Done(FALLBACK_TSC_PER_MS), ..self };
        match self.phase {
            CalPhase::ReadFirstProgress => match p {
                Some(v) if v < AUDIO_SZ => TscCalibration { phase: CalPhase::AwaitMovement, prev: v, ..self },
                _ => fallback,
            },
            CalPhase::AwaitMovement => match p {
                Some(cur) => if cur >= AUDIO_SZ {
                    fallback
                } else if cur != self.prev {
                    TscCalibration { phase: CalPhase::ReadMeasureClock, prev: cur, ..self }
                } else {
                    TscCalibration { phase: CalPhase::CheckStartTimeout, ..self }
                },
                None => TscCalibration { phase: CalPhase::CheckStartTimeout, ..self },
            },
            CalPhase::Measure => match p {
                Some(cur) => if cur >= AUDIO_SZ {
                    fallback
                } else {
                    let total = self.total + ring_delta(self.prev, cur);
                    if total >= CALIB_HALF {
                        TscCalibration { phase: CalPhase::ReadEndClock, prev: cur, total: total as u64, ..self }
                    } else {
                        TscCalibration { phase: CalPhase::CheckMeasureTimeout, prev: cur, total: total as u64, ..self }
                    }
                },
                None => TscCalibration { phase: CalPhase::CheckMeasureTimeout, ..self },
            },
            _ => self,
        }
    }

    /// A calibration; without an audio controller it is over at once with
    /// the fallback rate.
    pub fn start(hda_available: bool) -> (r: Self)
        ensures
            r.wf(),
            hda_available ==> r.phase == CalPhase::ReadStartClock,
            !hda_available ==> r.phase == CalPhase::Done(FALLBACK_TSC_PER_MS),
    {
        let phase = if hda_available { CalPhase::ReadStartClock } else { CalPhase::Done(FALLBACK_TSC_PER_MS) };
        TscCalibration { phase, t0: 0, prev: 0, total: 0 }
    }

    /// What the calibration asks for next.
    pub fn action(&self) -> (r: CalAction)
        ensures
            r == self.action_spec(),
    {
        match self.phase {
            CalPhase::ReadFirstProgress | CalPhase::AwaitMovement | CalPhase::Measure => CalAction::ReadProgress,
            CalPhase::Done(r) => CalAction::Finish(r),
            _ => CalAction::ReadClock,
        }
    }

    /// Report a counter reading.
    pub fn feed_clock(&mut self, t: u64)
        requires
            old(self).wf(),
        ensures
            *final(self) == old(self).after_clock(t),
            final(self).wf(),
    {
        let elapsed = t.wrapping_sub(self.t0);
        match self.phase {
            CalPhase::ReadStartClock => {
                self.t0 = t;
                self.phase = CalPhase::ReadFirstProgress;
            },
            CalPhase::CheckStartTimeout => {
                if elapsed >= START_TIMEOUT {
                    self.phase = CalPhase::Done(FALLBACK_TSC_PER_MS);
                } else {
                    self.phase = CalPhase::AwaitMovement;
                }
            },
            CalPhase::ReadMeasureClock => {
                self.t0 = t;
                self.total = 0;
                self.phase = CalPhase::Measure;
            },
            CalPhase::CheckMeasureTimeout => {
                if elapsed >= MEASURE_TIMEOUT {
                    self.phase = CalPhase::Done(FALLBACK_TSC_PER_MS);
                } else {
                    self.phase = CalPhase::Measure;
                }
            },
            CalPhase::ReadEndClock => {
                let r = elapsed / CALIB_MS;
                let rate = if r < 100_000 || r > 10_000_000 { FALLBACK_TSC_PER_MS } else { r };
                self.phase = CalPhase::Done(rate);
            },
            _ => {},
        }
    }

    /// Report an audio position reading (`None`: the controller gave none).
    pub fn feed_progress(&mut self, p: Option<u64>)
        requires
            old(self).wf(),
        ensures
            *final(self) == old(self).after_progress(p),
            final(self).wf(),
    {
        match self.phase {
            CalPhase::ReadFirstProgress => {
                match p {
                    Some(v) => {
                        if v < AUDIO_SZ {
                            self.prev = v;
                            self.phase = CalPhase::AwaitMovement;
                        } else {
                            self.phase = CalPhase::Done(FALLBACK_TSC_PER_MS);
                        }
                    },
                    None => {
                        self.phase = CalPhase::Done(FALLBACK_TSC_PER_MS);
                    },
                }
            },
            CalPhase::AwaitMovement => {
                match p {
                    Some(cur) => {
                        if cur >= AUDIO_SZ {
                            self.phase = CalPhase::Done(FALLBACK_TSC_PER_MS);
                        } else if cur != self.prev {
                            self.prev = cur;
                            self.phase = CalPhase::ReadMeasureClock;
                        } else {
                            self.phase = CalPhase::CheckStartTimeout;
                        }
                    },
                    None => {
                        self.phase = CalPhase::CheckStartTimeout;
                    },
                }
            },
            CalPhase::Measure => {
                match p {
                    Some(cur) => {
                        if cur >= AUDIO_SZ {
                            self.phase = CalPhase::Done(FALLBACK_TSC_PER_MS);
                        } else {
                            let delta = if cur >= self.prev {
                                cur - self.prev
                            } else {
                                (AUDIO_SZ - self.prev) + cur
                            };
                            self.total = self.total + delta;
                            self.prev = cur;
                            if self.total >= CALIB_HALF {
                                self.phase = CalPhase::ReadEndClock;
                            } else {
                                self.phase = CalPhase::CheckMeasureTimeout;
                            }
                        }
                    },
                    None => {
                        self.phase = CalPhase::CheckMeasureTimeout;
                    },
                }
            },
            _ => {},
        }
    }
}

/// Every state a calibration reaches from its start keeps its invariant,
/// so the rate it finishes with is the fallback or within
/// 100 000 ..= 10 000 000 ticks per millisecond.
pub proof fn lemma_calibration_result_in_range(c: TscCalibration, t: u64, p: Option<u64>)
    requires
        c.wf(),
    ensures
        c.after_clock(t).wf(),
        c.after_progress(p).wf(),
        c.phase matches CalPhase::Done(r) ==> rate_ok(r),
        c.after_clock(t).phase matches CalPhase::Done(r) ==> rate_ok(r),
        c.after_progress(p).phase matches CalPhase::Done(r) ==> rate_ok(r),
{
}


/// The read position in the PCM stream.
#[derive(Clone, Copy, Debug)]
pub struct PcmCursor {
    /// Bytes already handed to the audio controller.
    pub off: usize,
    /// Length of the stream.
    pub total: usize,
}

/// The bytes `[start, end)` of the stream that go into one feed from
/// `off`: at most `HALF` bytes, none at the end of the stream.
pub open spec fn feed_window(off: usize, total: usize) -> Option<(usize, usize)> {
    if off >= total {
        None
    } else if total - off < HALF {
        Some((off, total))
    } else {
        Some((off, (off + HALF) as usize))
    }
}

impl PcmCursor {
    /// The cursor's invariant: never past the end of the stream.
    pub open spec fn wf(self) -> bool {
        self.off <= self.total
    }

    /// A cursor at `off` in a stream of `total` bytes.
    pub fn new(off: usize, total: usize) -> (r: Self)
        requires
            off <= total,
        ensures
            r.wf(),
            r.off == off,
            r.total == total,
    {
        PcmCursor { off, total }
    }

    /// The bytes to hand over next, or `None` when the stream is exhausted.
    pub fn next_window(&self) -> (r: Option<(usize, usize)>)
        requires
            self.wf(),
        ensures
            r == feed_window(self.off, self.total),
            r matches Some((s, e)) ==> s == self.off && s < e && e <= self.total && e - s <= HALF,
    {
        if self.off >= self.total {
            None
        } else if self.total - self.off < HALF {
            Some((self.off, self.total))
        } else {
            Some((self.off, self.off + HALF))
        }
    }

    /// The audio controller accepted `fed` bytes of the window.
    pub fn consume(&mut self, fed: usize)
        requires
            old(self).wf(),
            old(self).off + fed <= old(self).total,
        ensures
            final(self).wf(),
            final(self).total == old(self).total,
            final(self).off == old(self).off + fed,
    {
        if fed > 0 {
            self.off = self.off + fed;
        }
    }
}

/// The two halves of the audio ring filled before playback starts.
#[derive(Clone, Copy, Debug)]
pub struct Prefill {
    /// Bytes `[start, end)` of the stream written at ring offset 0.
    pub first: Option<(usize, usize)>,
    /// Bytes `[start, end)` of the stream written at ring offset `HALF`.
    pub second: Option<(usize, usize)>,
    /// Stream position after the prefill.
    pub off: usize,
}

/// The prefill of a stream of `total` bytes: up to one half of the ring
/// from the start of the stream, then up to one more half.
pub fn prefill_plan(total: usize) -> (r: Prefill)
    ensures
        total == 0 ==> r.first is None,
        total > 0 ==> r.first == Some((0usize, if total < HALF { total } else { HALF })),
        total <= HALF ==> r.second is None,
        total > HALF ==> r.second == Some((HALF, if total - HALF < HALF { total } else { (2 * HALF) as usize })),
        r.off == if total < 2 * HALF { total as int } else { 2 * HALF },
{
    let e0 = if HALF < total { HALF } else { total };
    let mut off: usize = 0;
    let first = if e0 > 0 {
        off = e0;
        Some((0, e0))
    } else {
        None
    };
    let e1 = if total - off < HALF { total } else { off + HALF };
    let second = if e1 > off {
        let s = (off, e1);
        off = e1;
        Some(s)
    } else {
        None
    };
    Prefill { first, second, off }
}

/// The durations that pace the video against the stream.
#[derive(Clone, Copy, Debug)]
pub struct PlaybackTiming {
    /// Length of the stream in milliseconds.
    pub dur_ms: u64,
    /// Milliseconds per frame.
    pub fi_ms: u64,
    /// Stream bytes per frame.
    pub pcm_per_frame: u64,
}

/// The timing of `frames` frames over a stream of `pcm_total` bytes (a
/// stream without frames counts as one frame).
pub fn playback_timing(pcm_total: u64, frames: u64) -> (r: PlaybackTiming)
    requires
        pcm_total * 1000 <= u64::MAX,
    ensures
        r.dur_ms == (pcm_total * 1000) / (PCM_BPS as int),
        r.fi_ms == r.dur_ms / (if frames > 0 { frames } else { 1 }),
        r.pcm_per_frame == pcm_total / (if frames > 0 { frames } else { 1 }),
{
    let dur_ms = (pcm_total * 1000) / PCM_BPS;
    let n = if frames > 0 { frames } else { 1 };
    PlaybackTiming { dur_ms, fi_ms: dur_ms / n, pcm_per_frame: pcm_total / n }
}

/// Ticks per frame: the frame's duration, and never less than 33 ms (at
/// most 30 frames per second).
pub fn frame_interval_tsc(fi_ms: u64, tsc_per_ms: u64) -> (r: u64)
    ensures
        r == if sat_mul(fi_ms, tsc_per_ms) >= sat_mul(tsc_per_ms, 33) {
            sat_mul(fi_ms, tsc_per_ms)
        } else {
            sat_mul(tsc_per_ms, 33)
        },
{
    let a = saturating_mul(fi_ms, tsc_per_ms);
    let b = saturating_mul(tsc_per_ms, 33);
    if a >= b { a } else { b }
}

/// Counts the bytes played from the audio ring's position register, which
/// wraps around at `AUDIO_SZ`.
#[derive(Clone, Copy, Debug)]
pub struct LpibTracker {
    /// Last position read.
    pub last: u64,
    /// Times the ring wrapped.
    pub wraps: u64,
    /// Bytes played: whole rings and the current position.
    pub consumed: u64,
    /// Whether the positions read so far were usable.
    pub valid: bool,
}

impl LpibTracker {
    /// Start from the first position read, usable when inside the ring.
    pub fn start(first: Option<u64>) -> (r: Self)
        ensures
            r.wraps == 0,
            r.consumed == 0,
            match first {
                Some(cur) if cur < AUDIO_SZ => r.valid && r.last == cur,
                _ => !r.valid && r.last == 0,
            },
    {
        match first {
            Some(cur) => {
                if cur < AUDIO_SZ {
                    LpibTracker { last: cur, wraps: 0, consumed: 0, valid: true }
                } else {
                    LpibTracker { last: 0, wraps: 0, consumed: 0, valid: false }
                }
            },
            None => LpibTracker { last: 0, wraps: 0, consumed: 0, valid: false },
        }
    }

    /// The tracker after a position reading `p`.
    pub open spec fn fed(self, p: Option<u64>) -> LpibTracker {
        match p {
            None => self,
            Some(cur) => if cur >= AUDIO_SZ {
                LpibTracker { valid: false, ..self }
            } else {
                let wraps = if cur < self.last && self.last - cur > AUDIO_SZ / 2 {
                    if self.wraps == u64::MAX { u64::MAX } else { (self.wraps + 1) as u64 }
                } else {
                    self.wraps
                };
                let whole = sat_mul(wraps, AUDIO_SZ);
                LpibTracker {
                    last: cur,
                    wraps,
                    consumed: if whole + cur > u64::MAX { u64::MAX } else { (whole + cur) as u64 },
                    valid: self.valid,
                }
            },
        }
    }

    /// Report a position reading.  A position outside the ring makes the
    /// tracker unusable; a drop of more than half the ring counts a wrap.
    pub fn feed(&mut self, p: Option<u64>)
        ensures
            *final(self) == old(self).fed(p),
    {
        match p {
            None => {},
            Some(cur) => {
                if cur >= AUDIO_SZ {
                    self.valid = false;
                } else {
                    if cur < self.last && (self.last - cur) > AUDIO_SZ / 2 {
                        self.wraps = self.wraps.saturating_add(1);
                    }
                    self.last = cur;
                    self.consumed = saturating_mul(self.wraps, AUDIO_SZ).saturating_add(cur);
                }
            },
        }
    }
}

/// The clock decisions of the frame loop.
#[derive(Clone, Copy, Debug)]
pub struct FramePacer {
    /// Ticks between two audio feeds.
    pub af_tsc: u64,
    /// Ticks per frame.
    pub fi_tsc: u64,
    /// Stream bytes per frame.
    pub pcm_per_frame: u64,
    /// Counter value of the last audio feed.
    pub last_af: u64,
}

impl FramePacer {
    /// Stream bytes that must have played before frame `idx` is shown.
    pub fn target(&self, idx: u64) -> (r: u64)
        requires
            idx < u64::MAX,
        ensures
            r == sat_mul((idx + 1) as u64, self.pcm_per_frame),
    {
        saturating_mul(idx + 1, self.pcm_per_frame)
    }

    /// Whether the audio is due to be fed at counter value `now`; when it
    /// is, `now` becomes the time of the last feed.
    pub fn feed_due(&mut self, now: u64) -> (r: bool)
        ensures
            r == (now.wrapping_sub(old(self).last_af) >= old(self).af_tsc),
            r ==> *final(self) == (FramePacer { last_af: now, ..*old(self) }),
            !r ==> *final(self) == *old(self),
    {
        if now.wrapping_sub(self.last_af) >= self.af_tsc {
            self.last_af = now;
            true
        } else {
            false
        }
    }

    /// Whether a wait for the audio that began at `ls` has lasted three
    /// frames by `now`.
    pub fn wait_timed_out(&self, ls: u64, now: u64) -> (r: bool)
        ensures
            r == (now.wrapping_sub(ls) >= sat_mul(self.fi_tsc, 3)),
    {
        now.wrapping_sub(ls) >= saturating_mul(self.fi_tsc, 3)
    }
}

/// What the frame loop waits for.
#[derive(Clone, Copy, Debug, PartialEq, Eq, Structural)]
pub enum PlayerPhase {
    /// The time the wait on the audio for the current frame begins.
    WaitStart,
    /// The audio position, while waiting for `target` bytes to have played
    /// since the wait began at `ls`.
    WaitProgress { target: u64, ls: u64 },
    /// The time, to decide whether the audio is due to be fed.
    WaitFeedClock { target: u64, ls: u64 },
    /// How many bytes of `[start, end)` the audio accepted.
    WaitFeeding { target: u64, ls: u64, start: usize, end: usize },
    /// The time, to decide whether the wait has lasted three frames.
    WaitTimeoutClock { target: u64, ls: u64 },
    /// The time the timed wait for the current frame begins.
    TimedStart,
    /// The time, until the counter reaches `fd`.
    TimedWait { fd: u64 },
    /// How many bytes of `[start, end)` the audio accepted during a timed
    /// wait until `fd`.
    TimedFeeding { fd: u64, start: usize, end: usize },
    /// The current frame to be drawn.
    Draw,
    /// Nothing: every frame was shown.
    Done,
}

/// What the caller hands the frame loop.
#[derive(Clone, Copy, Debug, PartialEq, Eq, Structural)]
pub enum PlayerEvent {
    /// A reading of the time-stamp counter.
    Clock(u64),
    /// A reading of the audio position, if the controller gave one.
    Progress(Option<u64>),
    /// Bytes the audio controller accepted of the last window handed over.
    Fed(usize),
    /// The frame asked for was drawn (or could not be decoded).
    Drawn,
}

/// What the frame loop asks the caller to do.
#[derive(Clone, Copy, Debug, PartialEq, Eq, Structural)]
pub enum PlayerAction {
    ReadClock,
    ReadProgress,
    /// Hand bytes `[start, end)` of the stream to the audio controller.
    Feed { start: usize, end: usize },
    /// Draw frame `idx`.
    Draw(usize),
    /// Playback of the frames is over; `idx` frames were shown.
    Finish(usize),
}

/// The frame loop of the player: frame `idx` of `frames` is shown once the
/// audio has played up to it, or, when the audio position cannot be used,
/// after one frame interval; the audio is fed whenever it is due.
#[derive(Clone, Copy, Debug)]
pub struct FramePlayer {
    pub idx: usize,
    pub frames: usize,
    pub use_hda: bool,
    pub lpib: LpibTracker,
    pub pacer: FramePacer,
    pub cursor: PcmCursor,
    pub phase: PlayerPhase,
}

impl FramePlayer {
    /// The player's invariant.
    pub open spec fn wf(self) -> bool {
        &&& self.cursor.wf()
        &&& self.idx <= self.frames
        &&& match self.phase {
            PlayerPhase::Done => self.idx == self.frames,
            PlayerPhase::WaitFeeding { start, end, .. } => self.idx < self.frames
                && feed_window(self.cursor.off, self.cursor.total) == Some((start, end)),
            PlayerPhase::TimedFeeding { start, end, .. } => self.idx < self.frames
                && feed_window(self.cursor.off, self.cursor.total) == Some((start, end)),
            _ => self.idx < self.frames,
        }
    }

    /// The start of frame `idx`: done after the last frame; otherwise a wait
    /// on the audio while its position is usable, else a timed wait.
    pub open spec fn begin_frame(self) -> FramePlayer {
        let phase = if self.idx >= self.frames {
            PlayerPhase::Done
        } else if self.use_hda && self.lpib.valid {
            PlayerPhase::WaitStart
        } else {
            PlayerPhase::TimedStart
        };
        FramePlayer { phase, ..self }
    }

    /// After the audio was fed or found not due: the frame is drawn once
    /// `target` bytes have played, else the time is checked.
    pub open spec fn wait_checked(self, target: u64, ls: u64) -> FramePlayer {
        if self.lpib.consumed >= target {
            FramePlayer { phase: PlayerPhase::Draw, ..self }
        } else {
            FramePlayer { phase: PlayerPhase::WaitTimeoutClock { target, ls }, ..self }
        }
    }

    /// The cursor after the audio accepted `n` bytes of `[start, end)`.
    pub open spec fn cursor_fed(self, start: usize, end: usize, n: usize) -> PcmCursor {
        let fed = if n < end - start { n } else { (end - start) as usize };
        PcmCursor { off: (self.cursor.off + fed) as usize, ..self.cursor }
    }

    /// The player after event `ev`; an event the phase does not wait for
    /// changes nothing.
    pub open spec fn after(self, ev: PlayerEvent) -> FramePlayer {
        match (self.phase, ev) {
            (PlayerPhase::WaitStart, PlayerEvent::Clock(t)) => FramePlayer {
                phase: PlayerPhase::WaitProgress {
                    target: sat_mul((self.idx + 1) as u64, self.pacer.pcm_per_frame),
                    ls: t,
                },
                ..self
            },
            (PlayerPhase::WaitProgress { target, ls }, PlayerEvent::Progress(p)) => {
                let lpib = self.lpib.fed(p);
                if p matches Some(cur) && cur >= AUDIO_SZ {
                    FramePlayer { lpib, phase: PlayerPhase::TimedStart, ..self }
                } else {
                    FramePlayer { lpib, phase: PlayerPhase::WaitFeedClock { target, ls }, ..self }
                }
            },
            (PlayerPhase::WaitFeedClock { target, ls }, PlayerEvent::Clock(now)) => {
                if now.wrapping_sub(self.pacer.last_af) >= self.pacer.af_tsc {
                    let pacer = FramePacer { last_af: now, ..self.pacer };
                    match feed_window(self.cursor.off, self.cursor.total) {
                        Some((start, end)) => FramePlayer {
                            pacer,
                            phase: PlayerPhase::WaitFeeding { target, ls, start, end },
                            ..self
                        },
                        None => FramePlayer { pacer, ..self }.wait_checked(target, ls),
                    }
                } else {
                    self.wait_checked(target, ls)
                }
            },
            (PlayerPhase::WaitFeeding { target, ls, start, end }, PlayerEvent::Fed(n)) => FramePlayer {
                cursor: self.cursor_fed(start, end, n),
                ..self
            }.wait_checked(target, ls),
            (PlayerPhase::WaitTimeoutClock { target, ls }, PlayerEvent::Clock(now)) => {
                if now.wrapping_sub(ls) >= sat_mul(self.pacer.fi_tsc, 3) {
                    FramePlayer {
                        lpib: LpibTracker { valid: false, ..self.lpib },
                        phase: PlayerPhase::TimedStart,
                        ..self
                    }
                } else {
                    FramePlayer { phase: PlayerPhase::WaitProgress { target, ls }, ..self }
                }
            },
            (PlayerPhase::TimedStart, PlayerEvent::Clock(t)) => FramePlayer {
                phase: PlayerPhase::TimedWait { fd: t.wrapping_add(self.pacer.fi_tsc) },
                ..self
            },
            (PlayerPhase::TimedWait { fd }, PlayerEvent::Clock(now)) => {
                if now >= fd {
                    FramePlayer { phase: PlayerPhase::Draw, ..self }
                } else if self.use_hda && now.wrapping_sub(self.pacer.last_af) >= self.pacer.af_tsc {
                    let pacer = FramePacer { last_af: now, ..self.pacer };
                    match feed_window(self.cursor.off, self.cursor.total) {
                        Some((start, end)) => FramePlayer {
                            pacer,
                            phase: PlayerPhase::TimedFeeding { fd, start, end },
                            ..self
                        },
                        None => FramePlayer { pacer, ..self },
                    }
                } else {
                    self
                }
            },
            (PlayerPhase::TimedFeeding { fd, start, end }, PlayerEvent::Fed(n)) => FramePlayer {
                cursor: self.cursor_fed(start, end, n),
                phase: PlayerPhase::TimedWait { fd },
                ..self
            },
            (PlayerPhase::Draw, PlayerEvent::Drawn) => FramePlayer {
                idx: (self.idx + 1) as usize,
                ..self
            }.begin_frame(),
            _ => self,
        }
    }

    /// What the player asks for in its phase.
    pub open spec fn action_spec(self) -> PlayerAction {
        match self.phase {
            PlayerPhase::WaitProgress { .. } => PlayerAction::ReadProgress,
            PlayerPhase::WaitFeeding { start, end, .. } => PlayerAction::Feed { start, end },
            PlayerPhase::TimedFeeding { start, end, .. } => PlayerAction::Feed { start, end },
            PlayerPhase::Draw => PlayerAction::Draw(self.idx),
            PlayerPhase::Done => PlayerAction::Finish(self.idx),
            _ => PlayerAction::ReadClock,
        }
    }

    /// A player at the first of `frames` frames.
    pub fn new(frames: usize, use_hda: bool, lpib: LpibTracker, pacer: FramePacer, cursor: PcmCursor) -> (r: Self)
        requires
            cursor.wf(),
        ensures
            r == (FramePlayer { idx: 0, frames, use_hda, lpib, pacer, cursor, phase: PlayerPhase::Done }).begin_frame(),
            r.wf(),
    {
        let phase = if frames == 0 {
            PlayerPhase::Done
        } else if use_hda && lpib.valid {
            PlayerPhase::WaitStart
        } else {
            PlayerPhase::TimedStart
        };
        FramePlayer { idx: 0, frames, use_hda, lpib, pacer, cursor, phase }
    }

    /// What the player asks for.
    pub fn action(&self) -> (r: PlayerAction)
        ensures
            r == self.action_spec(),
    {
        match self.phase {
            PlayerPhase::WaitProgress { .. } => PlayerAction::ReadProgress,
            PlayerPhase::WaitFeeding { start, end, .. } => PlayerAction::Feed { start, end },
            PlayerPhase::TimedFeeding { start, end, .. } => PlayerAction::Feed { start, end },
            PlayerPhase::Draw => PlayerAction::Draw(self.idx),
            PlayerPhase::Done => PlayerAction::Finish(self.idx),
            _ => PlayerAction::ReadClock,
        }
    }

    fn check_wait(&mut self, target: u64, ls: u64)
        requires
            old(self).cursor.wf(),
            old(self).idx < old(self).frames,
        ensures
            *final(self) == old(self).wait_checked(target, ls),
            final(self).wf(),
    {
        if self.lpib.consumed >= target {
            self.phase = PlayerPhase::Draw;
        } else {
            self.phase = PlayerPhase::WaitTimeoutClock { target, ls };
        }
    }

    fn take_fed(&mut self, start: usize, end: usize, n: usize)
        requires
            old(self).cursor.wf(),
            feed_window(old(self).cursor.off, old(self).cursor.total) == Some((start, end)),
        ensures
            *final(self) == (FramePlayer { cursor: old(self).cursor_fed(start, end, n), ..*old(self) }),
            final(self).cursor.wf(),
    {
        let fed = if n < end - start { n } else { end - start };
        self.cursor.consume(fed);
    }

    /// Hand the player event `ev`; it returns what it asks for next.
    pub fn step(&mut self, ev: PlayerEvent) -> (r: PlayerAction)
        requires
            old(self).wf(),
        ensures
            *final(self) == old(self).after(ev),
            r == final(self).action_spec(),
            final(self).wf(),
    {
        match (self.phase, ev) {
            (PlayerPhase::WaitStart, PlayerEvent::Clock(t)) => {
                let target = self.pacer.target(self.idx as u64);
                self.phase = PlayerPhase::WaitProgress { target, ls: t };
            },
            (PlayerPhase::WaitProgress { target, ls }, PlayerEvent::Progress(p)) => {
                self.lpib.feed(p);
                let bad = match p {
                    Some(cur) => cur >= AUDIO_SZ,
                    None => false,
                };
                if bad {
                    self.phase = PlayerPhase::TimedStart;
                } else {
                    self.phase = PlayerPhase::WaitFeedClock { target, ls };
                }
            },
            (PlayerPhase::WaitFeedClock { target, ls }, PlayerEvent::Clock(now)) => {
                if self.pacer.feed_due(now) {
                    match self.cursor.next_window() {
                        Some((start, end)) => {
                            self.phase = PlayerPhase::WaitFeeding { target, ls, start, end };
                        },
                        None => self.check_wait(target, ls),
                    }
                } else {
                    self.check_wait(target, ls);
                }
            },
            (PlayerPhase::WaitFeeding { target, ls, start, end }, PlayerEvent::Fed(n)) => {
                self.take_fed(start, end, n);
                self.check_wait(target, ls);
            },
            (PlayerPhase::WaitTimeoutClock { target, ls }, PlayerEvent::Clock(now)) => {
                if self.pacer.wait_timed_out(ls, now) {
                    self.lpib.valid = false;
                    self.phase = PlayerPhase::TimedStart;
                } else {
                    self.phase = PlayerPhase::WaitProgress { target, ls };
                }
            },
            (PlayerPhase::TimedStart, PlayerEvent::Clock(t)) => {
                self.phase = PlayerPhase::TimedWait { fd: t.wrapping_add(self.pacer.fi_tsc) };
            },
            (PlayerPhase::TimedWait { fd }, PlayerEvent::Clock(now)) => {
                if now >= fd {
                    self.phase = PlayerPhase::Draw;
                } else if self.use_hda && self.pacer.feed_due(now) {
                    match self.cursor.next_window() {
                        Some((start, end)) => {
                            self.phase = PlayerPhase::TimedFeeding { fd, start, end };
                        },
                        None => {},
                    }
                }
            },
            (PlayerPhase::TimedFeeding { fd, start, end }, PlayerEvent::Fed(n)) => {
                self.take_fed(start, end, n);
                self.phase = PlayerPhase::TimedWait { fd };
            },
            (PlayerPhase::Draw, PlayerEvent::Drawn) => {
                self.idx = self.idx + 1;
                if self.idx >= self.frames {
                    self.phase = PlayerPhase::Done;
                } else if self.use_hda && self.lpib.valid {
                    self.phase = PlayerPhase::WaitStart;
                } else {
                    self.phase = PlayerPhase::TimedStart;
                }
            },
            _ => {},
        }
        self.action()
    }
}

/// The frames are shown in order, each once: only drawing moves the player
/// on, by exactly one frame, and a finished player stays finished.
pub proof fn lemma_player_frames_in_order(p: FramePlayer, ev: PlayerEvent)
    requires
        p.wf(),
    ensures
        p.after(ev).idx == p.idx || (p.phase == PlayerPhase::Draw && ev == PlayerEvent::Drawn
            && p.after(ev).idx == p.idx + 1),
        p.phase == PlayerPhase::Done ==> p.after(ev) == p,
        p.action_spec() == PlayerAction::Draw(p.idx) <==> p.phase == PlayerPhase::Draw,
{
}

/// Counter value until which the end of the stream is awaited: the
/// stream's duration from `now`, and at least one second.
pub fn drain_deadline(now: u64, dur_ms: u64, tsc_per_ms: u64) -> (r: u64)
    ensures
        r == now.wrapping_add(sat_mul(if dur_ms >= 1000 { dur_ms } else { 1000 }, tsc_per_ms)),
{
    let d = if dur_ms >= 1000 { dur_ms } else { 1000 };
    now.wrapping_add(saturating_mul(d, tsc_per_ms))
}

/// `v` read as a signed 32-bit number.
pub open spec fn signed32(v: u32) -> int {
    if v <= i32::MAX { v as int } else { v - 0x1_0000_0000 }
}

/// One coordinate of where a frame is drawn: the window's content origin
/// `base` plus the letterbox offset (read as signed), not below 0.
pub fn draw_coordinate(base: i32, off: u32) -> (r: u32)
    requires
        i32::MIN <= base + signed32(off) <= i32::MAX,
    ensures
        r == if base + signed32(off) < 0 { 0 } else { base + signed32(off) },
{
    let s: i64 = if off <= 0x7fff_ffff { off as i64 } else { off as i64 - 0x1_0000_0000 };
    let x: i64 = base as i64 + s;
    if x < 0 { 0 } else { x as u32 }
}

/// Where a frame with letterbox offsets `(off_x, off_y)` is drawn: the
/// window sits at (100, 80), below its title bar.
pub fn draw_origin(off_x: u32, off_y: u32) -> (r: (u32, u32))
    requires
        100 + signed32(off_x) <= i32::MAX,
        80 + TITLE_BAR_H + signed32(off_y) <= i32::MAX,
    ensures
        r.0 == if 100 + signed32(off_x) < 0 { 0 } else { 100 + signed32(off_x) },
        r.1 == if 80 + TITLE_BAR_H + signed32(off_y) < 0 { 0 } else { 80 + TITLE_BAR_H + signed32(off_y) },
{
    (draw_coordinate(100, off_x), draw_coordinate(80 + TITLE_BAR_H, off_y))
}

} // verus!
