//! Frame cadence: frame counting with smoothed frame-rate and the
//! low-frame-rate gate, draw-count cadence, the mod database load polling,
//! and the managed runtime start-up state.

use vstd::prelude::*;

verus! {

/// Frames per frame-rate measurement window.
pub const FPS_WINDOW_FRAMES: u32 = 90;

/// Frame rates are kept in thousandths of a frame per second; this caps them.
pub const MAX_MILLI_FPS: u64 = 1_000_000_000_000_000;

/// The smoothed rate a new metrics record starts from: 120 fps.
pub const INITIAL_MILLI_FPS: u64 = 120_000;

/// Draws between periodic tasks when no frame boundary is seen.
pub const PERIODIC_DRAWS: u32 = 20_000;

/// Draws between input polls when no frame boundary is seen.
pub const INPUT_DRAWS: u32 = 250;

/// Draws between diagnostic reports.
pub const LOG_DRAWS: u32 = 500_000;

/// The instantaneous rate over a window, in thousandths of a frame per second.
pub open spec fn inst_milli_fps(frames: u32, elapsed_us: u64) -> u64 {
    if elapsed_us == 0 {
        MAX_MILLI_FPS
    } else {
        let r = frames as int * 1_000_000_000 / elapsed_us as int;
        if r > MAX_MILLI_FPS {
            MAX_MILLI_FPS
        } else {
            r as u64
        }
    }
}

/// Exponential smoothing: 30% of the new sample, 70% of the previous value.
pub open spec fn smoothed(inst: u64, prev: u64) -> u64 {
    ((3 * inst + 7 * prev) / 10) as u64
}

/// The low-frame-rate flag after a measurement: it turns on when the smoothed
/// rate falls below the minimum, and turns off only when the rate exceeds the
/// minimum by more than 21%.
pub open spec fn next_low(low: bool, smooth: u64, min_fps: u32) -> bool {
    if smooth < min_fps as int * 1000 && !low {
        true
    } else if low && smooth as int * 100 > min_fps as int * 121_000 {
        false
    } else {
        low
    }
}

/// What the draw counter asks for after a draw.
#[derive(Clone, Copy, Debug, PartialEq, Eq, Structural)]
pub struct DrawCadence {
    pub periodic: bool,
    pub input: bool,
    pub report: bool,
}

/// One frame counted at `now_us`, from `pre` to `post`: the frame counters
/// advance (the total saturating); at every `FPS_WINDOW_FRAMES`-th frame whose
/// clock reading is not before the window's start, the window's rate is
/// smoothed in, the low-frame-rate flag is updated and a new window starts;
/// otherwise the rate, the flag and the window's start stay.
pub open spec fn frame_counted(pre: FrameMetrics, post: FrameMetrics, now_us: u64, min_fps: u32) -> bool {
    let frames = pre.frames.wrapping_add(1);
    &&& post.dip_calls == pre.dip_calls
    &&& post.total_frames == (if pre.total_frames < u64::MAX {
        pre.total_frames + 1
    } else {
        pre.total_frames as int
    })
    &&& if frames % FPS_WINDOW_FRAMES == 0 && now_us >= pre.last_fps_update_us {
        let smooth = smoothed(
            inst_milli_fps(frames, (now_us - pre.last_fps_update_us) as u64),
            pre.last_fps_milli,
        );
        &&& post.last_fps_milli == smooth
        &&& post.low_framerate == next_low(pre.low_framerate, smooth, min_fps)
        &&& post.last_fps_update_us == now_us
        &&& post.frames == 0
    } else {
        &&& post.last_fps_milli == pre.last_fps_milli
        &&& post.low_framerate == pre.low_framerate
        &&& post.last_fps_update_us == pre.last_fps_update_us
        &&& post.frames == frames
    }
}

pub struct FrameMetrics {
    pub dip_calls: u32,
    pub frames: u32,
    pub total_frames: u64,
    pub last_fps_milli: u64,
    pub last_fps_update_us: u64,
    pub low_framerate: bool,
}

impl FrameMetrics {
    pub open spec fn wf(&self) -> bool {
        self.last_fps_milli <= MAX_MILLI_FPS
    }

    pub fn new(now_us: u64) -> (r: FrameMetrics)
        ensures
            r.wf(),
            r.dip_calls == 0,
            r.frames == 0,
            r.total_frames == 0,
            r.last_fps_milli == INITIAL_MILLI_FPS,
            r.last_fps_update_us == now_us,
            !r.low_framerate,
    {
        FrameMetrics {
            dip_calls: 0,
            frames: 0,
            total_frames: 0,
            last_fps_milli: INITIAL_MILLI_FPS,
            last_fps_update_us: now_us,
            low_framerate: false,
        }
    }

    fn inst_fps(frames: u32, elapsed_us: u64) -> (r: u64)
        ensures
            r == inst_milli_fps(frames, elapsed_us),
    {
        if elapsed_us == 0 {
            return MAX_MILLI_FPS;
        }
        let scaled = frames as u64 * 1_000_000_000u64;
        let r = scaled / elapsed_us;
        if r > MAX_MILLI_FPS {
            MAX_MILLI_FPS
        } else {
            r
        }
    }

    /// Counts a frame at time `now_us`. Every `FPS_WINDOW_FRAMES` frames the
    /// rate over the window is measured, smoothed, and the low-frame-rate flag
    /// updated; a clock reading before the window's start skips the
    /// measurement.
    pub fn present_tick(&mut self, now_us: u64, min_fps: u32)
        requires
            old(self).wf(),
        ensures
            final(self).wf(),
            frame_counted(*old(self), *final(self), now_us, min_fps),
            // the flag moves only at a window boundary ...
            final(self).low_framerate != old(self).low_framerate ==> old(self).frames.wrapping_add(1) % FPS_WINDOW_FRAMES == 0,
            // ... turns on only below the minimum ...
            !old(self).low_framerate && final(self).low_framerate ==> final(self).last_fps_milli
                < min_fps as int * 1000,
            // ... and turns off only above 121% of it
            old(self).low_framerate && !final(self).low_framerate ==> final(self).last_fps_milli as int
                * 100 > min_fps as int * 121_000,
    {
        if self.total_frames < u64::MAX {
            self.total_frames = self.total_frames + 1;
        }
        self.frames = self.frames.wrapping_add(1);
        if self.frames % FPS_WINDOW_FRAMES == 0 && now_us >= self.last_fps_update_us {
            let inst = Self::inst_fps(self.frames, now_us - self.last_fps_update_us);
            let smooth = (3 * inst + 7 * self.last_fps_milli) / 10;
            let min_milli = min_fps as u64 * 1000;
            if smooth < min_milli && !self.low_framerate {
                self.low_framerate = true;
            } else if self.low_framerate && smooth as u128 * 100 > min_fps as u128 * 121_000 {
                self.low_framerate = false;
            }
            self.last_fps_milli = smooth;
            self.last_fps_update_us = now_us;
            self.frames = 0;
        }
    }

    /// Counts a draw and says which periodic work falls due.
    pub fn count_draw(&mut self) -> (r: DrawCadence)
        ensures
            final(self).dip_calls == old(self).dip_calls.wrapping_add(1),
            final(self).frames == old(self).frames,
            final(self).total_frames == old(self).total_frames,
            final(self).last_fps_milli == old(self).last_fps_milli,
            final(self).last_fps_update_us == old(self).last_fps_update_us,
            final(self).low_framerate == old(self).low_framerate,
            r.periodic == (final(self).dip_calls % PERIODIC_DRAWS == 0),
            r.input == (final(self).dip_calls % INPUT_DRAWS == 0),
            r.report == (final(self).dip_calls % LOG_DRAWS == 0),
    {
        self.dip_calls = self.dip_calls.wrapping_add(1);
        DrawCadence {
            periodic: self.dip_calls % PERIODIC_DRAWS == 0,
            input: self.dip_calls % INPUT_DRAWS == 0,
            report: self.dip_calls % LOG_DRAWS == 0,
        }
    }
}

/// The managed loader's load-state codes.
pub const LOAD_NOT_STARTED: i32 = 51;
pub const LOAD_PENDING: i32 = 52;
pub const LOAD_IN_PROGRESS: i32 = 53;
pub const LOAD_COMPLETE: i32 = 54;

/// The mod database load as the frame loop drives it.
pub struct LoadFlags {
    pub loading_mods: bool,
    pub done_loading_mods: bool,
    pub load_on_start: bool,
}

impl LoadFlags {
    pub fn new(load_on_start: bool) -> (r: LoadFlags)
        ensures
            !r.loading_mods,
            !r.done_loading_mods,
            r.load_on_start == load_on_start,
    {
        LoadFlags { loading_mods: false, done_loading_mods: false, load_on_start }
    }

    /// Whether this frame should ask the managed side for its load state to
    /// start a load: loading on start is configured and no load is running
    /// or done.
    pub fn wants_start(&self) -> (r: bool)
        ensures
            r == (!self.loading_mods && !self.done_loading_mods && self.load_on_start),
    {
        !self.loading_mods && !self.done_loading_mods && self.load_on_start
    }

    /// Takes the reported load state before a start. A load in progress is
    /// joined; a pending one is waited for; otherwise the database load must
    /// be requested (returns `true`).
    pub fn on_start_state(&mut self, state: i32) -> (request_load: bool)
        ensures
            request_load == (state != LOAD_IN_PROGRESS && state != LOAD_PENDING),
            state == LOAD_IN_PROGRESS ==> final(self).loading_mods && !final(self).done_loading_mods,
            state != LOAD_IN_PROGRESS ==> final(self).loading_mods == old(self).loading_mods
                && final(self).done_loading_mods == old(self).done_loading_mods,
            final(self).load_on_start == old(self).load_on_start,
    {
        if state == LOAD_IN_PROGRESS {
            self.loading_mods = true;
            self.done_loading_mods = false;
            false
        } else {
            state != LOAD_PENDING
        }
    }

    /// Takes the answer to a database load request.
    pub fn on_load_requested(&mut self, result: i32)
        ensures
            result == LOAD_PENDING ==> final(self).loading_mods && !final(self).done_loading_mods,
            result == LOAD_COMPLETE ==> !final(self).loading_mods && final(self).done_loading_mods,
            result != LOAD_PENDING && result != LOAD_COMPLETE ==> final(self).loading_mods == old(self).loading_mods && final(self).done_loading_mods == old(self).done_loading_mods,
            final(self).load_on_start == old(self).load_on_start,
    {
        if result == LOAD_PENDING {
            self.loading_mods = true;
            self.done_loading_mods = false;
        }
        if result == LOAD_COMPLETE {
            self.loading_mods = false;
            self.done_loading_mods = true;
        }
    }

    /// Takes the load state seen while a load runs. When it is complete, the
    /// load is marked done and the registry must be built (returns `true`).
    pub fn on_poll_state(&mut self, state: i32) -> (build_registry: bool)
        ensures
            build_registry == (old(self).loading_mods && state == LOAD_COMPLETE),
            build_registry ==> !final(self).loading_mods && final(self).done_loading_mods,
            !build_registry ==> final(self).loading_mods == old(self).loading_mods
                && final(self).done_loading_mods == old(self).done_loading_mods,
            final(self).load_on_start == old(self).load_on_start,
    {
        if self.loading_mods && state == LOAD_COMPLETE {
            self.loading_mods = false;
            self.done_loading_mods = true;
            true
        } else {
            false
        }
    }

    /// Whether a load is running: by the local flag, or by the state the
    /// managed side reports.
    pub fn is_loading(&self, state: i32) -> (r: bool)
        ensures
            r == (self.loading_mods || state == LOAD_IN_PROGRESS),
    {
        self.loading_mods || state == LOAD_IN_PROGRESS
    }

    /// The clear command: refused while loading; otherwise the mods are to be
    /// cleared (returns `true`) and no load is started again.
    pub fn clear_mods(&mut self, state: i32) -> (clear: bool)
        ensures
            clear == !(old(self).loading_mods || state == LOAD_IN_PROGRESS),
            clear ==> !final(self).loading_mods && final(self).done_loading_mods,
            !clear ==> final(self).loading_mods == old(self).loading_mods
                && final(self).done_loading_mods == old(self).done_loading_mods,
            final(self).load_on_start == old(self).load_on_start,
    {
        if self.is_loading(state) {
            return false;
        }
        self.loading_mods = false;
        self.done_loading_mods = true;
        true
    }

    /// The reload command: refused while loading; otherwise the mods are to
    /// be cleared (returns `true`) and a load starts on a later frame.
    pub fn reload_mods(&mut self, state: i32) -> (clear: bool)
        ensures
            clear == !(old(self).loading_mods || state == LOAD_IN_PROGRESS),
            clear ==> !final(self).loading_mods && !final(self).done_loading_mods,
            !clear ==> final(self).loading_mods == old(self).loading_mods
                && final(self).done_loading_mods == old(self).done_loading_mods,
            final(self).load_on_start == old(self).load_on_start,
    {
        if !self.clear_mods(state) {
            return false;
        }
        self.loading_mods = false;
        self.done_loading_mods = false;
        true
    }
}

/// The managed runtime's start-up, tried once.
#[derive(Clone, Copy, Debug, PartialEq, Eq, Structural)]
pub enum ClrState {
    NotTried,
    Ready,
    Failed,
}

/// Whether the runtime still has to be started this frame.
pub fn clr_needs_init(s: ClrState) -> (r: bool)
    ensures
        r == (s == ClrState::NotTried),
{
    match s {
        ClrState::NotTried => true,
        _ => false,
    }
}

/// The state after a start-up attempt: a failure is sticky.
pub fn clr_after_init(ok: bool) -> (r: ClrState)
    ensures
        r == (if ok {
            ClrState::Ready
        } else {
            ClrState::Failed
        }),
{
    if ok {
        ClrState::Ready
    } else {
        ClrState::Failed
    }
}

} // verus!
