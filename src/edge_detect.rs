//! The screen-edge trigger: turns pointer samples taken at a fixed interval
//! into requests to open the capture window.
//!
//! The detector owns its whole state (enabled flag, window-open flag,
//! cooldown, dwell timer) so that one lock around it makes every transition
//! atomic; the caller supplies the clock, in milliseconds of a monotonic
//! clock, and the samples.

use vstd::prelude::*;
use crate::settings::Settings;
use crate::text::{chars_of, eq_chars};

verus! {

/// Width of the band at the screen edge that counts as "at the edge".
pub const EDGE_ZONE_PX: i32 = 5;

/// How long the pointer must dwell at the edge before the window opens.
pub const TRIGGER_DELAY_MS: u64 = 50;

/// Interval between two pointer samples.
pub const POLL_INTERVAL_MS: u64 = 50;

/// Quiet period after the window closes.
pub const COOLDOWN_MS: u64 = 500;

/// Size of the primary display.
#[derive(Clone, Copy, Debug, PartialEq, Eq, Structural)]
pub struct ScreenBounds {
    pub width: i32,
    pub height: i32,
}

/// One reading of the pointer together with the display it is on.
#[derive(Clone, Copy, Debug, PartialEq, Eq, Structural)]
pub struct PointerSample {
    pub x: i32,
    pub y: i32,
    pub screen: ScreenBounds,
}

#[derive(Clone, Copy, Debug, PartialEq, Eq, Structural)]
pub enum EdgeSide {
    Left,
    Right,
}

/// Where and how large the capture window is shown.
#[derive(Clone, Copy, Debug, PartialEq, Eq, Structural)]
pub struct WindowPlacement {
    pub x: i64,
    pub y: i64,
    pub width: u32,
    pub height: u32,
}

#[derive(Clone, Copy, Debug, PartialEq, Eq, Structural)]
pub enum TriggerEvent {
    /// Show the capture window at the given place.
    Open(WindowPlacement),
}

/// The configured edge: only the exact names `left` and `right` select one.
pub open spec fn edge_side_of(s: Seq<char>) -> Option<EdgeSide> {
    if s == "left"@ {
        Some(EdgeSide::Left)
    } else if s == "right"@ {
        Some(EdgeSide::Right)
    } else {
        None
    }
}

/// Whether a pointer at `x` is at the `side` edge of a display `width` wide.
pub open spec fn at_edge(side: EdgeSide, x: int, width: int) -> bool {
    match side {
        EdgeSide::Right => x >= width - EDGE_ZONE_PX,
        EdgeSide::Left => x <= EDGE_ZONE_PX,
    }
}

/// The window flush with the chosen edge (the right one unless the side is
/// exactly `left`) and centred vertically.
pub open spec fn placement(left: bool, screen: ScreenBounds, width: u32, height: u32) -> WindowPlacement {
    WindowPlacement {
        x: if left {
            0
        } else {
            (screen.width - width) as i64
        },
        y: ((screen.height - height) / 2) as i64,
        width,
        height,
    }
}

/// What the detector knows, as plain values.
pub struct DetectorState {
    pub enabled: bool,
    pub window_open: bool,
    pub side: Option<EdgeSide>,
    pub left: bool,
    pub window_width: u32,
    pub window_height: u32,
    pub last_close: Option<u64>,
    pub trigger_start: Option<u64>,
}

/// One poll of the pointer: the time it was taken and what it read, if the
/// probe gave anything.
pub struct Tick {
    pub now: u64,
    pub sample: Option<PointerSample>,
}

pub open spec fn in_cooldown(v: DetectorState, now: u64) -> bool {
    match v.last_close {
        Some(c) => now < c + COOLDOWN_MS,
        None => false,
    }
}

/// Samples are ignored while disabled, while the window is open and during
/// the cooldown.
pub open spec fn blocked(v: DetectorState, now: u64) -> bool {
    !v.enabled || v.window_open || in_cooldown(v, now)
}

pub open spec fn sample_at_edge(v: DetectorState, s: PointerSample) -> bool {
    match v.side {
        Some(side) => at_edge(side, s.x as int, s.screen.width as int),
        None => false,
    }
}

/// The state after one poll.
pub open spec fn polled(v: DetectorState, t: Tick) -> DetectorState {
    if blocked(v, t.now) {
        DetectorState { trigger_start: None, ..v }
    } else {
        match t.sample {
            None => v,
            Some(s) => if !sample_at_edge(v, s) {
                DetectorState { trigger_start: None, ..v }
            } else {
                match v.trigger_start {
                    None => DetectorState { trigger_start: Some(t.now), ..v },
                    Some(since) => if t.now >= since + TRIGGER_DELAY_MS {
                        DetectorState { trigger_start: None, window_open: true, ..v }
                    } else {
                        v
                    },
                }
            },
        }
    }
}

/// The event one poll emits.
pub open spec fn poll_event(v: DetectorState, t: Tick) -> Option<TriggerEvent> {
    if blocked(v, t.now) {
        None
    } else {
        match (t.sample, v.trigger_start) {
            (Some(s), Some(since)) => if sample_at_edge(v, s) && t.now >= since + TRIGGER_DELAY_MS {
                Some(TriggerEvent::Open(placement(v.left, s.screen, v.window_width, v.window_height)))
            } else {
                None
            },
            _ => None,
        }
    }
}

/// The state after the window is reported open or closed at `now`.
pub open spec fn with_window(v: DetectorState, open: bool, now: u64) -> DetectorState {
    DetectorState {
        window_open: open,
        last_close: if v.window_open && !open {
            Some(now)
        } else {
            v.last_close
        },
        ..v
    }
}

/// The state after a run of polls.
pub open spec fn run(v: DetectorState, ticks: Seq<Tick>) -> DetectorState
    decreases ticks.len(),
{
    if ticks.len() == 0 {
        v
    } else {
        polled(run(v, ticks.drop_last()), ticks.last())
    }
}

/// Whether poll `k` of a run opens the window.
pub open spec fn fires_at(v: DetectorState, ticks: Seq<Tick>, k: int) -> bool {
    poll_event(run(v, ticks.take(k)), ticks[k]) is Some
}

/// Whether a pointer at `x` is at the `side` edge of a display `width` wide:
/// right edge when `x >= width - EDGE_ZONE_PX`, left edge when
/// `x <= EDGE_ZONE_PX`.
pub fn pointer_at_edge(side: EdgeSide, x: i32, width: i32) -> (r: bool)
    ensures
        r == at_edge(side, x as int, width as int),
{
    match side {
        EdgeSide::Right => (x as i64) >= (width as i64) - (EDGE_ZONE_PX as i64),
        EdgeSide::Left => x <= EDGE_ZONE_PX,
    }
}

/// The configured edge of a setting's `edge_side`.
pub fn parse_edge_side(s: &str) -> (r: Option<EdgeSide>)
    ensures
        r == edge_side_of(s@),
{
    let c = chars_of(s);
    if eq_chars(c.as_slice(), "left") {
        Some(EdgeSide::Left)
    } else if eq_chars(c.as_slice(), "right") {
        Some(EdgeSide::Right)
    } else {
        None
    }
}

/// Half of `d`, rounded down.
fn floor_half(d: i64) -> (r: i64)
    requires
        d > i64::MIN,
    ensures
        r == d / 2,
{
    if d >= 0 {
        d / 2
    } else {
        let e = -(d + 1);
        let q = e / 2 + 1;
        assert(-q == d / 2) by (nonlinear_arith)
            requires
                e == -(d + 1),
                q == e / 2 + 1,
                d < 0,
        ;
        -q
    }
}

/// Where the capture window goes on `screen` for these settings: at `x = 0`
/// when the edge side is `left`, flush with the right edge otherwise, and
/// centred vertically.
pub fn window_placement(settings: &Settings, screen: ScreenBounds) -> (r: WindowPlacement)
    ensures
        r == placement(settings.edge_side@ == "left"@, screen, settings.window_width, settings.window_height),
{
    let left = eq_chars(chars_of(settings.edge_side.as_str()).as_slice(), "left");
    let x: i64 = if left {
        0
    } else {
        screen.width as i64 - settings.window_width as i64
    };
    let y = floor_half(screen.height as i64 - settings.window_height as i64);
    WindowPlacement { x, y, width: settings.window_width, height: settings.window_height }
}

/// The edge trigger's state: one owner, one point of truth.
pub struct EdgeDetector {
    enabled: bool,
    is_window_open: bool,
    settings: Settings,
    last_close_time: Option<u64>,
    trigger_start: Option<u64>,
}

impl View for EdgeDetector {
    type V = DetectorState;

    closed spec fn view(&self) -> DetectorState {
        DetectorState {
            enabled: self.enabled,
            window_open: self.is_window_open,
            side: edge_side_of(self.settings.edge_side@),
            left: self.settings.edge_side@ == "left"@,
            window_width: self.settings.window_width,
            window_height: self.settings.window_height,
            last_close: self.last_close_time,
            trigger_start: self.trigger_start,
        }
    }
}

/// The configuration part of the state that `settings` gives.
pub open spec fn configured(v: DetectorState, settings: Settings) -> bool {
    &&& v.side == edge_side_of(settings.edge_side@)
    &&& v.left == (settings.edge_side@ == "left"@)
    &&& v.window_width == settings.window_width
    &&& v.window_height == settings.window_height
}

impl EdgeDetector {
    /// A detector at rest: window closed, no cooldown, no dwell timer.
    pub fn new(settings: Settings) -> (r: Self)
        ensures
            r@.enabled == settings.edge_detection_enabled,
            !r@.window_open,
            r@.last_close is None,
            r@.trigger_start is None,
            configured(r@, settings),
    {
        EdgeDetector {
            enabled: settings.edge_detection_enabled,
            is_window_open: false,
            settings,
            last_close_time: None,
            trigger_start: None,
        }
    }

    /// Replaces the configuration, including the enabled flag.
    pub fn update_settings(&mut self, settings: Settings)
        ensures
            final(self)@.enabled == settings.edge_detection_enabled,
            configured(final(self)@, settings),
            final(self)@.window_open == old(self)@.window_open,
            final(self)@.last_close == old(self)@.last_close,
            final(self)@.trigger_start == old(self)@.trigger_start,
    {
        self.enabled = settings.edge_detection_enabled;
        self.settings = settings;
    }

    pub fn set_enabled(&mut self, enabled: bool)
        ensures
            final(self)@ == (DetectorState { enabled, ..old(self)@ }),
    {
        self.enabled = enabled;
    }

    pub fn is_enabled(&self) -> (r: bool)
        ensures
            r == self@.enabled,
    {
        self.enabled
    }

    /// Records that the window was shown or hidden at `now_ms`; hiding a
    /// shown window starts the cooldown in the same step.
    pub fn set_window_open(&mut self, open: bool, now_ms: u64)
        ensures
            final(self)@ == with_window(old(self)@, open, now_ms),
    {
        let was_open = self.is_window_open;
        self.is_window_open = open;
        if was_open && !open {
            self.last_close_time = Some(now_ms);
        }
    }

    pub fn is_window_open(&self) -> (r: bool)
        ensures
            r == self@.window_open,
    {
        self.is_window_open
    }

    /// Whether `now_ms` falls within the cooldown after the last close.
    pub fn is_in_cooldown(&self, now_ms: u64) -> (r: bool)
        ensures
            r == in_cooldown(self@, now_ms),
    {
        match self.last_close_time {
            Some(close) => now_ms < close || now_ms - close < COOLDOWN_MS,
            None => false,
        }
    }

    /// One poll: feeds the sample taken at `now_ms` (none if the probe
    /// failed) to the trigger and says whether the window is to open.
    pub fn poll(&mut self, now_ms: u64, sample: Option<PointerSample>) -> (r: Option<TriggerEvent>)
        ensures
            final(self)@ == polled(old(self)@, Tick { now: now_ms, sample }),
            r == poll_event(old(self)@, Tick { now: now_ms, sample }),
    {
        if !self.enabled || self.is_window_open || self.is_in_cooldown(now_ms) {
            self.trigger_start = None;
            return None;
        }
        let s = match sample {
            None => {
                return None;
            },
            Some(s) => s,
        };
        let at = match parse_edge_side(self.settings.edge_side.as_str()) {
            Some(side) => pointer_at_edge(side, s.x, s.screen.width),
            None => false,
        };
        if !at {
            self.trigger_start = None;
            return None;
        }
        match self.trigger_start {
            None => {
                self.trigger_start = Some(now_ms);
                None
            },
            Some(since) => {
                if now_ms >= since && now_ms - since >= TRIGGER_DELAY_MS {
                    self.is_window_open = true;
                    self.trigger_start = None;
                    let place = window_placement(&self.settings, s.screen);
                    Some(TriggerEvent::Open(place))
                } else {
                    None
                }
            },
        }
    }
}

/// Whether poll `m` of a run keeps a dwell going: the trigger is not blocked
/// and the sample, if there is one, finds the pointer at the edge.
pub open spec fn keeps_contact(v: DetectorState, ticks: Seq<Tick>, m: int) -> bool {
    let s = run(v, ticks.take(m));
    !blocked(s, ticks[m].now) && match ticks[m].sample {
        None => true,
        Some(p) => sample_at_edge(s, p),
    }
}

/// Whether poll `m` of a run is unblocked and finds the pointer at the edge.
pub open spec fn touches(v: DetectorState, ticks: Seq<Tick>, m: int) -> bool {
    let s = run(v, ticks.take(m));
    !blocked(s, ticks[m].now) && match ticks[m].sample {
        None => false,
        Some(p) => sample_at_edge(s, p),
    }
}

proof fn lemma_run_step(v: DetectorState, ticks: Seq<Tick>, i: int)
    requires
        0 <= i < ticks.len(),
    ensures
        run(v, ticks.take(i + 1)) == polled(run(v, ticks.take(i)), ticks[i]),
{
    assert(ticks.take(i + 1).drop_last() == ticks.take(i));
}

/// Polls never clear the window-open flag and never touch the cooldown.
proof fn lemma_run_keeps_window(v: DetectorState, ticks: Seq<Tick>, i: int)
    requires
        0 <= i <= ticks.len(),
    ensures
        v.window_open ==> run(v, ticks.take(i)).window_open,
        run(v, ticks.take(i)).last_close == v.last_close,
    decreases i,
{
    if i == 0 {
        assert(ticks.take(0).len() == 0);
    } else {
        lemma_run_keeps_window(v, ticks, i - 1);
        lemma_run_step(v, ticks, i - 1);
    }
}

proof fn lemma_timer_origin(v: DetectorState, ticks: Seq<Tick>, i: int)
    requires
        v.trigger_start is None,
        0 <= i <= ticks.len(),
    ensures
        run(v, ticks.take(i)).trigger_start matches Some(t) ==> exists|j: int|
            0 <= j < i && ticks[j].now == t && #[trigger] touches(v, ticks, j) && (forall|m: int|
                j <= m < i ==> keeps_contact(v, ticks, m)),
    decreases i,
{
    if i == 0 {
        assert(ticks.take(0).len() == 0);
    } else {
        let p = i - 1;
        lemma_timer_origin(v, ticks, p);
        lemma_run_step(v, ticks, p);
        let s = run(v, ticks.take(p));
        let s2 = run(v, ticks.take(i));
        if s2.trigger_start is Some {
            if s.trigger_start is None {
                assert(touches(v, ticks, p));
                assert(keeps_contact(v, ticks, p));
            } else {
                let j = choose|j: int|
                    0 <= j < p && ticks[j].now == s.trigger_start->Some_0 && #[trigger] touches(
                        v,
                        ticks,
                        j,
                    ) && (forall|m: int| j <= m < p ==> keeps_contact(v, ticks, m));
                assert(keeps_contact(v, ticks, p));
                assert(forall|m: int| j <= m < i ==> keeps_contact(v, ticks, m));
                assert(ticks[j].now == s2.trigger_start->Some_0);
            }
        }
    }
}

/// A poll opens the window only at the end of an unbroken dwell: some
/// earlier poll found the pointer at the edge, every poll from there on was
/// unblocked and found the pointer at the edge (or took no sample), and at
/// least the trigger delay passed in between. A poll that finds the pointer
/// away from the edge in between therefore starts the count again.
pub proof fn lemma_open_needs_unbroken_dwell(v: DetectorState, ticks: Seq<Tick>, k: int)
    requires
        v.trigger_start is None,
        0 <= k < ticks.len(),
        fires_at(v, ticks, k),
    ensures
        exists|j: int|
            0 <= j < k && #[trigger] touches(v, ticks, j) && (forall|m: int|
                j <= m <= k ==> keeps_contact(v, ticks, m)) && ticks[k].now >= ticks[j].now
                + TRIGGER_DELAY_MS,
{
    lemma_timer_origin(v, ticks, k);
    let s = run(v, ticks.take(k));
    let t = s.trigger_start->Some_0;
    let j = choose|j: int|
        0 <= j < k && ticks[j].now == t && #[trigger] touches(v, ticks, j) && (forall|m: int|
            j <= m < k ==> keeps_contact(v, ticks, m));
    assert(keeps_contact(v, ticks, k));
    assert(forall|m: int| j <= m <= k ==> keeps_contact(v, ticks, m));
}

/// A dwell that starts at poll `j` (timer idle, pointer at the edge) and is
/// kept up by every poll after it opens the window at the first later poll
/// that finds the pointer at the edge once the trigger delay has passed.
pub proof fn lemma_unbroken_dwell_opens(v: DetectorState, ticks: Seq<Tick>, j: int, k: int)
    requires
        0 <= j < k < ticks.len(),
        run(v, ticks.take(j)).trigger_start is None,
        touches(v, ticks, j),
        forall|m: int| j < m < k ==> keeps_contact(v, ticks, m),
        touches(v, ticks, k),
        ticks[k].now >= ticks[j].now + TRIGGER_DELAY_MS,
    ensures
        fires_at(v, ticks, k),
{
    lemma_dwell_holds_timer(v, ticks, j, k, k);
}

proof fn lemma_dwell_holds_timer(v: DetectorState, ticks: Seq<Tick>, j: int, k: int, m: int)
    requires
        0 <= j < m <= k < ticks.len(),
        run(v, ticks.take(j)).trigger_start is None,
        touches(v, ticks, j),
        forall|q: int| j < q < k ==> keeps_contact(v, ticks, q),
        touches(v, ticks, k),
    ensures
        run(v, ticks.take(m)).trigger_start == Some(ticks[j].now),
    decreases m,
{
    lemma_run_step(v, ticks, m - 1);
    if m - 1 > j {
        lemma_dwell_holds_timer(v, ticks, j, k, m - 1);
        let s = run(v, ticks.take(m - 1));
        assert(keeps_contact(v, ticks, m - 1));
        let s2 = run(v, ticks.take(m));
        if s2.window_open && !s.window_open {
            if m < k {
                assert(keeps_contact(v, ticks, m));
            } else {
                assert(touches(v, ticks, k));
            }
        }
    }
}

/// The poll that opens the window marks it open.
pub proof fn lemma_open_marks_window(v: DetectorState, t: Tick)
    requires
        poll_event(v, t) is Some,
    ensures
        polled(v, t).window_open,
        polled(v, t).trigger_start is None,
{
}

/// While the window is open no poll opens it again.
pub proof fn lemma_no_open_while_window_open(v: DetectorState, ticks: Seq<Tick>, k: int)
    requires
        v.window_open,
        0 <= k < ticks.len(),
    ensures
        !fires_at(v, ticks, k),
{
    lemma_run_keeps_window(v, ticks, k);
}

/// Once an open window is closed at `closed_at`, no poll taken before the
/// cooldown has passed opens it again.
pub proof fn lemma_no_open_during_cooldown(v: DetectorState, closed_at: u64, ticks: Seq<Tick>, k: int)
    requires
        v.window_open,
        0 <= k < ticks.len(),
        ticks[k].now < closed_at + COOLDOWN_MS,
    ensures
        !fires_at(with_window(v, false, closed_at), ticks, k),
{
    lemma_run_keeps_window(with_window(v, false, closed_at), ticks, k);
}

/// Leaving the edge restarts the count: if poll `m` is unblocked and finds
/// the pointer away from the edge, a later opening at poll `k` rests on a
/// dwell that starts after `m` and alone lasts the trigger delay, whatever
/// time the pointer spent at the edge before `m`.
pub proof fn lemma_leaving_edge_restarts_dwell(v: DetectorState, ticks: Seq<Tick>, m: int, k: int)
    requires
        v.trigger_start is None,
        0 <= m < k < ticks.len(),
        !blocked(run(v, ticks.take(m)), ticks[m].now),
        ticks[m].sample matches Some(p) && !sample_at_edge(run(v, ticks.take(m)), p),
        fires_at(v, ticks, k),
    ensures
        exists|j: int|
            m < j < k && #[trigger] touches(v, ticks, j) && (forall|q: int|
                j <= q <= k ==> keeps_contact(v, ticks, q)) && ticks[k].now >= ticks[j].now
                + TRIGGER_DELAY_MS,
{
    lemma_open_needs_unbroken_dwell(v, ticks, k);
    let j = choose|j: int|
        0 <= j < k && #[trigger] touches(v, ticks, j) && (forall|q: int|
            j <= q <= k ==> keeps_contact(v, ticks, q)) && ticks[k].now >= ticks[j].now
            + TRIGGER_DELAY_MS;
    if j <= m {
        assert(keeps_contact(v, ticks, m));
    }
}

proof fn lemma_timer_origin_any(v: DetectorState, ticks: Seq<Tick>, i: int)
    requires
        0 <= i <= ticks.len(),
    ensures
        run(v, ticks.take(i)).trigger_start matches Some(t) ==> (exists|j: int|
            0 <= j < i && ticks[j].now == t && #[trigger] touches(v, ticks, j) && (forall|m: int|
                j <= m < i ==> keeps_contact(v, ticks, m))) || (v.trigger_start == Some(t) && (
        forall|m: int| 0 <= m < i ==> keeps_contact(v, ticks, m))),
    decreases i,
{
    if i == 0 {
        assert(ticks.take(0).len() == 0);
    } else {
        let p = i - 1;
        lemma_timer_origin_any(v, ticks, p);
        lemma_run_step(v, ticks, p);
        let s = run(v, ticks.take(p));
        let s2 = run(v, ticks.take(i));
        if s2.trigger_start is Some {
            if s.trigger_start is None {
                assert(touches(v, ticks, p));
                assert(keeps_contact(v, ticks, p));
            } else {
                assert(keeps_contact(v, ticks, p));
                assert(s2.trigger_start == s.trigger_start);
                let t = s.trigger_start->Some_0;
                if exists|j: int|
                    0 <= j < p && ticks[j].now == t && #[trigger] touches(v, ticks, j) && (forall|m: int|
                        j <= m < p ==> keeps_contact(v, ticks, m)) {
                    let j = choose|j: int|
                        0 <= j < p && ticks[j].now == t && #[trigger] touches(v, ticks, j) && (forall|m: int|
                            j <= m < p ==> keeps_contact(v, ticks, m));
                    assert(forall|m: int| j <= m < i ==> keeps_contact(v, ticks, m));
                } else {
                    assert(forall|m: int| 0 <= m < i ==> keeps_contact(v, ticks, m));
                }
            }
        }
    }
}

/// From any starting state, a poll opens the window only at the end of an
/// unbroken dwell at least the trigger delay long: one that began at an
/// earlier poll of the run, or, when the run starts with the dwell timer
/// already running, one that began before the run and that every poll of the
/// run kept up.
pub proof fn lemma_open_needs_unbroken_dwell_from(v: DetectorState, ticks: Seq<Tick>, k: int)
    requires
        0 <= k < ticks.len(),
        fires_at(v, ticks, k),
    ensures
        (exists|j: int|
            0 <= j < k && #[trigger] touches(v, ticks, j) && (forall|m: int|
                j <= m <= k ==> keeps_contact(v, ticks, m)) && ticks[k].now >= ticks[j].now
                + TRIGGER_DELAY_MS) || (v.trigger_start matches Some(t) && (forall|m: int|
            0 <= m <= k ==> keeps_contact(v, ticks, m)) && ticks[k].now >= t + TRIGGER_DELAY_MS),
{
    lemma_timer_origin_any(v, ticks, k);
    let s = run(v, ticks.take(k));
    let t = s.trigger_start->Some_0;
    assert(keeps_contact(v, ticks, k));
    if exists|j: int|
        0 <= j < k && ticks[j].now == t && #[trigger] touches(v, ticks, j) && (forall|m: int|
            j <= m < k ==> keeps_contact(v, ticks, m)) {
        let j = choose|j: int|
            0 <= j < k && ticks[j].now == t && #[trigger] touches(v, ticks, j) && (forall|m: int|
                j <= m < k ==> keeps_contact(v, ticks, m));
        assert(forall|m: int| j <= m <= k ==> keeps_contact(v, ticks, m));
    } else {
        assert(forall|m: int| 0 <= m <= k ==> keeps_contact(v, ticks, m));
    }
}

} // verus!
