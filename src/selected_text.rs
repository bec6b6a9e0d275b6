//! The selection capture protocol: save the clipboard, have the foreground
//! application copy its selection, read it, and put the saved clipboard
//! back.
//!
//! The protocol is a state machine. The caller performs each step it asks
//! for (reading or writing the clipboard, sending keys, waiting) and hands
//! back what happened; the machine decides what comes next. The caller must
//! run at most one capture at a time, since all share one clipboard.

use vstd::prelude::*;
use crate::shortcuts::opt_view;
use crate::text::{chars_of, trim, trim_chars};

verus! {

/// How long the foreground application is given to fill the clipboard.
pub const COPY_SETTLE_MS: u64 = 250;

/// Pause between showing the window and inserting the captured text, so
/// that listeners which clear the window run first.
pub const INSERT_DELAY_MS: u64 = 30;

#[derive(Clone, Copy, Debug, PartialEq, Eq, Structural)]
pub enum CapturePhase {
    ReadingPrevious,
    CheckingPermission,
    Copying,
    ReadingSelection,
    Restoring,
    Finished,
}

/// What the caller is asked to do next.
#[derive(Debug)]
pub enum CaptureStep {
    /// Read the clipboard's text; answer with `CaptureEvent::Clipboard`.
    ReadClipboard,
    /// Check the permission to synthesize key presses; answer with
    /// `CaptureEvent::Permission`.
    CheckPermission,
    /// Send the copy key combination; answer with `CaptureEvent::CopySent`.
    SynthesizeCopy,
    /// Wait `ms` milliseconds, then read the clipboard; answer with
    /// `CaptureEvent::Clipboard`.
    SettleThenRead { ms: u64 },
    /// Put this text on the clipboard (clear it for `None`); answer with
    /// `CaptureEvent::Restored`.
    Restore(Option<String>),
    /// The capture is over, with the selected text if there was one.
    Done(Option<String>),
}

/// What the caller reports back.
#[derive(Debug)]
pub enum CaptureEvent {
    Clipboard(Option<String>),
    Permission(bool),
    CopySent(bool),
    Restored,
}

pub struct CaptureState {
    pub phase: CapturePhase,
    pub snapshot: Option<Seq<char>>,
    pub captured: Option<Seq<char>>,
}

pub enum StepView {
    ReadClipboard,
    CheckPermission,
    SynthesizeCopy,
    SettleThenRead,
    Restore(Option<Seq<char>>),
    Done(Option<Seq<char>>),
}

pub enum EventView {
    Clipboard(Option<Seq<char>>),
    Permission(bool),
    CopySent(bool),
    Restored,
}

pub open spec fn step_view(s: CaptureStep) -> StepView {
    match s {
        CaptureStep::ReadClipboard => StepView::ReadClipboard,
        CaptureStep::CheckPermission => StepView::CheckPermission,
        CaptureStep::SynthesizeCopy => StepView::SynthesizeCopy,
        CaptureStep::SettleThenRead { .. } => StepView::SettleThenRead,
        CaptureStep::Restore(t) => StepView::Restore(opt_view(t)),
        CaptureStep::Done(t) => StepView::Done(opt_view(t)),
    }
}

pub open spec fn event_view(e: CaptureEvent) -> EventView {
    match e {
        CaptureEvent::Clipboard(t) => EventView::Clipboard(opt_view(t)),
        CaptureEvent::Permission(b) => EventView::Permission(b),
        CaptureEvent::CopySent(b) => EventView::CopySent(b),
        CaptureEvent::Restored => EventView::Restored,
    }
}

pub open spec fn capture_start() -> CaptureState {
    CaptureState { phase: CapturePhase::ReadingPrevious, snapshot: None, captured: None }
}

/// The step the machine waits on in state `s`.
pub open spec fn step_of(s: CaptureState) -> StepView {
    match s.phase {
        CapturePhase::ReadingPrevious => StepView::ReadClipboard,
        CapturePhase::CheckingPermission => StepView::CheckPermission,
        CapturePhase::Copying => StepView::SynthesizeCopy,
        CapturePhase::ReadingSelection => StepView::SettleThenRead,
        CapturePhase::Restoring => StepView::Restore(s.snapshot),
        CapturePhase::Finished => StepView::Done(s.captured),
    }
}

/// The state after an event. Without permission the capture ends at once,
/// with nothing, before the clipboard is touched; once keys may have been
/// sent the saved clipboard is always put back. An event that does not
/// answer the current step changes nothing.
pub open spec fn capture_next(s: CaptureState, e: EventView) -> CaptureState {
    match (s.phase, e) {
        (CapturePhase::ReadingPrevious, EventView::Clipboard(prev)) => CaptureState {
            phase: CapturePhase::CheckingPermission,
            snapshot: prev,
            ..s
        },
        (CapturePhase::CheckingPermission, EventView::Permission(granted)) => if granted {
            CaptureState { phase: CapturePhase::Copying, ..s }
        } else {
            CaptureState { phase: CapturePhase::Finished, captured: None, ..s }
        },
        (CapturePhase::Copying, EventView::CopySent(sent)) => if sent {
            CaptureState { phase: CapturePhase::ReadingSelection, ..s }
        } else {
            CaptureState { phase: CapturePhase::Restoring, captured: None, ..s }
        },
        (CapturePhase::ReadingSelection, EventView::Clipboard(text)) => CaptureState {
            phase: CapturePhase::Restoring,
            captured: text,
            ..s
        },
        (CapturePhase::Restoring, EventView::Restored) => CaptureState {
            phase: CapturePhase::Finished,
            ..s
        },
        _ => s,
    }
}

/// A capture driven by a run of events from the start.
pub open spec fn capture_run(evs: Seq<EventView>) -> CaptureState
    decreases evs.len(),
{
    if evs.len() == 0 {
        capture_start()
    } else {
        capture_next(capture_run(evs.drop_last()), evs.last())
    }
}

/// What a faithful caller reports for `step` when the clipboard holds
/// `before` as the step starts and `after` once it is done: reads report
/// what is there, only the copy and the wait after it let the foreground
/// application change the clipboard, and a restore leaves what it wrote.
pub open spec fn faithful(step: StepView, before: Option<Seq<char>>, e: EventView, after: Option<Seq<char>>) -> bool {
    match step {
        StepView::ReadClipboard => e == EventView::Clipboard(before) && after == before,
        StepView::CheckPermission => e is Permission && after == before,
        StepView::SynthesizeCopy => e is CopySent,
        StepView::SettleThenRead => e == EventView::Clipboard(after),
        StepView::Restore(t) => e is Restored && after == t,
        StepView::Done(_) => false,
    }
}

/// A capture in progress.
pub struct SelectionCapture {
    phase: CapturePhase,
    snapshot: Option<String>,
    captured: Option<String>,
}

impl View for SelectionCapture {
    type V = CaptureState;

    closed spec fn view(&self) -> CaptureState {
        CaptureState {
            phase: self.phase,
            snapshot: opt_view(self.snapshot),
            captured: opt_view(self.captured),
        }
    }
}

fn copy_text(o: &Option<String>) -> (r: Option<String>)
    ensures
        opt_view(r) == opt_view(*o),
{
    match o {
        Some(s) => Some(s.clone()),
        None => None,
    }
}

impl SelectionCapture {
    pub fn new() -> (r: Self)
        ensures
            r@ == capture_start(),
    {
        SelectionCapture { phase: CapturePhase::ReadingPrevious, snapshot: None, captured: None }
    }

    /// The step to perform now.
    pub fn current_step(&self) -> (r: CaptureStep)
        ensures
            step_view(r) == step_of(self@),
    {
        match self.phase {
            CapturePhase::ReadingPrevious => CaptureStep::ReadClipboard,
            CapturePhase::CheckingPermission => CaptureStep::CheckPermission,
            CapturePhase::Copying => CaptureStep::SynthesizeCopy,
            CapturePhase::ReadingSelection => CaptureStep::SettleThenRead { ms: COPY_SETTLE_MS },
            CapturePhase::Restoring => CaptureStep::Restore(copy_text(&self.snapshot)),
            CapturePhase::Finished => CaptureStep::Done(copy_text(&self.captured)),
        }
    }

    /// Takes in what came of the current step.
    pub fn handle(&mut self, event: CaptureEvent)
        ensures
            final(self)@ == capture_next(old(self)@, event_view(event)),
    {
        match (self.phase, event) {
            (CapturePhase::ReadingPrevious, CaptureEvent::Clipboard(prev)) => {
                self.snapshot = prev;
                self.phase = CapturePhase::CheckingPermission;
            },
            (CapturePhase::CheckingPermission, CaptureEvent::Permission(granted)) => {
                if granted {
                    self.phase = CapturePhase::Copying;
                } else {
                    self.captured = None;
                    self.phase = CapturePhase::Finished;
                }
            },
            (CapturePhase::Copying, CaptureEvent::CopySent(sent)) => {
                if sent {
                    self.phase = CapturePhase::ReadingSelection;
                } else {
                    self.captured = None;
                    self.phase = CapturePhase::Restoring;
                }
            },
            (CapturePhase::ReadingSelection, CaptureEvent::Clipboard(text)) => {
                self.captured = text;
                self.phase = CapturePhase::Restoring;
            },
            (CapturePhase::Restoring, CaptureEvent::Restored) => {
                self.phase = CapturePhase::Finished;
            },
            _ => {},
        }
    }
}

/// The text to insert into the window after a capture: the captured text,
/// unless there is none or it is only white space.
pub fn text_to_insert(captured: Option<String>) -> (r: Option<String>)
    ensures
        match captured {
            Some(t) => if trim(t@).len() == 0 {
                r is None
            } else {
                r == Some(t)
            },
            None => r is None,
        },
{
    match captured {
        Some(t) => {
            if trim_chars(chars_of(t.as_str()).as_slice()).len() == 0 {
                None
            } else {
                Some(t)
            }
        },
        None => None,
    }
}

/// What a faithful caller keeps true of the clipboard while the capture is
/// in state `s`, given `prior`, the clipboard before the capture.
pub open spec fn clipboard_kept(s: CaptureState, now: Option<Seq<char>>, prior: Option<Seq<char>>) -> bool {
    match s.phase {
        CapturePhase::ReadingPrevious => now == prior,
        CapturePhase::CheckingPermission => now == prior && s.snapshot == prior,
        CapturePhase::Copying => now == prior && s.snapshot == prior,
        CapturePhase::ReadingSelection => s.snapshot == prior,
        CapturePhase::Restoring => s.snapshot == prior,
        CapturePhase::Finished => now == prior,
    }
}

proof fn lemma_capture_invariant(evs: Seq<EventView>, clips: Seq<Option<Seq<char>>>, i: int)
    requires
        clips.len() == evs.len() + 1,
        0 <= i <= evs.len(),
        forall|k: int|
            0 <= k < evs.len() ==> faithful(
                step_of(#[trigger] capture_run(evs.take(k))),
                clips[k],
                evs[k],
                clips[k + 1],
            ),
    ensures
        clipboard_kept(capture_run(evs.take(i)), clips[i], clips[0]),
    decreases i,
{
    if i == 0 {
        assert(evs.take(0).len() == 0);
    } else {
        let p = i - 1;
        lemma_capture_invariant(evs, clips, p);
        assert(evs.take(i).drop_last() == evs.take(p));
        assert(evs.take(i).last() == evs[p]);
        let s = capture_run(evs.take(p));
        assert(faithful(step_of(s), clips[p], evs[p], clips[p + 1]));
    }
}

/// Whatever the clipboard held before, it holds the same once a capture
/// driven by a faithful caller is done, whether text was captured or not.
pub proof fn lemma_capture_restores_clipboard(evs: Seq<EventView>, clips: Seq<Option<Seq<char>>>)
    requires
        clips.len() == evs.len() + 1,
        forall|k: int|
            0 <= k < evs.len() ==> faithful(
                step_of(#[trigger] capture_run(evs.take(k))),
                clips[k],
                evs[k],
                clips[k + 1],
            ),
        step_of(capture_run(evs)) is Done,
    ensures
        clips[evs.len() as int] == clips[0],
{
    lemma_capture_invariant(evs, clips, evs.len() as int);
    assert(evs.take(evs.len() as int) == evs);
}

/// What happens after a capture for the capture-text shortcut, in order.
#[derive(Debug)]
pub enum SessionAction {
    /// Show and focus the capture window.
    ShowCapture,
    /// Pause this long.
    Wait { ms: u64 },
    /// Send this text to the window.
    InsertText(String),
}

/// The text a capture leaves to insert: none when nothing, or only white
/// space, was captured.
pub open spec fn insertable(captured: Option<Seq<char>>) -> Option<Seq<char>> {
    match captured {
        Some(t) => if trim(t).len() == 0 {
            None
        } else {
            Some(t)
        },
        None => None,
    }
}

/// The steps that follow a finished capture: the window is shown first (the
/// capture ran before, while the foreground application still had the
/// focus), then, when there is text to insert, a pause so that the window
/// clears itself, then the text.
pub fn after_capture(captured: Option<String>) -> (r: Vec<SessionAction>)
    ensures
        r@.len() >= 1,
        r@[0] is ShowCapture,
        match insertable(opt_view(captured)) {
            None => r@.len() == 1,
            Some(t) => r@.len() == 3 && r@[1] == (SessionAction::Wait { ms: INSERT_DELAY_MS })
                && (r@[2] matches SessionAction::InsertText(x) && x@ == t),
        },
{
    let mut steps: Vec<SessionAction> = Vec::new();
    steps.push(SessionAction::ShowCapture);
    match text_to_insert(captured) {
        Some(text) => {
            steps.push(SessionAction::Wait { ms: INSERT_DELAY_MS });
            steps.push(SessionAction::InsertText(text));
        },
        None => {},
    }
    steps
}

} // verus!
