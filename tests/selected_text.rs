use collector::selected_text::{
    after_capture, text_to_insert, SessionAction, INSERT_DELAY_MS, CaptureEvent, CaptureStep, SelectionCapture, COPY_SETTLE_MS,
};

struct FakeDesktop {
    clipboard: Option<String>,
    selection: Option<String>,
    permitted: bool,
    copy_works: bool,
    waited: u64,
}

impl FakeDesktop {
    fn run(&mut self) -> Option<String> {
        let mut cap = SelectionCapture::new();
        loop {
            let event = match cap.current_step() {
                CaptureStep::Done(text) => return text,
                CaptureStep::ReadClipboard => CaptureEvent::Clipboard(self.clipboard.clone()),
                CaptureStep::CheckPermission => CaptureEvent::Permission(self.permitted),
                CaptureStep::SynthesizeCopy => {
                    if self.copy_works {
                        if let Some(sel) = &self.selection {
                            self.clipboard = Some(sel.clone());
                        }
                    }
                    CaptureEvent::CopySent(self.copy_works)
                }
                CaptureStep::SettleThenRead { ms } => {
                    self.waited += ms;
                    CaptureEvent::Clipboard(self.clipboard.clone())
                }
                CaptureStep::Restore(text) => {
                    self.clipboard = text;
                    CaptureEvent::Restored
                }
            };
            cap.handle(event);
        }
    }
}

fn desktop(clipboard: Option<&str>, selection: Option<&str>) -> FakeDesktop {
    FakeDesktop {
        clipboard: clipboard.map(|s| s.to_string()),
        selection: selection.map(|s| s.to_string()),
        permitted: true,
        copy_works: true,
        waited: 0,
    }
}

#[test]
fn captures_selection_and_restores_clipboard() {
    let mut d = desktop(Some("earlier"), Some("selected words"));
    assert_eq!(d.run(), Some("selected words".to_string()));
    assert_eq!(d.clipboard, Some("earlier".to_string()));
    assert_eq!(d.waited, COPY_SETTLE_MS);
}

#[test]
fn empty_clipboard_is_restored_empty() {
    let mut d = desktop(None, Some("x"));
    assert_eq!(d.run(), Some("x".to_string()));
    assert_eq!(d.clipboard, None);
}

#[test]
fn nothing_selected_returns_previous_clipboard_and_keeps_it() {
    let mut d = desktop(Some("earlier"), None);
    assert_eq!(d.run(), Some("earlier".to_string()));
    assert_eq!(d.clipboard, Some("earlier".to_string()));
}

#[test]
fn without_permission_nothing_is_touched() {
    let mut d = desktop(Some("earlier"), Some("x"));
    d.permitted = false;
    assert_eq!(d.run(), None);
    assert_eq!(d.clipboard, Some("earlier".to_string()));
    assert_eq!(d.waited, 0);
}

#[test]
fn failed_copy_restores_and_returns_nothing() {
    let mut d = desktop(Some("earlier"), Some("x"));
    d.copy_works = false;
    assert_eq!(d.run(), None);
    assert_eq!(d.clipboard, Some("earlier".to_string()));
}

#[test]
fn unexpected_event_repeats_the_step() {
    let mut cap = SelectionCapture::new();
    cap.handle(CaptureEvent::Restored);
    assert!(matches!(cap.current_step(), CaptureStep::ReadClipboard));
}

#[test]
fn capture_text_scenario_inserts_selection() {
    let mut d = desktop(Some("clip"), Some("Hello world"));
    let captured = d.run();
    assert_eq!(text_to_insert(captured), Some("Hello world".to_string()));
    assert_eq!(d.clipboard, Some("clip".to_string()));
}

#[test]
fn blank_capture_inserts_nothing() {
    assert_eq!(text_to_insert(Some("  \n".to_string())), None);
    assert_eq!(text_to_insert(None), None);
}

#[test]
fn capture_text_session_shows_then_waits_then_inserts() {
    let mut d = desktop(Some("clip"), Some("Hello world"));
    let steps = after_capture(d.run());
    assert_eq!(steps.len(), 3);
    assert!(matches!(steps[0], SessionAction::ShowCapture));
    assert!(matches!(steps[1], SessionAction::Wait { ms } if ms == INSERT_DELAY_MS));
    assert!(matches!(&steps[2], SessionAction::InsertText(t) if t == "Hello world"));
    assert_eq!(d.clipboard, Some("clip".to_string()));
    let only_show = after_capture(Some(" ".to_string()));
    assert_eq!(only_show.len(), 1);
    assert!(matches!(only_show[0], SessionAction::ShowCapture));
}
