use collector::edge_detect::{
    pointer_at_edge, window_placement, EdgeDetector, EdgeSide, PointerSample, ScreenBounds,
    TriggerEvent, WindowPlacement, COOLDOWN_MS,
};
use collector::settings::Settings;

fn screen() -> ScreenBounds {
    ScreenBounds { width: 1920, height: 1080 }
}

fn at(x: i32) -> Option<PointerSample> {
    Some(PointerSample { x, y: 500, screen: screen() })
}

#[test]
fn edge_zone_table() {
    assert!(pointer_at_edge(EdgeSide::Right, 1916, 1920));
    assert!(pointer_at_edge(EdgeSide::Right, 1915, 1920));
    assert!(!pointer_at_edge(EdgeSide::Right, 1914, 1920));
    assert!(!pointer_at_edge(EdgeSide::Right, 1900, 1920));
    assert!(pointer_at_edge(EdgeSide::Left, 0, 1920));
    assert!(pointer_at_edge(EdgeSide::Left, 5, 1920));
    assert!(!pointer_at_edge(EdgeSide::Left, 6, 1920));
    assert!(pointer_at_edge(EdgeSide::Right, i32::MAX, i32::MIN));
}

#[test]
fn right_edge_window_x_is_screen_minus_width() {
    let settings = Settings::default();
    let p = window_placement(&settings, screen());
    assert_eq!(p, WindowPlacement { x: 1590, y: 240, width: 330, height: 600 });
}

#[test]
fn left_edge_window_sits_at_zero_and_odd_heights_round_down() {
    let mut settings = Settings::default();
    settings.edge_side = "left".to_string();
    settings.window_height = 601;
    let p = window_placement(&settings, screen());
    assert_eq!(p.x, 0);
    assert_eq!(p.y, 239);
    settings.window_height = 1200;
    assert_eq!(window_placement(&settings, ScreenBounds { width: 800, height: 1081 }).y, -60);
}

#[test]
fn dwell_at_edge_opens_after_delay() {
    let mut d = EdgeDetector::new(Settings::default());
    assert_eq!(d.poll(0, at(1919)), None);
    assert_eq!(d.poll(49, at(1919)), None);
    let ev = d.poll(50, at(1919));
    assert_eq!(ev, Some(TriggerEvent::Open(WindowPlacement { x: 1590, y: 240, width: 330, height: 600 })));
    assert!(d.is_window_open());
}

#[test]
fn leaving_the_edge_restarts_the_dwell() {
    let mut d = EdgeDetector::new(Settings::default());
    assert_eq!(d.poll(0, at(1919)), None);
    assert_eq!(d.poll(40, at(1000)), None);
    assert_eq!(d.poll(60, at(1919)), None);
    assert_eq!(d.poll(100, at(1919)), None);
    assert!(d.poll(110, at(1919)).is_some());
}

#[test]
fn missing_sample_keeps_the_dwell() {
    let mut d = EdgeDetector::new(Settings::default());
    assert_eq!(d.poll(0, at(1919)), None);
    assert_eq!(d.poll(30, None), None);
    assert!(d.poll(60, at(1919)).is_some());
}

#[test]
fn no_reopen_while_open_or_during_cooldown() {
    let mut d = EdgeDetector::new(Settings::default());
    d.poll(0, at(1919));
    assert!(d.poll(50, at(1919)).is_some());
    for t in 0..10u64 {
        assert_eq!(d.poll(100 + t * 50, at(1919)), None);
    }
    d.set_window_open(false, 1000);
    assert!(d.is_in_cooldown(1000 + COOLDOWN_MS - 1));
    assert!(!d.is_in_cooldown(1000 + COOLDOWN_MS));
    let mut t = 1000;
    while t < 1000 + COOLDOWN_MS {
        assert_eq!(d.poll(t, at(1919)), None);
        t += 50;
    }
    assert_eq!(d.poll(1500, at(1919)), None);
    assert!(d.poll(1550, at(1919)).is_some());
}

#[test]
fn disabled_detector_never_opens() {
    let mut d = EdgeDetector::new(Settings::default());
    d.set_enabled(false);
    assert!(!d.is_enabled());
    for t in 0..5u64 {
        assert_eq!(d.poll(t * 50, at(1919)), None);
    }
    let mut s = Settings::default();
    s.edge_side = "left".to_string();
    d.update_settings(s);
    assert!(d.is_enabled());
    assert_eq!(d.poll(300, at(2)), None);
    assert!(d.poll(350, at(2)).is_some());
}

#[test]
fn unknown_edge_side_never_triggers() {
    let mut s = Settings::default();
    s.edge_side = "top".to_string();
    let mut d = EdgeDetector::new(s);
    for t in 0..5u64 {
        assert_eq!(d.poll(t * 50, at(0)), None);
        assert_eq!(d.poll(t * 50 + 1, at(1919)), None);
    }
}
