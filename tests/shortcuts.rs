use collector::settings::Settings;
use collector::shortcuts::{normalize_shortcut, validate_shortcut, BindAction, BindError, ShortcutManager};

#[test]
fn test_normalize_shortcut() {
    assert_eq!(normalize_shortcut("Cmd+Shift+N"), "CommandOrControl+Shift+N");
    assert_eq!(normalize_shortcut("Command+Option+K"), "CommandOrControl+Alt+K");
}

#[test]
fn test_validate_shortcut() {
    assert!(validate_shortcut("Cmd+Shift+N").is_ok());
    assert!(validate_shortcut("Cmd+N").is_ok());
    assert!(validate_shortcut("N").is_err());
    assert!(validate_shortcut("Cmd").is_err());
}

#[test]
fn primary_modifier_aliases_normalize_alike() {
    let a = normalize_shortcut("cmd+n");
    let b = normalize_shortcut("Command+N");
    let c = normalize_shortcut("CTRL+n");
    assert_eq!(a, "CommandOrControl+N");
    assert_eq!(a, b);
    assert_eq!(b, c);
}

#[test]
fn normalize_trims_and_canonicalizes_named_keys() {
    assert_eq!(normalize_shortcut(" opt + shift + enter "), "Alt+Shift+Enter");
    assert_eq!(normalize_shortcut("Control+f12"), "CommandOrControl+F12");
    assert_eq!(normalize_shortcut("CommandOrControl+Shift+N"), "CommandOrControl+Shift+N");
    assert_eq!(normalize_shortcut(""), "");
    assert_eq!(normalize_shortcut("Cmd+Hyper"), "CommandOrControl+hyper");
}

#[test]
fn validate_reports_each_problem() {
    assert_eq!(
        validate_shortcut("N").unwrap_err(),
        "Shortcut must contain at least one modifier and one key"
    );
    assert_eq!(
        validate_shortcut("A+B").unwrap_err(),
        "Shortcut must contain at least one modifier (Cmd, Shift, Alt)"
    );
    assert_eq!(validate_shortcut("Cmd+Shift").unwrap_err(), "Shortcut must contain a valid key");
    assert_eq!(validate_shortcut("Cmd+Hyper").unwrap_err(), "Shortcut must contain a valid key");
    assert!(validate_shortcut("super+pagedown").is_ok());
}

#[test]
fn bind_registers_then_keeps_same_combination() {
    let mut m = ShortcutManager::new();
    match m.bind("Cmd+Shift+N").unwrap() {
        BindAction::Replace { release, acquire } => {
            assert_eq!(release, None);
            assert_eq!(acquire, "CommandOrControl+Shift+N");
        }
        _ => panic!("expected a registration"),
    }
    m.finish_bind(true);
    assert_eq!(m.current(), Some("CommandOrControl+Shift+N".to_string()));
    assert!(matches!(m.bind("cmd + shift + n").unwrap(), BindAction::Keep));
    assert_eq!(m.current(), Some("CommandOrControl+Shift+N".to_string()));
}

#[test]
fn bind_empty_clears_whatever_was_bound() {
    let mut m = ShortcutManager::new();
    m.bind("Cmd+K").unwrap();
    m.finish_bind(true);
    match m.bind("").unwrap() {
        BindAction::Clear { release } => assert_eq!(release, Some("CommandOrControl+K".to_string())),
        _ => panic!("expected a clear"),
    }
    assert_eq!(m.current(), None);
    match m.bind("").unwrap() {
        BindAction::Clear { release } => assert_eq!(release, None),
        _ => panic!("expected a clear"),
    }
}

#[test]
fn rebind_releases_old_combination_first() {
    let mut m = ShortcutManager::new();
    m.bind("Cmd+K").unwrap();
    m.finish_bind(true);
    match m.bind("Alt+J").unwrap() {
        BindAction::Replace { release, acquire } => {
            assert_eq!(release, Some("CommandOrControl+K".to_string()));
            assert_eq!(acquire, "Alt+J");
        }
        _ => panic!("expected a registration"),
    }
    assert_eq!(m.current(), None);
    assert_eq!(m.finish_bind(false), Some("CommandOrControl+K".to_string()));
    assert_eq!(m.current(), None);
    assert_eq!(m.finish_bind(true), None);
    assert_eq!(m.current(), Some("CommandOrControl+K".to_string()));
}

#[test]
fn refused_restore_leaves_no_binding() {
    let mut m = ShortcutManager::new();
    m.bind("Cmd+K").unwrap();
    m.finish_bind(true);
    m.bind("Alt+J").unwrap();
    assert!(m.finish_bind(false).is_some());
    assert_eq!(m.finish_bind(false), None);
    assert_eq!(m.current(), None);
}

#[test]
fn first_registration_refused_holds_nothing() {
    let mut m = ShortcutManager::new();
    m.bind("Cmd+K").unwrap();
    assert_eq!(m.finish_bind(false), None);
    assert_eq!(m.current(), None);
}

#[test]
fn grammar_is_modifiers_then_one_key() {
    assert_eq!(
        validate_shortcut("Cmd+Foo+A").unwrap_err(),
        "Shortcut must list its modifiers before a single key"
    );
    assert_eq!(
        validate_shortcut("Cmd+A+Shift").unwrap_err(),
        "Shortcut must list its modifiers before a single key"
    );
    assert_eq!(
        validate_shortcut("Cmd+Alt+Shift").unwrap_err(),
        "Shortcut must contain a valid key"
    );
    assert_eq!(
        validate_shortcut("A+Cmd+B").unwrap_err(),
        "Shortcut must list its modifiers before a single key"
    );
    assert!(validate_shortcut("Cmd+Shift+Alt+Space").is_ok());
}

#[test]
fn missing_key_is_reported_before_order() {
    assert_eq!(validate_shortcut("Cmd+Foo+Bar").unwrap_err(), "Shortcut must contain a valid key");
    assert_eq!(validate_shortcut("Foo+Cmd").unwrap_err(), "Shortcut must contain a valid key");
    assert_eq!(
        validate_shortcut("Foo+Bar").unwrap_err(),
        "Shortcut must contain at least one modifier (Cmd, Shift, Alt)"
    );
    assert_eq!(
        validate_shortcut("N+Cmd").unwrap_err(),
        "Shortcut must list its modifiers before a single key"
    );
}

#[test]
fn unknown_tokens_are_case_folded() {
    assert_eq!(normalize_shortcut("Cmd+Compose"), normalize_shortcut("cmd+COMPOSE"));
    assert_eq!(normalize_shortcut("Cmd+Compose"), "CommandOrControl+compose");
}

#[test]
fn invalid_combination_keeps_previous_binding() {
    let mut m = ShortcutManager::new();
    m.bind("Cmd+K").unwrap();
    m.finish_bind(true);
    match m.bind("K") {
        Err(BindError::InvalidSyntax(msg)) => {
            assert_eq!(msg, "Shortcut must contain at least one modifier and one key")
        }
        _ => panic!("expected a syntax error"),
    }
    assert_eq!(m.current(), Some("CommandOrControl+K".to_string()));
}

#[test]
fn role_methods_read_their_own_field() {
    let settings = Settings::default();
    let mut open = ShortcutManager::new();
    let mut text = ShortcutManager::new();
    let mut note = ShortcutManager::new();
    match open.register(&settings).unwrap() {
        BindAction::Replace { acquire, .. } => assert_eq!(acquire, "CommandOrControl+Shift+N"),
        _ => panic!("expected a registration"),
    }
    match text.register_capture_text(&settings).unwrap() {
        BindAction::Replace { acquire, .. } => assert_eq!(acquire, "CommandOrControl+Shift+C"),
        _ => panic!("expected a registration"),
    }
    match note.register_save_as_note(&settings).unwrap() {
        BindAction::Replace { acquire, .. } => assert_eq!(acquire, "CommandOrControl+Shift+Enter"),
        _ => panic!("expected a registration"),
    }
    open.finish_bind(true);
    assert!(matches!(open.update(&settings).unwrap(), BindAction::Keep));
    assert_eq!(open.unregister(), Some("CommandOrControl+Shift+N".to_string()));
    assert_eq!(open.current(), None);
}
