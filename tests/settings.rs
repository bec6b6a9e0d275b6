use collector::settings::{
    default_daily_note_folder, default_note_template, default_vault_path, parse_u32_chars,
    path_under_home, Settings,
};

fn ok_settings() -> Settings {
    Settings::default()
}

#[test]
fn defaults_validate() {
    assert!(ok_settings().validate().is_ok());
    let s = Settings::default();
    assert_eq!(s.edge_side, "right");
    assert_eq!(s.window_width, 330);
    assert_eq!(s.global_shortcut, "Cmd+Shift+N");
    assert_eq!(default_daily_note_folder(), "Journal/");
    assert!(default_note_template().starts_with("---\ncreated:"));
    assert!(default_vault_path().ends_with("Vault"));
}

#[test]
fn each_rule_reports_its_message() {
    let cases: Vec<(Box<dyn Fn(&mut Settings)>, &str)> = vec![
        (Box::new(|s| s.edge_side = "top".to_string()), "edge_side must be 'left' or 'right'"),
        (Box::new(|s| s.window_width = 199), "window_width must be between 200 and 800"),
        (Box::new(|s| s.window_height = 1201), "window_height must be between 80 and 1200"),
        (Box::new(|s| s.border_radius = 31), "border_radius must be between 0 and 30"),
        (Box::new(|s| s.font_size = 9), "font_size must be between 10 and 24"),
        (Box::new(|s| s.compression_max_kb = 2001), "compression_max_kb must be between 50 and 2000"),
        (Box::new(|s| s.default_image_width = "0".to_string()), "default_image_width must be empty or a positive number"),
        (Box::new(|s| s.default_image_width = "12px".to_string()), "default_image_width must be empty or a positive number"),
        (Box::new(|s| s.vault_name = " ".to_string()), "vault_name cannot be empty"),
        (Box::new(|s| s.global_shortcut = "N".to_string()), "Shortcut must contain at least one modifier and one key"),
        (Box::new(|s| s.capture_text_shortcut = "A+B".to_string()), "Shortcut must contain at least one modifier (Cmd, Shift, Alt)"),
        (Box::new(|s| s.save_as_note_shortcut = "Cmd+Shift".to_string()), "Shortcut must contain a valid key"),
        (Box::new(|s| s.window_transparency = 101), "window_transparency must be between 0 and 100"),
        (Box::new(|s| s.window_blur = 201), "window_blur must be between 0 and 200"),
        (Box::new(|s| s.window_saturation = 301), "window_saturation must be between 0 and 300"),
        (Box::new(|s| s.window_brightness = -101), "window_brightness must be between -100 and 100"),
    ];
    for (change, msg) in cases {
        let mut s = ok_settings();
        change(&mut s);
        assert_eq!(s.validate().unwrap_err(), msg);
    }
}

#[test]
fn blank_fields_that_may_be_blank() {
    let mut s = ok_settings();
    s.default_image_width = " ".to_string();
    s.global_shortcut = "".to_string();
    s.capture_text_shortcut = " ".to_string();
    s.save_as_note_shortcut = "".to_string();
    s.window_width = 800;
    s.window_brightness = -100;
    assert!(s.validate().is_ok());
    s.default_image_width = " +640 ".to_string();
    assert!(s.validate().is_ok());
}

#[test]
fn u32_parsing_follows_from_str() {
    let p = |t: &str| parse_u32_chars(&t.chars().collect::<Vec<char>>());
    assert_eq!(p("600"), Some(600));
    assert_eq!(p("+7"), Some(7));
    assert_eq!(p("4294967295"), Some(4294967295));
    assert_eq!(p("4294967296"), None);
    assert_eq!(p("+"), None);
    assert_eq!(p(""), None);
    assert_eq!(p("-1"), None);
    assert_eq!(p("1 2"), None);
}

#[test]
fn migration_of_old_daily_path() {
    let mut s = ok_settings();
    s.daily_note_folder = "".to_string();
    s.daily_note_path = "Tagebuch/2024/YYYY-MM-DD.md".to_string();
    assert!(s.migrate_daily_note_path());
    assert_eq!(s.daily_note_folder, "Tagebuch/2024/");
    assert_eq!(s.daily_note_format, "YYYY-MM-DD");
    assert_eq!(s.daily_note_path, "");
    assert!(!s.migrate_daily_note_path());

    let mut t = ok_settings();
    t.daily_note_folder = "".to_string();
    t.daily_note_path = "YYYY-MM-DD".to_string();
    assert!(t.migrate_daily_note_path());
    assert_eq!(t.daily_note_folder, "");
    assert_eq!(t.daily_note_format, "YYYY-MM-DD");

    let mut u = ok_settings();
    u.daily_note_path = "a/b.md".to_string();
    assert!(!u.migrate_daily_note_path());
    assert_eq!(u.daily_note_path, "a/b.md");
}

#[test]
fn home_paths_join_with_one_slash() {
    assert_eq!(path_under_home(Some("/home/u"), "Vault", "/Users/Vault"), "/home/u/Vault");
    assert_eq!(path_under_home(Some("/home/u/"), "Vault", "/Users/Vault"), "/home/u/Vault");
    assert_eq!(path_under_home(None, "Vault", "/Users/Vault"), "/Users/Vault");
}
