use collector::capture::{
    build_daily_note_path, daily_note_path_at, fill_time_template, generate_filename_from_template,
    generate_header, needs_leading_newline, note_content, note_saved, parse_daily_note_path,
    prepare_daily_append, prepare_note, LocalDateTime,
};
use collector::settings::Settings;

fn moment() -> LocalDateTime {
    LocalDateTime { year: 2024, month: 3, day: 7, hour: 9, minute: 5, second: 42 }
}

#[test]
fn test_generate_header() {
    let header = generate_header("#### HH:mm");
    assert!(header.starts_with("#### "));
    assert!(header.contains(":"));
}

#[test]
fn test_parse_daily_note_path() {
    let path = parse_daily_note_path("Tagebuch/YYYY/YYYY-MM-DD.md");
    assert!(path.contains("/"));
    assert!(path.ends_with(".md"));
    assert!(!path.contains("YYYY"));
}

#[test]
fn test_build_daily_note_path() {
    let settings = Settings {
        daily_note_folder: "Journal/Notes/".to_string(),
        daily_note_format: "YYYY-MM-DD".to_string(),
        ..Default::default()
    };

    let path = build_daily_note_path(&settings);
    assert!(path.starts_with("Journal/Notes/"));
    assert!(path.ends_with(".md"));
    assert!(!path.contains("YYYY"));
    assert!(!path.contains("MM"));
    assert!(!path.contains("DD"));
}

#[test]
fn test_build_daily_note_path_no_trailing_slash() {
    let settings = Settings {
        daily_note_folder: "Tagebuch".to_string(),
        daily_note_format: "YYYY-MM-DD".to_string(),
        ..Default::default()
    };

    let path = build_daily_note_path(&settings);
    assert!(path.starts_with("Tagebuch/"));
    assert!(path.ends_with(".md"));
}

#[test]
fn test_build_daily_note_path_empty_folder() {
    let settings = Settings {
        daily_note_folder: "".to_string(),
        daily_note_format: "YYYY-MM-DD".to_string(),
        ..Default::default()
    };

    let path = build_daily_note_path(&settings);
    assert!(path.ends_with(".md"));
    assert!(!path.starts_with("/"));
}

#[test]
fn time_template_is_filled_exactly() {
    assert_eq!(fill_time_template("#### HH:mm", &moment()), "#### 09:05");
    assert_eq!(
        fill_time_template("note-YYYY-MM-DD-HHmmss", &moment()),
        "note-2024-03-07-090542"
    );
    let early = LocalDateTime { year: 7, ..moment() };
    assert_eq!(fill_time_template("YYYY", &early), "0007");
    let bce = LocalDateTime { year: -44, ..moment() };
    assert_eq!(fill_time_template("YYYY", &bce), "-0044");
    let far = LocalDateTime { year: 12345, ..moment() };
    assert_eq!(fill_time_template("YYYY", &far), "+12345");
}

#[test]
fn daily_path_is_exact() {
    let mut settings = Settings::default();
    settings.daily_note_folder = "Tagebuch".to_string();
    settings.daily_note_format = "YYYY/YYYY-MM-DD".to_string();
    assert_eq!(daily_note_path_at(&settings, &moment()), "Tagebuch/2024/2024-03-07.md");
    settings.daily_note_folder = "J/".to_string();
    settings.daily_note_format = "DD.md".to_string();
    assert_eq!(daily_note_path_at(&settings, &moment()), "J/07.md");
}

#[test]
fn note_names_and_bodies() {
    assert!(generate_filename_from_template("x").ends_with(".md"));
    assert_eq!(note_content("", "body"), "body");
    assert_eq!(note_content("---", "body"), "---\n\nbody");
    let r = note_saved("a.md");
    assert!(r.success);
    assert_eq!(r.message, "Note saved: a.md");
    let mut settings = Settings::default();
    settings.note_filename_template = "n-HHmm".to_string();
    settings.note_template = "T".to_string();
    let note = prepare_note("hi", &settings, &moment());
    assert_eq!(note.filename, "n-0905.md");
    assert_eq!(note.content, "T\n\nhi");
}

#[test]
fn daily_append_entry_and_refusal() {
    let settings = Settings::default();
    let a = prepare_daily_append("Idea", &settings, &moment()).unwrap();
    assert_eq!(a.relative_path, "Journal/2024-03-07.md");
    assert_eq!(a.entry, "#### 09:05\nIdea\n");
    assert_eq!(prepare_daily_append(" \t", &settings, &moment()).err(), Some("Nichts zum Anhängen".to_string()));
}

#[test]
fn leading_newline_rule() {
    assert!(!needs_leading_newline(0, &[]));
    assert!(!needs_leading_newline(5, b"a\n"));
    assert!(!needs_leading_newline(5, b"\r\n"));
    assert!(needs_leading_newline(5, b"ab"));
    assert!(!needs_leading_newline(1, b"\n"));
    assert!(needs_leading_newline(1, b"a"));
    assert!(needs_leading_newline(3, b""));
}
