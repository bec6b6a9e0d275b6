//! Text of the notes a capture is written to: date templates, daily-note
//! paths, entry headers, note bodies, and the newline rule for appending.

use chrono::{Datelike, Timelike};
use vstd::prelude::*;
use crate::settings::Settings;
use crate::text::{
    chars_of, concat_chars, ends_with, ends_with_chars, padded, padded_chars, replace_all,
    replace_chars, string_from_chars, trim, trim_chars,
};

verus! {

/// A reading of the local wall clock.
#[derive(Clone, Copy, Debug, PartialEq, Eq, Structural)]
pub struct LocalDateTime {
    pub year: i32,
    pub month: u32,
    pub day: u32,
    pub hour: u32,
    pub minute: u32,
    pub second: u32,
}

/// The ranges the clock's fields keep to.
pub open spec fn clock_reading(d: LocalDateTime) -> bool {
    &&& 1 <= d.month <= 12
    &&& 1 <= d.day <= 31
    &&& d.hour <= 23
    &&& d.minute <= 59
    &&& d.second <= 59
}

/// Relies on `chrono::Local::now` and its `Datelike`/`Timelike` accessors,
/// which document month 1 to 12, day 1 to 31, hour 0 to 23, minute and
/// second 0 to 59.
#[verifier::external_body]
pub(crate) fn local_now() -> (r: LocalDateTime)
    ensures
        clock_reading(r),
{
    let now = chrono::Local::now();
    LocalDateTime {
        year: now.year(),
        month: now.month(),
        day: now.day(),
        hour: now.hour(),
        minute: now.minute(),
        second: now.second(),
    }
}

/// The local date and time now.
pub fn local_time() -> (r: LocalDateTime)
    ensures
        clock_reading(r),
{
    local_now()
}

/// A year as `%Y` writes it: four digits, zero-padded, with a sign outside
/// 0 to 9999.
pub open spec fn year_text(y: int) -> Seq<char> {
    if 0 <= y <= 9999 {
        padded(y as nat, 4)
    } else if y < 0 {
        seq!['-'] + padded((-y) as nat, 4)
    } else {
        seq!['+'] + padded(y as nat, 4)
    }
}

/// `YYYY`, `MM` and `DD` replaced, in that order, by the date.
pub open spec fn fill_date(t: Seq<char>, d: LocalDateTime) -> Seq<char> {
    let a = replace_all(t, "YYYY"@, year_text(d.year as int));
    let b = replace_all(a, "MM"@, padded(d.month as nat, 2));
    replace_all(b, "DD"@, padded(d.day as nat, 2))
}

/// After the date, `HH`, `mm` and `ss` replaced, in that order, by the time.
pub open spec fn fill_date_time(t: Seq<char>, d: LocalDateTime) -> Seq<char> {
    let a = replace_all(fill_date(t, d), "HH"@, padded(d.hour as nat, 2));
    let b = replace_all(a, "mm"@, padded(d.minute as nat, 2));
    replace_all(b, "ss"@, padded(d.second as nat, 2))
}

/// `s` with `suffix` added unless it already ends with it.
pub open spec fn with_suffix(s: Seq<char>, suffix: Seq<char>) -> Seq<char> {
    if ends_with(s, suffix) {
        s
    } else {
        s + suffix
    }
}

/// The daily note's path inside the vault: the folder, a `/` after it if it
/// is not empty and has none, the file name from the date template, and
/// `.md` unless the name already ends with it.
pub open spec fn daily_note_path_for(folder: Seq<char>, format: Seq<char>, d: LocalDateTime) -> Seq<char> {
    let base = if folder.len() > 0 && !ends_with(folder, "/"@) {
        folder.push('/')
    } else {
        folder
    };
    with_suffix(base + fill_date(format, d), ".md"@)
}

pub open spec fn note_text(template: Seq<char>, content: Seq<char>) -> Seq<char> {
    if template.len() > 0 {
        template + "\n\n"@ + content
    } else {
        content
    }
}

fn year_chars(y: i32) -> (r: Vec<char>)
    ensures
        r@ == year_text(y as int),
{
    if 0 <= y && y <= 9999 {
        padded_chars(y as u64, 4)
    } else if y < 0 {
        let mag: u64 = (-(y as i64)) as u64;
        let digits = padded_chars(mag, 4);
        concat_chars(&['-'], digits.as_slice())
    } else {
        let digits = padded_chars(y as u64, 4);
        concat_chars(&['+'], digits.as_slice())
    }
}

fn replace_with(s: Vec<char>, pat: &str, rep: &[char]) -> (r: Vec<char>)
    requires
        pat@.len() > 0,
    ensures
        r@ == replace_all(s@, pat@, rep@),
{
    let p = chars_of(pat);
    replace_chars(s.as_slice(), p.as_slice(), rep)
}

fn fill_date_chars(t: &str, d: &LocalDateTime) -> (r: Vec<char>)
    ensures
        r@ == fill_date(t@, *d),
{
    proof {
        reveal_strlit("YYYY");
        reveal_strlit("MM");
        reveal_strlit("DD");
    }
    let a = replace_with(chars_of(t), "YYYY", year_chars(d.year).as_slice());
    let b = replace_with(a, "MM", padded_chars(d.month as u64, 2).as_slice());
    replace_with(b, "DD", padded_chars(d.day as u64, 2).as_slice())
}

fn fill_date_time_chars(t: &str, d: &LocalDateTime) -> (r: Vec<char>)
    ensures
        r@ == fill_date_time(t@, *d),
{
    proof {
        reveal_strlit("HH");
        reveal_strlit("mm");
        reveal_strlit("ss");
    }
    let a = replace_with(fill_date_chars(t, d), "HH", padded_chars(d.hour as u64, 2).as_slice());
    let b = replace_with(a, "mm", padded_chars(d.minute as u64, 2).as_slice());
    replace_with(b, "ss", padded_chars(d.second as u64, 2).as_slice())
}

fn add_suffix(s: Vec<char>, suffix: &str) -> (r: Vec<char>)
    ensures
        r@ == with_suffix(s@, suffix@),
{
    let suf = chars_of(suffix);
    if ends_with_chars(s.as_slice(), suf.as_slice()) {
        s
    } else {
        concat_chars(s.as_slice(), suf.as_slice())
    }
}

/// The template with the date and time of `now` written in.
pub fn fill_time_template(template: &str, now: &LocalDateTime) -> (r: String)
    ensures
        r@ == fill_date_time(template@, *now),
{
    string_from_chars(&fill_date_time_chars(template, now))
}

/// The template with the date of `now` written in.
pub fn fill_date_template(template: &str, now: &LocalDateTime) -> (r: String)
    ensures
        r@ == fill_date(template@, *now),
{
    string_from_chars(&fill_date_chars(template, now))
}

/// An entry header from its template, at the current time.
pub fn generate_header(template: &str) -> (r: String)
    ensures
        exists|d: LocalDateTime| clock_reading(d) && r@ == fill_date_time(template@, d),
{
    let now = local_now();
    fill_time_template(template, &now)
}

/// A path template with today's date written in.
pub fn parse_daily_note_path(template: &str) -> (r: String)
    ensures
        exists|d: LocalDateTime| clock_reading(d) && r@ == fill_date(template@, d),
{
    let now = local_now();
    fill_date_template(template, &now)
}

/// The daily note's path inside the vault on the date of `now`.
pub fn daily_note_path_at(settings: &Settings, now: &LocalDateTime) -> (r: String)
    ensures
        r@ == daily_note_path_for(settings.daily_note_folder@, settings.daily_note_format@, *now),
{
    proof {
        reveal_strlit("/");
    }
    let folder = chars_of(settings.daily_note_folder.as_str());
    let slash = chars_of("/");
    let ghost f = folder@;
    let base = if folder.len() > 0 && !ends_with_chars(folder.as_slice(), slash.as_slice()) {
        let b = concat_chars(folder.as_slice(), &['/']);
        assert(b@ =~= f.push('/'));
        b
    } else {
        folder
    };
    let name = fill_date_chars(settings.daily_note_format.as_str(), now);
    let path = concat_chars(base.as_slice(), name.as_slice());
    string_from_chars(&add_suffix(path, ".md"))
}

/// Today's daily note path inside the vault.
pub fn build_daily_note_path(settings: &Settings) -> (r: String)
    ensures
        exists|d: LocalDateTime|
            clock_reading(d) && r@ == daily_note_path_for(
                settings.daily_note_folder@,
                settings.daily_note_format@,
                d,
            ),
{
    let now = local_now();
    daily_note_path_at(settings, &now)
}

/// A note's file name: the template with date and time written in, and
/// `.md` unless it already ends with it.
pub fn note_filename_at(template: &str, now: &LocalDateTime) -> (r: String)
    ensures
        r@ == with_suffix(fill_date_time(template@, *now), ".md"@),
{
    string_from_chars(&add_suffix(fill_date_time_chars(template, now), ".md"))
}

/// A note's file name at the current time.
pub fn generate_filename_from_template(template: &str) -> (r: String)
    ensures
        exists|d: LocalDateTime|
            clock_reading(d) && r@ == with_suffix(fill_date_time(template@, d), ".md"@),
{
    let now = local_now();
    note_filename_at(template, &now)
}

/// The outcome of writing a note.
#[derive(Debug)]
pub struct CaptureResult {
    pub success: bool,
    pub message: String,
}

/// What a new note holds: the note template, a blank line, then the
/// content; only the content when there is no template.
pub fn note_content(template: &str, content: &str) -> (r: String)
    ensures
        r@ == note_text(template@, content@),
{
    let t = chars_of(template);
    let c = chars_of(content);
    if t.len() > 0 {
        let sep = chars_of("\n\n");
        let head = concat_chars(t.as_slice(), sep.as_slice());
        string_from_chars(&concat_chars(head.as_slice(), c.as_slice()))
    } else {
        string_from_chars(&c)
    }
}

/// The report of a note saved under `filename`.
pub fn note_saved(filename: &str) -> (r: CaptureResult)
    ensures
        r.success,
        r.message@ == "Note saved: "@ + filename@,
{
    let head = chars_of("Note saved: ");
    let msg = concat_chars(head.as_slice(), chars_of(filename).as_slice());
    CaptureResult { success: true, message: string_from_chars(&msg) }
}

/// A note file to create: its name and its text.
pub struct PreparedNote {
    pub filename: String,
    pub content: String,
}

/// The note that saving `content` at `now` creates.
pub fn prepare_note(content: &str, settings: &Settings, now: &LocalDateTime) -> (r: PreparedNote)
    ensures
        r.filename@ == with_suffix(fill_date_time(settings.note_filename_template@, *now), ".md"@),
        r.content@ == note_text(settings.note_template@, content@),
{
    PreparedNote {
        filename: note_filename_at(settings.note_filename_template.as_str(), now),
        content: note_content(settings.note_template.as_str(), content),
    }
}

pub open spec fn nothing_to_append_msg() -> Seq<char> {
    "Nichts zum Anhängen"@
}

/// An entry appended to the daily note: the header, the text, each ending
/// a line.
pub open spec fn entry_text(header: Seq<char>, text: Seq<char>) -> Seq<char> {
    header.push('\n') + text.push('\n')
}

/// An entry to append to the daily note, and where the note lies in the
/// vault.
pub struct DailyAppend {
    pub relative_path: String,
    pub entry: String,
}

/// The entry that appending `text` at `now` writes, refused when the text is
/// blank.
pub fn prepare_daily_append(text: &str, settings: &Settings, now: &LocalDateTime) -> (r: Result<DailyAppend, String>)
    ensures
        trim(text@).len() == 0 ==> (r matches Err(e) && e@ == nothing_to_append_msg()),
        trim(text@).len() != 0 ==> (r matches Ok(a) && a.relative_path@ == daily_note_path_for(
            settings.daily_note_folder@,
            settings.daily_note_format@,
            *now,
        ) && a.entry@ == entry_text(fill_date_time(settings.entry_header@, *now), text@)),
{
    let body = chars_of(text);
    if trim_chars(body.as_slice()).len() == 0 {
        return Err(String::from_str("Nichts zum Anhängen"));
    }
    let header = fill_date_time_chars(settings.entry_header.as_str(), now);
    let first = concat_chars(header.as_slice(), &['\n']);
    let second = concat_chars(body.as_slice(), &['\n']);
    let entry = concat_chars(first.as_slice(), second.as_slice());
    Ok(DailyAppend { relative_path: daily_note_path_at(settings, now), entry: string_from_chars(&entry) })
}

/// Whether an entry appended to a file needs a newline first, given the
/// file's length and its last bytes (up to two): not for an empty file,
/// otherwise exactly when the file does not end with a line feed.
pub fn needs_leading_newline(file_len: u64, tail: &[u8]) -> (r: bool)
    ensures
        file_len == 0 ==> !r,
        file_len != 0 && tail@.len() == 2 ==> r == (tail@[1] != 10),
        file_len != 0 && tail@.len() == 1 ==> r == (tail@[0] != 10),
        file_len != 0 && tail@.len() != 1 && tail@.len() != 2 ==> r,
{
    if file_len == 0 {
        false
    } else if tail.len() == 2 {
        tail[1] != 10u8
    } else if tail.len() == 1 {
        tail[0] != 10u8
    } else {
        true
    }
}

} // verus!
