//! The persisted configuration record: defaults, validation, and the
//! migration of the old single daily-note path.

use vstd::prelude::*;
use crate::shortcuts::{shortcut_error, validate_shortcut};
use crate::text::{
    chars_of, concat_chars, ends_with, ends_with_chars, eq_chars, string_from_chars, sub_chars, trim,
    trim_chars,
};

verus! {

/// The user's configuration, persisted as one record.
#[derive(Clone, Debug)]
pub struct Settings {
    pub vault_name: String,
    pub vault_path: String,
    pub screenshot_path: String,
    pub edge_side: String,
    pub window_width: u32,
    pub window_height: u32,
    pub border_radius: u32,
    pub background_color: String,
    pub font_family: String,
    pub font_size: u32,
    pub daily_note_folder: String,
    pub daily_note_format: String,
    pub daily_note_path: String,
    pub image_folder: String,
    pub image_filename: String,
    pub default_image_width: String,
    pub entry_header: String,
    pub global_shortcut: String,
    pub capture_text_shortcut: String,
    pub compression_max_kb: u32,
    pub edge_detection_enabled: bool,
    pub notes_folder: String,
    pub save_to_daily_shortcut: String,
    pub save_as_note_shortcut: String,
    pub note_filename_template: String,
    pub note_template: String,
    pub window_transparency: u32,
    pub window_blur: u32,
    pub window_saturation: u32,
    pub window_brightness: i32,
    pub autostart_enabled: bool,
    pub text_color: String,
}

/// `a` and `b` agree on every field but the three daily-note fields.
pub open spec fn same_except_daily_note(a: Settings, b: Settings) -> bool {
    &&& a.vault_name == b.vault_name
    &&& a.vault_path == b.vault_path
    &&& a.screenshot_path == b.screenshot_path
    &&& a.edge_side == b.edge_side
    &&& a.window_width == b.window_width
    &&& a.window_height == b.window_height
    &&& a.border_radius == b.border_radius
    &&& a.background_color == b.background_color
    &&& a.font_family == b.font_family
    &&& a.font_size == b.font_size
    &&& a.image_folder == b.image_folder
    &&& a.image_filename == b.image_filename
    &&& a.default_image_width == b.default_image_width
    &&& a.entry_header == b.entry_header
    &&& a.global_shortcut == b.global_shortcut
    &&& a.capture_text_shortcut == b.capture_text_shortcut
    &&& a.compression_max_kb == b.compression_max_kb
    &&& a.edge_detection_enabled == b.edge_detection_enabled
    &&& a.notes_folder == b.notes_folder
    &&& a.save_to_daily_shortcut == b.save_to_daily_shortcut
    &&& a.save_as_note_shortcut == b.save_as_note_shortcut
    &&& a.note_filename_template == b.note_filename_template
    &&& a.note_template == b.note_template
    &&& a.window_transparency == b.window_transparency
    &&& a.window_blur == b.window_blur
    &&& a.window_saturation == b.window_saturation
    &&& a.window_brightness == b.window_brightness
    &&& a.autostart_enabled == b.autostart_enabled
    &&& a.text_color == b.text_color
}

pub fn default_autostart_enabled() -> (r: bool)
    ensures
        r == false,
{
    false
}

pub fn default_edge_enabled() -> (r: bool)
    ensures
        r == true,
{
    true
}

pub fn default_notes_folder() -> (r: String)
    ensures
        r@ == "Notes"@,
{
    String::from_str("Notes")
}

pub fn default_save_to_daily_shortcut() -> (r: String)
    ensures
        r@ == "Cmd+Enter"@,
{
    String::from_str("Cmd+Enter")
}

pub fn default_save_as_note_shortcut() -> (r: String)
    ensures
        r@ == "Cmd+Shift+Enter"@,
{
    String::from_str("Cmd+Shift+Enter")
}

pub fn default_note_filename_template() -> (r: String)
    ensures
        r@ == "note-YYYY-MM-DD-HHmmss"@,
{
    String::from_str("note-YYYY-MM-DD-HHmmss")
}

pub fn default_note_template() -> (r: String)
    ensures
        r@ == "---\ncreated: <% tp.date.now(\"YYYY-MM-DD hh:mm\") %>\nmodified: \ndaily: \"[[<% tp.date.now(\"YYYY-MM-DD\") %>]]\"\ntags: inbox\ntype: inbox\n---"@,
{
    String::from_str("---\ncreated: <% tp.date.now(\"YYYY-MM-DD hh:mm\") %>\nmodified: \ndaily: \"[[<% tp.date.now(\"YYYY-MM-DD\") %>]]\"\ntags: inbox\ntype: inbox\n---")
}

pub fn default_image_width() -> (r: String)
    ensures
        r@ == "600"@,
{
    String::from_str("600")
}

pub fn default_window_transparency() -> (r: u32)
    ensures
        r == 55,
{
    55
}

pub fn default_window_blur() -> (r: u32)
    ensures
        r == 80,
{
    80
}

pub fn default_window_saturation() -> (r: u32)
    ensures
        r == 200,
{
    200
}

pub fn default_window_brightness() -> (r: i32)
    ensures
        r == 0,
{
    0
}

pub fn default_text_color() -> (r: String)
    ensures
        r@ == "#ffffff"@,
{
    String::from_str("#ffffff")
}

pub fn default_capture_text_shortcut() -> (r: String)
    ensures
        r@ == "Cmd+Shift+C"@,
{
    String::from_str("Cmd+Shift+C")
}

pub fn default_daily_note_folder() -> (r: String)
    ensures
        r@ == "Journal/"@,
{
    String::from_str("Journal/")
}

pub fn default_daily_note_format() -> (r: String)
    ensures
        r@ == "YYYY-MM-DD"@,
{
    String::from_str("YYYY-MM-DD")
}

impl Default for Settings {
    fn default() -> (r: Self)
        ensures
            r.vault_name@ == "Vault"@,
            r.edge_side@ == "right"@,
            r.window_width == 330,
            r.window_height == 600,
            r.border_radius == 12,
            r.background_color@ == "#1e1e2e"@,
            r.font_family@ == "-apple-system, BlinkMacSystemFont, SF Pro Display"@,
            r.font_size == 15,
            r.daily_note_folder@ == "Journal/"@,
            r.daily_note_format@ == "YYYY-MM-DD"@,
            r.daily_note_path@ == ""@,
            r.image_folder@ == "assets/screenshots"@,
            r.image_filename@ == "screenshot-YYYY-MM-DD-HHmmss"@,
            r.default_image_width@ == "600"@,
            r.entry_header@ == "#### HH:mm"@,
            r.global_shortcut@ == "Cmd+Shift+N"@,
            r.capture_text_shortcut@ == "Cmd+Shift+C"@,
            r.compression_max_kb == 200,
            r.edge_detection_enabled == true,
            r.notes_folder@ == "Notes"@,
            r.save_to_daily_shortcut@ == "Cmd+Enter"@,
            r.save_as_note_shortcut@ == "Cmd+Shift+Enter"@,
            r.note_filename_template@ == "note-YYYY-MM-DD-HHmmss"@,
            r.note_template@ == "---\ncreated: <% tp.date.now(\"YYYY-MM-DD hh:mm\") %>\nmodified: \ndaily: \"[[<% tp.date.now(\"YYYY-MM-DD\") %>]]\"\ntags: inbox\ntype: inbox\n---"@,
            r.window_transparency == 55,
            r.window_blur == 80,
            r.window_saturation == 200,
            r.window_brightness == 0,
            r.autostart_enabled == false,
            r.text_color@ == "#ffffff"@,
    {
        Settings {
            vault_name: String::from_str("Vault"),
            vault_path: default_vault_path(),
            screenshot_path: default_screenshot_path(),
            edge_side: String::from_str("right"),
            window_width: 330,
            window_height: 600,
            border_radius: 12,
            background_color: String::from_str("#1e1e2e"),
            font_family: String::from_str("-apple-system, BlinkMacSystemFont, SF Pro Display"),
            font_size: 15,
            daily_note_folder: default_daily_note_folder(),
            daily_note_format: default_daily_note_format(),
            daily_note_path: String::from_str(""),
            image_folder: String::from_str("assets/screenshots"),
            image_filename: String::from_str("screenshot-YYYY-MM-DD-HHmmss"),
            default_image_width: default_image_width(),
            entry_header: String::from_str("#### HH:mm"),
            global_shortcut: String::from_str("Cmd+Shift+N"),
            capture_text_shortcut: default_capture_text_shortcut(),
            compression_max_kb: 200,
            edge_detection_enabled: true,
            notes_folder: default_notes_folder(),
            save_to_daily_shortcut: default_save_to_daily_shortcut(),
            save_as_note_shortcut: default_save_as_note_shortcut(),
            note_filename_template: default_note_filename_template(),
            note_template: default_note_template(),
            window_transparency: default_window_transparency(),
            window_blur: default_window_blur(),
            window_saturation: default_window_saturation(),
            window_brightness: default_window_brightness(),
            autostart_enabled: default_autostart_enabled(),
            text_color: default_text_color(),
        }
    }
}

/// The path `rel` under `home`, or `fallback` when there is no home
/// directory; joined with one `/` as a relative path is joined to a
/// directory.
pub open spec fn under_home(home: Option<Seq<char>>, rel: Seq<char>, fallback: Seq<char>) -> Seq<char> {
    match home {
        Some(h) => if h.len() == 0 || ends_with(h, "/"@) {
            h + rel
        } else {
            h.push('/') + rel
        },
        None => fallback,
    }
}

/// Relies on `dirs::home_dir`: the user's home directory as text, if it is
/// known.
#[verifier::external_body]
fn home_dir_text() -> (r: Option<String>)
{
    dirs::home_dir().map(|h| h.to_string_lossy().to_string())
}

/// The path `rel` under the home directory `home`, or `fallback` without
/// one.
pub fn path_under_home(home: Option<&str>, rel: &str, fallback: &str) -> (r: String)
    ensures
        r@ == under_home(match home {
            Some(h) => Some(h@),
            None => None,
        }, rel@, fallback@),
{
    proof {
        reveal_strlit("/");
    }
    match home {
        Some(h) => {
            let hc = chars_of(h);
            let ghost hv = hc@;
            let slash = chars_of("/");
            let base = if hc.len() == 0 || ends_with_chars(hc.as_slice(), slash.as_slice()) {
                hc
            } else {
                let b = concat_chars(hc.as_slice(), &['/']);
                assert(b@ =~= hv.push('/'));
                b
            };
            string_from_chars(&concat_chars(base.as_slice(), chars_of(rel).as_slice()))
        },
        None => String::from_str(fallback),
    }
}

fn default_under_home(rel: &str, fallback: &str) -> (r: String)
    ensures
        exists|home: Option<Seq<char>>| r@ == under_home(home, rel@, fallback@),
{
    let home = home_dir_text();
    match home {
        Some(h) => path_under_home(Some(h.as_str()), rel, fallback),
        None => path_under_home(None, rel, fallback),
    }
}

/// The vault folder in the home directory.
pub fn default_vault_path() -> (r: String)
    ensures
        exists|home: Option<Seq<char>>| r@ == under_home(home, "Vault"@, "/Users/Vault"@),
{
    default_under_home("Vault", "/Users/Vault")
}

/// The screenshot folder inside the default vault.
pub fn default_screenshot_path() -> (r: String)
    ensures
        exists|home: Option<Seq<char>>|
            r@ == under_home(home, "Vault/Grafiken/Screenshots"@, "/Users/Vault/Grafiken/Screenshots"@),
{
    default_under_home("Vault/Grafiken/Screenshots", "/Users/Vault/Grafiken/Screenshots")
}

/// Index of the last `/` in `p`.
pub open spec fn last_slash(p: Seq<char>) -> Option<int>
    decreases p.len(),
{
    if p.len() == 0 {
        None
    } else if p.last() == '/' {
        Some(p.len() - 1)
    } else {
        last_slash(p.drop_last())
    }
}

/// `s` without a trailing `.md`.
pub open spec fn without_md(s: Seq<char>) -> Seq<char> {
    if ends_with(s, ".md"@) {
        s.subrange(0, s.len() - 3)
    } else {
        s
    }
}

/// Whether a record still holds only the old single daily-note path.
pub open spec fn needs_daily_migration(s: Settings) -> bool {
    s.daily_note_path@.len() > 0 && s.daily_note_folder@.len() == 0
}

/// The folder part of an old daily-note path: up to and with its last `/`.
pub open spec fn migrated_folder(p: Seq<char>) -> Seq<char> {
    match last_slash(p) {
        Some(k) => p.subrange(0, k + 1),
        None => Seq::<char>::empty(),
    }
}

/// The file-name template of an old daily-note path, without `.md`.
pub open spec fn migrated_format(p: Seq<char>) -> Seq<char> {
    match last_slash(p) {
        Some(k) => without_md(p.subrange(k + 1, p.len() as int)),
        None => without_md(p),
    }
}

proof fn lemma_last_slash_in_range(p: Seq<char>)
    ensures
        last_slash(p) matches Some(k) ==> 0 <= k < p.len() && p[k] == '/',
    decreases p.len(),
{
    if p.len() > 0 {
        lemma_last_slash_in_range(p.drop_last());
    }
}

fn find_last_slash(p: &[char]) -> (r: Option<usize>)
    ensures
        match last_slash(p@) {
            Some(k) => 0 <= k < p@.len() && r == Some(k as usize),
            None => r is None,
        },
        r matches Some(k) ==> k < p@.len(),
{
    let mut j: usize = p.len();
    assert(p@.subrange(0, j as int) == p@);
    proof {
        lemma_last_slash_in_range(p@);
    }
    while j > 0
        invariant
            j <= p@.len(),
            last_slash(p@) == last_slash(p@.subrange(0, j as int)),
        decreases j,
    {
        let ghost pre = p@.subrange(0, j as int);
        assert(pre.drop_last() == p@.subrange(0, j - 1));
        if p[j - 1] == '/' {
            assert(last_slash(pre) == Some(j - 1));
            return Some(j - 1);
        }
        j = j - 1;
    }
    None
}

fn strip_md(s: Vec<char>) -> (r: Vec<char>)
    ensures
        r@ == without_md(s@),
{
    proof {
        reveal_strlit(".md");
    }
    let md = chars_of(".md");
    if ends_with_chars(s.as_slice(), md.as_slice()) {
        sub_chars(s.as_slice(), 0, s.len() - 3)
    } else {
        s
    }
}

impl Settings {
    /// Moves an old single daily-note path into the folder and file-name
    /// template fields, when only the old field is set; says whether it did.
    pub fn migrate_daily_note_path(&mut self) -> (changed: bool)
        ensures
            changed == needs_daily_migration(*old(self)),
            changed ==> final(self).daily_note_folder@ == migrated_folder(old(self).daily_note_path@),
            changed ==> final(self).daily_note_format@ == migrated_format(old(self).daily_note_path@),
            changed ==> final(self).daily_note_path@.len() == 0,
            changed ==> same_except_daily_note(*final(self), *old(self)),
            !changed ==> *final(self) == *old(self),
    {
        let p = chars_of(self.daily_note_path.as_str());
        if p.len() == 0 || self.daily_note_folder.unicode_len() != 0 {
            return false;
        }
        match find_last_slash(p.as_slice()) {
            Some(k) => {
                self.daily_note_folder = string_from_chars(&sub_chars(p.as_slice(), 0, k + 1));
                let name = sub_chars(p.as_slice(), k + 1, p.len());
                self.daily_note_format = string_from_chars(&strip_md(name));
            },
            None => {
                let ghost empty_folder = self.daily_note_folder@;
                assert(empty_folder =~= Seq::<char>::empty());
                self.daily_note_format = string_from_chars(&strip_md(p));
            },
        }
        self.daily_note_path = String::new();
        true
    }
}

pub open spec fn is_digit(c: char) -> bool {
    '0' <= c && c <= '9'
}

pub open spec fn digit_value(c: char) -> nat {
    if c == '0' {
        0
    } else     if c == '1' {
        1
    } else     if c == '2' {
        2
    } else     if c == '3' {
        3
    } else     if c == '4' {
        4
    } else     if c == '5' {
        5
    } else     if c == '6' {
        6
    } else     if c == '7' {
        7
    } else     if c == '8' {
        8
    } else {
        9
    }
}

fn digit_value_of(c: char) -> (r: u64)
    requires
        is_digit(c),
    ensures
        r == digit_value(c),
{
    match c {
        '0' => 0,
        '1' => 1,
        '2' => 2,
        '3' => 3,
        '4' => 4,
        '5' => 5,
        '6' => 6,
        '7' => 7,
        '8' => 8,
        _ => 9,
    }
}

/// The number written by a run of decimal digits.
pub open spec fn digits_value(d: Seq<char>) -> nat
    decreases d.len(),
{
    if d.len() == 0 {
        0
    } else {
        digits_value(d.drop_last()) * 10 + digit_value(d.last())
    }
}

pub open spec fn sign_stripped(s: Seq<char>) -> Seq<char> {
    if s.len() > 0 && s[0] == '+' {
        s.drop_first()
    } else {
        s
    }
}

pub open spec fn all_digits(s: Seq<char>) -> bool {
    forall|i: int| 0 <= i < s.len() ==> is_digit(#[trigger] s[i])
}

/// What `u32`'s `FromStr` accepts: an optional `+`, then at least one
/// decimal digit, for a value that fits in 32 bits.
pub open spec fn parse_u32(s: Seq<char>) -> Option<nat> {
    let body = sign_stripped(s);
    if body.len() > 0 && all_digits(body) && digits_value(body) <= u32::MAX {
        Some(digits_value(body))
    } else {
        None
    }
}

proof fn lemma_digits_value_prefix(d: Seq<char>, i: int)
    requires
        0 <= i <= d.len(),
        all_digits(d),
    ensures
        digits_value(d.subrange(0, i)) <= digits_value(d),
    decreases d.len(),
{
    if i < d.len() {
        let e = d.drop_last();
        assert(all_digits(e)) by {
            assert(forall|k: int| 0 <= k < e.len() ==> e[k] == d[k]);
        }
        lemma_digits_value_prefix(e, i);
        assert(e.subrange(0, i) == d.subrange(0, i));
    } else {
        assert(d.subrange(0, i) == d);
    }
}

/// Reads a `u32` as `FromStr` does.
pub fn parse_u32_chars(s: &[char]) -> (r: Option<u32>)
    ensures
        match parse_u32(s@) {
            Some(v) => r == Some(v as u32),
            None => r is None,
        },
{
    let n = s.len();
    let start: usize = if n > 0 && s[0] == '+' {
        1
    } else {
        0
    };
    let ghost body = sign_stripped(s@);
    assert(body == s@.subrange(start as int, n as int));
    if start >= n {
        return None;
    }
    let mut k: usize = start;
    while k < n
        invariant
            start <= k <= n,
            n == s@.len(),
            body == s@.subrange(start as int, n as int),
            body == sign_stripped(s@),
            forall|j: int| start <= j < k ==> is_digit(#[trigger] s@[j]),
        decreases n - k,
    {
        if !('0' <= s[k] && s[k] <= '9') {
            assert(body[k - start] == s@[k as int]);
            assert(!is_digit(body[k - start]));
            return None;
        }
        k = k + 1;
    }
    assert(all_digits(body)) by {
        assert(forall|j: int| 0 <= j < body.len() ==> body[j] == s@[start + j]);
    }
    let mut val: u64 = 0;
    let mut i: usize = start;
    while i < n
        invariant
            start <= i <= n,
            n == s@.len(),
            body == s@.subrange(start as int, n as int),
            body == sign_stripped(s@),
            all_digits(body),
            val == digits_value(body.subrange(0, i - start)),
            val <= u32::MAX,
        decreases n - i,
    {
        assert(body[i - start] == s@[i as int]);
        let d = digit_value_of(s[i]);
        assert(body.subrange(0, i + 1 - start).drop_last() == body.subrange(0, i - start));
        let next = val * 10 + d;
        if next > 4294967295u64 {
            proof {
                lemma_digits_value_prefix(body, i + 1 - start);
            }
            return None;
        }
        val = next;
        i = i + 1;
    }
    assert(body.subrange(0, n - start) == body);
    Some(val as u32)
}

pub open spec fn edge_side_msg() -> Seq<char> {
    "edge_side must be 'left' or 'right'"@
}

pub open spec fn image_width_msg() -> Seq<char> {
    "default_image_width must be empty or a positive number"@
}

/// Whether a non-empty shortcut field fails the shortcut syntax.
pub open spec fn shortcut_field_error(s: Seq<char>) -> Option<Seq<char>> {
    if trim(s).len() != 0 {
        shortcut_error(s)
    } else {
        None
    }
}

/// The first rule a configuration breaks, as the message shown to the user.
pub open spec fn settings_error(s: Settings) -> Option<Seq<char>> {
    if s.edge_side@ != "left"@ && s.edge_side@ != "right"@ {
        Some(edge_side_msg())
    } else if s.window_width < 200 || s.window_width > 800 {
        Some("window_width must be between 200 and 800"@)
    } else if s.window_height < 80 || s.window_height > 1200 {
        Some("window_height must be between 80 and 1200"@)
    } else if s.border_radius > 30 {
        Some("border_radius must be between 0 and 30"@)
    } else if s.font_size < 10 || s.font_size > 24 {
        Some("font_size must be between 10 and 24"@)
    } else if s.compression_max_kb < 50 || s.compression_max_kb > 2000 {
        Some("compression_max_kb must be between 50 and 2000"@)
    } else if trim(s.default_image_width@).len() != 0 && !(parse_u32(trim(s.default_image_width@)) matches Some(w) && w != 0) {
        Some(image_width_msg())
    } else if trim(s.vault_name@).len() == 0 {
        Some("vault_name cannot be empty"@)
    } else if shortcut_field_error(s.global_shortcut@) is Some {
        shortcut_field_error(s.global_shortcut@)
    } else if shortcut_field_error(s.capture_text_shortcut@) is Some {
        shortcut_field_error(s.capture_text_shortcut@)
    } else if shortcut_field_error(s.save_as_note_shortcut@) is Some {
        shortcut_field_error(s.save_as_note_shortcut@)
    } else if s.window_transparency > 100 {
        Some("window_transparency must be between 0 and 100"@)
    } else if s.window_blur > 200 {
        Some("window_blur must be between 0 and 200"@)
    } else if s.window_saturation > 300 {
        Some("window_saturation must be between 0 and 300"@)
    } else if s.window_brightness < -100 || s.window_brightness > 100 {
        Some("window_brightness must be between -100 and 100"@)
    } else {
        None
    }
}

fn err(msg: &str) -> (r: Result<(), String>)
    ensures
        r matches Err(e) && e@ == msg@,
{
    Err(String::from_str(msg))
}

fn is_blank(s: &str) -> (r: bool)
    ensures
        r == (trim(s@).len() == 0),
{
    let t = trim_chars(chars_of(s).as_slice());
    t.len() == 0
}

fn check_shortcut_field(s: &str) -> (r: Result<(), String>)
    ensures
        match shortcut_field_error(s@) {
            None => r is Ok,
            Some(msg) => r matches Err(e) && e@ == msg,
        },
{
    if !is_blank(s) {
        validate_shortcut(s)
    } else {
        Ok(())
    }
}

impl Settings {
    /// Checks every field against its allowed range or syntax and names the
    /// first one that is off.
    pub fn validate(&self) -> (r: Result<(), String>)
        ensures
            match settings_error(*self) {
                None => r is Ok,
                Some(msg) => r matches Err(e) && e@ == msg,
            },
    {
        let side = chars_of(self.edge_side.as_str());
        if !eq_chars(side.as_slice(), "left") && !eq_chars(side.as_slice(), "right") {
            return err("edge_side must be 'left' or 'right'");
        }
        if self.window_width < 200 || self.window_width > 800 {
            return err("window_width must be between 200 and 800");
        }
        if self.window_height < 80 || self.window_height > 1200 {
            return err("window_height must be between 80 and 1200");
        }
        if self.border_radius > 30 {
            return err("border_radius must be between 0 and 30");
        }
        if self.font_size < 10 || self.font_size > 24 {
            return err("font_size must be between 10 and 24");
        }
        if self.compression_max_kb < 50 || self.compression_max_kb > 2000 {
            return err("compression_max_kb must be between 50 and 2000");
        }
        let width = trim_chars(chars_of(self.default_image_width.as_str()).as_slice());
        if width.len() != 0 {
            match parse_u32_chars(width.as_slice()) {
                Some(w) => {
                    if w == 0 {
                        return err("default_image_width must be empty or a positive number");
                    }
                },
                None => {
                    return err("default_image_width must be empty or a positive number");
                },
            }
        }
        if is_blank(self.vault_name.as_str()) {
            return err("vault_name cannot be empty");
        }
        let r1 = check_shortcut_field(self.global_shortcut.as_str());
        if r1.is_err() {
            return r1;
        }
        let r2 = check_shortcut_field(self.capture_text_shortcut.as_str());
        if r2.is_err() {
            return r2;
        }
        let r3 = check_shortcut_field(self.save_as_note_shortcut.as_str());
        if r3.is_err() {
            return r3;
        }
        if self.window_transparency > 100 {
            return err("window_transparency must be between 0 and 100");
        }
        if self.window_blur > 200 {
            return err("window_blur must be between 0 and 200");
        }
        if self.window_saturation > 300 {
            return err("window_saturation must be between 0 and 300");
        }
        if self.window_brightness < -100 || self.window_brightness > 100 {
            return err("window_brightness must be between -100 and 100");
        }
        Ok(())
    }
}

} // verus!
