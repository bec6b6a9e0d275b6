//! Shortcut strings: their canonical form, their syntax, and the
//! single-binding lifecycle of one shortcut role.

use vstd::prelude::*;
use crate::settings::Settings;
use crate::text::{
    ascii_lower, ascii_lower_chars, ascii_lowered, chars_of, eq_chars, eq_ignore_ascii_case, eq_ignore_case_chars, is_ws, join_chars, join_with,
    split_chars, split_on, string_from_chars, trim, trim_chars, trim_end, trim_start, views,
};

verus! {

pub const KEY_COUNT: usize = 62;

/// The key names a shortcut may end in, by index.
pub open spec fn key_name(i: nat) -> Seq<char> {
    if i == 0 {
        "A"@
    } else     if i == 1 {
        "B"@
    } else     if i == 2 {
        "C"@
    } else     if i == 3 {
        "D"@
    } else     if i == 4 {
        "E"@
    } else     if i == 5 {
        "F"@
    } else     if i == 6 {
        "G"@
    } else     if i == 7 {
        "H"@
    } else     if i == 8 {
        "I"@
    } else     if i == 9 {
        "J"@
    } else     if i == 10 {
        "K"@
    } else     if i == 11 {
        "L"@
    } else     if i == 12 {
        "M"@
    } else     if i == 13 {
        "N"@
    } else     if i == 14 {
        "O"@
    } else     if i == 15 {
        "P"@
    } else     if i == 16 {
        "Q"@
    } else     if i == 17 {
        "R"@
    } else     if i == 18 {
        "S"@
    } else     if i == 19 {
        "T"@
    } else     if i == 20 {
        "U"@
    } else     if i == 21 {
        "V"@
    } else     if i == 22 {
        "W"@
    } else     if i == 23 {
        "X"@
    } else     if i == 24 {
        "Y"@
    } else     if i == 25 {
        "Z"@
    } else     if i == 26 {
        "0"@
    } else     if i == 27 {
        "1"@
    } else     if i == 28 {
        "2"@
    } else     if i == 29 {
        "3"@
    } else     if i == 30 {
        "4"@
    } else     if i == 31 {
        "5"@
    } else     if i == 32 {
        "6"@
    } else     if i == 33 {
        "7"@
    } else     if i == 34 {
        "8"@
    } else     if i == 35 {
        "9"@
    } else     if i == 36 {
        "F1"@
    } else     if i == 37 {
        "F2"@
    } else     if i == 38 {
        "F3"@
    } else     if i == 39 {
        "F4"@
    } else     if i == 40 {
        "F5"@
    } else     if i == 41 {
        "F6"@
    } else     if i == 42 {
        "F7"@
    } else     if i == 43 {
        "F8"@
    } else     if i == 44 {
        "F9"@
    } else     if i == 45 {
        "F10"@
    } else     if i == 46 {
        "F11"@
    } else     if i == 47 {
        "F12"@
    } else     if i == 48 {
        "Space"@
    } else     if i == 49 {
        "Tab"@
    } else     if i == 50 {
        "Enter"@
    } else     if i == 51 {
        "Escape"@
    } else     if i == 52 {
        "Backspace"@
    } else     if i == 53 {
        "Delete"@
    } else     if i == 54 {
        "Up"@
    } else     if i == 55 {
        "Down"@
    } else     if i == 56 {
        "Left"@
    } else     if i == 57 {
        "Right"@
    } else     if i == 58 {
        "Home"@
    } else     if i == 59 {
        "End"@
    } else     if i == 60 {
        "PageUp"@
    } else {
        "PageDown"@
    }
}

fn key_name_str(i: usize) -> (r: &'static str)
    requires
        i < KEY_COUNT,
    ensures
        r@ == key_name(i as nat),
{
    match i {
        0 => "A",
        1 => "B",
        2 => "C",
        3 => "D",
        4 => "E",
        5 => "F",
        6 => "G",
        7 => "H",
        8 => "I",
        9 => "J",
        10 => "K",
        11 => "L",
        12 => "M",
        13 => "N",
        14 => "O",
        15 => "P",
        16 => "Q",
        17 => "R",
        18 => "S",
        19 => "T",
        20 => "U",
        21 => "V",
        22 => "W",
        23 => "X",
        24 => "Y",
        25 => "Z",
        26 => "0",
        27 => "1",
        28 => "2",
        29 => "3",
        30 => "4",
        31 => "5",
        32 => "6",
        33 => "7",
        34 => "8",
        35 => "9",
        36 => "F1",
        37 => "F2",
        38 => "F3",
        39 => "F4",
        40 => "F5",
        41 => "F6",
        42 => "F7",
        43 => "F8",
        44 => "F9",
        45 => "F10",
        46 => "F11",
        47 => "F12",
        48 => "Space",
        49 => "Tab",
        50 => "Enter",
        51 => "Escape",
        52 => "Backspace",
        53 => "Delete",
        54 => "Up",
        55 => "Down",
        56 => "Left",
        57 => "Right",
        58 => "Home",
        59 => "End",
        60 => "PageUp",
        _ => "PageDown",
    }
}

/// The first key name, from index `i` on, that `t` spells up to ASCII case.
pub open spec fn key_index_from(t: Seq<char>, i: nat) -> Option<nat>
    decreases KEY_COUNT - i,
{
    if i >= KEY_COUNT {
        None
    } else if eq_ignore_ascii_case(t, key_name(i)) {
        Some(i)
    } else {
        key_index_from(t, i + 1)
    }
}

pub open spec fn is_primary_alias(t: Seq<char>) -> bool {
    ||| eq_ignore_ascii_case(t, "Cmd"@)
    ||| eq_ignore_ascii_case(t, "Command"@)
    ||| eq_ignore_ascii_case(t, "Ctrl"@)
    ||| eq_ignore_ascii_case(t, "Control"@)
    ||| eq_ignore_ascii_case(t, "CommandOrControl"@)
}

pub open spec fn is_alt_alias(t: Seq<char>) -> bool {
    ||| eq_ignore_ascii_case(t, "Option"@)
    ||| eq_ignore_ascii_case(t, "Opt"@)
    ||| eq_ignore_ascii_case(t, "Alt"@)
}

/// The canonical spelling of one trimmed token of a shortcut: modifier
/// aliases and key names take their canonical names, any other token is
/// lowered to ASCII lower case.
pub open spec fn canonical_token(t: Seq<char>) -> Seq<char> {
    if t.len() == 0 {
        t
    } else if is_primary_alias(t) {
        "CommandOrControl"@
    } else if is_alt_alias(t) {
        "Alt"@
    } else if eq_ignore_ascii_case(t, "Shift"@) {
        "Shift"@
    } else if eq_ignore_ascii_case(t, "Super"@) {
        "Super"@
    } else {
        match key_index_from(t, 0) {
            Some(i) => key_name(i),
            None => ascii_lowered(t),
        }
    }
}

/// The canonical tokens of a shortcut string, split at `+`.
pub open spec fn canonical_tokens(s: Seq<char>) -> Seq<Seq<char>> {
    split_on(s, '+').map_values(|t: Seq<char>| canonical_token(trim(t)))
}

/// The canonical form of a shortcut string.
pub open spec fn normalized(s: Seq<char>) -> Seq<char> {
    join_with(canonical_tokens(s), '+')
}

pub open spec fn is_modifier_name(t: Seq<char>) -> bool {
    t == "CommandOrControl"@ || t == "Shift"@ || t == "Alt"@ || t == "Super"@
}

pub open spec fn is_key_token(t: Seq<char>) -> bool {
    key_index_from(t, 0) is Some
}

pub open spec fn too_short_msg() -> Seq<char> {
    "Shortcut must contain at least one modifier and one key"@
}

pub open spec fn no_modifier_msg() -> Seq<char> {
    "Shortcut must contain at least one modifier (Cmd, Shift, Alt)"@
}

pub open spec fn no_key_msg() -> Seq<char> {
    "Shortcut must contain a valid key"@
}

pub open spec fn misplaced_msg() -> Seq<char> {
    "Shortcut must list its modifiers before a single key"@
}

/// What is wrong with a shortcut string, if anything: fewer than two
/// tokens, no modifier at all, no key at all, and only then an order other
/// than `Modifier(+Modifier)*+Key` (every token but the last a modifier, the
/// last a key).
pub open spec fn shortcut_error(s: Seq<char>) -> Option<Seq<char>> {
    let toks = canonical_tokens(s);
    let n = toks.len();
    if n < 2 {
        Some(too_short_msg())
    } else if !(exists|i: int| 0 <= i < n && is_modifier_name(#[trigger] toks[i])) {
        Some(no_modifier_msg())
    } else if !(exists|i: int| 0 <= i < n && !is_modifier_name(#[trigger] toks[i]) && is_key_token(toks[i])) {
        Some(no_key_msg())
    } else if !((forall|i: int| 0 <= i < n - 1 ==> is_modifier_name(#[trigger] toks[i])) && is_key_token(toks[n - 1])) {
        Some(misplaced_msg())
    } else {
        None
    }
}

/// The index of the first key name, from `i` on, that `t` spells.
fn find_key(t: &[char], i: usize) -> (r: Option<usize>)
    requires
        i <= KEY_COUNT,
    ensures
        match key_index_from(t@, i as nat) {
            Some(k) => k < KEY_COUNT && r == Some(k as usize),
            None => r is None,
        },
    decreases KEY_COUNT - i,
{
    if i >= KEY_COUNT {
        None
    } else if eq_ignore_case_chars(t, key_name_str(i)) {
        Some(i)
    } else {
        find_key(t, i + 1)
    }
}

fn is_primary_alias_chars(t: &[char]) -> (r: bool)
    ensures
        r == is_primary_alias(t@),
{
    eq_ignore_case_chars(t, "Cmd") || eq_ignore_case_chars(t, "Command") || eq_ignore_case_chars(
        t,
        "Ctrl",
    ) || eq_ignore_case_chars(t, "Control") || eq_ignore_case_chars(t, "CommandOrControl")
}

fn is_alt_alias_chars(t: &[char]) -> (r: bool)
    ensures
        r == is_alt_alias(t@),
{
    eq_ignore_case_chars(t, "Option") || eq_ignore_case_chars(t, "Opt") || eq_ignore_case_chars(
        t,
        "Alt",
    )
}

/// The canonical spelling of one token, trimmed first.
fn canonical_token_chars(raw: &[char]) -> (r: Vec<char>)
    ensures
        r@ == canonical_token(trim(raw@)),
{
    let t = trim_chars(raw);
    if t.len() == 0 {
        t
    } else if is_primary_alias_chars(t.as_slice()) {
        chars_of("CommandOrControl")
    } else if is_alt_alias_chars(t.as_slice()) {
        chars_of("Alt")
    } else if eq_ignore_case_chars(t.as_slice(), "Shift") {
        chars_of("Shift")
    } else if eq_ignore_case_chars(t.as_slice(), "Super") {
        chars_of("Super")
    } else {
        match find_key(t.as_slice(), 0) {
            Some(k) => chars_of(key_name_str(k)),
            None => ascii_lower_chars(t.as_slice()),
        }
    }
}

/// The canonical tokens of `s`.
fn canonical_token_list(s: &str) -> (r: Vec<Vec<char>>)
    ensures
        views(r@) == canonical_tokens(s@),
{
    let chars = chars_of(s);
    let raw = split_chars(chars.as_slice(), '+');
    let ghost pieces = split_on(s@, '+');
    let mut out: Vec<Vec<char>> = Vec::new();
    let mut i: usize = 0;
    while i < raw.len()
        invariant
            views(raw@) == pieces,
            i <= raw@.len(),
            views(out@).len() == i,
            forall|j: int| 0 <= j < i ==> views(out@)[j] == canonical_token(trim(pieces[j])),
        decreases raw@.len() - i,
    {
        let tok = canonical_token_chars(raw[i].as_slice());
        proof {
            assert(raw@[i as int]@ == pieces[i as int]);
        }
        let ghost prior = views(out@);
        let ghost tv = tok@;
        out.push(tok);
        assert(views(out@) =~= prior.push(tv));
        i = i + 1;
    }
    assert(views(out@) =~= canonical_tokens(s@));
    out
}

/// The canonical form of a shortcut string: platform aliases become one
/// token (`Cmd`, `Command`, `Ctrl`, `Control` give `CommandOrControl`;
/// `Option`, `Opt` give `Alt`), known names take their canonical case, and
/// white space around each token is dropped.
pub fn normalize_shortcut(shortcut: &str) -> (r: String)
    ensures
        r@ == normalized(shortcut@),
{
    let toks = canonical_token_list(shortcut);
    let joined = join_chars(&toks, '+');
    string_from_chars(&joined)
}

fn is_modifier_chars(t: &[char]) -> (r: bool)
    ensures
        r == is_modifier_name(t@),
{
    eq_chars(t, "CommandOrControl") || eq_chars(t, "Shift") || eq_chars(t, "Alt") || eq_chars(
        t,
        "Super",
    )
}

/// Checks that a shortcut holds at least one modifier and one key.
pub fn validate_shortcut(shortcut: &str) -> (r: Result<(), String>)
    ensures
        match shortcut_error(shortcut@) {
            None => r is Ok,
            Some(msg) => r matches Err(e) && e@ == msg,
        },
{
    let toks = canonical_token_list(shortcut);
    let ghost ts = canonical_tokens(shortcut@);
    if toks.len() < 2 {
        return Err(String::from_str("Shortcut must contain at least one modifier and one key"));
    }
    let last = toks.len() - 1;
    let mut has_modifier = false;
    let mut has_key = false;
    let mut leading_modifiers = true;
    let mut i: usize = 0;
    while i < toks.len()
        invariant
            views(toks@) == ts,
            last == toks@.len() - 1,
            i <= toks@.len(),
            has_modifier == (exists|j: int| 0 <= j < i && is_modifier_name(#[trigger] ts[j])),
            has_key == (exists|j: int| 0 <= j < i && !is_modifier_name(#[trigger] ts[j]) && is_key_token(ts[j])),
            leading_modifiers == (forall|j: int| 0 <= j < i && j < last ==> is_modifier_name(#[trigger] ts[j])),
        decreases toks@.len() - i,
    {
        let part = toks[i].as_slice();
        proof {
            assert(toks@[i as int]@ == ts[i as int]);
        }
        if is_modifier_chars(part) {
            has_modifier = true;
        } else {
            if find_key(part, 0).is_some() {
                has_key = true;
            }
            if i < last {
                leading_modifiers = false;
            }
        }
        i = i + 1;
    }
    if !has_modifier {
        return Err(String::from_str("Shortcut must contain at least one modifier (Cmd, Shift, Alt)"));
    }
    if !has_key {
        return Err(String::from_str("Shortcut must contain a valid key"));
    }
    proof {
        assert(toks@[last as int]@ == ts[last as int]);
    }
    if !leading_modifiers || find_key(toks[last].as_slice(), 0).is_none() {
        return Err(String::from_str("Shortcut must list its modifiers before a single key"));
    }
    Ok(())
}

/// What a shortcut manager holds: the combination registered with the
/// system, and one whose registration was asked for and not yet confirmed.
pub struct BindingView {
    pub current: Option<Seq<char>>,
    pub pending: Option<Seq<char>>,
    /// The combination released for the pending one, to be registered
    /// again if the pending one is refused.
    pub previous: Option<Seq<char>>,
}

/// A manager never holds two registrations at once.
pub open spec fn single_binding(v: BindingView) -> bool {
    !(v.current is Some && v.pending is Some)
}

/// What binding a combination asks of the system.
pub enum PlannedBind {
    /// Unregister `release`, if any, and hold nothing.
    Clear { release: Option<Seq<char>> },
    /// The combination is already registered.
    Keep,
    /// Unregister `release`, if any, then register `acquire`.
    Replace { release: Option<Seq<char>>, acquire: Seq<char> },
    /// The combination breaks the shortcut syntax; nothing changes.
    Invalid { message: Seq<char> },
}

pub open spec fn planned_bind(v: BindingView, requested: Seq<char>) -> PlannedBind {
    let n = normalized(requested);
    if trim(n).len() == 0 {
        PlannedBind::Clear { release: v.current }
    } else if v.current == Some(n) {
        PlannedBind::Keep
    } else {
        match shortcut_error(requested) {
            Some(m) => PlannedBind::Invalid { message: m },
            None => PlannedBind::Replace { release: v.current, acquire: n },
        }
    }
}

pub open spec fn after_bind(v: BindingView, requested: Seq<char>) -> BindingView {
    match planned_bind(v, requested) {
        PlannedBind::Clear { .. } => BindingView { current: None, pending: None, previous: None },
        PlannedBind::Replace { acquire, .. } => BindingView {
            current: None,
            pending: Some(acquire),
            previous: v.current,
        },
        _ => v,
    }
}

/// The state once the system has answered a pending registration. An
/// accepted one becomes current. When a new combination is refused, the one
/// released for it becomes pending again, so that the role keeps its
/// previous shortcut; when that too is refused, the role holds nothing.
pub open spec fn after_completion(v: BindingView, registered: bool) -> BindingView {
    match v.pending {
        None => v,
        Some(p) => if registered {
            BindingView { current: Some(p), pending: None, previous: None }
        } else {
            BindingView { current: None, pending: v.previous, previous: None }
        },
    }
}

/// The combination the caller is asked to register again after the system
/// refused the pending one.
pub open spec fn restore_request(v: BindingView, registered: bool) -> Option<Seq<char>> {
    if v.pending is Some && !registered {
        v.previous
    } else {
        None
    }
}

pub open spec fn opt_view(o: Option<String>) -> Option<Seq<char>> {
    match o {
        Some(s) => Some(s@),
        None => None,
    }
}

/// The work a bind hands to the caller, who talks to the system.
pub enum BindAction {
    /// Unregister `release`, if any; the role is now disabled.
    Clear { release: Option<String> },
    /// Nothing to do.
    Keep,
    /// Unregister `release`, if any, register `acquire`, then report the
    /// outcome with `finish_bind`, which may ask to register `release` again.
    Replace { release: Option<String>, acquire: String },
}

#[derive(Debug)]
pub enum BindError {
    InvalidSyntax(String),
}

pub open spec fn bind_result_is(r: Result<BindAction, BindError>, p: PlannedBind) -> bool {
    match p {
        PlannedBind::Clear { release } => r matches Ok(BindAction::Clear { release: got }) && opt_view(got) == release,
        PlannedBind::Keep => r matches Ok(BindAction::Keep),
        PlannedBind::Replace { release, acquire } => r matches Ok(BindAction::Replace { release: got, acquire: a })
            && opt_view(got) == release && a@ == acquire,
        PlannedBind::Invalid { message } => r matches Err(BindError::InvalidSyntax(m)) && m@ == message,
    }
}

/// The one system-wide shortcut of one role.
pub struct ShortcutManager {
    current_shortcut: Option<String>,
    pending_shortcut: Option<String>,
    previous_shortcut: Option<String>,
}

impl View for ShortcutManager {
    type V = BindingView;

    closed spec fn view(&self) -> BindingView {
        BindingView {
            current: opt_view(self.current_shortcut),
            pending: opt_view(self.pending_shortcut),
            previous: opt_view(self.previous_shortcut),
        }
    }
}

fn copy_opt(o: &Option<String>) -> (r: Option<String>)
    ensures
        opt_view(r) == opt_view(*o),
{
    match o {
        Some(s) => Some(s.clone()),
        None => None,
    }
}

fn same_text(a: &str, b: &str) -> (r: bool)
    ensures
        r == (a@ == b@),
{
    eq_chars(chars_of(a).as_slice(), b)
}

impl ShortcutManager {
    /// A manager holds at most one registration: a confirmed one or a
    /// pending one.
    #[verifier::type_invariant]
    spec fn holds_one_binding(self) -> bool {
        !(self.current_shortcut is Some && self.pending_shortcut is Some)
    }

    pub fn new() -> (r: Self)
        ensures
            single_binding(r@),
            r@.current is None,
            r@.pending is None,
            r@.previous is None,
    {
        ShortcutManager { current_shortcut: None, pending_shortcut: None, previous_shortcut: None }
    }

    /// Plans the binding of `combination` for this role. An empty
    /// combination disables the role; the combination already held is kept
    /// without asking the system anything; otherwise the new combination is
    /// checked and, if valid, the old one is to be released and the new one
    /// registered.
    pub fn bind(&mut self, combination: &str) -> (r: Result<BindAction, BindError>)
        ensures
            single_binding(old(self)@),
            single_binding(final(self)@),
            final(self)@ == after_bind(old(self)@, combination@),
            bind_result_is(r, planned_bind(old(self)@, combination@)),
    {
        proof {
            use_type_invariant(&*self);
        }
        let n = normalize_shortcut(combination);
        let t = trim_chars(chars_of(n.as_str()).as_slice());
        if t.len() == 0 {
            let release = copy_opt(&self.current_shortcut);
            self.current_shortcut = None;
            self.pending_shortcut = None;
            self.previous_shortcut = None;
            return Ok(BindAction::Clear { release });
        }
        let unchanged = match &self.current_shortcut {
            Some(cur) => same_text(cur.as_str(), n.as_str()),
            None => false,
        };
        if unchanged {
            return Ok(BindAction::Keep);
        }
        match validate_shortcut(combination) {
            Err(m) => {
                return Err(BindError::InvalidSyntax(m));
            },
            Ok(()) => {},
        }
        let release = copy_opt(&self.current_shortcut);
        let acquire = n.clone();
        self.previous_shortcut = copy_opt(&self.current_shortcut);
        self.current_shortcut = None;
        self.pending_shortcut = Some(n);
        Ok(BindAction::Replace { release, acquire })
    }

    /// Records whether the system accepted the pending registration. When it
    /// refused a new combination, returns the released one, which the caller
    /// registers again and reports on with another `finish_bind`.
    pub fn finish_bind(&mut self, registered: bool) -> (r: Option<String>)
        ensures
            single_binding(old(self)@),
            single_binding(final(self)@),
            final(self)@ == after_completion(old(self)@, registered),
            opt_view(r) == restore_request(old(self)@, registered),
    {
        proof {
            use_type_invariant(&*self);
        }
        match &self.pending_shortcut {
            Some(p) => {
                if registered {
                    let accepted = p.clone();
                    self.pending_shortcut = None;
                    self.previous_shortcut = None;
                    self.current_shortcut = Some(accepted);
                    None
                } else {
                    let again = copy_opt(&self.previous_shortcut);
                    self.current_shortcut = None;
                    self.pending_shortcut = copy_opt(&self.previous_shortcut);
                    self.previous_shortcut = None;
                    again
                }
            },
            None => None,
        }
    }

    /// Binds the open-capture shortcut of `settings`.
    pub fn register(&mut self, settings: &Settings) -> (r: Result<BindAction, BindError>)
        ensures
            single_binding(old(self)@),
            single_binding(final(self)@),
            final(self)@ == after_bind(old(self)@, settings.global_shortcut@),
            bind_result_is(r, planned_bind(old(self)@, settings.global_shortcut@)),
    {
        proof {
            use_type_invariant(&*self);
        }
        self.bind(settings.global_shortcut.as_str())
    }

    /// Rebinds the open-capture shortcut after a settings change.
    pub fn update(&mut self, settings: &Settings) -> (r: Result<BindAction, BindError>)
        ensures
            single_binding(old(self)@),
            single_binding(final(self)@),
            final(self)@ == after_bind(old(self)@, settings.global_shortcut@),
            bind_result_is(r, planned_bind(old(self)@, settings.global_shortcut@)),
    {
        proof {
            use_type_invariant(&*self);
        }
        self.register(settings)
    }

    /// Binds the capture-text shortcut of `settings`.
    pub fn register_capture_text(&mut self, settings: &Settings) -> (r: Result<BindAction, BindError>)
        ensures
            single_binding(old(self)@),
            single_binding(final(self)@),
            final(self)@ == after_bind(old(self)@, settings.capture_text_shortcut@),
            bind_result_is(r, planned_bind(old(self)@, settings.capture_text_shortcut@)),
    {
        proof {
            use_type_invariant(&*self);
        }
        self.bind(settings.capture_text_shortcut.as_str())
    }

    /// Binds the save-as-note shortcut of `settings`.
    pub fn register_save_as_note(&mut self, settings: &Settings) -> (r: Result<BindAction, BindError>)
        ensures
            single_binding(old(self)@),
            single_binding(final(self)@),
            final(self)@ == after_bind(old(self)@, settings.save_as_note_shortcut@),
            bind_result_is(r, planned_bind(old(self)@, settings.save_as_note_shortcut@)),
    {
        proof {
            use_type_invariant(&*self);
        }
        self.bind(settings.save_as_note_shortcut.as_str())
    }

    /// Drops the registered combination and hands it back for the caller to
    /// unregister.
    pub fn unregister(&mut self) -> (r: Option<String>)
        ensures
            single_binding(old(self)@),
            single_binding(final(self)@),
            opt_view(r) == old(self)@.current,
            final(self)@.current is None,
            final(self)@.pending is None,
            final(self)@.previous is None,
    {
        proof {
            use_type_invariant(&*self);
        }
        let r = copy_opt(&self.current_shortcut);
        self.current_shortcut = None;
        self.pending_shortcut = None;
        self.previous_shortcut = None;
        r
    }

    /// The combination registered with the system, if any.
    pub fn current(&self) -> (r: Option<String>)
        ensures
            single_binding(self@),
            opt_view(r) == self@.current,
    {
        proof {
            use_type_invariant(self);
        }
        copy_opt(&self.current_shortcut)
    }
}

proof fn lemma_split_without_sep(s: Seq<char>, sep: char)
    requires
        forall|i: int| 0 <= i < s.len() ==> s[i] != sep,
    ensures
        split_on(s, sep) == seq![s],
    decreases s.len(),
{
    if s.len() > 0 {
        lemma_split_without_sep(s.drop_last(), sep);
        let init = seq![s.drop_last()];
        assert(s.drop_last().push(s.last()) =~= s);
        assert(s.last() != sep);
        assert(init.update(0, init.last().push(s.last())) =~= seq![s]);
    } else {
        assert(s =~= Seq::<char>::empty());
    }
}

proof fn lemma_trim_start_blank(s: Seq<char>)
    requires
        forall|i: int| 0 <= i < s.len() ==> is_ws(#[trigger] s[i]),
    ensures
        trim_start(s).len() == 0,
    decreases s.len(),
{
    if s.len() > 0 {
        lemma_trim_start_blank(s.drop_first());
    }
}

/// Binding a blank combination, the empty one included, leaves the role with
/// no binding at all, whatever it held before; the old one is released.
pub proof fn lemma_blank_binding_clears(v: BindingView, requested: Seq<char>)
    requires
        forall|i: int| 0 <= i < requested.len() ==> is_ws(#[trigger] requested[i]),
    ensures
        planned_bind(v, requested) == (PlannedBind::Clear { release: v.current }),
        after_bind(v, requested).current is None,
        after_bind(v, requested).pending is None,
{
    assert forall|i: int| 0 <= i < requested.len() implies requested[i] != '+' by {
        assert(is_ws(requested[i]));
    }
    lemma_split_without_sep(requested, '+');
    lemma_trim_start_blank(requested);
    assert(trim(requested).len() == 0);
    let toks = canonical_tokens(requested);
    assert(toks =~= seq![canonical_token(trim(requested))]);
    assert(normalized(requested).len() == 0);
    assert(trim_start(normalized(requested)) == normalized(requested));
}

/// Binding a combination again once it is registered is a no-op: no
/// unregister and no register is asked for, and the state stays the same.
pub proof fn lemma_rebind_same_is_noop(v: BindingView, requested: Seq<char>)
    requires
        single_binding(v),
    ensures
        ({
            let v1 = after_completion(after_bind(v, requested), true);
            &&& (planned_bind(v1, requested) is Keep || planned_bind(v1, requested) is Invalid
                || planned_bind(v1, requested) == (PlannedBind::Clear { release: None }))
            &&& after_bind(v1, requested) == v1
        }),
{
}

/// Binding and confirming never leaves two registrations held at once.
pub proof fn lemma_single_binding_kept(v: BindingView, requested: Seq<char>, registered: bool)
    requires
        single_binding(v),
    ensures
        single_binding(after_bind(v, requested)),
        single_binding(after_completion(v, registered)),
{
}

proof fn lemma_split_nonempty(s: Seq<char>, sep: char)
    ensures
        split_on(s, sep).len() >= 1,
    decreases s.len(),
{
    if s.len() > 0 {
        lemma_split_nonempty(s.drop_last(), sep);
    }
}

proof fn lemma_split_concat(x: Seq<char>, sep: char, y: Seq<char>)
    ensures
        split_on(x.push(sep) + y, sep) == split_on(x, sep) + split_on(y, sep),
    decreases y.len(),
{
    let z = x.push(sep) + y;
    if y.len() == 0 {
        assert(z =~= x.push(sep));
        assert(z.drop_last() =~= x);
        assert(split_on(z, sep) =~= split_on(x, sep) + split_on(y, sep));
    } else {
        lemma_split_concat(x, sep, y.drop_last());
        lemma_split_nonempty(y.drop_last(), sep);
        assert(z.drop_last() =~= x.push(sep) + y.drop_last());
        assert(z.last() == y.last());
        let a = split_on(x, sep);
        let b = split_on(y.drop_last(), sep);
        if y.last() == sep {
            assert((a + b).push(Seq::<char>::empty()) =~= a + b.push(Seq::<char>::empty()));
        } else {
            assert((a + b).last() == b.last());
            assert((a + b).update((a + b).len() - 1, (a + b).last().push(y.last())) =~= a + b.update(
                b.len() - 1,
                b.last().push(y.last()),
            ));
        }
    }
}

/// A leading token can be swapped for any other with the same canonical
/// form without changing the normalized shortcut.
pub proof fn lemma_same_canonical_token(a: Seq<char>, b: Seq<char>, rest: Seq<char>)
    requires
        !a.contains('+'),
        !b.contains('+'),
        canonical_token(trim(a)) == canonical_token(trim(b)),
    ensures
        normalized(a.push('+') + rest) == normalized(b.push('+') + rest),
{
    lemma_split_without_sep(a, '+');
    lemma_split_without_sep(b, '+');
    lemma_split_concat(a, '+', rest);
    lemma_split_concat(b, '+', rest);
    let r = split_on(rest, '+');
    assert(canonical_tokens(a.push('+') + rest) =~= canonical_tokens(b.push('+') + rest)) by {
        assert(split_on(a.push('+') + rest, '+') == seq![a] + r);
        assert(split_on(b.push('+') + rest, '+') == seq![b] + r);
    }
}

/// The platform names of the primary modifier (`Cmd`, `Command`, `Ctrl`,
/// `Control`, in any ASCII case) are interchangeable at the head of a
/// shortcut.
pub proof fn lemma_primary_aliases_interchangeable(a: Seq<char>, b: Seq<char>, rest: Seq<char>)
    requires
        !a.contains('+'),
        !b.contains('+'),
        is_primary_alias(trim(a)),
        is_primary_alias(trim(b)),
    ensures
        normalized(a.push('+') + rest) == normalized(b.push('+') + rest),
{
    reveal_strlit("Cmd");
    reveal_strlit("Command");
    reveal_strlit("Ctrl");
    reveal_strlit("Control");
    reveal_strlit("CommandOrControl");
    lemma_same_canonical_token(a, b, rest);
}

/// A refused rebind keeps the previous shortcut: after a valid new
/// combination is planned (the old one released) and the system refuses it,
/// the old one is asked for again, and once the system accepts it the role
/// holds it as before.
pub proof fn lemma_failed_rebind_restores_previous(v: BindingView, requested: Seq<char>)
    requires
        v.current is Some,
        v.pending is None,
        planned_bind(v, requested) is Replace,
    ensures
        ({
            let v1 = after_bind(v, requested);
            let v2 = after_completion(v1, false);
            &&& restore_request(v1, false) == v.current
            &&& v2.pending == v.current
            &&& single_binding(v2)
            &&& after_completion(v2, true).current == v.current
            &&& after_completion(v2, true).pending is None
        }),
{
}

proof fn lemma_eq_ignore_case_shared(a: Seq<char>, b: Seq<char>, x: Seq<char>)
    requires
        eq_ignore_ascii_case(a, b),
    ensures
        eq_ignore_ascii_case(a, x) == eq_ignore_ascii_case(b, x),
{
    if eq_ignore_ascii_case(a, x) {
        assert forall|i: int| 0 <= i < b.len() implies ascii_lower(#[trigger] b[i]) == ascii_lower(x[i]) by {
            assert(ascii_lower(a[i]) == ascii_lower(b[i]));
        }
    }
    if eq_ignore_ascii_case(b, x) {
        assert forall|i: int| 0 <= i < a.len() implies ascii_lower(#[trigger] a[i]) == ascii_lower(x[i]) by {
            assert(ascii_lower(a[i]) == ascii_lower(b[i]));
        }
    }
}

proof fn lemma_key_index_case_blind(a: Seq<char>, b: Seq<char>, i: nat)
    requires
        eq_ignore_ascii_case(a, b),
    ensures
        key_index_from(a, i) == key_index_from(b, i),
    decreases KEY_COUNT - i,
{
    if i < KEY_COUNT {
        lemma_eq_ignore_case_shared(a, b, key_name(i));
        lemma_key_index_case_blind(a, b, i + 1);
    }
}

/// Tokens that differ only in the case of ASCII letters have the same
/// canonical form.
pub proof fn lemma_canonical_token_case_blind(a: Seq<char>, b: Seq<char>)
    requires
        eq_ignore_ascii_case(a, b),
    ensures
        canonical_token(a) == canonical_token(b),
{
    lemma_eq_ignore_case_shared(a, b, "Cmd"@);
    lemma_eq_ignore_case_shared(a, b, "Command"@);
    lemma_eq_ignore_case_shared(a, b, "Ctrl"@);
    lemma_eq_ignore_case_shared(a, b, "Control"@);
    lemma_eq_ignore_case_shared(a, b, "CommandOrControl"@);
    lemma_eq_ignore_case_shared(a, b, "Option"@);
    lemma_eq_ignore_case_shared(a, b, "Opt"@);
    lemma_eq_ignore_case_shared(a, b, "Alt"@);
    lemma_eq_ignore_case_shared(a, b, "Shift"@);
    lemma_eq_ignore_case_shared(a, b, "Super"@);
    lemma_key_index_case_blind(a, b, 0);
    assert(ascii_lowered(a) =~= ascii_lowered(b));
}

/// Two shortcut tokens that mean the same: equal up to ASCII case once
/// trimmed, or both names of the primary modifier, or both names of `Alt`.
pub open spec fn same_token(a: Seq<char>, b: Seq<char>) -> bool {
    ||| eq_ignore_ascii_case(trim(a), trim(b))
    ||| (is_primary_alias(trim(a)) && is_primary_alias(trim(b)))
    ||| (is_alt_alias(trim(a)) && is_alt_alias(trim(b)))
}

proof fn lemma_same_token_canonical(a: Seq<char>, b: Seq<char>)
    requires
        same_token(a, b),
    ensures
        canonical_token(trim(a)) == canonical_token(trim(b)),
{
    reveal_strlit("Cmd");
    reveal_strlit("Command");
    reveal_strlit("Ctrl");
    reveal_strlit("Control");
    reveal_strlit("CommandOrControl");
    reveal_strlit("Option");
    reveal_strlit("Opt");
    reveal_strlit("Alt");
    let (x, y) = (trim(a), trim(b));
    if eq_ignore_ascii_case(x, y) {
        lemma_canonical_token_case_blind(x, y);
    } else if is_primary_alias(x) && is_primary_alias(y) {
        assert(x.len() > 0 && y.len() > 0);
    } else {
        assert(x.len() > 0 && y.len() > 0);
        lemma_alt_not_primary(x);
        lemma_alt_not_primary(y);
    }
}

proof fn lemma_alt_not_primary(t: Seq<char>)
    requires
        is_alt_alias(t),
    ensures
        !is_primary_alias(t),
{
    reveal_strlit("Cmd");
    reveal_strlit("Command");
    reveal_strlit("Ctrl");
    reveal_strlit("Control");
    reveal_strlit("CommandOrControl");
    reveal_strlit("Option");
    reveal_strlit("Opt");
    reveal_strlit("Alt");
    if t.len() == 3 {
        assert(ascii_lower(t[0]) == 'o' || ascii_lower(t[0]) == 'a');
        if eq_ignore_ascii_case(t, "Cmd"@) {
            assert(ascii_lower(t[0]) == ascii_lower('C'));
        }
    }
}

/// Shortcuts whose tokens, in order, mean the same (the same names in any
/// ASCII case, with any white space around the `+`, or with one name of a
/// modifier in place of another) normalize to the same combination.
pub proof fn lemma_same_tokens_normalize_alike(s1: Seq<char>, s2: Seq<char>)
    requires
        split_on(s1, '+').len() == split_on(s2, '+').len(),
        forall|i: int|
            0 <= i < split_on(s1, '+').len() ==> same_token(
                #[trigger] split_on(s1, '+')[i],
                split_on(s2, '+')[i],
            ),
    ensures
        normalized(s1) == normalized(s2),
{
    let p1 = split_on(s1, '+');
    let p2 = split_on(s2, '+');
    assert forall|i: int| 0 <= i < p1.len() implies canonical_token(trim(p1[i])) == canonical_token(trim(p2[i])) by {
        lemma_same_token_canonical(p1[i], p2[i]);
    }
    assert(canonical_tokens(s1) =~= canonical_tokens(s2));
}

} // verus!
