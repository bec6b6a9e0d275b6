//! Log-safe summaries: lengths instead of text, sizes in rounded units, and
//! paths cut down to their last two components.

use std::path::{Component, Path};
use vstd::prelude::*;
use crate::text::{chars_of, concat_chars, decimal, decimal_chars, string_from_chars, views};

verus! {

/// `std::path::Path`, carried through as an opaque value.
#[verifier::external_type_specification]
#[verifier::external_body]
pub struct ExPath(Path);

/// The number of characters of `text`.
pub fn summarize_text_len(text: &str) -> (r: usize)
    ensures
        r == text@.len(),
{
    text.unicode_len()
}

pub open spec fn bytes_summary(bytes: nat) -> Seq<char> {
    if bytes < 1024 {
        decimal(bytes) + "B"@
    } else {
        decimal(((bytes + 1023) / 1024) as nat) + "KB"@
    }
}

/// A byte count for the log: plain bytes below 1024, else kilobytes
/// rounded up.
pub fn summarize_bytes(bytes: usize) -> (r: String)
    ensures
        r@ == bytes_summary(bytes as nat),
{
    if bytes < 1024 {
        let d = decimal_chars(bytes as u64);
        string_from_chars(&concat_chars(d.as_slice(), chars_of("B").as_slice()))
    } else {
        let rest: usize = if bytes % 1024 != 0 {
            1
        } else {
            0
        };
        let kb = bytes / 1024 + rest;
        assert(kb == (bytes + 1023) / 1024);
        let d = decimal_chars(kb as u64);
        string_from_chars(&concat_chars(d.as_slice(), chars_of("KB").as_slice()))
    }
}

/// A path for the log: `<unknown>` for no components, the component itself
/// for one, else `.../` and the last two.
pub open spec fn redacted(parts: Seq<Seq<char>>) -> Seq<char> {
    if parts.len() == 0 {
        "<unknown>"@
    } else if parts.len() == 1 {
        parts[0]
    } else {
        ".../"@ + parts[parts.len() - 2] + "/"@ + parts[parts.len() - 1]
    }
}

pub open spec fn is_path_sep(c: char) -> bool {
    c == '/' || c == '\\'
}

/// The non-empty runs of `s` between path separators, finished ones and
/// the one still open at the end of `s`.
pub open spec fn path_scan(s: Seq<char>) -> (Seq<Seq<char>>, Seq<char>)
    decreases s.len(),
{
    if s.len() == 0 {
        (Seq::<Seq<char>>::empty(), Seq::<char>::empty())
    } else {
        let (done, cur) = path_scan(s.drop_last());
        if is_path_sep(s.last()) {
            (
                if cur.len() > 0 {
                    done.push(cur)
                } else {
                    done
                },
                Seq::<char>::empty(),
            )
        } else {
            (done, cur.push(s.last()))
        }
    }
}

/// The non-empty pieces of `s` between `/` and `\` separators.
pub open spec fn path_pieces(s: Seq<char>) -> Seq<Seq<char>> {
    let (done, cur) = path_scan(s);
    if cur.len() > 0 {
        done.push(cur)
    } else {
        done
    }
}

fn join3(a: &[char], b: &[char], c: &[char]) -> (r: Vec<char>)
    ensures
        r@ == a@ + b@ + c@,
{
    let ab = concat_chars(a, b);
    concat_chars(ab.as_slice(), c)
}

fn redact_chars(parts: &Vec<Vec<char>>) -> (r: String)
    ensures
        r@ == redacted(views(parts@)),
{
    let n = parts.len();
    if n == 0 {
        String::from_str("<unknown>")
    } else if n == 1 {
        proof {
            assert(views(parts@)[0] == parts@[0]@);
        }
        string_from_chars(&parts[0])
    } else {
        proof {
            assert(views(parts@)[n - 2] == parts@[n - 2]@);
            assert(views(parts@)[n - 1] == parts@[n - 1]@);
        }
        let head = join3(chars_of(".../").as_slice(), parts[n - 2].as_slice(), chars_of("/").as_slice());
        string_from_chars(&concat_chars(head.as_slice(), parts[n - 1].as_slice()))
    }
}

/// The log form of a path given as its components.
pub fn redact_parts(parts: &[String]) -> (r: String)
    ensures
        r@ == redacted(parts@.map_values(|p: String| p@)),
{
    let mut v: Vec<Vec<char>> = Vec::new();
    let mut i: usize = 0;
    while i < parts.len()
        invariant
            i <= parts@.len(),
            views(v@) =~= parts@.subrange(0, i as int).map_values(|p: String| p@),
        decreases parts@.len() - i,
    {
        let ghost prior = views(v@);
        let c = chars_of(parts[i].as_str());
        let ghost cv = c@;
        v.push(c);
        assert(views(v@) =~= prior.push(cv));
        i = i + 1;
    }
    assert(parts@.subrange(0, parts@.len() as int) == parts@);
    redact_chars(&v)
}

/// The log form of a path given as its components.
pub fn redact_parts_str(parts: &[&str]) -> (r: String)
    ensures
        r@ == redacted(parts@.map_values(|p: &str| p@)),
{
    let mut v: Vec<Vec<char>> = Vec::new();
    let mut i: usize = 0;
    while i < parts.len()
        invariant
            i <= parts@.len(),
            views(v@) =~= parts@.subrange(0, i as int).map_values(|p: &str| p@),
        decreases parts@.len() - i,
    {
        let ghost prior = views(v@);
        let c = chars_of(parts[i]);
        let ghost cv = c@;
        v.push(c);
        assert(views(v@) =~= prior.push(cv));
        i = i + 1;
    }
    assert(parts@.subrange(0, parts@.len() as int) == parts@);
    redact_chars(&v)
}

/// The log form of a path written as text, with `/` or `\` between
/// components.
pub fn redact_path_str(path: &str) -> (r: String)
    ensures
        r@ == redacted(path_pieces(path@)),
{
    let s = chars_of(path);
    let n = s.len();
    let mut done: Vec<Vec<char>> = Vec::new();
    let mut cur: Vec<char> = Vec::new();
    let mut i: usize = 0;
    while i < n
        invariant
            n == s@.len(),
            i <= n,
            path_scan(s@.subrange(0, i as int)) == (views(done@), cur@),
        decreases n - i,
    {
        let c = s[i];
        assert(s@.subrange(0, i + 1).drop_last() == s@.subrange(0, i as int));
        if c == '/' || c == '\\' {
            if cur.len() > 0 {
                let ghost prior = views(done@);
                let ghost cv = cur@;
                done.push(cur);
                assert(views(done@) =~= prior.push(cv));
            }
            cur = Vec::new();
            assert(cur@ =~= Seq::<char>::empty());
        } else {
            cur.push(c);
        }
        i = i + 1;
    }
    assert(s@.subrange(0, n as int) == s@);
    if cur.len() > 0 {
        let ghost prior = views(done@);
        let ghost cv = cur@;
        done.push(cur);
        assert(views(done@) =~= prior.push(cv));
    }
    redact_chars(&done)
}

/// The names of the normal components (as opposed to roots, `.` and `..`)
/// in a component list, in order.
pub open spec fn normal_names(comps: Seq<Option<Seq<char>>>) -> Seq<Seq<char>>
    decreases comps.len(),
{
    if comps.len() == 0 {
        Seq::<Seq<char>>::empty()
    } else {
        let init = normal_names(comps.drop_last());
        match comps.last() {
            Some(name) => init.push(name),
            None => init,
        }
    }
}

/// What `Path::components` gives for a path written as this text: each
/// component, with the name of the normal ones.
pub uninterp spec fn path_components_of(path: Seq<char>) -> Seq<Option<Seq<char>>>;

pub open spec fn opt_views(v: Seq<Option<String>>) -> Seq<Option<Seq<char>>> {
    v.map_values(|o: Option<String>| match o {
        Some(s) => Some(s@),
        None => None,
    })
}

/// Relies on `Path::to_string_lossy`: the path as text, with any invalid
/// Unicode replaced.
#[verifier::external_body]
pub(crate) fn path_text(p: &Path) -> (r: String)
{
    p.to_string_lossy().to_string()
}

/// Relies on `Path::components` of the text taken as a path: each component,
/// with the name of the normal ones; it depends on the text alone.
#[verifier::external_body]
fn components_of(path: &str) -> (r: Vec<Option<String>>)
    ensures
        opt_views(r@) == path_components_of(path@),
{
    Path::new(path).components().map(|c| match c {
        Component::Normal(p) => Some(p.to_string_lossy().to_string()),
        _ => None,
    }).collect()
}

/// The log form of a path given as its component list: its last two normal
/// components.
pub fn redact_components(comps: &[Option<String>]) -> (r: String)
    ensures
        r@ == redacted(normal_names(opt_views(comps@))),
{
    let mut v: Vec<Vec<char>> = Vec::new();
    let mut i: usize = 0;
    while i < comps.len()
        invariant
            i <= comps@.len(),
            views(v@) == normal_names(opt_views(comps@).subrange(0, i as int)),
        decreases comps@.len() - i,
    {
        let ghost cs = opt_views(comps@);
        assert(cs.subrange(0, i + 1).drop_last() == cs.subrange(0, i as int));
        assert(cs.subrange(0, i + 1).last() == cs[i as int]);
        let ghost prior = views(v@);
        match &comps[i] {
            Some(name) => {
                let c = chars_of(name.as_str());
                let ghost cv = c@;
                v.push(c);
                assert(views(v@) =~= prior.push(cv));
            },
            None => {},
        }
        i = i + 1;
    }
    assert(opt_views(comps@).subrange(0, comps@.len() as int) == opt_views(comps@));
    redact_chars(&v)
}

/// The log form of a path written as text: its last two normal components.
pub fn redact_path_text(path: &str) -> (r: String)
    ensures
        r@ == redacted(normal_names(path_components_of(path@))),
{
    let comps = components_of(path);
    redact_components(comps.as_slice())
}

/// The log form of a path: its last two normal components.
pub fn redact_path(path: &Path) -> (r: String)
    ensures
        exists|text: Seq<char>| r@ == redacted(normal_names(path_components_of(text))),
{
    let text = path_text(path);
    redact_path_text(text.as_str())
}

} // verus!
