//! What makes a directory entry a candidate subcommand, and the name it is listed under.
use crate::text::{chars_have_prefix, chars_of, has_prefix, string_of};
use std::path::PathBuf;
use vstd::prelude::*;

verus! {

/// Paths are carried through unchanged: nothing here looks inside one.
#[verifier::external_type_specification]
#[verifier::external_body]
pub struct ExPathBuf(std::path::PathBuf);

/// Relies on `PathBuf::clone`: the copy is the same path.
pub assume_specification[ <std::path::PathBuf as Clone>::clone ](p: &std::path::PathBuf) -> (r:
    std::path::PathBuf)
    ensures
        r == *p,
;

/// The part of a file's metadata that decides whether it can be run directly.
#[derive(Clone, Copy, Debug, PartialEq, Eq, Structural)]
pub struct FileMeta {
    /// A regular file, after following symbolic links.
    pub is_file: bool,
    /// The permission bits (owner, group, other); 0 where the system has none.
    pub mode: u32,
    /// The file attribute bits of Windows; 0 elsewhere.
    pub attributes: u32,
}

/// The convention that decides which directory entries can be run directly.
#[derive(Clone, Debug)]
pub enum Probe {
    /// A regular file with an execute bit; hidden and backup names are skipped.
    Posix,
    /// A file without the hidden attribute whose extension, where a list is
    /// given, is one of the listed ones (lower case, without the dot).
    Windows(Option<Vec<String>>),
}

/// The hidden bit of Windows file attributes.
pub const FILE_ATTRIBUTE_HIDDEN: u32 = 2;

/// One entry of a search-path directory, as the scanner read it.
#[derive(Clone, Debug)]
pub struct EntryInfo {
    /// Where the entry lives.
    pub path: PathBuf,
    /// Its file name, or `None` where the name is not valid Unicode.
    pub file_name: Option<String>,
    /// Its metadata, or `None` where it could not be read (a broken link, say).
    pub metadata: Option<FileMeta>,
}

/// A regular file with at least one execute bit set.
pub open spec fn is_executable(m: FileMeta) -> bool {
    m.is_file && m.mode & 0o111u32 != 0
}

/// Dot-prefixed (hidden) or tilde-suffixed (backup) names.
pub open spec fn is_hidden_or_backup(n: Seq<char>) -> bool {
    n.len() > 0 && (n[0] == '.' || n.last() == '~')
}

/// A file name that may stand for a subcommand of `prefix`.
pub open spec fn name_eligible(prefix: Seq<char>, n: Seq<char>) -> bool {
    !is_hidden_or_backup(n) && has_prefix(n, prefix)
}

/// A file carrying the hidden attribute.
pub open spec fn is_hidden_file(m: FileMeta) -> bool {
    m.attributes & FILE_ATTRIBUTE_HIDDEN != 0
}

/// The entry passes both the name filter and the executable probe.
pub open spec fn accepts(probe: Probe, prefix: Seq<char>, e: EntryInfo) -> bool {
    match probe {
        Probe::Posix => {
            &&& e.file_name is Some
            &&& name_eligible(prefix, (e.file_name->0)@)
            &&& e.metadata is Some
            &&& is_executable(e.metadata->0)
        },
        Probe::Windows(exts) => {
            &&& e.file_name is Some
            &&& has_prefix((e.file_name->0)@, prefix)
            &&& extension_allowed(exts, (e.file_name->0)@)
            &&& e.metadata is Some
            &&& !is_hidden_file(e.metadata->0)
        },
    }
}

/// Index of the last `.` in `s`, or -1 where there is none.
pub open spec fn last_dot(s: Seq<char>) -> int
    decreases s.len(),
{
    if s.len() == 0 {
        -1
    } else if s.last() == '.' {
        s.len() - 1
    } else {
        last_dot(s.drop_last())
    }
}

/// The file name without its extension: what precedes the last dot, unless
/// that dot opens the name.
pub open spec fn file_stem(s: Seq<char>) -> Seq<char> {
    if last_dot(s) > 0 {
        s.subrange(0, last_dot(s))
    } else {
        s
    }
}

/// The extension of a file name: what follows the last dot, unless that dot
/// opens the name.
pub open spec fn extension_of(s: Seq<char>) -> Option<Seq<char>> {
    if last_dot(s) > 0 {
        Some(s.subrange(last_dot(s) + 1, s.len() as int))
    } else {
        None
    }
}

/// What `str::to_lowercase` makes of a string.
pub uninterp spec fn lowercase_of(s: Seq<char>) -> Seq<char>;

/// The contents of a sequence of strings.
pub open spec fn string_views(v: Seq<String>) -> Seq<Seq<char>> {
    v.map_values(|x: String| x@)
}

/// The name has an extension whose lower-case form is listed, or no list is given.
pub open spec fn extension_allowed(exts: Option<Vec<String>>, n: Seq<char>) -> bool {
    match exts {
        None => true,
        Some(v) => extension_of(n) is Some && string_views(v@).contains(
            lowercase_of(extension_of(n)->0),
        ),
    }
}

/// The subcommand name of a file: its stem with the prefix stripped once.
pub open spec fn derived_name(prefix: Seq<char>, file_name: Seq<char>) -> Seq<char> {
    let stem = file_stem(file_name);
    if has_prefix(stem, prefix) {
        stem.subrange(prefix.len() as int, stem.len() as int)
    } else {
        stem
    }
}

/// Whether the metadata describes a file that can be run directly.
pub fn is_executable_metadata(m: &FileMeta) -> (r: bool)
    ensures
        r == is_executable(*m),
{
    m.is_file && m.mode & 0o111u32 != 0
}

/// Whether a file name may stand for a subcommand of `prefix`.
pub fn eligible_name(prefix: &[char], n: &[char]) -> (r: bool)
    ensures
        r == name_eligible(prefix@, n@),
{
    if n.len() > 0 && (n[0] == '.' || n[n.len() - 1] == '~') {
        return false;
    }
    chars_have_prefix(n, prefix)
}

/// Relies on `str::to_lowercase`: the result depends on the characters alone.
#[verifier::external_body]
pub(crate) fn to_lowercase(s: &str) -> (r: String)
    ensures
        r@ == lowercase_of(s@),
{
    s.to_lowercase()
}

/// Whether the entry is a candidate subcommand of `prefix` under `probe`.
pub fn filter_file(probe: &Probe, prefix: &str, e: &EntryInfo) -> (r: bool)
    ensures
        r == accepts(*probe, prefix@, *e),
{
    let name = match &e.file_name {
        Some(n) => n,
        None => return false,
    };
    let p = chars_of(prefix);
    let n = chars_of(name.as_str());
    match probe {
        Probe::Posix => {
            if !eligible_name(p.as_slice(), n.as_slice()) {
                return false;
            }
            match &e.metadata {
                Some(m) => is_executable_metadata(m),
                None => false,
            }
        },
        Probe::Windows(exts) => {
            if !chars_have_prefix(n.as_slice(), p.as_slice()) {
                return false;
            }
            if !allowed_extension(exts, name.as_str()) {
                return false;
            }
            match &e.metadata {
                Some(m) => m.attributes & FILE_ATTRIBUTE_HIDDEN == 0,
                None => false,
            }
        },
    }
}

/// The extension of a file name, if it has one.
pub fn extension(name: &str) -> (r: Option<String>)
    ensures
        match r {
            Some(x) => extension_of(name@) == Some(x@),
            None => extension_of(name@) is None,
        },
{
    let s = chars_of(name);
    let ld = last_dot_position(s.as_slice());
    let d: usize = match ld {
        Some(d) => d,
        None => return None,
    };
    let n: usize = s.len();
    assert(d < n);
    if d == 0 {
        return None;
    }
    let mut out: Vec<char> = Vec::new();
    let mut i: usize = d + 1;
    while i < s.len()
        invariant
            d + 1 <= i <= s@.len(),
            out@ == s@.subrange(d + 1, i as int),
        decreases s.len() - i,
    {
        out.push(s[i]);
        assert(out@ =~= s@.subrange(d + 1, i + 1));
        i = i + 1;
    }
    Some(string_of(out.as_slice()))
}

/// Whether `ext`, an extension already in lower case, is one of `exts`.
pub fn extension_listed(exts: &Vec<String>, ext: &String) -> (r: bool)
    ensures
        r == string_views(exts@).contains(ext@),
{
    let ghost want = string_views(exts@);
    let mut i: usize = 0;
    while i < exts.len()
        invariant
            i <= exts@.len(),
            want == string_views(exts@),
            forall|k: int| 0 <= k < i ==> want[k] != ext@,
        decreases exts.len() - i,
    {
        if exts[i] == *ext {
            assert(want[i as int] == ext@);
            return true;
        }
        i = i + 1;
    }
    false
}

/// Whether the name's extension is allowed by `exts`.
fn allowed_extension(exts: &Option<Vec<String>>, name: &str) -> (r: bool)
    ensures
        r == extension_allowed(*exts, name@),
{
    match exts {
        None => true,
        Some(v) => match extension(name) {
            None => false,
            Some(x) => extension_listed(v, &to_lowercase(x.as_str())),
        },
    }
}

pub(crate) fn last_dot_position(s: &[char]) -> (r: Option<usize>)
    ensures
        match r {
            Some(i) => i as int == last_dot(s@) && i < s@.len(),
            None => last_dot(s@) == -1,
        },
{
    let mut i: usize = s.len();
    assert(s@.subrange(0, s@.len() as int) =~= s@);
    while i > 0
        invariant
            i <= s.len(),
            last_dot(s@) == last_dot(s@.subrange(0, i as int)),
        decreases i,
    {
        assert(s@.subrange(0, i as int).drop_last() =~= s@.subrange(0, i - 1));
        if s[i - 1] == '.' {
            return Some(i - 1);
        }
        i = i - 1;
    }
    None
}

fn has_prefix_at(s: &[char], start: usize, end: usize, p: &[char]) -> (r: bool)
    requires
        start <= end <= s@.len(),
    ensures
        r == has_prefix(s@.subrange(start as int, end as int), p@),
{
    if p.len() > end - start {
        return false;
    }
    let mut i: usize = 0;
    while i < p.len()
        invariant
            start <= end <= s@.len(),
            p.len() <= end - start,
            i <= p.len(),
            forall|k: int| 0 <= k < i ==> s@[start + k] == p@[k],
        decreases p.len() - i,
    {
        if s[start + i] != p[i] {
            assert(s@.subrange(start as int, end as int).subrange(0, p@.len() as int)[i as int]
                != p@[i as int]);
            return false;
        }
        i = i + 1;
    }
    assert(s@.subrange(start as int, end as int).subrange(0, p@.len() as int) =~= p@);
    true
}

/// The subcommand name of a file name: its stem with `prefix` stripped once.
pub fn derive_name(prefix: &str, file_name: &str) -> (r: String)
    ensures
        r@ == derived_name(prefix@, file_name@),
{
    let p = chars_of(prefix);
    let s = chars_of(file_name);
    let end: usize = match last_dot_position(s.as_slice()) {
        Some(d) if d > 0 => d,
        _ => s.len(),
    };
    let ghost stem = file_stem(s@);
    assert(stem =~= s@.subrange(0, end as int));
    let start: usize = if has_prefix_at(s.as_slice(), 0, end, p.as_slice()) {
        assert(s@.subrange(0, end as int).subrange(p@.len() as int, end as int) =~= s@.subrange(
            p@.len() as int,
            end as int,
        ));
        p.len()
    } else {
        0
    };
    let mut out: Vec<char> = Vec::new();
    let mut i: usize = start;
    while i < end
        invariant
            start <= i <= end <= s@.len(),
            out@ == s@.subrange(start as int, i as int),
        decreases end - i,
    {
        out.push(s[i]);
        assert(out@ =~= s@.subrange(start as int, i + 1));
        i = i + 1;
    }
    string_of(out.as_slice())
}

} // verus!
