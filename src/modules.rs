//! Choosing module manifests, and the subcommand that fetches for a module.
use crate::text::{chars_have_suffix, chars_of, concat_str, has_suffix, string_of};
use vstd::prelude::*;

verus! {

/// Index of the last `-` in `s`, or -1 where there is none.
pub open spec fn last_dash(s: Seq<char>) -> int
    decreases s.len(),
{
    if s.len() == 0 {
        -1
    } else if s.last() == '-' {
        s.len() - 1
    } else {
        last_dash(s.drop_last())
    }
}

/// The last dash-separated segment of a program name.
pub open spec fn last_segment(s: Seq<char>) -> Seq<char> {
    s.subrange(last_dash(s) + 1, s.len() as int)
}

/// A file name that holds a module manifest: it ends in `.yml` or `.yaml`.
pub open spec fn is_manifest_name(n: Seq<char>) -> bool {
    has_suffix(n, seq!['.', 'y', 'm', 'l']) || has_suffix(n, seq!['.', 'y', 'a', 'm', 'l'])
}

/// Whether `name` is the file name of a module manifest.
pub fn is_manifest_file(name: &str) -> (r: bool)
    ensures
        r == is_manifest_name(name@),
{
    let n = chars_of(name);
    let yml: Vec<char> = vec!['.', 'y', 'm', 'l'];
    let yaml: Vec<char> = vec!['.', 'y', 'a', 'm', 'l'];
    assert(yml@ =~= seq!['.', 'y', 'm', 'l']);
    assert(yaml@ =~= seq!['.', 'y', 'a', 'm', 'l']);
    chars_have_suffix(n.as_slice(), yml.as_slice()) || chars_have_suffix(
        n.as_slice(),
        yaml.as_slice(),
    )
}

/// The last dash-separated segment of `program`.
pub fn program_suffix(program: &str) -> (r: String)
    ensures
        r@ == last_segment(program@),
{
    let s = chars_of(program);
    let mut i: usize = s.len();
    assert(s@.subrange(0, s@.len() as int) =~= s@);
    while i > 0 && s[i - 1] != '-'
        invariant
            i <= s@.len(),
            last_dash(s@) == last_dash(s@.subrange(0, i as int)),
        decreases i,
    {
        assert(s@.subrange(0, i as int).drop_last() =~= s@.subrange(0, i - 1));
        i = i - 1;
    }
    if i > 0 {
        assert(s@.subrange(0, i as int).last() == '-');
    }
    let mut out: Vec<char> = Vec::new();
    let mut k: usize = i;
    while k < s.len()
        invariant
            i <= k <= s@.len(),
            out@ == s@.subrange(i as int, k as int),
        decreases s.len() - k,
    {
        out.push(s[k]);
        assert(out@ =~= s@.subrange(i as int, k + 1));
        k = k + 1;
    }
    string_of(out.as_slice())
}

/// Whether one of `programs` ends in the segment `pattern` (`fetcher` matches
/// `asimov-http-fetcher`).
pub fn provides_program(programs: &Vec<String>, pattern: &str) -> (r: bool)
    ensures
        r == exists|i: int|
            0 <= i < programs@.len() && last_segment((#[trigger] programs@[i])@) == pattern@,
{
    let target = pattern.to_owned();
    let mut i: usize = 0;
    while i < programs.len()
        invariant
            i <= programs@.len(),
            target@ == pattern@,
            forall|j: int| 0 <= j < i ==> last_segment((#[trigger] programs@[j])@) != pattern@,
        decreases programs.len() - i,
    {
        if program_suffix(programs[i].as_str()) == target {
            return true;
        }
        i = i + 1;
    }
    false
}

/// The subcommand that fetches for module `module`.
pub fn fetcher_subcommand(module: &str) -> (r: String)
    ensures
        r@ == module@ + seq!['-', 'f', 'e', 't', 'c', 'h', 'e', 'r'],
{
    let suffix: Vec<char> = vec!['-', 'f', 'e', 't', 'c', 'h', 'e', 'r'];
    let s = string_of(suffix.as_slice());
    assert(s@ =~= seq!['-', 'f', 'e', 't', 'c', 'h', 'e', 'r']);
    concat_str(module, s.as_str())
}

} // verus!
