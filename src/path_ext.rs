//! Executable extensions on Windows: the `PATHEXT` list, and the file names
//! tried, in order, when a command is resolved.
use crate::probe::{
    extension, extension_of, file_stem, last_dot_position, lowercase_of, string_views, to_lowercase,
};
use crate::text::{chars_of, first_index_of, lemma_first_index_of, string_of};
use vstd::prelude::*;

verus! {

/// The pieces of `s` between semicolons; an empty `s` is one empty piece.
pub open spec fn split_semis(s: Seq<char>) -> Seq<Seq<char>>
    decreases s.len(),
{
    if first_index_of(s, ';') < s.len() {
        seq![s.subrange(0, first_index_of(s, ';') as int)] + split_semis(
            s.subrange(first_index_of(s, ';') as int + 1, s.len() as int),
        )
    } else {
        seq![s]
    }
}

/// The extension a `PATHEXT` piece names: lower case, without its leading dot.
pub open spec fn ext_entry(piece: Seq<char>) -> Seq<char> {
    if piece.len() > 0 {
        lowercase_of(piece.drop_first())
    } else {
        lowercase_of(piece)
    }
}

/// `n` with its extension replaced by `ext`, or removed where `ext` is empty.
pub open spec fn with_extension(n: Seq<char>, ext: Seq<char>) -> Seq<char> {
    if ext.len() > 0 {
        file_stem(n) + seq!['.'] + ext
    } else {
        file_stem(n)
    }
}

/// The names reached from `cur` by setting each extension of `exts` in turn.
pub open spec fn extension_trials(cur: Seq<char>, exts: Seq<Seq<char>>) -> Seq<Seq<char>>
    decreases exts.len(),
{
    if exts.len() == 0 {
        seq![]
    } else {
        let next = with_extension(cur, exts[0]);
        seq![next] + extension_trials(next, exts.subrange(1, exts.len() as int))
    }
}

/// The file names tried for `command` in each directory: the name itself where
/// it has an extension, else the name with each listed extension in turn.
pub open spec fn resolution_names(command: Seq<char>, exts: Seq<Seq<char>>) -> Seq<Seq<char>> {
    if extension_of(command) is Some {
        seq![command]
    } else {
        extension_trials(command, exts)
    }
}

/// The executable extensions listed in a `PATHEXT` value, in order.
pub fn path_exts(value: &str) -> (r: Vec<String>)
    ensures
        r@.len() == split_semis(value@).len(),
        forall|i: int| 0 <= i < r@.len() ==> (#[trigger] r@[i])@ == ext_entry(split_semis(value@)[i]),
{
    let s = chars_of(value);
    let mut r: Vec<String> = Vec::new();
    let ghost mut seen: Seq<Seq<char>> = seq![];
    let mut pos: usize = 0;
    assert(s@.subrange(0, s@.len() as int) =~= s@);
    loop
        invariant_except_break
            split_semis(s@) == seen + split_semis(s@.subrange(pos as int, s@.len() as int)),
        invariant
            pos <= s@.len(),
            r@.len() == seen.len(),
            forall|i: int| 0 <= i < r@.len() ==> (#[trigger] r@[i])@ == ext_entry(seen[i]),
        ensures
            split_semis(s@) == seen,
        decreases s@.len() - pos,
    {
        let ghost rest = s@.subrange(pos as int, s@.len() as int);
        let mut b: usize = pos;
        while b < s.len() && s[b] != ';'
            invariant
                pos <= b <= s@.len(),
                rest == s@.subrange(pos as int, s@.len() as int),
                forall|k: int| pos <= k < b ==> s@[k] != ';',
            decreases s.len() - b,
        {
            b = b + 1;
        }
        assert forall|k: int| 0 <= k < b - pos implies rest[k] != ';' by {
            assert(rest[k] == s@[pos + k]);
        }
        proof {
            lemma_first_index_of(rest, ';', b - pos);
        }
        let start: usize = if b > pos {
            pos + 1
        } else {
            pos
        };
        let mut piece: Vec<char> = Vec::new();
        let mut k: usize = start;
        while k < b
            invariant
                start <= k <= b <= s@.len(),
                piece@ == s@.subrange(start as int, k as int),
            decreases b - k,
        {
            piece.push(s[k]);
            assert(piece@ =~= s@.subrange(start as int, k + 1));
            k = k + 1;
        }
        let ghost whole = s@.subrange(pos as int, b as int);
        assert(whole =~= rest.subrange(0, b - pos));
        if b > pos {
            assert(piece@ =~= whole.drop_first());
        } else {
            assert(piece@ =~= whole);
        }
        let ext = to_lowercase(string_of(piece.as_slice()).as_str());
        assert(ext@ == ext_entry(whole));
        r.push(ext);
        if b >= s.len() {
            assert(rest =~= whole);
            assert(split_semis(rest) == seq![rest]);
            assert(split_semis(s@) =~= seen.push(whole));
            proof {
                seen = seen.push(whole);
            }
            break;
        }
        assert(s@.subrange(b + 1, s@.len() as int) =~= rest.subrange(b - pos + 1, rest.len() as int));
        assert(split_semis(rest) == seq![whole] + split_semis(s@.subrange(b + 1, s@.len() as int)));
        assert(seen + split_semis(rest) =~= seen.push(whole) + split_semis(
            s@.subrange(b + 1, s@.len() as int),
        ));
        proof {
            seen = seen.push(whole);
        }
        pos = b + 1;
    }
    assert(seen == split_semis(s@));
    r
}

/// The name `n` with its extension set to `ext`.
pub fn set_extension(n: &str, ext: &str) -> (r: String)
    ensures
        r@ == with_extension(n@, ext@),
{
    let s = chars_of(n);
    let e = chars_of(ext);
    let len: usize = s.len();
    let end: usize = match last_dot_position(s.as_slice()) {
        Some(d) => if d > 0 {
            d
        } else {
            len
        },
        None => len,
    };
    assert(s@.subrange(0, len as int) =~= s@);
    let mut out: Vec<char> = Vec::new();
    let mut i: usize = 0;
    while i < end
        invariant
            i <= end <= s@.len(),
            out@ == s@.subrange(0, i as int),
        decreases end - i,
    {
        out.push(s[i]);
        assert(out@ =~= s@.subrange(0, i + 1));
        i = i + 1;
    }
    assert(out@ =~= file_stem(s@));
    if e.len() > 0 {
        let ghost stem = out@;
        out.push('.');
        let mut k: usize = 0;
        while k < e.len()
            invariant
                k <= e@.len(),
                out@ == stem + seq!['.'] + e@.subrange(0, k as int),
            decreases e.len() - k,
        {
            out.push(e[k]);
            assert(out@ =~= stem + seq!['.'] + e@.subrange(0, k + 1));
            k = k + 1;
        }
        assert(e@.subrange(0, e@.len() as int) =~= e@);
    }
    string_of(out.as_slice())
}

/// The file names tried, in order, in each directory when `command` is resolved
/// with the extensions `exts`.
pub fn resolution_candidates(command: &str, exts: &Vec<String>) -> (r: Vec<String>)
    ensures
        string_views(r@) == resolution_names(command@, string_views(exts@)),
{
    let ghost es = string_views(exts@);
    let mut r: Vec<String> = Vec::new();
    if extension(command).is_some() {
        r.push(command.to_owned());
        assert(string_views(r@) =~= seq![command@]);
        return r;
    }
    assert(string_views(r@) =~= Seq::<Seq<char>>::empty());
    assert(es.subrange(0, es.len() as int) =~= es);
    let mut cur: String = command.to_owned();
    let mut i: usize = 0;
    while i < exts.len()
        invariant
            i <= exts@.len(),
            es == string_views(exts@),
            extension_of(command@) is None,
            string_views(r@) + extension_trials(cur@, es.subrange(i as int, es.len() as int))
                == resolution_names(command@, es),
        decreases exts.len() - i,
    {
        let next = set_extension(cur.as_str(), exts[i].as_str());
        let ghost tail = es.subrange(i as int, es.len() as int);
        assert(tail[0] == exts@[i as int]@);
        assert(tail.subrange(1, tail.len() as int) =~= es.subrange(i + 1, es.len() as int));
        let ghost before = string_views(r@);
        r.push(next.clone());
        assert(string_views(r@) =~= before.push(next@));
        assert(before + extension_trials(cur@, tail) =~= before.push(next@) + extension_trials(
            next@,
            es.subrange(i + 1, es.len() as int),
        ));
        cur = next;
        i = i + 1;
    }
    assert(es.subrange(exts@.len() as int, es.len() as int) =~= Seq::<Seq<char>>::empty());
    assert(string_views(r@) + extension_trials(cur@, Seq::<Seq<char>>::empty()) =~= string_views(r@));
    r
}

} // verus!
