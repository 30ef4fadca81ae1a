//! Enumeration of the subcommands on a search path, and resolution of one by name.
use crate::probe::{
    accepts, derive_name, derived_name, filter_file, is_hidden_or_backup, EntryInfo, Probe,
};
use crate::text::{chars_of, count_char, count_chars, has_prefix};
use std::path::PathBuf;
use vstd::prelude::*;
use vstd::std_specs::iter::IteratorSpec;

verus! {

/// A discovered subcommand: its name and the executable that provides it.
#[derive(Debug, PartialEq, Eq, Clone)]
pub struct Subcommand {
    pub name: String,
    pub path: PathBuf,
}

impl View for Subcommand {
    type V = (Seq<char>, PathBuf);

    open spec fn view(&self) -> (Seq<char>, PathBuf) {
        (self.name@, self.path)
    }
}

/// The subcommands found by one enumeration, in search-path order.
#[derive(Debug, Clone)]
pub struct SubcommandsProvider {
    commands: Vec<Subcommand>,
}

impl View for SubcommandsProvider {
    type V = Seq<(Seq<char>, PathBuf)>;

    closed spec fn view(&self) -> Seq<(Seq<char>, PathBuf)> {
        self.commands@.map_values(|c: Subcommand| c@)
    }
}

/// The listings of the search-path directories, one sequence per directory.
pub open spec fn listings(dirs: Seq<Vec<EntryInfo>>) -> Seq<Seq<EntryInfo>> {
    dirs.map_values(|d: Vec<EntryInfo>| d@)
}

/// The name an accepted entry is listed under.
pub open spec fn entry_name(prefix: Seq<char>, e: EntryInfo) -> Seq<char> {
    derived_name(prefix, (e.file_name->0)@)
}

/// An entry shows in an enumeration at `level`: it is a candidate, and its
/// name holds fewer than `level` separators.
pub open spec fn listed(probe: Probe, prefix: Seq<char>, level: int, e: EntryInfo) -> bool {
    accepts(probe, prefix, e) && count_char(entry_name(prefix, e), '-') < level
}

/// What a listed entry contributes: its name and its path.
pub open spec fn command_of(prefix: Seq<char>, e: EntryInfo) -> (Seq<char>, PathBuf) {
    (entry_name(prefix, e), e.path)
}

/// The enumeration of one directory, in listing order.
pub open spec fn listing_in_dir(probe: Probe, prefix: Seq<char>, level: int, es: Seq<EntryInfo>) -> Seq<
    (Seq<char>, PathBuf),
>
    decreases es.len(),
{
    if es.len() == 0 {
        seq![]
    } else {
        let init = listing_in_dir(probe, prefix, level, es.drop_last());
        if listed(probe, prefix, level, es.last()) {
            init.push(command_of(prefix, es.last()))
        } else {
            init
        }
    }
}

/// The enumeration of a search path: each directory's in turn, duplicates kept.
pub open spec fn listing(probe: Probe, prefix: Seq<char>, level: int, dirs: Seq<Seq<EntryInfo>>) -> Seq<
    (Seq<char>, PathBuf),
>
    decreases dirs.len(),
{
    if dirs.len() == 0 {
        seq![]
    } else {
        listing(probe, prefix, level, dirs.drop_last()) + listing_in_dir(probe, prefix, level, dirs.last())
    }
}

/// The candidate probed in one directory resolves the command.
pub open spec fn resolves(probe: Probe, prefix: Seq<char>, c: Option<EntryInfo>) -> bool {
    c is Some && accepts(probe, prefix, c->0)
}

/// The enumeration of `dirs`, as subcommands.
pub(crate) fn scan(probe: &Probe, prefix: &str, level: usize, dirs: &Vec<Vec<EntryInfo>>) -> (r: Vec<
    Subcommand,
>)
    ensures
        r@.map_values(|c: Subcommand| c@) == listing(*probe, prefix@, level as int, listings(dirs@)),
{
    let ghost ds = listings(dirs@);
    let mut commands: Vec<Subcommand> = Vec::new();
    let mut i: usize = 0;
    while i < dirs.len()
        invariant
            i <= dirs@.len(),
            ds == listings(dirs@),
            commands@.map_values(|c: Subcommand| c@) == listing(
                *probe,
                prefix@,
                level as int,
                ds.subrange(0, i as int),
            ),
        decreases dirs.len() - i,
    {
        let dir = &dirs[i];
        let ghost before = commands@.map_values(|c: Subcommand| c@);
        let mut j: usize = 0;
        while j < dir.len()
            invariant
                i < dirs@.len(),
                dir == dirs@[i as int],
                j <= dir@.len(),
                commands@.map_values(|c: Subcommand| c@) == before + listing_in_dir(
                    *probe,
                    prefix@,
                    level as int,
                    dir@.subrange(0, j as int),
                ),
            decreases dir.len() - j,
        {
            let e = &dir[j];
            let ghost sub = dir@.subrange(0, j + 1);
            assert(sub.drop_last() =~= dir@.subrange(0, j as int));
            assert(sub.last() == *e);
            let ghost prev = commands@;
            if filter_file(probe, prefix, e) {
                let name = match &e.file_name {
                    Some(n) => derive_name(prefix, n.as_str()),
                    None => String::new(),
                };
                let nc = chars_of(name.as_str());
                if count_chars(nc.as_slice(), '-') < level {
                    let c = Subcommand { name, path: e.path.clone() };
                    assert(c@ == command_of(prefix@, *e));
                    commands.push(c);
                    assert(commands@.map_values(|c: Subcommand| c@) =~= prev.map_values(
                        |c: Subcommand| c@,
                    ).push(command_of(prefix@, *e)));
                }
            }
            assert(commands@.map_values(|c: Subcommand| c@) =~= before + listing_in_dir(
                *probe,
                prefix@,
                level as int,
                dir@.subrange(0, j + 1),
            ));
            j = j + 1;
        }
        assert(dir@.subrange(0, dir@.len() as int) =~= dir@);
        assert(ds.subrange(0, i + 1).drop_last() =~= ds.subrange(0, i as int));
        i = i + 1;
    }
    assert(ds.subrange(0, dirs@.len() as int) =~= ds);
    commands
}

impl SubcommandsProvider {
    /// Enumerates the candidates of `prefix` in the directory listings `dirs`,
    /// keeping those whose names hold fewer than `level` separators.
    pub fn collect(probe: &Probe, prefix: &str, level: usize, dirs: &Vec<Vec<EntryInfo>>) -> (r:
        SubcommandsProvider)
        ensures
            r@ == listing(*probe, prefix@, level as int, listings(dirs@)),
    {
        SubcommandsProvider { commands: scan(probe, prefix, level, dirs) }
    }

    /// Resolves `name`: `candidates` holds, for each search-path directory in
    /// order, the entry found at `prefix` + `name` in it, if any. The first one
    /// that is a candidate of `prefix` wins; the result is named `name`, the prefix left out.
    pub fn find(probe: &Probe, prefix: &str, name: &str, candidates: &Vec<Option<EntryInfo>>) -> (r: Option<
        Subcommand,
    >)
        ensures
            r is None <==> forall|i: int|
                0 <= i < candidates@.len() ==> !resolves(*probe, prefix@, #[trigger] candidates@[i]),
            r is Some ==> exists|i: int|
                0 <= i < candidates@.len() && resolves(*probe, prefix@, #[trigger] candidates@[i]) && (
                forall|j: int| 0 <= j < i ==> !resolves(*probe, prefix@, #[trigger] candidates@[j]))
                    && r->0.path == candidates@[i]->0.path && r->0.name@ == name@,
    {
        let mut i: usize = 0;
        while i < candidates.len()
            invariant
                i <= candidates@.len(),
                forall|j: int| 0 <= j < i ==> !resolves(*probe, prefix@, #[trigger] candidates@[j]),
            decreases candidates.len() - i,
        {
            if let Some(e) = &candidates[i] {
                if filter_file(probe, prefix, e) {
                    let ghost at = i as int;
                    assert(resolves(*probe, prefix@, candidates@[at]));
                    return Some(Subcommand { name: name.to_owned(), path: e.path.clone() });
                }
            }
            i = i + 1;
        }
        None
    }

    /// The subcommands in enumeration order.
    pub fn iter(&self) -> (r: std::slice::Iter<'_, Subcommand>)
        ensures
            r.remaining().map_values(|c: &Subcommand| c@) == self@,
    {
        self.commands.iter()
    }
}

} // verus!

verus! {

/// What one directory's enumeration holds: the commands of its listed entries.
pub proof fn lemma_listing_in_dir_members(probe: Probe, prefix: Seq<char>, level: int, es: Seq<EntryInfo>)
    ensures
        forall|c: (Seq<char>, PathBuf)|
            listing_in_dir(probe, prefix, level, es).contains(c) <==> exists|j: int|
                0 <= j < es.len() && listed(probe, prefix, level, #[trigger] es[j]) && command_of(
                    prefix,
                    es[j],
                ) == c,
    decreases es.len(),
{
    if es.len() > 0 {
        let init = es.drop_last();
        lemma_listing_in_dir_members(probe, prefix, level, init);
        assert forall|c: (Seq<char>, PathBuf)|
            listing_in_dir(probe, prefix, level, es).contains(c) <==> exists|j: int|
                0 <= j < es.len() && listed(probe, prefix, level, #[trigger] es[j]) && command_of(
                    prefix,
                    es[j],
                ) == c by {
            let l0 = listing_in_dir(probe, prefix, level, init);
            if listing_in_dir(probe, prefix, level, es).contains(c) {
                if l0.contains(c) {
                    let j = choose|j: int|
                        0 <= j < init.len() && listed(probe, prefix, level, #[trigger] init[j])
                            && command_of(prefix, init[j]) == c;
                    assert(es[j] == init[j]);
                } else {
                    let k = choose|k: int|
                        0 <= k < listing_in_dir(probe, prefix, level, es).len() && listing_in_dir(
                            probe,
                            prefix,
                            level,
                            es,
                        )[k] == c;
                    assert(listed(probe, prefix, level, es.last()));
                    assert(k == l0.len());
                    assert(es[es.len() - 1] == es.last());
                }
            }
            if exists|j: int|
                0 <= j < es.len() && listed(probe, prefix, level, #[trigger] es[j]) && command_of(
                    prefix,
                    es[j],
                ) == c {
                let j = choose|j: int|
                    0 <= j < es.len() && listed(probe, prefix, level, #[trigger] es[j]) && command_of(
                        prefix,
                        es[j],
                    ) == c;
                if j < init.len() {
                    assert(init[j] == es[j]);
                    assert(l0.contains(c));
                    let k = choose|k: int| 0 <= k < l0.len() && l0[k] == c;
                    assert(listing_in_dir(probe, prefix, level, es)[k] == c);
                } else {
                    assert(es[j] == es.last());
                    assert(listing_in_dir(probe, prefix, level, es)[l0.len() as int] == c);
                }
            }
        }
    }
}

/// What a search path's enumeration holds: exactly the commands of the listed
/// entries of its directories.
pub proof fn lemma_listing_members(probe: Probe, prefix: Seq<char>, level: int, dirs: Seq<Seq<EntryInfo>>)
    ensures
        forall|c: (Seq<char>, PathBuf)|
            listing(probe, prefix, level, dirs).contains(c) <==> exists|i: int, j: int|
                0 <= i < dirs.len() && 0 <= j < dirs[i].len() && listed(
                    probe,
                    prefix,
                    level,
                    #[trigger] dirs[i][j],
                ) && command_of(prefix, dirs[i][j]) == c,
    decreases dirs.len(),
{
    if dirs.len() > 0 {
        let init = dirs.drop_last();
        let last = dirs.last();
        lemma_listing_members(probe, prefix, level, init);
        lemma_listing_in_dir_members(probe, prefix, level, last);
        let a = listing(probe, prefix, level, init);
        let b = listing_in_dir(probe, prefix, level, last);
        assert forall|c: (Seq<char>, PathBuf)|
            listing(probe, prefix, level, dirs).contains(c) <==> exists|i: int, j: int|
                0 <= i < dirs.len() && 0 <= j < dirs[i].len() && listed(
                    probe,
                    prefix,
                    level,
                    #[trigger] dirs[i][j],
                ) && command_of(prefix, dirs[i][j]) == c by {
            if listing(probe, prefix, level, dirs).contains(c) {
                let k = choose|k: int| 0 <= k < (a + b).len() && (a + b)[k] == c;
                if k < a.len() {
                    assert(a[k] == c);
                    assert(a.contains(c));
                    let (i, j) = choose|i: int, j: int|
                        0 <= i < init.len() && 0 <= j < init[i].len() && listed(
                            probe,
                            prefix,
                            level,
                            #[trigger] init[i][j],
                        ) && command_of(prefix, init[i][j]) == c;
                    assert(dirs[i] == init[i]);
                } else {
                    assert(b[k - a.len()] == c);
                    assert(b.contains(c));
                    let j = choose|j: int|
                        0 <= j < last.len() && listed(probe, prefix, level, #[trigger] last[j])
                            && command_of(prefix, last[j]) == c;
                    assert(dirs[dirs.len() - 1] == last);
                    assert(listed(probe, prefix, level, dirs[dirs.len() - 1][j]));
                }
            }
            if exists|i: int, j: int|
                0 <= i < dirs.len() && 0 <= j < dirs[i].len() && listed(
                    probe,
                    prefix,
                    level,
                    #[trigger] dirs[i][j],
                ) && command_of(prefix, dirs[i][j]) == c {
                let (i, j) = choose|i: int, j: int|
                    0 <= i < dirs.len() && 0 <= j < dirs[i].len() && listed(
                        probe,
                        prefix,
                        level,
                        #[trigger] dirs[i][j],
                    ) && command_of(prefix, dirs[i][j]) == c;
                if i < init.len() {
                    assert(init[i] == dirs[i]);
                    assert(listed(probe, prefix, level, init[i][j]));
                    assert(a.contains(c));
                    let k = choose|k: int| 0 <= k < a.len() && a[k] == c;
                    assert((a + b)[k] == c);
                } else {
                    assert(dirs[i] == last);
                    assert(listed(probe, prefix, level, last[j]));
                    assert(b.contains(c));
                    let k = choose|k: int| 0 <= k < b.len() && b[k] == c;
                    assert((a + b)[a.len() + k] == c);
                }
            }
        }
    }
}

} // verus!

verus! {

/// Files whose names do not start with the prefix are never enumerated: every
/// enumerated command comes from an entry whose file name starts with it.
pub proof fn lemma_listing_respects_prefix(probe: Probe, prefix: Seq<char>, level: int, dirs: Seq<Seq<EntryInfo>>)
    ensures
        forall|c: (Seq<char>, PathBuf)|
            #[trigger] listing(probe, prefix, level, dirs).contains(c) ==> exists|i: int, j: int|
                0 <= i < dirs.len() && 0 <= j < dirs[i].len() && (#[trigger] dirs[i][j]).file_name
                    is Some && has_prefix((dirs[i][j].file_name->0)@, prefix) && command_of(prefix, dirs[i][j]) == c,
{
    lemma_listing_members(probe, prefix, level, dirs);
}

/// Under the Unix convention, hidden (dot-prefixed) and backup (tilde-suffixed)
/// files are never enumerated:
/// every enumerated command comes from an entry whose file name is neither.
pub proof fn lemma_listing_skips_hidden_and_backup(
    probe: Probe,
    prefix: Seq<char>,
    level: int,
    dirs: Seq<Seq<EntryInfo>>,
)
    requires
        probe == Probe::Posix,
    ensures
        forall|c: (Seq<char>, PathBuf)|
            #[trigger] listing(probe, prefix, level, dirs).contains(c) ==> exists|i: int, j: int|
                0 <= i < dirs.len() && 0 <= j < dirs[i].len() && (#[trigger] dirs[i][j]).file_name
                    is Some && !is_hidden_or_backup((dirs[i][j].file_name->0)@) && command_of(prefix, dirs[i][j]) == c,
{
    lemma_listing_members(probe, prefix, level, dirs);
}

/// The level filter: a candidate whose name holds `k` separators is enumerated
/// at `level` if and only if `k < level`.
pub proof fn lemma_listing_level(probe: Probe, prefix: Seq<char>, level: int, dirs: Seq<Seq<EntryInfo>>)
    ensures
        forall|k: int|
            0 <= k < listing(probe, prefix, level, dirs).len() ==> count_char(
                (#[trigger] listing(probe, prefix, level, dirs)[k]).0,
                '-',
            ) < level,
        forall|i: int, j: int|
            0 <= i < dirs.len() && 0 <= j < dirs[i].len() && accepts(probe, prefix, #[trigger] dirs[i][j])
                ==> (listing(probe, prefix, level, dirs).contains(command_of(prefix, dirs[i][j]))
                <==> count_char(entry_name(prefix, dirs[i][j]), '-') < level),
{
    lemma_listing_members(probe, prefix, level, dirs);
    assert forall|k: int| 0 <= k < listing(probe, prefix, level, dirs).len() implies count_char(
        (#[trigger] listing(probe, prefix, level, dirs)[k]).0,
        '-',
    ) < level by {
        assert(listing(probe, prefix, level, dirs).contains(listing(probe, prefix, level, dirs)[k]));
    }
}

/// The enumeration does not depend on the order in which each directory lists
/// its entries: the same directories, listed in any order, give the same set.
pub proof fn lemma_listing_order_independent(
    probe: Probe,
    prefix: Seq<char>,
    level: int,
    a: Seq<Seq<EntryInfo>>,
    b: Seq<Seq<EntryInfo>>,
)
    requires
        a.len() == b.len(),
        forall|i: int| 0 <= i < a.len() ==> (#[trigger] a[i]).to_set() == b[i].to_set(),
    ensures
        listing(probe, prefix, level, a).to_set() == listing(probe, prefix, level, b).to_set(),
{
    lemma_listing_members(probe, prefix, level, a);
    lemma_listing_members(probe, prefix, level, b);
    assert forall|c: (Seq<char>, PathBuf)|
        listing(probe, prefix, level, a).contains(c) implies listing(probe, prefix, level, b).contains(c) by {
        let (i, j) = choose|i: int, j: int|
            0 <= i < a.len() && 0 <= j < a[i].len() && listed(probe, prefix, level, #[trigger] a[i][j])
                && command_of(prefix, a[i][j]) == c;
        assert(a[i].to_set().contains(a[i][j]));
        assert(b[i].to_set().contains(a[i][j]));
        let j2 = choose|j2: int| 0 <= j2 < b[i].len() && b[i][j2] == a[i][j];
        assert(listed(probe, prefix, level, b[i][j2]));
    }
    assert forall|c: (Seq<char>, PathBuf)|
        listing(probe, prefix, level, b).contains(c) implies listing(probe, prefix, level, a).contains(c) by {
        let (i, j) = choose|i: int, j: int|
            0 <= i < b.len() && 0 <= j < b[i].len() && listed(probe, prefix, level, #[trigger] b[i][j])
                && command_of(prefix, b[i][j]) == c;
        assert(b[i].to_set().contains(b[i][j]));
        assert(a[i].to_set().contains(b[i][j]));
        let j2 = choose|j2: int| 0 <= j2 < a[i].len() && a[i][j2] == b[i][j];
        assert(listed(probe, prefix, level, a[i][j2]));
    }
    assert(listing(probe, prefix, level, a).to_set() =~= listing(probe, prefix, level, b).to_set());
}

} // verus!
