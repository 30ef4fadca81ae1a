//! Locating the executable of a subcommand the user asked for.
use crate::probe::{EntryInfo, Probe};
use crate::status::{PortableStatus, EX_UNAVAILABLE};
use crate::subcommands_provider::{resolves, Subcommand, SubcommandsProvider};
use crate::text::{chars_have_prefix, chars_have_suffix, chars_of, has_prefix, has_suffix};
use vstd::prelude::*;

verus! {

/// An entry of the private executables directory that provides `name`: its
/// file name starts with `prefix` and ends with `name`.
pub open spec fn provides(prefix: Seq<char>, name: Seq<char>, e: EntryInfo) -> bool {
    e.file_name is Some && has_prefix((e.file_name->0)@, prefix) && has_suffix(
        (e.file_name->0)@,
        name,
    )
}

/// Whether `e` provides `name`.
fn entry_provides(prefix: &str, name: &str, e: &EntryInfo) -> (r: bool)
    ensures
        r == provides(prefix@, name@, *e),
{
    match &e.file_name {
        Some(f) => {
            let fc = chars_of(f.as_str());
            let pc = chars_of(prefix);
            let nc = chars_of(name);
            chars_have_prefix(fc.as_slice(), pc.as_slice()) && chars_have_suffix(
                fc.as_slice(),
                nc.as_slice(),
            )
        },
        None => false,
    }
}

/// Locates subcommand `name`: first in the listing `libexec` of the private
/// executables directory, then on the search path, whose probed candidates are
/// `candidates`. Not found anywhere gives the unavailable status.
pub fn locate_subcommand(
    probe: &Probe,
    prefix: &str,
    name: &str,
    libexec: &Vec<EntryInfo>,
    candidates: &Vec<Option<EntryInfo>>,
) -> (r: Result<Subcommand, PortableStatus>)
    ensures
        r is Ok ==> r->Ok_0.name@ == name@,
        (exists|i: int| 0 <= i < libexec@.len() && provides(prefix@, name@, #[trigger] libexec@[i]))
            ==> exists|i: int|
            0 <= i < libexec@.len() && provides(prefix@, name@, #[trigger] libexec@[i]) && (forall|
                j: int,
            | 0 <= j < i ==> !provides(prefix@, name@, #[trigger] libexec@[j])) && r is Ok
                && r->Ok_0.path == libexec@[i].path,
        (forall|i: int| 0 <= i < libexec@.len() ==> !provides(prefix@, name@, #[trigger] libexec@[i]))
            ==> {
            &&& r is Err <==> forall|i: int|
                0 <= i < candidates@.len() ==> !resolves(*probe, prefix@, #[trigger] candidates@[i])
            &&& r is Err ==> r->Err_0 == PortableStatus::Exit(EX_UNAVAILABLE)
            &&& r is Ok ==> exists|i: int|
                0 <= i < candidates@.len() && resolves(*probe, prefix@, #[trigger] candidates@[i]) && (
                forall|j: int| 0 <= j < i ==> !resolves(*probe, prefix@, #[trigger] candidates@[j]))
                    && r->Ok_0.path == candidates@[i]->0.path
        },
{
    let mut i: usize = 0;
    while i < libexec.len()
        invariant
            i <= libexec@.len(),
            forall|j: int| 0 <= j < i ==> !provides(prefix@, name@, #[trigger] libexec@[j]),
        decreases libexec.len() - i,
    {
        if entry_provides(prefix, name, &libexec[i]) {
            let ghost at = i as int;
            assert(provides(prefix@, name@, libexec@[at]));
            return Ok(Subcommand { name: name.to_owned(), path: libexec[i].path.clone() });
        }
        i = i + 1;
    }
    match SubcommandsProvider::find(probe, prefix, name, candidates) {
        Some(c) => Ok(c),
        None => Err(PortableStatus::Exit(EX_UNAVAILABLE)),
    }
}

} // verus!
