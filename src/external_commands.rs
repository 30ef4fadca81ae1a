//! A collected list of external commands that can be searched by name.
use crate::probe::{EntryInfo, Probe};
use crate::subcommands_provider::{listing, listings, scan, Subcommand};
use std::path::PathBuf;
use vstd::prelude::*;
use vstd::std_specs::iter::IteratorSpec;

verus! {

/// An external command: its name and the executable that provides it.
#[derive(Debug, PartialEq, Eq, Clone)]
pub struct ExternalCommand {
    pub name: String,
    pub path: PathBuf,
}

impl View for ExternalCommand {
    type V = (Seq<char>, PathBuf);

    open spec fn view(&self) -> (Seq<char>, PathBuf) {
        (self.name@, self.path)
    }
}

/// The external commands of one enumeration, in search-path order.
#[derive(Debug, Clone)]
pub struct ExternalCommands {
    commands: Vec<ExternalCommand>,
}

impl View for ExternalCommands {
    type V = Seq<(Seq<char>, PathBuf)>;

    closed spec fn view(&self) -> Seq<(Seq<char>, PathBuf)> {
        self.commands@.map_values(|c: ExternalCommand| c@)
    }
}

impl ExternalCommands {
    /// Collects the commands of `prefix` in the directory listings `dirs`,
    /// keeping those whose names hold fewer than `level` separators.
    pub fn collect(probe: &Probe, prefix: &str, level: usize, dirs: &Vec<Vec<EntryInfo>>) -> (r:
        ExternalCommands)
        ensures
            r@ == listing(*probe, prefix@, level as int, listings(dirs@)),
    {
        let found = scan(probe, prefix, level, dirs);
        let ghost want = found@.map_values(|c: Subcommand| c@);
        let mut commands: Vec<ExternalCommand> = Vec::new();
        let mut i: usize = 0;
        while i < found.len()
            invariant
                i <= found@.len(),
                want == found@.map_values(|c: Subcommand| c@),
                commands@.map_values(|c: ExternalCommand| c@) == want.subrange(0, i as int),
            decreases found.len() - i,
        {
            let c = ExternalCommand { name: found[i].name.clone(), path: found[i].path.clone() };
            assert(c@ == want[i as int]);
            let ghost prev = commands@;
            commands.push(c);
            assert(commands@.map_values(|c: ExternalCommand| c@) =~= prev.map_values(
                |c: ExternalCommand| c@,
            ).push(want[i as int]));
            assert(commands@.map_values(|c: ExternalCommand| c@) =~= want.subrange(0, i + 1));
            i = i + 1;
        }
        assert(want.subrange(0, found@.len() as int) =~= want);
        ExternalCommands { commands }
    }

    /// The commands in collection order.
    pub fn iter(&self) -> (r: std::slice::Iter<'_, ExternalCommand>)
        ensures
            r.remaining().map_values(|c: &ExternalCommand| c@) == self@,
    {
        self.commands.iter()
    }

    /// The first command called `name`, if any.
    pub fn find(&self, name: &str) -> (r: Option<&ExternalCommand>)
        ensures
            r is None <==> forall|i: int| 0 <= i < self@.len() ==> (#[trigger] self@[i]).0 != name@,
            r is Some ==> exists|i: int|
                0 <= i < self@.len() && (#[trigger] self@[i]).0 == name@ && (forall|j: int|
                    0 <= j < i ==> (#[trigger] self@[j]).0 != name@) && r->0@ == self@[i],
    {
        let target = name.to_owned();
        let mut i: usize = 0;
        while i < self.commands.len()
            invariant
                i <= self@.len(),
                target@ == name@,
                forall|j: int| 0 <= j < i ==> (#[trigger] self@[j]).0 != name@,
            decreases self.commands.len() - i,
        {
            if self.commands[i].name == target {
                let ghost at = i as int;
                assert(self@[at] == self.commands@[at]@);
                return Some(&self.commands[i]);
            }
            assert(self@[i as int] == self.commands@[i as int]@);
            i = i + 1;
        }
        None
    }
}

} // verus!
