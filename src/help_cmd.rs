//! Asking one subcommand for its help text.
use crate::external::ChildOutput;
use crate::status::{portable_status, status_of, PortableStatus, Termination, EX_OK, EX_SOFTWARE};
use vstd::prelude::*;

verus! {

/// The outcome of asking a subcommand for help.
#[derive(Debug)]
pub struct HelpCmdResult {
    /// Whether the subcommand exited with code 0.
    pub success: bool,
    /// The status its termination maps to.
    pub code: PortableStatus,
    /// Its stdout on success, else its stderr.
    pub output: Vec<u8>,
}

/// Runs a subcommand with `--help` in front of the given arguments.
#[derive(Clone, Copy, Debug, PartialEq, Eq, Structural)]
pub struct HelpCmd {
    pub is_debug: bool,
}

impl HelpCmd {
    /// The outcome of a help request: `run` is `None` where the child could not
    /// be spawned, which gives the software-error status.
    pub fn finish(&self, run: Option<ChildOutput>) -> (r: Result<HelpCmdResult, PortableStatus>)
        ensures
            run is None <==> r is Err,
            r is Err ==> r->Err_0 == PortableStatus::Exit(EX_SOFTWARE),
            r is Ok ==> ({
                let o = run->0;
                let res = r->Ok_0;
                if o.status == Termination::Exited(0) {
                    res.success && res.code == PortableStatus::Exit(EX_OK) && res.output@
                        == o.stdout@
                } else {
                    !res.success && res.code == status_of(o.status) && res.output@
                        == o.stderr@
                }
            }),
    {
        match run {
            None => Err(PortableStatus::Exit(EX_SOFTWARE)),
            Some(o) => match o.status {
                Termination::Exited(0) => Ok(
                    HelpCmdResult { success: true, code: PortableStatus::Exit(EX_OK), output: o.stdout },
                ),
                _ => Ok(
                    HelpCmdResult {
                        success: false,
                        code: portable_status(o.status),
                        output: o.stderr,
                    },
                ),
            },
        }
    }
}

} // verus!
