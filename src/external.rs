//! Running a resolved subcommand: what its outcome is made of.
use crate::status::{portable_status, status_of, PortableStatus, Termination, EX_SOFTWARE};
use vstd::prelude::*;

verus! {

/// What a finished child handed back: how it ended, and what it wrote on the
/// streams that were piped (empty for streams it inherited).
#[derive(Debug)]
pub struct ChildOutput {
    pub status: Termination,
    pub stdout: Vec<u8>,
    pub stderr: Vec<u8>,
}

/// The outcome of running a subcommand.
#[derive(Debug)]
pub struct ExternalResult {
    /// The status the subcommand's termination maps to.
    pub code: PortableStatus,
    /// What it wrote on stdout, when its output was piped; `None` otherwise.
    pub stdout: Option<Vec<u8>>,
    /// What it wrote on stderr, when its output was piped; `None` otherwise.
    pub stderr: Option<Vec<u8>>,
}

/// Runs a subcommand, with its output either passed through or piped.
#[derive(Clone, Copy, Debug, PartialEq, Eq, Structural)]
pub struct External {
    pub is_debug: bool,
    pub pipe_output: bool,
}

impl External {
    /// The outcome of a run: `run` is `None` where the child could not be spawned,
    /// which gives the software-error status.
    pub fn finish(&self, run: Option<ChildOutput>) -> (r: Result<ExternalResult, PortableStatus>)
        ensures
            run is None <==> r is Err,
            r is Err ==> r->Err_0 == PortableStatus::Exit(EX_SOFTWARE),
            r is Ok ==> ({
                let o = run->0;
                let res = r->Ok_0;
                &&& res.code == status_of(o.status)
                &&& (res.stdout is Some <==> self.pipe_output)
                &&& (res.stderr is Some <==> self.pipe_output)
                &&& self.pipe_output ==> res.stdout->0@ == o.stdout@ && res.stderr->0@
                    == o.stderr@
            }),
    {
        match run {
            None => Err(PortableStatus::Exit(EX_SOFTWARE)),
            Some(o) => {
                let code = portable_status(o.status);
                if self.pipe_output {
                    Ok(ExternalResult { code, stdout: Some(o.stdout), stderr: Some(o.stderr) })
                } else {
                    Ok(ExternalResult { code, stdout: None, stderr: None })
                }
            },
        }
    }
}

} // verus!
