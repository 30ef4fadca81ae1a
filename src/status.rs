//! How a child's termination becomes the dispatcher's own exit status.
use vstd::prelude::*;

verus! {

/// Successful termination.
pub const EX_OK: u8 = 0;

/// Service unavailable: no executable provides the requested subcommand.
pub const EX_UNAVAILABLE: u8 = 69;

/// Internal software error: the child could not be spawned, or its code is not recognized.
pub const EX_SOFTWARE: u8 = 70;

/// How a child process ended: normal exit and death by signal are the only two ways.
#[derive(Clone, Copy, Debug, PartialEq, Eq, Structural)]
pub enum Termination {
    /// It exited with this code.
    Exited(i32),
    /// An uncaught signal with this number ended it.
    Signaled(i32),
}

/// A portable exit status: a sysexits code, or the shell's code for a death by signal.
#[derive(Clone, Copy, Debug, PartialEq, Eq, Structural)]
pub enum PortableStatus {
    /// A code of the sysexits convention (0, or 64 through 78).
    Exit(u8),
    /// `128 | signal`, masked to one byte.
    Signal(u8),
}

/// The codes of the sysexits convention.
pub open spec fn is_sysexit_code(c: u8) -> bool {
    c == 0 || (64 <= c && c <= 78)
}

/// A status whose `Exit` code belongs to the sysexits convention.
pub open spec fn status_wf(s: PortableStatus) -> bool {
    match s {
        PortableStatus::Exit(c) => is_sysexit_code(c),
        PortableStatus::Signal(_) => true,
    }
}

/// The sysexits status of an exit code: the recognized code of its low byte,
/// else the software-error code.
pub open spec fn exit_status_of(code: i32) -> u8 {
    if is_sysexit_code(code as u8) {
        code as u8
    } else {
        EX_SOFTWARE
    }
}

/// The portable status of a termination.
pub open spec fn status_of(t: Termination) -> PortableStatus {
    match t {
        Termination::Exited(c) => PortableStatus::Exit(exit_status_of(c)),
        Termination::Signaled(n) => PortableStatus::Signal((128i32 | (n & 0xffi32)) as u8),
    }
}

/// Relies on `SysexitsError::try_from(i32)`: it accepts exactly the codes whose
/// low byte is 0 or lies in 64..=78, and gives the variant whose value is that byte.
#[verifier::external_body]
fn recognized_exit_code(code: i32) -> (r: Option<u8>)
    ensures
        r == if is_sysexit_code(code as u8) {
            Some(code as u8)
        } else {
            None
        },
{
    match clientele::SysexitsError::try_from(code) {
        Ok(e) => Some(e as u8),
        Err(_) => None,
    }
}

/// The sysexits status of an exit code.
pub fn exit_status_code(code: i32) -> (r: u8)
    ensures
        r == exit_status_of(code),
        is_sysexit_code(r),
{
    match recognized_exit_code(code) {
        Some(c) => c,
        None => EX_SOFTWARE,
    }
}

/// Maps how a child ended to the status the dispatcher reports.
pub fn portable_status(t: Termination) -> (r: PortableStatus)
    ensures
        r == status_of(t),
        status_wf(r),
{
    match t {
        Termination::Exited(c) => PortableStatus::Exit(exit_status_code(c)),
        Termination::Signaled(n) => PortableStatus::Signal((128i32 | (n & 0xffi32)) as u8),
    }
}

impl PortableStatus {
    /// The one-byte code handed to the operating system.
    pub fn code(&self) -> (r: u8)
        ensures
            r == match *self {
                PortableStatus::Exit(c) => c,
                PortableStatus::Signal(c) => c,
            },
    {
        match *self {
            PortableStatus::Exit(c) => c,
            PortableStatus::Signal(c) => c,
        }
    }

    /// Whether this is the success status.
    pub fn is_success(&self) -> (r: bool)
        ensures
            r == (*self == PortableStatus::Exit(EX_OK)),
    {
        match *self {
            PortableStatus::Exit(c) => c == EX_OK,
            PortableStatus::Signal(_) => false,
        }
    }
}

} // verus!

verus! {

/// A child that exits with code 0 reports success; one that a signal ends
/// reports `128 | signal`, in one byte.
pub proof fn lemma_status_conventions(n: i32)
    ensures
        status_of(Termination::Exited(0)) == PortableStatus::Exit(EX_OK),
        status_of(Termination::Signaled(n)) == PortableStatus::Signal((128i32 | (n & 0xffi32)) as u8),
        128 <= status_of(Termination::Signaled(n))->Signal_0,
{
    assert((0i32 as u8) == 0u8) by (bit_vector);
    assert(128u8 <= ((128i32 | (n & 0xffi32)) as u8)) by (bit_vector);
}

} // verus!
