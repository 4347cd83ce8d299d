//! The errors that system calls and the loader report.

use vstd::prelude::*;
use ax_errno::{AxErrorKind, LinuxError};

verus! {

/// Why an operation did not succeed.
#[derive(Clone, Copy, PartialEq, Eq, Structural, Debug)]
pub enum KernelError {
    /// An argument is not acceptable.
    InvalidInput,
    /// A file's contents are malformed.
    InvalidData,
    /// The file is not a program that can be run.
    InvalidExecutable,
    /// What was to be created is there already.
    AlreadyExists,
    /// A user address is not usable.
    BadAddress,
    /// The operation would have to wait.
    WouldBlock,
    /// Any other error, by its Linux error number.
    Other(i32),
}

/// A condition under which the kernel cannot go on: it stops with a panic.
#[derive(Clone, Copy, PartialEq, Eq, Structural, Debug)]
pub enum Fault {
    /// An address or a size does not fit in a machine word.
    Overflow,
    /// A segment's address and file offset differ within a page.
    SegmentOffset,
    /// The program header table has a layout that cannot be read.
    ProgramHeaders,
    /// The interpreter's path could not be read as a whole.
    ShortInterpreter,
    /// The cache does not hold the program that is being loaded.
    MissingEntry,
    /// No segment covers the program header table.
    UnmappedHeaders,
    /// The initial stack cannot be laid out.
    StackRegion,
    /// There is no program to run first.
    NoProgram,
    /// A buffer is shorter than what is to be taken from it.
    ShortBuffer,
    /// A signal could not be sent.
    Signal,
}

/// The Linux error number of an error.
pub open spec fn errno(e: KernelError) -> i32 {
    match e {
        KernelError::InvalidInput | KernelError::InvalidData => 22,
        KernelError::InvalidExecutable => 8,
        KernelError::AlreadyExists => 17,
        KernelError::BadAddress => 14,
        KernelError::WouldBlock => 11,
        KernelError::Other(n) => n,
    }
}

/// `ax_errno::LinuxError::from` and `ax_errno::LinuxError::code`. Trusted: the
/// number of the Linux error that an error of the given kind stands for.
#[verifier::external_body]
fn kind_errno(e: KernelError) -> (r: i32)
    requires
        !(e is Other),
    ensures
        r == errno(e),
{
    let kind = match e {
        KernelError::InvalidInput => AxErrorKind::InvalidInput,
        KernelError::InvalidData => AxErrorKind::InvalidData,
        KernelError::InvalidExecutable => AxErrorKind::InvalidExecutable,
        KernelError::AlreadyExists => AxErrorKind::AlreadyExists,
        KernelError::BadAddress => AxErrorKind::BadAddress,
        KernelError::WouldBlock => AxErrorKind::WouldBlock,
        KernelError::Other(_) => AxErrorKind::Io,
    };
    LinuxError::from(kind).code()
}

impl KernelError {
    /// The Linux error number.
    pub fn errno(self) -> (r: i32)
        ensures
            r == errno(self),
    {
        match self {
            KernelError::Other(n) => n,
            _ => kind_errno(self),
        }
    }
}

// ---------- Laws ----------

/// Errors have the numbers that Linux gives them: `EINVAL` is 22, `ENOEXEC` 8,
/// `EEXIST` 17, `EFAULT` 14 and `EAGAIN` 11. Any other error keeps its number.
pub proof fn law_errno(e: KernelError)
    ensures
        errno(e) == 22 <== e is InvalidInput || e is InvalidData,
        errno(e) == 8 <== e is InvalidExecutable,
        errno(e) == 17 <== e is AlreadyExists,
        errno(e) == 14 <== e is BadAddress,
        errno(e) == 11 <== e is WouldBlock,
        e matches KernelError::Other(n) ==> errno(e) == n,
{
}

} // verus!
