//! Error codes that kernel operations report to their callers.
use vstd::prelude::*;

verus! {

/// The error codes of the kernel interface that the kernel logic produces.
#[derive(Clone, Copy, Debug, PartialEq, Eq, Structural)]
pub enum Code {
    Success,
    InvArgs,
    NoSpace,
    Exists,
    NotFound,
    InvCap,
    NoPerm,
    NotSup,
    InvState,
    ObjectGone,
    NotRevocable,
    CapCountTooLarge,
    LastCapOverflow,
    RecvGone,
    NoSuchFile,
    InvalidElf,
    Unspecified,
}

} // verus!
