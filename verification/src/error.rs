//! What can go wrong inside the naming rules.

use vstd::prelude::*;

verus! {

/// The reasons for which a request is turned down.
#[derive(Debug, Clone, Copy, PartialEq, Eq, Structural)]
pub enum NamingError {
    /// The text is not a hardware address.
    InvalidHwaddr,
    /// The text is not a link name of this scheme.
    InvalidName,
    /// The prefix is the one the kernel itself hands out.
    KernelPrefix,
    /// The prefix has more characters than a link name leaves room for.
    PrefixTooLong,
    /// The search pattern for the prefix could not be compiled.
    Pattern,
    /// Every number that a name could carry is taken.
    NoFreeName,
}

} // verus!
