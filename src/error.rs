use vstd::prelude::*;

verus! {

/// Errors reported by the library.
#[derive(Clone, Copy, Debug, PartialEq, Eq, Structural)]
pub enum Error {
    /// A hexadecimal group identifier was malformed.
    Hex,
}

} // verus!
