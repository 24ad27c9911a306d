use vstd::prelude::*;

verus! {

/// Why a packet could not be processed.
#[derive(Clone, Copy, Debug, PartialEq, Eq, Structural)]
pub enum Error {
    /// A header was asked for at a place where the packet has too few bytes.
    ///
    /// The packet is truncated or malformed and has to be dropped.
    OutOfBounds,
}

} // verus!
