use vstd::prelude::*;

verus! {

/// The ways in which a call into the library can be refused.
#[derive(Debug, Clone, Copy, PartialEq, Eq, Structural)]
pub enum Error {
    /// An input or parameter vector whose length disagrees with the topology.
    ShapeMismatch,
    /// An optimizer configuration that cannot drive a run.
    InvalidConfig,
}

} // verus!
