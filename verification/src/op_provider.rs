//! Building the executor of a node.

use vstd::prelude::*;

verus! {

/// Builds the executor that a node runs its blocks with.
#[derive(Debug, Default, Clone, Copy)]
#[non_exhaustive]
pub struct OpParallelExecutorBuilder;

} // verus!
