//! The actions of a container's life cycle.

use vstd::prelude::*;

verus! {

/// What can be asked of a container.
#[derive(Debug, Clone, Copy)]
pub enum Action {
    Create,
    Start,
    Pause,
    Resume,
    Kill,
}

} // verus!
