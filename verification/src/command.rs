//! The model's answer to an update: whether the view tree must be
//! recompiled.

use vstd::prelude::*;

verus! {

/// What the driver must do after a model update: nothing, or discard
/// the current drawer tree and compile a fresh one from the model's
/// view.
#[derive(Debug, Clone, Copy, PartialEq, Eq, Structural)]
pub enum Command {
    Nothing,
    Update,
}

} // verus!
