//! The application-facing model contract.

use crate::command::Command;
use crate::event::Subscriptions;
use crate::view::View;
use vstd::prelude::*;

verus! {

/// An application model: initial state, declarative subscriptions, a
/// state transition per message, and a view of the current state.
pub trait Model: Sized {
    type Flags;

    type Message: Copy;

    fn init(flags: Self::Flags) -> (Self, Command);

    fn subscriptions() -> Subscriptions<Self::Message>;

    fn update(&mut self, message: Self::Message) -> Command;

    fn view(&self) -> View<Self::Message>;
}

} // verus!
