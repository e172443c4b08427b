//! A small retained-mode GUI toolkit: a declarative view tree is compiled
//! into a tree of drawers, laid out by a pixel/fill/fill-portion sizing
//! language, and rendered through a command-list abstraction over a GPU
//! backend.

pub mod basics;
pub mod command;
pub mod event;
pub mod drawer;
pub mod graphics;
pub mod math;
pub mod model;
pub mod program;
pub mod view;

pub use command::Command;
pub use drawer::{CommonDrawer, Drawer, LeafDrawer};
pub use event::{Action, Event, MouseButton, Subscriptions};
pub use graphics::{Color, Context};
pub use math::{Bounds, Interval, Point};
pub use model::Model;
pub use program::Size;
pub use view::{Border, Column, Container, Indents, Length, Orientation, Row, Style, View};
