//! The user interface's decisions: what the menu bar icon says, and what the
//! roster does with a key press or a search.
pub mod statusitem;
pub mod roster;
pub mod demo;
pub mod events;
