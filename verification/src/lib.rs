//! Session engine of a terminal review tool: the item model, text helpers,
//! navigation and caches, modal key dispatch and the split-pane layout.

pub mod dispatch;
pub mod layout;
pub mod model;
pub mod parse;
pub mod queue;
pub mod source;
pub mod state;
pub mod text;
pub mod width;
