//! Widget-tree bookkeeping and the visibility state machine of an animated
//! visibility widget, with their contracts proved by Verus.
pub mod arena;
pub mod types;
pub mod tree;
pub mod visibility;
pub mod animated_visibility;
pub mod widget;
pub mod deinit;
