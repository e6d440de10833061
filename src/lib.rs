//! Client-side state and view-model logic for a chat platform desktop client:
//! guild ordering, the channel tree, and the event reducer over the session.
pub mod api;
pub mod client;
pub mod hierarchy;
pub mod ordering;
pub mod sorting;
pub mod state;
pub mod text;
