//! Speech-bubble layout, terminal row budgeting, render-cache bookkeeping and
//! the renderer's fallback policy for a terminal greeter.
pub mod bubble;
pub mod rows;
pub mod cache;
pub mod render;
pub mod evict;
pub mod pipeline;
