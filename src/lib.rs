//! A turnstyle: an ordered line of waiters that a coordinator lets through one
//! at a time. Each waiter learns its all-time position through the turnstyle.
mod outside;
mod slot;

pub mod line;
pub mod laws;
pub mod turnstyle;

pub use line::{Line, LineView, Waiter};
pub use turnstyle::Turnstyle;
