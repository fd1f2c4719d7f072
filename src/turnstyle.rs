//! The shared turnstyle: one line behind a mutex, owned jointly by every
//! clone. When the last clone goes, the line goes with it, and each slot
//! still in it lets its waiter through with the number it carries.
use vstd::prelude::*;
use core::ops::DerefMut;
use std::sync::{Arc, Mutex};
use crate::line::{Line, Waiter};
use crate::outside::lock;

verus! {

/// An ordered line of waiting participants, shared by all of its clones.
///
/// Each turn lets the next participant through and removes it from the line;
/// a turn on an empty line does nothing. Participants receive their all-time
/// position through the turnstyle: the first one 0, the second 1, and so on.
#[derive(Clone)]
pub struct Turnstyle {
    line: Arc<Mutex<Line>>,
}

impl Turnstyle {
    /// Creates a new, empty turnstyle.
    pub fn new() -> Turnstyle {
        Turnstyle { line: Arc::new(Mutex::new(Line::new())) }
    }

    /// Joins the back of the line. The waiter returned completes when the
    /// turnstyle reaches its place.
    pub fn join(&self) -> (w: Waiter)
        ensures
            w.received() is None,
    {
        let mut guard = lock(&self.line);
        let line: &mut Line = guard.deref_mut();
        line.join()
    }

    /// Turns once, letting a single waiter through. Returns `true` if a waiter
    /// was found and let through, `false` if the line was empty. The head is
    /// taken and numbered under the lock; it is sent after the lock is let go.
    pub fn turn(&self) -> bool {
        let head = {
            let mut guard = lock(&self.line);
            let line: &mut Line = guard.deref_mut();
            line.take_head()
        };
        match head {
            Some(slot) => {
                slot.fire();
                true
            },
            None => false,
        }
    }
}

} // verus!
