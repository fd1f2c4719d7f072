//! The line itself: a queue of one-shot slots and the number of the next
//! admission, with no sharing. `Turnstyle` shares one of these between threads.
use vstd::prelude::*;
use futures::sync::oneshot::Receiver;
use futures::{Async, Poll};
use std::collections::VecDeque;
use crate::slot::{channel_for, try_receive, Slot, Stub};

verus! {

/// The sequence number `i` places behind `next`, counted as `usize` counts:
/// modulo `usize::MAX + 1`.
pub open spec fn seq_after(next: usize, i: nat) -> usize {
    if next + i <= usize::MAX {
        (next + i) as usize
    } else {
        ((next + i) % (usize::MAX + 1)) as usize
    }
}

/// Adding below twice the modulus wraps at most once.
pub proof fn lemma_wrap(a: int)
    requires
        0 <= a < 2 * (usize::MAX + 1),
    ensures
        a % (usize::MAX + 1) == if a <= usize::MAX { a } else { a - (usize::MAX + 1) },
{
    let m = usize::MAX + 1;
    if a <= usize::MAX {
        vstd::arithmetic::div_mod::lemma_small_mod(a as nat, m as nat);
    } else {
        vstd::arithmetic::div_mod::lemma_small_mod((a - m) as nat, m as nat);
        vstd::arithmetic::div_mod::lemma_mod_sub_multiples_vanish(a, m);
    }
}

/// Counting `a` places and then `b` more is counting `a + b` places.
pub proof fn lemma_seq_add(next: usize, a: nat, b: nat)
    ensures
        seq_after(seq_after(next, a), b) == seq_after(next, a + b),
{
    let m = usize::MAX + 1;
    vstd::arithmetic::div_mod::lemma_add_mod_noop_right(b as int, next + a, m);
    if next + a <= usize::MAX {
        lemma_wrap(next + a);
    }
    if seq_after(next, a) + b <= usize::MAX {
        lemma_wrap(seq_after(next, a) + b);
    }
    if next + a + b <= usize::MAX {
        lemma_wrap(next + a + b);
    }
}

/// What a line is, seen from outside: the sequence number that the next
/// admission hands out, and how many waiters stand in line.
pub struct LineView {
    pub next: usize,
    pub waiting: nat,
}

impl LineView {
    /// The sequence number that the waiter joining now will receive.
    pub open spec fn ticket(self) -> usize {
        seq_after(self.next, self.waiting)
    }

    /// The line after one more waiter joins.
    pub open spec fn joined(self) -> LineView {
        LineView { waiting: self.waiting + 1, ..self }
    }

    /// The sequence number that a turn hands out now, if anyone waits.
    pub open spec fn admission(self) -> Option<usize> {
        if self.waiting > 0 {
            Some(self.next)
        } else {
            None
        }
    }

    /// The line after one turn: the head leaves and the counter advances;
    /// an empty line stays as it is.
    pub open spec fn turned(self) -> LineView {
        if self.waiting > 0 {
            LineView { next: seq_after(self.next, 1), waiting: (self.waiting - 1) as nat }
        } else {
            self
        }
    }
}

/// Where a waiter stands: still waiting on its stub, or let through with
/// the number it received.
enum Progress {
    Waiting(Stub),
    Through(usize),
}

/// A waiter's handle: it completes with the waiter's sequence number once the
/// turnstyle lets it through, and keeps that number.
pub struct Waiter {
    progress: Progress,
    seq: usize,
}

impl View for Waiter {
    type V = usize;

    /// The sequence number that this waiter's slot carries.
    closed spec fn view(&self) -> usize {
        self.seq
    }
}

impl Waiter {
    /// Whatever the waiter holds is for its own number.
    #[verifier::type_invariant]
    spec fn own_number(self) -> bool {
        match self.progress {
            Progress::Waiting(stub) => stub.seq() == self.seq,
            Progress::Through(n) => n == self.seq,
        }
    }

    /// The number this waiter has received, once it has.
    pub closed spec fn received(&self) -> Option<usize> {
        match self.progress {
            Progress::Waiting(_) => None,
            Progress::Through(n) => Some(n),
        }
    }

    /// Asks, without blocking and without a task, whether this waiter has
    /// been let through: `Ready` with its sequence number once it has, and
    /// the same again on every later call; `NotReady` before. Never an error.
    pub fn poll(&mut self) -> (r: Poll<usize, ()>)
        ensures
            final(self)@ == old(self)@,
            r is Ok,
            r matches Ok(Async::Ready(n)) ==> n == old(self)@,
            r matches Ok(Async::Ready(n)) ==> final(self).received() == Some(n),
            r matches Ok(Async::NotReady) ==> final(self).received() is None,
            old(self).received() matches Some(n) ==> r == Ok::<Async<usize>, ()>(Async::Ready(n)),
    {
        proof {
            use_type_invariant(&*self);
        }
        let mut progress = Progress::Through(self.seq);
        core::mem::swap(&mut self.progress, &mut progress);
        match progress {
            Progress::Through(n) => {
                self.progress = Progress::Through(n);
                Ok(Async::Ready(n))
            },
            Progress::Waiting(stub) => match try_receive(stub) {
                Ok(n) => {
                    self.progress = Progress::Through(n);
                    Ok(Async::Ready(n))
                },
                Err(stub) => {
                    self.progress = Progress::Waiting(stub);
                    Ok(Async::NotReady)
                },
            },
        }
    }

    /// Gives the waiter up for what waits on it as a future: its number if it
    /// has received it, else the bare one-shot receiver, whose value is that
    /// number.
    pub fn into_receiver(self) -> (r: Result<usize, Receiver<usize>>)
        ensures
            r is Ok <==> self.received() is Some,
            r matches Ok(n) ==> n == self@,
    {
        proof {
            use_type_invariant(&self);
        }
        let mut w = self;
        let mut progress = Progress::Through(w.seq);
        core::mem::swap(&mut w.progress, &mut progress);
        match progress {
            Progress::Through(n) => Ok(n),
            Progress::Waiting(stub) => Err(stub.into_receiver()),
        }
    }
}

/// The queue of waiting slots, oldest first, and the sequence number that the
/// next admission hands out. Every queued slot carries the number it will be
/// admitted with.
pub struct Line {
    slots: VecDeque<Slot>,
    next: usize,
}

impl Line {
    /// The slot `i` places behind the head carries the number `i` places
    /// behind the counter, and has not sent yet.
    #[verifier::type_invariant]
    spec fn numbered(self) -> bool {
        forall|i: int|
            0 <= i < self.slots@.len() ==> {
                &&& (#[trigger] self.slots@[i]).seq() == seq_after(self.next, i as nat)
                &&& self.slots@[i].armed()
            }
    }

    /// The counter and the length of the line.
    pub closed spec fn view(&self) -> LineView {
        LineView { next: self.next, waiting: self.slots@.len() }
    }

    /// An empty line whose first admission hands out 0.
    pub fn new() -> (r: Line)
        ensures
            r.view() == (LineView { next: 0, waiting: 0 }),
    {
        Line { slots: VecDeque::new(), next: 0 }
    }

    /// Joins the back of the line. The waiter returned will be let through
    /// with the line's current ticket.
    pub fn join(&mut self) -> (w: Waiter)
        ensures
            final(self).view() == old(self).view().joined(),
            w@ == old(self).view().ticket(),
            w.received() is None,
    {
        proof {
            use_type_invariant(&*self);
        }
        let seq = self.next.wrapping_add(self.slots.len());
        proof {
            lemma_wrap(self.next as int + self.slots@.len());
        }
        let (slot, stub) = channel_for(seq);
        let mut slots = self.take_slots();
        slots.push_back(slot);
        self.slots = slots;
        Waiter { progress: Progress::Waiting(stub), seq }
    }

    /// Takes the queue out, leaving an empty one behind.
    fn take_slots(&mut self) -> (r: VecDeque<Slot>)
        ensures
            r@ == old(self).slots@,
            final(self).slots@.len() == 0,
            final(self).next == old(self).next,
    {
        let mut slots: VecDeque<Slot> = VecDeque::new();
        core::mem::swap(&mut self.slots, &mut slots);
        slots
    }

    /// Takes the head of the line out, under the number it carries, and
    /// advances the counter. The slot is handed back unsent, so that the
    /// caller can send after letting go of any lock.
    pub(crate) fn take_head(&mut self) -> (r: Option<Slot>)
        ensures
            final(self).view() == old(self).view().turned(),
            r.is_some() == old(self).view().admission().is_some(),
            r.is_some() ==> r.unwrap().seq() == old(self).view().admission().unwrap(),
    {
        proof {
            use_type_invariant(&*self);
        }
        let mut slots = self.take_slots();
        match slots.pop_front() {
            Some(slot) => {
                proof {
                    lemma_wrap(self.next as int);
                    lemma_wrap(self.next as int + 1);
                    assert(slot == old(self).slots@[0]);
                    assert forall|i: int| 0 <= i < slots@.len() implies (#[trigger] slots@[i]).seq()
                        == seq_after(seq_after(self.next, 1), i as nat) by {
                        assert(slots@[i] == old(self).slots@[i + 1]);
                        lemma_seq_add(self.next, 1, i as nat);
                    }
                }
                self.next = self.next.wrapping_add(1);
                self.slots = slots;
                Some(slot)
            },
            None => {
                self.slots = slots;
                None
            },
        }
    }

    /// Turns once: lets the head of the line through with the current
    /// sequence number and advances the counter. Returns that number, or
    /// `None`, changing nothing, when nobody waits.
    pub fn pass_one(&mut self) -> (r: Option<usize>)
        ensures
            final(self).view() == old(self).view().turned(),
            r == old(self).view().admission(),
    {
        let seq = self.next;
        match self.take_head() {
            Some(slot) => {
                slot.fire();
                Some(seq)
            },
            None => None,
        }
    }

    /// Turns once, letting a single waiter through. Returns whether anyone
    /// was waiting; when nobody was, the line and its counter stay as they are.
    pub fn turn(&mut self) -> (r: bool)
        ensures
            final(self).view() == old(self).view().turned(),
            r == (old(self).view().waiting > 0),
    {
        self.pass_one().is_some()
    }
}

} // verus!
