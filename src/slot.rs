//! The two ends of one place in line: a slot, which sends, and a stub, which
//! receives. Both are made together and record the one number that passes
//! between them; only `channel_for` sets it.
use vstd::prelude::*;
use futures::sync::oneshot::{Receiver, Sender};
use crate::outside::send_value;

verus! {

/// The sending end: futures' one-shot sender and the number it will send. A
/// slot that is dropped unsent sends its number first, so no receiver is left
/// waiting when the line goes away.
pub(crate) struct Slot {
    tx: Option<Sender<usize>>,
    seq: usize,
}

/// The receiving end paired with a slot, and the number that slot sends.
pub(crate) struct Stub {
    rx: Receiver<usize>,
    seq: usize,
}

/// Relies on futures' `oneshot::channel`: a fresh sender and its paired
/// receiver. Both ends are recorded with `seq`, the number that the slot
/// sends (`Slot::release` sends nothing else).
#[verifier::external_body]
pub(crate) fn channel_for(seq: usize) -> (r: (Slot, Stub))
    ensures
        r.0.seq() == seq,
        r.0.armed(),
        r.1.seq() == seq,
{
    let (tx, rx) = futures::sync::oneshot::channel::<usize>();
    (Slot { tx: Some(tx), seq }, Stub { rx, seq })
}

/// Relies on futures' `oneshot::Receiver::try_recv`, which needs no task and
/// does not panic: `Ok(Some(v))` once the paired sender has sent `v`, and
/// `Ok(None)` before. The value comes back as `Ok`, which is the stub's number
/// (the paired slot sends nothing else); the stub is handed back while nothing
/// has come, so it is asked again only before its value was taken. A
/// `Canceled` needs the sender dropped unsent, which a slot never is; it too
/// hands the stub back.
#[verifier::external_body]
pub(crate) fn try_receive(stub: Stub) -> (r: Result<usize, Stub>)
    ensures
        r matches Ok(n) ==> n == stub.seq(),
        r matches Err(s) ==> s.seq() == stub.seq(),
{
    let mut stub = stub;
    match stub.rx.try_recv() {
        Ok(Some(v)) => Ok(v),
        Ok(None) => Err(stub),
        Err(_canceled) => Err(stub),
    }
}

impl Slot {
    /// The number this slot sends.
    pub(crate) closed spec fn seq(&self) -> usize {
        self.seq
    }

    /// The slot has not sent yet.
    pub(crate) closed spec fn armed(&self) -> bool {
        self.tx is Some
    }

    /// Sends this slot's number, once; later calls do nothing.
    fn release(&mut self)
        ensures
            final(self).seq == old(self).seq,
            !final(self).armed(),
        opens_invariants none
        no_unwind
    {
        let mut tx: Option<Sender<usize>> = None;
        core::mem::swap(&mut self.tx, &mut tx);
        match tx {
            Some(tx) => send_value(tx, self.seq),
            None => {},
        }
    }

    /// Lets the receiver of this slot through, with the slot's own number.
    pub(crate) fn fire(self) {
        let mut slot = self;
        slot.release();
    }
}

impl Drop for Slot {
    fn drop(&mut self)
        opens_invariants none
        no_unwind
    {
        self.release();
    }
}

impl Stub {
    /// The number the paired slot sends.
    pub(crate) closed spec fn seq(&self) -> usize {
        self.seq
    }

    /// The bare receiver, for a caller that waits on it as a future.
    pub(crate) fn into_receiver(self) -> Receiver<usize> {
        self.rx
    }
}

} // verus!
