//! What holds of any history of calls on one line. Calls on a shared
//! turnstyle run one at a time under its lock, so every run of concurrent
//! callers is one such history.
use vstd::prelude::*;
use crate::line::{lemma_seq_add, lemma_wrap, seq_after, LineView};

verus! {

/// One call on a line.
pub enum Call {
    Join,
    Turn,
}

/// The line after one call.
pub open spec fn step(v: LineView, c: Call) -> LineView {
    match c {
        Call::Join => v.joined(),
        Call::Turn => v.turned(),
    }
}

/// The line after a history of calls, oldest first.
pub open spec fn run(v: LineView, calls: Seq<Call>) -> LineView
    decreases calls.len(),
{
    if calls.len() == 0 {
        v
    } else {
        step(run(v, calls.drop_last()), calls.last())
    }
}

/// The sequence numbers carried by the waiters that the joins of a history
/// receive, in the order of the joins.
pub open spec fn tickets(v: LineView, calls: Seq<Call>) -> Seq<usize>
    decreases calls.len(),
{
    if calls.len() == 0 {
        Seq::empty()
    } else {
        let before = calls.drop_last();
        match calls.last() {
            Call::Join => tickets(v, before).push(run(v, before).ticket()),
            Call::Turn => tickets(v, before),
        }
    }
}

/// The sequence numbers that the turns of a history hand out, in the order
/// of the turns; a turn on an empty line hands out none.
pub open spec fn admissions(v: LineView, calls: Seq<Call>) -> Seq<usize>
    decreases calls.len(),
{
    if calls.len() == 0 {
        Seq::empty()
    } else {
        let before = calls.drop_last();
        match (calls.last(), run(v, before).admission()) {
            (Call::Turn, Some(n)) => admissions(v, before).push(n),
            _ => admissions(v, before),
        }
    }
}

/// Whatever the order of the calls: no slot is lost or made twice (the line
/// grows by one per join and shrinks by one per admission); each join gets the
/// number of the place behind everyone already in line; and the admissions
/// hand out the places in line order, from the head, with no gap and no
/// repeat.
pub proof fn lemma_any_history(v: LineView, calls: Seq<Call>)
    ensures
        run(v, calls).waiting + admissions(v, calls).len() == v.waiting + tickets(v, calls).len(),
        run(v, calls).next == seq_after(v.next, admissions(v, calls).len()),
        forall|i: int|
            0 <= i < tickets(v, calls).len() ==> #[trigger] tickets(v, calls)[i] == seq_after(
                v.next,
                (v.waiting + i) as nat,
            ),
        forall|i: int|
            0 <= i < admissions(v, calls).len() ==> #[trigger] admissions(v, calls)[i]
                == seq_after(v.next, i as nat),
    decreases calls.len(),
{
    if calls.len() == 0 {
        lemma_wrap(v.next as int);
    } else {
        let before = calls.drop_last();
        lemma_any_history(v, before);
        let u = run(v, before);
        let a = admissions(v, before).len();
        lemma_seq_add(v.next, a, u.waiting);
        lemma_seq_add(v.next, a, 1);
        lemma_wrap(u.next as int);
    }
}

/// Where no number wraps around, the numbers that joins receive are all
/// different, and so are the numbers that turns hand out.
pub proof fn lemma_no_repeats(v: LineView, calls: Seq<Call>)
    requires
        v.next + v.waiting + calls.len() <= usize::MAX,
    ensures
        forall|i: int, j: int|
            0 <= i < j < tickets(v, calls).len() ==> tickets(v, calls)[i] != tickets(v, calls)[j],
        forall|i: int, j: int|
            0 <= i < j < admissions(v, calls).len() ==> admissions(v, calls)[i] != admissions(
                v,
                calls,
            )[j],
{
    lemma_any_history(v, calls);
    lemma_counts(v, calls);
    assert forall|i: int, j: int|
        0 <= i < j < tickets(v, calls).len() implies tickets(v, calls)[i] != tickets(v, calls)[j] by {
        lemma_wrap(v.next + v.waiting + i);
        lemma_wrap(v.next + v.waiting + j);
    }
    assert forall|i: int, j: int|
        0 <= i < j < admissions(v, calls).len() implies admissions(v, calls)[i] != admissions(
            v,
            calls,
        )[j] by {
        lemma_wrap(v.next + i);
        lemma_wrap(v.next + j);
    }
}

/// `n` joins followed by `n` turns.
pub open spec fn joins_then_turns(n: nat) -> Seq<Call> {
    Seq::new(2 * n, |i: int| if i < n { Call::Join } else { Call::Turn })
}

/// On a new line, `n` joins followed by `n` turns: the `k`-th join's waiter
/// carries `k - 1`; after `j` of the turns exactly the first `j` waiters have
/// been let through, with 0 up to `j - 1` in join order, so the `k`-th waiter
/// goes through at the `k`-th turn and at no other; and the line ends empty.
pub proof fn lemma_joins_then_turns(n: nat)
    requires
        n <= usize::MAX,
    ensures
        ({
            let fresh = LineView { next: 0, waiting: 0 };
            let calls = joins_then_turns(n);
            &&& tickets(fresh, calls) == Seq::new(n, |i: int| i as usize)
            &&& forall|j: nat|
                j <= n ==> #[trigger] admissions(fresh, calls.take((n + j) as int)) == Seq::new(
                    j,
                    |i: int| i as usize,
                )
            &&& run(fresh, calls).waiting == 0
        }),
{
    let fresh = LineView { next: 0, waiting: 0 };
    let calls = joins_then_turns(n);
    assert(calls.take(2 * n as int) == calls);
    lemma_prefix(n, 2 * n);
    lemma_any_history(fresh, calls);
    assert forall|i: int| 0 <= i < n implies #[trigger] tickets(fresh, calls)[i] == i as usize by {
        lemma_wrap(i);
    }
    assert(tickets(fresh, calls) == Seq::new(n, |i: int| i as usize));
    assert forall|j: nat| j <= n implies #[trigger] admissions(fresh, calls.take((n + j) as int)) == Seq::new(
        j,
        |i: int| i as usize,
    ) by {
        lemma_prefix(n, n + j);
        lemma_any_history(fresh, calls.take((n + j) as int));
        let seen = admissions(fresh, calls.take((n + j) as int));
        assert forall|i: int| 0 <= i < j implies #[trigger] seen[i] == i as usize by {
            lemma_wrap(i);
        }
        assert(seen == Seq::new(j, |i: int| i as usize));
    }
}

/// How many numbers the first `m` calls of `n` joins then `n` turns hand out
/// on a new line, and how many wait after them.
proof fn lemma_prefix(n: nat, m: nat)
    requires
        m <= 2 * n,
    ensures
        ({
            let fresh = LineView { next: 0, waiting: 0 };
            let calls = joins_then_turns(n).take(m as int);
            &&& tickets(fresh, calls).len() == if m <= n { m } else { n }
            &&& admissions(fresh, calls).len() == if m <= n { 0 } else { (m - n) as nat }
            &&& run(fresh, calls).waiting == if m <= n { m } else { (2 * n - m) as nat }
        }),
    decreases m,
{
    let fresh = LineView { next: 0, waiting: 0 };
    let calls = joins_then_turns(n).take(m as int);
    if m > 0 {
        lemma_prefix(n, (m - 1) as nat);
        assert(calls.drop_last() == joins_then_turns(n).take(m - 1));
    } else {
        assert(calls.len() == 0);
    }
}

/// `n` turns.
pub open spec fn turns(n: nat) -> Seq<Call> {
    Seq::new(n, |i: int| Call::Turn)
}

/// Turning until the line is empty lets every waiter through in line order,
/// the `i`-th with the number `i` places behind the counter: the numbers that
/// the line's slots carry, and send themselves when the line is dropped.
pub proof fn lemma_drain(v: LineView)
    ensures
        admissions(v, turns(v.waiting)) == Seq::new(v.waiting, |i: int| seq_after(v.next, i as nat)),
        run(v, turns(v.waiting)).waiting == 0,
{
    lemma_turns(v, v.waiting);
    lemma_any_history(v, turns(v.waiting));
    assert(admissions(v, turns(v.waiting)) == Seq::new(
        v.waiting,
        |i: int| seq_after(v.next, i as nat),
    ));
}

/// Each of `m` turns on a line where at least `m` wait lets one through.
proof fn lemma_turns(v: LineView, m: nat)
    requires
        m <= v.waiting,
    ensures
        admissions(v, turns(m)).len() == m,
        run(v, turns(m)).waiting == v.waiting - m,
    decreases m,
{
    if m > 0 {
        lemma_turns(v, (m - 1) as nat);
        assert(turns(m).drop_last() == turns((m - 1) as nat));
    }
}

/// A history hands out no more numbers than it has calls.
proof fn lemma_counts(v: LineView, calls: Seq<Call>)
    ensures
        tickets(v, calls).len() + admissions(v, calls).len() <= calls.len(),
        admissions(v, calls).len() <= v.waiting + tickets(v, calls).len(),
    decreases calls.len(),
{
    if calls.len() > 0 {
        lemma_counts(v, calls.drop_last());
        lemma_any_history(v, calls.drop_last());
    }
}

} // verus!
