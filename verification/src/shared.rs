//! Many callers on one cell. Callers arrive at any time and wait for the
//! lock; the one that holds it makes its steps; then the lock passes on.
//!
//! A moment holds the cell, every call of the process so far, and the call
//! that holds the lock, if any. A history is a sequence of moments in which
//! each follows from the one before by one move. What is proved here holds of
//! every history, that is of every way the callers may interleave.

use vstd::prelude::*;
use crate::cell::SharedBackendCell;
use crate::client::{steps, Call, Event};
use crate::run::{asks_construction, begins, kind_in, serves};

verus! {

/// The cell, the calls made so far, and which of them holds the lock.
pub struct Moment<B, U> {
    pub cell: SharedBackendCell<B>,
    pub calls: Seq<Call<U>>,
    pub holder: Option<int>,
}

/// A caller arrives: its call is added as it began, waiting for the lock or
/// over already.
pub open spec fn arrives<B, U>(m0: Moment<B, U>, m1: Moment<B, U>) -> bool {
    &&& m1.cell == m0.cell
    &&& m1.holder == m0.holder
    &&& m1.calls.len() == m0.calls.len() + 1
    &&& m1.calls == m0.calls.push(m1.calls.last())
    &&& begins(m1.calls.last())
}

/// The free lock goes to call `i`, which waits for it, and the call makes
/// its first step under the lock.
pub open spec fn acquires<B, U>(m0: Moment<B, U>, m1: Moment<B, U>, i: int) -> bool {
    &&& m0.holder is None
    &&& 0 <= i < m0.calls.len()
    &&& m0.calls[i] is AcquireLock
    &&& m1.holder == Some(i)
    &&& m1.calls.len() == m0.calls.len()
    &&& m1.calls == m0.calls.update(i, m1.calls[i])
    &&& steps(m0.cell, m0.calls[i], Event::<B>::LockAcquired, m1.cell, m1.calls[i])
}

/// Call `i`, which holds the lock, makes a step on the event `e`, or its
/// backend works on the fetch that it owes.
pub open spec fn works<B, U>(m0: Moment<B, U>, m1: Moment<B, U>, i: int, e: Event<B>) -> bool {
    &&& m0.holder == Some(i)
    &&& 0 <= i < m0.calls.len()
    &&& m1.holder == Some(i)
    &&& m1.calls.len() == m0.calls.len()
    &&& m1.calls == m0.calls.update(i, m1.calls[i])
    &&& (steps(m0.cell, m0.calls[i], e, m1.cell, m1.calls[i]) || (m0.calls[i] is Fetch
        && m1.calls[i] == m0.calls[i] && serves(m0.cell, m1.cell)))
}

/// Call `i` gives the lock back. It is over then: with its result, or given
/// up by its caller before it had one.
pub open spec fn releases<B, U>(m0: Moment<B, U>, m1: Moment<B, U>, i: int) -> bool {
    &&& m0.holder == Some(i)
    &&& 0 <= i < m0.calls.len()
    &&& m1.holder is None
    &&& m1.cell == m0.cell
    &&& m1.calls.len() == m0.calls.len()
    &&& m1.calls == m0.calls.update(i, m1.calls[i])
    &&& m1.calls[i] is Finished
    &&& (m0.calls[i] is Finished ==> m1.calls[i] == m0.calls[i])
}

/// One move leads from `m0` to `m1`.
pub open spec fn moves<B, U>(m0: Moment<B, U>, m1: Moment<B, U>) -> bool {
    ||| arrives(m0, m1)
    ||| exists|i: int| acquires(m0, m1, i)
    ||| exists|i: int, e: Event<B>| works(m0, m1, i, e)
    ||| exists|i: int| releases(m0, m1, i)
}

/// The lock is respected: the holder is one of the calls; every other call
/// waits for the lock or is over; and while the cell holds a backend, the
/// holder is not on its way to a constructor.
pub open spec fn orderly<B, U>(m: Moment<B, U>) -> bool {
    &&& m.holder matches Some(h) ==> 0 <= h < m.calls.len()
    &&& forall|j: int|
        0 <= j < m.calls.len() && m.holder != Some(j) ==> begins(#[trigger] m.calls[j])
    &&& forall|j: int|
        0 <= j < m.calls.len() && m.cell.contents() is Some ==> !asks_construction(
            #[trigger] m.calls[j],
        )
}

/// The moments form a history: the first is orderly, and each of the others
/// follows from the one before by one move.
pub open spec fn is_history<B, U>(ms: Seq<Moment<B, U>>) -> bool {
    &&& ms.len() > 0
    &&& orderly(ms[0])
    &&& forall|n: int| 0 <= n < ms.len() - 1 ==> #[trigger] moves(ms[n], ms[n + 1])
}

/// The cell is empty at moment `n` and holds a backend at the next.
pub open spec fn filled_in<B, U>(ms: Seq<Moment<B, U>>, n: int) -> bool {
    ms[n].cell.contents() is None && ms[n + 1].cell.contents() is Some
}

/// A move keeps the order, and keeps a cell that holds a backend filled with
/// a backend of the same kind.
pub proof fn lemma_move_keeps_order<B, U>(m0: Moment<B, U>, m1: Moment<B, U>)
    requires
        orderly(m0),
        moves(m0, m1),
    ensures
        orderly(m1),
        m0.cell.contents() is Some ==> m1.cell.contents() is Some && kind_in(m1.cell) == kind_in(
            m0.cell,
        ),
{
    if arrives(m0, m1) {
        assert forall|j: int| 0 <= j < m1.calls.len() implies (m1.holder != Some(j) ==> begins(
            #[trigger] m1.calls[j],
        )) && (m1.cell.contents() is Some ==> !asks_construction(m1.calls[j])) by {
            if j < m0.calls.len() {
                assert(m1.calls[j] == m0.calls[j]);
            }
        }
    } else if exists|i: int| acquires(m0, m1, i) {
        let i = choose|i: int| acquires(m0, m1, i);
        assert forall|j: int| 0 <= j < m1.calls.len() implies (m1.holder != Some(j) ==> begins(
            #[trigger] m1.calls[j],
        )) && (m1.cell.contents() is Some ==> !asks_construction(m1.calls[j])) by {
            if j != i {
                assert(m1.calls[j] == m0.calls[j]);
            }
        }
    } else if exists|i: int, e: Event<B>| works(m0, m1, i, e) {
        let (i, e) = choose|i: int, e: Event<B>| works(m0, m1, i, e);
        assert(works(m0, m1, i, e));
        assert(m0.cell.contents() is Some ==> !asks_construction(m0.calls[i]));
        assert forall|j: int| 0 <= j < m1.calls.len() implies (m1.holder != Some(j) ==> begins(
            #[trigger] m1.calls[j],
        )) && (m1.cell.contents() is Some ==> !asks_construction(m1.calls[j])) by {
            if j != i {
                assert(m1.calls[j] == m0.calls[j]);
            }
        }
    } else {
        let i = choose|i: int| releases(m0, m1, i);
        assert(releases(m0, m1, i));
        assert forall|j: int| 0 <= j < m1.calls.len() implies (m1.holder != Some(j) ==> begins(
            #[trigger] m1.calls[j],
        )) && (m1.cell.contents() is Some ==> !asks_construction(m1.calls[j])) by {
            if j != i {
                assert(m1.calls[j] == m0.calls[j]);
            }
        }
    }
}

/// Every moment of a history is orderly.
pub proof fn lemma_history_is_orderly<B, U>(ms: Seq<Moment<B, U>>, n: int)
    requires
        is_history(ms),
        0 <= n < ms.len(),
    ensures
        orderly(ms[n]),
    decreases n,
{
    if n > 0 {
        let k = n - 1;
        lemma_history_is_orderly(ms, k);
        assert(moves(ms[k], ms[k + 1]));
        lemma_move_keeps_order(ms[k], ms[k + 1]);
    }
}

/// At any moment one call at most is at work, the one that holds the lock: so
/// two calls never read the command line, construct or fetch at once, and
/// what the backend is asked comes in one order.
pub proof fn lemma_one_call_at_work<B, U>(ms: Seq<Moment<B, U>>, n: int, i: int, j: int)
    requires
        is_history(ms),
        0 <= n < ms.len(),
        0 <= i < ms[n].calls.len(),
        0 <= j < ms[n].calls.len(),
        !begins(ms[n].calls[i]),
        !begins(ms[n].calls[j]),
    ensures
        i == j,
        ms[n].holder == Some(i),
{
    lemma_history_is_orderly(ms, n);
}

/// However the callers interleave: once the cell holds a backend, it holds
/// one of that kind at every later moment.
pub proof fn lemma_history_keeps_cell<B, U>(ms: Seq<Moment<B, U>>, n: int, l: int)
    requires
        is_history(ms),
        0 <= n <= l < ms.len(),
        ms[n].cell.contents() is Some,
    ensures
        ms[l].cell.contents() is Some,
        kind_in(ms[l].cell) == kind_in(ms[n].cell),
    decreases l - n,
{
    if n < l {
        let k = l - 1;
        lemma_history_keeps_cell(ms, n, k);
        lemma_history_is_orderly(ms, k);
        assert(moves(ms[k], ms[k + 1]));
        lemma_move_keeps_order(ms[k], ms[k + 1]);
    }
}

/// However the callers interleave: once the cell holds a backend, no call, of
/// those that run and of those that wait, is on its way to a constructor or
/// to the command line.
pub proof fn lemma_history_keeps_backend<B, U>(ms: Seq<Moment<B, U>>, n: int, l: int, j: int)
    requires
        is_history(ms),
        0 <= n <= l < ms.len(),
        ms[n].cell.contents() is Some,
        0 <= j < ms[l].calls.len(),
    ensures
        !asks_construction(ms[l].calls[j]),
{
    lemma_history_keeps_cell(ms, n, l);
    lemma_history_is_orderly(ms, l);
}

/// However the callers interleave: while a call is on its way to a
/// constructor, the cell is empty and was empty at every moment before. So a
/// constructor runs a second time only where the first did not fill the cell:
/// it failed, or its caller gave the call up.
pub proof fn lemma_history_construction_needs_empty_cell<B, U>(
    ms: Seq<Moment<B, U>>,
    n: int,
    l: int,
    j: int,
)
    requires
        is_history(ms),
        0 <= n <= l < ms.len(),
        0 <= j < ms[l].calls.len(),
        asks_construction(ms[l].calls[j]),
    ensures
        ms[n].cell.contents() is None,
{
    if ms[n].cell.contents() is Some {
        lemma_history_keeps_backend(ms, n, l, j);
    }
}

/// However the callers interleave, the cell is filled once at most: after
/// the move that fills it, no move fills it again.
pub proof fn lemma_history_fills_once<B, U>(ms: Seq<Moment<B, U>>, n: int, l: int)
    requires
        is_history(ms),
        0 <= n < l < ms.len() - 1,
        filled_in(ms, n),
    ensures
        !filled_in(ms, l),
{
    lemma_history_keeps_cell(ms, n + 1, l);
}

/// Only the holder of the lock fills the cell, by the step that takes the
/// backend which was constructed for it.
pub proof fn lemma_filled_by_the_holder<B, U>(ms: Seq<Moment<B, U>>, n: int)
    requires
        is_history(ms),
        0 <= n < ms.len() - 1,
        filled_in(ms, n),
    ensures
        ms[n].holder matches Some(h) && 0 <= h < ms[n].calls.len() && ms[n].calls[h] is Construct,
{
    lemma_history_is_orderly(ms, n);
    let m0 = ms[n];
    let m1 = ms[n + 1];
    assert(moves(m0, m1));
    if exists|i: int, e: Event<B>| works(m0, m1, i, e) {
        let (i, e) = choose|i: int, e: Event<B>| works(m0, m1, i, e);
        assert(works(m0, m1, i, e));
    } else if exists|i: int| acquires(m0, m1, i) {
        let i = choose|i: int| acquires(m0, m1, i);
        assert(acquires(m0, m1, i));
    } else if exists|i: int| releases(m0, m1, i) {
        let i = choose|i: int| releases(m0, m1, i);
        assert(releases(m0, m1, i));
    }
}

} // verus!
