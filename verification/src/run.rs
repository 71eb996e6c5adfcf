//! Runs: the steps that calls make on one cell, in the order in which its
//! lock admits them, and what holds of every run.
//!
//! A run is a sequence of moments, each a cell and the call that holds the
//! lock, with the event that leads from one moment to the next.

use vstd::prelude::*;
use crate::cell::{Installed, SharedBackendCell};
use crate::client::{ready, steps, Call, Event, Reply};
use crate::error::ClientError;
use crate::registry::BackendKind;

verus! {

/// A call as `KbcClient::new` or `KbcClient::get_secret` hands it out.
pub open spec fn begins<U>(call: Call<U>) -> bool {
    call is AcquireLock || call is Finished
}

/// The call is on its way to a constructor: it owes the reading of the
/// command line, or the construction itself.
pub open spec fn asks_construction<U>(call: Call<U>) -> bool {
    call is ReadCommandLine || call is Construct
}

/// The kind of the backend in the cell.
pub open spec fn kind_in<B>(cell: SharedBackendCell<B>) -> Option<BackendKind> {
    match cell.contents() {
        Some(held) => Some(held.kind),
        None => None,
    }
}

/// The backend in `c0` worked on a request, which may have changed the
/// backend itself and nothing else.
pub open spec fn serves<B>(c0: SharedBackendCell<B>, c1: SharedBackendCell<B>) -> bool {
    &&& c1.features_spec() == c0.features_spec()
    &&& kind_in(c1) == kind_in(c0)
}

/// From one moment of a run to the next: the call makes a step; or the
/// backend works on the fetch that the call owes; or the call is over, or was
/// given up, and another begins.
pub open spec fn advances<B, U>(
    c0: SharedBackendCell<B>,
    k0: Call<U>,
    e: Event<B>,
    c1: SharedBackendCell<B>,
    k1: Call<U>,
) -> bool {
    ||| steps(c0, k0, e, c1, k1)
    ||| (k0 is Fetch && k1 == k0 && serves(c0, c1))
    ||| (c1 == c0 && begins(k1))
}

/// The moments `(cells[i], calls[i])` form a run, led by `events`.
pub open spec fn is_run<B, U>(
    cells: Seq<SharedBackendCell<B>>,
    calls: Seq<Call<U>>,
    events: Seq<Event<B>>,
) -> bool {
    &&& cells.len() == events.len() + 1
    &&& calls.len() == events.len() + 1
    &&& begins(calls[0])
    &&& forall|i: int|
        0 <= i < events.len() ==> #[trigger] advances(
            cells[i],
            calls[i],
            events[i],
            cells[i + 1],
            calls[i + 1],
        )
}

/// The cell is empty at moment `i` and holds a backend at the next.
pub open spec fn filled_at<B>(cells: Seq<SharedBackendCell<B>>, i: int) -> bool {
    cells[i].contents() is None && cells[i + 1].contents() is Some
}

/// A call that is over rests: no event changes it, or the cell. So a call
/// for a name that is no resource URI, which is over when it begins, reaches
/// neither the command line nor a constructor.
pub proof fn lemma_finished_call_rests<B, U>(
    c0: SharedBackendCell<B>,
    k0: Call<U>,
    e: Event<B>,
    c1: SharedBackendCell<B>,
    k1: Call<U>,
)
    requires
        k0 is Finished,
        steps(c0, k0, e, c1, k1),
    ensures
        c1 == c0,
        k1 == k0,
{
}

/// What the backend fetched is the call's result, byte for byte, and what it
/// failed with is the call's error, as the cause of a failed operation.
pub proof fn lemma_pass_through<B, U>(
    c0: SharedBackendCell<B>,
    uri: U,
    outcome: Result<Vec<u8>, String>,
    c1: SharedBackendCell<B>,
    k1: Call<U>,
)
    requires
        steps(c0, Call::Fetch { uri }, Event::<B>::Fetched(outcome), c1, k1),
    ensures
        c1 == c0,
        k1 == Call::<U>::Finished(
            match outcome {
                Ok(bytes) => Ok(Reply::Secret(bytes)),
                Err(cause) => Err(ClientError::BackendOperationError(cause)),
            },
        ),
{
}

/// A step that ends a call with an error leaves the cell as it was: after a
/// failure the cell is as empty as before, and nothing of the failure stays
/// behind, so the next call starts afresh.
pub proof fn lemma_error_keeps_cell<B, U>(
    c0: SharedBackendCell<B>,
    k0: Call<U>,
    e: Event<B>,
    c1: SharedBackendCell<B>,
    k1: Call<U>,
)
    requires
        steps(c0, k0, e, c1, k1),
        k1 matches Call::Finished(Err(_)),
    ensures
        c1 == c0,
{
}

/// A backend that was constructed for an empty cell is the one the cell
/// holds from then on, under the kind that was planned, and the call goes on
/// to what it was made for.
pub proof fn lemma_construction_fills_empty_cell<B, U>(
    c0: SharedBackendCell<B>,
    k0: Call<U>,
    backend: B,
    c1: SharedBackendCell<B>,
    k1: Call<U>,
)
    requires
        c0.contents() is None,
        k0 is Construct,
        steps(c0, k0, Event::Constructed(Ok(backend)), c1, k1),
    ensures
        k0 matches Call::Construct { request, plan } && k1 == ready(request) && c1.contents()
            == Some(Installed { kind: plan.kind, backend }),
{
}

/// While the cell holds a backend, the call at the lock is not on its way to
/// a constructor.
pub proof fn lemma_no_construction_on_filled_cell<B, U>(
    cells: Seq<SharedBackendCell<B>>,
    calls: Seq<Call<U>>,
    events: Seq<Event<B>>,
    j: int,
)
    requires
        is_run(cells, calls, events),
        0 <= j < cells.len(),
        cells[j].contents() is Some,
    ensures
        !asks_construction(calls[j]),
    decreases j,
{
    if j > 0 {
        let k = j - 1;
        assert(advances(cells[k], calls[k], events[k], cells[k + 1], calls[k + 1]));
        if cells[j - 1].contents() is Some {
            lemma_no_construction_on_filled_cell(cells, calls, events, j - 1);
        }
    }
}

/// Only a constructed backend fills the cell: the step that fills it answers
/// a construction that succeeded, and the cell then holds that backend under
/// the kind that was planned.
pub proof fn lemma_filled_by_construction<B, U>(
    cells: Seq<SharedBackendCell<B>>,
    calls: Seq<Call<U>>,
    events: Seq<Event<B>>,
    i: int,
)
    requires
        is_run(cells, calls, events),
        0 <= i < events.len(),
        filled_at(cells, i),
    ensures
        calls[i] matches Call::Construct { request, plan } && events[i] matches Event::Constructed(
            Ok(backend),
        ) && cells[i + 1].contents() == Some(Installed { kind: plan.kind, backend }),
{
    assert(advances(cells[i], calls[i], events[i], cells[i + 1], calls[i + 1]));
}

/// Once the cell holds a backend, it holds one of that kind at every later
/// moment, and no later call is on its way to a constructor.
pub proof fn lemma_backend_is_fixed<B, U>(
    cells: Seq<SharedBackendCell<B>>,
    calls: Seq<Call<U>>,
    events: Seq<Event<B>>,
    i: int,
    j: int,
)
    requires
        is_run(cells, calls, events),
        0 <= i <= j < cells.len(),
        cells[i].contents() is Some,
    ensures
        cells[j].contents() is Some,
        kind_in(cells[j]) == kind_in(cells[i]),
        !asks_construction(calls[j]),
    decreases j - i,
{
    if i < j {
        lemma_backend_is_fixed(cells, calls, events, i, j - 1);
        let k = j - 1;
        assert(advances(cells[k], calls[k], events[k], cells[k + 1], calls[k + 1]));
    }
    lemma_no_construction_on_filled_cell(cells, calls, events, j);
}

/// The cell is filled once in a run at most: after the step that fills it,
/// no step fills it again, and no call asks for a constructor.
pub proof fn lemma_filled_at_most_once<B, U>(
    cells: Seq<SharedBackendCell<B>>,
    calls: Seq<Call<U>>,
    events: Seq<Event<B>>,
    i: int,
    j: int,
)
    requires
        is_run(cells, calls, events),
        0 <= i < j < events.len(),
        filled_at(cells, i),
    ensures
        !filled_at(cells, j),
        !asks_construction(calls[j]),
{
    lemma_backend_is_fixed(cells, calls, events, i + 1, j);
}

/// A call is on its way to a constructor only while the cell is empty: so a
/// constructor runs again only where no construction before it filled the
/// cell.
pub proof fn lemma_construction_needs_empty_cell<B, U>(
    cells: Seq<SharedBackendCell<B>>,
    calls: Seq<Call<U>>,
    events: Seq<Event<B>>,
    i: int,
    j: int,
)
    requires
        is_run(cells, calls, events),
        0 <= i <= j < cells.len(),
        asks_construction(calls[j]),
    ensures
        cells[i].contents() is None,
{
    if cells[i].contents() is Some {
        lemma_backend_is_fixed(cells, calls, events, i, j);
    }
}

/// How many of the first `n` steps of a run fill the cell.
pub open spec fn fills<B>(cells: Seq<SharedBackendCell<B>>, n: int) -> nat
    decreases n,
{
    if n <= 0 {
        0
    } else {
        fills(cells, n - 1) + if filled_at(cells, n - 1) {
            1nat
        } else {
            0nat
        }
    }
}

/// Over any number of steps of a run, by however many calls, the cell is
/// filled once if it was empty at the start and holds a backend at the end,
/// and not at all otherwise.
pub proof fn lemma_fills_counted<B, U>(
    cells: Seq<SharedBackendCell<B>>,
    calls: Seq<Call<U>>,
    events: Seq<Event<B>>,
    n: int,
)
    requires
        is_run(cells, calls, events),
        0 <= n <= events.len(),
    ensures
        fills(cells, n) == if cells[0].contents() is None && cells[n].contents() is Some {
            1nat
        } else {
            0nat
        },
    decreases n,
{
    if n > 0 {
        lemma_fills_counted(cells, calls, events, n - 1);
        if cells[n - 1].contents() is Some {
            lemma_backend_is_fixed(cells, calls, events, n - 1, n);
        }
        if cells[0].contents() is Some {
            lemma_backend_is_fixed(cells, calls, events, 0, n - 1);
            lemma_backend_is_fixed(cells, calls, events, 0, n);
        }
    }
}

} // verus!
