//! The assignee: takes on the jobs that the server assigns, keeps count of
//! the orders in flight, and asks for more work while there is room.

use crate::bytes::{copy_range, same_bytes};
use crate::protocols::gearman::{Request, RequestView, Response, ResponseView};
use crate::state::order::{spec_log_prefix, Order};
use crate::state::worker::Worker;
use crate::text::spec_utf8;
use vstd::prelude::*;

verus! {

/// What becomes of a response that reaches the assignee.
#[derive(Debug)]
pub enum Assignment {
    /// The response assigns no job: nothing changes.
    Unexpected,
    /// The job is for another function: nothing changes.
    WrongFunction,
    /// The worker is at its limit: the job is not taken on, nothing changes.
    /// `handle` is the job's, for the server to be told.
    Overloaded { handle: Vec<u8> },
    /// The job is taken on and counted. `solicit` says whether to tell the
    /// server that the worker waits for more.
    Accepted { order: Order, solicit: bool },
}

/// A function's name as the server sends it, without one trailing NUL.
pub open spec fn spec_strip_nul(name: Seq<u8>) -> Seq<u8> {
    if name.len() > 0 && name.last() == 0 {
        name.drop_last()
    } else {
        name
    }
}

/// Whether a job that names `name` is one for the function `function`.
pub open spec fn spec_names_function(name: Seq<u8>, function: Seq<char>) -> bool {
    spec_strip_nul(name) == spec_utf8(function)
}

/// The load after an assignment for the right function: one more, unless
/// the limit is reached.
pub open spec fn spec_load_assigned(load: nat, concurrency: nat) -> nat {
    if load < concurrency {
        load + 1
    } else {
        load
    }
}

/// The load after an order has finished: one less, and never below 0.
pub open spec fn spec_load_finished(load: nat) -> nat {
    if load > 0 {
        (load - 1) as nat
    } else {
        0
    }
}

/// The request that tells the server that the job with this handle was not
/// taken on, so that the server can give it to another worker.
pub fn decline(handle: Vec<u8>) -> (request: Request)
    ensures
        request@ == (RequestView::WorkFail { handle: handle@ }),
{
    Request::WorkFail { handle }
}

impl Worker {
    /// Whether a job that names `name` is one for this worker's function.
    pub fn serves(&self, name: &Vec<u8>) -> (serves: bool)
        ensures
            serves == spec_names_function(name@, self.name@),
    {
        let len = name.len();
        let end = if len > 0 && name[len - 1] == 0 {
            len - 1
        } else {
            len
        };
        let stripped = copy_range(name.as_slice(), 0, end);
        assert(stripped@ =~= spec_strip_nul(name@));
        same_bytes(stripped.as_slice(), self.name.as_str().as_bytes())
    }

    /// Acts on a response that the reader passed on. A job for this worker's
    /// function is taken on while the load is below the limit: the load goes
    /// up by one, an order is made, and more work is asked for if the new load
    /// is still below the limit. A job that comes while the worker is at its
    /// limit is handed back by its handle, to be declined.
    pub fn assignee(&mut self, response: Response) -> (assignment: Assignment)
        ensures
            old(self).wf() ==> final(self).wf(),
            *final(self) == (Worker { current_load: final(self).current_load, ..*old(self) }),
            (response@ matches ResponseView::JobAssignUniq { name, .. } && spec_names_function(
                name,
                old(self).name@,
            )) ==> final(self).current_load == spec_load_assigned(
                old(self).current_load as nat,
                old(self).concurrency as nat,
            ),
            match response@ {
                ResponseView::JobAssignUniq { handle, name, unique, workload } => {
                    if !spec_names_function(name, old(self).name@) {
                        assignment is WrongFunction && final(self).current_load == old(
                            self,
                        ).current_load
                    } else if old(self).current_load >= old(self).concurrency {
                        &&& assignment matches Assignment::Overloaded { handle: refused }
                        &&& refused@ == handle
                        &&& final(self).current_load == old(self).current_load
                    } else {
                        &&& final(self).current_load == old(self).current_load + 1
                        &&& assignment matches Assignment::Accepted { order, solicit }
                        &&& solicit == (final(self).current_load < old(self).concurrency)
                        &&& order.handle@ == handle
                        &&& order.unique@ == unique
                        &&& order.workload@ == workload
                        &&& order.name@ == old(self).name@
                        &&& order.executor@ == old(self).executor@
                        &&& order.timeout == old(self).timeout
                        &&& order.log_prefix@ == spec_log_prefix(old(self).name@, handle)
                        &&& !order.sent_complete
                    }
                },
                _ => assignment is Unexpected && final(self).current_load == old(
                    self,
                ).current_load,
            },
    {
        match response {
            Response::JobAssignUniq { handle, name, unique, workload } => {
                if !self.serves(&name) {
                    Assignment::WrongFunction
                } else if self.current_load >= self.concurrency {
                    Assignment::Overloaded { handle }
                } else {
                    self.current_load = self.current_load + 1;
                    let solicit = self.current_load < self.concurrency;
                    let order = self.order(handle, unique, workload);
                    Assignment::Accepted { order, solicit }
                }
            },
            _ => Assignment::Unexpected,
        }
    }

    /// Takes note that an order has finished, whatever its end: the load goes
    /// down by one. Says whether to tell the server that the worker waits for
    /// more, which is so whenever the new load is below the limit.
    pub fn finished(&mut self) -> (solicit: bool)
        ensures
            old(self).wf() ==> final(self).wf(),
            *final(self) == (Worker { current_load: final(self).current_load, ..*old(self) }),
            final(self).current_load == spec_load_finished(old(self).current_load as nat),
            solicit == (final(self).current_load < old(self).concurrency),
    {
        if self.current_load > 0 {
            self.current_load = self.current_load - 1;
        }
        self.current_load < self.concurrency
    }
}

/// What changes the load: a job for the worker's function arrives, or an
/// order finishes.
pub enum LoadEvent {
    Assigned,
    Finished,
}

/// The load after a run of events.
pub open spec fn spec_load_after(concurrency: nat, load: nat, events: Seq<LoadEvent>) -> nat
    decreases events.len(),
{
    if events.len() == 0 {
        load
    } else {
        let before = spec_load_after(concurrency, load, events.drop_last());
        match events.last() {
            LoadEvent::Assigned => spec_load_assigned(before, concurrency),
            LoadEvent::Finished => spec_load_finished(before),
        }
    }
}

/// How many jobs of a run are taken on.
pub open spec fn spec_accepted(concurrency: nat, load: nat, events: Seq<LoadEvent>) -> nat
    decreases events.len(),
{
    if events.len() == 0 {
        0
    } else {
        let head = events.drop_last();
        spec_accepted(concurrency, load, head) + if events.last() is Assigned && spec_load_after(
            concurrency,
            load,
            head,
        ) < concurrency {
            1nat
        } else {
            0nat
        }
    }
}

/// How many orders of a run finish.
pub open spec fn spec_finishes(events: Seq<LoadEvent>) -> nat
    decreases events.len(),
{
    if events.len() == 0 {
        0
    } else {
        spec_finishes(events.drop_last()) + if events.last() is Finished {
            1nat
        } else {
            0nat
        }
    }
}

/// Whether no order finishes that was not taken on before: at every moment
/// of the run, the finished orders are no more than those in flight at the
/// start and those taken on since.
pub open spec fn spec_finishes_follow(concurrency: nat, load: nat, events: Seq<LoadEvent>) -> bool {
    forall|k: int|
        0 <= k <= events.len() ==> #[trigger] spec_finishes(events.take(k)) <= load + spec_accepted(
            concurrency,
            load,
            events.take(k),
        )
}

/// Load accounting, the bound: whatever arrives and finishes, in whatever
/// order, the load is within the limit at every moment.
pub proof fn law_load_bounded(concurrency: nat, load: nat, events: Seq<LoadEvent>, k: int)
    requires
        load <= concurrency,
        0 <= k <= events.len(),
    ensures
        spec_load_after(concurrency, load, events.take(k)) <= concurrency,
    decreases k,
{
    if k > 0 {
        law_load_bounded(concurrency, load, events, k - 1);
        assert(events.take(k).drop_last() =~= events.take(k - 1));
    }
}

/// Load accounting, the balance: as long as no order finishes that was not
/// taken on, the load is what was in flight at the start, plus the jobs
/// taken on, minus the orders finished.
pub proof fn law_load_balance(concurrency: nat, load: nat, events: Seq<LoadEvent>)
    requires
        load <= concurrency,
        spec_finishes_follow(concurrency, load, events),
    ensures
        spec_load_after(concurrency, load, events) == load + spec_accepted(
            concurrency,
            load,
            events,
        ) - spec_finishes(events),
    decreases events.len(),
{
    assert(events.take(events.len() as int) =~= events);
    if events.len() > 0 {
        let head = events.drop_last();
        assert forall|k: int| 0 <= k <= head.len() implies #[trigger] spec_finishes(head.take(k))
            <= load + spec_accepted(concurrency, load, head.take(k)) by {
            assert(head.take(k) =~= events.take(k));
        }
        law_load_balance(concurrency, load, head);
        assert(spec_finishes(events.take(events.len() as int)) <= load + spec_accepted(
            concurrency,
            load,
            events.take(events.len() as int),
        ));
    }
}

/// Load accounting, the end: a worker that starts idle is idle again once
/// every job that it took on has finished.
pub proof fn law_load_drains(concurrency: nat, events: Seq<LoadEvent>)
    requires
        spec_finishes_follow(concurrency, 0, events),
        spec_finishes(events) == spec_accepted(concurrency, 0, events),
    ensures
        spec_load_after(concurrency, 0, events) == 0,
{
    law_load_balance(concurrency, 0, events);
}

} // verus!
