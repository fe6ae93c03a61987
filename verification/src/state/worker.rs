//! One worker: what it is set up with, how loaded it is, and the decisions of
//! its supervisor and of the task that unwinds it.

use crate::fuze::Fuze;
use crate::protocols::gearman::{spec_request_views, Request, RequestView};
use crate::text::{spec_utf8, utf8};
use vstd::prelude::*;

verus! {

/// How many responses, and how many requests, may wait in a worker's
/// channels before the task that sends has to wait itself.
pub const CHANNEL_DEPTH: usize = 512;

/// How many bytes the reader asks of the server at a time.
pub const READ_CHUNK: usize = 1024;

/// How long an order may run: whole seconds and a rest of less than a
/// second in nanoseconds.
#[derive(Clone, Copy, Debug, PartialEq, Eq, Structural)]
pub struct Timeout {
    secs: u64,
    nanos: u32,
}

impl Timeout {
    #[verifier::type_invariant]
    spec fn rest_below_a_second(self) -> bool {
        self.nanos < 1_000_000_000
    }

    /// The whole seconds.
    pub closed spec fn spec_secs(self) -> u64 {
        self.secs
    }

    /// The rest in nanoseconds.
    pub closed spec fn spec_nanos(self) -> u32 {
        self.nanos
    }

    /// A timeout of whole seconds.
    pub fn from_secs(secs: u64) -> (timeout: Self)
        ensures
            timeout.spec_secs() == secs,
            timeout.spec_nanos() == 0,
    {
        Timeout { secs, nanos: 0 }
    }

    /// A timeout of `secs` seconds and `nanos` nanoseconds, `None` if `nanos`
    /// is a second or more.
    pub fn new(secs: u64, nanos: u32) -> (timeout: Option<Self>)
        ensures
            match timeout {
                Some(t) => nanos < 1_000_000_000 && t.spec_secs() == secs && t.spec_nanos()
                    == nanos,
                None => nanos >= 1_000_000_000,
            },
    {
        if nanos < 1_000_000_000 {
            Some(Timeout { secs, nanos })
        } else {
            None
        }
    }

    /// The whole seconds.
    #[verifier::when_used_as_spec(spec_secs)]
    pub fn secs(self) -> (secs: u64)
        ensures
            secs == self.spec_secs(),
    {
        self.secs
    }

    /// The rest in nanoseconds, which is less than a second.
    pub fn nanos(self) -> (nanos: u32)
        ensures
            nanos == self.spec_nanos(),
            nanos < 1_000_000_000,
    {
        proof {
            use_type_invariant(self);
        }
        self.nanos
    }
}

/// A worker for one function of the server.
///
/// `current_load` counts the orders in flight and never passes
/// `concurrency`; `exit` is burnt when the worker is to stop.
#[derive(Debug)]
pub struct Worker {
    pub name: String,
    pub executor: String,
    pub concurrency: usize,
    pub timeout: Timeout,
    pub client_id: String,
    pub current_load: usize,
    pub exit: Fuze,
}

/// What a `Worker` holds.
pub struct WorkerView {
    pub name: Seq<char>,
    pub executor: Seq<char>,
    pub concurrency: nat,
    pub timeout: Timeout,
    pub client_id: Seq<char>,
    pub current_load: nat,
    pub exit: bool,
}

impl View for Worker {
    type V = WorkerView;

    open spec fn view(&self) -> WorkerView {
        WorkerView {
            name: self.name@,
            executor: self.executor@,
            concurrency: self.concurrency as nat,
            timeout: self.timeout,
            client_id: self.client_id@,
            current_load: self.current_load as nat,
            exit: self.exit.spec_burnt(),
        }
    }
}

/// The three requests that open a connection: who the worker is, what it
/// can do, and that it waits for work.
pub open spec fn spec_handshake(client_id: Seq<char>, name: Seq<char>) -> Seq<RequestView> {
    seq![
        RequestView::SetClientId { id: spec_utf8(client_id) },
        RequestView::CanDo { name: spec_utf8(name) },
        RequestView::PreSleep,
    ]
}

/// Where the task that unwinds a worker stands.
#[derive(Clone, Copy, Debug, PartialEq, Eq, Structural)]
pub enum ExitStage {
    /// The worker runs; the exit fuze is not known to be burnt.
    Waiting,
    /// The channel of responses is closed; orders may still be in flight.
    Draining,
    /// Both channels are closed.
    Done,
}

/// What the task that unwinds a worker does next.
#[derive(Clone, Copy, Debug, PartialEq, Eq, Structural)]
pub enum ExitAction {
    /// Wait for the exit fuze.
    AwaitExit,
    /// Close the channel of responses, which ends the assignee.
    CloseResponses,
    /// Wait until an order finishes.
    AwaitOrders,
    /// Close the channel of requests, which ends the writer.
    CloseRequests,
    /// Nothing is left to do.
    Finished,
}

/// The next stage and the action to take, from where the unwinding stands,
/// whether the exit fuze is burnt, and how many orders are in flight.
pub open spec fn spec_exitter(stage: ExitStage, burnt: bool, load: nat) -> (ExitStage, ExitAction) {
    match stage {
        ExitStage::Waiting => if burnt {
            (ExitStage::Draining, ExitAction::CloseResponses)
        } else {
            (ExitStage::Waiting, ExitAction::AwaitExit)
        },
        ExitStage::Draining => if load > 0 {
            (ExitStage::Draining, ExitAction::AwaitOrders)
        } else {
            (ExitStage::Done, ExitAction::CloseRequests)
        },
        ExitStage::Done => (ExitStage::Done, ExitAction::Finished),
    }
}

/// What the supervisor sees happen to a worker.
#[derive(Clone, Copy, Debug, PartialEq, Eq, Structural)]
pub enum RunEvent {
    /// The connection to the server stands.
    Connected,
    /// The tasks have all ended; `failed` if one of them ended with an error.
    Joined { failed: bool },
}

/// What the supervisor does about it.
#[derive(Debug)]
pub enum RunAction {
    /// Send these requests, then start the tasks.
    Greet { requests: Vec<Request> },
    /// The worker has stopped; an error of a task, if there was one, came
    /// from stopping and is passed over.
    Stopped,
    /// A task failed while the worker was meant to run: the exit fuze has
    /// been burnt; unwind once more, then report the error.
    Unwind,
}

impl Worker {
    /// Whether the load is within the limit.
    pub open spec fn wf(&self) -> bool {
        self.current_load <= self.concurrency
    }

    /// The three requests that open a connection, in the order to send them.
    pub fn handshake(&self) -> (requests: Vec<Request>)
        ensures
            spec_request_views(requests@) == spec_handshake(self.client_id@, self.name@),
            requests@.len() == 3,
    {
        let mut requests: Vec<Request> = Vec::new();
        requests.push(Request::SetClientId { id: utf8(self.client_id.as_str()) });
        requests.push(Request::CanDo { name: utf8(self.name.as_str()) });
        requests.push(Request::PreSleep);
        assert(spec_request_views(requests@) =~= spec_handshake(
            self.client_id@,
            self.name@,
        ));
        requests
    }

    /// The supervisor's part. Once connected, the handshake is due. Once the
    /// tasks have ended: without an error, or with the exit fuze burnt, the
    /// worker has stopped; with an error and the fuze unburnt, the fuze is
    /// burnt and the worker is to be unwound once more.
    pub fn run(&mut self, event: RunEvent) -> (action: RunAction)
        ensures
            match event {
                RunEvent::Connected => {
                    &&& *final(self) == *old(self)
                    &&& action matches RunAction::Greet { requests }
                    &&& spec_request_views(requests@) == spec_handshake(
                        old(self).client_id@,
                        old(self).name@,
                    )
                },
                RunEvent::Joined { failed } => if failed && !old(self).exit.spec_burnt() {
                    action is Unwind && final(self).exit.spec_burnt() && *final(self) == (Worker {
                        exit: Fuze::spec_burnt_out(),
                        ..*old(self)
                    })
                } else {
                    action is Stopped && *final(self) == *old(self)
                },
            },
    {
        match event {
            RunEvent::Connected => RunAction::Greet { requests: self.handshake() },
            RunEvent::Joined { failed } => {
                if failed && !self.exit.burnt() {
                    self.exit.burn();
                    RunAction::Unwind
                } else {
                    RunAction::Stopped
                }
            },
        }
    }

    /// The next step of unwinding: once the exit fuze is burnt, close the
    /// channel of responses; then wait until no order is in flight; only then
    /// close the channel of requests.
    pub fn exitter(&self, stage: ExitStage) -> (step: (ExitStage, ExitAction))
        ensures
            step == spec_exitter(stage, self.exit.spec_burnt(), self.current_load as nat),
    {
        match stage {
            ExitStage::Waiting => if self.exit.burnt() {
                (ExitStage::Draining, ExitAction::CloseResponses)
            } else {
                (ExitStage::Waiting, ExitAction::AwaitExit)
            },
            ExitStage::Draining => if self.current_load > 0 {
                (ExitStage::Draining, ExitAction::AwaitOrders)
            } else {
                (ExitStage::Done, ExitAction::CloseRequests)
            },
            ExitStage::Done => (ExitStage::Done, ExitAction::Finished),
        }
    }
}

/// The channel of requests is closed only from the draining stage, that is
/// after the channel of responses, and only with no order in flight; and
/// the channel of responses only with the exit fuze burnt.
pub proof fn law_exitter_order(stage: ExitStage, burnt: bool, load: nat)
    ensures
        spec_exitter(stage, burnt, load).1 == ExitAction::CloseRequests ==> stage
            == ExitStage::Draining && load == 0,
        spec_exitter(stage, burnt, load).1 == ExitAction::CloseResponses ==> stage
            == ExitStage::Waiting && burnt,
        spec_exitter(stage, burnt, load).0 == ExitStage::Done ==> stage == ExitStage::Done || load
            == 0,
{
}

} // verus!
