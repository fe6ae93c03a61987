//! The writer: puts requests on the wire, and sees to it that the server is
//! told exactly once that the worker no longer serves its function.

use crate::protocols::gearman::{
    spec_request_encodable, spec_request_frame, spec_request_refusal, spec_request_views, Packet,
    PacketError, Request, RequestView,
};
use crate::state::worker::Worker;
use crate::text::{spec_utf8, utf8};
use vstd::prelude::*;

verus! {

/// The request that withdraws a function.
pub open spec fn spec_cant_do(name: Seq<char>) -> RequestView {
    RequestView::CantDo { name: spec_utf8(name) }
}

/// One step of the writer. `next` is the request taken off the channel, or
/// `None` once the channel is closed. Gives whether the withdrawal has been
/// sent by the end of the step, and the requests to send, in order.
pub open spec fn spec_writer_step(
    name: Seq<char>,
    sent: bool,
    burnt: bool,
    next: Option<RequestView>,
) -> (bool, Seq<RequestView>) {
    match next {
        Some(request) => if !sent && burnt {
            (true, seq![spec_cant_do(name), request])
        } else {
            (sent, seq![request])
        },
        None => if !sent {
            (true, seq![spec_cant_do(name)])
        } else {
            (true, Seq::empty())
        },
    }
}

impl Request {
    /// The bytes to write for this request, or why it cannot go on the wire.
    pub fn send(self) -> (frame: Result<Vec<u8>, PacketError>)
        ensures
            match frame {
                Ok(bytes) => spec_request_encodable(self@) && bytes@ == spec_request_frame(
                    self@,
                ),
                Err(e) => spec_request_refusal(self@) == Some(e),
            },
    {
        match Packet::request(self) {
            Ok(packet) => packet.to_bytes(),
            Err(e) => Err(e),
        }
    }
}

impl Worker {
    /// One step of the writer: the requests to send, in order, for the
    /// request taken off the channel, or for the closing of the channel when
    /// `next` is `None`. The withdrawal of the function goes first as soon
    /// as the exit fuze is seen burnt, and at the latest when the channel
    /// closes; `sent_cant` keeps it from going twice.
    pub fn writer(&self, sent_cant: &mut bool, next: Option<Request>) -> (requests: Vec<Request>)
        ensures
            (*final(sent_cant), spec_request_views(requests@)) == spec_writer_step(
                self.name@,
                *old(sent_cant),
                self.exit.spec_burnt(),
                match next {
                    Some(r) => Some(r@),
                    None => None,
                },
            ),
            requests@.len() == spec_request_views(requests@).len(),
    {
        let mut requests: Vec<Request> = Vec::new();
        match next {
            Some(request) => {
                if !*sent_cant && self.exit.burnt() {
                    requests.push(Request::CantDo { name: utf8(self.name.as_str()) });
                    *sent_cant = true;
                }
                requests.push(request);
            },
            None => {
                if !*sent_cant {
                    requests.push(Request::CantDo { name: utf8(self.name.as_str()) });
                }
                *sent_cant = true;
            },
        }
        assert(spec_request_views(requests@) =~= spec_writer_step(
            self.name@,
            *old(sent_cant),
            self.exit.spec_burnt(),
            match next {
                Some(r) => Some(r@),
                None => None,
            },
        ).1);
        requests
    }
}

/// A writer that starts with `sent` run through the requests that come off
/// the channel, each with whether the exit fuze is burnt when it comes:
/// whether the withdrawal has been sent by the end, and what went out.
pub open spec fn spec_writer_run(name: Seq<char>, sent: bool, taken: Seq<(RequestView, bool)>) -> (
    bool,
    Seq<RequestView>,
)
    decreases taken.len(),
{
    if taken.len() == 0 {
        (sent, Seq::empty())
    } else {
        let before = spec_writer_run(name, sent, taken.drop_last());
        let step = spec_writer_step(name, before.0, taken.last().1, Some(taken.last().0));
        (step.0, before.1 + step.1)
    }
}

/// All that a writer puts on the wire from its start to its end: what goes
/// out for the requests taken off the channel, then what goes out when the
/// channel closes.
pub open spec fn spec_wire(name: Seq<char>, taken: Seq<(RequestView, bool)>) -> Seq<RequestView> {
    let run = spec_writer_run(name, false, taken);
    run.1 + spec_writer_step(name, run.0, true, None).1
}

/// The index of the first request that comes with the exit fuze burnt, or
/// the number of requests if none does.
pub open spec fn spec_first_burnt(taken: Seq<(RequestView, bool)>) -> int
    decreases taken.len(),
{
    if taken.len() == 0 {
        0
    } else {
        let before = spec_first_burnt(taken.drop_last());
        if before < taken.len() - 1 || taken.last().1 {
            before
        } else {
            taken.len() as int
        }
    }
}

/// `spec_first_burnt` stays within the run, lands on a request that comes
/// with the fuze burnt when it stays below the length, and passes none on
/// its way.
pub proof fn lemma_first_burnt(taken: Seq<(RequestView, bool)>)
    ensures
        0 <= spec_first_burnt(taken) <= taken.len(),
        spec_first_burnt(taken) < taken.len() ==> taken[spec_first_burnt(taken)].1,
        forall|j: int| 0 <= j < spec_first_burnt(taken) ==> !taken[j].1,
    decreases taken.len(),
{
    if taken.len() > 0 {
        let head = taken.drop_last();
        lemma_first_burnt(head);
        assert forall|j: int| 0 <= j < spec_first_burnt(taken) implies !taken[j].1 by {
            if j < head.len() {
                assert(taken[j] == head[j]);
            }
        }
        if spec_first_burnt(head) < head.len() {
            assert(taken[spec_first_burnt(head)] == head[spec_first_burnt(head)]);
        }
    }
}

/// The requests of a run, without the state of the fuze.
pub open spec fn spec_requests(taken: Seq<(RequestView, bool)>) -> Seq<RequestView> {
    taken.map_values(|t: (RequestView, bool)| t.0)
}

/// What a fresh writer has put out after a run: the requests as they came,
/// with the withdrawal before the first that came with the fuze burnt.
pub proof fn lemma_writer_run(name: Seq<char>, taken: Seq<(RequestView, bool)>)
    ensures
        ({
            let run = spec_writer_run(name, false, taken);
            let first = spec_first_burnt(taken);
            &&& run.0 == (first < taken.len())
            &&& run.0 ==> run.1 == spec_requests(taken).take(first) + seq![spec_cant_do(name)]
                + spec_requests(taken).skip(first)
            &&& !run.0 ==> run.1 == spec_requests(taken)
        }),
    decreases taken.len(),
{
    lemma_first_burnt(taken);
    if taken.len() > 0 {
        let head = taken.drop_last();
        lemma_writer_run(name, head);
        lemma_first_burnt(head);
        let before = spec_writer_run(name, false, head);
        let run = spec_writer_run(name, false, taken);
        let first = spec_first_burnt(taken);
        assert(spec_requests(head) =~= spec_requests(taken).drop_last());
        if run.0 {
            assert(run.1 =~= spec_requests(taken).take(first) + seq![spec_cant_do(name)]
                + spec_requests(taken).skip(first));
        } else {
            assert(run.1 =~= spec_requests(taken));
        }
    } else {
        assert(spec_requests(taken) =~= Seq::empty());
    }
}

/// The withdrawal goes out exactly once. All that a writer puts on the wire
/// is the requests as they came off the channel, and the withdrawal of the
/// function once: before the first request that came with the exit fuze
/// burnt, or after them all if none did, in which case it is the last thing
/// on the wire.
pub proof fn law_one_cant_do(name: Seq<char>, taken: Seq<(RequestView, bool)>)
    ensures
        spec_wire(name, taken) == spec_requests(taken).take(spec_first_burnt(taken)) + seq![
            spec_cant_do(name),
        ] + spec_requests(taken).skip(spec_first_burnt(taken)),
        spec_first_burnt(taken) == taken.len() ==> spec_wire(name, taken).last() == spec_cant_do(
            name,
        ),
        spec_wire(name, taken).len() == taken.len() + 1,
{
    lemma_writer_run(name, taken);
    lemma_first_burnt(taken);
    let first = spec_first_burnt(taken);
    let requests = spec_requests(taken);
    assert(spec_wire(name, taken) =~= requests.take(first) + seq![spec_cant_do(name)]
        + requests.skip(first)) by {
        if first == taken.len() {
            assert(requests.take(first) =~= requests);
            assert(requests.skip(first) =~= Seq::empty());
        }
    }
}

} // verus!
