//! The reader: cuts the bytes that come from the server into frames as they
//! arrive, and routes each frame.

use crate::bytes::{copy_bytes, push_all};
use crate::protocols::gearman::{
    law_response_roundtrip, lemma_prefix_incomplete, lemma_parse_response_payload, spec_decode,
    spec_response_encodable, spec_response_frame, spec_response_id, spec_response_packet,
    spec_response_payload, Packet, PacketError, PacketView, Request, RequestView, Response,
    ResponseView, HEADER_LEN, MAGIC_RESPONSE,
};
use crate::state::worker::Worker;
use vstd::prelude::*;

verus! {

/// What the reader makes of the front of its buffer.
#[derive(Debug)]
pub enum Read {
    /// A job was assigned: pass it to the assignee.
    Forward(Response),
    /// The server woke the worker and there is room: put this request on
    /// the writer's channel.
    Enqueue(Request),
    /// A frame that calls for nothing was passed over.
    Ignored,
    /// The buffer holds no whole frame: wait for more bytes.
    Wait,
    /// The buffer did not start with a frame: all of it, `bytes` many, was
    /// thrown away.
    Discarded { bytes: usize },
}

/// What a `Read` holds.
pub enum ReadView {
    Forward(ResponseView),
    Enqueue(RequestView),
    Ignored,
    Wait,
    Discarded { bytes: usize },
}

impl View for Read {
    type V = ReadView;

    open spec fn view(&self) -> ReadView {
        match *self {
            Read::Forward(r) => ReadView::Forward(r@),
            Read::Enqueue(r) => ReadView::Enqueue(r@),
            Read::Ignored => ReadView::Ignored,
            Read::Wait => ReadView::Wait,
            Read::Discarded { bytes } => ReadView::Discarded { bytes },
        }
    }
}

/// What a run of reads holds.
pub open spec fn spec_read_views(reads: Seq<Read>) -> Seq<ReadView> {
    Seq::new(reads.len(), |i: int| reads[i]@)
}

/// Where a packet goes: an assignment to the assignee; a wake-up becomes a
/// request for a job while the load is below the limit; all else is passed
/// over.
pub open spec fn spec_route(packet: PacketView, load: nat, concurrency: nat) -> ReadView {
    match packet.response {
        Some(ResponseView::JobAssignUniq { handle, name, unique, workload }) => ReadView::Forward(
            ResponseView::JobAssignUniq { handle, name, unique, workload },
        ),
        Some(ResponseView::Noop) => if load < concurrency {
            ReadView::Enqueue(RequestView::GrabJobUniq)
        } else {
            ReadView::Ignored
        },
        _ => ReadView::Ignored,
    }
}

/// One step of the reader on its buffer: the buffer afterwards, and what
/// was made of its front. A whole frame is taken off and routed; a part of
/// a frame stays; anything else empties the buffer.
pub open spec fn spec_read_step(buffer: Seq<u8>, load: nat, concurrency: nat) -> (
    Seq<u8>,
    ReadView,
) {
    if buffer.len() == 0 {
        (buffer, ReadView::Wait)
    } else {
        match spec_decode(buffer) {
            Ok((packet, rest)) => (rest, spec_route(packet, load, concurrency)),
            Err(PacketError::Incomplete) => (buffer, ReadView::Wait),
            Err(_) => (Seq::empty(), ReadView::Discarded { bytes: buffer.len() as usize }),
        }
    }
}

/// The reader's steps on its buffer until it has to wait for more bytes:
/// the buffer afterwards, and what was made of each frame, in order.
pub open spec fn spec_drain(buffer: Seq<u8>, load: nat, concurrency: nat) -> (
    Seq<u8>,
    Seq<ReadView>,
)
    decreases buffer.len(),
{
    let step = spec_read_step(buffer, load, concurrency);
    match step.1 {
        ReadView::Wait => (buffer, Seq::empty()),
        ReadView::Discarded { .. } => (step.0, seq![step.1]),
        _ => if step.0.len() < buffer.len() {
            let then = spec_drain(step.0, load, concurrency);
            (then.0, seq![step.1] + then.1)
        } else {
            (step.0, seq![step.1])
        },
    }
}

/// Taking a frame off a buffer leaves less than there was.
pub proof fn lemma_decode_shrinks(buffer: Seq<u8>)
    requires
        spec_decode(buffer) is Ok,
    ensures
        spec_decode(buffer).unwrap().1.len() + HEADER_LEN <= buffer.len(),
{
}

impl Worker {
    /// One step of the reader on its buffer.
    pub fn reader(&self, buffer: &mut Vec<u8>) -> (read: Read)
        ensures
            (final(buffer)@, read@) == spec_read_step(
                old(buffer)@,
                self.current_load as nat,
                self.concurrency as nat,
            ),
    {
        if buffer.len() == 0 {
            return Read::Wait;
        }
        let (rest, read) = match Packet::from_bytes(buffer.as_slice()) {
            Ok((rest, packet)) => {
                let read = match packet.response {
                    Some(Response::JobAssignUniq { handle, name, unique, workload }) => {
                        Read::Forward(Response::JobAssignUniq { handle, name, unique, workload })
                    },
                    Some(Response::Noop) => if self.current_load < self.concurrency {
                        Read::Enqueue(Request::GrabJobUniq)
                    } else {
                        Read::Ignored
                    },
                    _ => Read::Ignored,
                };
                (copy_bytes(rest), read)
            },
            Err(PacketError::Incomplete) => {
                return Read::Wait;
            },
            Err(_) => (Vec::new(), Read::Discarded { bytes: buffer.len() }),
        };
        *buffer = rest;
        read
    }

    /// The reader's steps on its buffer until it has to wait for more bytes.
    pub fn drain(&self, buffer: &mut Vec<u8>) -> (reads: Vec<Read>)
        ensures
            (final(buffer)@, spec_read_views(reads@)) == spec_drain(
                old(buffer)@,
                self.current_load as nat,
                self.concurrency as nat,
            ),
            reads@.len() == spec_read_views(reads@).len(),
    {
        let mut reads: Vec<Read> = Vec::new();
        let ghost load = self.current_load as nat;
        let ghost concurrency = self.concurrency as nat;
        assert(spec_read_views(reads@) + spec_drain(buffer@, load, concurrency).1
            =~= spec_drain(buffer@, load, concurrency).1);
        loop
            invariant
                load == self.current_load,
                concurrency == self.concurrency,
                spec_drain(old(buffer)@, load, concurrency) == (
                    spec_drain(buffer@, load, concurrency).0,
                    spec_read_views(reads@) + spec_drain(buffer@, load, concurrency).1,
                ),
            ensures
                (buffer@, spec_read_views(reads@)) == spec_drain(
                    old(buffer)@,
                    load,
                    concurrency,
                ),
            decreases buffer@.len(),
        {
            let ghost before = buffer@;
            let ghost seen = spec_read_views(reads@);
            let read = self.reader(buffer);
            proof {
                if spec_decode(before) is Ok {
                    lemma_decode_shrinks(before);
                }
            }
            match read {
                Read::Wait => {
                    assert(seen + Seq::<ReadView>::empty() =~= seen);
                    break ;
                },
                Read::Discarded { bytes } => {
                    reads.push(Read::Discarded { bytes });
                    assert(spec_read_views(reads@) =~= seen + seq![
                        ReadView::Discarded { bytes },
                    ]);
                    break ;
                },
                _ => {
                    let ghost step = read@;
                    reads.push(read);
                    assert(spec_read_views(reads@) =~= seen + seq![step]);
                    assert(spec_read_views(reads@) + spec_drain(
                        buffer@,
                        load,
                        concurrency,
                    ).1 =~= seen + (seq![step] + spec_drain(buffer@, load, concurrency).1));
                },
            }
        }
        reads
    }

    /// Takes in the bytes of one read from the server, and makes of the
    /// buffer what can be made of it.
    pub fn received(&self, buffer: &mut Vec<u8>, bytes: &[u8]) -> (reads: Vec<Read>)
        ensures
            (final(buffer)@, spec_read_views(reads@)) == spec_drain(
                old(buffer)@ + bytes@,
                self.current_load as nat,
                self.concurrency as nat,
            ),
            reads@.len() == spec_read_views(reads@).len(),
    {
        push_all(buffer, bytes);
        self.drain(buffer)
    }
}

/// A buffer that does not start with a frame is thrown away whole, and the
/// reader is left with an empty buffer.
pub proof fn law_malformed_discarded(garbage: Seq<u8>, load: nat, concurrency: nat)
    requires
        spec_decode(garbage) matches Err(e) && e != PacketError::Incomplete,
    ensures
        spec_drain(garbage, load, concurrency) == (
            Seq::<u8>::empty(),
            seq![ReadView::Discarded { bytes: garbage.len() as usize }],
        ),
{
}

/// Two frames of the server that arrive together are both routed, in order,
/// and nothing is left in the buffer.
pub proof fn law_two_frames(first: ResponseView, second: ResponseView, load: nat, concurrency: nat)
    requires
        spec_response_encodable(first),
        spec_response_encodable(second),
    ensures
        spec_drain(
            spec_response_frame(first) + spec_response_frame(second),
            load,
            concurrency,
        ) == (
            Seq::<u8>::empty(),
            seq![
                spec_route(spec_response_packet(first), load, concurrency),
                spec_route(spec_response_packet(second), load, concurrency),
            ],
        ),
{
    let both = spec_response_frame(first) + spec_response_frame(second);
    let one = spec_response_frame(second);
    law_response_roundtrip(first, one);
    law_response_roundtrip(second, Seq::empty());
    assert(one + Seq::<u8>::empty() =~= one);
    let empty = Seq::<u8>::empty();
    assert(spec_drain(empty, load, concurrency) == (empty, Seq::<ReadView>::empty()));
    assert(spec_read_step(one, load, concurrency) == (
        empty,
        spec_route(spec_response_packet(second), load, concurrency),
    ));
    assert(spec_drain(one, load, concurrency).1 =~= seq![
        spec_route(spec_response_packet(second), load, concurrency),
    ]);
    assert(spec_read_step(both, load, concurrency) == (
        one,
        spec_route(spec_response_packet(first), load, concurrency),
    ));
    assert(spec_drain(both, load, concurrency).1 =~= seq![
        spec_route(spec_response_packet(first), load, concurrency),
        spec_route(spec_response_packet(second), load, concurrency),
    ]);
}

/// Framing resilience. After a read that does not start with a frame, which
/// is thrown away, two frames that arrive in a later read are both routed, in
/// order. This is stated of bytes that arrive after the bad read: what
/// arrives in one read with the bad bytes is thrown away with them.
pub proof fn law_framing_resilience(
    garbage: Seq<u8>,
    first: ResponseView,
    second: ResponseView,
    load: nat,
    concurrency: nat,
)
    requires
        spec_decode(garbage) matches Err(e) && e != PacketError::Incomplete,
        spec_response_encodable(first),
        spec_response_encodable(second),
    ensures
        ({
            let after_garbage = spec_drain(Seq::<u8>::empty() + garbage, load, concurrency);
            let after_frames = spec_drain(
                after_garbage.0 + (spec_response_frame(first) + spec_response_frame(second)),
                load,
                concurrency,
            );
            &&& after_garbage.1 == seq![ReadView::Discarded { bytes: garbage.len() as usize }]
            &&& after_frames.0 == Seq::<u8>::empty()
            &&& after_frames.1 == seq![
                spec_route(spec_response_packet(first), load, concurrency),
                spec_route(spec_response_packet(second), load, concurrency),
            ]
        }),
{
    assert(Seq::<u8>::empty() + garbage =~= garbage);
    law_malformed_discarded(garbage, load, concurrency);
    law_two_frames(first, second, load, concurrency);
    assert(Seq::<u8>::empty() + (spec_response_frame(first) + spec_response_frame(second))
        =~= spec_response_frame(first) + spec_response_frame(second));
}

/// Incremental reading. Of a frame of the server that arrives in two reads,
/// cut at any point, the first read alone gives nothing and keeps its bytes,
/// and the second read completes the frame, which is routed.
pub proof fn law_reader_incremental(r: ResponseView, k: int, load: nat, concurrency: nat)
    requires
        spec_response_encodable(r),
        0 <= k < spec_response_frame(r).len(),
    ensures
        ({
            let frame = spec_response_frame(r);
            let early = spec_drain(Seq::<u8>::empty() + frame.subrange(0, k), load, concurrency);
            let late = spec_drain(
                early.0 + frame.subrange(k, frame.len() as int),
                load,
                concurrency,
            );
            &&& early == (frame.subrange(0, k), Seq::<ReadView>::empty())
            &&& late == (
                Seq::<u8>::empty(),
                seq![spec_route(spec_response_packet(r), load, concurrency)],
            )
        }),
{
    let frame = spec_response_frame(r);
    let part = frame.subrange(0, k);
    lemma_parse_response_payload(r);
    lemma_prefix_incomplete(MAGIC_RESPONSE, spec_response_id(r), spec_response_payload(r), k);
    assert(Seq::<u8>::empty() + part =~= part);
    assert(part + frame.subrange(k, frame.len() as int) =~= frame);
    law_response_roundtrip(r, Seq::empty());
    assert(frame + Seq::<u8>::empty() =~= frame);
    let empty = Seq::<u8>::empty();
    assert(spec_drain(empty, load, concurrency) == (empty, Seq::<ReadView>::empty()));
    assert(spec_read_step(frame, load, concurrency) == (
        empty,
        spec_route(spec_response_packet(r), load, concurrency),
    ));
    assert(spec_drain(frame, load, concurrency).1 =~= seq![
        spec_route(spec_response_packet(r), load, concurrency),
    ]);
}

/// Backpressure. The reader asks for a job only while the load is below the
/// limit, and puts nothing but that on the writer's channel.
pub proof fn law_grab_only_with_room(buffer: Seq<u8>, load: nat, concurrency: nat)
    ensures
        spec_read_step(buffer, load, concurrency).1 is Enqueue ==> load < concurrency
            && spec_read_step(buffer, load, concurrency).1 == ReadView::Enqueue(
            RequestView::GrabJobUniq,
        ),
{
}

} // verus!
