//! The wire format with the terminators kept: a variant of the codec in
//! which a field that the wire terminates with a NUL byte is held together
//! with that byte, and written as it is held.

use crate::bytes::{
    copy_range, find_nul, lemma_first_nul, lemma_first_nul_is, spec_first_nul, spec_nul_free,
};
use crate::protocols::gearman;
use crate::protocols::gearman::{
    law_packet_roundtrip, lemma_decode_wf, spec_decode, spec_packet_bytes, spec_packet_wf,
    spec_request_encodable, spec_request_packet, spec_response_encodable, spec_response_packet,
    PacketView, RequestView, ResponseView,
};
pub use crate::protocols::gearman::{PacketError, PacketMagic, Request, Response};
use vstd::prelude::*;

verus! {

/// Whether a field ends in a NUL byte and holds no other.
pub open spec fn spec_terminated(field: Seq<u8>) -> bool {
    field.len() > 0 && spec_first_nul(field) == field.len() - 1
}

/// A request whose delimited fields have their terminator added.
pub open spec fn spec_keep_request(r: RequestView) -> RequestView {
    match r {
        RequestView::WorkStatus { handle, numerator, denominator } => RequestView::WorkStatus {
            handle: handle.push(0u8),
            numerator: numerator.push(0u8),
            denominator,
        },
        RequestView::WorkComplete { handle, data } => RequestView::WorkComplete {
            handle: handle.push(0u8),
            data,
        },
        RequestView::WorkException { handle, data } => RequestView::WorkException {
            handle: handle.push(0u8),
            data,
        },
        RequestView::WorkData { handle, data } => RequestView::WorkData {
            handle: handle.push(0u8),
            data,
        },
        _ => r,
    }
}

/// A request whose delimited fields have their last byte dropped.
pub open spec fn spec_strip_request(r: RequestView) -> RequestView {
    match r {
        RequestView::WorkStatus { handle, numerator, denominator } => RequestView::WorkStatus {
            handle: handle.drop_last(),
            numerator: numerator.drop_last(),
            denominator,
        },
        RequestView::WorkComplete { handle, data } => RequestView::WorkComplete {
            handle: handle.drop_last(),
            data,
        },
        RequestView::WorkException { handle, data } => RequestView::WorkException {
            handle: handle.drop_last(),
            data,
        },
        RequestView::WorkData { handle, data } => RequestView::WorkData {
            handle: handle.drop_last(),
            data,
        },
        _ => r,
    }
}

/// Whether the delimited fields of a request each end in their terminator
/// and hold no other NUL.
pub open spec fn spec_request_terminated(r: RequestView) -> bool {
    match r {
        RequestView::WorkStatus { handle, numerator, .. } => spec_terminated(handle)
            && spec_terminated(numerator),
        RequestView::WorkComplete { handle, .. } => spec_terminated(handle),
        RequestView::WorkException { handle, .. } => spec_terminated(handle),
        RequestView::WorkData { handle, .. } => spec_terminated(handle),
        _ => true,
    }
}

/// A response whose delimited fields have their terminator added.
pub open spec fn spec_keep_response(r: ResponseView) -> ResponseView {
    match r {
        ResponseView::JobAssignUniq { handle, name, unique, workload } => {
            ResponseView::JobAssignUniq {
                handle: handle.push(0u8),
                name: name.push(0u8),
                unique: unique.push(0u8),
                workload,
            }
        },
        _ => r,
    }
}

/// A response whose delimited fields have their last byte dropped.
pub open spec fn spec_strip_response(r: ResponseView) -> ResponseView {
    match r {
        ResponseView::JobAssignUniq { handle, name, unique, workload } => {
            ResponseView::JobAssignUniq {
                handle: handle.drop_last(),
                name: name.drop_last(),
                unique: unique.drop_last(),
                workload,
            }
        },
        _ => r,
    }
}

/// Whether the delimited fields of a response each end in their terminator
/// and hold no other NUL.
pub open spec fn spec_response_terminated(r: ResponseView) -> bool {
    match r {
        ResponseView::JobAssignUniq { handle, name, unique, .. } => spec_terminated(handle)
            && spec_terminated(name) && spec_terminated(unique),
        _ => true,
    }
}

/// A packet whose request or response has its terminators added.
pub open spec fn spec_keep_packet(p: PacketView) -> PacketView {
    PacketView {
        magic: p.magic,
        kind: p.kind,
        length: p.length,
        request: match p.request {
            Some(r) => Some(spec_keep_request(r)),
            None => None,
        },
        response: match p.response {
            Some(r) => Some(spec_keep_response(r)),
            None => None,
        },
    }
}

/// What reading one frame off the front of `buf` gives when the terminators
/// are kept.
pub open spec fn spec_decode_kept(buf: Seq<u8>) -> Result<(PacketView, Seq<u8>), PacketError> {
    match spec_decode(buf) {
        Ok((p, rest)) => Ok((spec_keep_packet(p), rest)),
        Err(e) => Err(e),
    }
}

/// The bytes that writing a packet gives when it holds its terminators, or
/// why it cannot be written: the fields go out as they are held, so each
/// delimited field has to end in its terminator and hold no other NUL.
pub open spec fn spec_kept_bytes(p: PacketView) -> Result<Seq<u8>, PacketError> {
    match (p.request, p.response) {
        (Some(r), None) => if spec_request_terminated(r) {
            spec_packet_bytes(spec_request_packet(spec_strip_request(r)))
        } else {
            Err(PacketError::Unterminated)
        },
        (None, Some(r)) => if spec_response_terminated(r) {
            spec_packet_bytes(spec_response_packet(spec_strip_response(r)))
        } else {
            Err(PacketError::Unterminated)
        },
        _ => Err(PacketError::Unrecognized),
    }
}

/// A field with its terminator is a field without NUL and one NUL byte.
pub proof fn lemma_terminated(field: Seq<u8>)
    requires
        spec_terminated(field),
    ensures
        spec_nul_free(field.drop_last()),
        field.drop_last().push(0u8) == field,
{
    lemma_first_nul(field);
    let head = field.drop_last();
    assert forall|j: int| 0 <= j < head.len() implies head[j] != 0 by {
        assert(head[j] == field[j]);
    }
    lemma_first_nul_is(head, head.len() as int);
    assert(head.push(0u8) =~= field);
}

/// A field without NUL, given its terminator, is terminated.
pub proof fn lemma_kept(field: Seq<u8>)
    requires
        spec_nul_free(field),
    ensures
        spec_terminated(field.push(0u8)),
        field.push(0u8).drop_last() == field,
{
    lemma_first_nul(field);
    let kept = field.push(0u8);
    assert forall|j: int| 0 <= j < field.len() implies kept[j] != 0 by {
        assert(kept[j] == field[j]);
    }
    lemma_first_nul_is(kept, field.len() as int);
    assert(kept.drop_last() =~= field);
}

/// `field` with a NUL byte after it.
fn keep(field: Vec<u8>) -> (kept: Vec<u8>)
    ensures
        kept@ == field@.push(0u8),
{
    let mut kept = field;
    kept.push(0);
    kept
}

/// `field` without its terminator, if it ends in one and holds no other NUL.
fn strip(field: &Vec<u8>) -> (stripped: Option<Vec<u8>>)
    ensures
        match stripped {
            Some(s) => spec_terminated(field@) && s@ == field@.drop_last(),
            None => !spec_terminated(field@),
        },
{
    let len = field.len();
    let at = find_nul(field.as_slice(), 0);
    assert(field@.subrange(0, len as int) =~= field@);
    if len > 0 && at == len - 1 {
        let stripped = copy_range(field.as_slice(), 0, len - 1);
        assert(stripped@ =~= field@.drop_last());
        Some(stripped)
    } else {
        None
    }
}

/// `r` with the terminators of its delimited fields added.
fn keep_request(r: Request) -> (kept: Request)
    ensures
        kept@ == spec_keep_request(r@),
{
    match r {
        Request::WorkStatus { handle, numerator, denominator } => Request::WorkStatus {
            handle: keep(handle),
            numerator: keep(numerator),
            denominator,
        },
        Request::WorkComplete { handle, data } => Request::WorkComplete {
            handle: keep(handle),
            data,
        },
        Request::WorkException { handle, data } => Request::WorkException {
            handle: keep(handle),
            data,
        },
        Request::WorkData { handle, data } => Request::WorkData { handle: keep(handle), data },
        other => other,
    }
}

/// `r` with the terminators of its delimited fields added.
fn keep_response(r: Response) -> (kept: Response)
    ensures
        kept@ == spec_keep_response(r@),
{
    match r {
        Response::JobAssignUniq { handle, name, unique, workload } => Response::JobAssignUniq {
            handle: keep(handle),
            name: keep(name),
            unique: keep(unique),
            workload,
        },
        other => other,
    }
}

/// A copy of a field that is written as it is held.
fn plain(field: &Vec<u8>) -> (copy: Vec<u8>)
    ensures
        copy@ == field@,
{
    crate::bytes::copy_bytes(field.as_slice())
}

/// `r` without the terminators of its delimited fields, if each of them
/// ends in one and holds no other NUL.
fn strip_request(r: &Request) -> (stripped: Option<Request>)
    ensures
        match stripped {
            Some(s) => spec_request_terminated(r@) && s@ == spec_strip_request(r@),
            None => !spec_request_terminated(r@),
        },
{
    match r {
        Request::SetClientId { id } => Some(Request::SetClientId { id: plain(id) }),
        Request::CanDo { name } => Some(Request::CanDo { name: plain(name) }),
        Request::CantDo { name } => Some(Request::CantDo { name: plain(name) }),
        Request::PreSleep => Some(Request::PreSleep),
        Request::GrabJobUniq => Some(Request::GrabJobUniq),
        Request::WorkFail { handle } => Some(Request::WorkFail { handle: plain(handle) }),
        Request::WorkStatus { handle, numerator, denominator } => match strip(handle) {
            Some(handle) => match strip(numerator) {
                Some(numerator) => Some(
                    Request::WorkStatus { handle, numerator, denominator: plain(denominator) },
                ),
                None => None,
            },
            None => None,
        },
        Request::WorkComplete { handle, data } => match strip(handle) {
            Some(handle) => Some(Request::WorkComplete { handle, data: plain(data) }),
            None => None,
        },
        Request::WorkException { handle, data } => match strip(handle) {
            Some(handle) => Some(Request::WorkException { handle, data: plain(data) }),
            None => None,
        },
        Request::WorkData { handle, data } => match strip(handle) {
            Some(handle) => Some(Request::WorkData { handle, data: plain(data) }),
            None => None,
        },
    }
}

/// `r` without the terminators of its delimited fields, if each of them
/// ends in one and holds no other NUL.
fn strip_response(r: &Response) -> (stripped: Option<Response>)
    ensures
        match stripped {
            Some(s) => spec_response_terminated(r@) && s@ == spec_strip_response(r@),
            None => !spec_response_terminated(r@),
        },
{
    match r {
        Response::Noop => Some(Response::Noop),
        Response::NoJob => Some(Response::NoJob),
        Response::JobAssignUniq { handle, name, unique, workload } => match strip(handle) {
            Some(handle) => match strip(name) {
                Some(name) => match strip(unique) {
                    Some(unique) => Some(
                        Response::JobAssignUniq { handle, name, unique, workload: plain(workload) },
                    ),
                    None => None,
                },
                None => None,
            },
            None => None,
        },
    }
}

/// One frame, with the terminators of its delimited fields kept.
#[derive(Clone, Debug, PartialEq, Eq)]
pub struct Packet {
    pub magic: PacketMagic,
    pub kind: u32,
    pub length: usize,
    pub request: Option<Request>,
    pub response: Option<Response>,
}

impl View for Packet {
    type V = PacketView;

    open spec fn view(&self) -> PacketView {
        PacketView {
            magic: self.magic,
            kind: self.kind,
            length: self.length as nat,
            request: match self.request {
                Some(r) => Some(r@),
                None => None,
            },
            response: match self.response {
                Some(r) => Some(r@),
                None => None,
            },
        }
    }
}

impl Packet {
    /// The packet that carries `r` as it is held: `Unterminated` if a
    /// delimited field does not end in its terminator or holds another NUL,
    /// `TooLong` if the payload is longer than the length field can say.
    pub fn request(r: Request) -> (made: Result<Self, PacketError>)
        ensures
            match made {
                Ok(packet) => {
                    &&& spec_request_terminated(r@)
                    &&& spec_request_encodable(spec_strip_request(r@))
                    &&& packet@ == spec_keep_packet(spec_request_packet(spec_strip_request(r@)))
                    &&& packet.request == Some(r)
                },
                Err(e) => if !spec_request_terminated(r@) {
                    e == PacketError::Unterminated
                } else {
                    !spec_request_encodable(spec_strip_request(r@)) && e == PacketError::TooLong
                },
            },
    {
        match strip_request(&r) {
            Some(stripped) => {
                proof {
                    lemma_request_strip_keep(r@);
                }
                match gearman::Packet::request(stripped) {
                    Ok(inner) => Ok(
                        Packet {
                            magic: inner.magic,
                            kind: inner.kind,
                            length: inner.length,
                            request: Some(r),
                            response: None,
                        },
                    ),
                    Err(e) => Err(e),
                }
            },
            None => Err(PacketError::Unterminated),
        }
    }

    /// The packet that carries `r` as it is held: `Unterminated` if a
    /// delimited field does not end in its terminator or holds another NUL,
    /// `TooLong` if the payload is longer than the length field can say.
    pub fn response(r: Response) -> (made: Result<Self, PacketError>)
        ensures
            match made {
                Ok(packet) => {
                    &&& spec_response_terminated(r@)
                    &&& spec_response_encodable(spec_strip_response(r@))
                    &&& packet@ == spec_keep_packet(spec_response_packet(spec_strip_response(r@)))
                    &&& packet.response == Some(r)
                },
                Err(e) => if !spec_response_terminated(r@) {
                    e == PacketError::Unterminated
                } else {
                    !spec_response_encodable(spec_strip_response(r@)) && e == PacketError::TooLong
                },
            },
    {
        match strip_response(&r) {
            Some(stripped) => {
                proof {
                    lemma_response_strip_keep(r@);
                }
                match gearman::Packet::response(stripped) {
                    Ok(inner) => Ok(
                        Packet {
                            magic: inner.magic,
                            kind: inner.kind,
                            length: inner.length,
                            request: None,
                            response: Some(r),
                        },
                    ),
                    Err(e) => Err(e),
                }
            },
            None => Err(PacketError::Unterminated),
        }
    }

    /// Writes the frame of the request or response that this packet holds,
    /// each field as it is held.
    pub fn to_bytes(&self) -> (written: Result<Vec<u8>, PacketError>)
        ensures
            match written {
                Ok(bytes) => spec_kept_bytes(self@) == Ok::<Seq<u8>, PacketError>(bytes@),
                Err(e) => spec_kept_bytes(self@) == Err::<Seq<u8>, PacketError>(e),
            },
    {
        match (&self.request, &self.response) {
            (Some(r), None) => match strip_request(r) {
                Some(stripped) => match gearman::Packet::request(stripped) {
                    Ok(inner) => inner.to_bytes(),
                    Err(e) => Err(e),
                },
                None => Err(PacketError::Unterminated),
            },
            (None, Some(r)) => match strip_response(r) {
                Some(stripped) => match gearman::Packet::response(stripped) {
                    Ok(inner) => inner.to_bytes(),
                    Err(e) => Err(e),
                },
                None => Err(PacketError::Unterminated),
            },
            _ => Err(PacketError::Unrecognized),
        }
    }

    /// Reads one frame off the front of `buf`: the bytes after the frame and
    /// the packet, whose delimited fields keep their terminators.
    pub fn from_bytes<'a>(buf: &'a [u8]) -> (read: Result<(&'a [u8], Packet), PacketError>)
        ensures
            match read {
                Ok((rest, packet)) => spec_decode_kept(buf@) == Ok::<
                    (PacketView, Seq<u8>),
                    PacketError,
                >((packet@, rest@)),
                Err(e) => spec_decode_kept(buf@) == Err::<(PacketView, Seq<u8>), PacketError>(e),
            },
    {
        match gearman::Packet::from_bytes(buf) {
            Ok((rest, inner)) => {
                let gearman::Packet { magic, kind, length, request, response } = inner;
                let request = match request {
                    Some(r) => Some(keep_request(r)),
                    None => None,
                };
                let response = match response {
                    Some(r) => Some(keep_response(r)),
                    None => None,
                };
                Ok((rest, Packet { magic, kind, length, request, response }))
            },
            Err(e) => Err(e),
        }
    }
}

/// Stripping the terminators of a terminated request and adding them again
/// gives the request, and what is stripped holds no NUL in its delimited
/// fields.
pub proof fn lemma_request_strip_keep(r: RequestView)
    requires
        spec_request_terminated(r),
    ensures
        spec_keep_request(spec_strip_request(r)) == r,
        gearman::spec_request_delimited(spec_strip_request(r)),
{
    match r {
        RequestView::WorkStatus { handle, numerator, .. } => {
            lemma_terminated(handle);
            lemma_terminated(numerator);
        },
        RequestView::WorkComplete { handle, .. } => {
            lemma_terminated(handle);
        },
        RequestView::WorkException { handle, .. } => {
            lemma_terminated(handle);
        },
        RequestView::WorkData { handle, .. } => {
            lemma_terminated(handle);
        },
        _ => {},
    }
}

/// Stripping the terminators of a terminated response and adding them again
/// gives the response, and what is stripped holds no NUL in its delimited
/// fields.
pub proof fn lemma_response_strip_keep(r: ResponseView)
    requires
        spec_response_terminated(r),
    ensures
        spec_keep_response(spec_strip_response(r)) == r,
        gearman::spec_response_delimited(spec_strip_response(r)),
{
    match r {
        ResponseView::JobAssignUniq { handle, name, unique, .. } => {
            lemma_terminated(handle);
            lemma_terminated(name);
            lemma_terminated(unique);
        },
        _ => {},
    }
}

/// Round trip of a request with its terminators: reading what writing
/// gives, whatever follows it, gives the request as it was held.
pub proof fn law_kept_request_roundtrip(r: RequestView, tail: Seq<u8>)
    requires
        spec_request_terminated(r),
        spec_request_encodable(spec_strip_request(r)),
    ensures
        ({
            let packet = spec_keep_packet(spec_request_packet(spec_strip_request(r)));
            &&& packet.request == Some(r)
            &&& spec_kept_bytes(packet) is Ok
            &&& spec_decode_kept(spec_kept_bytes(packet).unwrap() + tail) == Ok::<
                (PacketView, Seq<u8>),
                PacketError,
            >((packet, tail))
        }),
{
    lemma_request_strip_keep(r);
    law_packet_roundtrip(spec_request_packet(spec_strip_request(r)), tail);
}

/// Round trip of a response with its terminators: reading what writing
/// gives, whatever follows it, gives the response as it was held.
pub proof fn law_kept_response_roundtrip(r: ResponseView, tail: Seq<u8>)
    requires
        spec_response_terminated(r),
        spec_response_encodable(spec_strip_response(r)),
    ensures
        ({
            let packet = spec_keep_packet(spec_response_packet(spec_strip_response(r)));
            &&& packet.response == Some(r)
            &&& spec_kept_bytes(packet) is Ok
            &&& spec_decode_kept(spec_kept_bytes(packet).unwrap() + tail) == Ok::<
                (PacketView, Seq<u8>),
                PacketError,
            >((packet, tail))
        }),
{
    lemma_response_strip_keep(r);
    law_packet_roundtrip(spec_response_packet(spec_strip_response(r)), tail);
}

/// What reading gives can be written: the delimited fields of a packet that
/// was read with its terminators each end in one and hold no other NUL.
pub proof fn law_kept_read_is_terminated(buf: Seq<u8>)
    requires
        spec_decode_kept(buf) is Ok,
        buf.len() <= usize::MAX,
    ensures
        ({
            let packet = spec_decode_kept(buf).unwrap().0;
            match (packet.request, packet.response) {
                (Some(r), _) => spec_request_terminated(r),
                (None, Some(r)) => spec_response_terminated(r),
                (None, None) => true,
            }
        }),
{
    lemma_decode_wf(buf);
    let inner = spec_decode(buf).unwrap().0;
    assert(spec_packet_wf(inner));
    match (inner.request, inner.response) {
        (Some(r), None) => {
            match r {
                RequestView::WorkStatus { handle, numerator, .. } => {
                    lemma_kept(handle);
                    lemma_kept(numerator);
                },
                RequestView::WorkComplete { handle, .. } => {
                    lemma_kept(handle);
                },
                RequestView::WorkException { handle, .. } => {
                    lemma_kept(handle);
                },
                RequestView::WorkData { handle, .. } => {
                    lemma_kept(handle);
                },
                _ => {},
            }
        },
        (None, Some(r)) => {
            match r {
                ResponseView::JobAssignUniq { handle, name, unique, .. } => {
                    lemma_kept(handle);
                    lemma_kept(name);
                    lemma_kept(unique);
                },
                _ => {},
            }
        },
        _ => {},
    }
}

} // verus!
