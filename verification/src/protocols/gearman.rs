//! The Gearman wire format: a four-byte magic, a big-endian kind code, a
//! big-endian payload length, then the payload.
//!
//! Fields that the wire terminates with a NUL byte are held without it, and
//! get it back when they are written.

use crate::bytes::{
    copy_range, find_nul, lemma_be32_roundtrip, lemma_from_be32_roundtrip, lemma_split_nul_head,
    lemma_split_nul_joined,
    push_all, push_be32, read_be32, spec_be32, spec_from_be32, spec_nul_free, spec_split_nul,
    split_nul,
};
use vstd::prelude::*;
use vstd::slice::slice_subrange;

verus! {

/// The magic of a frame that a worker or client sends: `\0REQ`.
pub const MAGIC_REQUEST: u32 = 0x0052_4551;

/// The magic of a frame that the server sends: `\0RES`.
pub const MAGIC_RESPONSE: u32 = 0x0052_4553;

pub const KIND_CAN_DO: u32 = 1;

pub const KIND_CANT_DO: u32 = 2;

pub const KIND_PRE_SLEEP: u32 = 4;

pub const KIND_NOOP: u32 = 6;

pub const KIND_NO_JOB: u32 = 10;

pub const KIND_WORK_STATUS: u32 = 12;

pub const KIND_WORK_COMPLETE: u32 = 13;

pub const KIND_WORK_FAIL: u32 = 14;

pub const KIND_SET_CLIENT_ID: u32 = 22;

pub const KIND_WORK_EXCEPTION: u32 = 25;

pub const KIND_WORK_DATA: u32 = 28;

pub const KIND_GRAB_JOB_UNIQ: u32 = 30;

pub const KIND_JOB_ASSIGN_UNIQ: u32 = 31;

/// The length of magic, kind and payload length together.
pub const HEADER_LEN: usize = 12;

/// Which side a frame comes from.
#[derive(Clone, Copy, Debug, PartialEq, Eq, Structural)]
pub enum PacketMagic {
    Request,
    Response,
}

impl PacketMagic {
    /// The number on the wire.
    pub open spec fn spec_code(self) -> u32 {
        match self {
            PacketMagic::Request => MAGIC_REQUEST,
            PacketMagic::Response => MAGIC_RESPONSE,
        }
    }

    /// The number on the wire.
    #[verifier::when_used_as_spec(spec_code)]
    pub fn code(self) -> (code: u32)
        ensures
            code == self.spec_code(),
    {
        match self {
            PacketMagic::Request => MAGIC_REQUEST,
            PacketMagic::Response => MAGIC_RESPONSE,
        }
    }
}

/// Why a frame could not be read or written.
#[derive(Clone, Copy, Debug, PartialEq, Eq, Structural)]
pub enum PacketError {
    /// The buffer ends before the frame does: more bytes are needed.
    Incomplete,
    /// The buffer does not start with a frame; `bytes` is the length of the
    /// buffer that was looked at.
    Malformed { bytes: usize },
    /// A field that the wire terminates with a NUL byte holds one itself.
    InteriorNul,
    /// The payload is longer than the length field can say.
    TooLong,
    /// The packet holds neither a request nor a response.
    Unrecognized,
    /// A field that is held together with its NUL terminator does not end in
    /// one. Only the codec that keeps the terminators gives this.
    Unterminated,
}

/// A message that a worker sends to the server.
#[derive(Clone, Debug, PartialEq, Eq, Hash)]
pub enum Request {
    SetClientId { id: Vec<u8> },
    CanDo { name: Vec<u8> },
    CantDo { name: Vec<u8> },
    PreSleep,
    GrabJobUniq,
    WorkStatus { handle: Vec<u8>, numerator: Vec<u8>, denominator: Vec<u8> },
    WorkComplete { handle: Vec<u8>, data: Vec<u8> },
    WorkFail { handle: Vec<u8> },
    WorkException { handle: Vec<u8>, data: Vec<u8> },
    WorkData { handle: Vec<u8>, data: Vec<u8> },
}

/// What a `Request` holds, as sequences of bytes.
pub enum RequestView {
    SetClientId { id: Seq<u8> },
    CanDo { name: Seq<u8> },
    CantDo { name: Seq<u8> },
    PreSleep,
    GrabJobUniq,
    WorkStatus { handle: Seq<u8>, numerator: Seq<u8>, denominator: Seq<u8> },
    WorkComplete { handle: Seq<u8>, data: Seq<u8> },
    WorkFail { handle: Seq<u8> },
    WorkException { handle: Seq<u8>, data: Seq<u8> },
    WorkData { handle: Seq<u8>, data: Seq<u8> },
}

impl View for Request {
    type V = RequestView;

    open spec fn view(&self) -> RequestView {
        match *self {
            Request::SetClientId { id } => RequestView::SetClientId { id: id@ },
            Request::CanDo { name } => RequestView::CanDo { name: name@ },
            Request::CantDo { name } => RequestView::CantDo { name: name@ },
            Request::PreSleep => RequestView::PreSleep,
            Request::GrabJobUniq => RequestView::GrabJobUniq,
            Request::WorkStatus { handle, numerator, denominator } => RequestView::WorkStatus {
                handle: handle@,
                numerator: numerator@,
                denominator: denominator@,
            },
            Request::WorkComplete { handle, data } => RequestView::WorkComplete {
                handle: handle@,
                data: data@,
            },
            Request::WorkFail { handle } => RequestView::WorkFail { handle: handle@ },
            Request::WorkException { handle, data } => RequestView::WorkException {
                handle: handle@,
                data: data@,
            },
            Request::WorkData { handle, data } => RequestView::WorkData {
                handle: handle@,
                data: data@,
            },
        }
    }
}

/// What a run of requests holds.
pub open spec fn spec_request_views(requests: Seq<Request>) -> Seq<RequestView> {
    Seq::new(requests.len(), |i: int| requests[i]@)
}

/// A message of the server that a worker acts on.
#[derive(Clone, Debug, PartialEq, Eq, Hash)]
pub enum Response {
    Noop,
    NoJob,
    JobAssignUniq { handle: Vec<u8>, name: Vec<u8>, unique: Vec<u8>, workload: Vec<u8> },
}

/// What a `Response` holds, as sequences of bytes.
pub enum ResponseView {
    Noop,
    NoJob,
    JobAssignUniq { handle: Seq<u8>, name: Seq<u8>, unique: Seq<u8>, workload: Seq<u8> },
}

impl View for Response {
    type V = ResponseView;

    open spec fn view(&self) -> ResponseView {
        match *self {
            Response::Noop => ResponseView::Noop,
            Response::NoJob => ResponseView::NoJob,
            Response::JobAssignUniq { handle, name, unique, workload } => {
                ResponseView::JobAssignUniq {
                    handle: handle@,
                    name: name@,
                    unique: unique@,
                    workload: workload@,
                }
            },
        }
    }
}

/// The kind code of a request.
pub open spec fn spec_request_id(r: RequestView) -> u32 {
    match r {
        RequestView::SetClientId { .. } => KIND_SET_CLIENT_ID,
        RequestView::CanDo { .. } => KIND_CAN_DO,
        RequestView::CantDo { .. } => KIND_CANT_DO,
        RequestView::PreSleep => KIND_PRE_SLEEP,
        RequestView::GrabJobUniq => KIND_GRAB_JOB_UNIQ,
        RequestView::WorkStatus { .. } => KIND_WORK_STATUS,
        RequestView::WorkComplete { .. } => KIND_WORK_COMPLETE,
        RequestView::WorkFail { .. } => KIND_WORK_FAIL,
        RequestView::WorkException { .. } => KIND_WORK_EXCEPTION,
        RequestView::WorkData { .. } => KIND_WORK_DATA,
    }
}

/// Whether `kind` is the code of a request.
pub open spec fn spec_request_kind(kind: u32) -> bool {
    kind == KIND_SET_CLIENT_ID || kind == KIND_CAN_DO || kind == KIND_CANT_DO || kind
        == KIND_PRE_SLEEP || kind == KIND_GRAB_JOB_UNIQ || kind == KIND_WORK_STATUS || kind
        == KIND_WORK_COMPLETE || kind == KIND_WORK_FAIL || kind == KIND_WORK_EXCEPTION || kind
        == KIND_WORK_DATA
}

/// The payload of a request as it goes on the wire.
pub open spec fn spec_request_payload(r: RequestView) -> Seq<u8> {
    match r {
        RequestView::SetClientId { id } => id,
        RequestView::CanDo { name } => name,
        RequestView::CantDo { name } => name,
        RequestView::PreSleep => Seq::empty(),
        RequestView::GrabJobUniq => Seq::empty(),
        RequestView::WorkStatus { handle, numerator, denominator } => handle + seq![0u8]
            + (numerator + seq![0u8] + denominator),
        RequestView::WorkComplete { handle, data } => handle + seq![0u8] + data,
        RequestView::WorkFail { handle } => handle,
        RequestView::WorkException { handle, data } => handle + seq![0u8] + data,
        RequestView::WorkData { handle, data } => handle + seq![0u8] + data,
    }
}

/// Whether the fields of a request that the wire terminates with a NUL byte
/// hold none themselves.
pub open spec fn spec_request_delimited(r: RequestView) -> bool {
    match r {
        RequestView::WorkStatus { handle, numerator, .. } => spec_nul_free(handle)
            && spec_nul_free(numerator),
        RequestView::WorkComplete { handle, .. } => spec_nul_free(handle),
        RequestView::WorkException { handle, .. } => spec_nul_free(handle),
        RequestView::WorkData { handle, .. } => spec_nul_free(handle),
        _ => true,
    }
}

/// Whether a request can go on the wire and be read back.
pub open spec fn spec_request_encodable(r: RequestView) -> bool {
    spec_request_delimited(r) && spec_request_payload(r).len() <= u32::MAX
}

/// The request that a payload of the given kind holds, if it holds one.
pub open spec fn spec_parse_request(kind: u32, payload: Seq<u8>) -> Option<RequestView> {
    if kind == KIND_SET_CLIENT_ID {
        Some(RequestView::SetClientId { id: payload })
    } else if kind == KIND_CAN_DO {
        Some(RequestView::CanDo { name: payload })
    } else if kind == KIND_CANT_DO {
        Some(RequestView::CantDo { name: payload })
    } else if kind == KIND_PRE_SLEEP {
        if payload.len() == 0 {
            Some(RequestView::PreSleep)
        } else {
            None
        }
    } else if kind == KIND_GRAB_JOB_UNIQ {
        if payload.len() == 0 {
            Some(RequestView::GrabJobUniq)
        } else {
            None
        }
    } else if kind == KIND_WORK_STATUS {
        match spec_split_nul(payload) {
            Some((handle, rest)) => match spec_split_nul(rest) {
                Some((numerator, denominator)) => Some(
                    RequestView::WorkStatus { handle, numerator, denominator },
                ),
                None => None,
            },
            None => None,
        }
    } else if kind == KIND_WORK_COMPLETE {
        match spec_split_nul(payload) {
            Some((handle, data)) => Some(RequestView::WorkComplete { handle, data }),
            None => None,
        }
    } else if kind == KIND_WORK_FAIL {
        Some(RequestView::WorkFail { handle: payload })
    } else if kind == KIND_WORK_EXCEPTION {
        match spec_split_nul(payload) {
            Some((handle, data)) => Some(RequestView::WorkException { handle, data }),
            None => None,
        }
    } else if kind == KIND_WORK_DATA {
        match spec_split_nul(payload) {
            Some((handle, data)) => Some(RequestView::WorkData { handle, data }),
            None => None,
        }
    } else {
        None
    }
}

/// The kind code of a response.
pub open spec fn spec_response_id(r: ResponseView) -> u32 {
    match r {
        ResponseView::Noop => KIND_NOOP,
        ResponseView::NoJob => KIND_NO_JOB,
        ResponseView::JobAssignUniq { .. } => KIND_JOB_ASSIGN_UNIQ,
    }
}

/// Whether `kind` is the code of a response that a worker acts on.
pub open spec fn spec_response_kind(kind: u32) -> bool {
    kind == KIND_NOOP || kind == KIND_NO_JOB || kind == KIND_JOB_ASSIGN_UNIQ
}

/// The payload of a response as it goes on the wire.
pub open spec fn spec_response_payload(r: ResponseView) -> Seq<u8> {
    match r {
        ResponseView::Noop => Seq::empty(),
        ResponseView::NoJob => Seq::empty(),
        ResponseView::JobAssignUniq { handle, name, unique, workload } => handle + seq![0u8] + (name
            + seq![0u8] + (unique + seq![0u8] + workload)),
    }
}

/// Whether the fields of a response that the wire terminates with a NUL byte
/// hold none themselves.
pub open spec fn spec_response_delimited(r: ResponseView) -> bool {
    match r {
        ResponseView::JobAssignUniq { handle, name, unique, .. } => spec_nul_free(handle)
            && spec_nul_free(name) && spec_nul_free(unique),
        _ => true,
    }
}

/// Whether a response can go on the wire and be read back.
pub open spec fn spec_response_encodable(r: ResponseView) -> bool {
    spec_response_delimited(r) && spec_response_payload(r).len() <= u32::MAX
}

/// The response that a payload of the given kind holds, if it holds one.
pub open spec fn spec_parse_response(kind: u32, payload: Seq<u8>) -> Option<ResponseView> {
    if kind == KIND_NOOP {
        if payload.len() == 0 {
            Some(ResponseView::Noop)
        } else {
            None
        }
    } else if kind == KIND_NO_JOB {
        if payload.len() == 0 {
            Some(ResponseView::NoJob)
        } else {
            None
        }
    } else if kind == KIND_JOB_ASSIGN_UNIQ {
        match spec_split_nul(payload) {
            Some((handle, rest)) => match spec_split_nul(rest) {
                Some((name, rest)) => match spec_split_nul(rest) {
                    Some((unique, workload)) => Some(
                        ResponseView::JobAssignUniq { handle, name, unique, workload },
                    ),
                    None => None,
                },
                None => None,
            },
            None => None,
        }
    } else {
        None
    }
}

/// What a `Packet` holds.
pub struct PacketView {
    pub magic: PacketMagic,
    pub kind: u32,
    pub length: nat,
    pub request: Option<RequestView>,
    pub response: Option<ResponseView>,
}

/// The packet that carries a request.
pub open spec fn spec_request_packet(r: RequestView) -> PacketView {
    PacketView {
        magic: PacketMagic::Request,
        kind: spec_request_id(r),
        length: spec_request_payload(r).len(),
        request: Some(r),
        response: None,
    }
}

/// The packet that carries a response.
pub open spec fn spec_response_packet(r: ResponseView) -> PacketView {
    PacketView {
        magic: PacketMagic::Response,
        kind: spec_response_id(r),
        length: spec_response_payload(r).len(),
        request: None,
        response: Some(r),
    }
}

/// The packet that stands for a frame of the server of a kind that a worker
/// does not act on: it keeps the kind and the length of the payload that was
/// passed over.
pub open spec fn spec_ignored_packet(kind: u32, length: nat) -> PacketView {
    PacketView { magic: PacketMagic::Response, kind, length, request: None, response: None }
}

/// Whether a packet is one that `Packet::request`, `Packet::response` or
/// `Packet::from_bytes` gives.
pub open spec fn spec_packet_wf(p: PacketView) -> bool {
    match (p.request, p.response) {
        (Some(r), None) => p == spec_request_packet(r) && spec_request_encodable(r),
        (None, Some(r)) => p == spec_response_packet(r) && spec_response_encodable(r),
        (None, None) => p.magic == PacketMagic::Response && !spec_response_kind(p.kind) && p.length
            <= u32::MAX,
        (Some(_), Some(_)) => false,
    }
}

/// A frame: header, then payload.
pub open spec fn spec_frame(magic: u32, kind: u32, payload: Seq<u8>) -> Seq<u8> {
    spec_be32(magic) + spec_be32(kind) + spec_be32(payload.len() as u32) + payload
}

/// The frame of a request.
pub open spec fn spec_request_frame(r: RequestView) -> Seq<u8> {
    spec_frame(MAGIC_REQUEST, spec_request_id(r), spec_request_payload(r))
}

/// The frame of a response.
pub open spec fn spec_response_frame(r: ResponseView) -> Seq<u8> {
    spec_frame(MAGIC_RESPONSE, spec_response_id(r), spec_response_payload(r))
}

/// What reading one frame off the front of `buf` gives: the packet and the
/// bytes after it, or why there is none.
pub open spec fn spec_decode(buf: Seq<u8>) -> Result<(PacketView, Seq<u8>), PacketError> {
    let malformed = Err(PacketError::Malformed { bytes: buf.len() as usize });
    if buf.len() < 4 {
        Err(PacketError::Incomplete)
    } else {
        let magic = spec_from_be32(buf.subrange(0, 4));
        if magic != MAGIC_REQUEST && magic != MAGIC_RESPONSE {
            malformed
        } else if buf.len() < HEADER_LEN {
            Err(PacketError::Incomplete)
        } else {
            let kind = spec_from_be32(buf.subrange(4, 8));
            let length = spec_from_be32(buf.subrange(8, 12));
            if magic == MAGIC_REQUEST && !spec_request_kind(kind) {
                malformed
            } else if buf.len() < HEADER_LEN + length {
                Err(PacketError::Incomplete)
            } else {
                let payload = buf.subrange(HEADER_LEN as int, HEADER_LEN + length);
                let rest = buf.subrange(HEADER_LEN + length, buf.len() as int);
                if magic == MAGIC_REQUEST {
                    match spec_parse_request(kind, payload) {
                        Some(r) => Ok(
                            (
                                PacketView {
                                    magic: PacketMagic::Request,
                                    kind,
                                    length: length as nat,
                                    request: Some(r),
                                    response: None,
                                },
                                rest,
                            ),
                        ),
                        None => malformed,
                    }
                } else if spec_response_kind(kind) {
                    match spec_parse_response(kind, payload) {
                        Some(r) => Ok(
                            (
                                PacketView {
                                    magic: PacketMagic::Response,
                                    kind,
                                    length: length as nat,
                                    request: None,
                                    response: Some(r),
                                },
                                rest,
                            ),
                        ),
                        None => malformed,
                    }
                } else {
                    Ok((spec_ignored_packet(kind, length as nat), rest))
                }
            }
        }
    }
}


/// Why a request cannot go on the wire, if it cannot.
pub open spec fn spec_request_refusal(r: RequestView) -> Option<PacketError> {
    if !spec_request_delimited(r) {
        Some(PacketError::InteriorNul)
    } else if spec_request_payload(r).len() > u32::MAX {
        Some(PacketError::TooLong)
    } else {
        None
    }
}

/// Why a response cannot go on the wire, if it cannot.
pub open spec fn spec_response_refusal(r: ResponseView) -> Option<PacketError> {
    if !spec_response_delimited(r) {
        Some(PacketError::InteriorNul)
    } else if spec_response_payload(r).len() > u32::MAX {
        Some(PacketError::TooLong)
    } else {
        None
    }
}

/// The name of a request's kind, as the protocol writes it.
pub open spec fn spec_request_name(r: RequestView) -> Seq<char> {
    match r {
        RequestView::SetClientId { .. } => "SET_CLIENT_ID"@,
        RequestView::CanDo { .. } => "CAN_DO"@,
        RequestView::CantDo { .. } => "CANT_DO"@,
        RequestView::PreSleep => "PRE_SLEEP"@,
        RequestView::GrabJobUniq => "GRAB_JOB_UNIQ"@,
        RequestView::WorkStatus { .. } => "WORK_STATUS"@,
        RequestView::WorkComplete { .. } => "WORK_COMPLETE"@,
        RequestView::WorkFail { .. } => "WORK_FAIL"@,
        RequestView::WorkException { .. } => "WORK_EXCEPTION"@,
        RequestView::WorkData { .. } => "WORK_DATA"@,
    }
}

/// The name of a response's kind, as the protocol writes it.
pub open spec fn spec_response_name(r: ResponseView) -> Seq<char> {
    match r {
        ResponseView::Noop => "NOOP"@,
        ResponseView::NoJob => "NO_JOB"@,
        ResponseView::JobAssignUniq { .. } => "JOB_ASSIGN_UNIQ"@,
    }
}

/// `total` as a payload length, if the length field can say it.
fn wire_length(a: usize, b: usize, c: usize, d: usize, seps: u8) -> (r: Option<u32>)
    requires
        seps <= 3,
    ensures
        match r {
            Some(n) => n == a + b + c + d + seps,
            None => a + b + c + d + seps > u32::MAX,
        },
{
    if a > 0xffff_ffff || b > 0xffff_ffff || c > 0xffff_ffff || d > 0xffff_ffff {
        return None;
    }
    let total: u64 = a as u64 + b as u64 + c as u64 + d as u64 + seps as u64;
    if total > 0xffff_ffff {
        None
    } else {
        Some(total as u32)
    }
}

/// Whether `field` holds no NUL byte.
fn nul_free(field: &Vec<u8>) -> (free: bool)
    ensures
        free == spec_nul_free(field@),
{
    let at = find_nul(field.as_slice(), 0);
    assert(field@.subrange(0, field@.len() as int) =~= field@);
    at == field.len()
}

impl Request {
    /// The kind code of this request.
    pub fn id(&self) -> (id: u32)
        ensures
            id == spec_request_id(self@),
    {
        match self {
            Request::SetClientId { .. } => KIND_SET_CLIENT_ID,
            Request::CanDo { .. } => KIND_CAN_DO,
            Request::CantDo { .. } => KIND_CANT_DO,
            Request::PreSleep => KIND_PRE_SLEEP,
            Request::GrabJobUniq => KIND_GRAB_JOB_UNIQ,
            Request::WorkStatus { .. } => KIND_WORK_STATUS,
            Request::WorkComplete { .. } => KIND_WORK_COMPLETE,
            Request::WorkFail { .. } => KIND_WORK_FAIL,
            Request::WorkException { .. } => KIND_WORK_EXCEPTION,
            Request::WorkData { .. } => KIND_WORK_DATA,
        }
    }

    /// The name of this request's kind.
    pub fn name(&self) -> (name: &'static str)
        ensures
            name@ == spec_request_name(self@),
    {
        match self {
            Request::SetClientId { .. } => "SET_CLIENT_ID",
            Request::CanDo { .. } => "CAN_DO",
            Request::CantDo { .. } => "CANT_DO",
            Request::PreSleep => "PRE_SLEEP",
            Request::GrabJobUniq => "GRAB_JOB_UNIQ",
            Request::WorkStatus { .. } => "WORK_STATUS",
            Request::WorkComplete { .. } => "WORK_COMPLETE",
            Request::WorkFail { .. } => "WORK_FAIL",
            Request::WorkException { .. } => "WORK_EXCEPTION",
            Request::WorkData { .. } => "WORK_DATA",
        }
    }

    /// The length of this request's payload on the wire, or why the request
    /// cannot go there.
    pub fn bytes(&self) -> (r: Result<u32, PacketError>)
        ensures
            match r {
                Ok(n) => spec_request_encodable(self@) && n == spec_request_payload(self@).len(),
                Err(e) => spec_request_refusal(self@) == Some(e),
            },
    {
        let (delimited, length) = match self {
            Request::SetClientId { id } => (true, wire_length(id.len(), 0, 0, 0, 0)),
            Request::CanDo { name } => (true, wire_length(name.len(), 0, 0, 0, 0)),
            Request::CantDo { name } => (true, wire_length(name.len(), 0, 0, 0, 0)),
            Request::PreSleep => (true, wire_length(0, 0, 0, 0, 0)),
            Request::GrabJobUniq => (true, wire_length(0, 0, 0, 0, 0)),
            Request::WorkStatus { handle, numerator, denominator } => (
                nul_free(handle) && nul_free(numerator),
                wire_length(handle.len(), numerator.len(), denominator.len(), 0, 2),
            ),
            Request::WorkComplete { handle, data } => (
                nul_free(handle),
                wire_length(handle.len(), data.len(), 0, 0, 1),
            ),
            Request::WorkFail { handle } => (true, wire_length(handle.len(), 0, 0, 0, 0)),
            Request::WorkException { handle, data } => (
                nul_free(handle),
                wire_length(handle.len(), data.len(), 0, 0, 1),
            ),
            Request::WorkData { handle, data } => (
                nul_free(handle),
                wire_length(handle.len(), data.len(), 0, 0, 1),
            ),
        };
        if !delimited {
            Err(PacketError::InteriorNul)
        } else {
            match length {
                Some(n) => Ok(n),
                None => Err(PacketError::TooLong),
            }
        }
    }

    /// Appends this request's payload, as it goes on the wire, to `out`.
    pub fn write(&self, out: &mut Vec<u8>)
        ensures
            final(out)@ == old(out)@ + spec_request_payload(self@),
    {
        match self {
            Request::SetClientId { id } => {
                push_all(out, id.as_slice());
            },
            Request::CanDo { name } => {
                push_all(out, name.as_slice());
            },
            Request::CantDo { name } => {
                push_all(out, name.as_slice());
            },
            Request::PreSleep => {},
            Request::GrabJobUniq => {},
            Request::WorkStatus { handle, numerator, denominator } => {
                push_all(out, handle.as_slice());
                out.push(0);
                push_all(out, numerator.as_slice());
                out.push(0);
                push_all(out, denominator.as_slice());
            },
            Request::WorkComplete { handle, data } => {
                push_all(out, handle.as_slice());
                out.push(0);
                push_all(out, data.as_slice());
            },
            Request::WorkFail { handle } => {
                push_all(out, handle.as_slice());
            },
            Request::WorkException { handle, data } => {
                push_all(out, handle.as_slice());
                out.push(0);
                push_all(out, data.as_slice());
            },
            Request::WorkData { handle, data } => {
                push_all(out, handle.as_slice());
                out.push(0);
                push_all(out, data.as_slice());
            },
        }
        assert(out@ =~= old(out)@ + spec_request_payload(self@));
    }

    /// The request that a payload of the given kind holds, if it holds one.
    pub fn parse(kind: u32, payload: &[u8]) -> (r: Option<Request>)
        ensures
            match r {
                Some(request) => spec_parse_request(kind, payload@) == Some(request@),
                None => spec_parse_request(kind, payload@) is None,
            },
    {
        proof {
            assert(payload@.subrange(0, payload@.len() as int) =~= payload@);
        }
        let whole = payload.len();
        if kind == KIND_SET_CLIENT_ID {
            Some(Request::SetClientId { id: copy_range(payload, 0, whole) })
        } else if kind == KIND_CAN_DO {
            Some(Request::CanDo { name: copy_range(payload, 0, whole) })
        } else if kind == KIND_CANT_DO {
            Some(Request::CantDo { name: copy_range(payload, 0, whole) })
        } else if kind == KIND_PRE_SLEEP {
            if whole == 0 {
                Some(Request::PreSleep)
            } else {
                None
            }
        } else if kind == KIND_GRAB_JOB_UNIQ {
            if whole == 0 {
                Some(Request::GrabJobUniq)
            } else {
                None
            }
        } else if kind == KIND_WORK_STATUS {
            match split_nul(payload, 0) {
                Some((handle, next)) => match split_nul(payload, next) {
                    Some((numerator, last)) => Some(
                        Request::WorkStatus {
                            handle,
                            numerator,
                            denominator: copy_range(payload, last, whole),
                        },
                    ),
                    None => None,
                },
                None => None,
            }
        } else if kind == KIND_WORK_COMPLETE {
            match split_nul(payload, 0) {
                Some((handle, next)) => Some(
                    Request::WorkComplete { handle, data: copy_range(payload, next, whole) },
                ),
                None => None,
            }
        } else if kind == KIND_WORK_FAIL {
            Some(Request::WorkFail { handle: copy_range(payload, 0, whole) })
        } else if kind == KIND_WORK_EXCEPTION {
            match split_nul(payload, 0) {
                Some((handle, next)) => Some(
                    Request::WorkException { handle, data: copy_range(payload, next, whole) },
                ),
                None => None,
            }
        } else if kind == KIND_WORK_DATA {
            match split_nul(payload, 0) {
                Some((handle, next)) => Some(
                    Request::WorkData { handle, data: copy_range(payload, next, whole) },
                ),
                None => None,
            }
        } else {
            None
        }
    }
}

impl Response {
    /// The kind code of this response.
    pub fn id(&self) -> (id: u32)
        ensures
            id == spec_response_id(self@),
    {
        match self {
            Response::Noop => KIND_NOOP,
            Response::NoJob => KIND_NO_JOB,
            Response::JobAssignUniq { .. } => KIND_JOB_ASSIGN_UNIQ,
        }
    }

    /// The name of this response's kind.
    pub fn name(&self) -> (name: &'static str)
        ensures
            name@ == spec_response_name(self@),
    {
        match self {
            Response::Noop => "NOOP",
            Response::NoJob => "NO_JOB",
            Response::JobAssignUniq { .. } => "JOB_ASSIGN_UNIQ",
        }
    }

    /// The length of this response's payload on the wire, or why the response
    /// cannot go there.
    pub fn bytes(&self) -> (r: Result<u32, PacketError>)
        ensures
            match r {
                Ok(n) => spec_response_encodable(self@) && n == spec_response_payload(self@).len(),
                Err(e) => spec_response_refusal(self@) == Some(e),
            },
    {
        match self {
            Response::Noop => Ok(0),
            Response::NoJob => Ok(0),
            Response::JobAssignUniq { handle, name, unique, workload } => {
                if !(nul_free(handle) && nul_free(name) && nul_free(unique)) {
                    Err(PacketError::InteriorNul)
                } else {
                    match wire_length(handle.len(), name.len(), unique.len(), workload.len(), 3) {
                        Some(n) => Ok(n),
                        None => Err(PacketError::TooLong),
                    }
                }
            },
        }
    }

    /// Appends this response's payload, as it goes on the wire, to `out`.
    pub fn write(&self, out: &mut Vec<u8>)
        ensures
            final(out)@ == old(out)@ + spec_response_payload(self@),
    {
        match self {
            Response::Noop => {},
            Response::NoJob => {},
            Response::JobAssignUniq { handle, name, unique, workload } => {
                push_all(out, handle.as_slice());
                out.push(0);
                push_all(out, name.as_slice());
                out.push(0);
                push_all(out, unique.as_slice());
                out.push(0);
                push_all(out, workload.as_slice());
            },
        }
        assert(out@ =~= old(out)@ + spec_response_payload(self@));
    }

    /// The response that a payload of the given kind holds, if it holds one.
    pub fn parse(kind: u32, payload: &[u8]) -> (r: Option<Response>)
        ensures
            match r {
                Some(response) => spec_parse_response(kind, payload@) == Some(response@),
                None => spec_parse_response(kind, payload@) is None,
            },
    {
        proof {
            assert(payload@.subrange(0, payload@.len() as int) =~= payload@);
        }
        let whole = payload.len();
        if kind == KIND_NOOP {
            if whole == 0 {
                Some(Response::Noop)
            } else {
                None
            }
        } else if kind == KIND_NO_JOB {
            if whole == 0 {
                Some(Response::NoJob)
            } else {
                None
            }
        } else if kind == KIND_JOB_ASSIGN_UNIQ {
            match split_nul(payload, 0) {
                Some((handle, next)) => match split_nul(payload, next) {
                    Some((name, third)) => match split_nul(payload, third) {
                        Some((unique, last)) => Some(
                            Response::JobAssignUniq {
                                handle,
                                name,
                                unique,
                                workload: copy_range(payload, last, whole),
                            },
                        ),
                        None => None,
                    },
                    None => None,
                },
                None => None,
            }
        } else {
            None
        }
    }
}


/// One frame: which side it comes from, its kind code, the length of its
/// payload, and the request or response that the payload holds. A frame of the
/// server of a kind that a worker does not act on holds neither.
#[derive(Clone, Debug, PartialEq, Eq)]
pub struct Packet {
    pub magic: PacketMagic,
    pub kind: u32,
    pub length: usize,
    pub request: Option<Request>,
    pub response: Option<Response>,
}

impl View for Packet {
    type V = PacketView;

    open spec fn view(&self) -> PacketView {
        PacketView {
            magic: self.magic,
            kind: self.kind,
            length: self.length as nat,
            request: match self.request {
                Some(r) => Some(r@),
                None => None,
            },
            response: match self.response {
                Some(r) => Some(r@),
                None => None,
            },
        }
    }
}

/// The bytes that writing a packet gives, or why it cannot be written. Only
/// what the packet holds counts: magic, kind and length are derived from it.
pub open spec fn spec_packet_bytes(p: PacketView) -> Result<Seq<u8>, PacketError> {
    match (p.request, p.response) {
        (Some(r), None) => match spec_request_refusal(r) {
            Some(e) => Err(e),
            None => Ok(spec_request_frame(r)),
        },
        (None, Some(r)) => match spec_response_refusal(r) {
            Some(e) => Err(e),
            None => Ok(spec_response_frame(r)),
        },
        _ => Err(PacketError::Unrecognized),
    }
}

/// The name of a packet's kind.
pub open spec fn spec_packet_name(p: PacketView) -> Seq<char> {
    match (p.request, p.response) {
        (Some(r), _) => spec_request_name(r),
        (None, Some(r)) => spec_response_name(r),
        (None, None) => "UNKNOWN"@,
    }
}

/// The kind code of what a packet holds, 0 if it holds nothing.
pub open spec fn spec_packet_id(p: PacketView) -> u32 {
    match (p.request, p.response) {
        (Some(r), _) => spec_request_id(r),
        (None, Some(r)) => spec_response_id(r),
        (None, None) => 0,
    }
}

impl Packet {
    /// The packet that carries `r`, or why `r` cannot go on the wire: a field
    /// that the wire terminates with a NUL holds one, or the payload is longer
    /// than the length field can say.
    pub fn request(r: Request) -> (made: Result<Self, PacketError>)
        ensures
            match made {
                Ok(packet) => spec_request_encodable(r@) && packet@ == spec_request_packet(r@)
                    && packet.request == Some(r),
                Err(e) => spec_request_refusal(r@) == Some(e),
            },
    {
        match r.bytes() {
            Ok(length) => {
                let kind = r.id();
                Ok(
                    Packet {
                        magic: PacketMagic::Request,
                        kind,
                        length: length as usize,
                        request: Some(r),
                        response: None,
                    },
                )
            },
            Err(e) => Err(e),
        }
    }

    /// The packet that carries `r`, or why `r` cannot go on the wire: a field
    /// that the wire terminates with a NUL holds one, or the payload is longer
    /// than the length field can say.
    pub fn response(r: Response) -> (made: Result<Self, PacketError>)
        ensures
            match made {
                Ok(packet) => spec_response_encodable(r@) && packet@ == spec_response_packet(r@)
                    && packet.response == Some(r),
                Err(e) => spec_response_refusal(r@) == Some(e),
            },
    {
        match r.bytes() {
            Ok(length) => {
                let kind = r.id();
                Ok(
                    Packet {
                        magic: PacketMagic::Response,
                        kind,
                        length: length as usize,
                        request: None,
                        response: Some(r),
                    },
                )
            },
            Err(e) => Err(e),
        }
    }

    /// The kind code of what this packet holds, 0 if it holds nothing.
    pub fn id(&self) -> (id: u32)
        ensures
            id == spec_packet_id(self@),
    {
        match &self.request {
            Some(r) => r.id(),
            None => match &self.response {
                Some(r) => r.id(),
                None => 0,
            },
        }
    }

    /// The name of this packet's kind.
    pub fn name(&self) -> (name: &'static str)
        ensures
            name@ == spec_packet_name(self@),
    {
        match &self.request {
            Some(r) => r.name(),
            None => match &self.response {
                Some(r) => r.name(),
                None => "UNKNOWN",
            },
        }
    }

    /// Writes the frame of the request or response that this packet holds.
    /// A packet that holds neither, or both, is refused as unrecognized.
    pub fn to_bytes(&self) -> (written: Result<Vec<u8>, PacketError>)
        ensures
            match written {
                Ok(bytes) => spec_packet_bytes(self@) == Ok::<Seq<u8>, PacketError>(bytes@),
                Err(e) => spec_packet_bytes(self@) == Err::<Seq<u8>, PacketError>(e),
            },
    {
        match (&self.request, &self.response) {
            (Some(r), None) => match r.bytes() {
                Ok(length) => {
                    let mut out: Vec<u8> = Vec::new();
                    push_be32(&mut out, MAGIC_REQUEST);
                    push_be32(&mut out, r.id());
                    push_be32(&mut out, length);
                    r.write(&mut out);
                    assert(out@ =~= spec_request_frame(r@));
                    Ok(out)
                },
                Err(e) => Err(e),
            },
            (None, Some(r)) => match r.bytes() {
                Ok(length) => {
                    let mut out: Vec<u8> = Vec::new();
                    push_be32(&mut out, MAGIC_RESPONSE);
                    push_be32(&mut out, r.id());
                    push_be32(&mut out, length);
                    r.write(&mut out);
                    assert(out@ =~= spec_response_frame(r@));
                    Ok(out)
                },
                Err(e) => Err(e),
            },
            _ => Err(PacketError::Unrecognized),
        }
    }

    /// Reads one frame off the front of `buf`: the bytes after the frame and
    /// the packet. `Incomplete` means that `buf` ends before the frame does;
    /// `Malformed` that `buf` does not start with a frame.
    pub fn from_bytes<'a>(buf: &'a [u8]) -> (read: Result<(&'a [u8], Packet), PacketError>)
        ensures
            match read {
                Ok((rest, packet)) => spec_decode(buf@) == Ok::<
                    (PacketView, Seq<u8>),
                    PacketError,
                >((packet@, rest@)),
                Err(e) => spec_decode(buf@) == Err::<(PacketView, Seq<u8>), PacketError>(e),
            },
    {
        let len = buf.len();
        if len < 4 {
            return Err(PacketError::Incomplete);
        }
        let magic = read_be32(buf, 0);
        if magic != MAGIC_REQUEST && magic != MAGIC_RESPONSE {
            return Err(PacketError::Malformed { bytes: len });
        }
        if len < HEADER_LEN {
            return Err(PacketError::Incomplete);
        }
        let kind = read_be32(buf, 4);
        let length = read_be32(buf, 8) as usize;
        if magic == MAGIC_REQUEST && !is_request_kind(kind) {
            return Err(PacketError::Malformed { bytes: len });
        }
        if len - HEADER_LEN < length {
            return Err(PacketError::Incomplete);
        }
        let end = HEADER_LEN + length;
        let payload = slice_subrange(buf, HEADER_LEN, end);
        let rest = slice_subrange(buf, end, len);
        if magic == MAGIC_REQUEST {
            match Request::parse(kind, payload) {
                Some(r) => Ok(
                    (
                        rest,
                        Packet {
                            magic: PacketMagic::Request,
                            kind,
                            length,
                            request: Some(r),
                            response: None,
                        },
                    ),
                ),
                None => Err(PacketError::Malformed { bytes: len }),
            }
        } else if is_response_kind(kind) {
            match Response::parse(kind, payload) {
                Some(r) => Ok(
                    (
                        rest,
                        Packet {
                            magic: PacketMagic::Response,
                            kind,
                            length,
                            request: None,
                            response: Some(r),
                        },
                    ),
                ),
                None => Err(PacketError::Malformed { bytes: len }),
            }
        } else {
            Ok(
                (
                    rest,
                    Packet {
                        magic: PacketMagic::Response,
                        kind,
                        length,
                        request: None,
                        response: None,
                    },
                ),
            )
        }
    }
}

/// Whether `kind` is the code of a request.
pub fn is_request_kind(kind: u32) -> (known: bool)
    ensures
        known == spec_request_kind(kind),
{
    kind == KIND_SET_CLIENT_ID || kind == KIND_CAN_DO || kind == KIND_CANT_DO || kind
        == KIND_PRE_SLEEP || kind == KIND_GRAB_JOB_UNIQ || kind == KIND_WORK_STATUS || kind
        == KIND_WORK_COMPLETE || kind == KIND_WORK_FAIL || kind == KIND_WORK_EXCEPTION || kind
        == KIND_WORK_DATA
}

/// Whether `kind` is the code of a response that a worker acts on.
pub fn is_response_kind(kind: u32) -> (known: bool)
    ensures
        known == spec_response_kind(kind),
{
    kind == KIND_NOOP || kind == KIND_NO_JOB || kind == KIND_JOB_ASSIGN_UNIQ
}


/// Reading a request's payload back gives the request.
pub proof fn lemma_parse_request_payload(r: RequestView)
    requires
        spec_request_delimited(r),
    ensures
        spec_parse_request(spec_request_id(r), spec_request_payload(r)) == Some(r),
        spec_request_kind(spec_request_id(r)),
{
    match r {
        RequestView::WorkStatus { handle, numerator, denominator } => {
            lemma_split_nul_joined(handle, numerator + seq![0u8] + denominator);
            lemma_split_nul_joined(numerator, denominator);
        },
        RequestView::WorkComplete { handle, data } => {
            lemma_split_nul_joined(handle, data);
        },
        RequestView::WorkException { handle, data } => {
            lemma_split_nul_joined(handle, data);
        },
        RequestView::WorkData { handle, data } => {
            lemma_split_nul_joined(handle, data);
        },
        _ => {},
    }
}

/// Reading a response's payload back gives the response.
pub proof fn lemma_parse_response_payload(r: ResponseView)
    requires
        spec_response_delimited(r),
    ensures
        spec_parse_response(spec_response_id(r), spec_response_payload(r)) == Some(r),
        spec_response_kind(spec_response_id(r)),
{
    match r {
        ResponseView::JobAssignUniq { handle, name, unique, workload } => {
            lemma_split_nul_joined(handle, name + seq![0u8] + (unique + seq![0u8] + workload));
            lemma_split_nul_joined(name, unique + seq![0u8] + workload);
            lemma_split_nul_joined(unique, workload);
        },
        _ => {},
    }
}

/// The parts of a frame that is followed by `tail`, as the reader finds them.
pub proof fn lemma_frame_parts(magic: u32, kind: u32, payload: Seq<u8>, tail: Seq<u8>)
    requires
        payload.len() <= u32::MAX,
    ensures
        ({
            let buf = spec_frame(magic, kind, payload) + tail;
            &&& buf.len() == HEADER_LEN + payload.len() + tail.len()
            &&& spec_from_be32(buf.subrange(0, 4)) == magic
            &&& spec_from_be32(buf.subrange(4, 8)) == kind
            &&& spec_from_be32(buf.subrange(8, 12)) == payload.len()
            &&& buf.subrange(HEADER_LEN as int, HEADER_LEN + payload.len()) == payload
            &&& buf.subrange(HEADER_LEN + payload.len(), buf.len() as int) == tail
        }),
{
    let length = payload.len() as u32;
    let buf = spec_frame(magic, kind, payload) + tail;
    lemma_be32_roundtrip(magic, Seq::empty());
    lemma_be32_roundtrip(kind, Seq::empty());
    lemma_be32_roundtrip(length, Seq::empty());
    assert(buf.subrange(0, 4) =~= spec_be32(magic) + Seq::empty());
    assert(buf.subrange(4, 8) =~= spec_be32(kind) + Seq::empty());
    assert(buf.subrange(8, 12) =~= spec_be32(length) + Seq::empty());
    assert(buf.subrange(HEADER_LEN as int, HEADER_LEN + payload.len()) =~= payload);
    assert(buf.subrange(HEADER_LEN + payload.len(), buf.len() as int) =~= tail);
}

/// Round trip of a request: reading the frame that writing gives, whatever
/// follows it, gives the packet of the request and what followed.
pub proof fn law_request_roundtrip(r: RequestView, tail: Seq<u8>)
    requires
        spec_request_encodable(r),
    ensures
        spec_packet_bytes(spec_request_packet(r)) == Ok::<Seq<u8>, PacketError>(
            spec_request_frame(r),
        ),
        spec_decode(spec_request_frame(r) + tail) == Ok::<(PacketView, Seq<u8>), PacketError>(
            (spec_request_packet(r), tail),
        ),
{
    lemma_frame_parts(MAGIC_REQUEST, spec_request_id(r), spec_request_payload(r), tail);
    lemma_parse_request_payload(r);
}

/// Round trip of a response: reading the frame that writing gives, whatever
/// follows it, gives the packet of the response and what followed.
pub proof fn law_response_roundtrip(r: ResponseView, tail: Seq<u8>)
    requires
        spec_response_encodable(r),
    ensures
        spec_packet_bytes(spec_response_packet(r)) == Ok::<Seq<u8>, PacketError>(
            spec_response_frame(r),
        ),
        spec_decode(spec_response_frame(r) + tail) == Ok::<(PacketView, Seq<u8>), PacketError>(
            (spec_response_packet(r), tail),
        ),
{
    lemma_frame_parts(MAGIC_RESPONSE, spec_response_id(r), spec_response_payload(r), tail);
    lemma_parse_response_payload(r);
}

/// Round trip of any packet that can be written: reading its bytes, whatever
/// follows them, gives the packet and what followed.
pub proof fn law_packet_roundtrip(p: PacketView, tail: Seq<u8>)
    requires
        spec_packet_wf(p),
        p.request is Some || p.response is Some,
    ensures
        spec_packet_bytes(p) is Ok,
        spec_decode(spec_packet_bytes(p).unwrap() + tail) == Ok::<
            (PacketView, Seq<u8>),
            PacketError,
        >((p, tail)),
{
    match (p.request, p.response) {
        (Some(r), None) => {
            law_request_roundtrip(r, tail);
        },
        (None, Some(r)) => {
            law_response_roundtrip(r, tail);
        },
        _ => {},
    }
}

/// Incremental reading: of a frame that `kind` and `payload` make, every
/// buffer that holds less than the whole frame is reported as incomplete,
/// provided the frame is one that reading accepts at all.
pub proof fn lemma_prefix_incomplete(magic: u32, kind: u32, payload: Seq<u8>, k: int)
    requires
        payload.len() <= u32::MAX,
        magic == MAGIC_REQUEST || magic == MAGIC_RESPONSE,
        magic == MAGIC_REQUEST ==> spec_request_kind(kind),
        0 <= k < HEADER_LEN + payload.len(),
    ensures
        spec_decode(spec_frame(magic, kind, payload).subrange(0, k)) == Err::<
            (PacketView, Seq<u8>),
            PacketError,
        >(PacketError::Incomplete),
{
    let frame = spec_frame(magic, kind, payload);
    let part = frame.subrange(0, k);
    lemma_frame_parts(magic, kind, payload, Seq::empty());
    assert(frame + Seq::<u8>::empty() =~= frame);
    if k >= 4 {
        assert(part.subrange(0, 4) =~= frame.subrange(0, 4));
    }
    if k >= HEADER_LEN {
        assert(part.subrange(4, 8) =~= frame.subrange(4, 8));
        assert(part.subrange(8, 12) =~= frame.subrange(8, 12));
    }
}

/// Incremental reading of a request: with the frame cut at any point `k`,
/// the first part alone is incomplete unless it is the whole frame, and both
/// parts together give the packet.
pub proof fn law_request_incremental(r: RequestView, k: int)
    requires
        spec_request_encodable(r),
        0 <= k <= spec_request_frame(r).len(),
    ensures
        k < spec_request_frame(r).len() ==> spec_decode(spec_request_frame(r).subrange(0, k))
            == Err::<(PacketView, Seq<u8>), PacketError>(PacketError::Incomplete),
        spec_decode(
            spec_request_frame(r).subrange(0, k) + spec_request_frame(r).subrange(
                k,
                spec_request_frame(r).len() as int,
            ),
        ) == Ok::<(PacketView, Seq<u8>), PacketError>((spec_request_packet(r), Seq::empty())),
{
    let frame = spec_request_frame(r);
    lemma_parse_request_payload(r);
    if k < frame.len() {
        lemma_prefix_incomplete(MAGIC_REQUEST, spec_request_id(r), spec_request_payload(r), k);
    }
    law_request_roundtrip(r, Seq::empty());
    assert(frame.subrange(0, k) + frame.subrange(k, frame.len() as int) =~= frame + Seq::<
        u8,
    >::empty());
}

/// Incremental reading of a response: with the frame cut at any point `k`,
/// the first part alone is incomplete unless it is the whole frame, and both
/// parts together give the packet.
pub proof fn law_response_incremental(r: ResponseView, k: int)
    requires
        spec_response_encodable(r),
        0 <= k <= spec_response_frame(r).len(),
    ensures
        k < spec_response_frame(r).len() ==> spec_decode(spec_response_frame(r).subrange(0, k))
            == Err::<(PacketView, Seq<u8>), PacketError>(PacketError::Incomplete),
        spec_decode(
            spec_response_frame(r).subrange(0, k) + spec_response_frame(r).subrange(
                k,
                spec_response_frame(r).len() as int,
            ),
        ) == Ok::<(PacketView, Seq<u8>), PacketError>((spec_response_packet(r), Seq::empty())),
{
    let frame = spec_response_frame(r);
    lemma_parse_response_payload(r);
    if k < frame.len() {
        lemma_prefix_incomplete(MAGIC_RESPONSE, spec_response_id(r), spec_response_payload(r), k);
    }
    law_response_roundtrip(r, Seq::empty());
    assert(frame.subrange(0, k) + frame.subrange(k, frame.len() as int) =~= frame + Seq::<
        u8,
    >::empty());
}

/// What reading accepts is a packet that is well formed, and takes at least
/// a header off the buffer.
pub proof fn lemma_decode_wf(buf: Seq<u8>)
    requires
        spec_decode(buf) is Ok,
        buf.len() <= usize::MAX,
    ensures
        spec_packet_wf(spec_decode(buf).unwrap().0),
        spec_decode(buf).unwrap().1.len() + HEADER_LEN + spec_decode(buf).unwrap().0.length
            == buf.len(),
{
    let kind = spec_from_be32(buf.subrange(4, 8));
    let length = spec_from_be32(buf.subrange(8, 12));
    let payload = buf.subrange(HEADER_LEN as int, HEADER_LEN + length);
    let p = spec_decode(buf).unwrap().0;
    match (p.request, p.response) {
        (Some(r), None) => {
            lemma_parse_request_wf(kind, payload);
        },
        (None, Some(r)) => {
            lemma_parse_response_wf(kind, payload);
        },
        _ => {},
    }
}

/// What a payload is read as has the payload's kind and length, and can be
/// written again.
pub proof fn lemma_parse_request_wf(kind: u32, payload: Seq<u8>)
    requires
        spec_parse_request(kind, payload) is Some,
    ensures
        spec_request_id(spec_parse_request(kind, payload).unwrap()) == kind,
        spec_request_payload(spec_parse_request(kind, payload).unwrap()) == payload,
        spec_request_delimited(spec_parse_request(kind, payload).unwrap()),
{
    if kind == KIND_WORK_STATUS {
        lemma_split_nul_head(payload);
        lemma_split_nul_head(spec_split_nul(payload).unwrap().1);
    } else if kind == KIND_WORK_COMPLETE || kind == KIND_WORK_EXCEPTION || kind == KIND_WORK_DATA {
        lemma_split_nul_head(payload);
    }
    assert(spec_request_payload(spec_parse_request(kind, payload).unwrap()) =~= payload);
}

/// What a payload is read as has the payload's kind and length, and can be
/// written again.
pub proof fn lemma_parse_response_wf(kind: u32, payload: Seq<u8>)
    requires
        spec_parse_response(kind, payload) is Some,
    ensures
        spec_response_id(spec_parse_response(kind, payload).unwrap()) == kind,
        spec_response_payload(spec_parse_response(kind, payload).unwrap()) == payload,
        spec_response_delimited(spec_parse_response(kind, payload).unwrap()),
{
    if kind == KIND_JOB_ASSIGN_UNIQ {
        lemma_split_nul_head(payload);
        let rest = spec_split_nul(payload).unwrap().1;
        lemma_split_nul_head(rest);
        lemma_split_nul_head(spec_split_nul(rest).unwrap().1);
    }
    assert(spec_response_payload(spec_parse_response(kind, payload).unwrap()) =~= payload);
}

/// Reading, then writing: a packet that was read and holds a request or a
/// response is written as the very bytes it was read from, terminators
/// included.
pub proof fn law_decode_reencodes(buf: Seq<u8>)
    requires
        spec_decode(buf) is Ok,
        spec_decode(buf).unwrap().0.request is Some || spec_decode(buf).unwrap().0.response
            is Some,
    ensures
        spec_packet_bytes(spec_decode(buf).unwrap().0) is Ok,
        buf == spec_packet_bytes(spec_decode(buf).unwrap().0).unwrap() + spec_decode(
            buf,
        ).unwrap().1,
{
    let p = spec_decode(buf).unwrap().0;
    let rest = spec_decode(buf).unwrap().1;
    let kind = spec_from_be32(buf.subrange(4, 8));
    let length = spec_from_be32(buf.subrange(8, 12));
    let payload = buf.subrange(HEADER_LEN as int, HEADER_LEN + length);
    lemma_from_be32_roundtrip(buf.subrange(0, 4));
    lemma_from_be32_roundtrip(buf.subrange(4, 8));
    lemma_from_be32_roundtrip(buf.subrange(8, 12));
    assert(buf.subrange(0, 4).subrange(0, 4) =~= buf.subrange(0, 4));
    assert(buf.subrange(4, 8).subrange(0, 4) =~= buf.subrange(4, 8));
    assert(buf.subrange(8, 12).subrange(0, 4) =~= buf.subrange(8, 12));
    match (p.request, p.response) {
        (Some(r), None) => {
            lemma_parse_request_wf(kind, payload);
            assert(buf =~= spec_request_frame(r) + rest);
        },
        (None, Some(r)) => {
            lemma_parse_response_wf(kind, payload);
            assert(buf =~= spec_response_frame(r) + rest);
        },
        _ => {},
    }
}

} // verus!
