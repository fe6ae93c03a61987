use superman::protocols::gearman::{Packet, PacketError, PacketMagic, Request, Response};

fn get_bytes(r: Result<Packet, PacketError>) -> Vec<u8> {
    r.unwrap().to_bytes().unwrap()
}

const MAGIC_REQ: u32 = u32::from_be_bytes(*b"\0REQ");
const MAGIC_RES: u32 = u32::from_be_bytes(*b"\0RES");

fn with_nul(field: &[u8]) -> Vec<u8> {
    assert!(!field.contains(&0));
    let mut bytes = field.to_vec();
    bytes.push(0);
    bytes
}

fn frame(magic: u32, kind: u32, payload: &[u8]) -> Vec<u8> {
    let mut data: Vec<u8> = Vec::new();
    data.extend(&magic.to_be_bytes());
    data.extend(&kind.to_be_bytes());
    data.extend(&(payload.len() as u32).to_be_bytes());
    data.extend(payload);
    data
}

fn response_noop() -> Vec<u8> {
    let mut data: Vec<u8> = Vec::new();
    data.extend(&MAGIC_RES.to_be_bytes());
    data.extend(&6_u32.to_be_bytes());
    data.extend(&0_u32.to_be_bytes());
    data
}

#[test]
fn gearman_read_response_noop() {
    let data = response_noop();
    let (rest, pkt) = Packet::from_bytes(&data).unwrap();
    assert_eq!(rest, &[] as &[u8]);
    assert_eq!(pkt.magic, PacketMagic::Response);
    assert_eq!(pkt.response, Some(Response::Noop));
}

#[test]
fn gearman_write_response_noop() {
    assert_eq!(get_bytes(Packet::response(Response::Noop)), response_noop());
}

fn response_nojob() -> Vec<u8> {
    let mut data: Vec<u8> = Vec::new();
    data.extend(&MAGIC_RES.to_be_bytes());
    data.extend(&10_u32.to_be_bytes());
    data.extend(&0_u32.to_be_bytes());
    data
}

#[test]
fn gearman_read_response_nojob() {
    let data = response_nojob();
    let (rest, pkt) = Packet::from_bytes(&data).unwrap();
    assert_eq!(rest, &[] as &[u8]);
    assert_eq!(pkt.magic, PacketMagic::Response);
    assert_eq!(pkt.response, Some(Response::NoJob));
}

#[test]
fn gearman_write_response_nojob() {
    assert_eq!(
        get_bytes(Packet::response(Response::NoJob)),
        response_nojob()
    );
}

fn response_jobassignuniq(handle: &[u8], name: &[u8], unique: &[u8], workload: &[u8]) -> Vec<u8> {
    let bhandle = with_nul(handle);
    let bname = with_nul(name);
    let bunique = with_nul(unique);

    let mut data: Vec<u8> = Vec::new();
    data.extend(&MAGIC_RES.to_be_bytes());
    data.extend(&31_u32.to_be_bytes());
    data.extend(
        &((bhandle.len() + bname.len() + bunique.len() + workload.len()) as u32).to_be_bytes(),
    );
    data.extend(bhandle);
    data.extend(bname);
    data.extend(bunique);
    data.extend(workload);
    data
}

#[test]
fn gearman_read_response_jobassignuniq() {
    let data = response_jobassignuniq(
        b"H:localhost:1",
        b"gandhy_matlack",
        b"e2cb1f42-1181-476e-960a-2c157ddab8ab",
        b"[1,2,3]",
    );
    let (rest, pkt) = Packet::from_bytes(&data).unwrap();
    assert_eq!(rest, &[] as &[u8]);
    assert_eq!(pkt.magic, PacketMagic::Response);
    assert_eq!(
        pkt.response,
        Some(Response::JobAssignUniq {
            handle: b"H:localhost:1".to_vec(),
            name: b"gandhy_matlack".to_vec(),
            unique: b"e2cb1f42-1181-476e-960a-2c157ddab8ab".to_vec(),
            workload: b"[1,2,3]".to_vec(),
        })
    );
}

#[test]
fn gearman_write_response_jobassignuniq() {
    assert_eq!(
        get_bytes(Packet::response(Response::JobAssignUniq {
            handle: b"H:localhost:2".to_vec(),
            name: b"lahn_ditch".to_vec(),
            unique: b"8fdff463-4e6f-4c6f-8e22-d3b5ea35f6fe".to_vec(),
            workload: b"[9,8,7]".to_vec(),
        })),
        response_jobassignuniq(
            b"H:localhost:2",
            b"lahn_ditch",
            b"8fdff463-4e6f-4c6f-8e22-d3b5ea35f6fe",
            b"[9,8,7]"
        )
    );
}

fn request_cando(name: &str) -> Vec<u8> {
    let bname = name.as_bytes();
    let mut data: Vec<u8> = Vec::new();
    data.extend(&MAGIC_REQ.to_be_bytes());
    data.extend(&1_u32.to_be_bytes());
    data.extend(&(bname.len() as u32).to_be_bytes());
    data.extend(bname);
    data
}

#[test]
fn gearman_read_request_cando() {
    let data = request_cando("helloworld");
    let (rest, pkt) = Packet::from_bytes(&data).unwrap();
    assert_eq!(rest, &[] as &[u8]);
    assert_eq!(pkt.magic, PacketMagic::Request);
    assert_eq!(
        pkt.request,
        Some(Request::CanDo {
            name: b"helloworld".to_vec(),
        })
    );
}

#[test]
fn gearman_write_request_cando() {
    assert_eq!(
        get_bytes(Packet::request(Request::CanDo {
            name: b"bananasplit".to_vec()
        })),
        request_cando("bananasplit")
    );
}

fn all_requests() -> Vec<(u32, Request, Vec<u8>)> {
    vec![
        (
            22,
            Request::SetClientId { id: b"superman::v1::host::fn=2".to_vec() },
            b"superman::v1::host::fn=2".to_vec(),
        ),
        (1, Request::CanDo { name: b"fn".to_vec() }, b"fn".to_vec()),
        (2, Request::CantDo { name: b"fn".to_vec() }, b"fn".to_vec()),
        (4, Request::PreSleep, Vec::new()),
        (30, Request::GrabJobUniq, Vec::new()),
        (
            12,
            Request::WorkStatus {
                handle: b"H1".to_vec(),
                numerator: b"1".to_vec(),
                denominator: b"4".to_vec(),
            },
            b"H1\x001\x004".to_vec(),
        ),
        (
            13,
            Request::WorkComplete { handle: b"H1".to_vec(), data: b"{}".to_vec() },
            b"H1\0{}".to_vec(),
        ),
        (14, Request::WorkFail { handle: b"H1".to_vec() }, b"H1".to_vec()),
        (
            25,
            Request::WorkException { handle: b"H1".to_vec(), data: b"oops".to_vec() },
            b"H1\0oops".to_vec(),
        ),
        (
            28,
            Request::WorkData { handle: b"H1".to_vec(), data: b"a\0b".to_vec() },
            b"H1\0a\0b".to_vec(),
        ),
    ]
}

#[test]
fn every_request_has_its_kind_code_and_payload() {
    for (kind, request, payload) in all_requests() {
        assert_eq!(request.id(), kind);
        assert_eq!(request.bytes(), Ok(payload.len() as u32));
        let pkt = Packet::request(request).unwrap();
        assert_eq!(pkt.kind, kind);
        assert_eq!(pkt.length, payload.len());
        assert_eq!(pkt.magic, PacketMagic::Request);
        assert_eq!(pkt.to_bytes().unwrap(), frame(MAGIC_REQ, kind, &payload));
    }
}

#[test]
fn every_request_survives_the_round_trip() {
    for (_, request, _) in all_requests() {
        let bytes = get_bytes(Packet::request(request.clone()));
        let (rest, pkt) = Packet::from_bytes(&bytes).unwrap();
        assert_eq!(rest, &[] as &[u8]);
        assert_eq!(pkt, Packet::request(request.clone()).unwrap());
        assert_eq!(pkt.request, Some(request));
        assert_eq!(pkt.response, None);
    }
}

#[test]
fn every_response_survives_the_round_trip() {
    let responses = vec![
        Response::Noop,
        Response::NoJob,
        Response::JobAssignUniq {
            handle: b"H1".to_vec(),
            name: b"fn".to_vec(),
            unique: b"u".to_vec(),
            workload: b"W\0W".to_vec(),
        },
        Response::JobAssignUniq {
            handle: Vec::new(),
            name: Vec::new(),
            unique: Vec::new(),
            workload: Vec::new(),
        },
    ];
    for response in responses {
        let bytes = get_bytes(Packet::response(response.clone()));
        let (rest, pkt) = Packet::from_bytes(&bytes).unwrap();
        assert_eq!(rest, &[] as &[u8]);
        assert_eq!(pkt.response, Some(response));
        assert_eq!(pkt.request, None);
    }
}

#[test]
fn kind_codes_and_names() {
    assert_eq!(Response::Noop.id(), 6);
    assert_eq!(Response::NoJob.id(), 10);
    let job = Response::JobAssignUniq {
        handle: vec![],
        name: vec![],
        unique: vec![],
        workload: vec![],
    };
    assert_eq!(job.id(), 31);
    assert_eq!(job.name(), "JOB_ASSIGN_UNIQ");
    assert_eq!(Response::Noop.name(), "NOOP");
    assert_eq!(Response::NoJob.name(), "NO_JOB");
    let names = [
        "SET_CLIENT_ID",
        "CAN_DO",
        "CANT_DO",
        "PRE_SLEEP",
        "GRAB_JOB_UNIQ",
        "WORK_STATUS",
        "WORK_COMPLETE",
        "WORK_FAIL",
        "WORK_EXCEPTION",
        "WORK_DATA",
    ];
    for ((_, request, _), name) in all_requests().into_iter().zip(names) {
        assert_eq!(request.name(), name);
        let pkt = Packet::request(request.clone()).unwrap();
        assert_eq!(pkt.name(), name);
        assert_eq!(pkt.id(), request.id());
    }
}

#[test]
fn decoding_leaves_the_tail() {
    let mut data = response_noop();
    data.extend(response_nojob());
    data.extend(b"\0RE");
    let (rest, pkt) = Packet::from_bytes(&data).unwrap();
    assert_eq!(pkt.response, Some(Response::Noop));
    let (rest, pkt) = Packet::from_bytes(rest).unwrap();
    assert_eq!(pkt.response, Some(Response::NoJob));
    assert_eq!(rest, b"\0RE");
    assert_eq!(Packet::from_bytes(rest), Err(PacketError::Incomplete));
}

#[test]
fn every_strict_prefix_of_a_frame_is_incomplete() {
    let data = response_jobassignuniq(b"H1", b"fn", b"u", b"W");
    for k in 0..data.len() {
        assert_eq!(
            Packet::from_bytes(&data[..k]),
            Err(PacketError::Incomplete),
            "prefix of {} bytes",
            k
        );
    }
    assert!(Packet::from_bytes(&data).is_ok());
    let request = get_bytes(Packet::request(Request::WorkStatus {
        handle: b"H1".to_vec(),
        numerator: b"1".to_vec(),
        denominator: b"4".to_vec(),
    }));
    for k in 0..request.len() {
        assert_eq!(Packet::from_bytes(&request[..k]), Err(PacketError::Incomplete));
    }
}

#[test]
fn bad_magic_is_malformed() {
    let data = b"GET / HTTP/1.1\r\n".to_vec();
    assert_eq!(
        Packet::from_bytes(&data),
        Err(PacketError::Malformed { bytes: data.len() })
    );
    assert_eq!(
        Packet::from_bytes(b"\0REX"),
        Err(PacketError::Malformed { bytes: 4 })
    );
    assert_eq!(Packet::from_bytes(b"\0RE"), Err(PacketError::Incomplete));
    assert_eq!(Packet::from_bytes(b"XYZ"), Err(PacketError::Incomplete));
}

#[test]
fn unknown_request_kind_is_malformed() {
    let data = frame(MAGIC_REQ, 99, b"abc");
    assert_eq!(
        Packet::from_bytes(&data),
        Err(PacketError::Malformed { bytes: 15 })
    );
    assert_eq!(
        Packet::from_bytes(&data[..12]),
        Err(PacketError::Malformed { bytes: 12 })
    );
    assert_eq!(Packet::from_bytes(&data[..11]), Err(PacketError::Incomplete));
}

#[test]
fn unknown_response_kind_is_ignored() {
    let mut data = frame(MAGIC_RES, 19, b"some error text");
    data.extend(response_noop());
    let (rest, pkt) = Packet::from_bytes(&data).unwrap();
    assert_eq!(pkt.magic, PacketMagic::Response);
    assert_eq!(pkt.kind, 19);
    assert_eq!(pkt.length, 15);
    assert_eq!(pkt.request, None);
    assert_eq!(pkt.response, None);
    assert_eq!(pkt.id(), 0);
    assert_eq!(pkt.name(), "UNKNOWN");
    assert_eq!(rest, &response_noop()[..]);
    assert_eq!(pkt.to_bytes(), Err(PacketError::Unrecognized));
    assert_eq!(
        Packet::from_bytes(&data[..20]),
        Err(PacketError::Incomplete)
    );
}

#[test]
fn missing_terminator_is_malformed() {
    let data = frame(MAGIC_REQ, 13, b"handle without terminator");
    assert_eq!(
        Packet::from_bytes(&data),
        Err(PacketError::Malformed { bytes: data.len() })
    );
    let data = frame(MAGIC_REQ, 12, b"H1\0only one terminator");
    assert_eq!(
        Packet::from_bytes(&data),
        Err(PacketError::Malformed { bytes: data.len() })
    );
    let data = frame(MAGIC_RES, 31, b"H1\0fn\0unique and workload");
    assert_eq!(
        Packet::from_bytes(&data),
        Err(PacketError::Malformed { bytes: data.len() })
    );
}

#[test]
fn payload_on_an_empty_kind_is_malformed() {
    for (magic, kind) in [(MAGIC_RES, 6), (MAGIC_RES, 10), (MAGIC_REQ, 4), (MAGIC_REQ, 30)] {
        let data = frame(magic, kind, b"x");
        assert_eq!(
            Packet::from_bytes(&data),
            Err(PacketError::Malformed { bytes: 13 })
        );
    }
}

#[test]
fn interior_nul_is_refused() {
    let request = Request::WorkComplete { handle: b"H\x001".to_vec(), data: b"{}".to_vec() };
    assert_eq!(request.bytes(), Err(PacketError::InteriorNul));
    assert_eq!(Packet::request(request.clone()), Err(PacketError::InteriorNul));
    assert_eq!(request.send(), Err(PacketError::InteriorNul));
    let request = Request::WorkStatus {
        handle: b"H1".to_vec(),
        numerator: b"1\0".to_vec(),
        denominator: b"4".to_vec(),
    };
    assert_eq!(Packet::request(request), Err(PacketError::InteriorNul));
    let response = Response::JobAssignUniq {
        handle: b"H1".to_vec(),
        name: b"fn".to_vec(),
        unique: b"\0".to_vec(),
        workload: b"W".to_vec(),
    };
    assert_eq!(Packet::response(response), Err(PacketError::InteriorNul));
    let fine = Request::WorkFail { handle: b"H\x001".to_vec() };
    assert!(Packet::request(fine).is_ok());
}

#[test]
fn a_packet_with_both_or_neither_is_not_written() {
    let mut pkt = Packet::request(Request::PreSleep).unwrap();
    pkt.response = Some(Response::Noop);
    assert_eq!(pkt.to_bytes(), Err(PacketError::Unrecognized));
    pkt.request = None;
    assert_eq!(pkt.to_bytes().unwrap(), response_noop());
    pkt.response = None;
    assert_eq!(pkt.to_bytes(), Err(PacketError::Unrecognized));
}

#[test]
fn send_gives_the_frame() {
    let request = Request::WorkComplete { handle: b"H1".to_vec(), data: b"{}".to_vec() };
    assert_eq!(request.send().unwrap(), frame(MAGIC_REQ, 13, b"H1\0{}"));
    assert_eq!(Request::GrabJobUniq.send().unwrap(), frame(MAGIC_REQ, 30, b""));
}

#[test]
fn magic_codes() {
    assert_eq!(PacketMagic::Request.code(), 5391697);
    assert_eq!(PacketMagic::Response.code(), 5391699);
    assert_eq!(PacketMagic::Request.code(), MAGIC_REQ);
    assert_eq!(PacketMagic::Response.code(), MAGIC_RES);
}
