use superman::packet::{Packet, PacketError, PacketMagic, Request, Response};

fn get_bytes(r: Result<Packet, PacketError>) -> Vec<u8> {
    r.unwrap().to_bytes().unwrap()
}

const MAGIC_REQ: u32 = u32::from_be_bytes(*b"\0REQ");
const MAGIC_RES: u32 = u32::from_be_bytes(*b"\0RES");

fn terminated(field: &[u8]) -> Vec<u8> {
    assert!(!field.contains(&0));
    let mut bytes = field.to_vec();
    bytes.push(0);
    bytes
}

fn response_noop() -> Vec<u8> {
    let mut data: Vec<u8> = Vec::new();
    data.extend(&MAGIC_RES.to_be_bytes());
    data.extend(&6_u32.to_be_bytes());
    data.extend(&0_u32.to_be_bytes());
    data
}

#[test]
fn packet_read_response_noop() {
    let data = response_noop();
    let (rest, pkt) = Packet::from_bytes(&data).unwrap();
    assert_eq!(rest, &[] as &[u8]);
    assert_eq!(pkt.magic, PacketMagic::Response);
    assert_eq!(pkt.response, Some(Response::Noop));
}

#[test]
fn packet_write_response_noop() {
    assert_eq!(get_bytes(Packet::response(Response::Noop)), response_noop());
}

fn response_nojob() -> Vec<u8> {
    let mut data: Vec<u8> = Vec::new();
    data.extend(&MAGIC_RES.to_be_bytes());
    data.extend(&10_u32.to_be_bytes());
    data.extend(&0_u32.to_be_bytes());
    data
}

#[test]
fn packet_read_response_nojob() {
    let data = response_nojob();
    let (rest, pkt) = Packet::from_bytes(&data).unwrap();
    assert_eq!(rest, &[] as &[u8]);
    assert_eq!(pkt.magic, PacketMagic::Response);
    assert_eq!(pkt.response, Some(Response::NoJob));
}

#[test]
fn packet_write_response_nojob() {
    assert_eq!(
        get_bytes(Packet::response(Response::NoJob)),
        response_nojob()
    );
}

fn response_jobassignuniq(handle: &str, name: &str, unique: &[u8], workload: &[u8]) -> Vec<u8> {
    let bhandle = terminated(handle.as_bytes());
    let bname = terminated(name.as_bytes());
    let bunique = terminated(unique);

    let mut data: Vec<u8> = Vec::new();
    data.extend(&MAGIC_RES.to_be_bytes());
    data.extend(&31_u32.to_be_bytes());
    data.extend(
        &((bhandle.len() + bname.len() + bunique.len() + workload.len()) as u32).to_be_bytes(),
    );
    data.extend(bhandle);
    data.extend(bname);
    data.extend(bunique);
    data.extend(workload);
    data
}

#[test]
fn packet_read_response_jobassignuniq() {
    let data = response_jobassignuniq(
        "H:localhost:1",
        "gandhy_matlack",
        b"e2cb1f42-1181-476e-960a-2c157ddab8ab",
        b"[1,2,3]",
    );
    let (rest, pkt) = Packet::from_bytes(&data).unwrap();
    assert_eq!(rest, &[] as &[u8]);
    assert_eq!(pkt.magic, PacketMagic::Response);
    assert_eq!(
        pkt.response,
        Some(Response::JobAssignUniq {
            handle: b"H:localhost:1\0".to_vec(),
            name: b"gandhy_matlack\0".to_vec(),
            unique: b"e2cb1f42-1181-476e-960a-2c157ddab8ab\0".to_vec(),
            workload: b"[1,2,3]".to_vec(),
        })
    );
}

#[test]
fn packet_write_response_jobassignuniq() {
    assert_eq!(
        get_bytes(Packet::response(Response::JobAssignUniq {
            handle: b"H:localhost:2\0".to_vec(),
            name: b"lahn_ditch\0".to_vec(),
            unique: b"8fdff463-4e6f-4c6f-8e22-d3b5ea35f6fe\0".to_vec(),
            workload: b"[9,8,7]".to_vec(),
        })),
        response_jobassignuniq(
            "H:localhost:2",
            "lahn_ditch",
            b"8fdff463-4e6f-4c6f-8e22-d3b5ea35f6fe",
            b"[9,8,7]"
        )
    );
}

fn request_cando(name: &str) -> Vec<u8> {
    let bname = name.as_bytes();
    let mut data: Vec<u8> = Vec::new();
    data.extend(&MAGIC_REQ.to_be_bytes());
    data.extend(&1_u32.to_be_bytes());
    data.extend(&(bname.len() as u32).to_be_bytes());
    data.extend(bname);
    data
}

#[test]
fn packet_read_request_cando() {
    let data = request_cando("helloworld");
    let (rest, pkt) = Packet::from_bytes(&data).unwrap();
    assert_eq!(rest, &[] as &[u8]);
    assert_eq!(pkt.magic, PacketMagic::Request);
    assert_eq!(
        pkt.request,
        Some(Request::CanDo {
            name: b"helloworld".to_vec(),
        })
    );
}

#[test]
fn packet_write_request_cando() {
    assert_eq!(
        get_bytes(Packet::request(Request::CanDo {
            name: b"bananasplit".to_vec()
        })),
        request_cando("bananasplit")
    );
}

#[test]
fn kept_terminators_survive_the_round_trip() {
    let requests = vec![
        Request::WorkStatus {
            handle: b"H1\0".to_vec(),
            numerator: b"1\0".to_vec(),
            denominator: b"4".to_vec(),
        },
        Request::WorkComplete { handle: b"\0".to_vec(), data: b"a\0b".to_vec() },
        Request::WorkException { handle: b"H1\0".to_vec(), data: Vec::new() },
        Request::WorkData { handle: b"H1\0".to_vec(), data: b"{}".to_vec() },
        Request::WorkFail { handle: b"H1".to_vec() },
        Request::PreSleep,
    ];
    for request in requests {
        let made = Packet::request(request.clone()).unwrap();
        let bytes = made.to_bytes().unwrap();
        let (rest, pkt) = Packet::from_bytes(&bytes).unwrap();
        assert_eq!(rest, &[] as &[u8]);
        assert_eq!(pkt.request, Some(request));
        assert_eq!(pkt, made);
    }
    let complete = Request::WorkComplete { handle: b"H1\0".to_vec(), data: b"{}".to_vec() };
    let pkt = Packet::request(complete).unwrap();
    assert_eq!(pkt.kind, 13);
    assert_eq!(pkt.length, 5);
    assert_eq!(pkt.to_bytes().unwrap()[12..], *b"H1\0{}");
}

#[test]
fn fields_without_their_terminator_are_refused() {
    for handle in [&b"H1"[..], b"", b"H\x001\0", b"H1\0\0", b"\0H1"] {
        let request = Request::WorkComplete { handle: handle.to_vec(), data: b"{}".to_vec() };
        assert_eq!(Packet::request(request), Err(PacketError::Unterminated));
    }
    let response = Response::JobAssignUniq {
        handle: b"H1\0".to_vec(),
        name: b"fn".to_vec(),
        unique: b"u\0".to_vec(),
        workload: b"W".to_vec(),
    };
    assert_eq!(Packet::response(response.clone()), Err(PacketError::Unterminated));
    let mut pkt = Packet::response(Response::Noop).unwrap();
    pkt.response = Some(response);
    assert_eq!(pkt.to_bytes(), Err(PacketError::Unterminated));
    pkt.response = None;
    assert_eq!(pkt.to_bytes(), Err(PacketError::Unrecognized));
}

#[test]
fn reading_reports_as_the_other_codec_does() {
    assert_eq!(Packet::from_bytes(b"\0RE"), Err(PacketError::Incomplete));
    assert_eq!(
        Packet::from_bytes(b"garbage in here"),
        Err(PacketError::Malformed { bytes: 15 })
    );
    let data = response_jobassignuniq("H1", "fn", b"u", b"W");
    for k in 0..data.len() {
        assert_eq!(Packet::from_bytes(&data[..k]), Err(PacketError::Incomplete));
    }
}
