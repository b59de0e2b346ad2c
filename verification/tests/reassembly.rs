use arena_wire::client::ClientPacket;
use arena_wire::envelope::PacketProtocol;
use arena_wire::reassembly::{PacketBuf, PacketBufState};

fn envelope_of(p: ClientPacket, text: bool) -> Vec<u8> {
    if text {
        PacketProtocol::Json(p).serialize().unwrap()
    } else {
        PacketProtocol::Zero(p).serialize().unwrap()
    }
}

fn stream() -> (Vec<u8>, Vec<ClientPacket>) {
    let mut bytes = Vec::new();
    let mut values = Vec::new();
    for i in 0..5u32 {
        let p = ClientPacket { player_id: i, orientation: 90 * i, propulsor: (i % 16) as u8 };
        bytes.extend(envelope_of(p, i % 2 == 1));
        values.push(p);
    }
    (bytes, values)
}

fn feed(bytes: &[u8], size: usize) -> (Vec<ClientPacket>, PacketBuf) {
    let mut buf = PacketBuf::new();
    let mut out = Vec::new();
    for chunk in bytes.chunks(size) {
        for envelope in buf.process::<ClientPacket>(chunk) {
            out.push(envelope.deserialize().unwrap());
        }
    }
    (out, buf)
}

#[test]
fn new_buffer_waits_for_a_header() {
    let buf = PacketBuf::new();
    assert_eq!(buf.state(), PacketBufState::Header);
    assert_eq!(buf.remaining(), 9);
}

#[test]
fn chunking_does_not_change_the_envelopes() {
    let (bytes, values) = stream();
    for size in [1, 7, bytes.len()] {
        let (out, buf) = feed(&bytes, size);
        assert_eq!(out, values);
        assert_eq!(buf.state(), PacketBufState::Header);
        assert_eq!(buf.remaining(), 9);
    }
    for size in 2..40 {
        assert_eq!(feed(&bytes, size).0, values);
    }
}

#[test]
fn one_read_may_hold_several_envelopes() {
    let (bytes, _) = stream();
    let mut buf = PacketBuf::new();
    let out = buf.process::<ClientPacket>(&bytes);
    assert_eq!(out.len(), 5);
    match &out[0] {
        PacketProtocol::Raw { id, protocol, content } => {
            assert_eq!((*id, *protocol), (0, 0));
            assert_eq!(content, &vec![0, 0, 0, 0, 0, 0, 0, 0, 0]);
        }
        _ => panic!("a travelling form was expected"),
    }
    match &out[1] {
        PacketProtocol::Raw { id, protocol, content } => {
            assert_eq!((*id, *protocol), (0, 1));
            assert_eq!(content, &br#"{"player_id":1,"orientation":90,"propulsor":1}"#.to_vec());
        }
        _ => panic!("a travelling form was expected"),
    }
}

#[test]
fn header_byte_by_byte() {
    let header = [0u8, 0, 0, 0, 0, 0, 0, 0, 0];
    let mut buf = PacketBuf::new();
    for (i, b) in header.iter().enumerate().take(8) {
        assert!(buf.process::<ClientPacket>(&[*b]).is_empty());
        assert_eq!(buf.state(), PacketBufState::Header);
        assert_eq!(buf.remaining(), 8 - i);
    }
    let out = buf.process::<ClientPacket>(&header[8..]);
    assert_eq!(out.len(), 1);
    match &out[0] {
        PacketProtocol::Raw { id, protocol, content } => {
            assert_eq!((*id, *protocol), (0, 0));
            assert!(content.is_empty());
        }
        _ => panic!("a travelling form was expected"),
    }
    assert_eq!(buf.state(), PacketBufState::Header);
    assert_eq!(buf.remaining(), 9);
}

#[test]
fn header_then_content_byte_by_byte() {
    let wire = [0u8, 0, 0, 0, 0, 0, 0, 0, 9, 0, 0, 0, 1, 0, 0, 0, 5, 13];
    let mut buf = PacketBuf::new();
    for (i, b) in wire.iter().enumerate().take(17) {
        assert!(buf.process::<ClientPacket>(&[*b]).is_empty());
        if i < 8 {
            assert_eq!(buf.state(), PacketBufState::Header);
            assert_eq!(buf.remaining(), 8 - i);
        } else {
            assert_eq!(buf.state(), PacketBufState::Content);
            assert_eq!(buf.remaining(), 17 - i);
        }
    }
    let mut out = buf.process::<ClientPacket>(&wire[17..]);
    assert_eq!(out.len(), 1);
    let p = out.pop().unwrap().deserialize().unwrap();
    assert_eq!(p, ClientPacket { player_id: 1, orientation: 5, propulsor: 13 });
}

#[test]
fn empty_read_changes_nothing() {
    let mut buf = PacketBuf::new();
    assert!(buf.process::<ClientPacket>(&[]).is_empty());
    assert_eq!(buf.state(), PacketBufState::Header);
    assert_eq!(buf.remaining(), 9);
    assert!(buf.process::<ClientPacket>(&[0, 0, 0, 0, 0, 0, 0, 0, 2, 7]).is_empty());
    assert_eq!(buf.state(), PacketBufState::Content);
    assert_eq!(buf.remaining(), 1);
    assert!(buf.process::<ClientPacket>(&[]).is_empty());
    assert_eq!(buf.state(), PacketBufState::Content);
    assert_eq!(buf.remaining(), 1);
    let out = buf.process::<ClientPacket>(&[8]);
    assert_eq!(out.len(), 1);
    match &out[0] {
        PacketProtocol::Raw { content, .. } => assert_eq!(content, &vec![7, 8]),
        _ => panic!("a travelling form was expected"),
    }
}

#[test]
fn bytes_behind_an_envelope_are_kept() {
    let wire = [0u8, 0, 0, 0, 0, 0, 0, 0, 9, 0, 0, 0, 1, 0, 0, 0, 5, 13];
    let mut bytes = wire.to_vec();
    bytes.extend_from_slice(&wire[..12]);
    let mut buf = PacketBuf::new();
    assert_eq!(buf.process::<ClientPacket>(&bytes).len(), 1);
    assert_eq!(buf.state(), PacketBufState::Content);
    assert_eq!(buf.remaining(), 6);
    let out = buf.process::<ClientPacket>(&wire[12..]);
    assert_eq!(out.len(), 1);
    assert_eq!(buf.remaining(), 9);
}

#[test]
fn large_declared_length_only_waits() {
    let mut buf = PacketBuf::new();
    let out = buf.process::<ClientPacket>(&[0, 0, 0, 1, 0, 255, 255, 255, 255, 1, 2, 3]);
    assert!(out.is_empty());
    assert_eq!(buf.state(), PacketBufState::Content);
    assert_eq!(buf.remaining(), 0xffff_ffff - 3);
}

#[test]
fn chunks_in_one_call() {
    let (bytes, values) = stream();
    for size in [1, 7, bytes.len()] {
        let chunks: Vec<Vec<u8>> = bytes.chunks(size).map(|c| c.to_vec()).collect();
        let mut buf = PacketBuf::new();
        let out = buf.process_all::<ClientPacket>(&chunks);
        let decoded: Vec<ClientPacket> =
            out.into_iter().map(|e| e.deserialize().unwrap()).collect();
        assert_eq!(decoded, values);
        assert_eq!(buf.remaining(), 9);
    }
    let mut buf = PacketBuf::new();
    assert!(buf.process_all::<ClientPacket>(&Vec::new()).is_empty());
    let out = buf.process_all::<ClientPacket>(&vec![vec![], bytes[..20].to_vec(), vec![]]);
    assert_eq!(out.len(), 1);
    assert_eq!(buf.state(), PacketBufState::Header);
    assert_eq!(buf.remaining(), 7);
}
