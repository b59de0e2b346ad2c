use arena_wire::bytes::{push_be_u32, read_be_u32};
use arena_wire::client::{find_field, pack_thrusters, unpack_thrusters, ClientPacket};
use arena_wire::envelope::{
    decode, encode, frame, read_envelope, select, Encoding, FramingError, PacketProtocol,
    HEADER_LEN,
};
use arena_wire::packet::{Packet, JSON_PROTOCOL_ID, ZERO_PROTOCOL_ID};

const WIRE: [u8; 18] = [0, 0, 0, 0, 0, 0, 0, 0, 9, 0, 0, 0, 1, 0, 0, 0, 5, 13];

fn sample() -> ClientPacket {
    ClientPacket { player_id: 1, orientation: 5, propulsor: 0b1101 }
}

fn raw(id: u32, protocol: u8, content: &[u8]) -> PacketProtocol<ClientPacket> {
    PacketProtocol::Raw { id, protocol, content: content.to_vec() }
}

#[test]
fn big_endian_read_and_write() {
    let mut out = vec![0xaa];
    push_be_u32(&mut out, 0x0102_0304);
    assert_eq!(out, vec![0xaa, 1, 2, 3, 4]);
    assert_eq!(read_be_u32(&out, 1), 0x0102_0304);
    let mut top = Vec::new();
    push_be_u32(&mut top, u32::MAX);
    assert_eq!(top, vec![255, 255, 255, 255]);
    assert_eq!(read_be_u32(&top, 0), u32::MAX);
}

#[test]
fn header_is_nine_bytes() {
    assert_eq!(HEADER_LEN, 9);
    assert_eq!(ZERO_PROTOCOL_ID, 0);
    assert_eq!(JSON_PROTOCOL_ID, 1);
    assert_eq!(ClientPacket::id(), 0);
}

#[test]
fn binary_envelope_of_client_input() {
    let bytes = PacketProtocol::Zero(sample()).serialize().unwrap();
    assert_eq!(bytes, WIRE.to_vec());
    assert_eq!(bytes.len(), 18);
}

#[test]
fn text_envelope_of_client_input() {
    let bytes = PacketProtocol::Json(sample()).serialize().unwrap();
    let text = br#"{"player_id":1,"orientation":5,"propulsor":13}"#;
    assert_eq!(&bytes[..4], &[0, 0, 0, 0]);
    assert_eq!(bytes[4], 1);
    assert_eq!(&bytes[5..9], &[0, 0, 0, text.len() as u8]);
    assert_eq!(&bytes[9..], &text[..]);
}

#[test]
fn client_input_from_wire_bytes() {
    let envelope = PacketProtocol::<ClientPacket>::try_from(&WIRE).unwrap();
    match &envelope {
        PacketProtocol::Raw { id, protocol, content } => {
            assert_eq!(*id, 0);
            assert_eq!(*protocol, 0);
            assert_eq!(content, &vec![0, 0, 0, 1, 0, 0, 0, 5, 13]);
        }
        _ => panic!("a travelling form was expected"),
    }
    assert_eq!(envelope.deserialize(), Ok(sample()));
}

#[test]
fn round_trip_in_both_encodings() {
    let values = [
        sample(),
        ClientPacket { player_id: 0, orientation: 0, propulsor: 0 },
        ClientPacket { player_id: u32::MAX, orientation: u32::MAX, propulsor: u8::MAX },
        ClientPacket { player_id: 0x0102_0304, orientation: 360, propulsor: 0b0110 },
    ];
    for p in values {
        let binary = PacketProtocol::Zero(p).serialize().unwrap();
        assert_eq!(binary.len(), 18);
        let back = PacketProtocol::<ClientPacket>::try_from(&binary).unwrap().deserialize();
        assert_eq!(back, Ok(p));
        let text = PacketProtocol::Json(p).serialize().unwrap();
        let back = PacketProtocol::<ClientPacket>::try_from(&text).unwrap().deserialize();
        assert_eq!(back, Ok(p));
    }
}

#[test]
fn typed_forms_hand_their_payload_back() {
    assert_eq!(PacketProtocol::Zero(sample()).deserialize(), Ok(sample()));
    assert_eq!(PacketProtocol::Json(sample()).deserialize(), Ok(sample()));
}

#[test]
fn raw_form_is_written_as_it_is() {
    let bytes = raw(7, 1, b"{}").serialize().unwrap();
    assert_eq!(bytes, vec![0, 0, 0, 7, 1, 0, 0, 0, 2, b'{', b'}']);
    let empty = raw(0x0a0b_0c0d, 0, &[]).serialize().unwrap();
    assert_eq!(empty, vec![0x0a, 0x0b, 0x0c, 0x0d, 0, 0, 0, 0, 0]);
}

#[test]
fn frame_writes_header_then_content() {
    assert_eq!(frame(1, 0, &[9, 8, 7]), Ok(vec![0, 0, 0, 1, 0, 0, 0, 0, 3, 9, 8, 7]));
    let long = vec![0x55u8; 300];
    let bytes = frame(2, 1, &long).unwrap();
    assert_eq!(&bytes[..9], &[0, 0, 0, 2, 1, 0, 0, 1, 44]);
    assert_eq!(&bytes[9..], &long[..]);
}

#[test]
fn unknown_encoding_is_refused_when_writing() {
    assert_eq!(frame(0, 2, &[1, 2, 3, 4]), Err(FramingError::UnknownEncoding));
    assert_eq!(raw(0, 255, &[]).serialize(), Err(FramingError::UnknownEncoding));
}

#[test]
fn unknown_encoding_is_refused_when_reading() {
    let bytes = [0, 0, 0, 0, 2, 0, 0, 0, 1, 0];
    let envelope = PacketProtocol::<ClientPacket>::try_from(&bytes).unwrap();
    assert_eq!(envelope.deserialize(), Err(FramingError::UnknownEncoding));
}

#[test]
fn declared_length_must_match() {
    let mut long = WIRE.to_vec();
    long.push(0);
    assert!(matches!(
        PacketProtocol::<ClientPacket>::try_from(&long),
        Err(FramingError::LengthMismatch)
    ));
    assert!(matches!(
        PacketProtocol::<ClientPacket>::try_from(&WIRE[..17]),
        Err(FramingError::LengthMismatch)
    ));
    let huge = [0, 0, 0, 0, 0, 255, 255, 255, 255];
    assert!(matches!(
        PacketProtocol::<ClientPacket>::try_from(&huge),
        Err(FramingError::LengthMismatch)
    ));
}

#[test]
fn short_input_has_no_header() {
    assert!(matches!(
        PacketProtocol::<ClientPacket>::try_from(&WIRE[..8]),
        Err(FramingError::TruncatedHeader)
    ));
    assert!(matches!(
        PacketProtocol::<ClientPacket>::try_from(&[]),
        Err(FramingError::TruncatedHeader)
    ));
}

#[test]
fn header_alone_is_an_empty_envelope() {
    let bytes = [0, 0, 0, 3, 1, 0, 0, 0, 0];
    match PacketProtocol::<ClientPacket>::try_from(&bytes).unwrap() {
        PacketProtocol::Raw { id, protocol, content } => {
            assert_eq!((id, protocol), (3, 1));
            assert!(content.is_empty());
        }
        _ => panic!("a travelling form was expected"),
    }
}

#[test]
fn type_guard() {
    let mut bytes = WIRE.to_vec();
    bytes[3] = 0x01;
    let envelope = PacketProtocol::<ClientPacket>::try_from(&bytes).unwrap();
    assert_eq!(envelope.deserialize(), Err(FramingError::TypeMismatch));
    assert_eq!(raw(1, 1, b"{}").deserialize(), Err(FramingError::TypeMismatch));
    assert_eq!(raw(1, 9, &[]).deserialize(), Err(FramingError::TypeMismatch));
}

#[test]
fn binary_content_of_the_wrong_width() {
    assert_eq!(raw(0, 0, &[0, 0, 0, 1, 0, 0, 0, 5]).deserialize(), Err(FramingError::MalformedContent));
    assert_eq!(raw(0, 0, &[]).deserialize(), Err(FramingError::MalformedContent));
    assert_eq!(
        raw(0, 0, &[0, 0, 0, 1, 0, 0, 0, 5, 13, 0]).deserialize(),
        Err(FramingError::MalformedContent)
    );
}

#[test]
fn binary_content_is_read_field_by_field() {
    assert_eq!(ClientPacket::from_zero(&[1, 2, 3, 4, 5, 6, 7, 8, 9]), Some(ClientPacket {
        player_id: 0x0102_0304,
        orientation: 0x0506_0708,
        propulsor: 9,
    }));
    assert_eq!(sample().to_zero(), Some(vec![0, 0, 0, 1, 0, 0, 0, 5, 13]));
}

#[test]
fn text_content_in_any_field_order() {
    let text = br#" { "propulsor" : 13, "player_id" : 1, "orientation" : 5 } "#;
    assert_eq!(raw(0, 1, text).deserialize(), Ok(sample()));
    assert_eq!(ClientPacket::from_json(text), Some(sample()));
}

#[test]
fn text_content_with_other_fields() {
    let text = br#"{"name":"x","player_id":1,"orientation":5,"extra":[1,2],"propulsor":13}"#;
    assert_eq!(raw(0, 1, text).deserialize(), Ok(sample()));
}

#[test]
fn text_content_that_is_no_client_input() {
    let cases: [&[u8]; 8] = [
        b"",
        b"garbage",
        br#"{"player_id":1,"orientation":5}"#,
        br#"{"player_id":1,"orientation":5,"propulsor":256}"#,
        br#"{"player_id":4294967296,"orientation":5,"propulsor":1}"#,
        br#"{"player_id":-1,"orientation":5,"propulsor":1}"#,
        br#"{"player_id":1,"orientation":"5","propulsor":1}"#,
        br#"{"player_id":1,"orientation":5,"propulsor":1} x"#,
    ];
    for text in cases {
        assert_eq!(raw(0, 1, text).deserialize(), Err(FramingError::MalformedContent));
    }
}

#[test]
fn text_content_at_the_limits() {
    let text = br#"{"player_id":4294967295,"orientation":0,"propulsor":255}"#;
    assert_eq!(
        raw(0, 1, text).deserialize(),
        Ok(ClientPacket { player_id: u32::MAX, orientation: 0, propulsor: 255 })
    );
}

#[test]
fn fields_of_a_client_input() {
    let fields = sample().to_fields();
    assert_eq!(
        fields,
        vec![
            ("player_id".to_string(), 1u64),
            ("orientation".to_string(), 5u64),
            ("propulsor".to_string(), 13u64),
        ]
    );
    let named: Vec<(String, Option<u64>)> =
        fields.into_iter().map(|(n, v)| (n, Some(v))).collect();
    assert_eq!(ClientPacket::from_fields(&named), Some(sample()));
}

#[test]
fn fields_are_found_by_name() {
    let fields = vec![
        ("a".to_string(), Some(1u64)),
        ("b".to_string(), None),
        ("a".to_string(), Some(3u64)),
    ];
    assert_eq!(find_field(&fields, "a"), Some(1));
    assert_eq!(find_field(&fields, "b"), None);
    assert_eq!(find_field(&fields, "c"), None);
    assert_eq!(ClientPacket::from_fields(&fields), None);
}

#[test]
fn thrusters_in_the_low_four_bits() {
    assert_eq!(pack_thrusters([false, false, false, false]), 0);
    assert_eq!(pack_thrusters([true, false, true, true]), 0b1101);
    assert_eq!(pack_thrusters([true, true, true, true]), 0b1111);
    assert_eq!(pack_thrusters([false, true, false, false]), 2);
    assert_eq!(unpack_thrusters(0b1101), [true, false, true, true]);
    assert_eq!(unpack_thrusters(0b1111_0000), [false, false, false, false]);
    assert_eq!(sample().thrusters(), [true, false, true, true]);
    for mask in 0..16u8 {
        assert_eq!(pack_thrusters(unpack_thrusters(mask)), mask);
    }
}

#[test]
fn identifier_is_checked_before_the_selector() {
    assert_eq!(select(0, 0, 0), Ok(Encoding::Zero));
    assert_eq!(select(7, 1, 7), Ok(Encoding::Json));
    assert_eq!(select(7, 2, 7), Err(FramingError::UnknownEncoding));
    assert_eq!(select(1, 0, 0), Err(FramingError::TypeMismatch));
    assert_eq!(select(1, 2, 0), Err(FramingError::TypeMismatch));
}

#[test]
fn envelope_in_three_parts() {
    assert_eq!(read_envelope(&WIRE), Ok((0, 0, vec![0, 0, 0, 1, 0, 0, 0, 5, 13])));
    assert_eq!(read_envelope(&[1, 2, 3, 4, 1, 0, 0, 0, 1, 9]), Ok((0x0102_0304, 1, vec![9])));
    assert_eq!(read_envelope(&WIRE[..5]), Err(FramingError::TruncatedHeader));
    assert_eq!(read_envelope(&WIRE[..9]), Err(FramingError::LengthMismatch));
}

#[test]
fn crate_root_names_the_main_items() {
    let p = arena_wire::ClientPacket { player_id: 2, orientation: 3, propulsor: 4 };
    let bytes = arena_wire::PacketProtocol::Zero(p).serialize().unwrap();
    let mut buf = arena_wire::PacketBuf::new();
    let mut out = buf.process::<arena_wire::ClientPacket>(&bytes);
    assert_eq!(out.len(), 1);
    assert_eq!(out.pop().unwrap().deserialize(), Ok(p));
    assert_eq!(<arena_wire::ClientPacket as arena_wire::Packet>::id(), 0);
    assert_ne!(arena_wire::FramingError::TypeMismatch, arena_wire::FramingError::LengthMismatch);
}

#[test]
fn each_error_has_its_message() {
    assert_eq!(FramingError::TruncatedHeader.message(), "Truncated header");
    assert_eq!(FramingError::LengthMismatch.message(), "Length mismatch");
    assert_eq!(FramingError::TypeMismatch.message(), "Id mismatch");
    assert_eq!(FramingError::UnknownEncoding.message(), "Unknown protocol");
    assert_eq!(FramingError::MalformedContent.message(), "Malformed content");
}

#[test]
fn encode_by_selector() {
    assert_eq!(encode(sample(), 0), Ok(WIRE.to_vec()));
    let text = encode(sample(), 1).unwrap();
    assert_eq!(&text[9..], &br#"{"player_id":1,"orientation":5,"propulsor":13}"#[..]);
    assert_eq!(text[4], 1);
    assert_eq!(encode(sample(), 2), Err(FramingError::UnknownEncoding));
}

#[test]
fn decode_checks_framing_then_type_then_selector() {
    assert_eq!(decode::<ClientPacket>(&WIRE), Ok(sample()));
    assert_eq!(decode::<ClientPacket>(&WIRE[..4]), Err(FramingError::TruncatedHeader));
    let mut bytes = WIRE.to_vec();
    bytes[3] = 1;
    bytes[4] = 7;
    assert_eq!(decode::<ClientPacket>(&bytes), Err(FramingError::TypeMismatch));
    bytes.push(0);
    assert_eq!(decode::<ClientPacket>(&bytes), Err(FramingError::LengthMismatch));
    let mut bytes = WIRE.to_vec();
    bytes[4] = 7;
    assert_eq!(decode::<ClientPacket>(&bytes), Err(FramingError::UnknownEncoding));
    bytes[4] = 1;
    assert_eq!(decode::<ClientPacket>(&bytes), Err(FramingError::MalformedContent));
}
