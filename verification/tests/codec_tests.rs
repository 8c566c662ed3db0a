use xc_supervisor::codec::{
    encode_envelope, encode_packet, method_kind, parse_request, CodecError, MethodKind,
    StreamDecoder,
};

#[test]
fn frame_roundtrip_returns_the_payload() {
    let payload: Vec<u8> = b"{\"method\":\"start\",\"data\":null}".to_vec();
    let packet = encode_packet(&payload);
    assert_eq!(packet.len(), payload.len() + 4);
    let mut dec = StreamDecoder::new();
    dec.feed(&packet);
    let got = dec.try_packet().unwrap().unwrap();
    assert_eq!(got, payload);
    assert!(dec.buf.is_empty());
}

#[test]
fn decoder_waits_for_a_complete_frame() {
    let payload: Vec<u8> = vec![1, 2, 3, 4, 5];
    let packet = encode_packet(&payload);
    let mut dec = StreamDecoder::new();
    dec.feed(&packet[..6].to_vec());
    assert!(dec.try_packet().unwrap().is_none(), "a partial frame yields nothing");
    dec.feed(&packet[6..].to_vec());
    assert_eq!(dec.try_packet().unwrap().unwrap(), payload);
}

#[test]
fn two_frames_in_one_read_come_out_one_by_one() {
    let a: Vec<u8> = vec![10, 11];
    let b: Vec<u8> = vec![20];
    let mut stream = encode_packet(&a);
    stream.extend_from_slice(&encode_packet(&b));
    let mut dec = StreamDecoder::new();
    dec.feed(&stream);
    assert_eq!(dec.try_packet().unwrap().unwrap(), a);
    assert_eq!(dec.try_packet().unwrap().unwrap(), b);
    assert!(dec.try_packet().unwrap().is_none());
}

#[test]
fn oversized_frame_is_a_protocol_error() {
    let mut dec = StreamDecoder::new();
    // header announcing 2^24 bytes, far over the limit
    dec.feed(&vec![1, 0, 0, 0]);
    assert_eq!(dec.try_packet().unwrap_err(), CodecError::FrameTooLarge);
}

#[test]
fn envelope_text_is_exact() {
    assert_eq!(encode_envelope(0, "null"), "{\"status\":0,\"body\":null}");
    assert_eq!(
        encode_envelope(5, "{\"message\":\"failed to spawn\"}"),
        "{\"status\":5,\"body\":{\"message\":\"failed to spawn\"}}"
    );
}

#[test]
fn parse_request_extracts_method_and_data() {
    let payload: Vec<u8> = b"{\"method\":\"write_hosts\",\"data\":[1,2]}".to_vec();
    let (method, data) = parse_request(&payload).unwrap();
    assert_eq!(method, "write_hosts");
    assert_eq!(method_kind(&method), MethodKind::WriteHosts);
    assert!(data.is_array());
}

#[test]
fn parse_request_rejects_bad_envelopes() {
    assert_eq!(
        parse_request(&b"not json".to_vec()).unwrap_err(),
        CodecError::BadEnvelope
    );
    assert_eq!(
        parse_request(&b"{\"data\":null}".to_vec()).unwrap_err(),
        CodecError::BadEnvelope
    );
    assert_eq!(
        parse_request(&b"{\"method\":\"exec\"}".to_vec()).unwrap_err(),
        CodecError::BadEnvelope
    );
    assert_eq!(
        parse_request(&b"{\"method\":7,\"data\":null}".to_vec()).unwrap_err(),
        CodecError::BadEnvelope
    );
}

#[test]
fn method_kinds_cover_the_protocol() {
    assert_eq!(method_kind(&"exec".to_string()), MethodKind::Exec);
    assert_eq!(method_kind(&"run_main".to_string()), MethodKind::RunMain);
    assert_eq!(method_kind(&"start".to_string()), MethodKind::Start);
    assert_eq!(method_kind(&"write_hosts".to_string()), MethodKind::WriteHosts);
    assert_eq!(method_kind(&"reboot".to_string()), MethodKind::Unknown);
}
