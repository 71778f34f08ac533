use lp2p::codec::{
    read_frame, wanted, write_frame, CborFailure, CodecError, ErrorClass, MAX_SIZE,
};
use lp2p::varint;
use lp2p::varint::FieldError;
use lp2p::LpCbor;

#[test]
fn length_field_of_small_numbers_is_one_byte() {
    assert_eq!(varint::write(0), vec![0]);
    assert_eq!(varint::write(1), vec![1]);
    assert_eq!(varint::write(127), vec![127]);
}

#[test]
fn length_field_carries_seven_bits_a_byte() {
    assert_eq!(varint::write(128), vec![0x80, 0x01]);
    assert_eq!(varint::write(300), vec![0xac, 0x02]);
    assert_eq!(varint::write(16384), vec![0x80, 0x80, 0x01]);
    assert_eq!(varint::write(1024 * 1024), vec![0x80, 0x80, 0x40]);
}

#[test]
fn length_field_of_the_largest_number_has_ten_bytes() {
    let bytes = varint::write(u64::MAX);
    assert_eq!(bytes, vec![0xff, 0xff, 0xff, 0xff, 0xff, 0xff, 0xff, 0xff, 0xff, 0x01]);
    assert_eq!(varint::read(&bytes), Ok((u64::MAX, 10)));
}

#[test]
fn length_field_reads_back_and_leaves_the_rest() {
    for n in [0u64, 1, 127, 128, 255, 300, 16383, 16384, 1 << 20, 1 << 35, u64::MAX - 1] {
        let mut bytes = varint::write(n);
        let used = bytes.len();
        bytes.extend_from_slice(&[0xaa, 0xbb]);
        assert_eq!(varint::read(&bytes), Ok((n, used)));
    }
}

#[test]
fn length_field_that_ends_early_is_incomplete() {
    assert_eq!(varint::read(&[]), Err(FieldError::Incomplete));
    assert_eq!(varint::read(&[0x80]), Err(FieldError::Incomplete));
    assert_eq!(varint::read(&[0xff, 0xff, 0xff]), Err(FieldError::Incomplete));
}

#[test]
fn length_field_with_a_needless_byte_is_invalid() {
    assert_eq!(varint::read(&[0x80, 0x00]), Err(FieldError::Invalid));
    assert_eq!(varint::read(&[0xff, 0x80, 0x00]), Err(FieldError::Invalid));
}

#[test]
fn length_field_beyond_64_bits_is_invalid() {
    let overflow = [0xff, 0xff, 0xff, 0xff, 0xff, 0xff, 0xff, 0xff, 0xff, 0x02];
    assert_eq!(varint::read(&overflow), Err(FieldError::Invalid));
    let endless = [0xff; 11];
    assert_eq!(varint::read(&endless), Err(FieldError::Invalid));
    let ten = [0xff; 10];
    assert_eq!(varint::read(&ten), Err(FieldError::Invalid));
}

#[test]
fn frame_round_trip_small() {
    let framed = write_frame(&[1, 2, 3]).unwrap();
    assert_eq!(framed, vec![3, 1, 2, 3]);
    assert_eq!(read_frame(&framed), Ok(vec![1, 2, 3]));
}

#[test]
fn frame_round_trip_with_a_two_byte_length() {
    let payload: Vec<u8> = (0..200u32).map(|i| (i % 251) as u8).collect();
    let framed = write_frame(&payload).unwrap();
    assert_eq!(&framed[..2], &[0xc8, 0x01]);
    assert_eq!(framed.len(), 202);
    assert_eq!(read_frame(&framed), Ok(payload));
}

#[test]
fn frame_round_trip_at_the_ceiling() {
    let payload = vec![7u8; MAX_SIZE];
    let framed = write_frame(&payload).unwrap();
    assert_eq!(framed.len(), MAX_SIZE + 3);
    assert_eq!(read_frame(&framed), Ok(payload));
}

#[test]
fn bytes_behind_a_frame_are_left_alone() {
    assert_eq!(read_frame(&[2, 9, 8, 7, 6]), Ok(vec![9, 8]));
}

#[test]
fn empty_stream_is_end_of_stream() {
    assert_eq!(read_frame(&[]), Err(CodecError::Empty));
    assert_ne!(CodecError::Empty, CodecError::Truncated);
}

#[test]
fn frame_without_a_body_is_end_of_stream() {
    assert_eq!(read_frame(&[0]), Err(CodecError::Empty));
    assert_eq!(read_frame(&[0, 1, 2]), Err(CodecError::Empty));
}

#[test]
fn stream_that_ends_inside_a_frame_is_truncated() {
    assert_eq!(read_frame(&[5, 1, 2]), Err(CodecError::Truncated));
    assert_eq!(read_frame(&[1]), Err(CodecError::Truncated));
    assert_eq!(read_frame(&[0x80]), Err(CodecError::Truncated));
}

#[test]
fn every_cut_of_a_frame_is_truncated() {
    let payload: Vec<u8> = (0..300u32).map(|i| i as u8).collect();
    let framed = write_frame(&payload).unwrap();
    for k in 1..framed.len() {
        assert_eq!(read_frame(&framed[..k]), Err(CodecError::Truncated));
    }
}

#[test]
fn stream_that_does_not_begin_with_a_length_is_malformed() {
    assert_eq!(read_frame(&[0x80, 0x00, 1]), Err(CodecError::Malformed));
    assert_eq!(read_frame(&[0xff; 12]), Err(CodecError::Malformed));
}

#[test]
fn frame_over_the_ceiling_is_too_large() {
    let mut stream = varint::write((MAX_SIZE as u64) + 1);
    assert_eq!(read_frame(&stream), Err(CodecError::TooLarge));
    stream.extend_from_slice(&vec![0u8; MAX_SIZE + 1]);
    assert_eq!(read_frame(&stream), Err(CodecError::TooLarge));
    assert_eq!(read_frame(&varint::write(u64::MAX)), Err(CodecError::TooLarge));
}

#[test]
fn payloads_that_cannot_travel_are_not_framed() {
    assert_eq!(write_frame(&[]), Err(CodecError::Empty));
    assert_eq!(write_frame(&vec![0u8; MAX_SIZE + 1]), Err(CodecError::TooLarge));
}

#[test]
fn errors_fall_into_four_classes() {
    assert_eq!(CodecError::Empty.class(), ErrorClass::UnexpectedEof);
    assert_eq!(CodecError::Truncated.class(), ErrorClass::UnexpectedEof);
    assert_eq!(CodecError::Malformed.class(), ErrorClass::Other);
    assert_eq!(CodecError::TooLarge.class(), ErrorClass::Unsupported);
    assert_eq!(CodecError::Payload(CborFailure::Read).class(), ErrorClass::Other);
    assert_eq!(CodecError::Payload(CborFailure::Unsupported).class(), ErrorClass::Unsupported);
    assert_eq!(CodecError::Payload(CborFailure::Eof).class(), ErrorClass::UnexpectedEof);
    assert_eq!(CodecError::Payload(CborFailure::Invalid).class(), ErrorClass::InvalidData);
    assert_eq!(CodecError::Payload(CborFailure::Custom).class(), ErrorClass::InvalidData);
    assert_eq!(CborFailure::Custom.class(), ErrorClass::InvalidData);
    assert_eq!(CborFailure::Invalid.class(), ErrorClass::InvalidData);
}

#[test]
fn codec_reads_what_it_wrote() {
    let codec: LpCbor<(), ()> = LpCbor::default();
    let copy = codec.clone();
    let request = codec.write_request(&[0xa1, 0x01]).unwrap();
    assert_eq!(request, vec![2, 0xa1, 0x01]);
    assert_eq!(copy.read_request(&request), Ok(vec![0xa1, 0x01]));
    let response = codec.write_response(&[0xa2]).unwrap();
    assert_eq!(copy.read_response(&response), Ok(vec![0xa2]));
    assert_eq!(copy.read_request(&[]), Err(CodecError::Empty));
    assert_eq!(copy.read_response(&[3, 1]), Err(CodecError::Truncated));
    assert_eq!(codec.write_request(&[]), Err(CodecError::Empty));
    assert_eq!(codec.write_response(&[]), Err(CodecError::Empty));
}

fn request_payload(peer: &[u8]) -> Vec<u8> {
    let fields = vec![(cbor4ii::core::Value::Text("peer".to_string()), cbor4ii::core::Value::Bytes(peer.to_vec()))];
    cbor4ii::serde::to_vec(Vec::new(), &cbor4ii::core::Value::Map(fields)).unwrap()
}

fn response_payload(peer: &[u8], addresses: &[&[u8]]) -> Vec<u8> {
    let list = addresses.iter().map(|a| cbor4ii::core::Value::Bytes(a.to_vec())).collect();
    let fields = vec![
        (cbor4ii::core::Value::Text("peer".to_string()), cbor4ii::core::Value::Bytes(peer.to_vec())),
        (cbor4ii::core::Value::Text("maddrs".to_string()), cbor4ii::core::Value::Array(list)),
    ];
    let found = vec![(cbor4ii::core::Value::Text("Found".to_string()), cbor4ii::core::Value::Map(fields))];
    cbor4ii::serde::to_vec(Vec::new(), &cbor4ii::core::Value::Map(found)).unwrap()
}

#[test]
fn messages_travel_whole() {
    let codec: LpCbor<(), ()> = LpCbor::default();
    let request = request_payload(&[0x00, 0x04, 1, 2, 3, 4]);
    assert_eq!(request, vec![0xa1, 0x64, b'p', b'e', b'e', b'r', 0x46, 0x00, 0x04, 1, 2, 3, 4]);
    let sent = codec.write_request(&request).unwrap();
    assert_eq!(sent[0], 13);
    assert_eq!(codec.read_request(&sent), Ok(request.clone()));

    let response = response_payload(&[0x00, 0x04, 1, 2, 3, 4], &[&[4, 127, 0, 0, 1, 6, 0, 21]]);
    let sent = codec.write_response(&response).unwrap();
    let received = codec.read_response(&sent).unwrap();
    assert_eq!(received, response);
    let value: cbor4ii::core::Value = cbor4ii::serde::from_slice(&received).unwrap();
    let again = cbor4ii::serde::to_vec(Vec::new(), &value).unwrap();
    assert_eq!(again, response);
    for k in 1..sent.len() {
        assert_eq!(codec.read_response(&sent[..k]), Err(CodecError::Truncated));
    }
}

#[test]
fn reader_takes_one_frame_and_no_more() {
    assert_eq!(wanted(&[]), 1);
    assert_eq!(wanted(&[0x80]), 1);
    assert_eq!(wanted(&[0x80, 0x80]), 1);
    assert_eq!(wanted(&[3]), 3);
    assert_eq!(wanted(&[3, 9]), 2);
    assert_eq!(wanted(&[3, 9, 9, 9]), 0);
    assert_eq!(wanted(&[0xc8, 0x01]), 200);
    assert_eq!(wanted(&[0x80, 0x80, 0x40]), MAX_SIZE);
    assert_eq!(wanted(&[0]), 0);
    assert_eq!(wanted(&[0x81, 0x80, 0x40]), 0);
    assert_eq!(wanted(&[0x80, 0x00]), 0);
    assert_eq!(wanted(&[0xff; 10]), 0);

    let first = write_frame(&[1, 2, 3, 4, 5]).unwrap();
    let second = write_frame(&[6, 7]).unwrap();
    let mut wire = first.clone();
    wire.extend_from_slice(&second);
    let mut held: Vec<u8> = Vec::new();
    let mut at = 0;
    while wanted(&held) > 0 && at < wire.len() {
        let take = wanted(&held).min(wire.len() - at);
        held.extend_from_slice(&wire[at..at + take]);
        at += take;
    }
    assert_eq!(held, first);
    assert_eq!(read_frame(&held), Ok(vec![1, 2, 3, 4, 5]));
    assert_eq!(read_frame(&wire[at..]), Ok(vec![6, 7]));
}
