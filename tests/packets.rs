use packetio::{
    encode_frame, length_prefix, parse_length, parse_length_limited, parse_packet, read_frame, recv_packet_from, Packet,
    PacketError,
};

fn round_trip<T: Packet + PartialEq + std::fmt::Debug>(v: T) {
    let frame = encode_frame(&v).unwrap();
    let (back, used): (T, usize) = recv_packet_from(&frame).unwrap();
    assert_eq!(back, v);
    assert_eq!(used, frame.len());
}

#[test]
fn test_manual_parse_packet() {
    let test_struct: (u8, u16) = (1, 2);
    let frame = encode_frame(&test_struct).unwrap();

    let size_buf = [frame[0], frame[1], frame[2], frame[3]];
    let size = parse_length(size_buf);

    let packet = frame[4..4 + size].to_vec();

    let result: (u8, u16) = parse_packet(packet).unwrap();

    assert_eq!(test_struct, result);
}

#[test]
fn two_field_record_frame_bytes() {
    let frame = encode_frame(&(1u8, 2u16)).unwrap();
    assert_eq!(frame, vec![0, 0, 0, 2, 1, 2]);
    let (v, used): ((u8, u16), usize) = recv_packet_from(&frame).unwrap();
    assert_eq!(v, (1, 2));
    assert_eq!(used, 6);
}

#[test]
fn integer_encodings() {
    assert_eq!(u8::encode(&7).unwrap(), vec![7]);
    assert_eq!(u16::encode(&250).unwrap(), vec![250]);
    assert_eq!(u16::encode(&300).unwrap(), vec![251, 44, 1]);
    assert_eq!(u32::encode(&65536).unwrap(), vec![252, 0, 0, 1, 0]);
    assert_eq!(
        u64::encode(&u64::MAX).unwrap(),
        vec![253, 255, 255, 255, 255, 255, 255, 255, 255]
    );
}

#[test]
fn round_trips() {
    for v in [0u8, 1, 250, 251, 255] {
        round_trip(v);
    }
    for v in [0u16, 250, 251, 300, u16::MAX] {
        round_trip(v);
    }
    for v in [0u32, 251, 65535, 65536, u32::MAX] {
        round_trip(v);
    }
    for v in [0u64, 251, 65536, u32::MAX as u64 + 1, u64::MAX] {
        round_trip(v);
    }
    round_trip((u64::MAX, (3u8, 70000u32)));
}

#[test]
fn length_prefix_big_endian() {
    assert_eq!(length_prefix(258), [0, 0, 1, 2]);
    assert_eq!(length_prefix(u32::MAX), [255, 255, 255, 255]);
    assert_eq!(parse_length([0, 0, 1, 2]), 258);
    assert_eq!(parse_length([1, 0, 0, 0]), 16777216);
    assert_eq!(parse_length([255, 255, 255, 255]), 4294967295);
}

#[test]
fn frame_of_bytes_reads_back() {
    let payload: Vec<u8> = (0..300u32).map(|i| (i % 256) as u8).collect();
    let mut stream = length_prefix(300).to_vec();
    stream.extend_from_slice(&payload);
    stream.extend_from_slice(&[9, 9]);
    let (p, used) = read_frame(&stream).unwrap();
    assert_eq!(p, payload);
    assert_eq!(used, 304);
}

#[test]
fn zero_length_prefix() {
    let (p, used) = read_frame(&[0, 0, 0, 0, 5]).unwrap();
    assert!(p.is_empty());
    assert_eq!(used, 4);
}

#[test]
fn max_length_prefix_on_short_stream() {
    assert_eq!(read_frame(&[255, 255, 255, 255, 1, 2, 3]), Err(PacketError::Io));
    let r: Result<(u8, usize), PacketError> = recv_packet_from(&[255, 255, 255, 255, 1]);
    assert_eq!(r, Err(PacketError::Io));
}

#[test]
fn truncated_payload_is_io_error() {
    let frame = encode_frame(&(300u16, 5u8)).unwrap();
    for k in 0..frame.len() {
        let r: Result<((u16, u8), usize), PacketError> = recv_packet_from(&frame[..k]);
        assert_eq!(r, Err(PacketError::Io));
    }
}

#[test]
fn malformed_payloads_are_decoding_errors() {
    assert_eq!(parse_packet::<u16>(vec![252, 0, 0, 1, 0]), Err(PacketError::Decoding));
    assert_eq!(parse_packet::<u16>(vec![251, 1]), Err(PacketError::Decoding));
    assert_eq!(parse_packet::<u8>(vec![]), Err(PacketError::Decoding));
    assert_eq!(parse_packet::<u8>(vec![1, 2]), Err(PacketError::Decoding));
    let r: Result<(u8, usize), PacketError> = recv_packet_from(&[0, 0, 0, 2, 1, 2]);
    assert_eq!(r, Err(PacketError::Decoding));
}

#[test]
fn frames_are_read_in_order() {
    let mut stream = encode_frame(&1u32).unwrap();
    stream.extend(encode_frame(&70000u32).unwrap());
    let (a, used): (u32, usize) = recv_packet_from(&stream).unwrap();
    let (b, rest): (u32, usize) = recv_packet_from(&stream[used..]).unwrap();
    assert_eq!((a, b), (1, 70000));
    assert_eq!(used + rest, stream.len());
}

#[test]
fn length_cap() {
    assert_eq!(parse_length_limited([0, 0, 1, 0], 256), Ok(256));
    assert_eq!(parse_length_limited([0, 0, 1, 1], 256), Err(PacketError::Oversized));
    assert_eq!(parse_length_limited([0, 0, 0, 0], 0), Ok(0));
    assert_eq!(parse_length_limited([255, 255, 255, 255], 1 << 20), Err(PacketError::Oversized));
}
