use herschel::checksum::internet_checksum;
use herschel::codec::{
    decode_response, encode_echo_request, encode_ipv4, Ipv4Address, ProbeOutcome,
};
use herschel::errors::PmtudError;

fn echo_reply_bytes() -> Vec<u8> {
    vec![0u8, 0, 0, 0, 0, 0, 0, 0]
}

fn frag_needed_bytes(next_hop_mtu: u16) -> Vec<u8> {
    vec![3u8, 4, 0, 0, 0, 0, (next_hop_mtu >> 8) as u8, (next_hop_mtu & 0xff) as u8]
}

#[test]
fn checksum_known_vectors() {
    assert_eq!(internet_checksum(&vec![]), 0xffff);
    assert_eq!(internet_checksum(&vec![0x00, 0x01]), 0xfffe);
    assert_eq!(internet_checksum(&vec![0xff, 0xff]), 0x0000);
    // 0xffff + 0x0001 wraps end-around to 0x0001.
    assert_eq!(internet_checksum(&vec![0xff, 0xff, 0x00, 0x01]), 0xfffe);
    // A trailing odd byte counts as the high byte of a word.
    assert_eq!(internet_checksum(&vec![0x01]), 0xfeff);
}

#[test]
fn echo_request_layout() {
    let frame = encode_echo_request(4, 0x1234, 0x5678).unwrap();
    assert_eq!(frame.len(), 12);
    assert_eq!(frame[0], 8);
    assert_eq!(frame[1], 0);
    assert_eq!(frame[4], 0x12);
    assert_eq!(frame[5], 0x34);
    assert_eq!(frame[6], 0x56);
    assert_eq!(frame[7], 0x78);
    assert_eq!(&frame[8..], &[0u8, 0, 0, 0]);
}

#[test]
fn echo_request_checksum_recomputes_to_zero() {
    // Varying payload sizes and header fields: the checksum is always
    // computed from the frame contents, and verifying it yields zero.
    for (size, id, seq) in [(0u16, 0u16, 0u16), (1, 1, 2), (8, 0xffff, 0x8000), (100, 7, 9), (1472, 42, 1)] {
        let frame = encode_echo_request(size, id, seq).unwrap();
        assert_eq!(frame.len(), 8 + size as usize);
        assert_eq!(internet_checksum(&frame), 0, "size {size} id {id} seq {seq}");
    }
    // Different contents give different checksum fields.
    let a = encode_echo_request(4, 0, 0).unwrap();
    let b = encode_echo_request(4, 0, 1).unwrap();
    assert_ne!((a[2], a[3]), (b[2], b[3]));
}

#[test]
fn echo_request_too_large() {
    assert_eq!(encode_echo_request(65508, 0, 0), Err(PmtudError::FrameTooLarge));
    assert!(encode_echo_request(65507, 0, 0).is_ok());
}

#[test]
fn ipv4_frame_layout_and_sizing() {
    let icmp = encode_echo_request(100, 1, 1).unwrap();
    let src = Ipv4Address::new(192, 168, 1, 10);
    let dst = Ipv4Address::new(203, 0, 113, 7);
    let frame = encode_ipv4(&icmp, src, dst, 10).unwrap();
    // Frame sizing: buffer length equals the total-length field,
    // which is 20 + 8 + payload_size.
    assert_eq!(frame.len(), 128);
    let total_length = u16::from_be_bytes([frame[2], frame[3]]);
    assert_eq!(total_length as usize, frame.len());
    assert_eq!(total_length, 20 + 8 + 100);
    assert_eq!(frame[0], 0x45); // version 4, header length 5
    assert_eq!(frame[6], 0x40); // Don't-Fragment set, More-Fragments clear
    assert_eq!(frame[7], 0x00); // fragment offset 0
    assert_eq!(frame[8], 10); // ttl
    assert_eq!(frame[9], 1); // protocol ICMP
    assert_eq!(&frame[12..16], &[192, 168, 1, 10]);
    assert_eq!(&frame[16..20], &[203, 0, 113, 7]);
    assert_eq!(&frame[20..], &icmp[..]);
}

#[test]
fn ipv4_header_checksum_recomputes_to_zero() {
    for size in [0u16, 3, 64, 1472] {
        let icmp = encode_echo_request(size, 5, 6).unwrap();
        let src = Ipv4Address::new(10, 0, 0, 1);
        let dst = Ipv4Address::new(8, 8, 8, 8);
        let frame = encode_ipv4(&icmp, src, dst, 64).unwrap();
        let header: Vec<u8> = frame[..20].to_vec();
        assert_eq!(internet_checksum(&header), 0, "size {size}");
    }
}

#[test]
fn ipv4_frame_too_large() {
    let icmp = vec![0u8; 65516];
    let src = Ipv4Address::new(10, 0, 0, 1);
    let dst = Ipv4Address::new(10, 0, 0, 2);
    assert_eq!(encode_ipv4(&icmp, src, dst, 64), Err(PmtudError::FrameTooLarge));
}

#[test]
fn decode_echo_reply_roundtrip() {
    // An Echo Reply-shaped datagram decodes to EchoReplyReceived carrying the
    // probed size of the probe in flight.
    let reply = echo_reply_bytes();
    assert_eq!(
        decode_response(&reply, 1472),
        Ok(ProbeOutcome::EchoReplyReceived { probed_size: 1472 })
    );
}

#[test]
fn decode_fragmentation_needed_roundtrip() {
    // A type-3/code-4 datagram with a known next-hop MTU decodes back to that
    // exact value.
    for mtu in [1400u16, 576, 68, 0xffff] {
        let frame = frag_needed_bytes(mtu);
        assert_eq!(
            decode_response(&frame, 1472),
            Ok(ProbeOutcome::FragmentationNeeded { next_hop_mtu: mtu })
        );
    }
}

#[test]
fn decode_zero_hint() {
    let frame = frag_needed_bytes(0);
    assert_eq!(
        decode_response(&frame, 1472),
        Ok(ProbeOutcome::FragmentationNeeded { next_hop_mtu: 0 })
    );
}

#[test]
fn decode_other_icmp() {
    // Type 3 with a code other than 4 is not a fragmentation report.
    let frame = vec![3u8, 1, 0, 0, 0, 0, 5, 120];
    assert_eq!(decode_response(&frame, 100), Ok(ProbeOutcome::OtherIcmpReceived));
    // Time Exceeded.
    let frame = vec![11u8, 0, 0, 0, 0, 0, 0, 0];
    assert_eq!(decode_response(&frame, 100), Ok(ProbeOutcome::OtherIcmpReceived));
}

#[test]
fn decode_malformed() {
    assert_eq!(decode_response(&vec![], 100), Err(PmtudError::MalformedIcmpPayload));
    assert_eq!(decode_response(&vec![0u8, 0, 0], 100), Err(PmtudError::MalformedIcmpPayload));
    assert_eq!(decode_response(&vec![3u8, 4, 0, 0, 0, 0, 5], 100), Err(PmtudError::MalformedIcmpPayload));
}
