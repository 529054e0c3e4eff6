use vstd::prelude::*;
use crate::checksum::{
    be16, checksum_of, internet_checksum, lemma_be16_value, lemma_checksum_insertion,
};
use crate::errors::PmtudError;

verus! {

/// ICMP header length in bytes.
pub const ICMP_HEADER_LEN: u16 = 8;
/// IPv4 header length in bytes (this library never emits options).
pub const IPV4_HEADER_LEN: u16 = 20;
/// IPv4 plus ICMP header bytes carried on top of the echo payload.
pub const HEADER_OVERHEAD: u16 = 28;
/// The largest echo payload for which the IPv4 total length still fits 65535.
pub const MAX_ICMP_PAYLOAD: u16 = 65507;

/// An IPv4 address as its four dotted-quad octets.
#[derive(Clone, Copy, Debug, PartialEq, Eq, Structural)]
pub struct Ipv4Address {
    pub o0: u8,
    pub o1: u8,
    pub o2: u8,
    pub o3: u8,
}

impl Ipv4Address {
    pub open spec fn octets(self) -> Seq<u8> {
        seq![self.o0, self.o1, self.o2, self.o3]
    }

    pub fn new(o0: u8, o1: u8, o2: u8, o3: u8) -> (r: Self)
        ensures
            r == (Ipv4Address { o0, o1, o2, o3 }),
    {
        Ipv4Address { o0, o1, o2, o3 }
    }
}

/// What one received ICMP datagram means for the probe that was in flight.
#[derive(Clone, Copy, Debug, PartialEq, Eq, Structural)]
pub enum ProbeOutcome {
    /// An Echo Reply came back: the probed payload size traversed the path.
    EchoReplyReceived { probed_size: u16 },
    /// A router reported Fragmentation Needed, with its next-hop MTU hint
    /// (zero when the router did not disclose one).
    FragmentationNeeded { next_hop_mtu: u16 },
    /// Some other ICMP datagram arrived; inconclusive for this probe.
    OtherIcmpReceived,
    /// The local stack refused to send the probe.
    SendRejected,
    /// Nothing arrived within the transport's timeout.
    NoResponse,
}

/// The byte layout of an ICMP frame: type, code, checksum, the two 16-bit
/// halves of the second header word, then the payload.
pub open spec fn icmp_frame_bytes(
    icmp_type: u8,
    icmp_code: u8,
    csum: u16,
    word_high: u16,
    word_low: u16,
    payload: Seq<u8>,
) -> Seq<u8> {
    seq![icmp_type, icmp_code] + be16(csum) + be16(word_high) + be16(word_low) + payload
}

/// The deterministic filler payload: `n` zero bytes.
pub open spec fn filler_payload(n: int) -> Seq<u8> {
    Seq::new(n as nat, |i: int| 0u8)
}

/// An Echo Request frame before its checksum is filled in.
pub open spec fn echo_request_zeroed(
    identifier: u16,
    sequence_number: u16,
    payload_size: u16,
) -> Seq<u8> {
    icmp_frame_bytes(8, 0, 0, identifier, sequence_number, filler_payload(payload_size as int))
}

/// The exact bytes of an encoded ICMP Echo Request.
pub open spec fn echo_request_bytes(
    identifier: u16,
    sequence_number: u16,
    payload_size: u16,
) -> Seq<u8> {
    icmp_frame_bytes(
        8,
        0,
        checksum_of(echo_request_zeroed(identifier, sequence_number, payload_size)),
        identifier,
        sequence_number,
        filler_payload(payload_size as int),
    )
}

/// The byte layout of the 20-byte IPv4 header this library emits: version 4,
/// header length 5, ECN set, identification 1, Don't-Fragment set, fragment
/// offset 0, protocol ICMP.
pub open spec fn ipv4_header_bytes(
    total_length: u16,
    ttl: u8,
    header_checksum: u16,
    source: Ipv4Address,
    destination: Ipv4Address,
) -> Seq<u8> {
    seq![0x45u8, 0x01u8] + be16(total_length) + seq![0x00u8, 0x01u8, 0x40u8, 0x00u8, ttl, 0x01u8]
        + be16(header_checksum) + source.octets() + destination.octets()
}

pub open spec fn ipv4_header_checksum(
    total_length: u16,
    ttl: u8,
    source: Ipv4Address,
    destination: Ipv4Address,
) -> u16 {
    checksum_of(ipv4_header_bytes(total_length, ttl, 0, source, destination))
}

/// The exact bytes of an encoded IPv4 datagram carrying `icmp_frame`.
pub open spec fn ipv4_frame_bytes(
    icmp_frame: Seq<u8>,
    ttl: u8,
    source: Ipv4Address,
    destination: Ipv4Address,
) -> Seq<u8> {
    let total_length = (IPV4_HEADER_LEN + icmp_frame.len()) as u16;
    ipv4_header_bytes(
        total_length,
        ttl,
        ipv4_header_checksum(total_length, ttl, source, destination),
        source,
        destination,
    ) + icmp_frame
}

/// How a received ICMP payload is classified: too short is malformed, type 0
/// is an echo reply, type 3 code 4 carries the RFC 1191 next-hop MTU in the
/// low 16 bits of the second header word, anything else is inconclusive.
pub open spec fn decode_spec(p: Seq<u8>, probed_size: u16) -> Result<ProbeOutcome, PmtudError> {
    if p.len() < 8 {
        Err(PmtudError::MalformedIcmpPayload)
    } else if p[0] == 0 {
        Ok(ProbeOutcome::EchoReplyReceived { probed_size })
    } else if p[0] == 3 && p[1] == 4 {
        Ok(ProbeOutcome::FragmentationNeeded { next_hop_mtu: (p[6] * 0x100 + p[7]) as u16 })
    } else {
        Ok(ProbeOutcome::OtherIcmpReceived)
    }
}

/// Builds an ICMP Echo Request frame of exactly `8 + payload_size` bytes with
/// a correct internet checksum, or fails when the enclosing IPv4 total length
/// would exceed 65535.
pub fn encode_echo_request(payload_size: u16, identifier: u16, sequence_number: u16) -> (r:
    Result<Vec<u8>, PmtudError>)
    ensures
        payload_size <= MAX_ICMP_PAYLOAD ==> (r matches Ok(v) && v@ == echo_request_bytes(
            identifier,
            sequence_number,
            payload_size,
        )),
        payload_size > MAX_ICMP_PAYLOAD ==> r == Err::<Vec<u8>, PmtudError>(
            PmtudError::FrameTooLarge,
        ),
{
    if payload_size > MAX_ICMP_PAYLOAD {
        return Err(PmtudError::FrameTooLarge);
    }
    let mut v: Vec<u8> = Vec::new();
    v.push(8u8);
    v.push(0u8);
    v.push(0u8);
    v.push(0u8);
    v.push((identifier / 0x100) as u8);
    v.push((identifier % 0x100) as u8);
    v.push((sequence_number / 0x100) as u8);
    v.push((sequence_number % 0x100) as u8);
    proof {
        assert(v@ =~= icmp_frame_bytes(8, 0, 0, identifier, sequence_number, filler_payload(0)));
    }
    let mut j: u16 = 0;
    while j < payload_size
        invariant
            j <= payload_size,
            v@ == icmp_frame_bytes(
                8,
                0,
                0,
                identifier,
                sequence_number,
                filler_payload(j as int),
            ),
        decreases payload_size - j,
    {
        v.push(0u8);
        j = j + 1;
        proof {
            assert(v@ =~= icmp_frame_bytes(
                8,
                0,
                0,
                identifier,
                sequence_number,
                filler_payload(j as int),
            ));
        }
    }
    let c = internet_checksum(&v);
    v.set(2, (c / 0x100) as u8);
    v.set(3, (c % 0x100) as u8);
    proof {
        assert(v@ =~= icmp_frame_bytes(
            8,
            0,
            c,
            identifier,
            sequence_number,
            filler_payload(payload_size as int),
        ));
    }
    Ok(v)
}

/// Wraps an ICMP frame in a 20-byte IPv4 header with the Don't-Fragment flag
/// set, a correct header checksum, and a total length of `20 + frame length`;
/// fails when that total length would exceed 65535.
pub fn encode_ipv4(
    icmp_frame: &Vec<u8>,
    source: Ipv4Address,
    destination: Ipv4Address,
    ttl: u8,
) -> (r: Result<Vec<u8>, PmtudError>)
    ensures
        icmp_frame@.len() <= MAX_ICMP_PAYLOAD + ICMP_HEADER_LEN ==> (r matches Ok(v) && v@
            == ipv4_frame_bytes(icmp_frame@, ttl, source, destination)),
        icmp_frame@.len() > MAX_ICMP_PAYLOAD + ICMP_HEADER_LEN ==> r == Err::<
            Vec<u8>,
            PmtudError,
        >(PmtudError::FrameTooLarge),
{
    if icmp_frame.len() > (MAX_ICMP_PAYLOAD as usize) + (ICMP_HEADER_LEN as usize) {
        return Err(PmtudError::FrameTooLarge);
    }
    let total_length: u16 = IPV4_HEADER_LEN + (icmp_frame.len() as u16);
    let mut v: Vec<u8> = Vec::new();
    v.push(0x45u8);
    v.push(0x01u8);
    v.push((total_length / 0x100) as u8);
    v.push((total_length % 0x100) as u8);
    v.push(0x00u8);
    v.push(0x01u8);
    v.push(0x40u8);
    v.push(0x00u8);
    v.push(ttl);
    v.push(0x01u8);
    v.push(0u8);
    v.push(0u8);
    v.push(source.o0);
    v.push(source.o1);
    v.push(source.o2);
    v.push(source.o3);
    v.push(destination.o0);
    v.push(destination.o1);
    v.push(destination.o2);
    v.push(destination.o3);
    proof {
        assert(v@ =~= ipv4_header_bytes(total_length, ttl, 0, source, destination));
    }
    let c = internet_checksum(&v);
    v.set(10, (c / 0x100) as u8);
    v.set(11, (c % 0x100) as u8);
    proof {
        assert(v@ =~= ipv4_header_bytes(total_length, ttl, c, source, destination));
    }
    let mut j: usize = 0;
    while j < icmp_frame.len()
        invariant
            j <= icmp_frame@.len(),
            v@ == ipv4_header_bytes(total_length, ttl, c, source, destination)
                + icmp_frame@.take(j as int),
        decreases icmp_frame@.len() - j,
    {
        v.push(icmp_frame[j]);
        j = j + 1;
        proof {
            assert(v@ =~= ipv4_header_bytes(total_length, ttl, c, source, destination)
                + icmp_frame@.take(j as int));
        }
    }
    proof {
        assert(icmp_frame@.take(icmp_frame@.len() as int) =~= icmp_frame@);
    }
    Ok(v)
}

/// Classifies the ICMP payload of a received IPv4 datagram (the IP header
/// already stripped). `probed_size` is the payload size of the probe that was
/// in flight; an echo reply carries it back as the size that traversed.
pub fn decode_response(ip_payload: &Vec<u8>, probed_size: u16) -> (r: Result<
    ProbeOutcome,
    PmtudError,
>)
    ensures
        r == decode_spec(ip_payload@, probed_size),
{
    if ip_payload.len() < 8 {
        return Err(PmtudError::MalformedIcmpPayload);
    }
    let ty = ip_payload[0];
    if ty == 0 {
        Ok(ProbeOutcome::EchoReplyReceived { probed_size })
    } else if ty == 3 && ip_payload[1] == 4 {
        let next_hop_mtu: u16 = (ip_payload[6] as u16) * 0x100 + (ip_payload[7] as u16);
        Ok(ProbeOutcome::FragmentationNeeded { next_hop_mtu })
    } else {
        Ok(ProbeOutcome::OtherIcmpReceived)
    }
}

/// Law: an encoded Echo Request verifies: recomputing the internet checksum
/// over the full frame, checksum field included, yields zero.
pub proof fn lemma_echo_request_checksum_verifies(
    identifier: u16,
    sequence_number: u16,
    payload_size: u16,
)
    ensures
        checksum_of(echo_request_bytes(identifier, sequence_number, payload_size)) == 0,
{
    let a: Seq<u8> = seq![8u8, 0u8];
    let b = be16(identifier) + be16(sequence_number) + filler_payload(payload_size as int);
    lemma_checksum_insertion(a, b);
    assert(a + seq![0u8, 0u8] + b =~= echo_request_zeroed(
        identifier,
        sequence_number,
        payload_size,
    ));
    let c = checksum_of(a + seq![0u8, 0u8] + b);
    assert(a + be16(c) + b =~= echo_request_bytes(identifier, sequence_number, payload_size));
}

/// Law: an IPv4 header that carries its own header checksum verifies to zero.
pub proof fn lemma_ipv4_header_checksum_verifies(
    total_length: u16,
    ttl: u8,
    source: Ipv4Address,
    destination: Ipv4Address,
)
    ensures
        checksum_of(
            ipv4_header_bytes(
                total_length,
                ttl,
                ipv4_header_checksum(total_length, ttl, source, destination),
                source,
                destination,
            ),
        ) == 0,
{
    let a = seq![0x45u8, 0x01u8] + be16(total_length) + seq![0x00u8, 0x01u8, 0x40u8, 0x00u8, ttl, 0x01u8];
    let b = source.octets() + destination.octets();
    lemma_checksum_insertion(a, b);
    assert(a + seq![0u8, 0u8] + b =~= ipv4_header_bytes(total_length, ttl, 0, source, destination));
    let c = checksum_of(a + seq![0u8, 0u8] + b);
    assert(a + be16(c) + b =~= ipv4_header_bytes(total_length, ttl, c, source, destination));
}

/// Law: an encoded IPv4 frame is as long as its total-length field says, and
/// its 20-byte header verifies to zero.
pub proof fn lemma_ipv4_frame_wellformed(
    icmp_frame: Seq<u8>,
    ttl: u8,
    source: Ipv4Address,
    destination: Ipv4Address,
)
    requires
        icmp_frame.len() <= MAX_ICMP_PAYLOAD + ICMP_HEADER_LEN,
    ensures
        ({
            let v = ipv4_frame_bytes(icmp_frame, ttl, source, destination);
            &&& v.len() == IPV4_HEADER_LEN + icmp_frame.len()
            &&& checksum_of(v.subrange(0, IPV4_HEADER_LEN as int)) == 0
            &&& v[2] * 0x100 + v[3] == IPV4_HEADER_LEN + icmp_frame.len()
        }),
{
    let total_length = (IPV4_HEADER_LEN + icmp_frame.len()) as u16;
    let hdr = ipv4_header_bytes(
        total_length,
        ttl,
        ipv4_header_checksum(total_length, ttl, source, destination),
        source,
        destination,
    );
    let v = ipv4_frame_bytes(icmp_frame, ttl, source, destination);
    assert(hdr.len() == 20);
    assert(v.subrange(0, 20) =~= hdr);
    lemma_ipv4_header_checksum_verifies(total_length, ttl, source, destination);
    lemma_be16_value(total_length);
    assert(v[2] == be16(total_length)[0]);
    assert(v[3] == be16(total_length)[1]);
}

/// Law: for every valid payload size, the encoded probe's length equals its
/// total-length field, which is `20 + 8 + payload_size`.
pub proof fn lemma_frame_sizing(
    identifier: u16,
    sequence_number: u16,
    payload_size: u16,
    ttl: u8,
    source: Ipv4Address,
    destination: Ipv4Address,
)
    requires
        payload_size <= MAX_ICMP_PAYLOAD,
    ensures
        ({
            let icmp = echo_request_bytes(identifier, sequence_number, payload_size);
            let v = ipv4_frame_bytes(icmp, ttl, source, destination);
            &&& icmp.len() == ICMP_HEADER_LEN + payload_size
            &&& v.len() == HEADER_OVERHEAD + payload_size
            &&& v[2] * 0x100 + v[3] == HEADER_OVERHEAD + payload_size
        }),
{
    let icmp = echo_request_bytes(identifier, sequence_number, payload_size);
    lemma_ipv4_frame_wellformed(icmp, ttl, source, destination);
}

/// Law: decoding an echo-reply-shaped frame yields `EchoReplyReceived` with
/// the probed size, whatever the frame's other fields hold.
pub proof fn lemma_decode_echo_reply(
    csum: u16,
    identifier: u16,
    sequence_number: u16,
    payload: Seq<u8>,
    probed_size: u16,
)
    ensures
        decode_spec(
            icmp_frame_bytes(0, 0, csum, identifier, sequence_number, payload),
            probed_size,
        ) == Ok::<ProbeOutcome, PmtudError>(ProbeOutcome::EchoReplyReceived { probed_size }),
{
    let p = icmp_frame_bytes(0, 0, csum, identifier, sequence_number, payload);
    assert(p.len() >= 8);
    assert(p[0] == 0);
}

/// Law: decoding a fragmentation-needed frame reproduces the exact next-hop
/// MTU it carries.
pub proof fn lemma_decode_fragmentation_needed(
    csum: u16,
    unused_high: u16,
    next_hop_mtu: u16,
    payload: Seq<u8>,
    probed_size: u16,
)
    ensures
        decode_spec(
            icmp_frame_bytes(3, 4, csum, unused_high, next_hop_mtu, payload),
            probed_size,
        ) == Ok::<ProbeOutcome, PmtudError>(ProbeOutcome::FragmentationNeeded { next_hop_mtu }),
{
    let p = icmp_frame_bytes(3, 4, csum, unused_high, next_hop_mtu, payload);
    lemma_be16_value(next_hop_mtu);
    assert(p[0] == 3 && p[1] == 4);
    assert(p[6] == be16(next_hop_mtu)[0]);
    assert(p[7] == be16(next_hop_mtu)[1]);
}

} // verus!
