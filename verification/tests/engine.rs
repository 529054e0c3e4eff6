use herschel::checksum::internet_checksum;
use herschel::codec::{Ipv4Address, ProbeOutcome};
use herschel::engine::{EngineState, ProbeConfig, ProbeEngine, TransportEvent};
use herschel::errors::PmtudError;

fn dest() -> Ipv4Address {
    Ipv4Address::new(203, 0, 113, 7)
}

fn config(initial_probe_size: u16, decrement_step: u16) -> ProbeConfig {
    ProbeConfig { initial_probe_size, decrement_step }
}

fn echo_reply() -> TransportEvent {
    TransportEvent::Received(vec![0u8, 0, 0, 0, 0, 0, 0, 0])
}

fn frag_needed(next_hop_mtu: u16) -> TransportEvent {
    TransportEvent::Received(vec![
        3u8,
        4,
        0,
        0,
        0,
        0,
        (next_hop_mtu >> 8) as u8,
        (next_hop_mtu & 0xff) as u8,
    ])
}

#[test]
fn default_config() {
    let c = ProbeConfig::default();
    assert_eq!(c.initial_probe_size, 1472);
    assert_eq!(c.decrement_step, 8);
}

#[test]
fn rejects_bad_configuration() {
    // Below the IPv4 minimum reassembly size.
    assert_eq!(
        ProbeEngine::new(dest(), config(67, 8)),
        Err(PmtudError::InvalidConfiguration)
    );
    // Would not fit in an IPv4 datagram.
    assert_eq!(
        ProbeEngine::new(dest(), config(65508, 8)),
        Err(PmtudError::InvalidConfiguration)
    );
    // A zero step would never make progress.
    assert_eq!(
        ProbeEngine::new(dest(), config(1472, 0)),
        Err(PmtudError::InvalidConfiguration)
    );
    assert!(ProbeEngine::new(dest(), config(68, 1)).is_ok());
}

#[test]
fn immediate_echo_discovers_initial_size_plus_overhead() {
    // Destination 203.0.113.7, initial probe 1472, transport echoes success
    // immediately: the discovered MTU is 1500.
    let mut engine = ProbeEngine::new(dest(), config(1472, 8)).unwrap();
    let events = vec![echo_reply()];
    assert_eq!(engine.discover(&events), Ok(1500));
    assert_eq!(engine.state, EngineState::Succeeded { mtu: 1500 });
}

#[test]
fn rejected_send_then_authoritative_hint() {
    // First probe rejected, second probe (size 1464) draws a router report of
    // 1400: the hint is authoritative.
    let mut engine = ProbeEngine::new(dest(), config(1472, 8)).unwrap();
    let events = vec![TransportEvent::SendFailed, frag_needed(1400)];
    assert_eq!(engine.current_probe_size(), Some(1472));
    assert_eq!(engine.discover(&events), Ok(1400));
}

#[test]
fn authoritative_hint_short_circuits() {
    // A nonzero hint on the first probe ends the run at once, whatever the
    // decrement step and whatever events would follow.
    for step in [1u16, 8, 64, 1000] {
        let mut engine = ProbeEngine::new(dest(), config(1472, step)).unwrap();
        let events = vec![frag_needed(1400), echo_reply(), echo_reply()];
        assert_eq!(engine.discover(&events), Ok(1400));
    }
}

#[test]
fn zero_hint_falls_back_to_linear_search() {
    // A zero hint is not trusted: the engine shrinks to 1464 and the echo
    // reply on that probe gives 1464 + 28.
    let mut engine = ProbeEngine::new(dest(), config(1472, 8)).unwrap();
    let events = vec![frag_needed(0), echo_reply()];
    assert_eq!(engine.discover(&events), Ok(1492));
}

#[test]
fn timeout_fails_with_no_response() {
    let mut engine = ProbeEngine::new(dest(), config(1472, 8)).unwrap();
    let events = vec![TransportEvent::TimedOut];
    assert_eq!(engine.discover(&events), Err(PmtudError::NoResponse));
    assert_eq!(engine.state, EngineState::Failed { error: PmtudError::NoResponse });
}

#[test]
fn exhausted_events_fail_with_no_response() {
    let mut engine = ProbeEngine::new(dest(), config(1472, 8)).unwrap();
    assert_eq!(engine.discover(&vec![]), Err(PmtudError::NoResponse));
}

#[test]
fn monotone_shrink_on_rejected_sends() {
    // Consecutive rejected sends shrink the probe by exactly the step, never
    // below 68, and then the run fails with SizeExhausted.
    let mut engine = ProbeEngine::new(dest(), config(100, 8)).unwrap();
    let mut sizes = vec![engine.current_probe_size().unwrap()];
    loop {
        engine.handle_outcome(ProbeOutcome::SendRejected);
        match engine.current_probe_size() {
            Some(size) => sizes.push(size),
            None => break,
        }
    }
    assert_eq!(sizes, vec![100, 92, 84, 76, 68]);
    for pair in sizes.windows(2) {
        assert_eq!(pair[0] - pair[1], 8);
        assert!(pair[1] >= 68);
    }
    assert_eq!(engine.state, EngineState::Failed { error: PmtudError::SizeExhausted });
}

#[test]
fn size_exhausted_from_discover() {
    let mut engine = ProbeEngine::new(dest(), config(68, 8)).unwrap();
    let events = vec![TransportEvent::SendFailed];
    assert_eq!(engine.discover(&events), Err(PmtudError::SizeExhausted));
}

#[test]
fn malformed_datagram_shrinks_and_retries() {
    // A malformed datagram is inconclusive, not fatal: the engine shrinks and
    // the next echo reply succeeds at 1464 + 28.
    let mut engine = ProbeEngine::new(dest(), config(1472, 8)).unwrap();
    let events = vec![TransportEvent::Received(vec![1u8, 2]), echo_reply()];
    assert_eq!(engine.discover(&events), Ok(1492));
}

#[test]
fn unrelated_icmp_shrinks_and_retries() {
    let mut engine = ProbeEngine::new(dest(), config(1472, 8)).unwrap();
    let time_exceeded = TransportEvent::Received(vec![11u8, 0, 0, 0, 0, 0, 0, 0]);
    let events = vec![time_exceeded, echo_reply()];
    assert_eq!(engine.discover(&events), Ok(1492));
}

#[test]
fn build_probe_emits_checksummed_frame() {
    let engine = ProbeEngine::new(dest(), config(1472, 8)).unwrap();
    let source = Ipv4Address::new(192, 168, 1, 10);
    let frame = engine.build_probe(source, 10, 0, 0).unwrap();
    assert_eq!(frame.len(), 1500);
    assert_eq!(u16::from_be_bytes([frame[2], frame[3]]), 1500);
    assert_eq!(frame[6], 0x40); // Don't-Fragment
    assert_eq!(&frame[16..20], &[203, 0, 113, 7]);
    let header: Vec<u8> = frame[..20].to_vec();
    assert_eq!(internet_checksum(&header), 0);
    let icmp: Vec<u8> = frame[20..].to_vec();
    assert_eq!(icmp[0], 8);
    assert_eq!(internet_checksum(&icmp), 0);
}
