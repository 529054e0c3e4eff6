use vstd::prelude::*;
use crate::codec::{
    decode_response, decode_spec, echo_request_bytes, encode_echo_request, encode_ipv4,
    ipv4_frame_bytes, Ipv4Address, ProbeOutcome, HEADER_OVERHEAD, MAX_ICMP_PAYLOAD,
};
use crate::errors::PmtudError;

verus! {

/// The smallest probe payload the engine will try: the IPv4 minimum
/// reassembly guarantee.
pub const MIN_PROBE_SIZE: u16 = 68;
/// Default first probe: a 1500-byte Ethernet MTU minus the 28 header bytes.
pub const DEFAULT_PROBE_SIZE: u16 = 1472;
/// Default linear-search decrement.
pub const DEFAULT_DECREMENT_STEP: u16 = 8;

/// Caller-supplied knobs of one discovery run.
#[derive(Clone, Copy, Debug, PartialEq, Eq, Structural)]
pub struct ProbeConfig {
    /// The payload size of the first probe.
    pub initial_probe_size: u16,
    /// How much the payload shrinks after each inconclusive probe.
    pub decrement_step: u16,
}

impl ProbeConfig {
    /// A starting size the engine can encode and a step that guarantees
    /// progress.
    pub open spec fn wf(self) -> bool {
        &&& MIN_PROBE_SIZE <= self.initial_probe_size <= MAX_ICMP_PAYLOAD
        &&& 1 <= self.decrement_step
    }
}

impl Default for ProbeConfig {
    fn default() -> (r: Self)
        ensures
            r == (ProbeConfig {
                initial_probe_size: DEFAULT_PROBE_SIZE,
                decrement_step: DEFAULT_DECREMENT_STEP,
            }),
            r.wf(),
    {
        ProbeConfig { initial_probe_size: DEFAULT_PROBE_SIZE, decrement_step: DEFAULT_DECREMENT_STEP }
    }
}

/// Where one discovery run stands.
#[derive(Clone, Copy, Debug, PartialEq, Eq, Structural)]
pub enum EngineState {
    /// Still searching; the next probe carries `size` payload bytes.
    Probing { size: u16 },
    /// The path MTU was discovered.
    Succeeded { mtu: u16 },
    /// The run ended without an MTU.
    Failed { error: PmtudError },
}

/// What the transport produced for one probe: the send was refused, a
/// datagram's ICMP payload arrived, or the receive timed out.
#[derive(Debug)]
pub enum TransportEvent {
    SendFailed,
    Received(Vec<u8>),
    TimedOut,
}

/// One transition of the search: an echo reply proves the probed size, so the
/// discovered MTU is that size plus the 28 header bytes; a nonzero router
/// hint is authoritative; a zero hint, an unrelated datagram or a refused
/// send shrinks the probe by one step, failing once the minimum size is
/// reached; a timeout ends the run.
pub open spec fn step_outcome(size: u16, decrement_step: u16, outcome: ProbeOutcome) -> EngineState {
    match outcome {
        ProbeOutcome::EchoReplyReceived { .. } => EngineState::Succeeded {
            mtu: (size + HEADER_OVERHEAD) as u16,
        },
        ProbeOutcome::FragmentationNeeded { next_hop_mtu } => if next_hop_mtu != 0 {
            EngineState::Succeeded { mtu: next_hop_mtu }
        } else {
            shrunk(size, decrement_step)
        },
        ProbeOutcome::OtherIcmpReceived => shrunk(size, decrement_step),
        ProbeOutcome::SendRejected => shrunk(size, decrement_step),
        ProbeOutcome::NoResponse => EngineState::Failed { error: PmtudError::NoResponse },
    }
}

/// The shrink-and-retry transition, bounded below by `MIN_PROBE_SIZE`.
pub open spec fn shrunk(size: u16, decrement_step: u16) -> EngineState {
    if size - decrement_step >= MIN_PROBE_SIZE {
        EngineState::Probing { size: (size - decrement_step) as u16 }
    } else {
        EngineState::Failed { error: PmtudError::SizeExhausted }
    }
}

/// What a transport event means for the probe in flight: a malformed payload
/// is treated as an inconclusive outcome, not a terminal error.
pub open spec fn event_outcome(e: TransportEvent, size: u16) -> ProbeOutcome {
    match e {
        TransportEvent::SendFailed => ProbeOutcome::SendRejected,
        TransportEvent::TimedOut => ProbeOutcome::NoResponse,
        TransportEvent::Received(bytes) => match decode_spec(bytes@, size) {
            Ok(o) => o,
            Err(_) => ProbeOutcome::OtherIcmpReceived,
        },
    }
}

/// A whole simulated run: events are consumed one per probe while the engine
/// is still searching; a run that outlives its events ends with `NoResponse`,
/// mirroring a transport that has nothing more to deliver.
pub open spec fn run_from(
    state: EngineState,
    decrement_step: u16,
    events: Seq<TransportEvent>,
) -> EngineState
    decreases events.len(),
{
    match state {
        EngineState::Probing { size } => if events.len() == 0 {
            EngineState::Failed { error: PmtudError::NoResponse }
        } else {
            run_from(
                step_outcome(size, decrement_step, event_outcome(events[0], size)),
                decrement_step,
                events.skip(1),
            )
        },
        _ => state,
    }
}

/// The result a caller sees for a finished run.
pub open spec fn result_of(state: EngineState) -> Result<u16, PmtudError> {
    match state {
        EngineState::Succeeded { mtu } => Ok(mtu),
        EngineState::Failed { error } => Err(error),
        EngineState::Probing { .. } => Err(PmtudError::NoResponse),
    }
}

/// Drives one path-MTU discovery run against a destination.
#[derive(Clone, Copy, Debug, PartialEq, Eq, Structural)]
pub struct ProbeEngine {
    pub destination: Ipv4Address,
    pub config: ProbeConfig,
    pub state: EngineState,
}

impl ProbeEngine {
    /// A well-formed engine can always encode its next probe: while probing,
    /// the size stays between the minimum and the largest encodable payload.
    pub open spec fn wf(self) -> bool {
        &&& self.config.wf()
        &&& (self.state matches EngineState::Probing { size } ==> MIN_PROBE_SIZE <= size
            <= MAX_ICMP_PAYLOAD)
    }

    /// Starts a run, rejecting configurations the engine could not search
    /// from before any I/O happens.
    pub fn new(destination: Ipv4Address, config: ProbeConfig) -> (r: Result<
        ProbeEngine,
        PmtudError,
    >)
        ensures
            config.wf() ==> (r matches Ok(e) && e == (ProbeEngine {
                destination,
                config,
                state: EngineState::Probing { size: config.initial_probe_size },
            }) && e.wf()),
            !config.wf() ==> r == Err::<ProbeEngine, PmtudError>(PmtudError::InvalidConfiguration),
    {
        if config.initial_probe_size < MIN_PROBE_SIZE || config.initial_probe_size
            > MAX_ICMP_PAYLOAD || config.decrement_step == 0 {
            return Err(PmtudError::InvalidConfiguration);
        }
        Ok(ProbeEngine {
            destination,
            config,
            state: EngineState::Probing { size: config.initial_probe_size },
        })
    }

    /// The payload size of the next probe, while the engine is still probing.
    pub fn current_probe_size(&self) -> (r: Option<u16>)
        ensures
            r == (match self.state {
                EngineState::Probing { size } => Some(size),
                _ => None::<u16>,
            }),
    {
        match self.state {
            EngineState::Probing { size } => Some(size),
            _ => None,
        }
    }

    /// Encodes the next probe: an Echo Request of the current size, wrapped
    /// in an IPv4 frame addressed to the destination with Don't-Fragment set.
    pub fn build_probe(&self, source: Ipv4Address, ttl: u8, identifier: u16, sequence_number: u16)
        -> (r: Result<Vec<u8>, PmtudError>)
        requires
            self.wf(),
            self.state is Probing,
        ensures
            r matches Ok(v) && v@ == ipv4_frame_bytes(
                echo_request_bytes(identifier, sequence_number, self.state->Probing_size),
                ttl,
                source,
                self.destination,
            ),
    {
        let size = match self.state {
            EngineState::Probing { size } => size,
            _ => 0,
        };
        let icmp = match encode_echo_request(size, identifier, sequence_number) {
            Ok(icmp) => icmp,
            Err(e) => {
                return Err(e);
            },
        };
        encode_ipv4(&icmp, source, self.destination, ttl)
    }

    /// Applies one probe outcome to the search state.
    pub fn handle_outcome(&mut self, outcome: ProbeOutcome)
        requires
            old(self).wf(),
            old(self).state is Probing,
        ensures
            final(self).destination == old(self).destination,
            final(self).config == old(self).config,
            final(self).state == step_outcome(
                old(self).state->Probing_size,
                old(self).config.decrement_step,
                outcome,
            ),
            final(self).wf(),
    {
        let size = match self.state {
            EngineState::Probing { size } => size,
            _ => 0,
        };
        let step = self.config.decrement_step;
        self.state = match outcome {
            ProbeOutcome::EchoReplyReceived { .. } => EngineState::Succeeded {
                mtu: size + HEADER_OVERHEAD,
            },
            ProbeOutcome::FragmentationNeeded { next_hop_mtu } => if next_hop_mtu != 0 {
                EngineState::Succeeded { mtu: next_hop_mtu }
            } else {
                Self::shrink(size, step)
            },
            ProbeOutcome::OtherIcmpReceived => Self::shrink(size, step),
            ProbeOutcome::SendRejected => Self::shrink(size, step),
            ProbeOutcome::NoResponse => EngineState::Failed { error: PmtudError::NoResponse },
        };
    }

    fn shrink(size: u16, decrement_step: u16) -> (r: EngineState)
        ensures
            r == shrunk(size, decrement_step),
    {
        if decrement_step <= size && size - decrement_step >= MIN_PROBE_SIZE {
            EngineState::Probing { size: size - decrement_step }
        } else {
            EngineState::Failed { error: PmtudError::SizeExhausted }
        }
    }

    /// Decodes one transport event and applies it, treating a malformed
    /// payload as an inconclusive probe.
    pub fn handle_event(&mut self, event: &TransportEvent)
        requires
            old(self).wf(),
            old(self).state is Probing,
        ensures
            final(self).destination == old(self).destination,
            final(self).config == old(self).config,
            final(self).state == step_outcome(
                old(self).state->Probing_size,
                old(self).config.decrement_step,
                event_outcome(*event, old(self).state->Probing_size),
            ),
            final(self).wf(),
    {
        let size = match self.state {
            EngineState::Probing { size } => size,
            _ => 0,
        };
        let outcome = match event {
            TransportEvent::SendFailed => ProbeOutcome::SendRejected,
            TransportEvent::TimedOut => ProbeOutcome::NoResponse,
            TransportEvent::Received(bytes) => match decode_response(bytes, size) {
                Ok(o) => o,
                Err(_) => ProbeOutcome::OtherIcmpReceived,
            },
        };
        self.handle_outcome(outcome);
    }

    /// Runs the whole search over a script of transport events, one event per
    /// probe, and reports the discovered MTU or the failure that ended the
    /// run. The run always terminates: the probe size strictly decreases and
    /// is bounded below, and no run consumes more events than the script has.
    pub fn discover(&mut self, events: &Vec<TransportEvent>) -> (r: Result<u16, PmtudError>)
        requires
            old(self).wf(),
            old(self).state is Probing,
        ensures
            final(self).destination == old(self).destination,
            final(self).config == old(self).config,
            final(self).state == run_from(
                old(self).state,
                old(self).config.decrement_step,
                events@,
            ),
            final(self).wf(),
            r == result_of(final(self).state),
    {
        let n = events.len();
        let mut i: usize = 0;
        proof {
            assert(events@.skip(0) =~= events@);
        }
        while i < n
            invariant
                i <= n,
                n == events@.len(),
                self.wf(),
                self.destination == old(self).destination,
                self.config == old(self).config,
                run_from(old(self).state, old(self).config.decrement_step, events@) == run_from(
                    self.state,
                    self.config.decrement_step,
                    events@.skip(i as int),
                ),
            decreases n - i,
        {
            let probing = match self.state {
                EngineState::Probing { .. } => true,
                _ => false,
            };
            if probing {
                self.handle_event(&events[i]);
            }
            i = i + 1;
            proof {
                assert(events@.skip(i - 1).skip(1) =~= events@.skip(i as int));
            }
        }
        proof {
            assert(events@.skip(n as int) =~= Seq::<TransportEvent>::empty());
        }
        let finished = match self.state {
            EngineState::Probing { .. } => false,
            _ => true,
        };
        if !finished {
            self.state = EngineState::Failed { error: PmtudError::NoResponse };
        }
        match self.state {
            EngineState::Succeeded { mtu } => Ok(mtu),
            EngineState::Failed { error } => Err(error),
            EngineState::Probing { .. } => Err(PmtudError::NoResponse),
        }
    }
}

/// The search state after `n` consecutive rejected sends from a probe of
/// `size` payload bytes.
pub open spec fn state_after_rejections(size: u16, decrement_step: u16, n: nat) -> EngineState
    decreases n,
{
    if n == 0 {
        EngineState::Probing { size }
    } else {
        match state_after_rejections(size, decrement_step, (n - 1) as nat) {
            EngineState::Probing { size: s } => step_outcome(
                s,
                decrement_step,
                ProbeOutcome::SendRejected,
            ),
            other => other,
        }
    }
}

/// Law: across a run of consecutive rejected sends, the probed sizes decrease
/// by exactly `decrement_step` each time and never fall below the minimum;
/// once they would, the run fails with `SizeExhausted`.
pub proof fn lemma_monotone_shrink(size: u16, decrement_step: u16, n: nat)
    requires
        MIN_PROBE_SIZE <= size,
        1 <= decrement_step,
    ensures
        state_after_rejections(size, decrement_step, n) matches EngineState::Probing { size: s }
            ==> s == size - n * decrement_step && MIN_PROBE_SIZE <= s && (n >= 1 ==> s < size),
        !(state_after_rejections(size, decrement_step, n) is Probing) ==> state_after_rejections(
            size,
            decrement_step,
            n,
        ) == (EngineState::Failed { error: PmtudError::SizeExhausted }),
    decreases n,
{
    if n > 0 {
        lemma_monotone_shrink(size, decrement_step, (n - 1) as nat);
        assert(n * decrement_step == (n - 1) * decrement_step + decrement_step)
            by (nonlinear_arith);
        assert((n - 1) * decrement_step >= 0) by (nonlinear_arith)
            requires n >= 1 && decrement_step >= 1;
    }
}

/// Law: a nonzero next-hop MTU hint is authoritative. Whatever events follow
/// and whatever the decrement step, the run ends at once with that MTU.
pub proof fn lemma_authoritative_short_circuit(
    size: u16,
    decrement_step: u16,
    events: Seq<TransportEvent>,
    next_hop_mtu: u16,
)
    requires
        events.len() >= 1,
        event_outcome(events[0], size) == (ProbeOutcome::FragmentationNeeded { next_hop_mtu }),
        next_hop_mtu != 0,
    ensures
        run_from(EngineState::Probing { size }, decrement_step, events) == (EngineState::Succeeded {
            mtu: next_hop_mtu,
        }),
{
    let succeeded = EngineState::Succeeded { mtu: next_hop_mtu };
    assert(run_from(succeeded, decrement_step, events.skip(1)) == succeeded);
}

/// Law: a zero next-hop MTU hint is never trusted. The engine falls back to
/// the linear search: it shrinks the probe by one step, and an echo reply on
/// that shrunk probe yields the shrunk size plus the 28 header bytes.
pub proof fn lemma_zero_hint_fallback(
    size: u16,
    decrement_step: u16,
    events: Seq<TransportEvent>,
)
    requires
        events.len() >= 2,
        size <= MAX_ICMP_PAYLOAD,
        event_outcome(events[0], size) == (ProbeOutcome::FragmentationNeeded { next_hop_mtu: 0u16 }),
        MIN_PROBE_SIZE <= size - decrement_step,
        event_outcome(
            events[1],
            (size - decrement_step) as u16,
        ) matches ProbeOutcome::EchoReplyReceived { .. },
    ensures
        run_from(EngineState::Probing { size }, decrement_step, events) == (EngineState::Succeeded {
            mtu: (size - decrement_step + HEADER_OVERHEAD) as u16,
        }),
{
    let shrunk_size = (size - decrement_step) as u16;
    let final_state = EngineState::Succeeded { mtu: (shrunk_size + HEADER_OVERHEAD) as u16 };
    assert(step_outcome(size, decrement_step, event_outcome(events[0], size))
        == (EngineState::Probing { size: shrunk_size }));
    assert(events.skip(1)[0] == events[1]);
    assert(step_outcome(shrunk_size, decrement_step, event_outcome(events.skip(1)[0], shrunk_size))
        == final_state);
    assert(run_from(final_state, decrement_step, events.skip(1).skip(1)) == final_state);
    assert(run_from(EngineState::Probing { size: shrunk_size }, decrement_step, events.skip(1))
        == final_state);
}

/// Law: a transport that yields nothing within its timeout ends the run at
/// once with `NoResponse`; the engine never waits for more than the one
/// timeout event.
pub proof fn lemma_timeout_termination(
    size: u16,
    decrement_step: u16,
    events: Seq<TransportEvent>,
)
    requires
        events.len() >= 1,
        events[0] is TimedOut,
    ensures
        run_from(EngineState::Probing { size }, decrement_step, events) == (EngineState::Failed {
            error: PmtudError::NoResponse,
        }),
{
    let failed = EngineState::Failed { error: PmtudError::NoResponse };
    assert(run_from(failed, decrement_step, events.skip(1)) == failed);
}

} // verus!
