use vstd::prelude::*;

verus! {

/// The failure kinds a discovery run can surface.
///
/// `TransportInitError` is reported by the unverified transport layer when the
/// raw socket cannot be opened. `SendRejected` is recoverable (the engine
/// shrinks the probe and retries); it appears here so a caller that drives the
/// engine by hand can report it. The remaining kinds are terminal for one run.
#[derive(Clone, Copy, Debug, PartialEq, Eq, Structural)]
pub enum PmtudError {
    /// The raw-socket transport could not be set up.
    TransportInitError,
    /// A frame would make the IPv4 total length exceed 65535.
    FrameTooLarge,
    /// A received datagram was too short to carry an ICMP header.
    MalformedIcmpPayload,
    /// No datagram was observed within the configured timeout.
    NoResponse,
    /// The probe size fell below the IPv4 minimum reassembly size.
    SizeExhausted,
    /// The caller supplied a configuration the engine cannot start from.
    InvalidConfiguration,
}

} // verus!
