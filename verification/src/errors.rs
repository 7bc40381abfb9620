use vstd::prelude::*;

verus! {

/// Failures of channel registration, surfaced at session setup.
#[derive(Clone, Copy, Debug, PartialEq, Eq, Structural)]
pub enum ChannelError {
    /// A channel with the same id is already registered.
    DuplicateChannel,
    /// A buffer or message-size limit is zero or exceeds the ceiling.
    InvalidBufferSize,
    /// Registration was attempted after the session began establishing links.
    RegistryClosed,
}

/// Failures of framing: encoding a payload into a wire envelope, or
/// decoding an envelope received from a link.
#[derive(Clone, Copy, Debug, PartialEq, Eq, Structural)]
pub enum FrameError {
    /// The payload exceeds the channel's configured maximum size.
    PayloadTooLarge,
    /// The envelope header is truncated or its declared length is wrong.
    MalformedFrame,
    /// The envelope names a channel id that is not in the registry.
    UnknownChannel,
}

/// Failures of listen and connect, surfaced once at setup or connect time.
/// The session's own validation yields only `InvalidAddress`; the driver
/// that performs the actual binds and dials maps socket outcomes to the
/// remaining variants.
#[derive(Clone, Copy, Debug, PartialEq, Eq, Structural)]
pub enum TransportError {
    /// No usable address was supplied, or an address is empty.
    InvalidAddress,
    /// The listen address is already bound by another endpoint.
    AddressInUse,
    /// No peer answered at the address.
    Unreachable,
    /// The peer did not answer within the bounded interval.
    Timeout,
    /// The peer answered but the transport handshake failed.
    HandshakeFailed,
}

/// Failures of the steady-state session operations, broadcast and drain.
#[derive(Clone, Copy, Debug, PartialEq, Eq, Structural)]
pub enum NetError {
    /// The named channel id is not in the registry.
    UnregisteredChannel,
    /// The payload exceeds the channel's configured maximum size.
    PayloadTooLarge,
}

} // verus!
