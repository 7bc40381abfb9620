use vstd::prelude::*;

use crate::channel::ReliabilityMode;

verus! {

/// The transport that originated a link.
#[derive(Clone, Copy, Debug, PartialEq, Eq, Structural)]
pub enum TransportKind {
    /// A connection-oriented native socket: ordered, retransmitted.
    NativeStream,
    /// A connectionless native socket: best-effort datagrams.
    NativeDatagram,
    /// A browser-compatible data channel behind a signaling handshake.
    WebBridge,
}

/// One established physical connection to a peer, tagged with the
/// transport that originated it. Links are owned by the session that
/// created them and are identified by a session-unique id.
#[derive(Clone, Copy, Debug, PartialEq, Eq, Structural)]
pub struct Link {
    /// Session-unique identifier of this link.
    pub id: u64,
    /// The transport that originated this link.
    pub kind: TransportKind,
}

/// Whether a link of kind `kind` carries a broadcast of mode `mode`.
/// Reliable channels go only over stream-capable transports; unreliable
/// channels go over datagram-capable transports, and fall back to the
/// native stream when no datagram-capable link is live at all
/// (`has_datagram` reports that), so that a peer reachable only over a
/// stream still hears best-effort traffic.
pub open spec fn eligible(kind: TransportKind, mode: ReliabilityMode, has_datagram: bool) -> bool {
    match mode {
        ReliabilityMode::Reliable => kind == TransportKind::NativeStream || kind
            == TransportKind::WebBridge,
        ReliabilityMode::Unreliable => kind == TransportKind::NativeDatagram || kind
            == TransportKind::WebBridge || (kind == TransportKind::NativeStream && !has_datagram),
    }
}

/// Whether some link in `links` is datagram-capable.
pub open spec fn has_datagram(links: Seq<Link>) -> bool {
    exists|i: int|
        0 <= i < links.len() && (links[i].kind == TransportKind::NativeDatagram || links[i].kind
            == TransportKind::WebBridge)
}

/// Decide `eligible` for one link.
pub fn link_eligible(kind: TransportKind, mode: ReliabilityMode, has_dg: bool) -> (r: bool)
    ensures
        r == eligible(kind, mode, has_dg),
{
    match mode {
        ReliabilityMode::Reliable => match kind {
            TransportKind::NativeStream => true,
            TransportKind::NativeDatagram => false,
            TransportKind::WebBridge => true,
        },
        ReliabilityMode::Unreliable => match kind {
            TransportKind::NativeStream => !has_dg,
            TransportKind::NativeDatagram => true,
            TransportKind::WebBridge => true,
        },
    }
}

} // verus!
