//! The connection lifecycle.
//!
//! One connection moves linearly through accept, TLS handshake, one request
//! read, URL parsing, path resolution, and the single response write; any
//! failure before the write aborts the connection without a structured
//! response. The transitions are a pure function from phase and event to the
//! next phase; the transport loop performs the work of each phase and hands
//! the outcome back as an event.

use vstd::prelude::*;

verus! {

/// Where a connection stands in its lifecycle.
#[derive(Debug, PartialEq, Eq, Structural, Clone, Copy)]
pub enum ConnPhase {
    /// The transport connection was accepted.
    Accepted,
    /// The peer address is known; the TLS handshake is next.
    Handshaking,
    /// The handshake passed; the single request read is next.
    Reading,
    /// A request line arrived; URL parsing is next.
    Parsing,
    /// The URL parsed; path resolution and response building are next.
    Resolving,
    /// A response stands ready; the write is next.
    Responding,
    /// The response went out and the connection is done.
    Closed,
    /// The connection was aborted; nothing more happens on it.
    Errored,
}

/// What the work of a phase reported.
#[derive(Debug, PartialEq, Eq, Structural, Clone, Copy)]
pub enum ConnEvent {
    PeerAddressFound,
    PeerAddressUnavailable,
    HandshakeCompleted,
    HandshakeFailed,
    LineRead,
    ReadFailed,
    UrlParsed,
    ParseFailed,
    ResponsePrepared,
    FileReadFailed,
    ResponseWritten,
    WriteFailed,
}

/// Which events the work of each phase can report. Resolution failures fold
/// into the not-found response, so the resolving phase fails only when an
/// allow-listed file's bytes cannot be read, which aborts the connection.
pub open spec fn event_fits(phase: ConnPhase, event: ConnEvent) -> bool {
    match phase {
        ConnPhase::Accepted => event == ConnEvent::PeerAddressFound || event
            == ConnEvent::PeerAddressUnavailable,
        ConnPhase::Handshaking => event == ConnEvent::HandshakeCompleted || event
            == ConnEvent::HandshakeFailed,
        ConnPhase::Reading => event == ConnEvent::LineRead || event == ConnEvent::ReadFailed,
        ConnPhase::Parsing => event == ConnEvent::UrlParsed || event == ConnEvent::ParseFailed,
        ConnPhase::Resolving => event == ConnEvent::ResponsePrepared || event
            == ConnEvent::FileReadFailed,
        ConnPhase::Responding => event == ConnEvent::ResponseWritten || event
            == ConnEvent::WriteFailed,
        ConnPhase::Closed => false,
        ConnPhase::Errored => false,
    }
}

/// The transition table: each phase steps forward on success and falls into
/// the absorbing error phase on failure.
pub open spec fn next_phase(phase: ConnPhase, event: ConnEvent) -> ConnPhase {
    match event {
        ConnEvent::PeerAddressFound => ConnPhase::Handshaking,
        ConnEvent::PeerAddressUnavailable => ConnPhase::Errored,
        ConnEvent::HandshakeCompleted => ConnPhase::Reading,
        ConnEvent::HandshakeFailed => ConnPhase::Errored,
        ConnEvent::LineRead => ConnPhase::Parsing,
        ConnEvent::ReadFailed => ConnPhase::Errored,
        ConnEvent::UrlParsed => ConnPhase::Resolving,
        ConnEvent::ParseFailed => ConnPhase::Errored,
        ConnEvent::ResponsePrepared => ConnPhase::Responding,
        ConnEvent::FileReadFailed => ConnPhase::Errored,
        ConnEvent::ResponseWritten => ConnPhase::Closed,
        ConnEvent::WriteFailed => ConnPhase::Errored,
    }
}

/// A phase from which no event moves the connection any further.
pub open spec fn is_terminal(phase: ConnPhase) -> bool {
    phase == ConnPhase::Closed || phase == ConnPhase::Errored
}

/// Steps the connection: the next phase is exactly what the transition table
/// states, an error event always lands in the error phase, and only the
/// completed write closes the connection.
pub fn advance(phase: ConnPhase, event: ConnEvent) -> (r: ConnPhase)
    requires
        event_fits(phase, event),
    ensures
        r == next_phase(phase, event),
        (r == ConnPhase::Closed) == (event == ConnEvent::ResponseWritten),
{
    match event {
        ConnEvent::PeerAddressFound => ConnPhase::Handshaking,
        ConnEvent::PeerAddressUnavailable => ConnPhase::Errored,
        ConnEvent::HandshakeCompleted => ConnPhase::Reading,
        ConnEvent::HandshakeFailed => ConnPhase::Errored,
        ConnEvent::LineRead => ConnPhase::Parsing,
        ConnEvent::ReadFailed => ConnPhase::Errored,
        ConnEvent::UrlParsed => ConnPhase::Resolving,
        ConnEvent::ParseFailed => ConnPhase::Errored,
        ConnEvent::ResponsePrepared => ConnPhase::Responding,
        ConnEvent::FileReadFailed => ConnPhase::Errored,
        ConnEvent::ResponseWritten => ConnPhase::Closed,
        ConnEvent::WriteFailed => ConnPhase::Errored,
    }
}

/// The error phase absorbs: no event leaves it, and every phase whose work
/// can fail reaches it on the failing event.
pub proof fn lemma_errored_absorbs()
    ensures
        forall|e: ConnEvent| !event_fits(ConnPhase::Errored, e),
        forall|e: ConnEvent| !event_fits(ConnPhase::Closed, e),
        next_phase(ConnPhase::Accepted, ConnEvent::PeerAddressUnavailable) == ConnPhase::Errored,
        next_phase(ConnPhase::Handshaking, ConnEvent::HandshakeFailed) == ConnPhase::Errored,
        next_phase(ConnPhase::Reading, ConnEvent::ReadFailed) == ConnPhase::Errored,
        next_phase(ConnPhase::Parsing, ConnEvent::ParseFailed) == ConnPhase::Errored,
        next_phase(ConnPhase::Resolving, ConnEvent::FileReadFailed) == ConnPhase::Errored,
        next_phase(ConnPhase::Responding, ConnEvent::WriteFailed) == ConnPhase::Errored,
{
}

} // verus!
