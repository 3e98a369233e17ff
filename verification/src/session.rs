//! Per-connection session rules: the lifecycle state machine, inbound
//! frame dispatch, and the server-probed liveness policy.
//!
//! A session runs `Connecting -> Active -> Closing -> Closed`. While
//! active, an 8-byte binary frame must decode to an in-range position that
//! is forwarded to the hub; a text frame must be a heartbeat
//! acknowledgment, which refreshes the liveness clock; any frame that fails
//! to decode is a protocol violation that closes this connection and only
//! this one. The transport and the timers live with the server; it feeds
//! frames and clock readings in and performs the actions handed back.

use crate::control::spec_parse_heartbeat;
use crate::control::parse_heartbeat;
use crate::position::decode_position;
use crate::position::spec_decode_position;
use crate::position::Position;
use vstd::prelude::*;

verus! {

/// How often the server runs the liveness check.
pub const HEARTBEAT_INTERVAL_MS: u64 = 3000;

/// A client silent for longer than this is presumed dead.
pub const CLIENT_TIMEOUT_MS: u64 = 6000;

/// One inbound frame, as the transport hands it over.
pub enum InboundFrame {
    /// A binary payload: a position report.
    Binary(Vec<u8>),
    /// A text payload: a control message.
    Text(Vec<u8>),
    /// Anything else (pings, pongs, continuations): ignored.
    Other,
}

/// What the session must do with one inbound frame.
#[derive(Clone, Copy, Debug, PartialEq, Eq, Structural)]
pub enum FrameAction {
    /// Protocol violation: close this connection.
    Stop,
    /// A valid position report: forward it to the hub.
    Update(Position),
    /// A heartbeat acknowledgment: the liveness clock was refreshed.
    Heartbeat,
    /// Nothing to do.
    Ignore,
}

/// The action an inbound frame demands.
pub open spec fn sp_frame_action(f: InboundFrame) -> FrameAction {
    match f {
        InboundFrame::Binary(b) => match spec_decode_position(b@) {
            Ok(p) => FrameAction::Update(p),
            Err(_) => FrameAction::Stop,
        },
        InboundFrame::Text(t) => match spec_parse_heartbeat(t@) {
            Some(_) => FrameAction::Heartbeat,
            None => FrameAction::Stop,
        },
        InboundFrame::Other => FrameAction::Ignore,
    }
}

/// Classifies one inbound frame.
pub fn classify_frame(f: &InboundFrame) -> (a: FrameAction)
    ensures
        a == sp_frame_action(*f),
        a matches FrameAction::Update(p) ==> p.wf(),
{
    match f {
        InboundFrame::Binary(b) => match decode_position(b.as_slice()) {
            Ok(p) => FrameAction::Update(p),
            Err(_) => FrameAction::Stop,
        },
        InboundFrame::Text(t) => match parse_heartbeat(t) {
            Some(_) => FrameAction::Heartbeat,
            None => FrameAction::Stop,
        },
        InboundFrame::Other => FrameAction::Ignore,
    }
}

/// What the periodic liveness check must do.
#[derive(Clone, Copy, Debug, PartialEq, Eq, Structural)]
pub enum LivenessAction {
    /// The peer has been silent past the timeout: close the connection.
    Close,
    /// The peer is alive: send it a heartbeat probe.
    Probe,
}

/// The connection lifecycle.
#[derive(Clone, Copy, Debug, PartialEq, Eq, Structural)]
pub enum SessionPhase {
    Connecting,
    Active,
    Closing,
    Closed,
}

/// The per-connection state the session rules need: the lifecycle phase,
/// the id the hub assigned, the liveness clock, and whether the hub has
/// already been told to disconnect.
pub struct SessionCore {
    pub phase: SessionPhase,
    pub id: u32,
    pub last_heartbeat_ms: u64,
    pub disconnect_sent: bool,
}

impl SessionCore {
    /// The hub is told to disconnect only once, at the end of the life of
    /// the session.
    pub open spec fn wf(self) -> bool {
        self.disconnect_sent ==> self.phase == SessionPhase::Closed
    }

    /// A session begins connecting the moment the transport handshake is
    /// done, with the liveness clock started.
    pub fn start(now_ms: u64) -> (s: SessionCore)
        ensures
            s.phase == SessionPhase::Connecting,
            s.last_heartbeat_ms == now_ms,
            !s.disconnect_sent,
            s.wf(),
    {
        SessionCore {
            phase: SessionPhase::Connecting,
            id: 0,
            last_heartbeat_ms: now_ms,
            disconnect_sent: false,
        }
    }

    /// The hub granted the connect request: the session becomes active
    /// under the assigned id.
    pub fn on_connected(&mut self, id: u32)
        requires
            old(self).phase == SessionPhase::Connecting,
            old(self).wf(),
        ensures
            final(self).phase == SessionPhase::Active,
            final(self).id == id,
            final(self).last_heartbeat_ms == old(self).last_heartbeat_ms,
            final(self).disconnect_sent == old(self).disconnect_sent,
            final(self).wf(),
    {
        self.phase = SessionPhase::Active;
        self.id = id;
    }

    /// The connect request failed, or the transport faulted, or a frame
    /// violated the protocol: begin closing. Fatal only to this connection.
    pub fn on_error(&mut self)
        requires
            old(self).phase != SessionPhase::Closed,
            old(self).wf(),
        ensures
            final(self).phase == SessionPhase::Closing,
            final(self).id == old(self).id,
            final(self).disconnect_sent == old(self).disconnect_sent,
            final(self).wf(),
    {
        self.phase = SessionPhase::Closing;
    }

    /// Dispatches one inbound frame while active: a heartbeat refreshes the
    /// liveness clock, a violation begins closing, and a decoded position
    /// is handed back for the caller to forward to the hub.
    pub fn on_frame(&mut self, f: &InboundFrame, now_ms: u64) -> (a: FrameAction)
        requires
            old(self).phase == SessionPhase::Active,
            old(self).wf(),
        ensures
            a == sp_frame_action(*f),
            a matches FrameAction::Update(p) ==> p.wf(),
            final(self).phase == if a == FrameAction::Stop {
                SessionPhase::Closing
            } else {
                SessionPhase::Active
            },
            final(self).last_heartbeat_ms == if a == FrameAction::Heartbeat {
                now_ms
            } else {
                old(self).last_heartbeat_ms
            },
            final(self).id == old(self).id,
            final(self).disconnect_sent == old(self).disconnect_sent,
            final(self).wf(),
    {
        let a: FrameAction = classify_frame(f);
        match a {
            FrameAction::Stop => {
                self.phase = SessionPhase::Closing;
            },
            FrameAction::Heartbeat => {
                self.last_heartbeat_ms = now_ms;
            },
            FrameAction::Update(_) => {},
            FrameAction::Ignore => {},
        }
        a
    }

    /// The periodic liveness check while active: a peer silent past the
    /// timeout is closed; otherwise the caller sends it a heartbeat probe.
    /// A silently dead peer is thus detected within the timeout plus one
    /// probe interval.
    pub fn on_liveness_tick(&mut self, now_ms: u64) -> (a: LivenessAction)
        requires
            old(self).phase == SessionPhase::Active,
            old(self).last_heartbeat_ms <= now_ms,
            old(self).wf(),
        ensures
            (a == LivenessAction::Close) <==> (now_ms - old(self).last_heartbeat_ms
                > CLIENT_TIMEOUT_MS),
            final(self).phase == if a == LivenessAction::Close {
                SessionPhase::Closing
            } else {
                SessionPhase::Active
            },
            final(self).id == old(self).id,
            final(self).last_heartbeat_ms == old(self).last_heartbeat_ms,
            final(self).disconnect_sent == old(self).disconnect_sent,
            final(self).wf(),
    {
        if now_ms - self.last_heartbeat_ms > CLIENT_TIMEOUT_MS {
            self.phase = SessionPhase::Closing;
            LivenessAction::Close
        } else {
            LivenessAction::Probe
        }
    }

    /// Tears the session down: names the id whose record the hub must drop
    /// — exactly once per session — and reaches the final phase.
    pub fn finish_close(&mut self) -> (r: Option<u32>)
        requires
            old(self).phase == SessionPhase::Closing,
            old(self).wf(),
        ensures
            final(self).phase == SessionPhase::Closed,
            final(self).disconnect_sent,
            r == Some(old(self).id),
            final(self).wf(),
    {
        self.phase = SessionPhase::Closed;
        self.disconnect_sent = true;
        Some(self.id)
    }
}

} // verus!
