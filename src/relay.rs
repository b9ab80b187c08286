use vstd::prelude::*;

verus! {

/// What a frame of an upgraded connection carries.
#[derive(Clone, Copy, Debug, PartialEq, Eq)]
pub enum FrameKind {
    Text,
    Binary,
    Ping,
    Pong,
    Close,
}

/// A frame of an upgraded connection.
#[derive(Clone, Debug, PartialEq, Eq)]
pub struct Frame {
    pub kind: FrameKind,
    pub payload: Vec<u8>,
}

/// What happened on the receiving half of a connection.
#[derive(Clone, Debug, PartialEq, Eq)]
pub enum RelayEvent {
    /// A frame came in.
    Received(Frame),
    /// The peer closed the connection.
    Closed,
    /// Reading or writing failed.
    Failed,
}

/// What the relay does next.
#[derive(Clone, Debug, PartialEq, Eq)]
pub enum RelayAction {
    /// Write this frame to the sending half.
    Send(Frame),
    /// Write nothing and read on.
    Skip,
    /// Close the sending half and end the relay.
    Finish,
    /// End the relay on an error.
    Abort,
}

/// Whether a relay still echoes.
#[derive(Clone, Copy, Debug, PartialEq, Eq)]
pub enum RelayState {
    Open,
    Done,
}

/// Frames that carry data are echoed; control frames are the protocol's own.
pub open spec fn forwards(kind: FrameKind) -> bool {
    kind == FrameKind::Text || kind == FrameKind::Binary
}

/// The relay's next state and action after `event`.
pub open spec fn relay_next(state: RelayState, event: RelayEvent) -> (RelayState, RelayAction) {
    match state {
        RelayState::Done => (RelayState::Done, RelayAction::Skip),
        RelayState::Open => match event {
            RelayEvent::Received(f) => if forwards(f.kind) {
                (RelayState::Open, RelayAction::Send(f))
            } else {
                (RelayState::Open, RelayAction::Skip)
            },
            RelayEvent::Closed => (RelayState::Done, RelayAction::Finish),
            RelayEvent::Failed => (RelayState::Done, RelayAction::Abort),
        },
    }
}

/// Whether frames of `kind` are echoed.
pub fn is_forwarded(kind: FrameKind) -> (r: bool)
    ensures
        r == forwards(kind),
{
    match kind {
        FrameKind::Text | FrameKind::Binary => true,
        _ => false,
    }
}

/// One step of the echo relay of a connection.
pub fn relay_step(state: RelayState, event: RelayEvent) -> (r: (RelayState, RelayAction))
    ensures
        r == relay_next(state, event),
{
    match state {
        RelayState::Done => (RelayState::Done, RelayAction::Skip),
        RelayState::Open => match event {
            RelayEvent::Received(f) => {
                if is_forwarded(f.kind) {
                    (RelayState::Open, RelayAction::Send(f))
                } else {
                    (RelayState::Open, RelayAction::Skip)
                }
            },
            RelayEvent::Closed => (RelayState::Done, RelayAction::Finish),
            RelayEvent::Failed => (RelayState::Done, RelayAction::Abort),
        },
    }
}

/// A text or binary frame is echoed as it came, and the relay reads on; a
/// ping, pong or close frame is never written back.
pub proof fn law_data_frames_echoed(f: Frame)
    ensures
        forwards(f.kind) ==> relay_next(RelayState::Open, RelayEvent::Received(f)) == (
        RelayState::Open, RelayAction::Send(f)),
        !forwards(f.kind) ==> relay_next(RelayState::Open, RelayEvent::Received(f)).1
            == RelayAction::Skip,
        relay_next(RelayState::Open, RelayEvent::Received(f)).0 == RelayState::Open,
{
}

/// Once the peer closes or an error comes, the relay is done and writes
/// nothing more, whatever follows.
pub proof fn law_end_is_final(s: RelayState, end: RelayEvent, later: RelayEvent)
    requires
        end == RelayEvent::Closed || end == RelayEvent::Failed,
    ensures
        relay_next(s, end).0 == RelayState::Done,
        relay_next(relay_next(s, end).0, later) == (RelayState::Done, RelayAction::Skip),
{
}

} // verus!
