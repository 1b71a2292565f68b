use vstd::prelude::*;
use vstd::string::StringExecFns;
use crate::decoder::{DecodedLine, LineView, decode_line, decode_spec};
use crate::passing::{MessageView, WsMessage, status_view};

verus! {

/// Seconds to wait after a failed connection attempt before the next one.
pub const RECONNECT_DELAY_SECS: u64 = 5;

/// Seconds between two keepalive frames while streaming.
pub const PING_INTERVAL_SECS: u64 = 30;

/// Where the decoder session stands.
#[derive(PartialEq, Eq, Structural, Clone, Copy, Debug)]
pub enum Phase {
    /// A connection attempt is pending.
    Connecting,
    /// The handshake was sent and lines are read.
    Streaming,
}

/// What happened outside since the last step.
pub enum SessionEvent {
    ConnectSucceeded,
    ConnectFailed,
    /// One line read from the device, without its line break.
    LineReceived(String),
    /// The keepalive timer fired.
    PingDue,
    /// A read error, or the device closed the connection.
    ConnectionLost,
}

pub ghost enum EventView {
    ConnectSucceeded,
    ConnectFailed,
    LineReceived(Seq<char>),
    PingDue,
    ConnectionLost,
}

impl View for SessionEvent {
    type V = EventView;

    open spec fn view(&self) -> EventView {
        match self {
            SessionEvent::ConnectSucceeded => EventView::ConnectSucceeded,
            SessionEvent::ConnectFailed => EventView::ConnectFailed,
            SessionEvent::LineReceived(l) => EventView::LineReceived(l@),
            SessionEvent::PingDue => EventView::PingDue,
            SessionEvent::ConnectionLost => EventView::ConnectionLost,
        }
    }
}

/// What the session asks its runner to do, in order.
pub enum SessionAction {
    /// Open a connection to the device.
    Connect,
    /// Wait this many seconds.
    Sleep(u64),
    /// Write this frame to the device.
    Send(String),
    /// Hand this message to the hub.
    Publish(WsMessage),
    /// Report this line as a malformed passing.
    LogRejected(String),
}

pub ghost enum ActionView {
    Connect,
    Sleep(nat),
    Send(Seq<char>),
    Publish(MessageView),
    LogRejected(Seq<char>),
}

impl View for SessionAction {
    type V = ActionView;

    open spec fn view(&self) -> ActionView {
        match self {
            SessionAction::Connect => ActionView::Connect,
            SessionAction::Sleep(s) => ActionView::Sleep(*s as nat),
            SessionAction::Send(f) => ActionView::Send(f@),
            SessionAction::Publish(m) => ActionView::Publish(m@),
            SessionAction::LogRejected(l) => ActionView::LogRejected(l@),
        }
    }
}

pub open spec fn action_views(v: Seq<SessionAction>) -> Seq<ActionView> {
    v.map_values(|a: SessionAction| a@)
}

/// The session's state: its phase and whether a source counts as attached.
pub struct DecoderSession {
    pub phase: Phase,
    pub connected: bool,
}

/// The frames sent right after connecting.
pub open spec fn handshake() -> Seq<ActionView> {
    seq![
        ActionView::Send("SETPROTOCOL;2.0"@),
        ActionView::Send("SETPUSHPASSINGS;1;1"@),
    ]
}

/// On leaving a connection: a disconnected status only when a source was attached.
pub open spec fn detach_actions(connected: bool) -> Seq<ActionView> {
    if connected {
        seq![ActionView::Publish(status_view(false))]
    } else {
        Seq::<ActionView>::empty()
    }
}

/// What one decoded line asks for.
pub open spec fn line_actions(line: Seq<char>) -> Seq<ActionView> {
    match decode_spec(line) {
        LineView::Passing(p) => seq![ActionView::Publish(MessageView::Passing(p))],
        LineView::Rejected => seq![ActionView::LogRejected(line)],
        LineView::Ignored => Seq::<ActionView>::empty(),
    }
}

/// The next phase, connectivity and actions for an event.
pub open spec fn step_spec(phase: Phase, connected: bool, ev: EventView) -> (Phase, bool, Seq<ActionView>) {
    match (phase, ev) {
        (Phase::Connecting, EventView::ConnectSucceeded) => (
            Phase::Streaming,
            true,
            seq![ActionView::Publish(status_view(true))] + handshake(),
        ),
        (Phase::Connecting, EventView::ConnectFailed) => (
            Phase::Connecting,
            false,
            detach_actions(connected) + seq![
                ActionView::Sleep(RECONNECT_DELAY_SECS as nat),
                ActionView::Connect,
            ],
        ),
        (Phase::Streaming, EventView::LineReceived(l)) => (Phase::Streaming, connected, line_actions(l)),
        (Phase::Streaming, EventView::PingDue) => (
            Phase::Streaming,
            connected,
            seq![ActionView::Send("PING"@)],
        ),
        (Phase::Streaming, EventView::ConnectionLost) => (
            Phase::Connecting,
            false,
            detach_actions(connected) + seq![ActionView::Connect],
        ),
        _ => (phase, connected, Seq::<ActionView>::empty()),
    }
}

/// How many disconnected statuses a run of actions publishes.
pub open spec fn disconnect_count(acts: Seq<ActionView>) -> nat
    decreases acts.len(),
{
    if acts.len() == 0 {
        0
    } else {
        disconnect_count(acts.drop_last()) + if acts.last() == ActionView::Publish(status_view(false)) {
            1nat
        } else {
            0nat
        }
    }
}

/// An event by which the session leaves (or fails to reach) a connection.
pub open spec fn is_disconnect_signal(ev: EventView) -> bool {
    ev is ConnectFailed || ev is ConnectionLost
}

proof fn lemma_disconnect_count_append(a: Seq<ActionView>, b: Seq<ActionView>)
    ensures
        disconnect_count(a + b) == disconnect_count(a) + disconnect_count(b),
    decreases b.len(),
{
    if b.len() > 0 {
        lemma_disconnect_count_append(a, b.drop_last());
        assert((a + b).drop_last() =~= a + b.drop_last());
    }
}

/// Two disconnect signals in a row, with no connection in between, publish
/// at most one disconnected status between them.
pub proof fn lemma_disconnect_idempotent(phase: Phase, connected: bool, e1: EventView, e2: EventView)
    requires
        is_disconnect_signal(e1),
        is_disconnect_signal(e2),
    ensures
        ({
            let (p1, c1, a1) = step_spec(phase, connected, e1);
            let (p2, c2, a2) = step_spec(p1, c1, e2);
            disconnect_count(a1 + a2) <= 1
        }),
{
    let (p1, c1, a1) = step_spec(phase, connected, e1);
    let (p2, c2, a2) = step_spec(p1, c1, e2);
    assert(disconnect_count(Seq::<ActionView>::empty()) == 0);
    lemma_disconnect_count_append(a1, a2);
    let tail_failed = seq![ActionView::Sleep(RECONNECT_DELAY_SECS as nat), ActionView::Connect];
    let tail_lost = seq![ActionView::Connect];
    assert(status_view(false) != status_view(true)) by {
        assert(crate::passing::connected_text().len() != crate::passing::disconnected_text().len());
    };
    lemma_disconnect_count_append(detach_actions(connected), tail_failed);
    lemma_disconnect_count_append(detach_actions(connected), tail_lost);
    lemma_disconnect_count_append(detach_actions(false), tail_failed);
    lemma_disconnect_count_append(detach_actions(false), tail_lost);
    reveal_with_fuel(disconnect_count, 3);
    assert(disconnect_count(tail_failed) == 0);
    assert(disconnect_count(tail_lost) == 0);
    assert(disconnect_count(detach_actions(false)) == 0);
    assert(disconnect_count(detach_actions(true)) == 1);
}

impl DecoderSession {
    /// A session that is about to make its first connection attempt, with no
    /// source attached.
    pub fn new() -> (r: DecoderSession)
        ensures
            r.phase == Phase::Connecting,
            !r.connected,
    {
        DecoderSession { phase: Phase::Connecting, connected: false }
    }

    fn detach(&mut self, acts: &mut Vec<SessionAction>)
        ensures
            !final(self).connected,
            final(self).phase == old(self).phase,
            action_views(final(acts)@) == action_views(old(acts)@) + detach_actions(old(self).connected),
    {
        let ghost before = action_views(acts@);
        if self.connected {
            self.connected = false;
            acts.push(SessionAction::Publish(WsMessage::status(false)));
        }
        assert(action_views(acts@) =~= before + detach_actions(old(self).connected));
    }

    /// Takes one event and returns what to do, in order.
    pub fn step(&mut self, ev: SessionEvent) -> (r: Vec<SessionAction>)
        ensures
            (final(self).phase, final(self).connected, action_views(r@))
                == step_spec(old(self).phase, old(self).connected, ev@),
    {
        let mut acts: Vec<SessionAction> = Vec::new();
        match (self.phase, ev) {
            (Phase::Connecting, SessionEvent::ConnectSucceeded) => {
                self.phase = Phase::Streaming;
                self.connected = true;
                acts.push(SessionAction::Publish(WsMessage::status(true)));
                acts.push(SessionAction::Send(String::from_str("SETPROTOCOL;2.0")));
                acts.push(SessionAction::Send(String::from_str("SETPUSHPASSINGS;1;1")));
                assert(action_views(acts@) =~= seq![ActionView::Publish(status_view(true))] + handshake());
            },
            (Phase::Connecting, SessionEvent::ConnectFailed) => {
                self.detach(&mut acts);
                let ghost mid = action_views(acts@);
                acts.push(SessionAction::Sleep(RECONNECT_DELAY_SECS));
                acts.push(SessionAction::Connect);
                assert(action_views(acts@) =~= mid + seq![
                    ActionView::Sleep(RECONNECT_DELAY_SECS as nat),
                    ActionView::Connect,
                ]);
                assert(action_views(acts@) =~= detach_actions(old(self).connected) + seq![
                    ActionView::Sleep(RECONNECT_DELAY_SECS as nat),
                    ActionView::Connect,
                ]);
            },
            (Phase::Streaming, SessionEvent::LineReceived(line)) => {
                match decode_line(line.as_str()) {
                    DecodedLine::Passing(p) => {
                        acts.push(SessionAction::Publish(WsMessage::Passing(p)));
                    },
                    DecodedLine::Rejected => {
                        acts.push(SessionAction::LogRejected(line));
                    },
                    DecodedLine::Ignored => {},
                }
                assert(action_views(acts@) =~= line_actions(ev@->LineReceived_0));
            },
            (Phase::Streaming, SessionEvent::PingDue) => {
                acts.push(SessionAction::Send(String::from_str("PING")));
                assert(action_views(acts@) =~= seq![ActionView::Send("PING"@)]);
            },
            (Phase::Streaming, SessionEvent::ConnectionLost) => {
                self.phase = Phase::Connecting;
                self.detach(&mut acts);
                let ghost mid = action_views(acts@);
                acts.push(SessionAction::Connect);
                assert(action_views(acts@) =~= mid + seq![ActionView::Connect]);
                assert(action_views(acts@) =~= detach_actions(old(self).connected) + seq![ActionView::Connect]);
            },
            _ => {
                assert(action_views(acts@) =~= Seq::<ActionView>::empty());
            },
        }
        acts
    }
}

} // verus!
