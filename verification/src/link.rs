use crate::proto::Msg;
use crate::text::{decimal, decimal_digits};
use vstd::prelude::*;
use vstd::utf8::encode_utf8_decode_utf8;
use vstd::string::StringSliceAdditionalSpecFns;

verus! {

// ---------------------------------------------------------------------------
// PIN comparison
// ---------------------------------------------------------------------------

/// Whether two strings are equal, comparing every byte whatever the earlier bytes
/// were, so that the time taken tells nothing about where they differ.
pub fn constant_eq(a: &str, b: &str) -> (eq: bool)
    ensures
        eq == (a@ == b@),
{
    let x = a.as_bytes();
    let y = b.as_bytes();
    proof {
        encode_utf8_decode_utf8(a@);
        encode_utf8_decode_utf8(b@);
    }
    if x.len() != y.len() {
        return false;
    }
    let n = x.len();
    let mut acc: u8 = 0;
    for i in 0..n
        invariant
            n == x@.len(),
            n == y@.len(),
            acc == 0 <==> forall|j: int| 0 <= j < i ==> x@[j] == y@[j],
    {
        let p = x[i];
        let q = y[i];
        let next = acc | (p ^ q);
        assert(next == 0 <==> (acc == 0 && p == q)) by (bit_vector)
            requires
                next == acc | (p ^ q),
        ;
        acc = next;
    }
    if acc == 0 {
        assert(x@ == y@);
    }
    acc == 0
}


// ---------------------------------------------------------------------------
// One phone connection
// ---------------------------------------------------------------------------

/// Where a connection stands.
#[derive(Debug, Clone, Copy, PartialEq, Eq, Structural)]
pub enum Phase {
    /// The WebSocket handshake is done; the first frame has not yet been read.
    Handshaking,
    /// The `welcome` reply is on its way; `accepted` tells whether the PIN matched.
    Greeting { accepted: bool },
    /// Authenticated: frames are relayed both ways.
    Relaying,
    /// The connection is over; nothing more happens on it.
    Closed,
}

/// A frame, or the end of the stream, from the phone.
pub enum Inbound {
    /// A text frame: the message it held, or why it did not parse.
    Text(Result<Msg, String>),
    /// A ping frame with its payload.
    Ping(Vec<u8>),
    /// Any other frame.
    Other,
    /// An error on the stream, or its end.
    Ended,
}

/// What the outgoing queue handed over.
pub enum Outbound {
    /// A message for the phone.
    Ready(Msg),
    /// This many messages were skipped because the connection fell behind.
    Lagged(u64),
    /// The queue is closed.
    Closed,
}

/// What happened on a connection.
pub enum LinkEvent {
    /// The WebSocket handshake failed, with the error's text.
    HandshakeFailed(String),
    /// The first frame, read with a time limit: the message, where it was a text
    /// frame that parsed, else `None` (timeout, end of stream, other frame, bad JSON).
    FirstFrame(Option<Msg>),
    /// Whether the last `Send` reached the socket.
    Delivered(bool),
    /// Something arrived from the phone.
    Inbound(Inbound),
    /// Something arrived from the outgoing queue.
    Outbound(Outbound),
}

/// What the connection asks its runner to do, in order.
pub enum LinkAction {
    /// Send the message as a JSON text frame, then report `Delivered`.
    Send(Msg),
    /// Answer a ping with a pong frame carrying the same payload.
    SendPong(Vec<u8>),
    /// Show a line in the log.
    Log(String),
    /// Tell the interface that this peer is now the connected phone.
    Connected(String),
    /// Tell the interface that the phone went away.
    Disconnected,
    /// Put the text on the clipboard.
    SetClipboardText(String),
    /// Store the image (base64 `data`) and put it on the clipboard.
    SaveImage { name: String, mime: String, data: String },
}

/// A connection with a phone: its phase, the PIN it expects and the peer's address.
pub struct Link {
    pub phase: Phase,
    pub pin: String,
    pub peer: String,
}

/// Whether the first frame is a `hello` whose PIN is `pin`.
pub open spec fn hello_accepted(first: Option<Msg>, pin: Seq<char>) -> bool {
    first matches Some(Msg::Hello { pin: got, .. }) && got@ == pin
}

/// The phase after an event.
pub open spec fn next_phase(phase: Phase, pin: Seq<char>, e: LinkEvent) -> Phase {
    match phase {
        Phase::Handshaking => match e {
            LinkEvent::HandshakeFailed(_) => Phase::Closed,
            LinkEvent::FirstFrame(first) => Phase::Greeting { accepted: hello_accepted(first, pin) },
            _ => phase,
        },
        Phase::Greeting { accepted } => match e {
            LinkEvent::Delivered(sent) => if sent && accepted {
                Phase::Relaying
            } else {
                Phase::Closed
            },
            _ => phase,
        },
        Phase::Relaying => match e {
            LinkEvent::Inbound(Inbound::Ended) => Phase::Closed,
            LinkEvent::Outbound(Outbound::Closed) => Phase::Closed,
            LinkEvent::Delivered(false) => Phase::Closed,
            _ => phase,
        },
        Phase::Closed => phase,
    }
}

/// A log action whose line is `line`.
pub open spec fn is_log(a: LinkAction, line: Seq<char>) -> bool {
    a matches LinkAction::Log(s) && s@ == line
}

/// The actions for a message from an authenticated phone: a text goes to the
/// clipboard and the log, an image is stored, anything else is ignored.
pub open spec fn inbound_actions(msg: Msg, acts: Seq<LinkAction>) -> bool {
    match msg {
        Msg::Text { body, .. } => {
            &&& acts.len() == 2
            &&& acts[0] matches LinkAction::SetClipboardText(t) && t == body
            &&& is_log(acts[1], "phone ▸ "@ + body@)
        },
        Msg::Img { name, mime, data, .. } => {
            &&& acts.len() == 1
            &&& acts[0] matches LinkAction::SaveImage { name: n, mime: m, data: d }
            &&& n == name && m == mime && d == data
        },
        _ => acts.len() == 0,
    }
}

/// The `welcome` reply for a verdict on the PIN.
pub open spec fn is_welcome(m: Msg, ok: bool) -> bool {
    m matches Msg::Welcome { ok: o, err } && o == ok && if ok {
        err is None
    } else {
        err matches Some(t) && t@ == "bad PIN"@
    }
}

/// The actions an event asks for in a phase.
pub open spec fn actions_for(
    phase: Phase,
    pin: Seq<char>,
    peer: Seq<char>,
    e: LinkEvent,
    acts: Seq<LinkAction>,
) -> bool {
    match phase {
        Phase::Handshaking => match e {
            LinkEvent::HandshakeFailed(err) => acts.len() == 1 && is_log(
                acts[0],
                "handshake failed "@ + peer + ": "@ + err@,
            ),
            LinkEvent::FirstFrame(first) => acts.len() == 1 && (acts[0] matches LinkAction::Send(m)
                && is_welcome(m, hello_accepted(first, pin))),
            _ => acts.len() == 0,
        },
        Phase::Greeting { accepted } => match e {
            LinkEvent::Delivered(sent) => if !sent {
                acts.len() == 0
            } else if !accepted {
                acts.len() == 1 && is_log(acts[0], "✗ rejected "@ + peer + " (bad PIN)"@)
            } else {
                acts.len() == 1 && (acts[0] matches LinkAction::Connected(p) && p@ == peer)
            },
            _ => acts.len() == 0,
        },
        Phase::Relaying => match e {
            LinkEvent::Inbound(Inbound::Text(Ok(msg))) => inbound_actions(msg, acts),
            LinkEvent::Inbound(Inbound::Text(Err(why))) => acts.len() == 1 && is_log(
                acts[0],
                "bad msg: "@ + why@,
            ),
            LinkEvent::Inbound(Inbound::Ping(payload)) => acts.len() == 1
                && (acts[0] matches LinkAction::SendPong(p) && p == payload),
            LinkEvent::Inbound(Inbound::Ended) => acts.len() == 1
                && acts[0] is Disconnected,
            LinkEvent::Outbound(Outbound::Ready(m)) => acts.len() == 1
                && (acts[0] matches LinkAction::Send(x) && x == m),
            LinkEvent::Outbound(Outbound::Lagged(n)) => acts.len() == 1 && is_log(
                acts[0],
                "slow consumer, dropped "@ + decimal_digits(n as nat),
            ),
            _ => acts.len() == 0,
        },
        Phase::Closed => acts.len() == 0,
    }
}

impl Link {
    /// A connection whose WebSocket handshake is under way.
    pub fn new(pin: String, peer: String) -> (l: Link)
        ensures
            l.phase == Phase::Handshaking,
            l.pin == pin,
            l.peer == peer,
    {
        Link { phase: Phase::Handshaking, pin, peer }
    }

    /// Takes in one event: moves to the next phase and says what to do.
    pub fn step(&mut self, e: LinkEvent) -> (acts: Vec<LinkAction>)
        ensures
            final(self).pin == old(self).pin,
            final(self).peer == old(self).peer,
            final(self).phase == next_phase(old(self).phase, old(self).pin@, e),
            actions_for(old(self).phase, old(self).pin@, old(self).peer@, e, acts@),
    {
        let mut acts: Vec<LinkAction> = Vec::new();
        match self.phase {
            Phase::Handshaking => match e {
                LinkEvent::HandshakeFailed(err) => {
                    let mut line = String::from_str("handshake failed ");
                    line.append(self.peer.as_str());
                    line.append(": ");
                    line.append(err.as_str());
                    acts.push(LinkAction::Log(line));
                    self.phase = Phase::Closed;
                },
                LinkEvent::FirstFrame(first) => {
                    let ok = match &first {
                        Some(Msg::Hello { pin: got, .. }) => constant_eq(got.as_str(), self.pin.as_str()),
                        _ => false,
                    };
                    let err = if ok {
                        None
                    } else {
                        Some(String::from_str("bad PIN"))
                    };
                    acts.push(LinkAction::Send(Msg::Welcome { ok, err }));
                    self.phase = Phase::Greeting { accepted: ok };
                },
                _ => {},
            },
            Phase::Greeting { accepted } => match e {
                LinkEvent::Delivered(sent) => {
                    if !sent {
                        self.phase = Phase::Closed;
                    } else if !accepted {
                        let mut line = String::from_str("✗ rejected ");
                        line.append(self.peer.as_str());
                        line.append(" (bad PIN)");
                        acts.push(LinkAction::Log(line));
                        self.phase = Phase::Closed;
                    } else {
                        acts.push(LinkAction::Connected(self.peer.clone()));
                        self.phase = Phase::Relaying;
                    }
                },
                _ => {},
            },
            Phase::Relaying => match e {
                LinkEvent::Inbound(inbound) => match inbound {
                    Inbound::Text(Ok(msg)) => {
                        acts = inbound_actions_for(msg);
                    },
                    Inbound::Text(Err(why)) => {
                        let mut line = String::from_str("bad msg: ");
                        line.append(why.as_str());
                        acts.push(LinkAction::Log(line));
                    },
                    Inbound::Ping(payload) => {
                        acts.push(LinkAction::SendPong(payload));
                    },
                    Inbound::Other => {},
                    Inbound::Ended => {
                        acts.push(LinkAction::Disconnected);
                        self.phase = Phase::Closed;
                    },
                },
                LinkEvent::Outbound(outbound) => match outbound {
                    Outbound::Ready(m) => {
                        acts.push(LinkAction::Send(m));
                    },
                    Outbound::Lagged(n) => {
                        let mut line = String::from_str("slow consumer, dropped ");
                        line.append(decimal(n).as_str());
                        acts.push(LinkAction::Log(line));
                    },
                    Outbound::Closed => {
                        self.phase = Phase::Closed;
                    },
                },
                LinkEvent::Delivered(sent) => {
                    if !sent {
                        self.phase = Phase::Closed;
                    }
                },
                _ => {},
            },
            Phase::Closed => {},
        }
        acts
    }
}

/// What to do with a message from an authenticated phone: a text
/// goes to the clipboard and the log, an image is handed on to be stored, and every
/// other message is accepted and ignored.
pub fn inbound_actions_for(msg: Msg) -> (acts: Vec<LinkAction>)
    ensures
        inbound_actions(msg, acts@),
        msg matches Msg::Text { body, .. } ==> (acts@.len() >= 1 && (acts@[0] matches LinkAction::SetClipboardText(t)
            && t@ == body@)),
{
    let mut acts: Vec<LinkAction> = Vec::new();
    match msg {
        Msg::Text { body, .. } => {
            let mut line = String::from_str("phone ▸ ");
            line.append(body.as_str());
            acts.push(LinkAction::SetClipboardText(body));
            acts.push(LinkAction::Log(line));
        },
        Msg::Img { name, mime, data, .. } => {
            acts.push(LinkAction::SaveImage { name, mime, data });
        },
        _ => {},
    }
    acts
}


// ---------------------------------------------------------------------------
// Laws of a connection
// ---------------------------------------------------------------------------

/// The phase after a sequence of events, from `start`.
pub open spec fn phase_after(start: Phase, pin: Seq<char>, events: Seq<LinkEvent>) -> Phase
    decreases events.len(),
{
    if events.len() == 0 {
        start
    } else {
        next_phase(phase_after(start, pin, events.drop_last()), pin, events.last())
    }
}

/// Whether event `i` is a first frame with the right PIN, read while the
/// connection was still waiting for it.
pub open spec fn pin_checked_at(pin: Seq<char>, events: Seq<LinkEvent>, i: int) -> bool {
    &&& 0 <= i < events.len()
    &&& phase_after(Phase::Handshaking, pin, events.take(i)) == Phase::Handshaking
    &&& events[i] matches LinkEvent::FirstFrame(first) && hello_accepted(first, pin)
}

proof fn lemma_accepted_has_witness(pin: Seq<char>, events: Seq<LinkEvent>)
    requires
        phase_after(Phase::Handshaking, pin, events) == Phase::Relaying
            || phase_after(Phase::Handshaking, pin, events) == (Phase::Greeting { accepted: true }),
    ensures
        exists|i: int| pin_checked_at(pin, events, i),
    decreases events.len(),
{
    let n = events.len();
    let before = events.drop_last();
    let p = phase_after(Phase::Handshaking, pin, before);
    if p == Phase::Relaying || p == (Phase::Greeting { accepted: true }) {
        lemma_accepted_has_witness(pin, before);
        let i = choose|i: int| pin_checked_at(pin, before, i);
        assert(before.take(i) == events.take(i));
        assert(before[i] == events[i]);
        assert(pin_checked_at(pin, events, i));
    } else {
        assert(p == Phase::Handshaking);
        assert(before == events.take(n - 1));
        assert(pin_checked_at(pin, events, n - 1));
    }
}

/// Authentication: a connection relays messages only after a first frame that is a
/// `hello` carrying the expected PIN, read while the connection waited for it.
pub proof fn law_relaying_needs_pin(pin: Seq<char>, events: Seq<LinkEvent>)
    requires
        phase_after(Phase::Handshaking, pin, events) == Phase::Relaying,
    ensures
        exists|i: int| pin_checked_at(pin, events, i),
{
    lemma_accepted_has_witness(pin, events);
}

proof fn lemma_phase_after_append(start: Phase, pin: Seq<char>, a: Seq<LinkEvent>, b: Seq<LinkEvent>)
    ensures
        phase_after(start, pin, a + b) == phase_after(phase_after(start, pin, a), pin, b),
    decreases b.len(),
{
    if b.len() == 0 {
        assert(a + b == a);
    } else {
        lemma_phase_after_append(start, pin, a, b.drop_last());
        assert((a + b).drop_last() == a + b.drop_last());
        assert((a + b).last() == b.last());
    }
}

proof fn lemma_rejected_stays_out(pin: Seq<char>, events: Seq<LinkEvent>)
    ensures
        phase_after(Phase::Greeting { accepted: false }, pin, events) == (Phase::Greeting {
            accepted: false,
        }) || phase_after(Phase::Greeting { accepted: false }, pin, events) == Phase::Closed,
    decreases events.len(),
{
    if events.len() > 0 {
        lemma_rejected_stays_out(pin, events.drop_last());
    }
}

/// A wrong PIN: when the first frame is not a `hello` with the expected PIN, the
/// connection never relays, whatever follows.
pub proof fn law_rejected_pin_never_relays(pin: Seq<char>, first: Option<Msg>, rest: Seq<LinkEvent>)
    requires
        !hello_accepted(first, pin),
    ensures
        phase_after(Phase::Handshaking, pin, seq![LinkEvent::FirstFrame(first)] + rest)
            != Phase::Relaying,
{
    let head = seq![LinkEvent::FirstFrame(first)];
    lemma_phase_after_append(Phase::Handshaking, pin, head, rest);
    assert(head.drop_last() == Seq::<LinkEvent>::empty());
    assert(phase_after(Phase::Handshaking, pin, head.drop_last()) == Phase::Handshaking);
    assert(head.last() == LinkEvent::FirstFrame(first));
    assert(phase_after(Phase::Handshaking, pin, head) == (Phase::Greeting { accepted: false }));
    lemma_rejected_stays_out(pin, rest);
}

/// A message from an authenticated phone is handed on whole: a text's body goes to
/// the clipboard unchanged, whatever its length, and is logged after `"phone ▸ "`;
/// a picture goes to be stored with its name, MIME type and data unchanged; any
/// other message asks for nothing. This is what `inbound_actions_for` returns and
/// what a relaying connection asks for when such a message arrives.
pub proof fn law_phone_messages_handed_on_whole(
    pin: Seq<char>,
    peer: Seq<char>,
    msg: Msg,
    acts: Seq<LinkAction>,
)
    requires
        inbound_actions(msg, acts) || actions_for(
            Phase::Relaying,
            pin,
            peer,
            LinkEvent::Inbound(Inbound::Text(Ok(msg))),
            acts,
        ),
    ensures
        msg matches Msg::Text { body, .. } ==> {
            &&& acts.len() == 2
            &&& acts[0] matches LinkAction::SetClipboardText(t) && t@ == body@
            &&& acts[1] matches LinkAction::Log(l) && l@ == "phone ▸ "@ + body@
        },
        msg matches Msg::Img { name, mime, data, .. } ==> {
            &&& acts.len() == 1
            &&& acts[0] matches LinkAction::SaveImage { name: n, mime: m, data: d }
            &&& n@ == name@ && m@ == mime@ && d@ == data@
        },
        !(msg is Text || msg is Img) ==> acts.len() == 0,
{
}

/// A closed connection stays closed and asks for nothing, whatever happens.
pub proof fn law_closed_is_final(pin: Seq<char>, peer: Seq<char>, e: LinkEvent, acts: Seq<LinkAction>, events: Seq<LinkEvent>)
    ensures
        next_phase(Phase::Closed, pin, e) == Phase::Closed,
        actions_for(Phase::Closed, pin, peer, e, acts) <==> acts.len() == 0,
        phase_after(Phase::Closed, pin, events) == Phase::Closed,
    decreases events.len(),
{
    if events.len() > 0 {
        law_closed_is_final(pin, peer, e, acts, events.drop_last());
    }
}

/// Before authentication nothing from the phone or the outgoing queue is acted on:
/// such events leave the phase as it is and ask for nothing.
pub proof fn law_nothing_relayed_before_auth(phase: Phase, pin: Seq<char>, peer: Seq<char>, e: LinkEvent, acts: Seq<LinkAction>)
    requires
        phase != Phase::Relaying,
        e is Inbound || e is Outbound,
    ensures
        next_phase(phase, pin, e) == phase,
        actions_for(phase, pin, peer, e, acts) <==> acts.len() == 0,
{
}

/// The first frame is always answered by exactly one `welcome`, which says whether
/// the PIN matched and, when it did not, gives the reason `"bad PIN"`.
pub proof fn law_first_frame_answered(pin: Seq<char>, peer: Seq<char>, first: Option<Msg>, acts: Seq<LinkAction>)
    requires
        actions_for(Phase::Handshaking, pin, peer, LinkEvent::FirstFrame(first), acts),
    ensures
        acts.len() == 1,
        acts[0] matches LinkAction::Send(m) && is_welcome(m, hello_accepted(first, pin)),
        next_phase(Phase::Handshaking, pin, LinkEvent::FirstFrame(first)) == (Phase::Greeting {
            accepted: hello_accepted(first, pin),
        }),
{
}

} // verus!
