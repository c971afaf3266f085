use crate::clip::{base64_round_trip, base64_encode, base64_encoding, ClipGet};
use crate::proto::Msg;
use crate::text::{
    decimal, decimal_digits, first_chars, has_prefix, push_char, same_text, starts_with, trim,
    trimmed, views,
};
use std::collections::VecDeque;
use vstd::prelude::*;

verus! {

/// How many log lines are kept; older ones are dropped.
pub const LOG_CAPACITY: usize = 400;

/// The last `n` items of `q` (all of them where there are fewer).
pub open spec fn keep_last<A>(q: Seq<A>, n: nat) -> Seq<A> {
    if q.len() > n {
        q.skip(q.len() - n)
    } else {
        q
    }
}

/// What the terminal interface holds: the connected phone, the log, the line being
/// typed and whether the QR panel is shown.
pub struct State {
    pub phone: Option<String>,
    pub log: VecDeque<String>,
    pub input: String,
    pub show_qr: bool,
}

/// `State` as values.
pub struct StateView {
    pub phone: Option<Seq<char>>,
    pub log: Seq<Seq<char>>,
    pub input: Seq<char>,
    pub show_qr: bool,
}

impl View for State {
    type V = StateView;

    open spec fn view(&self) -> StateView {
        StateView {
            phone: match self.phone {
                Some(p) => Some(p@),
                None => None,
            },
            log: views(self.log@),
            input: self.input@,
            show_qr: self.show_qr,
        }
    }
}

impl StateView {
    /// The state with `line` added to the log, keeping the last `LOG_CAPACITY` lines.
    pub open spec fn logged(self, line: Seq<char>) -> StateView {
        StateView { log: keep_last(self.log.push(line), LOG_CAPACITY as nat), ..self }
    }
}

proof fn lemma_views_keep_last(q: Seq<String>, s: String)
    ensures
        views(keep_last(q.push(s), LOG_CAPACITY as nat)) == keep_last(
            views(q).push(s@),
            LOG_CAPACITY as nat,
        ),
{
    let a = views(keep_last(q.push(s), LOG_CAPACITY as nat));
    let b = keep_last(views(q).push(s@), LOG_CAPACITY as nat);
    assert(views(q.push(s)) == views(q).push(s@));
    assert(a == b);
}

impl State {
    /// The state the interface starts in: no phone, an empty log and input, the QR
    /// panel shown.
    pub fn new() -> (st: State)
        ensures
            st@.phone is None,
            st@.log.len() == 0,
            st@.input.len() == 0,
            st@.show_qr,
    {
        let st = State { phone: None, log: VecDeque::new(), input: String::new(), show_qr: true };
        assert(views(st.log@) == Seq::<Seq<char>>::empty());
        st
    }

    /// Adds a line to the log, dropping the oldest lines beyond `LOG_CAPACITY`.
    pub fn log(&mut self, s: String)
        ensures
            final(self).log@ == keep_last(old(self).log@.push(s), LOG_CAPACITY as nat),
            final(self).phone == old(self).phone,
            final(self).input == old(self).input,
            final(self).show_qr == old(self).show_qr,
            final(self)@ == old(self)@.logged(s@),
    {
        proof {
            lemma_views_keep_last(self.log@, s);
        }
        self.log.push_back(s);
        let ghost full = self.log@;
        let ghost k: int = 0;
        while self.log.len() > LOG_CAPACITY
            invariant
                0 <= k <= full.len(),
                self.log@ == full.skip(k),
                k > 0 ==> self.log@.len() >= LOG_CAPACITY,
                self.phone == old(self).phone,
                self.input == old(self).input,
                self.show_qr == old(self).show_qr,
            decreases self.log@.len(),
        {
            self.log.pop_front();
            proof {
                k = k + 1;
            }
            assert(self.log@ == full.skip(k));
        }
        proof {
            if k == 0 {
                assert(full.skip(0) == full);
            }
        }
    }
}


// ---------------------------------------------------------------------------
// Keys
// ---------------------------------------------------------------------------

/// A key press in the terminal.
pub enum Key {
    /// A character key; `ctrl` tells whether Control was held.
    Char { c: char, ctrl: bool },
    Enter,
    Backspace,
    Esc,
    /// Any other key.
    Other,
}

/// What a key press asks of the program.
pub enum KeyOutcome {
    /// Leave the program.
    Quit,
    /// Send this text to the phone.
    Send(String),
    /// Read the laptop's clipboard and send it to the phone.
    PushClipboard,
    /// Nothing beyond the change to the state.
    Nothing,
}

/// `KeyOutcome` as a value.
pub enum Reaction {
    Quit,
    Send(Seq<char>),
    PushClipboard,
    Nothing,
}

impl View for KeyOutcome {
    type V = Reaction;

    open spec fn view(&self) -> Reaction {
        match self {
            KeyOutcome::Quit => Reaction::Quit,
            KeyOutcome::Send(t) => Reaction::Send(t@),
            KeyOutcome::PushClipboard => Reaction::PushClipboard,
            KeyOutcome::Nothing => Reaction::Nothing,
        }
    }
}

/// The state and reaction after a key press. With an empty input line, `q` and Esc
/// quit, `r` toggles the QR panel and `p` pushes the clipboard; Control-C always
/// quits; Enter sends the trimmed line (and clears it) when a phone is connected;
/// Backspace drops the last character; any other character is typed.
pub open spec fn key_step(s: StateView, key: Key) -> (StateView, Reaction) {
    let empty = s.input.len() == 0;
    match key {
        Key::Char { c, ctrl } => if c == 'c' && ctrl {
            (s, Reaction::Quit)
        } else if c == 'q' && empty {
            (s, Reaction::Quit)
        } else if c == 'r' && empty {
            (StateView { show_qr: !s.show_qr, ..s }, Reaction::Nothing)
        } else if c == 'p' && empty {
            if s.phone is None {
                (s.logged("no phone connected yet"@), Reaction::Nothing)
            } else {
                (s, Reaction::PushClipboard)
            }
        } else {
            (StateView { input: s.input.push(c), ..s }, Reaction::Nothing)
        },
        Key::Esc => if empty {
            (s, Reaction::Quit)
        } else {
            (s, Reaction::Nothing)
        },
        Key::Enter => {
            let body = trimmed(s.input);
            if body.len() == 0 {
                (s, Reaction::Nothing)
            } else {
                let cleared = StateView { input: Seq::empty(), ..s };
                if s.phone is None {
                    (cleared.logged("no phone connected yet"@), Reaction::Nothing)
                } else {
                    (cleared.logged("you ▸ "@ + body), Reaction::Send(body))
                }
            }
        },
        Key::Backspace => if empty {
            (s, Reaction::Nothing)
        } else {
            (StateView { input: s.input.drop_last(), ..s }, Reaction::Nothing)
        },
        Key::Other => (s, Reaction::Nothing),
    }
}

/// `String::pop`: removes the last character, if any, and returns it.
#[verifier::external_body]
fn pop_char(s: &mut String) -> (c: Option<char>)
    ensures
        old(s)@.len() > 0 ==> c == Some(old(s)@.last()) && final(s)@ == old(s)@.drop_last(),
        old(s)@.len() == 0 ==> c is None && final(s)@ == old(s)@,
{
    s.pop()
}

/// The line logged when there is no phone to send to.
fn no_phone_line() -> (line: String)
    ensures
        line@ == "no phone connected yet"@,
{
    String::from_str("no phone connected yet")
}

impl State {
    /// Handles a key press.
    pub fn on_key(&mut self, key: Key) -> (r: KeyOutcome)
        ensures
            (final(self)@, r@) == key_step(old(self)@, key),
    {
        let empty = self.input.as_str().is_empty();
        match key {
            Key::Char { c, ctrl } => {
                if c == 'c' && ctrl {
                    KeyOutcome::Quit
                } else if c == 'q' && empty {
                    KeyOutcome::Quit
                } else if c == 'r' && empty {
                    self.show_qr = !self.show_qr;
                    KeyOutcome::Nothing
                } else if c == 'p' && empty {
                    if self.phone.is_none() {
                        self.log(no_phone_line());
                        KeyOutcome::Nothing
                    } else {
                        KeyOutcome::PushClipboard
                    }
                } else {
                    push_char(&mut self.input, c);
                    KeyOutcome::Nothing
                }
            },
            Key::Esc => {
                if empty {
                    KeyOutcome::Quit
                } else {
                    KeyOutcome::Nothing
                }
            },
            Key::Enter => {
                let body = String::from_str(trim(self.input.as_str()));
                if body.as_str().is_empty() {
                    return KeyOutcome::Nothing;
                }
                self.input = String::new();
                if self.phone.is_none() {
                    self.log(no_phone_line());
                    return KeyOutcome::Nothing;
                }
                let mut line = String::from_str("you ▸ ");
                line.append(body.as_str());
                self.log(line);
                KeyOutcome::Send(body)
            },
            Key::Backspace => {
                pop_char(&mut self.input);
                KeyOutcome::Nothing
            },
            Key::Other => KeyOutcome::Nothing,
        }
    }
}

// ---------------------------------------------------------------------------
// Events from the connections
// ---------------------------------------------------------------------------

/// What a connection tells the interface.
pub enum UiEvent {
    Log(String),
    Connected(String),
    Disconnected,
}

/// The state after an event from a connection: a log line is shown; a connection
/// makes its peer the phone and is logged; a disconnection forgets the phone and is
/// logged if there was one.
pub open spec fn ui_step(s: StateView, ev: UiEvent) -> StateView {
    match ev {
        UiEvent::Log(t) => s.logged(t@),
        UiEvent::Connected(name) => StateView { phone: Some(name@), ..s }.logged(
            "✓ phone connected: "@ + name@,
        ),
        UiEvent::Disconnected => if s.phone is Some {
            StateView { phone: None, ..s }.logged("phone disconnected"@)
        } else {
            s
        },
    }
}

impl State {
    /// Handles an event from a connection.
    pub fn on_ui(&mut self, ev: UiEvent)
        ensures
            final(self)@ == ui_step(old(self)@, ev),
    {
        match ev {
            UiEvent::Log(t) => self.log(t),
            UiEvent::Connected(name) => {
                let mut line = String::from_str("✓ phone connected: ");
                line.append(name.as_str());
                self.phone = Some(name);
                self.log(line);
            },
            UiEvent::Disconnected => {
                if self.phone.is_some() {
                    self.phone = None;
                    self.log(String::from_str("phone disconnected"));
                }
            },
        }
    }
}


// ---------------------------------------------------------------------------
// Laws of the interface
// ---------------------------------------------------------------------------

/// Logging a line puts it last, keeps at most `LOG_CAPACITY` lines, and drops
/// nothing while there is room.
pub proof fn law_logged_line_is_newest(s: StateView, line: Seq<char>)
    ensures
        s.logged(line).log.len() <= LOG_CAPACITY,
        s.logged(line).log.last() == line,
        s.log.len() < LOG_CAPACITY ==> s.logged(line).log == s.log.push(line),
        s.logged(line).phone == s.phone,
        s.logged(line).input == s.input,
        s.logged(line).show_qr == s.show_qr,
{
}

/// The log never holds more than `LOG_CAPACITY` lines, whatever key is pressed and
/// whatever a connection reports.
pub proof fn law_log_stays_bounded(s: StateView, key: Key, ev: UiEvent)
    requires
        s.log.len() <= LOG_CAPACITY,
    ensures
        key_step(s, key).0.log.len() <= LOG_CAPACITY,
        ui_step(s, ev).log.len() <= LOG_CAPACITY,
{
}

/// Only Enter sends text, and only with a phone connected: it sends the trimmed
/// input line, which is then cleared, and the line is logged as sent.
pub proof fn law_enter_sends_typed_line(s: StateView, key: Key)
    ensures
        key_step(s, key).1 is Send ==> {
            &&& key is Enter
            &&& s.phone is Some
            &&& key_step(s, key).1 == Reaction::Send(trimmed(s.input))
            &&& trimmed(s.input).len() > 0
            &&& key_step(s, key).0.input.len() == 0
            &&& key_step(s, key).0.log.last() == "you ▸ "@ + trimmed(s.input)
        },
{
}

/// Pressing `r` twice with nothing typed shows the QR panel as before.
pub proof fn law_qr_toggle_twice(s: StateView)
    requires
        s.input.len() == 0,
    ensures
        key_step(key_step(s, Key::Char { c: 'r', ctrl: false }).0, Key::Char { c: 'r', ctrl: false }).0
            == s,
{
}

// ---------------------------------------------------------------------------
// Headless mode
// ---------------------------------------------------------------------------

/// What to do with a line typed on standard input in headless mode.
pub enum LineOutcome {
    /// A blank line: nothing.
    Ignore,
    /// Print this and send nothing.
    Print(String),
    /// Print `echo` and send `body` to the phone.
    Send { echo: String, body: String },
}

/// A line typed in headless mode: blank lines are ignored; without a phone the
/// line is refused; else its trimmed text is echoed and sent.
pub fn headless_line(line: &str, connected: bool) -> (r: LineOutcome)
    ensures
        trimmed(line@).len() == 0 ==> r is Ignore,
        trimmed(line@).len() > 0 && !connected ==> (r matches LineOutcome::Print(p) && p@
            == "(no phone connected)"@),
        trimmed(line@).len() > 0 && connected ==> (r matches LineOutcome::Send { echo, body }
            && body@ == trimmed(line@) && echo@ == "you ▸ "@ + trimmed(line@)),
{
    let body = trim(line);
    if body.is_empty() {
        return LineOutcome::Ignore;
    }
    if !connected {
        return LineOutcome::Print(String::from_str("(no phone connected)"));
    }
    let mut echo = String::from_str("you ▸ ");
    echo.append(body);
    LineOutcome::Send { echo, body: String::from_str(body) }
}

/// What headless mode prints for an event from a connection, and whether a phone
/// is now connected (`None`: unchanged).
pub fn headless_report(ev: UiEvent) -> (r: (String, Option<bool>))
    ensures
        match ev {
            UiEvent::Log(t) => r.0 == t && r.1 is None,
            UiEvent::Connected(name) => r.0@ == "✓ phone connected: "@ + name@ && r.1 == Some(true),
            UiEvent::Disconnected => r.0@ == "phone disconnected"@ && r.1 == Some(false),
        },
{
    match ev {
        UiEvent::Log(t) => (t, None),
        UiEvent::Connected(name) => {
            let mut line = String::from_str("✓ phone connected: ");
            line.append(name.as_str());
            (line, Some(true))
        },
        UiEvent::Disconnected => (String::from_str("phone disconnected"), Some(false)),
    }
}

/// Whether the command line asks for headless mode (`--headless` anywhere).
pub fn wants_headless(args: &Vec<String>) -> (b: bool)
    ensures
        b == (exists|i: int| 0 <= i < args@.len() && args@[i]@ == "--headless"@),
{
    let n = args.len();
    for i in 0..n
        invariant
            n == args@.len(),
            forall|j: int| 0 <= j < i ==> args@[j]@ != "--headless"@,
    {
        if same_text(args[i].as_str(), "--headless") {
            return true;
        }
    }
    false
}

/// Whether argument `i` is the first that reads `flag`.
pub open spec fn first_flag_at(args: Seq<String>, flag: Seq<char>, i: int) -> bool {
    &&& 0 <= i < args.len()
    &&& args[i]@ == flag
    &&& forall|j: int| 0 <= j < i ==> args[j]@ != flag
}

/// The text that `--send` gives on the command line: the argument after the first
/// `--send`, if there is one.
pub fn send_argument(args: &Vec<String>) -> (r: Option<String>)
    ensures
        match r {
            Some(t) => exists|i: int|
                #[trigger] first_flag_at(args@, "--send"@, i) && i + 1 < args@.len() && t@ == args@[i
                    + 1]@,
            None => forall|i: int| #[trigger] first_flag_at(args@, "--send"@, i) ==> i + 1 == args@.len(),
        },
{
    let n = args.len();
    for i in 0..n
        invariant
            n == args@.len(),
            forall|j: int| 0 <= j < i ==> args@[j]@ != "--send"@,
    {
        if same_text(args[i].as_str(), "--send") {
            assert(first_flag_at(args@, "--send"@, i as int));
            if i + 1 < n {
                return Some(String::from_str(args[i + 1].as_str()));
            } else {
                return None;
            }
        }
    }
    None
}


// ---------------------------------------------------------------------------
// Pushing the laptop's clipboard to the phone
// ---------------------------------------------------------------------------

/// `n`, or 48 where `n` is larger: how many characters of a pushed text are logged.
pub open spec fn preview_len(n: nat) -> int {
    if n <= 48 {
        n as int
    } else {
        48
    }
}

/// What pushing the clipboard's contents gives: the line to log, and the message
/// for the phone (stamped with `id` and `ts`) unless there is nothing to send.
/// Nothing read: `"could not read clipboard"`; blank text or no PNG bytes:
/// `"clipboard empty"`; else a preview of the first 48 characters of a text, or the
/// size in KiB of a picture, which travels as base64 PNG named `clip-<id>.png`
/// that decodes back to the PNG bytes.
pub fn clipboard_push(got: Option<ClipGet>, id: String, ts: u64) -> (r: (String, Option<Msg>))
    requires
        got matches Some(ClipGet::Png { png }) ==> png@.len() <= isize::MAX,
    ensures
        match got {
            None => r.0@ == "could not read clipboard"@ && r.1 is None,
            Some(ClipGet::Text(t)) => if trimmed(t@).len() == 0 {
                r.0@ == "clipboard empty"@ && r.1 is None
            } else {
                &&& r.0@ == "you ▸ [clip] "@ + t@.take(preview_len(t@.len()))
                &&& r.1 matches Some(Msg::Text { id: i, body, ts: s }) && i == id && body == t && s == ts
            },
            Some(ClipGet::Png { png }) => if png@.len() == 0 {
                r.0@ == "clipboard empty"@ && r.1 is None
            } else {
                &&& r.0@ == "you ▸ [image "@ + decimal_digits(png@.len() / 1024) + " KB]"@
                &&& r.1 matches Some(Msg::Img { id: i, name, mime, data, ts: s })
                &&& i == id
                &&& name@ == "clip-"@ + id@ + ".png"@
                &&& mime@ == "image/png"@
                &&& data@ == base64_encoding(png@)
                &&& base64_round_trip(data@, png@)
                &&& s == ts
            },
        },
{
    match got {
        None => (String::from_str("could not read clipboard"), None),
        Some(ClipGet::Text(t)) => {
            if trim(t.as_str()).is_empty() {
                return (String::from_str("clipboard empty"), None);
            }
            let mut line = String::from_str("you ▸ [clip] ");
            line.append(first_chars(t.as_str(), 48).as_str());
            (line, Some(Msg::Text { id, body: t, ts }))
        },
        Some(ClipGet::Png { png }) => {
            if png.len() == 0 {
                return (String::from_str("clipboard empty"), None);
            }
            let mut line = String::from_str("you ▸ [image ");
            line.append(decimal((png.len() / 1024) as u64).as_str());
            line.append(" KB]");
            let mut name = String::from_str("clip-");
            name.append(id.as_str());
            name.append(".png");
            let data = base64_encode(png.as_slice());
            (line, Some(Msg::Img { name, mime: String::from_str("image/png"), data, id, ts }))
        },
    }
}

// ---------------------------------------------------------------------------
// What the screen shows
// ---------------------------------------------------------------------------

/// The port the server listens on.
pub const PORT: u16 = 8787;

/// `ip:8787`.
pub fn host_with_port(ip: &str) -> (s: String)
    ensures
        s@ == ip@ + ":"@ + decimal_digits(PORT as nat),
{
    let mut s = String::from_str(ip);
    s.append(":");
    s.append(decimal(PORT as u64).as_str());
    s
}

/// `ws://ip:8787`, the address the phone connects to.
pub fn ws_address(ip: &str) -> (s: String)
    ensures
        s@ == "ws://"@ + ip@ + ":"@ + decimal_digits(PORT as nat),
{
    let mut s = String::from_str("ws://");
    s.append(host_with_port(ip).as_str());
    s
}

/// The first lines of the terminal interface's log.
pub fn tui_banner(addr: &str, pin: &str) -> (lines: Vec<String>)
    ensures
        views(lines@) == seq![
            "pair url  "@ + addr@,
            "pin       "@ + pin@,
            "scan the QR on the right (r toggles) or enter PIN manually"@,
        ],
{
    let mut a = String::from_str("pair url  ");
    a.append(addr);
    let mut b = String::from_str("pin       ");
    b.append(pin);
    let c = String::from_str("scan the QR on the right (r toggles) or enter PIN manually");
    let mut lines: Vec<String> = Vec::new();
    lines.push(a);
    lines.push(b);
    lines.push(c);
    assert(views(lines@) == seq![a@, b@, c@]);
    lines
}

/// What headless mode prints when it starts, `qr` being the QR block for `pair`.
pub fn headless_banner(addr: &str, pin: &str, pair: &str, qr: &str) -> (lines: Vec<String>)
    ensures
        views(lines@) == seq![
            "pair url  "@ + addr@,
            "pin       "@ + pin@,
            "qr        "@ + pair@,
            qr@,
            "type a line + Enter to send it to the phone; Ctrl-D to quit"@,
        ],
{
    let mut a = String::from_str("pair url  ");
    a.append(addr);
    let mut b = String::from_str("pin       ");
    b.append(pin);
    let mut c = String::from_str("qr        ");
    c.append(pair);
    let d = String::from_str(qr);
    let e = String::from_str("type a line + Enter to send it to the phone; Ctrl-D to quit");
    let mut lines: Vec<String> = Vec::new();
    lines.push(a);
    lines.push(b);
    lines.push(c);
    lines.push(d);
    lines.push(e);
    assert(views(lines@) == seq![a@, b@, c@, d@, e@]);
    lines
}

/// The header's status badge.
pub fn status_label(phone: &Option<String>) -> (s: String)
    ensures
        match phone {
            Some(name) => s@ == " ● "@ + name@ + " "@,
            None => s@ == " ○ waiting for phone "@,
        },
{
    match phone {
        Some(name) => {
            let mut s = String::from_str(" ● ");
            s.append(name.as_str());
            s.append(" ");
            s
        },
        None => String::from_str(" ○ waiting for phone "),
    }
}

/// How a log line is coloured.
#[derive(Debug, Clone, Copy, PartialEq, Eq, Structural)]
pub enum Tone {
    /// Successes (lines starting with `✓`): green.
    Good,
    /// Failures (lines starting with `✗` or `FATAL`): red.
    Bad,
    /// What this side sent (lines starting with `you`): cyan.
    Mine,
    /// Everything else.
    Plain,
}

pub open spec fn tone_of(line: Seq<char>) -> Tone {
    if line.len() > 0 && line[0] == '✓' {
        Tone::Good
    } else if (line.len() > 0 && line[0] == '✗') || has_prefix(line, "FATAL"@) {
        Tone::Bad
    } else if has_prefix(line, "you"@) {
        Tone::Mine
    } else {
        Tone::Plain
    }
}

pub fn line_tone(line: &str) -> (t: Tone)
    ensures
        t == tone_of(line@),
{
    let first = if line.is_empty() {
        None
    } else {
        Some(line.get_char(0))
    };
    if first == Some('✓') {
        Tone::Good
    } else if first == Some('✗') || starts_with(line, "FATAL") {
        Tone::Bad
    } else if starts_with(line, "you") {
        Tone::Mine
    } else {
        Tone::Plain
    }
}

/// The width in characters of the widest row.
pub open spec fn widest(rows: Seq<Seq<char>>) -> nat
    decreases rows.len(),
{
    if rows.len() == 0 {
        0
    } else {
        let w = widest(rows.drop_last());
        if rows.last().len() > w {
            rows.last().len()
        } else {
            w
        }
    }
}

/// The width of the QR panel's contents, cut to 16 bits as the layout takes it.
pub fn qr_width(rows: &Vec<String>) -> (w: u16)
    ensures
        w == widest(views(rows@)) as u16,
{
    let n = rows.len();
    let mut best: usize = 0;
    for i in 0..n
        invariant
            n == rows@.len(),
            best == widest(views(rows@.take(i as int))),
    {
        let len = rows[i].as_str().unicode_len();
        assert(views(rows@.take(i + 1)).drop_last() == views(rows@.take(i as int)));
        assert(views(rows@.take(i + 1)).last() == rows@[i as int]@);
        if len > best {
            best = len;
        }
    }
    assert(rows@.take(n as int) == rows@);
    best as u16
}

/// Whether the QR panel is drawn: it is switched on, has something in it, and the
/// screen leaves at least 50 columns for the log beside it. Where the sum `qr_w +
/// 50` is evaluated (the panel switched on and not empty) it must fit in 16 bits.
pub fn qr_panel_shown(show_qr: bool, qr_w: u16, area_width: u16) -> (b: bool)
    requires
        show_qr && qr_w > 0 ==> qr_w + 50 <= u16::MAX,
    ensures
        b == (show_qr && qr_w > 0 && area_width >= qr_w + 50),
{
    show_qr && qr_w > 0 && area_width >= qr_w + 50
}

/// The key hints in the footer.
pub fn footer_hint(connected: bool) -> (s: String)
    ensures
        connected ==> s@ == "type + Enter send · p push clipboard · r QR · q quit"@,
        !connected ==> s@ == "scan QR or type PIN on phone · p push clipboard · r QR · q quit"@,
{
    if connected {
        String::from_str("type + Enter send · p push clipboard · r QR · q quit")
    } else {
        String::from_str("scan QR or type PIN on phone · p push clipboard · r QR · q quit")
    }
}

/// The input box's text: what is typed, then a cursor bar.
pub fn input_line(input: &str) -> (s: String)
    ensures
        s@ == input@ + "▏"@,
{
    let mut s = String::from_str(input);
    s.append("▏");
    s
}

} // verus!
