use crate::text::{hex_digits, push_hex};
use vstd::prelude::*;

verus! {

/// Every message exchanged over the WebSocket.
///
/// On the wire each is a JSON object whose `type` field names the variant in
/// snake case (`hello`, `welcome`, `text`, `img`, `ack`, `ping`, `pong`).
#[derive(Debug, Clone, PartialEq)]
pub enum Msg {
    Hello { pin: String, name: String },
    Welcome { ok: bool, err: Option<String> },
    Text { id: String, body: String, ts: u64 },
    Img { id: String, name: String, mime: String, data: String, ts: u64 },
    Ack { id: String, ok: bool, err: Option<String> },
    Ping,
    Pong,
}

#[verifier::external_type_specification]
#[verifier::external_body]
pub struct ExSystemTime(std::time::SystemTime);

/// `SystemTime::now`: the clock's current reading. Nothing is stated of it.
#[verifier::external_body]
fn clock_now() -> std::time::SystemTime {
    std::time::SystemTime::now()
}

/// `SystemTime::duration_since(UNIX_EPOCH)`, with the error (a reading before the
/// epoch) turned into `None`. Nothing is stated of the duration.
#[verifier::external_body]
fn since_unix_epoch(t: &std::time::SystemTime) -> Option<std::time::Duration> {
    t.duration_since(std::time::UNIX_EPOCH).ok()
}

/// `Duration::as_nanos`: the whole nanoseconds of a duration. Nothing is stated of
/// the number, as a `Duration` is opaque here.
#[verifier::external_body]
fn whole_nanos(d: &std::time::Duration) -> u128 {
    d.as_nanos()
}

/// A timestamp in milliseconds from a reading of the clock in nanoseconds: the
/// whole milliseconds, cut to their low 64 bits, or 0 where the clock stood before
/// the epoch.
pub fn millis_stamp(reading: Option<u128>) -> (ms: u64)
    ensures
        ms == (match reading {
            Some(n) => (n / 1_000_000) as u64,
            None => 0,
        }),
{
    match reading {
        Some(n) => (n / 1_000_000) as u64,
        None => 0,
    }
}

/// A message id from a reading of the clock in nanoseconds: its lower-case hex
/// digits, or `"0"` where the clock stood before the epoch.
pub fn id_for(reading: Option<u128>) -> (id: String)
    ensures
        id@ == hex_digits(
            match reading {
                Some(n) => n as nat,
                None => 0,
            },
        ),
{
    let n: u128 = match reading {
        Some(n) => n,
        None => 0,
    };
    let mut id = String::new();
    push_hex(&mut id, n);
    id
}

/// Milliseconds since the Unix epoch, now (0 if the clock is set before it).
pub fn now_ms() -> u64 {
    let t = clock_now();
    let reading = match since_unix_epoch(&t) {
        Some(d) => Some(whole_nanos(&d)),
        None => None,
    };
    millis_stamp(reading)
}

/// A fresh message id: the current time in nanoseconds since the epoch, in hex.
pub fn new_id() -> (id: String)
    ensures
        exists|n: nat| id@ == hex_digits(n),
{
    let t = clock_now();
    let reading = match since_unix_epoch(&t) {
        Some(d) => Some(whole_nanos(&d)),
        None => None,
    };
    id_for(reading)
}


/// A text message for the phone, stamped with a fresh id and the current time.
pub fn text_message(body: String) -> (m: Msg)
    ensures
        m matches Msg::Text { id, body: b, .. } && b == body && exists|n: nat| id@ == hex_digits(n),
{
    Msg::Text { id: new_id(), body, ts: now_ms() }
}

} // verus!
