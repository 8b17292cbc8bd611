//! Decisions of the link workers: what the controller is told, and whether the
//! worker stops, when something happens on a serial port or a TCP connection.

use vstd::prelude::*;
use vstd::string::*;
use crate::framing::RobotEvent;
use crate::link::{friendly_serial_error, friendly_tcp_error, serial_error_text, tcp_error_text, ConnectionMode};

verus! {

/// Something that happened on the link, as the worker thread sees it. Error texts
/// are those of the operating system.
#[derive(Debug, Clone)]
pub enum LinkInput {
    /// The port opened, or the TCP connection was made.
    Opened,
    /// The port or the connection could not be opened.
    OpenFailed(String),
    /// The TCP connection was not made within its time limit.
    ConnectTimedOut,
    /// A read found no data within its time limit.
    ReadTimedOut,
    /// A read failed.
    ReadFailed(String),
    /// The other end closed the connection (a read gave no bytes).
    Closed,
    /// Writing a frame failed.
    WriteFailed(String),
    /// Flushing written frames failed.
    FlushFailed(String),
    /// The controller dropped its side of the frame channel.
    SenderClosed,
}

/// What the user reads when a TCP connection is not made in time.
pub open spec fn connect_timeout_text() -> Seq<char> {
    "Bağlantı zaman aşımına uğradı (5s). ESP32 açık ve WiFi'ye bağlı mı?"@
}

/// `e` is an `Error` event with text `text`.
pub open spec fn is_error_text(e: RobotEvent, text: Seq<char>) -> bool {
    e matches RobotEvent::Error(s) && s@ == text
}

/// `events` is one `Error` with text `text`, followed by `Disconnected` when
/// `then_disconnected`.
pub open spec fn error_events(events: Seq<RobotEvent>, text: Seq<char>, then_disconnected: bool) -> bool {
    &&& events.len() == if then_disconnected { 2nat } else { 1nat }
    &&& is_error_text(events[0], text)
    &&& then_disconnected ==> events[1] is Disconnected
}

fn error_then(text: String, then_disconnected: bool) -> (events: Vec<RobotEvent>)
    ensures
        error_events(events@, text@, then_disconnected),
{
    let mut events: Vec<RobotEvent> = Vec::new();
    events.push(RobotEvent::Error(text));
    if then_disconnected {
        events.push(RobotEvent::Disconnected);
    }
    events
}

fn prefixed(prefix: &str, raw: &str) -> (s: String)
    ensures
        s@ == prefix@ + raw@,
{
    let mut s = String::from_str(prefix);
    s.append(raw);
    s
}

/// How a worker on transport `mode`, linked to `endpoint`, reacts to `input`: the
/// events sent to the controller, and whether the worker stops.
///
/// An opened link reports `Connected`; a read timeout is normal. A serial port that
/// cannot be opened, or cannot be written, reports only the error; every other
/// failure reports the error and then `Disconnected`. A TCP connection closed by the
/// other end reports `Disconnected` alone, and a closed frame channel ends the worker
/// silently.
pub fn on_link_input(mode: ConnectionMode, endpoint: &str, input: LinkInput) -> (out: (Vec<RobotEvent>, bool))
    ensures
        match input {
            LinkInput::Opened => out.0@.len() == 1 && (out.0@[0] matches RobotEvent::Connected(s) && s@ == endpoint@)
                && !out.1,
            LinkInput::ReadTimedOut => out.0@.len() == 0 && !out.1,
            LinkInput::SenderClosed => out.0@.len() == 0 && out.1,
            LinkInput::Closed => out.0@.len() == 1 && out.0@[0] is Disconnected && out.1,
            LinkInput::OpenFailed(raw) => out.1 && match mode {
                ConnectionMode::Serial => error_events(out.0@, serial_error_text(raw@), false),
                ConnectionMode::Tcp => error_events(out.0@, tcp_error_text(raw@), true),
            },
            LinkInput::ConnectTimedOut => out.1 && error_events(out.0@, connect_timeout_text(), true),
            LinkInput::ReadFailed(raw) => out.1 && match mode {
                ConnectionMode::Serial => error_events(out.0@, serial_error_text(raw@), true),
                ConnectionMode::Tcp => error_events(out.0@, tcp_error_text(raw@), true),
            },
            LinkInput::WriteFailed(raw) => out.1 && match mode {
                ConnectionMode::Serial => error_events(out.0@, "Yazma hatası: "@ + raw@, false),
                ConnectionMode::Tcp => error_events(out.0@, "TCP yazma hatası: "@ + raw@, true),
            },
            LinkInput::FlushFailed(raw) => out.1 && match mode {
                ConnectionMode::Serial => error_events(out.0@, "Yazma hatası: "@ + raw@, false),
                ConnectionMode::Tcp => error_events(out.0@, "TCP flush hatası: "@ + raw@, true),
            },
        },
{
    let serial = match mode {
        ConnectionMode::Serial => true,
        ConnectionMode::Tcp => false,
    };
    match input {
        LinkInput::Opened => {
            let mut events: Vec<RobotEvent> = Vec::new();
            events.push(RobotEvent::Connected(String::from_str(endpoint)));
            (events, false)
        },
        LinkInput::ReadTimedOut => (Vec::new(), false),
        LinkInput::SenderClosed => (Vec::new(), true),
        LinkInput::Closed => {
            let mut events: Vec<RobotEvent> = Vec::new();
            events.push(RobotEvent::Disconnected);
            (events, true)
        },
        LinkInput::OpenFailed(raw) => {
            if serial {
                (error_then(friendly_serial_error(raw.as_str()), false), true)
            } else {
                (error_then(friendly_tcp_error(raw.as_str()), true), true)
            }
        },
        LinkInput::ConnectTimedOut => {
            let text = String::from_str("Bağlantı zaman aşımına uğradı (5s). ESP32 açık ve WiFi'ye bağlı mı?");
            (error_then(text, true), true)
        },
        LinkInput::ReadFailed(raw) => {
            if serial {
                (error_then(friendly_serial_error(raw.as_str()), true), true)
            } else {
                (error_then(friendly_tcp_error(raw.as_str()), true), true)
            }
        },
        LinkInput::WriteFailed(raw) => {
            if serial {
                (error_then(prefixed("Yazma hatası: ", raw.as_str()), false), true)
            } else {
                (error_then(prefixed("TCP yazma hatası: ", raw.as_str()), true), true)
            }
        },
        LinkInput::FlushFailed(raw) => {
            if serial {
                (error_then(prefixed("Yazma hatası: ", raw.as_str()), false), true)
            } else {
                (error_then(prefixed("TCP flush hatası: ", raw.as_str()), true), true)
            }
        },
    }
}

} // verus!
