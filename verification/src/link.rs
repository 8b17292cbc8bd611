//! Link-level helpers: the connection modes and readable texts for link errors.

use vstd::prelude::*;
use vstd::string::*;
use crate::framing::RobotEvent;
use crate::input::{decimal, push_decimal};

verus! {

/// How the controller talks to the robot.
#[derive(Debug, Clone, Copy, PartialEq, Eq, Structural)]
pub enum ConnectionMode {
    Serial,
    Tcp,
}

/// `needle` occurs somewhere in `hay`.
pub open spec fn contains_text(hay: Seq<char>, needle: Seq<char>) -> bool {
    exists|i: int| 0 <= i && i + needle.len() <= hay.len() && #[trigger] hay.subrange(i, i + needle.len()) == needle
}

/// Whether `needle` occurs in `hay`.
fn has_text(hay: &str, needle: &str) -> (b: bool)
    ensures
        b == contains_text(hay@, needle@),
{
    let n = hay.unicode_len();
    let m = needle.unicode_len();
    if m > n {
        proof {
            assert forall|i: int| 0 <= i && i + needle@.len() <= hay@.len() implies #[trigger] hay@.subrange(
                i,
                i + needle@.len(),
            ) != needle@ by {}
        }
        return false;
    }
    let mut i: usize = 0;
    while i <= n - m
        invariant
            n == hay@.len(),
            m == needle@.len(),
            m <= n,
            i <= n - m + 1,
            forall|k: int| 0 <= k < i ==> #[trigger] hay@.subrange(k, k + m) != needle@,
        decreases n - m + 1 - i,
    {
        let mut j: usize = 0;
        let mut same = true;
        while j < m
            invariant
                n == hay@.len(),
                m == needle@.len(),
                i + m <= n,
                j <= m,
                same == (forall|t: int| 0 <= t < j ==> hay@[i + t] == needle@[t]),
            decreases m - j,
        {
            if hay.get_char(i + j) != needle.get_char(j) {
                same = false;
            }
            j = j + 1;
        }
        if same {
            proof {
                assert(hay@.subrange(i as int, i + m) =~= needle@);
            }
            return true;
        }
        proof {
            let t = choose|t: int| 0 <= t < m && hay@[i + t] != needle@[t];
            assert(hay@.subrange(i as int, i + m)[t] != needle@[t]);
        }
        i = i + 1;
    }
    proof {
        assert forall|k: int| 0 <= k && k + needle@.len() <= hay@.len() implies #[trigger] hay@.subrange(
            k,
            k + needle@.len(),
        ) != needle@ by {}
    }
    false
}

/// Readable text for a serial port error message.
pub open spec fn serial_error_text(raw: Seq<char>) -> Seq<char> {
    if contains_text(raw, "Permission denied"@) {
        "Port erişim izni reddedildi. Portu başka uygulama kullanıyor olabilir."@
    } else if contains_text(raw, "No such file"@) || contains_text(raw, "not found"@) {
        "Port bulunamadı. Cihazın bağlı olduğundan emin olun."@
    } else if contains_text(raw, "Device disconnected"@) || contains_text(raw, "Broken pipe"@) {
        "Cihaz bağlantısı kesildi."@
    } else {
        "Seri port hatası: "@ + raw
    }
}

/// Turns a serial port error message into one for the user.
pub fn friendly_serial_error(raw: &str) -> (msg: String)
    ensures
        msg@ == serial_error_text(raw@),
{
    if has_text(raw, "Permission denied") {
        String::from_str("Port erişim izni reddedildi. Portu başka uygulama kullanıyor olabilir.")
    } else if has_text(raw, "No such file") || has_text(raw, "not found") {
        String::from_str("Port bulunamadı. Cihazın bağlı olduğundan emin olun.")
    } else if has_text(raw, "Device disconnected") || has_text(raw, "Broken pipe") {
        String::from_str("Cihaz bağlantısı kesildi.")
    } else {
        let mut msg = String::from_str("Seri port hatası: ");
        msg.append(raw);
        msg
    }
}

/// Readable text for a TCP error message.
pub open spec fn tcp_error_text(raw: Seq<char>) -> Seq<char> {
    if contains_text(raw, "Connection refused"@) {
        "Bağlantı reddedildi. ESP32 açık ve WiFi'ye bağlı mı?"@
    } else if contains_text(raw, "Network unreachable"@) || contains_text(raw, "No route"@) {
        "Ağa erişilemiyor. ESP32 WiFi ağına bağlı olduğunuzdan emin olun."@
    } else if contains_text(raw, "timed out"@) {
        "Bağlantı zaman aşımına uğradı."@
    } else if contains_text(raw, "reset"@) || contains_text(raw, "broken pipe"@) {
        "Bağlantı kesildi."@
    } else {
        "TCP hatası: "@ + raw
    }
}

/// Turns a TCP error message into one for the user.
pub fn friendly_tcp_error(raw: &str) -> (msg: String)
    ensures
        msg@ == tcp_error_text(raw@),
{
    if has_text(raw, "Connection refused") {
        String::from_str("Bağlantı reddedildi. ESP32 açık ve WiFi'ye bağlı mı?")
    } else if has_text(raw, "Network unreachable") || has_text(raw, "No route") {
        String::from_str("Ağa erişilemiyor. ESP32 WiFi ağına bağlı olduğunuzdan emin olun.")
    } else if has_text(raw, "timed out") {
        String::from_str("Bağlantı zaman aşımına uğradı.")
    } else if has_text(raw, "reset") || has_text(raw, "broken pipe") {
        String::from_str("Bağlantı kesildi.")
    } else {
        let mut msg = String::from_str("TCP hatası: ");
        msg.append(raw);
        msg
    }
}


/// The address a TCP worker connects to: `host:port`.
pub fn tcp_endpoint(host: &str, port: u16) -> (s: String)
    ensures
        s@ == host@ + ":"@ + decimal(port as nat),
{
    let mut s = String::from_str(host);
    s.append(":");
    push_decimal(&mut s, port as u64);
    s
}

/// The state of the connection manager: the chosen mode, the transport that frames
/// go to, and whether the link counts as up.
#[derive(Debug, Clone, Copy, PartialEq, Eq, Structural)]
pub struct LinkState {
    pub mode: ConnectionMode,
    /// The transport that frames go to; `None` when no link is open.
    pub active: Option<ConnectionMode>,
    pub connected: bool,
}

impl LinkState {
    /// Serial mode, no link.
    pub fn new() -> (s: Self)
        ensures
            s == (LinkState { mode: ConnectionMode::Serial, active: None, connected: false }),
    {
        LinkState { mode: ConnectionMode::Serial, active: None, connected: false }
    }

    /// A serial link opens; it counts as up at once.
    pub fn connect_serial(&mut self)
        ensures
            *final(self) == (LinkState {
                mode: ConnectionMode::Serial,
                active: Some(ConnectionMode::Serial),
                connected: true,
            }),
    {
        self.disconnect_inner();
        self.active = Some(ConnectionMode::Serial);
        self.mode = ConnectionMode::Serial;
        self.connected = true;
    }

    /// A TCP link starts opening; frames can be queued at once, but the link counts
    /// as up only when the transport reports it connected.
    pub fn connect_tcp(&mut self)
        ensures
            *final(self) == (LinkState {
                mode: ConnectionMode::Tcp,
                active: Some(ConnectionMode::Tcp),
                connected: false,
            }),
    {
        self.disconnect_inner();
        self.active = Some(ConnectionMode::Tcp);
        self.mode = ConnectionMode::Tcp;
    }

    /// The link closes: nothing is routed until the next connect. Gives the events
    /// to report to the controller: exactly one `Disconnected`.
    pub fn disconnect(&mut self) -> (events: Vec<RobotEvent>)
        ensures
            *final(self) == (LinkState { active: None, connected: false, ..*old(self) }),
            events@.len() == 1,
            events@[0] is Disconnected,
    {
        self.disconnect_inner();
        let mut events: Vec<RobotEvent> = Vec::new();
        events.push(RobotEvent::Disconnected);
        events
    }

    fn disconnect_inner(&mut self)
        ensures
            *final(self) == (LinkState { active: None, connected: false, ..*old(self) }),
    {
        self.active = None;
        self.connected = false;
    }

    /// The transport that a frame goes to; `None` drops it.
    pub fn route(&self) -> (t: Option<ConnectionMode>)
        ensures
            t == self.active,
    {
        self.active
    }

    pub fn is_connected(&self) -> (b: bool)
        ensures
            b == self.connected,
    {
        self.connected
    }

    pub fn mode(&self) -> (m: ConnectionMode)
        ensures
            m == self.mode,
    {
        self.mode
    }
}

} // verus!
