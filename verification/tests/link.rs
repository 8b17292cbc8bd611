use yoruk::camera::camera_index;
use yoruk::framing::RobotEvent;
use yoruk::input::{is_ipv4_address, parse_port, parse_usize, push_decimal, push_signed_decimal};
use yoruk::link::{friendly_serial_error, friendly_tcp_error, tcp_endpoint, ConnectionMode, LinkState};
use yoruk::worker::{on_link_input, LinkInput};

#[test]
fn serial_errors_read_well() {
    assert_eq!(
        friendly_serial_error("Permission denied (os error 13)"),
        "Port erişim izni reddedildi. Portu başka uygulama kullanıyor olabilir."
    );
    assert_eq!(
        friendly_serial_error("No such file or directory"),
        "Port bulunamadı. Cihazın bağlı olduğundan emin olun."
    );
    assert_eq!(
        friendly_serial_error("port not found"),
        "Port bulunamadı. Cihazın bağlı olduğundan emin olun."
    );
    assert_eq!(friendly_serial_error("Broken pipe"), "Cihaz bağlantısı kesildi.");
    assert_eq!(friendly_serial_error("Device disconnected"), "Cihaz bağlantısı kesildi.");
    assert_eq!(friendly_serial_error("garip"), "Seri port hatası: garip");
    assert_eq!(friendly_serial_error(""), "Seri port hatası: ");
}

#[test]
fn tcp_errors_read_well() {
    assert_eq!(
        friendly_tcp_error("Connection refused (os error 111)"),
        "Bağlantı reddedildi. ESP32 açık ve WiFi'ye bağlı mı?"
    );
    assert_eq!(
        friendly_tcp_error("Network unreachable"),
        "Ağa erişilemiyor. ESP32 WiFi ağına bağlı olduğunuzdan emin olun."
    );
    assert_eq!(
        friendly_tcp_error("No route to host"),
        "Ağa erişilemiyor. ESP32 WiFi ağına bağlı olduğunuzdan emin olun."
    );
    assert_eq!(friendly_tcp_error("operation timed out"), "Bağlantı zaman aşımına uğradı.");
    assert_eq!(friendly_tcp_error("Connection reset by peer"), "Bağlantı kesildi.");
    assert_eq!(friendly_tcp_error("broken pipe"), "Bağlantı kesildi.");
    // The match is case-sensitive, as `str::contains` is.
    assert_eq!(friendly_tcp_error("Broken pipe"), "TCP hatası: Broken pipe");
}

#[test]
fn link_state_follows_the_transport() {
    let mut l = LinkState::new();
    assert_eq!(l.mode(), ConnectionMode::Serial);
    assert!(!l.is_connected());
    assert_eq!(l.route(), None);
    l.connect_tcp();
    assert_eq!(l.mode(), ConnectionMode::Tcp);
    assert!(!l.is_connected());
    assert_eq!(l.route(), Some(ConnectionMode::Tcp));
    l.connect_serial();
    assert_eq!(l.mode(), ConnectionMode::Serial);
    assert!(l.is_connected());
    assert_eq!(l.route(), Some(ConnectionMode::Serial));
    let events = l.disconnect();
    assert!(matches!(events.as_slice(), [RobotEvent::Disconnected]));
    assert!(!l.is_connected());
    assert_eq!(l.route(), None);
    assert_eq!(l.mode(), ConnectionMode::Serial);
}

#[test]
fn ports_read_as_u16() {
    for text in ["80", "+80", "0", "65535", "65536", "", "+", "8a", "-1", "00080", " 80"] {
        let expected = text.parse::<u16>().ok().filter(|p| *p > 0);
        assert_eq!(parse_port(text), expected, "{text:?}");
    }
}

#[test]
fn ipv4_addresses() {
    for ok in ["192.168.4.1", "0.0.0.0", "255.255.255.255", "10.0.0.10"] {
        assert!(is_ipv4_address(ok), "{ok}");
    }
    for bad in [
        "", "192.168.4", "192.168.4.1.5", "256.1.1.1", "01.2.3.4", "1..2.3", "a.b.c.d",
        "1.2.3.4 ", "1.2.3.-4", "1234.1.1.1", "localhost",
    ] {
        assert!(!is_ipv4_address(bad), "{bad}");
    }
}

#[test]
fn decimal_text() {
    let mut s = String::from("z=");
    push_decimal(&mut s, 0);
    push_decimal(&mut s, 1907);
    assert_eq!(s, "z=01907");
    let mut t = String::new();
    push_signed_decimal(&mut t, -42);
    push_signed_decimal(&mut t, i64::MIN);
    assert_eq!(t, format!("-42{}", i64::MIN));
    let mut u = String::new();
    push_decimal(&mut u, u64::MAX);
    assert_eq!(u, u64::MAX.to_string());
}

#[test]
fn tcp_endpoints() {
    assert_eq!(tcp_endpoint("192.168.4.1", 80), "192.168.4.1:80");
    assert_eq!(tcp_endpoint("10.0.0.7", 65535), "10.0.0.7:65535");
}

#[test]
fn usize_text() {
    assert_eq!(parse_usize("0"), Some(0));
    assert_eq!(parse_usize("+17"), Some(17));
    assert_eq!(parse_usize(&usize::MAX.to_string()), Some(usize::MAX));
    assert_eq!(parse_usize(&format!("{}0", usize::MAX)), None);
    assert_eq!(parse_usize(""), None);
    assert_eq!(parse_usize("+"), None);
    assert_eq!(parse_usize("1x"), None);
    assert_eq!(camera_index("3"), 3);
    assert_eq!(camera_index("FaceTime HD"), 0);
}

fn error_text(e: &RobotEvent) -> &str {
    match e {
        RobotEvent::Error(s) => s.as_str(),
        other => panic!("unexpected {:?}", other),
    }
}

#[test]
fn serial_worker_reactions() {
    let (ev, stop) = on_link_input(ConnectionMode::Serial, "/dev/ttyUSB0", LinkInput::Opened);
    assert!(!stop);
    assert!(matches!(ev.as_slice(), [RobotEvent::Connected(p)] if p == "/dev/ttyUSB0"));
    let (ev, stop) = on_link_input(ConnectionMode::Serial, "COM3", LinkInput::OpenFailed("Permission denied".to_string()));
    assert!(stop);
    assert_eq!(ev.len(), 1);
    assert_eq!(error_text(&ev[0]), "Port erişim izni reddedildi. Portu başka uygulama kullanıyor olabilir.");
    let (ev, stop) = on_link_input(ConnectionMode::Serial, "COM3", LinkInput::ReadFailed("Broken pipe".to_string()));
    assert!(stop);
    assert_eq!(error_text(&ev[0]), "Cihaz bağlantısı kesildi.");
    assert!(matches!(ev[1], RobotEvent::Disconnected));
    let (ev, stop) = on_link_input(ConnectionMode::Serial, "COM3", LinkInput::WriteFailed("kaput".to_string()));
    assert!(stop);
    assert_eq!(ev.len(), 1);
    assert_eq!(error_text(&ev[0]), "Yazma hatası: kaput");
    let (ev, stop) = on_link_input(ConnectionMode::Serial, "COM3", LinkInput::ReadTimedOut);
    assert!(ev.is_empty() && !stop);
    let (ev, stop) = on_link_input(ConnectionMode::Serial, "COM3", LinkInput::SenderClosed);
    assert!(ev.is_empty() && stop);
}

#[test]
fn tcp_worker_reactions() {
    let (ev, stop) = on_link_input(ConnectionMode::Tcp, "10.0.0.1:80", LinkInput::OpenFailed("Connection refused".to_string()));
    assert!(stop);
    assert_eq!(error_text(&ev[0]), "Bağlantı reddedildi. ESP32 açık ve WiFi'ye bağlı mı?");
    assert!(matches!(ev[1], RobotEvent::Disconnected));
    let (ev, _) = on_link_input(ConnectionMode::Tcp, "10.0.0.1:80", LinkInput::ConnectTimedOut);
    assert_eq!(error_text(&ev[0]), "Bağlantı zaman aşımına uğradı (5s). ESP32 açık ve WiFi'ye bağlı mı?");
    assert_eq!(ev.len(), 2);
    let (ev, _) = on_link_input(ConnectionMode::Tcp, "10.0.0.1:80", LinkInput::WriteFailed("x".to_string()));
    assert_eq!(error_text(&ev[0]), "TCP yazma hatası: x");
    let (ev, _) = on_link_input(ConnectionMode::Tcp, "10.0.0.1:80", LinkInput::FlushFailed("y".to_string()));
    assert_eq!(error_text(&ev[0]), "TCP flush hatası: y");
    let (ev, stop) = on_link_input(ConnectionMode::Tcp, "10.0.0.1:80", LinkInput::Closed);
    assert!(stop);
    assert!(matches!(ev.as_slice(), [RobotEvent::Disconnected]));
    let (ev, _) = on_link_input(ConnectionMode::Tcp, "10.0.0.1:80", LinkInput::ReadFailed("Connection reset by peer".to_string()));
    assert_eq!(error_text(&ev[0]), "Bağlantı kesildi.");
}
