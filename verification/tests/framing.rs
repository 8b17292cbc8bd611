use yoruk::framing::{drain_frames, packet_to_event, response_fits, try_parse_packet, RobotEvent};
use yoruk::packet::{simple_packet, speed_packet, START_BYTE};
use yoruk::types::{Command, RobotResponse};

#[test]
fn test_parse_simple_packet() {
    let original = simple_packet(Command::SetStart);
    let mut buf = original.clone();
    let parsed = try_parse_packet(&mut buf);
    assert!(parsed.is_some(), "Paket ayrıştırılamadı");
    assert_eq!(parsed.unwrap(), original);
    assert!(buf.is_empty(), "Buffer temizlenmedi");
}

#[test]
fn test_parse_speed_packet() {
    let original = speed_packet(75, -40, 2, false, false);
    let mut buf = original.clone();
    let parsed = try_parse_packet(&mut buf);
    assert_eq!(parsed.unwrap(), original);
}

#[test]
fn test_skip_garbage() {
    let mut buf = vec![0x11, 0x22, 0x33];
    let pkt = simple_packet(Command::SetStop);
    buf.extend_from_slice(&pkt);
    let parsed = try_parse_packet(&mut buf);
    assert_eq!(parsed.unwrap(), pkt);
}

#[test]
fn test_partial_packet() {
    let pkt = simple_packet(Command::SetStart);
    let mut buf = pkt[..3].to_vec();
    let parsed = try_parse_packet(&mut buf);
    assert!(parsed.is_none(), "Yarım paket None dönmeli");
}

#[test]
fn test_sahte_baslangic_gecerli_paketi_yutmaz() {
    let real = simple_packet(Command::SetStart);
    let mut buf = vec![START_BYTE, 0x99, 0x05];
    buf.extend_from_slice(&real);
    buf.extend_from_slice(&[0x00, 0x00]);

    let parsed = try_parse_packet(&mut buf);
    assert_eq!(
        parsed.as_deref(),
        Some(real.as_slice()),
        "sahte 0xAA sonrasındaki geçerli paket yutuldu"
    );
}

#[test]
fn test_bad_checksum() {
    let mut pkt = simple_packet(Command::SetStart);
    let n = pkt.len();
    pkt[n - 1] ^= 0xFF;
    let mut buf = pkt;
    let parsed = try_parse_packet(&mut buf);
    assert!(parsed.is_none(), "Hatalı checksum None dönmeli");
}

#[test]
fn partial_packet_stays_for_the_next_read() {
    let pkt = simple_packet(Command::SetStart);
    let mut buf = vec![0x01, 0x02];
    buf.extend_from_slice(&pkt[..3]);
    assert!(try_parse_packet(&mut buf).is_none());
    // Leading noise is dropped, the partial frame is kept.
    assert_eq!(buf, pkt[..3].to_vec());
    buf.extend_from_slice(&pkt[3..]);
    assert_eq!(try_parse_packet(&mut buf), Some(pkt));
    assert!(buf.is_empty());
}

#[test]
fn buffer_without_a_start_byte_is_left_alone() {
    let mut buf = vec![0x01, 0x02, 0x03];
    assert!(try_parse_packet(&mut buf).is_none());
    assert_eq!(buf, vec![0x01, 0x02, 0x03]);
}

#[test]
fn bytes_after_a_frame_stay() {
    let first = simple_packet(Command::SetStop);
    let second = simple_packet(Command::GetStatus);
    let mut buf = first.clone();
    buf.extend_from_slice(&second);
    assert_eq!(try_parse_packet(&mut buf), Some(first));
    assert_eq!(buf, second);
}

#[test]
fn drain_takes_every_frame_in_order() {
    let a = simple_packet(Command::SetStart);
    let b = speed_packet(20, -20, 1, false, false);
    let mut buf = vec![0x55];
    buf.extend_from_slice(&a);
    buf.extend_from_slice(&[START_BYTE, 0x99, 0x05]);
    buf.extend_from_slice(&b);
    buf.extend_from_slice(&b[..4]);
    let frames = drain_frames(&mut buf);
    assert_eq!(frames, vec![a, b.clone()]);
    assert_eq!(buf, b[..4].to_vec());
}

#[test]
fn drain_of_an_empty_buffer() {
    let mut buf: Vec<u8> = Vec::new();
    assert!(drain_frames(&mut buf).is_empty());
    assert!(buf.is_empty());
}

#[test]
fn packet_to_event_decodes_responses() {
    match packet_to_event(vec![0xAA, 0x12, 0x01, 0x01, 0x00, 0x00]) {
        Some(RobotEvent::Packet(RobotResponse::Light(true))) => {}
        other => panic!("unexpected {:?}", other),
    }
    assert!(packet_to_event(vec![0xAA, 0x12, 0x00, 0x00, 0x00]).is_none());
}

#[test]
fn response_fits_rejects_unnegatable_speed() {
    assert!(response_fits(&[0xAA, 0x11, 0x07, 1, 0x4C, 0x46, 0x80, 0x52, 0x46, 0x10]));
    assert!(!response_fits(&[0xAA, 0x11, 0x07, 1, 0x4C, 0x42, 0x80, 0x52, 0x46, 0x10]));
    assert!(!response_fits(&[0xAA, 0x11, 0x07, 1, 0x4C, 0x46, 0x10, 0x52, 0x42, 0x80]));
    assert!(response_fits(&[0xAA, 0x12, 0x01, 0x80]));
    assert!(response_fits(&[]));
}

#[test]
fn stream_of_frames_comes_back_whole() {
    let sent = vec![
        simple_packet(Command::SetStart),
        speed_packet(60, -60, 2, false, false),
        simple_packet(Command::GetStatus),
        speed_packet(-100, 100, 3, true, false),
    ];
    let mut buf: Vec<u8> = sent.concat();
    assert_eq!(drain_frames(&mut buf), sent);
    assert!(buf.is_empty());
}
