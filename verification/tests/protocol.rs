use yoruk::checksum::fletcher16;
use yoruk::packet::{
    brake_packet, gps_enable_packet, light_packet, parse_response, simple_packet, speed_packet,
};
use yoruk::types::{Command, Gear, RobotResponse};

#[test]
fn test_protocol_md_ornekleri() {
    assert_eq!(
        simple_packet(Command::SetStart),
        vec![0xAA, 0xFF, 0x00, 0x00, 0x00],
        "START paketi"
    );
    assert_eq!(
        simple_packet(Command::SetStop),
        vec![0xAA, 0x00, 0x00, 0x00, 0x00],
        "STOP paketi"
    );
    assert_eq!(
        simple_packet(Command::GetStatus),
        vec![0xAA, 0x10, 0x00, 0x20, 0x10],
        "durum sorgu paketi"
    );
    assert_eq!(
        speed_packet(100, 100, 1, false, false),
        vec![0xAA, 0x01, 0x07, 0x01, 0x4C, 0x46, 0x64, 0x52, 0x46, 0x64, 0xEA, 0xFC],
        "tam hız ileri, V1"
    );
    assert_eq!(
        speed_packet(-50, 50, 2, false, false),
        vec![0xAA, 0x01, 0x07, 0x02, 0x4C, 0x42, 0x32, 0x52, 0x46, 0x32, 0xE2, 0x95],
        "sol dönüş, V2"
    );
    assert_eq!(
        gps_enable_packet(false),
        vec![0xAA, 0x04, 0x01, 0x00, 0x0E, 0x05],
        "GPS yayınını durdurma paketi"
    );
}

#[test]
fn test_fletcher16_known() {
    let data = [0x01, 0x07, 0x01, 0x4C, 0x46, 0x64, 0x52, 0x46, 0x64];
    let [s2, s1] = fletcher16(&data);
    let combined = ((s2 as u16) << 8) | s1 as u16;
    assert_ne!(combined, 0, "Fletcher-16 sıfır çıktı verdi");
}

#[test]
fn test_speed_packet_structure() {
    let pkt = speed_packet(100, 100, 1, false, false);
    assert_eq!(pkt[0], 0xAA, "START_BYTE hatalı");
    assert_eq!(pkt[1], 0x01, "CMD hatalı");
    assert_eq!(pkt[2], 7, "LEN hatalı");
    assert_eq!(pkt[3], 1, "Vites hatalı");
    assert_eq!(pkt[4], 0x4C, "'L' baytı hatalı");
    assert_eq!(pkt[5], 0x46, "Sol yön 'F' olmalı");
    assert_eq!(pkt[6], 100, "Sol hız 100 olmalı");
    assert_eq!(pkt[7], 0x52, "'R' baytı hatalı");
    assert_eq!(pkt[8], 0x46, "Sağ yön 'F' olmalı");
    assert_eq!(pkt[9], 100, "Sağ hız 100 olmalı");
    assert_eq!(pkt.len(), 12, "Paket uzunluğu 12 olmalı");
}

#[test]
fn test_speed_packet_backward() {
    let pkt = speed_packet(-50, -50, 2, false, false);
    assert_eq!(pkt[5], 0x42, "Sol yön 'B' olmalı");
    assert_eq!(pkt[6], 50, "Sol abs hız 50 olmalı");
    assert_eq!(pkt[8], 0x42, "Sağ yön 'B' olmalı");
    assert_eq!(pkt[9], 50, "Sağ abs hız 50 olmalı");
    assert_eq!(pkt[3], 2, "Vites 2 olmalı");
}

#[test]
fn test_speed_packet_reverse_flag() {
    let pkt_normal = speed_packet(80, 80, 1, false, false);
    let pkt_rev_l = speed_packet(80, 80, 1, true, false);
    assert_eq!(pkt_normal[5], 0x46, "Normal: sol ileri");
    assert_eq!(pkt_rev_l[5], 0x42, "Reverse: sol geri");
    assert_eq!(pkt_normal[8], 0x46, "Normal: sağ ileri");
    assert_eq!(pkt_rev_l[8], 0x46, "Rev_left: sağ değişmez");
}

#[test]
fn test_simple_packet_start() {
    let pkt = simple_packet(Command::SetStart);
    assert_eq!(pkt[0], 0xAA);
    assert_eq!(pkt[1], 0xFF);
    assert_eq!(pkt[2], 0x00);
    assert_eq!(pkt.len(), 5);
}

#[test]
fn test_simple_packet_stop() {
    let pkt = simple_packet(Command::SetStop);
    assert_eq!(pkt[1], 0x00);
}

#[test]
fn test_light_packet() {
    let pkt_on = light_packet(true);
    let pkt_off = light_packet(false);
    assert_eq!(pkt_on[3], 0x01);
    assert_eq!(pkt_off[3], 0x00);
}

#[test]
fn test_checksum_included() {
    let pkt = speed_packet(50, -30, 3, false, false);
    let n = pkt.len();
    let expected_ck = fletcher16(&pkt[1..n - 2]);
    assert_eq!(pkt[n - 2], expected_ck[0], "CK2 hatalı");
    assert_eq!(pkt[n - 1], expected_ck[1], "CK1 hatalı");
}

#[test]
fn fletcher16_exact_values() {
    assert_eq!(fletcher16(&[]), [0x00, 0x00]);
    assert_eq!(fletcher16(&[0x01, 0x07, 0x01, 0x4C, 0x46, 0x64, 0x52, 0x46, 0x64]), [0xEA, 0xFC]);
    assert_eq!(fletcher16(&[0x10, 0x00]), [0x20, 0x10]);
    // Both sums are taken modulo 255: 255 bytes of 0xFF sum to zero.
    assert_eq!(fletcher16(&[0xFF]), [0x00, 0x00]);
    assert_eq!(fletcher16(&[0x01, 0x02]), [0x04, 0x03]);
}

#[test]
fn command_and_gear_bytes() {
    assert_eq!(Command::SetStop.as_byte(), 0x00);
    assert_eq!(Command::SetSpeed.as_byte(), 0x01);
    assert_eq!(Command::SetLight.as_byte(), 0x02);
    assert_eq!(Command::SetBrake.as_byte(), 0x03);
    assert_eq!(Command::SetGpsEnable.as_byte(), 0x04);
    assert_eq!(Command::GetStatus.as_byte(), 0x10);
    assert_eq!(Command::GetSpeed.as_byte(), 0x11);
    assert_eq!(Command::SetStart.as_byte(), 0xFF);
    assert_eq!(Gear::V1.as_byte(), 1);
    assert_eq!(Gear::V2.as_byte(), 2);
    assert_eq!(Gear::V3.as_byte(), 3);
    assert_eq!(Gear::default(), Gear::V1);
}

#[test]
fn speed_packet_clamps_gear_and_speed() {
    // Gear outside 1..=3 is clamped; speeds beyond ±100 are clamped to 100.
    let pkt = speed_packet(127, -128, 9, false, false);
    assert_eq!(pkt[3], 3);
    assert_eq!(pkt[5], 0x46);
    assert_eq!(pkt[6], 100);
    assert_eq!(pkt[8], 0x42);
    assert_eq!(pkt[9], 100);
    let low = speed_packet(0, 0, 0, false, false);
    assert_eq!(low[3], 1);
    // Zero speed counts as forward.
    assert_eq!(low[5], 0x46);
    assert_eq!(low[6], 0);
}

#[test]
fn speed_packet_reverse_right_flag() {
    let pkt = speed_packet(80, -80, 1, false, true);
    assert_eq!(pkt[5], 0x46);
    assert_eq!(pkt[8], 0x46);
    assert_eq!(pkt[9], 80);
}

#[test]
fn switch_packets() {
    assert_eq!(brake_packet(true), vec![0xAA, 0x03, 0x01, 0x01, 0x0C, 0x05]);
    assert_eq!(brake_packet(false)[3], 0x00);
    assert_eq!(light_packet(true), vec![0xAA, 0x02, 0x01, 0x01, 0x09, 0x04]);
    assert_eq!(gps_enable_packet(true), vec![0xAA, 0x04, 0x01, 0x01, 0x0F, 0x06]);
}

#[test]
fn parse_status_light_brake() {
    assert!(matches!(parse_response(&[0xAA, 0x10, 0x01, 0x01]), Some(RobotResponse::Status(true))));
    assert!(matches!(parse_response(&[0xAA, 0x10, 0x01, 0x00]), Some(RobotResponse::Status(false))));
    assert!(matches!(parse_response(&[0xAA, 0x12, 0x01, 0x01]), Some(RobotResponse::Light(true))));
    assert!(matches!(parse_response(&[0xAA, 0x13, 0x01, 0x02]), Some(RobotResponse::Brake(false))));
    // An empty payload is too short for these commands.
    assert!(parse_response(&[0xAA, 0x10, 0x00, 0x20, 0x10]).is_none());
}

#[test]
fn parse_speed_response() {
    let data = [0xAA, 0x11, 0x07, 0x02, 0x4C, 0x42, 0x32, 0x52, 0x46, 0x28, 0x00, 0x00];
    match parse_response(&data) {
        Some(RobotResponse::Speed { gear, left, right }) => {
            assert_eq!(gear, 2);
            assert_eq!(left, -50);
            assert_eq!(right, 40);
        }
        other => panic!("unexpected {:?}", other),
    }
    // Six payload bytes are too few for a speed report.
    assert!(parse_response(&[0xAA, 0x11, 0x06, 1, 0x4C, 0x46, 1, 0x52, 0x46]).is_none());
}

#[test]
fn parse_gps_response() {
    let lat: f32 = 39.92;
    let lon: f32 = 32.85;
    let mut data = vec![0xAA, 0x14, 0x08];
    data.extend_from_slice(&lat.to_le_bytes());
    data.extend_from_slice(&lon.to_le_bytes());
    match parse_response(&data) {
        Some(RobotResponse::Gps { lat_bits, lon_bits }) => {
            assert_eq!(f32::from_bits(lat_bits), lat);
            assert_eq!(f32::from_bits(lon_bits), lon);
        }
        other => panic!("unexpected {:?}", other),
    }
    assert!(parse_response(&[0xAA, 0x14, 0x07, 0, 0, 0, 0, 0, 0, 0]).is_none());
}

#[test]
fn parse_unknown_and_malformed() {
    let data = [0xAA, 0x42, 0x01, 0x07, 0x00, 0x00];
    match parse_response(&data) {
        Some(RobotResponse::Unknown(v)) => assert_eq!(v, data.to_vec()),
        other => panic!("unexpected {:?}", other),
    }
    assert!(parse_response(&[]).is_none());
    assert!(parse_response(&[0xAA, 0x10]).is_none());
    assert!(parse_response(&[0xAB, 0x10, 0x01, 0x01]).is_none());
    // The length byte announces more payload than there is.
    assert!(parse_response(&[0xAA, 0x10, 0x03, 0x01]).is_none());
}

#[test]
fn speed_frame_round_trip() {
    // What the controller sends as a speed command decodes to the same speeds
    // when it comes back under the speed-report command.
    let mut pkt = speed_packet(-73, 64, 2, false, false);
    pkt[1] = Command::GetSpeed.as_byte();
    match parse_response(&pkt) {
        Some(RobotResponse::Speed { gear, left, right }) => {
            assert_eq!((gear, left, right), (2, -73, 64));
        }
        other => panic!("unexpected {:?}", other),
    }
}

#[test]
fn single_bit_errors_change_the_checksum() {
    let body = [0x01, 0x07, 0x02, 0x4C, 0x42, 0x32, 0x52, 0x46, 0x32];
    let good = fletcher16(&body);
    for i in 0..body.len() {
        for bit in 0..8 {
            let mut bad = body;
            bad[i] ^= 1 << bit;
            assert_ne!(fletcher16(&bad), good, "byte {i}, bit {bit}");
        }
    }
}

#[test]
fn swapped_neighbours_change_the_checksum() {
    assert_ne!(fletcher16(&[0x01, 0x02, 0x03]), fletcher16(&[0x02, 0x01, 0x03]));
    assert_ne!(fletcher16(&[0x10, 0x4C, 0x46]), fletcher16(&[0x10, 0x46, 0x4C]));
    // 0x00 and 0xFF are equal modulo 255: their swap goes unnoticed.
    assert_eq!(fletcher16(&[0x07, 0x00, 0xFF]), fletcher16(&[0x07, 0xFF, 0x00]));
}

#[test]
fn gps_frame_carries_little_endian_floats() {
    let mut frame = vec![0xAA, 0x14, 0x08, 0x79, 0xE0, 0x24, 0x42, 0xD1, 0xF1, 0xE7, 0x41];
    let ck = fletcher16(&frame[1..]);
    frame.extend_from_slice(&ck);
    match parse_response(&frame) {
        Some(RobotResponse::Gps { lat_bits, lon_bits }) => {
            assert_eq!(f32::from_bits(lat_bits), f32::from_le_bytes([0x79, 0xE0, 0x24, 0x42]));
            assert_eq!(f32::from_bits(lon_bits), f32::from_le_bytes([0xD1, 0xF1, 0xE7, 0x41]));
            assert_eq!(lat_bits, 0x4224_E079);
        }
        other => panic!("unexpected {:?}", other),
    }
}

#[test]
fn switch_reports_decode() {
    for on in [false, true] {
        let mut light = light_packet(on);
        light[1] = Command::GetLight.as_byte();
        assert!(matches!(parse_response(&light), Some(RobotResponse::Light(b)) if b == on));
        let mut brake = brake_packet(on);
        brake[1] = Command::GetBrake.as_byte();
        assert!(matches!(parse_response(&brake), Some(RobotResponse::Brake(b)) if b == on));
        let mut status = light_packet(on);
        status[1] = Command::GetStatus.as_byte();
        assert!(matches!(parse_response(&status), Some(RobotResponse::Status(b)) if b == on));
    }
}
