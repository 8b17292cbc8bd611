use yoruk::framing::RobotEvent;
use yoruk::message::{CameraNotice, Dir, Message, Modal, Step, Tab, TileResult};
use yoruk::packet::{brake_packet, gps_enable_packet, light_packet, simple_packet};
use yoruk::state::{App, CameraChoice};
use yoruk::types::{Command, RobotResponse};
use yoruk::sender::SpeedSender;
use yoruk::update::{step_index, Effect};

fn connected_app() -> App {
    let mut app = App::new();
    app.update(Message::Robot(RobotEvent::Connected("COM3".to_string())));
    app
}

fn running_app() -> App {
    let mut app = connected_app();
    app.update(Message::StartPressed);
    app
}

fn is_stop_sequence(fx: &[Effect]) -> bool {
    matches!(fx, [Effect::SetMotorRunning(false), Effect::SendZeroSpeed])
}

#[test]
fn start_up_state() {
    let app = App::new();
    assert!(app.is_dark);
    assert_eq!(app.tab, Tab::Camera);
    assert!(app.link.is_serial);
    assert_eq!(app.link.status_text, "Hazır...");
    assert_eq!(app.link.tcp_host, "192.168.4.1");
    assert_eq!(app.link.tcp_port, "80");
    assert_eq!(app.drive.gear, 1);
    assert_eq!(app.drive.send_interval_ms, 30);
    assert_eq!(app.map_zoom, 15);
    assert!(!app.can_connect());
}

#[test]
fn serial_connect_needs_a_port() {
    let mut app = App::new();
    assert!(app.update(Message::ConnectPressed).is_empty());
    assert!(!app.link.connecting);
    app.update(Message::PortsLoaded(vec!["/dev/ttyUSB0".to_string(), "/dev/ttyUSB1".to_string()]));
    assert_eq!(app.link.serial_port.as_deref(), Some("/dev/ttyUSB0"));
    let fx = app.update(Message::ConnectPressed);
    match fx.as_slice() {
        [Effect::ConnectSerial { port, baud }] => {
            assert_eq!(port, "/dev/ttyUSB0");
            assert_eq!(*baud, 115_200);
        }
        other => panic!("unexpected {:?}", other),
    }
    assert!(app.link.connecting);
    assert_eq!(app.link.status_text, "Bağlanıyor — /dev/ttyUSB0");
}

#[test]
fn tcp_connect_checks_host_and_port() {
    let mut app = App::new();
    app.update(Message::SerialModeSelected(false));
    assert!(app.can_connect());
    let fx = app.update(Message::ConnectPressed);
    match fx.as_slice() {
        [Effect::ConnectTcp { host, port }] => {
            assert_eq!(host, "192.168.4.1");
            assert_eq!(*port, 80);
        }
        other => panic!("unexpected {:?}", other),
    }
    assert_eq!(app.link.status_text, "Bağlanıyor — 192.168.4.1:80");

    let mut bad = App::new();
    bad.update(Message::SerialModeSelected(false));
    bad.update(Message::HostChanged("192.168.4".to_string()));
    assert!(bad.update(Message::ConnectPressed).is_empty());
    bad.update(Message::HostChanged("10.0.0.1".to_string()));
    bad.update(Message::TcpPortChanged("0".to_string()));
    assert!(bad.update(Message::ConnectPressed).is_empty());
}

#[test]
fn port_field_takes_five_digits() {
    let mut app = App::new();
    app.update(Message::TcpPortChanged("8080".to_string()));
    assert_eq!(app.link.tcp_port, "8080");
    app.update(Message::TcpPortChanged("80a".to_string()));
    assert_eq!(app.link.tcp_port, "8080");
    app.update(Message::TcpPortChanged("123456".to_string()));
    assert_eq!(app.link.tcp_port, "8080");
    app.update(Message::TcpPortChanged(String::new()));
    assert_eq!(app.link.tcp_port, "");
}

#[test]
fn a_vanished_port_is_dropped() {
    let mut app = App::new();
    app.update(Message::PortSelected("COM7".to_string()));
    app.update(Message::PortsLoaded(vec!["COM3".to_string()]));
    assert_eq!(app.link.serial_port.as_deref(), Some("COM3"));
    app.update(Message::PortSelected("COM4".to_string()));
    app.update(Message::PortsLoaded(vec!["COM3".to_string(), "COM4".to_string()]));
    assert_eq!(app.link.serial_port.as_deref(), Some("COM4"));
    app.update(Message::PortsLoaded(Vec::new()));
    assert_eq!(app.link.serial_port, None);
}

#[test]
fn new_link_starts_stopped() {
    let mut app = running_app();
    app.update(Message::DirPressed(Dir::Forward));
    assert_eq!(app.drive.left_speed, 100);
    let fx = app.update(Message::Robot(RobotEvent::Connected("10.0.0.2:80".to_string())));
    assert!(is_stop_sequence(&fx));
    assert!(!app.drive.motor_running);
    assert_eq!(app.drive.left_speed, 0);
    assert!(!app.drive.keyboard.forward);
    assert!(app.link.connected);
    assert_eq!(app.link.status_text, "Bağlı — 10.0.0.2:80");
}

#[test]
fn start_and_stop() {
    let mut app = connected_app();
    let fx = app.update(Message::StartPressed);
    match fx.as_slice() {
        [Effect::Send(p), Effect::SetMotorRunning(true)] => {
            assert_eq!(*p, simple_packet(Command::SetStart));
        }
        other => panic!("unexpected {:?}", other),
    }
    assert!(app.drive.motor_running);
    let fx = app.update(Message::StopPressed);
    match fx.as_slice() {
        [Effect::Send(p), Effect::SetMotorRunning(false), Effect::SendZeroSpeed] => {
            assert_eq!(*p, simple_packet(Command::SetStop));
        }
        other => panic!("unexpected {:?}", other),
    }
    assert!(!app.drive.motor_running);
}

#[test]
fn emergency_stop_passes_an_open_modal() {
    let mut app = running_app();
    app.update(Message::ModalOpened(Modal::About));
    assert!(app.update(Message::DirPressed(Dir::Forward)).is_empty());
    assert_eq!(app.drive.left_speed, 0);
    let fx = app.update(Message::EmergencyStop);
    assert_eq!(fx.len(), 3);
    assert!(!app.drive.motor_running);
    app.update(Message::ModalClosed);
    assert_eq!(app.modal, None);
}

#[test]
fn keys_drive_only_while_running() {
    let mut app = connected_app();
    assert!(app.update(Message::DirPressed(Dir::Forward)).is_empty());
    assert!(!app.drive.keyboard.forward);
    app.update(Message::StartPressed);
    let fx = app.update(Message::DirPressed(Dir::Forward));
    assert!(matches!(fx.as_slice(), [Effect::SetSpeeds { left: 100, right: 100 }]));
    let fx = app.update(Message::DirPressed(Dir::Right));
    assert!(matches!(fx.as_slice(), [Effect::SetSpeeds { left: 0, right: 100 }]));
    app.update(Message::DirReleased(Dir::Forward));
    assert_eq!((app.drive.left_speed, app.drive.right_speed), (-100, 100));
}

#[test]
fn joystick_release_only_after_a_drag() {
    let mut app = running_app();
    assert!(app.update(Message::JoystickReleased).is_empty());
    let fx = app.update(Message::JoystickMoved { left: 60, right: 20 });
    assert!(matches!(fx.as_slice(), [Effect::SetSpeeds { left: 60, right: 20 }]));
    let fx = app.update(Message::JoystickReleased);
    assert!(matches!(fx.as_slice(), [Effect::SetSpeeds { left: 0, right: 0 }]));
    assert!(!app.drive.joystick_dragging);

    let mut idle = connected_app();
    assert!(idle.update(Message::JoystickMoved { left: 60, right: 20 }).is_empty());
    assert!(idle.drive.joystick_dragging);
    assert_eq!(idle.drive.left_speed, 0);
}

#[test]
fn gear_and_interval_are_clamped() {
    let mut app = App::new();
    assert!(matches!(app.update(Message::GearSelected(7)).as_slice(), [Effect::SetGear(3)]));
    assert!(matches!(app.update(Message::GearSelected(0)).as_slice(), [Effect::SetGear(1)]));
    assert!(matches!(app.update(Message::IntervalSelected(200)).as_slice(), [Effect::SetInterval(50)]));
    assert!(matches!(app.update(Message::IntervalSelected(3)).as_slice(), [Effect::SetInterval(10)]));
    assert_eq!(app.drive.send_interval_ms, 10);
}

#[test]
fn interval_steps_without_wrapping() {
    let mut app = App::new();
    app.update(Message::IntervalStepped(Step::Up));
    assert_eq!(app.drive.send_interval_ms, 40);
    app.update(Message::IntervalStepped(Step::Up));
    app.update(Message::IntervalStepped(Step::Up));
    assert_eq!(app.drive.send_interval_ms, 50);
    app.update(Message::IntervalSelected(10));
    assert!(app.update(Message::IntervalStepped(Step::Down)).is_empty());
    assert_eq!(app.drive.send_interval_ms, 10);
    // Not while the motor runs.
    let mut running = running_app();
    assert!(running.update(Message::IntervalStepped(Step::Up)).is_empty());
    assert_eq!(running.drive.send_interval_ms, 30);
}

#[test]
fn step_index_has_no_wrap() {
    assert_eq!(step_index(0, Step::Up, 5), Some(1));
    assert_eq!(step_index(4, Step::Up, 5), None);
    assert_eq!(step_index(0, Step::Down, 5), None);
    assert_eq!(step_index(3, Step::Down, 5), Some(2));
    assert_eq!(step_index(0, Step::Up, 0), None);
    assert_eq!(step_index(usize::MAX, Step::Up, usize::MAX), None);
}

#[test]
fn reverse_flags_exclude_each_other() {
    let mut app = App::new();
    let fx = app.update(Message::ReverseLeftToggled);
    assert!(matches!(fx.as_slice(), [Effect::SetReverseLeft(true), Effect::SetReverseRight(false)]));
    app.update(Message::ReverseRightToggled);
    assert!(app.drive.reverse_right);
    assert!(!app.drive.reverse_left);
    let fx = app.update(Message::ReverseRightToggled);
    assert!(matches!(fx.as_slice(), [Effect::SetReverseRight(false)]));
    assert!(!app.drive.reverse_left && !app.drive.reverse_right);
}

#[test]
fn light_brake_and_gps_need_a_link() {
    let mut app = App::new();
    assert!(app.update(Message::LightToggled).is_empty());
    assert!(app.update(Message::BrakeToggled).is_empty());
    assert!(app.update(Message::GpsToggled).is_empty());
    assert!(!app.drive.light_on && !app.drive.brake_on && !app.gps.active);

    let mut app = connected_app();
    match app.update(Message::LightToggled).as_slice() {
        [Effect::Send(p)] => assert_eq!(*p, light_packet(true)),
        other => panic!("unexpected {:?}", other),
    }
    match app.update(Message::BrakeToggled).as_slice() {
        [Effect::Send(p)] => assert_eq!(*p, brake_packet(true)),
        other => panic!("unexpected {:?}", other),
    }
    match app.update(Message::GpsToggled).as_slice() {
        [Effect::Send(p)] => assert_eq!(*p, gps_enable_packet(true)),
        other => panic!("unexpected {:?}", other),
    }
    assert!(app.drive.light_on && app.drive.brake_on && app.gps.active);
    match app.update(Message::LightToggled).as_slice() {
        [Effect::Send(p)] => assert_eq!(*p, light_packet(false)),
        other => panic!("unexpected {:?}", other),
    }
}

#[test]
fn link_loss_stops_and_keeps_the_reason() {
    let mut app = running_app();
    app.update(Message::GpsToggled);
    app.update(Message::Robot(RobotEvent::Error("Bağlantı kesildi.".to_string())));
    assert_eq!(app.link.last_error.as_deref(), Some("Bağlantı kesildi."));
    let fx = app.update(Message::Robot(RobotEvent::Disconnected));
    assert!(is_stop_sequence(&fx));
    assert!(!app.link.connected);
    assert!(!app.gps.active);
    assert!(!app.drive.motor_running);
    assert_eq!(app.link.status_text, "Bağlantı kesildi — Bağlantı kesildi.");

    let mut quiet = connected_app();
    quiet.update(Message::Robot(RobotEvent::Disconnected));
    assert_eq!(quiet.link.status_text, "Bağlantı kesildi");
}

#[test]
fn disconnect_pressed() {
    let mut app = running_app();
    let fx = app.update(Message::DisconnectPressed);
    assert!(matches!(
        fx.as_slice(),
        [Effect::Disconnect, Effect::SetMotorRunning(false), Effect::SendZeroSpeed]
    ));
    assert!(!app.drive.motor_running);
}

#[test]
fn robot_reports() {
    let mut app = connected_app();
    let fx = app.update(Message::Robot(RobotEvent::Packet(RobotResponse::Status(true))));
    assert!(matches!(fx.as_slice(), [Effect::SetMotorRunning(true)]));
    assert!(app.drive.motor_running);
    app.update(Message::Robot(RobotEvent::Packet(RobotResponse::Speed { gear: 9, left: -20, right: 30 })));
    assert_eq!((app.drive.gear, app.drive.left_speed, app.drive.right_speed), (3, -20, 30));
    app.update(Message::Robot(RobotEvent::Packet(RobotResponse::Light(true))));
    app.update(Message::Robot(RobotEvent::Packet(RobotResponse::Brake(true))));
    assert!(app.drive.light_on && app.drive.brake_on);
    assert!(app.update(Message::Robot(RobotEvent::Packet(RobotResponse::Unknown(vec![1])))).is_empty());
}

#[test]
fn first_gps_fix_centres_the_map() {
    let mut app = connected_app();
    let lat: f32 = 39.9;
    let fix = RobotResponse::Gps { lat_bits: lat.to_bits(), lon_bits: 32.8f32.to_bits() };
    let fx = app.update(Message::Robot(RobotEvent::Packet(fix.clone())));
    assert!(matches!(fx.as_slice(), [Effect::CenterOnRobot]));
    assert_eq!(f32::from_bits(app.gps.lat_bits), lat);
    assert_eq!(app.gps.point_count, 1);
    assert!(app.update(Message::Robot(RobotEvent::Packet(fix))).is_empty());
    assert_eq!(app.gps.point_count, 2);
}

#[test]
fn shortcut_gates() {
    // Motor start needs a link and a stopped motor.
    let mut app = App::new();
    assert!(app.update(Message::MotorStartRequested).is_empty());
    let mut app = connected_app();
    assert_eq!(app.update(Message::MotorStartRequested).len(), 2);
    assert!(app.update(Message::MotorStartRequested).is_empty());
    // The transport does not change while a link is up.
    assert!(app.update(Message::TransportToggleRequested).is_empty());
    assert!(app.link.is_serial);
    let mut idle = App::new();
    idle.update(Message::TransportToggleRequested);
    assert!(!idle.link.is_serial);
    // Connection toggle: a live link is closed.
    let fx = app.update(Message::ConnectionToggleRequested);
    assert!(matches!(fx.first(), Some(Effect::Disconnect)));
    // Refresh asks for both lists.
    let fx = idle.update(Message::RefreshRequested);
    assert!(matches!(fx.as_slice(), [Effect::ListPorts, Effect::ListCameras]));
}

#[test]
fn connection_toggle_does_not_connect_twice() {
    let mut app = App::new();
    app.update(Message::PortsLoaded(vec!["COM3".to_string()]));
    let fx = app.update(Message::ConnectionToggleRequested);
    assert!(matches!(fx.as_slice(), [Effect::ConnectSerial { .. }]));
    assert!(app.update(Message::ConnectionToggleRequested).is_empty());
}

#[test]
fn map_zoom_only_on_the_map_tab() {
    let mut app = App::new();
    assert!(app.update(Message::MapZoomStepped(Step::Up)).is_empty());
    app.update(Message::TabSelected(Tab::MapView));
    let fx = app.update(Message::MapZoomStepped(Step::Up));
    assert!(matches!(fx.as_slice(), [Effect::ZoomMap(16)]));
    assert_eq!(app.map_zoom, 16);
    app.update(Message::MapZoomSelected(25));
    assert_eq!(app.map_zoom, 19);
    app.update(Message::MapZoomedAt(0));
    assert_eq!(app.map_zoom, 1);
    assert!(matches!(app.update(Message::MapPanned).as_slice(), [Effect::ApplyMapView]));
    assert!(matches!(app.update(Message::TileLoaded(TileResult::Loaded)).as_slice(), [Effect::ApplyTile]));
    assert!(app.update(Message::TileLoaded(TileResult::Stale)).is_empty());
}

fn cam(index: usize, name: &str) -> CameraChoice {
    CameraChoice { index, name: name.to_string() }
}

#[test]
fn camera_flow() {
    let mut app = App::new();
    assert!(app.update(Message::CameraToggleRequested).is_empty());
    app.update(Message::CamerasLoaded(vec![cam(0, "USB"), cam(2, "Dahili")]));
    assert_eq!(app.camera.selected, Some(cam(0, "USB")));
    let fx = app.update(Message::CameraToggleRequested);
    assert!(matches!(fx.as_slice(), [Effect::StartCamera(0)]));
    assert!(app.camera.starting && !app.camera.running);
    // Nothing while it is starting.
    assert!(app.update(Message::CameraToggleRequested).is_empty());
    // Detection only while the camera runs.
    assert!(app.update(Message::DetectionToggled).is_empty());
    app.update(Message::Camera(CameraNotice::Started));
    assert!(app.camera.running && !app.camera.starting);
    assert!(matches!(app.update(Message::DetectionToggled).as_slice(), [Effect::SetDetection(true)]));
    app.update(Message::Camera(CameraNotice::DetectionCount(4)));
    app.update(Message::Camera(CameraNotice::Fps(25)));
    assert_eq!(app.camera.detection_count, 4);
    let fx = app.update(Message::CameraToggleRequested);
    assert!(matches!(fx.as_slice(), [Effect::StopCamera, Effect::SetDetection(false)]));
    assert!(!app.camera.running && !app.camera.detection_enabled);
    assert_eq!(app.camera.detection_count, 0);
    assert_eq!(app.camera.fps, 0);
}

#[test]
fn camera_list_keeps_the_chosen_camera() {
    let mut app = App::new();
    app.update(Message::CameraSelected(cam(2, "Dahili")));
    app.update(Message::CamerasLoaded(vec![cam(0, "USB"), cam(2, "Dahili")]));
    assert_eq!(app.camera.selected, Some(cam(2, "Dahili")));
    app.update(Message::CamerasLoaded(vec![cam(5, "Yeni")]));
    assert_eq!(app.camera.selected, Some(cam(5, "Yeni")));
    app.update(Message::CamerasLoaded(Vec::new()));
    assert_eq!(app.camera.selected, None);
    assert_eq!(cam(3, "X").label(), "3: X");
}

#[test]
fn detection_stays_off_once_unavailable() {
    let mut app = App::new();
    app.update(Message::CamerasLoaded(vec![cam(0, "USB")]));
    app.update(Message::CameraStartPressed);
    app.update(Message::Camera(CameraNotice::Started));
    app.update(Message::DetectionToggled);
    let fx = app.update(Message::Camera(CameraNotice::DetectionUnavailable("model yok".to_string())));
    assert!(matches!(fx.as_slice(), [Effect::SetDetection(false)]));
    assert!(!app.camera.detection_enabled);
    assert!(app.update(Message::DetectionToggled).is_empty());
    assert!(!app.camera.detection_enabled);
}

#[test]
fn camera_error_clears_the_picture() {
    let mut app = App::new();
    app.update(Message::CamerasLoaded(vec![cam(0, "USB")]));
    app.update(Message::CameraStartPressed);
    app.update(Message::Camera(CameraNotice::Started));
    app.update(Message::Camera(CameraNotice::Frame));
    assert!(app.camera.has_frame);
    app.update(Message::Camera(CameraNotice::Error("açılamadı".to_string())));
    assert!(!app.camera.running && !app.camera.has_frame);
    assert_eq!(app.camera.error, "açılamadı");
    app.update(Message::CameraStartPressed);
    assert_eq!(app.camera.error, "");
}

#[test]
fn closing_stops_the_robot_first() {
    let mut app = running_app();
    let fx = app.update(Message::CloseRequested);
    match fx.as_slice() {
        [Effect::Send(p), Effect::SetMotorRunning(false), Effect::SendZeroSpeed, Effect::ShutdownCamera, Effect::Exit] => {
            assert_eq!(*p, simple_packet(Command::SetStop));
        }
        other => panic!("unexpected {:?}", other),
    }
}

#[test]
fn view_toggles() {
    let mut app = App::new();
    app.update(Message::ThemeToggled);
    assert!(!app.is_dark);
    app.update(Message::ModalOpened(Modal::Shortcuts));
    // The theme key is blocked while a modal window is open.
    app.update(Message::ThemeToggled);
    assert!(!app.is_dark);
    app.update(Message::ModalClosed);
    app.update(Message::TabSelected(Tab::MapView));
    assert_eq!(app.tab, Tab::MapView);
}

#[test]
fn sender_shows_what_the_controller_shows() {
    let mut app = App::new();
    let mut sender = SpeedSender::new();
    let script = vec![
        Message::Robot(RobotEvent::Connected("COM3".to_string())),
        Message::GearSelected(2),
        Message::IntervalStepped(Step::Up),
        Message::StartPressed,
        Message::DirPressed(Dir::Forward),
        Message::ReverseLeftToggled,
        Message::DirPressed(Dir::Left),
        Message::JoystickMoved { left: -30, right: 45 },
        Message::JoystickReleased,
        Message::ReverseRightToggled,
        Message::Robot(RobotEvent::Packet(RobotResponse::Status(false))),
        Message::MotorStartRequested,
        Message::DirPressed(Dir::Backward),
        Message::EmergencyStop,
        Message::StartPressed,
        Message::DirPressed(Dir::Right),
        Message::Robot(RobotEvent::Disconnected),
    ];
    for msg in script {
        for e in app.update(msg) {
            sender.apply(&e);
        }
        let d = app.drive;
        assert_eq!(
            (sender.left, sender.right, sender.gear, sender.motor_running),
            (d.left_speed, d.right_speed, d.gear, d.motor_running)
        );
        assert_eq!(
            (sender.reverse_left, sender.reverse_right, sender.send_interval_ms),
            (d.reverse_left, d.reverse_right, d.send_interval_ms)
        );
    }
}
