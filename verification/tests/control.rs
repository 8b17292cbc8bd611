use yoruk::camera::{
    detection_idle_notice, notice_of, CameraAction, CameraEvent, CameraInput, CameraPhase, CameraWorker,
    FpsCounter, FrameGate,
};
use yoruk::hotkeys::{direction, on_key_down, on_key_up, Key};
use yoruk::keyboard::{calculate, KeyboardState, MotorSpeeds};
use yoruk::message::{CameraNotice, Dir, Message, Modal, Step, Tab};
use yoruk::packet::speed_packet;
use yoruk::redraw::{JoystickKey, Keyed};
use yoruk::sender::{SpeedSender, MIN_INTERVAL_MS};
use yoruk::update::Effect;

#[test]
fn test_idle() {
    let s = calculate(&KeyboardState::default());
    assert_eq!(s.left, 0);
    assert_eq!(s.right, 0);
}

#[test]
fn keyboard_test_forward() {
    let s = calculate(&KeyboardState { forward: true, ..Default::default() });
    assert_eq!(s.left, 100);
    assert_eq!(s.right, 100);
}

#[test]
fn keyboard_test_backward() {
    let s = calculate(&KeyboardState { backward: true, ..Default::default() });
    assert_eq!(s.left, -100);
    assert_eq!(s.right, -100);
}

#[test]
fn keyboard_test_turn_right_in_place() {
    let s = calculate(&KeyboardState { right: true, ..Default::default() });
    assert_eq!(s.left, -100);
    assert_eq!(s.right, 100);
}

#[test]
fn keyboard_test_turn_left_in_place() {
    let s = calculate(&KeyboardState { left: true, ..Default::default() });
    assert_eq!(s.left, 100);
    assert_eq!(s.right, -100);
}

#[test]
fn test_forward_right() {
    let s = calculate(&KeyboardState { forward: true, right: true, ..Default::default() });
    assert_eq!(s.left, 0);
    assert_eq!(s.right, 100);
}

#[test]
fn keyboard_forward_left_curve() {
    let s = calculate(&KeyboardState { forward: true, left: true, ..Default::default() });
    assert_eq!((s.left, s.right), (100, 0));
}

#[test]
fn keyboard_opposite_keys_cancel() {
    let all = KeyboardState { forward: true, backward: true, left: true, right: true };
    assert_eq!(calculate(&all), MotorSpeeds { left: 0, right: 0 });
    let back_left = KeyboardState { backward: true, left: true, ..Default::default() };
    assert_eq!(calculate(&back_left), MotorSpeeds { left: 0, right: -100 });
    assert_eq!(MotorSpeeds::default(), MotorSpeeds { left: 0, right: 0 });
}

#[test]
fn keyboard_turns_mirror() {
    // Swapping left and right swaps the two motor speeds.
    for bits in 0u8..16 {
        let k = KeyboardState {
            forward: bits & 1 != 0,
            backward: bits & 2 != 0,
            left: bits & 4 != 0,
            right: bits & 8 != 0,
        };
        let m = KeyboardState { left: k.right, right: k.left, ..k };
        let a = calculate(&k);
        let b = calculate(&m);
        assert_eq!((a.left, a.right), (b.right, b.left));
    }
}

fn ch(s: &str) -> Key {
    Key::Character(s.to_string())
}

#[test]
fn driving_keys() {
    assert_eq!(direction(&Key::ArrowUp), Some(Dir::Forward));
    assert_eq!(direction(&Key::ArrowDown), Some(Dir::Backward));
    assert_eq!(direction(&Key::ArrowLeft), Some(Dir::Left));
    assert_eq!(direction(&Key::ArrowRight), Some(Dir::Right));
    assert_eq!(direction(&ch("w")), Some(Dir::Forward));
    assert_eq!(direction(&ch("S")), Some(Dir::Backward));
    assert_eq!(direction(&ch("a")), Some(Dir::Left));
    assert_eq!(direction(&ch("D")), Some(Dir::Right));
    assert_eq!(direction(&ch("x")), None);
    assert_eq!(direction(&ch("ww")), None);
    assert_eq!(direction(&Key::Space), None);
}

#[test]
fn key_down_messages() {
    assert!(matches!(on_key_down(&ch("w")), Some(Message::DirPressed(Dir::Forward))));
    assert!(matches!(on_key_down(&Key::Space), Some(Message::EmergencyStop)));
    assert!(matches!(on_key_down(&Key::Escape), Some(Message::ModalClosed)));
    assert!(matches!(on_key_down(&ch("2")), Some(Message::GearSelected(2))));
    assert!(matches!(on_key_down(&ch("L")), Some(Message::LightToggled)));
    assert!(matches!(on_key_down(&ch("b")), Some(Message::BrakeToggled)));
    assert!(matches!(on_key_down(&ch("c")), Some(Message::TabSelected(Tab::Camera))));
    assert!(matches!(on_key_down(&ch("M")), Some(Message::TabSelected(Tab::MapView))));
    assert!(matches!(on_key_down(&ch("t")), Some(Message::ThemeToggled)));
    assert!(matches!(on_key_down(&ch("?")), Some(Message::ModalOpened(Modal::Shortcuts))));
    assert!(on_key_down(&ch("q")).is_none());
    assert!(on_key_down(&Key::Other).is_none());
}

#[test]
fn key_up_releases_only_driving_keys() {
    assert!(matches!(on_key_up(&Key::ArrowLeft), Some(Message::DirReleased(Dir::Left))));
    assert!(matches!(on_key_up(&ch("d")), Some(Message::DirReleased(Dir::Right))));
    assert!(on_key_up(&Key::Space).is_none());
    assert!(on_key_up(&ch("l")).is_none());
}

#[test]
fn sender_ticks_only_while_running() {
    let mut s = SpeedSender::new();
    assert_eq!(s.send_interval_ms, 30);
    assert!(s.tick().is_none());
    s.apply(&Effect::SetMotorRunning(true));
    s.apply(&Effect::SetSpeeds { left: 40, right: -40 });
    s.apply(&Effect::SetGear(2));
    assert_eq!(s.tick(), Some(speed_packet(40, -40, 2, false, false)));
    s.apply(&Effect::SetReverseRight(true));
    assert_eq!(s.tick(), Some(speed_packet(40, -40, 2, false, true)));
}

#[test]
fn sender_zero_speed_frame() {
    let mut s = SpeedSender::new();
    s.set_speeds(70, 70);
    s.gear = 3;
    let pkt = s.apply(&Effect::SendZeroSpeed);
    assert_eq!(pkt, Some(speed_packet(0, 0, 3, false, false)));
    assert_eq!((s.left, s.right), (0, 0));
    assert!(s.apply(&Effect::ListPorts).is_none());
}

#[test]
fn sender_sleep_has_a_floor() {
    let mut s = SpeedSender::new();
    assert_eq!(s.sleep_ms(), 30);
    s.apply(&Effect::SetInterval(2));
    assert_eq!(s.sleep_ms(), MIN_INTERVAL_MS);
    s.apply(&Effect::SetInterval(50));
    assert_eq!(s.sleep_ms(), 50);
}

#[test]
fn camera_notices() {
    assert!(matches!(notice_of(CameraEvent::Started), CameraNotice::Started));
    assert!(matches!(notice_of(CameraEvent::Stopped), CameraNotice::Stopped));
    match notice_of(CameraEvent::Error("kamera yok".to_string())) {
        CameraNotice::Error(m) => assert_eq!(m, "kamera yok"),
        other => panic!("unexpected {:?}", other),
    }
    assert!(matches!(detection_idle_notice(true), Some(CameraNotice::DetectionCount(0))));
    assert!(detection_idle_notice(false).is_none());
}

#[test]
fn frame_gate_skips_one_frame_after_a_full_channel() {
    let mut g = FrameGate::new();
    assert!(g.should_decode());
    g.delivered(false);
    assert!(!g.should_decode());
    assert!(g.should_decode());
    g.delivered(true);
    assert!(g.should_decode());
}

#[test]
fn fps_counter_reports_once_a_second() {
    let mut c = FpsCounter::new();
    assert_eq!(c.on_frame(false), None);
    assert_eq!(c.on_frame(false), None);
    assert_eq!(c.on_frame(true), Some(3));
    assert_eq!(c.frames, 0);
    assert_eq!(c.on_frame(true), Some(1));
}

#[test]
fn joystick_drawing_is_cached_per_key() {
    let mut cache: Keyed<JoystickKey> = Keyed::new();
    let k = JoystickKey::new(0.0f32.to_bits(), 0.0f32.to_bits(), false, true, false, true);
    assert!(cache.refresh(k));
    assert!(!cache.refresh(k));
    let moved = JoystickKey::new(12.5f32.to_bits(), 0.0f32.to_bits(), true, true, false, true);
    assert!(cache.refresh(moved));
    assert!(!cache.refresh(moved));
    let light = JoystickKey { dark: false, ..moved };
    assert!(cache.refresh(light));
}

#[test]
fn camera_worker_reactions() {
    let mut w = CameraWorker::new(2);
    match w.step(CameraInput::OpenFailed("meşgul".to_string())) {
        (Some(CameraEvent::Error(m)), CameraAction::Finish) => assert_eq!(m, "Kamera açılamadı (index 2): meşgul"),
        other => panic!("unexpected {:?}", other),
    }
    assert_eq!(w.phase, CameraPhase::Done);
    assert!(matches!(w.step(CameraInput::StreamStarted), (None, CameraAction::Finish)));

    let mut w = CameraWorker::new(0);
    assert!(matches!(w.step(CameraInput::Opened { stop: true }), (Some(CameraEvent::Stopped), CameraAction::Finish)));

    let mut w = CameraWorker::new(0);
    // A frame cannot arrive before the stream starts: nothing happens.
    assert!(matches!(w.step(CameraInput::FrameArrived { stop: false }), (None, CameraAction::Continue)));
    assert!(matches!(w.step(CameraInput::Opened { stop: false }), (None, CameraAction::Continue)));
    match w.step(CameraInput::StreamFailed("yok".to_string())) {
        (Some(CameraEvent::Error(m)), CameraAction::Finish) => assert_eq!(m, "Kamera stream açılamadı: yok"),
        other => panic!("unexpected {:?}", other),
    }

    let mut w = CameraWorker::new(0);
    w.step(CameraInput::Opened { stop: false });
    assert!(matches!(w.step(CameraInput::StreamStarted), (Some(CameraEvent::Started), CameraAction::Continue)));
    assert!(matches!(w.step(CameraInput::FrameArrived { stop: false }), (None, CameraAction::Decode)));
    w.delivered(false);
    assert!(matches!(w.step(CameraInput::FrameArrived { stop: false }), (None, CameraAction::Skip)));
    assert!(matches!(w.step(CameraInput::FrameArrived { stop: false }), (None, CameraAction::Decode)));
    w.delivered(true);
    assert!(matches!(w.step(CameraInput::FrameArrived { stop: true }), (Some(CameraEvent::Stopped), CameraAction::Finish)));
    assert_eq!(w.phase, CameraPhase::Done);

    let mut w = CameraWorker::new(1);
    w.step(CameraInput::Opened { stop: false });
    w.step(CameraInput::StreamStarted);
    assert!(matches!(w.step(CameraInput::FrameFailed), (Some(CameraEvent::Stopped), CameraAction::Finish)));
    let mut w = CameraWorker::new(1);
    w.step(CameraInput::Opened { stop: false });
    w.step(CameraInput::StreamStarted);
    assert!(matches!(w.step(CameraInput::StopRequested), (Some(CameraEvent::Stopped), CameraAction::Finish)));
}

#[test]
fn shortcut_keys_of_the_help_window() {
    assert!(matches!(on_key_down(&Key::Enter), Some(Message::ConnectionToggleRequested)));
    assert!(matches!(on_key_down(&Key::F5), Some(Message::RefreshRequested)));
    assert!(matches!(on_key_down(&ch("r")), Some(Message::MotorStartRequested)));
    assert!(matches!(on_key_down(&ch("R")), Some(Message::MotorStartRequested)));
    assert!(matches!(on_key_down(&ch("v")), Some(Message::CameraToggleRequested)));
    assert!(matches!(on_key_down(&ch("X")), Some(Message::TransportToggleRequested)));
    assert!(matches!(on_key_down(&ch("n")), Some(Message::DetectionToggled)));
    assert!(matches!(on_key_down(&ch("G")), Some(Message::GpsToggled)));
    assert!(matches!(on_key_down(&ch("[")), Some(Message::IntervalStepped(Step::Down))));
    assert!(matches!(on_key_down(&ch("]")), Some(Message::IntervalStepped(Step::Up))));
    assert!(matches!(on_key_down(&ch("+")), Some(Message::MapZoomStepped(Step::Up))));
    assert!(matches!(on_key_down(&ch("-")), Some(Message::MapZoomStepped(Step::Down))));
    assert!(matches!(on_key_down(&ch(",")), Some(Message::ReverseLeftToggled)));
    assert!(matches!(on_key_down(&ch(".")), Some(Message::ReverseRightToggled)));
    assert!(on_key_up(&Key::Enter).is_none());
    assert!(on_key_up(&ch("r")).is_none());
}
