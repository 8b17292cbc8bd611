//! What each control of the controller does, message by message: the state it
//! changes and the effects it asks for, stated over the inputs with plain values.

use vstd::prelude::*;
use vstd::string::*;
use crate::framing::RobotEvent;
use crate::hotkeys::{key_down_message, Key};
use crate::input::{decimal, is_ipv4_text};
use crate::keyboard::{keyboard_left, keyboard_right, KeyboardState};
use crate::message::{CameraNotice, Dir, Message, Modal, Step, Tab, TileResult};
use crate::state::{choices, port_value, texts, AppModel, CameraChoice, CameraModel, Drive, Gps, LinkModel};
use crate::types::RobotResponse;
use crate::update::{step, EffectModel};

verus! {

/// `f` is an on/off frame with command byte `cmd`: `[0xAA][cmd][0x01][on]` and two
/// checksum bytes.
pub open spec fn is_switch_frame(f: Seq<u8>, cmd: u8, on: bool) -> bool {
    &&& f.len() == 6
    &&& f[0] == 0xAA
    &&& f[1] == cmd
    &&& f[2] == 1
    &&& f[3] == (if on { 1u8 } else { 0u8 })
}

/// A gear number is taken as it is within 1 to 3; 0 gives the first gear and
/// anything above 3 the third. The sender is told the new gear; nothing else changes.
pub proof fn law_gear_selection(m: AppModel, g: u8)
    requires
        m.modal is None,
    ensures
        ({
            let out = step(m, Message::GearSelected(g));
            let gear = out.0.drive.gear;
            &&& 1 <= g <= 3 ==> gear == g
            &&& g == 0 ==> gear == 1
            &&& g > 3 ==> gear == 3
            &&& out.0 == (AppModel { drive: Drive { gear, ..m.drive }, ..m })
            &&& out.1 == seq![EffectModel::SetGear(gear)]
        }),
{
}

/// A send interval is taken as it is within 10 to 50 ms; shorter gives 10 ms and
/// longer 50 ms. The sender is told the new interval; nothing else changes.
pub proof fn law_interval_selection(m: AppModel, ms: u8)
    requires
        m.modal is None,
    ensures
        ({
            let out = step(m, Message::IntervalSelected(ms));
            let v = out.0.drive.send_interval_ms;
            &&& 10 <= ms <= 50 ==> v == ms
            &&& ms < 10 ==> v == 10
            &&& ms > 50 ==> v == 50
            &&& out.0 == (AppModel { drive: Drive { send_interval_ms: v, ..m.drive }, ..m })
            &&& out.1 == seq![EffectModel::SetInterval(v)]
        }),
{
}

/// A reverse switch flips its own flag; switching one on switches the other off,
/// switching it off leaves the other alone. The sender is told each flag that changes.
pub proof fn law_reverse_switches(m: AppModel)
    requires
        m.modal is None,
    ensures
        ({
            let l = step(m, Message::ReverseLeftToggled);
            let r = step(m, Message::ReverseRightToggled);
            &&& l.0.drive.reverse_left == !m.drive.reverse_left
            &&& l.0.drive.reverse_right == (m.drive.reverse_right && m.drive.reverse_left)
            &&& l.0 == (AppModel {
                drive: Drive { reverse_left: l.0.drive.reverse_left, reverse_right: l.0.drive.reverse_right, ..m.drive },
                ..m
            })
            &&& !m.drive.reverse_left ==> l.1 == seq![
                EffectModel::SetReverseLeft(true),
                EffectModel::SetReverseRight(false),
            ]
            &&& m.drive.reverse_left ==> l.1 == seq![EffectModel::SetReverseLeft(false)]
            &&& r.0.drive.reverse_right == !m.drive.reverse_right
            &&& r.0.drive.reverse_left == (m.drive.reverse_left && m.drive.reverse_right)
            &&& r.0 == (AppModel {
                drive: Drive { reverse_left: r.0.drive.reverse_left, reverse_right: r.0.drive.reverse_right, ..m.drive },
                ..m
            })
            &&& !m.drive.reverse_right ==> r.1 == seq![
                EffectModel::SetReverseRight(true),
                EffectModel::SetReverseLeft(false),
            ]
            &&& m.drive.reverse_right ==> r.1 == seq![EffectModel::SetReverseRight(false)]
        }),
{
}

/// With a link, the light, brake and GPS switches flip their state and send one
/// on/off frame carrying the new state: command `0x02` for the light, `0x03` for the
/// brake and `0x04` for the GPS broadcast.
pub proof fn law_switches_with_a_link(m: AppModel)
    requires
        m.modal is None,
        m.link.connected,
    ensures
        ({
            let light = step(m, Message::LightToggled);
            let brake = step(m, Message::BrakeToggled);
            let gps = step(m, Message::GpsToggled);
            &&& light.0 == (AppModel { drive: Drive { light_on: !m.drive.light_on, ..m.drive }, ..m })
            &&& light.1.len() == 1
            &&& light.1[0] matches EffectModel::Send(f) && is_switch_frame(f, 0x02, !m.drive.light_on)
            &&& brake.0 == (AppModel { drive: Drive { brake_on: !m.drive.brake_on, ..m.drive }, ..m })
            &&& brake.1.len() == 1
            &&& brake.1[0] matches EffectModel::Send(f) && is_switch_frame(f, 0x03, !m.drive.brake_on)
            &&& gps.0.gps.active == !m.gps.active
            &&& gps.1.len() == 1
            &&& gps.1[0] matches EffectModel::Send(f) && is_switch_frame(f, 0x04, !m.gps.active)
            &&& m.gps.active ==> gps.0 == (AppModel { gps: Gps { active: false, ..m.gps }, ..m })
        }),
{
}

/// Starting the motor sends the start frame `[0xAA][0xFF][0x00]` (with its checksum)
/// and tells the sender the motor runs. The start shortcut does so only with a link
/// and a stopped motor, and changes nothing otherwise.
pub proof fn law_motor_start(m: AppModel)
    requires
        m.modal is None,
    ensures
        ({
            let start = step(m, Message::StartPressed);
            let shortcut = step(m, Message::MotorStartRequested);
            &&& start.0 == (AppModel { drive: Drive { motor_running: true, ..m.drive }, ..m })
            &&& start.1.len() == 2
            &&& start.1[0] matches EffectModel::Send(f) && f.len() == 5 && f[0] == 0xAA && f[1] == 0xFF && f[2] == 0
            &&& start.1[1] == EffectModel::SetMotorRunning(true)
            &&& (m.link.connected && !m.drive.motor_running) ==> shortcut == start
            &&& !(m.link.connected && !m.drive.motor_running) ==> shortcut.0 == m && shortcut.1 == Seq::<
                EffectModel,
            >::empty()
        }),
{
}

/// With the motor running and no drive key held, each drive key alone gives the
/// speeds of the keyboard table: forward (100, 100), backward (-100, -100), left
/// (100, -100), right (-100, 100); releasing it again gives (0, 0) with no key held.
pub proof fn law_drive_keys(m: AppModel, d: Dir)
    requires
        m.modal is None,
        m.drive.motor_running,
        !m.drive.keyboard.forward && !m.drive.keyboard.backward,
        !m.drive.keyboard.left && !m.drive.keyboard.right,
    ensures
        ({
            let pressed = step(m, Message::DirPressed(d));
            let released = step(pressed.0, Message::DirReleased(d));
            let (l, r) = match d {
                Dir::Forward => (100i8, 100i8),
                Dir::Backward => (-100i8, -100i8),
                Dir::Left => (100i8, -100i8),
                Dir::Right => (-100i8, 100i8),
            };
            &&& pressed.0.drive.left_speed == l && pressed.0.drive.right_speed == r
            &&& pressed.1 == seq![EffectModel::SetSpeeds { left: l, right: r }]
            &&& match d {
                Dir::Forward => pressed.0.drive.keyboard.forward,
                Dir::Backward => pressed.0.drive.keyboard.backward,
                Dir::Left => pressed.0.drive.keyboard.left,
                Dir::Right => pressed.0.drive.keyboard.right,
            }
            &&& released.0 == (AppModel { drive: Drive { left_speed: 0, right_speed: 0, ..m.drive }, ..m })
            &&& released.1 == seq![EffectModel::SetSpeeds { left: 0, right: 0 }]
        }),
{
}

/// The joystick drives at the speeds it gives while the motor runs; letting go of it
/// after a drag stops both motors. With the motor stopped a drag changes no speed.
pub proof fn law_joystick(m: AppModel, left: i8, right: i8)
    requires
        m.modal is None,
    ensures
        ({
            let moved = step(m, Message::JoystickMoved { left, right });
            let released = step(moved.0, Message::JoystickReleased);
            &&& moved.0.drive.joystick_dragging
            &&& m.drive.motor_running ==> moved.0.drive.left_speed == left && moved.0.drive.right_speed == right
                && moved.1 == seq![EffectModel::SetSpeeds { left, right }]
            &&& !m.drive.motor_running ==> moved.0.drive.left_speed == m.drive.left_speed
                && moved.0.drive.right_speed == m.drive.right_speed && moved.1 == Seq::<EffectModel>::empty()
            &&& !released.0.drive.joystick_dragging
            &&& released.0.drive.left_speed == 0 && released.0.drive.right_speed == 0
            &&& released.1 == seq![EffectModel::SetSpeeds { left: 0, right: 0 }]
        }),
{
}

/// Notices of the camera worker: `Started` makes the camera run and clears its error
/// text, a frame is shown, the frame rate and the detection count are shown as
/// reported, and a detector that cannot run switches detection off for good.
pub proof fn law_camera_notices(m: AppModel, fps: u32, count: usize, reason: String)
    ensures
        ({
            let c = m.camera;
            let started = step(m, Message::Camera(CameraNotice::Started));
            let frame = step(m, Message::Camera(CameraNotice::Frame));
            let rate = step(m, Message::Camera(CameraNotice::Fps(fps)));
            let counted = step(m, Message::Camera(CameraNotice::DetectionCount(count)));
            let lost = step(m, Message::Camera(CameraNotice::DetectionUnavailable(reason)));
            &&& started.0 == (AppModel {
                camera: CameraModel { running: true, starting: false, error: Seq::empty(), ..c },
                ..m
            })
            &&& frame.0 == (AppModel { camera: CameraModel { has_frame: true, ..c }, ..m })
            &&& rate.0 == (AppModel { camera: CameraModel { fps, ..c }, ..m })
            &&& counted.0 == (AppModel { camera: CameraModel { detection_count: count, ..c }, ..m })
            &&& started.1.len() == 0 && frame.1.len() == 0 && rate.1.len() == 0 && counted.1.len() == 0
            &&& lost.0 == (AppModel {
                camera: CameraModel {
                    detection_error: Some(reason@),
                    detection_enabled: false,
                    detection_count: 0,
                    ..c
                },
                ..m
            })
            &&& lost.1 == seq![EffectModel::SetDetection(false)]
            &&& step(lost.0, Message::DetectionToggled).0 == lost.0
        }),
{
}

/// Detection switches only while the camera runs and the detector works: then it
/// flips, the worker is told, and switching it off clears the count.
pub proof fn law_detection_switch(m: AppModel)
    requires
        m.modal is None,
    ensures
        ({
            let out = step(m, Message::DetectionToggled);
            let on = !m.camera.detection_enabled;
            &&& (m.camera.running && m.camera.detection_error is None) ==> out.0 == (AppModel {
                camera: CameraModel {
                    detection_enabled: on,
                    detection_count: if on { m.camera.detection_count } else { 0 },
                    ..m.camera
                },
                ..m
            }) && out.1 == seq![EffectModel::SetDetection(on)]
            &&& !(m.camera.running && m.camera.detection_error is None) ==> out.0 == m && out.1.len() == 0
        }),
{
}

/// The camera start button starts the chosen camera, which then counts as starting
/// (not yet running) with no error shown; the stop button stops it and detection
/// with it.
pub proof fn law_camera_buttons(m: AppModel)
    requires
        m.modal is None,
    ensures
        ({
            let start = step(m, Message::CameraStartPressed);
            let stop = step(m, Message::CameraStopPressed);
            &&& m.camera.selected is None ==> start.0 == m && start.1.len() == 0
            &&& m.camera.selected is Some ==> start.0 == (AppModel {
                camera: CameraModel { starting: true, error: Seq::empty(), ..m.camera },
                ..m
            }) && start.1 == seq![EffectModel::StartCamera(m.camera.selected.unwrap().0)]
            &&& stop.0 == (AppModel {
                camera: CameraModel {
                    running: false,
                    starting: false,
                    has_frame: false,
                    fps: 0,
                    detection_enabled: false,
                    detection_count: 0,
                    ..m.camera
                },
                ..m
            })
            &&& stop.1 == seq![EffectModel::StopCamera, EffectModel::SetDetection(false)]
        }),
{
}

/// What the robot reports is shown: its motor state (which the sender follows), the
/// speeds and gear it drives with (gear kept within 1 to 3), its light and brake;
/// a GPS fix is counted and stored, and only the first one centres the map. An
/// unknown report changes nothing.
pub proof fn law_robot_reports(m: AppModel, running: bool, gear: u8, left: i8, right: i8, on: bool, lat_bits: u32, lon_bits: u32, raw: Vec<u8>)
    requires
        m.gps.point_count < usize::MAX,
    ensures
        ({
            let status = step(m, Message::Robot(RobotEvent::Packet(RobotResponse::Status(running))));
            let speed = step(m, Message::Robot(RobotEvent::Packet(RobotResponse::Speed { gear, left, right })));
            let light = step(m, Message::Robot(RobotEvent::Packet(RobotResponse::Light(on))));
            let brake = step(m, Message::Robot(RobotEvent::Packet(RobotResponse::Brake(on))));
            let fix = step(m, Message::Robot(RobotEvent::Packet(RobotResponse::Gps { lat_bits, lon_bits })));
            let unknown = step(m, Message::Robot(RobotEvent::Packet(RobotResponse::Unknown(raw))));
            &&& status.0 == (AppModel { drive: Drive { motor_running: running, ..m.drive }, ..m })
            &&& status.1 == seq![EffectModel::SetMotorRunning(running)]
            &&& speed.0.drive.left_speed == left && speed.0.drive.right_speed == right
            &&& 1 <= gear <= 3 ==> speed.0.drive.gear == gear
            &&& gear == 0 ==> speed.0.drive.gear == 1
            &&& gear > 3 ==> speed.0.drive.gear == 3
            &&& speed.0 == (AppModel {
                drive: Drive { gear: speed.0.drive.gear, left_speed: left, right_speed: right, ..m.drive },
                ..m
            })
            &&& speed.1.len() == 0
            &&& light.0 == (AppModel { drive: Drive { light_on: on, ..m.drive }, ..m }) && light.1.len() == 0
            &&& brake.0 == (AppModel { drive: Drive { brake_on: on, ..m.drive }, ..m }) && brake.1.len() == 0
            &&& fix.0 == (AppModel {
                gps: Gps { lat_bits, lon_bits, point_count: (m.gps.point_count + 1) as usize, ..m.gps },
                ..m
            })
            &&& m.gps.point_count == 0 ==> fix.1 == seq![EffectModel::CenterOnRobot]
            &&& m.gps.point_count > 0 ==> fix.1.len() == 0
            &&& unknown.0 == m && unknown.1.len() == 0
        }),
{
}

/// The view controls: the theme flips, a tab is selected, a modal window opens and
/// closes; the link fields take what is typed, except that the TCP port field takes
/// only up to five ASCII digits.
pub proof fn law_view_and_fields(m: AppModel, t: Tab, md: Modal, text: String, serial: bool)
    requires
        m.modal is None,
    ensures
        ({
            let port = step(m, Message::TcpPortChanged(text));
            let digits = text@.len() <= 5 && forall|i: int| 0 <= i < text@.len() ==> '0' <= #[trigger] text@[i] <= '9';
            &&& step(m, Message::ThemeToggled).0 == (AppModel { is_dark: !m.is_dark, ..m })
            &&& step(m, Message::TabSelected(t)).0 == (AppModel { tab: t, ..m })
            &&& step(m, Message::ModalOpened(md)).0 == (AppModel { modal: Some(md), ..m })
            &&& step(step(m, Message::ModalOpened(md)).0, Message::ModalClosed).0 == m
            &&& step(m, Message::HostChanged(text)).0 == (AppModel { link: LinkModel { tcp_host: text@, ..m.link }, ..m })
            &&& step(m, Message::PortSelected(text)).0 == (AppModel {
                link: LinkModel { serial_port: Some(text@), ..m.link },
                ..m
            })
            &&& step(m, Message::SerialModeSelected(serial)).0 == (AppModel {
                link: LinkModel { is_serial: serial, ..m.link },
                ..m
            })
            &&& digits ==> port.0 == (AppModel { link: LinkModel { tcp_port: text@, ..m.link }, ..m })
            &&& !digits ==> port.0 == m
            &&& port.1.len() == 0
        }),
{
}

/// The shortcut keys of the help window, each with its message: R starts the motor,
/// `[` / `]` step the send interval down / up, L and B switch the light and the
/// brake, `,` / `.` reverse the left / right motor, X switches serial port and TCP,
/// V switches the camera, N the detection, G the GPS broadcast, `+` / `-` zoom the
/// map in / out, C and M select the camera and map tabs, T the theme, `?` opens the
/// shortcut list; letters work in either case.
pub proof fn law_shortcut_keys(c: String)
    ensures
        ({
            let s = c@;
            let msg = key_down_message(Key::Character(c));
            &&& (s == "r"@ || s == "R"@) ==> msg == Some(Message::MotorStartRequested)
            &&& s == "["@ ==> msg == Some(Message::IntervalStepped(Step::Down))
            &&& s == "]"@ ==> msg == Some(Message::IntervalStepped(Step::Up))
            &&& (s == "l"@ || s == "L"@) ==> msg == Some(Message::LightToggled)
            &&& (s == "b"@ || s == "B"@) ==> msg == Some(Message::BrakeToggled)
            &&& s == ","@ ==> msg == Some(Message::ReverseLeftToggled)
            &&& s == "."@ ==> msg == Some(Message::ReverseRightToggled)
            &&& (s == "x"@ || s == "X"@) ==> msg == Some(Message::TransportToggleRequested)
            &&& (s == "v"@ || s == "V"@) ==> msg == Some(Message::CameraToggleRequested)
            &&& (s == "n"@ || s == "N"@) ==> msg == Some(Message::DetectionToggled)
            &&& (s == "g"@ || s == "G"@) ==> msg == Some(Message::GpsToggled)
            &&& s == "+"@ ==> msg == Some(Message::MapZoomStepped(Step::Up))
            &&& s == "-"@ ==> msg == Some(Message::MapZoomStepped(Step::Down))
            &&& (s == "c"@ || s == "C"@) ==> msg == Some(Message::TabSelected(Tab::Camera))
            &&& (s == "m"@ || s == "M"@) ==> msg == Some(Message::TabSelected(Tab::MapView))
            &&& (s == "t"@ || s == "T"@) ==> msg == Some(Message::ThemeToggled)
            &&& s == "?"@ ==> msg == Some(Message::ModalOpened(Modal::Shortcuts))
            &&& (s == "w"@ || s == "W"@) ==> msg == Some(Message::DirPressed(Dir::Forward))
            &&& (s == "s"@ || s == "S"@) ==> msg == Some(Message::DirPressed(Dir::Backward))
            &&& (s == "a"@ || s == "A"@) ==> msg == Some(Message::DirPressed(Dir::Left))
            &&& (s == "d"@ || s == "D"@) ==> msg == Some(Message::DirPressed(Dir::Right))
        }),
{
    reveal_strlit("1");
    reveal_strlit("2");
    reveal_strlit("3");
    reveal_strlit("r");
    reveal_strlit("R");
    reveal_strlit("[");
    reveal_strlit("]");
    reveal_strlit("l");
    reveal_strlit("L");
    reveal_strlit("b");
    reveal_strlit("B");
    reveal_strlit(",");
    reveal_strlit(".");
    reveal_strlit("x");
    reveal_strlit("X");
    reveal_strlit("v");
    reveal_strlit("V");
    reveal_strlit("n");
    reveal_strlit("N");
    reveal_strlit("g");
    reveal_strlit("G");
    reveal_strlit("+");
    reveal_strlit("-");
    reveal_strlit("c");
    reveal_strlit("C");
    reveal_strlit("m");
    reveal_strlit("M");
    reveal_strlit("t");
    reveal_strlit("T");
    reveal_strlit("?");
    reveal_strlit("w");
    reveal_strlit("W");
    reveal_strlit("s");
    reveal_strlit("S");
    reveal_strlit("a");
    reveal_strlit("A");
    reveal_strlit("d");
    reveal_strlit("D");
    let s = c@;
    if s.len() == 1 {
        let k = s[0];
        assert(s =~= seq![k]);
    }
}

/// The named keys: Space is the emergency stop, Esc closes the modal window, Enter
/// connects or disconnects, F5 refreshes the port and camera lists, and the arrow
/// keys drive.
pub proof fn law_named_keys()
    ensures
        key_down_message(Key::Space) == Some(Message::EmergencyStop),
        key_down_message(Key::Escape) == Some(Message::ModalClosed),
        key_down_message(Key::Enter) == Some(Message::ConnectionToggleRequested),
        key_down_message(Key::F5) == Some(Message::RefreshRequested),
        key_down_message(Key::ArrowUp) == Some(Message::DirPressed(Dir::Forward)),
        key_down_message(Key::ArrowDown) == Some(Message::DirPressed(Dir::Backward)),
        key_down_message(Key::ArrowLeft) == Some(Message::DirPressed(Dir::Left)),
        key_down_message(Key::ArrowRight) == Some(Message::DirPressed(Dir::Right)),
        key_down_message(Key::Other) is None,
{
}

} // verus!

verus! {

/// The connect button opens the chosen link: a serial port at 115200 baud, or the
/// TCP host and port when both are valid. The status then reads "Bağlanıyor — " and
/// the port, or the host, `:` and the port number, the link counts as connecting
/// and the last error is forgotten. Without a chosen serial port nothing happens.
pub proof fn law_connect_button(m: AppModel, port: String)
    requires
        m.modal is None,
    ensures
        ({
            let serial = AppModel { link: LinkModel { is_serial: true, serial_port: Some(port@), ..m.link }, ..m };
            let out = step(serial, Message::ConnectPressed);
            let none = AppModel { link: LinkModel { is_serial: true, serial_port: None, ..m.link }, ..m };
            &&& out.1 == seq![EffectModel::ConnectSerial { port: port@, baud: 115200 }]
            &&& out.0 == (AppModel {
                link: LinkModel {
                    status_text: "Bağlanıyor — "@ + port@,
                    connecting: true,
                    last_error: None,
                    ..serial.link
                },
                ..serial
            })
            &&& step(none, Message::ConnectPressed).0 == none
            &&& step(none, Message::ConnectPressed).1.len() == 0
        }),
{
}

/// The disconnect button closes the link, forgets the last error and stops the
/// motor: the sender stops after one zero-speed frame and no drive input is left.
pub proof fn law_disconnect_button(m: AppModel)
    requires
        m.modal is None,
    ensures
        ({
            let out = step(m, Message::DisconnectPressed);
            &&& out.1 == seq![EffectModel::Disconnect, EffectModel::SetMotorRunning(false), EffectModel::SendZeroSpeed]
            &&& !out.0.link.connecting
            &&& out.0.link.last_error is None
            &&& out.0.link.connected == m.link.connected
            &&& !out.0.drive.motor_running
            &&& out.0.drive.left_speed == 0 && out.0.drive.right_speed == 0
            &&& !out.0.drive.joystick_dragging
            &&& !out.0.drive.keyboard.forward && !out.0.drive.keyboard.backward
            &&& !out.0.drive.keyboard.left && !out.0.drive.keyboard.right
        }),
{
}

/// A link that comes up reads "Bağlı — " and the endpoint, counts as connected and
/// no longer connecting, and forgets the last error.
pub proof fn law_link_up(m: AppModel, endpoint: String)
    ensures
        ({
            let out = step(m, Message::Robot(RobotEvent::Connected(endpoint)));
            &&& out.0.link.status_text == "Bağlı — "@ + endpoint@
            &&& out.0.link.connected && !out.0.link.connecting
            &&& out.0.link.last_error is None
            &&& out.0.link.is_serial == m.link.is_serial
        }),
{
}

/// A link error ends a connection attempt and is shown as the status.
pub proof fn law_link_error(m: AppModel, msg: String)
    ensures
        ({
            let out = step(m, Message::Robot(RobotEvent::Error(msg)));
            &&& out.0 == (AppModel {
                link: LinkModel { connecting: false, last_error: Some(msg@), status_text: msg@, ..m.link },
                ..m
            })
            &&& out.1.len() == 0
        }),
{
}

/// The keyboard toggles: the transport switches only while there is no link and no
/// attempt; the connection toggle closes a live link, and otherwise opens one only
/// when none is being opened and the connect button could be pressed.
pub proof fn law_toggle_gates(m: AppModel)
    requires
        m.modal is None,
    ensures
        ({
            let transport = step(m, Message::TransportToggleRequested);
            let conn = step(m, Message::ConnectionToggleRequested);
            &&& (m.link.connected || m.link.connecting) ==> transport.0 == m && transport.1.len() == 0
            &&& !(m.link.connected || m.link.connecting) ==> transport.0 == (AppModel {
                link: LinkModel { is_serial: !m.link.is_serial, ..m.link },
                ..m
            }) && transport.1.len() == 0
            &&& m.link.connected ==> conn == step(m, Message::DisconnectPressed)
            &&& (!m.link.connected && m.link.connecting) ==> conn.0 == m && conn.1.len() == 0
            &&& (!m.link.connected && !m.link.connecting && m.link.is_serial && m.link.serial_port is Some) ==> conn
                == step(m, Message::ConnectPressed)
            &&& (!m.link.connected && m.link.is_serial && m.link.serial_port is None) ==> conn.0 == m
                && conn.1.len() == 0
        }),
{
}

/// A new port list keeps the chosen port when it is still listed; otherwise the
/// first listed port is chosen, or none when the list is empty. The list is kept.
pub proof fn law_ports_loaded(m: AppModel, ports: Vec<String>)
    requires
        m.modal is None,
    ensures
        ({
            let out = step(m, Message::PortsLoaded(ports));
            let names = ports@.map_values(|p: String| p@);
            &&& out.0.link.available_ports == names
            &&& out.1.len() == 0
            &&& (m.link.serial_port is Some && names.contains(m.link.serial_port.unwrap())) ==> out.0.link.serial_port
                == m.link.serial_port
            &&& !(m.link.serial_port is Some && names.contains(m.link.serial_port.unwrap())) && names.len() > 0
                ==> out.0.link.serial_port == Some(names[0])
            &&& names.len() == 0 ==> out.0.link.serial_port is None
            &&& out.0 == (AppModel {
                link: LinkModel { serial_port: out.0.link.serial_port, available_ports: names, ..m.link },
                ..m
            })
        }),
{
    reveal(texts);
}

/// A new camera list keeps the chosen camera when it is still listed; otherwise the
/// first listed camera is chosen, or none when the list is empty.
pub proof fn law_cameras_loaded(m: AppModel, cams: Vec<CameraChoice>)
    ensures
        ({
            let out = step(m, Message::CamerasLoaded(cams));
            let listed = cams@.map_values(|c: CameraChoice| c@);
            &&& out.0.camera.available == listed
            &&& out.1.len() == 0
            &&& (m.camera.selected is Some && listed.contains(m.camera.selected.unwrap())) ==> out.0.camera.selected
                == m.camera.selected
            &&& !(m.camera.selected is Some && listed.contains(m.camera.selected.unwrap())) && listed.len() > 0
                ==> out.0.camera.selected == Some(listed[0])
            &&& listed.len() == 0 ==> out.0.camera.selected is None
        }),
{
    reveal(choices);
}

} // verus!

verus! {

/// `b` as 1 or 0.
pub open spec fn held(b: bool) -> int {
    if b {
        1
    } else {
        0
    }
}

/// `v` kept within `-100 ..= 100`.
pub open spec fn within_full_power(v: int) -> int {
    if v > 100 {
        100
    } else if v < -100 {
        -100
    } else {
        v
    }
}

/// The keyboard table: each held key adds full power (100) to the motors: forward
/// to both, backward against both, left to the left motor and against the right
/// one, right the other way round; each motor is kept within `-100 ..= 100`.
pub proof fn law_keyboard_table(s: KeyboardState)
    ensures
        keyboard_left(s) == within_full_power(
            100 * (held(s.forward) - held(s.backward) + held(s.left) - held(s.right)),
        ),
        keyboard_right(s) == within_full_power(
            100 * (held(s.forward) - held(s.backward) - held(s.left) + held(s.right)),
        ),
{
}

/// While a modal window is open, the user's intents are swallowed: driving keys,
/// the motor start, gear, interval, light, brake, reverse, link, camera, map, tab
/// and theme controls change nothing and ask for nothing.
pub proof fn law_modal_swallows_controls(m: AppModel, d: Dir, g: u8, t: Tab, left: i8, right: i8)
    requires
        m.modal is Some,
    ensures
        step(m, Message::DirPressed(d)) == (m, Seq::<EffectModel>::empty()),
        step(m, Message::JoystickMoved { left, right }) == (m, Seq::<EffectModel>::empty()),
        step(m, Message::StartPressed) == (m, Seq::<EffectModel>::empty()),
        step(m, Message::MotorStartRequested) == (m, Seq::<EffectModel>::empty()),
        step(m, Message::GearSelected(g)) == (m, Seq::<EffectModel>::empty()),
        step(m, Message::IntervalStepped(Step::Up)) == (m, Seq::<EffectModel>::empty()),
        step(m, Message::LightToggled) == (m, Seq::<EffectModel>::empty()),
        step(m, Message::BrakeToggled) == (m, Seq::<EffectModel>::empty()),
        step(m, Message::ReverseLeftToggled) == (m, Seq::<EffectModel>::empty()),
        step(m, Message::ConnectPressed) == (m, Seq::<EffectModel>::empty()),
        step(m, Message::ConnectionToggleRequested) == (m, Seq::<EffectModel>::empty()),
        step(m, Message::CameraToggleRequested) == (m, Seq::<EffectModel>::empty()),
        step(m, Message::GpsToggled) == (m, Seq::<EffectModel>::empty()),
        step(m, Message::MapZoomStepped(Step::Up)) == (m, Seq::<EffectModel>::empty()),
        step(m, Message::TabSelected(t)) == (m, Seq::<EffectModel>::empty()),
        step(m, Message::ThemeToggled) == (m, Seq::<EffectModel>::empty()),
{
}

/// `o` with the modal window of `m` put back.
pub open spec fn with_modal_of(m: AppModel, o: (AppModel, Seq<EffectModel>)) -> (AppModel, Seq<EffectModel>) {
    (AppModel { modal: m.modal, ..o.0 }, o.1)
}

/// While a modal window is open, what stops the robot, releases a drive input or
/// closes the application still acts as it would without the window, and Esc's
/// message closes the window.
pub proof fn law_modal_passes_stops(m: AppModel, d: Dir)
    requires
        m.modal is Some,
    ensures
        ({
            let closed = AppModel { modal: None, ..m };
            &&& step(m, Message::EmergencyStop) == with_modal_of(m, step(closed, Message::EmergencyStop))
            &&& step(m, Message::StopPressed) == with_modal_of(m, step(closed, Message::StopPressed))
            &&& step(m, Message::DirReleased(d)) == with_modal_of(m, step(closed, Message::DirReleased(d)))
            &&& step(m, Message::JoystickReleased) == with_modal_of(m, step(closed, Message::JoystickReleased))
            &&& step(m, Message::CloseRequested) == with_modal_of(m, step(closed, Message::CloseRequested))
            &&& step(m, Message::ModalClosed).0 == closed
        }),
{
}

/// While a modal window is open, what the robot and the camera report is still
/// taken in as it would be without the window.
#[verifier::spinoff_prover]
pub proof fn law_modal_passes_reports(m: AppModel, e: RobotEvent, n: CameraNotice)
    requires
        m.modal is Some,
    ensures
        ({
            let closed = AppModel { modal: None, ..m };
            &&& step(m, Message::Robot(e)) == with_modal_of(m, step(closed, Message::Robot(e)))
            &&& step(m, Message::Camera(n)) == with_modal_of(m, step(closed, Message::Camera(n)))
        }),
{
    let closed = AppModel { modal: None, ..m };
    match e {
        RobotEvent::Packet(r) => {
            assert(step(m, Message::Robot(e)) == with_modal_of(m, step(closed, Message::Robot(e))));
        },
        _ => {
            assert(step(m, Message::Robot(e)) == with_modal_of(m, step(closed, Message::Robot(e))));
        },
    }
    match n {
        CameraNotice::DetectionUnavailable(_) => {
            assert(step(m, Message::Camera(n)) == with_modal_of(m, step(closed, Message::Camera(n))));
        },
        _ => {
            assert(step(m, Message::Camera(n)) == with_modal_of(m, step(closed, Message::Camera(n))));
        },
    }
}

/// Requests that go to the outside world unchanged: the refresh buttons ask for
/// the port list, the camera list or both; panning and resizing ask for the map view
/// to be applied; a downloaded or failed tile is applied, a stale one ignored; a
/// chosen zoom level (kept within 1 to 19) is applied to the map; a chosen camera
/// becomes the selected one.
pub proof fn law_outside_requests(m: AppModel, z: u32, cam: CameraChoice)
    requires
        m.modal is None,
    ensures
        step(m, Message::PortsRefreshRequested) == (m, seq![EffectModel::ListPorts]),
        step(m, Message::CamerasRefreshRequested) == (m, seq![EffectModel::ListCameras]),
        step(m, Message::RefreshRequested) == (m, seq![EffectModel::ListPorts, EffectModel::ListCameras]),
        step(m, Message::MapPanned) == (m, seq![EffectModel::ApplyMapView]),
        step(m, Message::MapResized) == (m, seq![EffectModel::ApplyMapView]),
        step(m, Message::TileLoaded(TileResult::Loaded)) == (m, seq![EffectModel::ApplyTile]),
        step(m, Message::TileLoaded(TileResult::Failed)) == (m, seq![EffectModel::ApplyTile]),
        step(m, Message::TileLoaded(TileResult::Stale)) == (m, Seq::<EffectModel>::empty()),
        step(m, Message::MapZoomSelected(z)).1 == seq![EffectModel::ZoomMap(z)],
        step(m, Message::MapZoomSelected(z)).0 == (AppModel {
            map_zoom: if z < 1 { 1 } else if z > 19 { 19 } else { z },
            ..m
        }),
        step(m, Message::MapZoomedAt(z)).1 == seq![EffectModel::ZoomMapAt(z)],
        step(m, Message::MapZoomedAt(z)).0 == (AppModel {
            map_zoom: if z < 1 { 1 } else if z > 19 { 19 } else { z },
            ..m
        }),
        step(m, Message::CameraSelected(cam)) == (AppModel {
            camera: CameraModel { selected: Some(cam@), ..m.camera },
            ..m
        }, Seq::<EffectModel>::empty()),
{
}

/// In TCP mode the connect button opens a connection to the host when it is a
/// dotted IPv4 address and the port field reads as a non-zero port number; the
/// status reads "Bağlanıyor — host:port". Otherwise nothing happens.
pub proof fn law_tcp_connect_button(m: AppModel)
    requires
        m.modal is None,
        !m.link.is_serial,
    ensures
        ({
            let out = step(m, Message::ConnectPressed);
            &&& (is_ipv4_text(m.link.tcp_host) && port_value(m.link.tcp_port) is Some) ==> {
                let p = port_value(m.link.tcp_port).unwrap();
                &&& out.1 == seq![EffectModel::ConnectTcp { host: m.link.tcp_host, port: p }]
                &&& out.0.link.status_text == "Bağlanıyor — "@ + m.link.tcp_host + ":"@ + decimal(p as nat)
                &&& out.0.link.connecting
                &&& out.0.link.last_error is None
            }
            &&& !(is_ipv4_text(m.link.tcp_host) && port_value(m.link.tcp_port) is Some) ==> out.0 == m
                && out.1.len() == 0
        }),
{
}

/// The camera toggle does nothing while the camera is starting, stops a running
/// camera, and otherwise starts the chosen one.
pub proof fn law_camera_toggle(m: AppModel)
    requires
        m.modal is None,
    ensures
        ({
            let out = step(m, Message::CameraToggleRequested);
            &&& m.camera.starting ==> out.0 == m && out.1.len() == 0
            &&& (!m.camera.starting && m.camera.running) ==> out == step(m, Message::CameraStopPressed)
            &&& (!m.camera.starting && !m.camera.running) ==> out == step(m, Message::CameraStartPressed)
        }),
{
}

} // verus!
