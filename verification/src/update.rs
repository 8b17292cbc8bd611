//! The controller state machine: each message changes the state and asks the outside
//! world for effects (frames to send, links to open, the camera to start, ...), which
//! the application carries out in order.

use vstd::prelude::*;
use vstd::string::*;
use crate::framing::RobotEvent;
use crate::input::{all_digits, decimal, is_ipv4_text, push_decimal};
use crate::keyboard::{calculate, keyboard_left, keyboard_right, KeyboardState};
use crate::message::{CameraNotice, Dir, Message, Step, Tab, TileResult, is_blocked_by_modal};
use crate::packet::{
    brake_packet, clamp_gear, gps_enable_packet, light_packet, simple_packet, spec_frame,
    switch_payload,
};
use crate::state::{
    choices, cleared_inputs, connect_allowed, opt_choice, opt_text, port_value, texts, App,
    AppModel, CameraChoice, CameraModel, Drive, Gps, LinkModel, BAUD_RATE, MAX_ZOOM, MIN_ZOOM,
};
use crate::types::{Command, RobotResponse};

verus! {

/// Work the controller hands to the outside world.
#[derive(Debug, Clone)]
pub enum Effect {
    /// Send this frame over the active link.
    Send(Vec<u8>),
    ConnectSerial { port: String, baud: u32 },
    ConnectTcp { host: String, port: u16 },
    Disconnect,
    /// Tell the periodic speed sender whether the motor runs.
    SetMotorRunning(bool),
    /// Tell the periodic speed sender the gear.
    SetGear(u8),
    /// Tell the periodic speed sender its interval in milliseconds.
    SetInterval(u8),
    SetReverseLeft(bool),
    SetReverseRight(bool),
    /// Tell the periodic speed sender the motor speeds.
    SetSpeeds { left: i8, right: i8 },
    /// Set the sender's speeds to zero and send one zero-speed frame right away.
    SendZeroSpeed,
    ListPorts,
    ListCameras,
    StartCamera(usize),
    StopCamera,
    SetDetection(bool),
    /// Stop the camera and the detection worker for good.
    ShutdownCamera,
    /// Apply the pan or resize to the map view, then fetch the tiles it lacks.
    ApplyMapView,
    /// Zoom the map at the pointer to this level, then fetch the tiles it lacks.
    ZoomMapAt(u32),
    /// Zoom the map around its centre to this level, then fetch the tiles it lacks.
    ZoomMap(u32),
    /// Store the downloaded tile, or mark it failed.
    ApplyTile,
    /// Centre the map on the robot's position, then fetch the tiles it lacks.
    CenterOnRobot,
    /// Close the application.
    Exit,
}

/// An effect as values.
pub enum EffectModel {
    Send(Seq<u8>),
    ConnectSerial { port: Seq<char>, baud: u32 },
    ConnectTcp { host: Seq<char>, port: u16 },
    Disconnect,
    SetMotorRunning(bool),
    SetGear(u8),
    SetInterval(u8),
    SetReverseLeft(bool),
    SetReverseRight(bool),
    SetSpeeds { left: i8, right: i8 },
    SendZeroSpeed,
    ListPorts,
    ListCameras,
    StartCamera(usize),
    StopCamera,
    SetDetection(bool),
    ShutdownCamera,
    ApplyMapView,
    ZoomMapAt(u32),
    ZoomMap(u32),
    ApplyTile,
    CenterOnRobot,
    Exit,
}

impl View for Effect {
    type V = EffectModel;

    open spec fn view(&self) -> EffectModel {
        match self {
            Effect::Send(p) => EffectModel::Send(p@),
            Effect::ConnectSerial { port, baud } => EffectModel::ConnectSerial { port: port@, baud: *baud },
            Effect::ConnectTcp { host, port } => EffectModel::ConnectTcp { host: host@, port: *port },
            Effect::Disconnect => EffectModel::Disconnect,
            Effect::SetMotorRunning(b) => EffectModel::SetMotorRunning(*b),
            Effect::SetGear(g) => EffectModel::SetGear(*g),
            Effect::SetInterval(ms) => EffectModel::SetInterval(*ms),
            Effect::SetReverseLeft(b) => EffectModel::SetReverseLeft(*b),
            Effect::SetReverseRight(b) => EffectModel::SetReverseRight(*b),
            Effect::SetSpeeds { left, right } => EffectModel::SetSpeeds { left: *left, right: *right },
            Effect::SendZeroSpeed => EffectModel::SendZeroSpeed,
            Effect::ListPorts => EffectModel::ListPorts,
            Effect::ListCameras => EffectModel::ListCameras,
            Effect::StartCamera(i) => EffectModel::StartCamera(*i),
            Effect::StopCamera => EffectModel::StopCamera,
            Effect::SetDetection(b) => EffectModel::SetDetection(*b),
            Effect::ShutdownCamera => EffectModel::ShutdownCamera,
            Effect::ApplyMapView => EffectModel::ApplyMapView,
            Effect::ZoomMapAt(z) => EffectModel::ZoomMapAt(*z),
            Effect::ZoomMap(z) => EffectModel::ZoomMap(*z),
            Effect::ApplyTile => EffectModel::ApplyTile,
            Effect::CenterOnRobot => EffectModel::CenterOnRobot,
            Effect::Exit => EffectModel::Exit,
        }
    }
}

/// The values of a list of effects.
pub open spec fn effects(fx: Seq<Effect>) -> Seq<EffectModel> {
    fx.map_values(|e: Effect| e@)
}

/// A state change together with the effects it asks for.
pub type Outcome = (AppModel, Seq<EffectModel>);

/// Nothing changes and nothing is asked for.
pub open spec fn unchanged(m: AppModel) -> Outcome {
    (m, Seq::empty())
}

// ---------------------------------------------------------------------------
// Transitions, as values

/// `m` with drive state `d`.
pub open spec fn with_drive(m: AppModel, d: Drive) -> AppModel {
    AppModel { drive: d, ..m }
}

/// `m` with connection state `l`.
pub open spec fn with_link(m: AppModel, l: LinkModel) -> AppModel {
    AppModel { link: l, ..m }
}

/// `m` with camera state `c`.
pub open spec fn with_camera(m: AppModel, c: CameraModel) -> AppModel {
    AppModel { camera: c, ..m }
}

/// Stops the motor: the speed sender stops and one zero-speed frame goes out, then
/// every drive input and the speed display are cleared.
pub open spec fn motor_stop(m: AppModel) -> Outcome {
    (
        with_drive(m, cleared_inputs(Drive { motor_running: false, ..m.drive })),
        seq![EffectModel::SetMotorRunning(false), EffectModel::SendZeroSpeed],
    )
}

/// New speeds for the sender and the display.
pub open spec fn speeds_set(m: AppModel, left: i8, right: i8) -> Outcome {
    (
        with_drive(m, Drive { left_speed: left, right_speed: right, ..m.drive }),
        seq![EffectModel::SetSpeeds { left, right }],
    )
}

/// The frame with command `cmd` and an empty payload.
pub open spec fn bare_frame(cmd: Command) -> Seq<u8> {
    spec_frame(cmd.code(), Seq::empty())
}

/// The link is asked to open: to the chosen serial port, or to the TCP host and port
/// when both are valid; nothing happens otherwise.
pub open spec fn connect(m: AppModel) -> Outcome {
    let l = m.link;
    if l.is_serial {
        match l.serial_port {
            None => unchanged(m),
            Some(port) => (
                with_link(
                    m,
                    LinkModel { status_text: "Bağlanıyor — "@ + port, connecting: true, last_error: None, ..l },
                ),
                seq![EffectModel::ConnectSerial { port, baud: BAUD_RATE }],
            ),
        }
    } else {
        if port_value(l.tcp_port) is Some && is_ipv4_text(l.tcp_host) {
            let port = port_value(l.tcp_port).unwrap();
            (
                with_link(
                    m,
                    LinkModel {
                        status_text: "Bağlanıyor — "@ + l.tcp_host + ":"@ + decimal(port as nat),
                        connecting: true,
                        last_error: None,
                        ..l
                    },
                ),
                seq![EffectModel::ConnectTcp { host: l.tcp_host, port }],
            )
        } else {
            unchanged(m)
        }
    }
}

pub open spec fn disconnect(m: AppModel) -> Outcome {
    let stopped = motor_stop(with_link(m, LinkModel { connecting: false, last_error: None, ..m.link }));
    (stopped.0, seq![EffectModel::Disconnect] + stopped.1)
}

pub open spec fn start_motor(m: AppModel) -> Outcome {
    (
        with_drive(m, Drive { motor_running: true, ..m.drive }),
        seq![EffectModel::Send(bare_frame(Command::SetStart)), EffectModel::SetMotorRunning(true)],
    )
}

/// Sends the stop frame, then stops the motor.
pub open spec fn stop_pressed(m: AppModel) -> Outcome {
    let stopped = motor_stop(m);
    (stopped.0, seq![EffectModel::Send(bare_frame(Command::SetStop))] + stopped.1)
}

/// `ms` kept within `10 ..= 50`.
pub open spec fn clamp_interval(ms: u8) -> u8 {
    if ms < 10 {
        10
    } else if ms > 50 {
        50
    } else {
        ms
    }
}

pub open spec fn select_interval(m: AppModel, ms: u8) -> Outcome {
    let ms = clamp_interval(ms);
    (with_drive(m, Drive { send_interval_ms: ms, ..m.drive }), seq![EffectModel::SetInterval(ms)])
}

pub open spec fn select_gear(m: AppModel, g: u8) -> Outcome {
    let g = clamp_gear(g);
    (with_drive(m, Drive { gear: g, ..m.drive }), seq![EffectModel::SetGear(g)])
}

/// The two reverse flags exclude each other: switching one on switches the other off.
pub open spec fn toggle_reverse_left(m: AppModel) -> Outcome {
    let d = m.drive;
    if !d.reverse_left {
        (
            with_drive(m, Drive { reverse_left: true, reverse_right: false, ..d }),
            seq![EffectModel::SetReverseLeft(true), EffectModel::SetReverseRight(false)],
        )
    } else {
        (with_drive(m, Drive { reverse_left: false, ..d }), seq![EffectModel::SetReverseLeft(false)])
    }
}

/// The two reverse flags exclude each other: switching one on switches the other off.
pub open spec fn toggle_reverse_right(m: AppModel) -> Outcome {
    let d = m.drive;
    if !d.reverse_right {
        (
            with_drive(m, Drive { reverse_right: true, reverse_left: false, ..d }),
            seq![EffectModel::SetReverseRight(true), EffectModel::SetReverseLeft(false)],
        )
    } else {
        (with_drive(m, Drive { reverse_right: false, ..d }), seq![EffectModel::SetReverseRight(false)])
    }
}

/// Light and brake commands need a link; without one nothing changes.
pub open spec fn toggle_light(m: AppModel) -> Outcome {
    if !m.link.connected {
        unchanged(m)
    } else {
        let on = !m.drive.light_on;
        (
            with_drive(m, Drive { light_on: on, ..m.drive }),
            seq![EffectModel::Send(spec_frame(Command::SetLight.code(), switch_payload(on)))],
        )
    }
}

/// Light and brake commands need a link; without one nothing changes.
pub open spec fn toggle_brake(m: AppModel) -> Outcome {
    if !m.link.connected {
        unchanged(m)
    } else {
        let on = !m.drive.brake_on;
        (
            with_drive(m, Drive { brake_on: on, ..m.drive }),
            seq![EffectModel::Send(spec_frame(Command::SetBrake.code(), switch_payload(on)))],
        )
    }
}

/// `keys` with the key for `dir` pressed or released.
pub open spec fn with_key(keys: KeyboardState, dir: Dir, pressed: bool) -> KeyboardState {
    match dir {
        Dir::Forward => KeyboardState { forward: pressed, ..keys },
        Dir::Backward => KeyboardState { backward: pressed, ..keys },
        Dir::Left => KeyboardState { left: pressed, ..keys },
        Dir::Right => KeyboardState { right: pressed, ..keys },
    }
}

/// A drive key goes down or up; ignored while the motor is stopped.
pub open spec fn key_change(m: AppModel, dir: Dir, pressed: bool) -> Outcome {
    if !m.drive.motor_running {
        unchanged(m)
    } else {
        let keys = with_key(m.drive.keyboard, dir, pressed);
        speeds_set(
            with_drive(m, Drive { keyboard: keys, ..m.drive }),
            keyboard_left(keys) as i8,
            keyboard_right(keys) as i8,
        )
    }
}

/// The joystick moved to a position mixed into `left` and `right`; the speeds are
/// used only while the motor runs.
pub open spec fn joystick_moved(m: AppModel, left: i8, right: i8) -> Outcome {
    let dragging = with_drive(m, Drive { joystick_dragging: true, ..m.drive });
    if m.drive.motor_running {
        speeds_set(dragging, left, right)
    } else {
        unchanged(dragging)
    }
}

/// Letting go of the joystick stops the motors, unless it was not being dragged.
pub open spec fn joystick_released(m: AppModel) -> Outcome {
    if !m.drive.joystick_dragging {
        unchanged(m)
    } else {
        speeds_set(with_drive(m, Drive { joystick_dragging: false, ..m.drive }), 0, 0)
    }
}

/// The camera is asked to start; it counts as running only once it reports so.
pub open spec fn camera_start(m: AppModel) -> Outcome {
    match m.camera.selected {
        None => unchanged(m),
        Some(choice) => (
            with_camera(m, CameraModel { error: Seq::empty(), starting: true, ..m.camera }),
            seq![EffectModel::StartCamera(choice.0)],
        ),
    }
}

pub open spec fn camera_stop(m: AppModel) -> Outcome {
    (
        with_camera(
            m,
            CameraModel {
                detection_enabled: false,
                detection_count: 0,
                starting: false,
                running: false,
                has_frame: false,
                fps: 0,
                ..m.camera
            },
        ),
        seq![EffectModel::StopCamera, EffectModel::SetDetection(false)],
    )
}

/// Position of `ms` among the interval choices; the first when it is not one of them.
pub open spec fn interval_position(ms: u8) -> usize {
    if ms == 10 {
        0
    } else if ms == 20 {
        1
    } else if ms == 30 {
        2
    } else if ms == 40 {
        3
    } else if ms == 50 {
        4
    } else {
        0
    }
}

/// One step in a list of `len` entries from `current`; `None` at either end.
pub open spec fn next_index(current: usize, step: Step, len: usize) -> Option<usize> {
    match step {
        Step::Up => if current + 1 < len { Some((current + 1) as usize) } else { None },
        Step::Down => if current > 0 { Some((current - 1) as usize) } else { None },
    }
}

/// The interval choice at `i` (`0 ..= 4`).
pub open spec fn interval_at(i: usize) -> u8 {
    if i == 0 {
        10
    } else if i == 1 {
        20
    } else if i == 2 {
        30
    } else if i == 3 {
        40
    } else {
        50
    }
}

/// The send interval moves one choice up or down; not while the motor runs, since
/// the interval sets how fast the robot sees the driver's input.
pub open spec fn interval_stepped(m: AppModel, step: Step) -> Outcome {
    if m.drive.motor_running {
        unchanged(m)
    } else {
        match next_index(interval_position(m.drive.send_interval_ms), step, 5) {
            None => unchanged(m),
            Some(i) => select_interval(m, interval_at(i)),
        }
    }
}

/// `z` kept within the zoom levels of the map.
pub open spec fn clamp_zoom(z: u32) -> u32 {
    if z < MIN_ZOOM {
        MIN_ZOOM
    } else if z > MAX_ZOOM {
        MAX_ZOOM
    } else {
        z
    }
}

pub open spec fn select_zoom(m: AppModel, zoom: u32) -> Outcome {
    (AppModel { map_zoom: clamp_zoom(zoom), ..m }, seq![EffectModel::ZoomMap(zoom)])
}

/// The zoom level one step up or down, saturating at the ends of `u32`.
pub open spec fn stepped_zoom(zoom: u32, step: Step) -> u32 {
    match step {
        Step::Up => if zoom < u32::MAX { (zoom + 1) as u32 } else { zoom },
        Step::Down => if zoom > 0 { (zoom - 1) as u32 } else { zoom },
    }
}

/// New port list: a chosen port that vanished is dropped, and with none chosen the
/// first port of the list is taken.
pub open spec fn ports_loaded(m: AppModel, ports: Seq<Seq<char>>) -> Outcome {
    let kept = match m.link.serial_port {
        Some(cur) => if ports.contains(cur) { Some(cur) } else { None },
        None => None,
    };
    let chosen = match kept {
        Some(p) => Some(p),
        None => if ports.len() > 0 { Some(ports[0]) } else { None },
    };
    unchanged(with_link(m, LinkModel { serial_port: chosen, available_ports: ports, ..m.link }))
}

/// New camera list: the chosen camera stays when it is still listed, else the first
/// camera of the list is chosen.
pub open spec fn cameras_loaded(m: AppModel, cams: Seq<(usize, Seq<char>)>) -> Outcome {
    let still_present = match m.camera.selected {
        Some(c) => cams.contains(c),
        None => false,
    };
    let chosen = if still_present {
        m.camera.selected
    } else if cams.len() > 0 {
        Some(cams[0])
    } else {
        None
    };
    unchanged(with_camera(m, CameraModel { available: cams, selected: chosen, ..m.camera }))
}

/// The port field only takes up to five ASCII digits.
pub open spec fn port_text_accepted(p: Seq<char>) -> bool {
    all_digits(p) && p.len() <= 5
}

pub open spec fn camera_notice(m: AppModel, n: CameraNotice) -> Outcome {
    let c = m.camera;
    match n {
        CameraNotice::Frame => unchanged(with_camera(m, CameraModel { has_frame: true, ..c })),
        CameraNotice::Fps(fps) => unchanged(with_camera(m, CameraModel { fps, ..c })),
        CameraNotice::Started => unchanged(
            with_camera(m, CameraModel { starting: false, running: true, error: Seq::empty(), ..c }),
        ),
        CameraNotice::Error(msg) => unchanged(
            with_camera(
                m,
                CameraModel {
                    starting: false,
                    running: false,
                    has_frame: false,
                    fps: 0,
                    error: msg@,
                    ..c
                },
            ),
        ),
        CameraNotice::Stopped => unchanged(
            with_camera(m, CameraModel { starting: false, running: false, has_frame: false, fps: 0, ..c }),
        ),
        CameraNotice::DetectionCount(n) => unchanged(with_camera(m, CameraModel { detection_count: n, ..c })),
        CameraNotice::DetectionUnavailable(reason) => (
            with_camera(
                m,
                CameraModel {
                    detection_error: Some(reason@),
                    detection_enabled: false,
                    detection_count: 0,
                    ..c
                },
            ),
            seq![EffectModel::SetDetection(false)],
        ),
    }
}

/// Detection switches only while the camera runs and the detector is available.
pub open spec fn detection_toggled(m: AppModel) -> Outcome {
    let c = m.camera;
    if c.detection_error is Some || !c.running {
        unchanged(m)
    } else {
        let enabled = !c.detection_enabled;
        (
            with_camera(
                m,
                CameraModel {
                    detection_enabled: enabled,
                    detection_count: if enabled { c.detection_count } else { 0 },
                    ..c
                },
            ),
            seq![EffectModel::SetDetection(enabled)],
        )
    }
}

/// The GPS broadcast switches only with a link; switching it on forgets the fixes.
pub open spec fn gps_toggled(m: AppModel) -> Outcome {
    if !m.link.connected {
        unchanged(m)
    } else {
        let enabled = !m.gps.active;
        let frame = spec_frame(Command::SetGpsEnable.code(), switch_payload(enabled));
        if enabled {
            (
                AppModel { gps: Gps { active: true, point_count: 0, lat_bits: 0, lon_bits: 0 }, ..m },
                seq![EffectModel::Send(frame)],
            )
        } else {
            (AppModel { gps: Gps { active: false, ..m.gps }, ..m }, seq![EffectModel::Send(frame)])
        }
    }
}

/// Closing the window stops the robot first.
pub open spec fn close_requested(m: AppModel) -> Outcome {
    let stopped = stop_pressed(m);
    (stopped.0, stopped.1 + seq![EffectModel::ShutdownCamera, EffectModel::Exit])
}

/// A response from the robot.
pub open spec fn robot_response(m: AppModel, r: RobotResponse) -> Outcome {
    match r {
        RobotResponse::Status(running) => (
            with_drive(m, Drive { motor_running: running, ..m.drive }),
            seq![EffectModel::SetMotorRunning(running)],
        ),
        RobotResponse::Speed { gear, left, right } => unchanged(
            with_drive(m, Drive { gear: clamp_gear(gear), left_speed: left, right_speed: right, ..m.drive }),
        ),
        RobotResponse::Light(on) => unchanged(with_drive(m, Drive { light_on: on, ..m.drive })),
        RobotResponse::Brake(on) => unchanged(with_drive(m, Drive { brake_on: on, ..m.drive })),
        RobotResponse::Gps { lat_bits, lon_bits } => {
            let count = (m.gps.point_count + 1) as usize;
            (
                AppModel { gps: Gps { lat_bits, lon_bits, point_count: count, ..m.gps }, ..m },
                if count == 1 { seq![EffectModel::CenterOnRobot] } else { Seq::empty() },
            )
        },
        RobotResponse::Unknown(_) => unchanged(m),
    }
}

/// A link or robot event. A new link or a lost one always stops the motor; a lost
/// link shows the last error the link reported.
pub open spec fn robot_event(m: AppModel, e: RobotEvent) -> Outcome {
    match e {
        RobotEvent::Connected(endpoint) => {
            let stopped = motor_stop(m);
            (
                with_link(
                    stopped.0,
                    LinkModel {
                        connected: true,
                        connecting: false,
                        last_error: None,
                        status_text: "Bağlı — "@ + endpoint@,
                        ..m.link
                    },
                ),
                stopped.1,
            )
        },
        RobotEvent::Disconnected => {
            let stopped = motor_stop(m);
            let status = match m.link.last_error {
                Some(reason) => "Bağlantı kesildi — "@ + reason,
                None => "Bağlantı kesildi"@,
            };
            (
                AppModel {
                    link: LinkModel { connected: false, connecting: false, status_text: status, ..m.link },
                    gps: Gps { active: false, ..m.gps },
                    ..stopped.0
                },
                stopped.1,
            )
        },
        RobotEvent::Error(msg) => unchanged(
            with_link(m, LinkModel { connecting: false, last_error: Some(msg@), status_text: msg@, ..m.link }),
        ),
        RobotEvent::Packet(r) => robot_response(m, r),
    }
}

/// The link toggles from the keyboard: a live link is closed; otherwise a link opens
/// when the connect button could be pressed.
pub open spec fn connection_toggle(m: AppModel) -> Outcome {
    if m.link.connected {
        disconnect(m)
    } else if m.link.connecting || !connect_allowed(m.link) {
        unchanged(m)
    } else {
        connect(m)
    }
}

/// The camera toggles from the keyboard: nothing while it is starting; a running
/// camera stops; otherwise the chosen camera starts.
pub open spec fn camera_toggle(m: AppModel) -> Outcome {
    if m.camera.starting {
        unchanged(m)
    } else if m.camera.running {
        camera_stop(m)
    } else {
        camera_start(m)
    }
}

/// What a message does once it has passed the modal gate.
pub open spec fn handle(m: AppModel, msg: Message) -> Outcome {
    match msg {
        Message::SerialModeSelected(b) => unchanged(with_link(m, LinkModel { is_serial: b, ..m.link })),
        Message::PortSelected(p) => unchanged(with_link(m, LinkModel { serial_port: Some(p@), ..m.link })),
        Message::PortsRefreshRequested => (m, seq![EffectModel::ListPorts]),
        Message::PortsLoaded(ports) => ports_loaded(m, texts(ports@)),
        Message::HostChanged(h) => unchanged(with_link(m, LinkModel { tcp_host: h@, ..m.link })),
        Message::TcpPortChanged(p) => if port_text_accepted(p@) {
            unchanged(with_link(m, LinkModel { tcp_port: p@, ..m.link }))
        } else {
            unchanged(m)
        },
        Message::ConnectPressed => connect(m),
        Message::DisconnectPressed => disconnect(m),
        Message::StartPressed => start_motor(m),
        Message::StopPressed | Message::EmergencyStop => stop_pressed(m),
        Message::GearSelected(g) => select_gear(m, g),
        Message::IntervalSelected(ms) => select_interval(m, ms),
        Message::LightToggled => toggle_light(m),
        Message::BrakeToggled => toggle_brake(m),
        Message::ReverseLeftToggled => toggle_reverse_left(m),
        Message::ReverseRightToggled => toggle_reverse_right(m),
        Message::JoystickMoved { left, right } => joystick_moved(m, left, right),
        Message::JoystickReleased => joystick_released(m),
        Message::DirPressed(d) => key_change(m, d, true),
        Message::DirReleased(d) => key_change(m, d, false),
        Message::ConnectionToggleRequested => connection_toggle(m),
        Message::RefreshRequested => (m, seq![EffectModel::ListPorts, EffectModel::ListCameras]),
        Message::MotorStartRequested => if !m.link.connected || m.drive.motor_running {
            unchanged(m)
        } else {
            start_motor(m)
        },
        Message::CameraToggleRequested => camera_toggle(m),
        Message::TransportToggleRequested => if m.link.connected || m.link.connecting {
            unchanged(m)
        } else {
            unchanged(with_link(m, LinkModel { is_serial: !m.link.is_serial, ..m.link }))
        },
        Message::IntervalStepped(step) => interval_stepped(m, step),
        Message::MapZoomStepped(step) => if m.tab != Tab::MapView {
            unchanged(m)
        } else {
            select_zoom(m, stepped_zoom(m.map_zoom, step))
        },
        Message::TabSelected(t) => unchanged(AppModel { tab: t, ..m }),
        Message::ThemeToggled => unchanged(AppModel { is_dark: !m.is_dark, ..m }),
        Message::ModalOpened(md) => unchanged(AppModel { modal: Some(md), ..m }),
        Message::ModalClosed => unchanged(AppModel { modal: None, ..m }),
        Message::CameraSelected(c) => unchanged(with_camera(m, CameraModel { selected: Some(c@), ..m.camera })),
        Message::CamerasRefreshRequested => (m, seq![EffectModel::ListCameras]),
        Message::CamerasLoaded(cams) => cameras_loaded(m, choices(cams@)),
        Message::CameraStartPressed => camera_start(m),
        Message::CameraStopPressed => camera_stop(m),
        Message::DetectionToggled => detection_toggled(m),
        Message::Camera(n) => camera_notice(m, n),
        Message::MapPanned => (m, seq![EffectModel::ApplyMapView]),
        Message::MapZoomedAt(z) => (AppModel { map_zoom: clamp_zoom(z), ..m }, seq![EffectModel::ZoomMapAt(z)]),
        Message::MapZoomSelected(z) => select_zoom(m, z),
        Message::MapResized => (m, seq![EffectModel::ApplyMapView]),
        Message::TileLoaded(r) => if r == TileResult::Stale {
            unchanged(m)
        } else {
            (m, seq![EffectModel::ApplyTile])
        },
        Message::GpsToggled => gps_toggled(m),
        Message::Robot(e) => robot_event(m, e),
        Message::CloseRequested => close_requested(m),
    }
}

/// One step of the controller: while a modal window is open, the messages it blocks
/// change nothing; every other message is handled.
pub open spec fn step(m: AppModel, msg: Message) -> Outcome {
    if m.modal is Some && is_blocked_by_modal(msg) {
        unchanged(m)
    } else {
        handle(m, msg)
    }
}

/// The GPS fix counter has room for one more fix.
pub open spec fn gps_counter_has_room(m: AppModel, msg: Message) -> bool {
    msg matches Message::Robot(RobotEvent::Packet(RobotResponse::Gps { .. })) ==> m.gps.point_count < usize::MAX
}

} // verus!

verus! {

fn emit(fx: &mut Vec<Effect>, e: Effect)
    ensures
        effects(final(fx)@) == effects(old(fx)@).push(e@),
{
    let ghost v = e@;
    fx.push(e);
    proof {
        assert(effects(fx@) =~= effects(old(fx)@).push(v));
    }
}

fn list_has(list: &Vec<String>, t: &String) -> (b: bool)
    ensures
        b == texts(list@).contains(t@),
{
    proof {
        reveal(texts);
    }
    let mut i: usize = 0;
    while i < list.len()
        invariant
            i <= list@.len(),
            texts(list@) == list@.map_values(|s: String| s@),
            forall|j: int| 0 <= j < i ==> texts(list@)[j] != t@,
        decreases list@.len() - i,
    {
        if list[i] == *t {
            proof {
                assert(texts(list@)[i as int] == t@);
            }
            return true;
        }
        i = i + 1;
    }
    false
}

fn cameras_have(list: &Vec<CameraChoice>, c: &CameraChoice) -> (b: bool)
    ensures
        b == choices(list@).contains(c@),
{
    proof {
        reveal(choices);
    }
    let mut i: usize = 0;
    while i < list.len()
        invariant
            i <= list@.len(),
            choices(list@) == list@.map_values(|c: CameraChoice| c@),
            forall|j: int| 0 <= j < i ==> choices(list@)[j] != c@,
        decreases list@.len() - i,
    {
        if list[i].same_as(c) {
            proof {
                assert(choices(list@)[i as int] == c@);
            }
            return true;
        }
        i = i + 1;
    }
    false
}

fn first_text(list: &Vec<String>) -> (t: Option<String>)
    ensures
        opt_text(t) == (if texts(list@).len() > 0 { Some(texts(list@)[0]) } else { None }),
{
    proof {
        reveal(texts);
    }
    if list.len() > 0 {
        Some(list[0].clone())
    } else {
        None
    }
}

fn first_choice(list: &Vec<CameraChoice>) -> (c: Option<CameraChoice>)
    ensures
        opt_choice(c) == (if choices(list@).len() > 0 { Some(choices(list@)[0]) } else { None }),
{
    proof {
        reveal(choices);
    }
    if list.len() > 0 {
        Some(list[0].duplicate())
    } else {
        None
    }
}

/// Whether every character of `text` is an ASCII digit and there are at most five.
fn port_text_ok(text: &String) -> (b: bool)
    ensures
        b == port_text_accepted(text@),
{
    let s = text.as_str();
    let n = s.unicode_len();
    let mut i: usize = 0;
    while i < n
        invariant
            n == s@.len(),
            s@ == text@,
            i <= n,
            forall|j: int| 0 <= j < i ==> crate::input::is_digit(#[trigger] s@[j]),
        decreases n - i,
    {
        let c = s.get_char(i);
        if !('0' <= c && c <= '9') {
            proof {
                assert(!crate::input::is_digit(s@[i as int]));
            }
            return false;
        }
        i = i + 1;
    }
    n <= 5
}

fn pressed_keys(keys: KeyboardState, dir: Dir, pressed: bool) -> (k: KeyboardState)
    ensures
        k == with_key(keys, dir, pressed),
{
    let mut k = keys;
    match dir {
        Dir::Forward => k.forward = pressed,
        Dir::Backward => k.backward = pressed,
        Dir::Left => k.left = pressed,
        Dir::Right => k.right = pressed,
    }
    k
}

/// One step in a list of `len` entries from `current`; `None` at either end, with
/// no wrapping around.
pub fn step_index(current: usize, step: Step, len: usize) -> (next: Option<usize>)
    ensures
        next == next_index(current, step, len),
{
    match step {
        Step::Up => if len > 0 && current < len - 1 { Some(current + 1) } else { None },
        Step::Down => if current > 0 { Some(current - 1) } else { None },
    }
}

fn interval_index(ms: u8) -> (i: usize)
    ensures
        i == interval_position(ms),
{
    if ms == 10 {
        0
    } else if ms == 20 {
        1
    } else if ms == 30 {
        2
    } else if ms == 40 {
        3
    } else if ms == 50 {
        4
    } else {
        0
    }
}

fn interval_choice(i: usize) -> (ms: u8)
    requires
        i < 5,
    ensures
        ms == interval_at(i),
{
    if i == 0 {
        10
    } else if i == 1 {
        20
    } else if i == 2 {
        30
    } else if i == 3 {
        40
    } else {
        50
    }
}

impl App {
    /// Stops the motor and clears every drive input (see `motor_stop`).
    fn stop_motor(&mut self, fx: &mut Vec<Effect>)
        ensures
            final(self)@ == motor_stop(old(self)@).0,
            effects(final(fx)@) == effects(old(fx)@) + motor_stop(old(self)@).1,
    {
        emit(fx, Effect::SetMotorRunning(false));
        emit(fx, Effect::SendZeroSpeed);
        self.drive.motor_running = false;
        self.reset_drive_inputs();
        proof {
            assert(effects(fx@) =~= effects(old(fx)@) + motor_stop(old(self)@).1);
        }
    }

    /// Hands new speeds to the sender and the display.
    fn apply_speeds(&mut self, fx: &mut Vec<Effect>, left: i8, right: i8)
        ensures
            final(self)@ == speeds_set(old(self)@, left, right).0,
            effects(final(fx)@) == effects(old(fx)@) + speeds_set(old(self)@, left, right).1,
    {
        emit(fx, Effect::SetSpeeds { left, right });
        self.drive.left_speed = left;
        self.drive.right_speed = right;
        proof {
            assert(effects(fx@) =~= effects(old(fx)@) + speeds_set(old(self)@, left, right).1);
        }
    }

    fn connect(&mut self, fx: &mut Vec<Effect>)
        ensures
            final(self)@ == connect(old(self)@).0,
            effects(final(fx)@) == effects(old(fx)@) + connect(old(self)@).1,
    {
        if self.link.is_serial {
            let port = match &self.link.serial_port {
                Some(p) => p.clone(),
                None => {
                    proof {
                        assert(effects(fx@) =~= effects(old(fx)@) + connect(old(self)@).1);
                    }
                    return;
                },
            };
            let mut status = String::from_str("Bağlanıyor — ");
            status.append(port.as_str());
            emit(fx, Effect::ConnectSerial { port, baud: BAUD_RATE });
            self.link.status_text = status;
        } else {
            let port = self.tcp_port_value();
            let host_ok = self.tcp_host_valid();
            if port.is_none() || !host_ok {
                proof {
                    assert(effects(fx@) =~= effects(old(fx)@) + connect(old(self)@).1);
                }
                return;
            }
            let port = port.unwrap();
            let host = self.link.tcp_host.clone();
            let mut status = String::from_str("Bağlanıyor — ");
            status.append(host.as_str());
            status.append(":");
            push_decimal(&mut status, port as u64);
            emit(fx, Effect::ConnectTcp { host, port });
            self.link.status_text = status;
        }
        self.link.connecting = true;
        self.link.last_error = None;
        proof {
            assert(effects(fx@) =~= effects(old(fx)@) + connect(old(self)@).1);
        }
    }

    fn disconnect(&mut self, fx: &mut Vec<Effect>)
        ensures
            final(self)@ == disconnect(old(self)@).0,
            effects(final(fx)@) == effects(old(fx)@) + disconnect(old(self)@).1,
    {
        emit(fx, Effect::Disconnect);
        self.link.connecting = false;
        self.link.last_error = None;
        self.stop_motor(fx);
        proof {
            assert(effects(fx@) =~= effects(old(fx)@) + disconnect(old(self)@).1);
        }
    }

    fn start_motor(&mut self, fx: &mut Vec<Effect>)
        ensures
            final(self)@ == start_motor(old(self)@).0,
            effects(final(fx)@) == effects(old(fx)@) + start_motor(old(self)@).1,
    {
        emit(fx, Effect::Send(simple_packet(Command::SetStart)));
        emit(fx, Effect::SetMotorRunning(true));
        self.drive.motor_running = true;
        proof {
            assert(effects(fx@) =~= effects(old(fx)@) + start_motor(old(self)@).1);
        }
    }

    fn stop_pressed(&mut self, fx: &mut Vec<Effect>)
        ensures
            final(self)@ == stop_pressed(old(self)@).0,
            effects(final(fx)@) == effects(old(fx)@) + stop_pressed(old(self)@).1,
    {
        emit(fx, Effect::Send(simple_packet(Command::SetStop)));
        self.stop_motor(fx);
        proof {
            assert(effects(fx@) =~= effects(old(fx)@) + stop_pressed(old(self)@).1);
        }
    }

    fn select_interval(&mut self, fx: &mut Vec<Effect>, ms: u8)
        ensures
            final(self)@ == select_interval(old(self)@, ms).0,
            effects(final(fx)@) == effects(old(fx)@) + select_interval(old(self)@, ms).1,
    {
        let ms = if ms < 10 {
            10
        } else if ms > 50 {
            50
        } else {
            ms
        };
        emit(fx, Effect::SetInterval(ms));
        self.drive.send_interval_ms = ms;
        proof {
            assert(effects(fx@) =~= effects(old(fx)@) + select_interval(old(self)@, ms).1);
        }
    }

    fn select_gear(&mut self, fx: &mut Vec<Effect>, gear: u8)
        ensures
            final(self)@ == select_gear(old(self)@, gear).0,
            effects(final(fx)@) == effects(old(fx)@) + select_gear(old(self)@, gear).1,
    {
        let g = if gear < 1 {
            1
        } else if gear > 3 {
            3
        } else {
            gear
        };
        emit(fx, Effect::SetGear(g));
        self.drive.gear = g;
        proof {
            assert(effects(fx@) =~= effects(old(fx)@) + select_gear(old(self)@, gear).1);
        }
    }

    fn toggle_reverse_left(&mut self, fx: &mut Vec<Effect>)
        ensures
            final(self)@ == toggle_reverse_left(old(self)@).0,
            effects(final(fx)@) == effects(old(fx)@) + toggle_reverse_left(old(self)@).1,
    {
        let on = !self.drive.reverse_left;
        self.drive.reverse_left = on;
        emit(fx, Effect::SetReverseLeft(on));
        if on {
            self.drive.reverse_right = false;
            emit(fx, Effect::SetReverseRight(false));
        }
        proof {
            assert(effects(fx@) =~= effects(old(fx)@) + toggle_reverse_left(old(self)@).1);
        }
    }

    fn toggle_reverse_right(&mut self, fx: &mut Vec<Effect>)
        ensures
            final(self)@ == toggle_reverse_right(old(self)@).0,
            effects(final(fx)@) == effects(old(fx)@) + toggle_reverse_right(old(self)@).1,
    {
        let on = !self.drive.reverse_right;
        self.drive.reverse_right = on;
        emit(fx, Effect::SetReverseRight(on));
        if on {
            self.drive.reverse_left = false;
            emit(fx, Effect::SetReverseLeft(false));
        }
        proof {
            assert(effects(fx@) =~= effects(old(fx)@) + toggle_reverse_right(old(self)@).1);
        }
    }

    fn toggle_light(&mut self, fx: &mut Vec<Effect>)
        ensures
            final(self)@ == toggle_light(old(self)@).0,
            effects(final(fx)@) == effects(old(fx)@) + toggle_light(old(self)@).1,
    {
        if self.link.connected {
            let on = !self.drive.light_on;
            emit(fx, Effect::Send(light_packet(on)));
            self.drive.light_on = on;
        }
        proof {
            assert(effects(fx@) =~= effects(old(fx)@) + toggle_light(old(self)@).1);
        }
    }

    fn toggle_brake(&mut self, fx: &mut Vec<Effect>)
        ensures
            final(self)@ == toggle_brake(old(self)@).0,
            effects(final(fx)@) == effects(old(fx)@) + toggle_brake(old(self)@).1,
    {
        if self.link.connected {
            let on = !self.drive.brake_on;
            emit(fx, Effect::Send(brake_packet(on)));
            self.drive.brake_on = on;
        }
        proof {
            assert(effects(fx@) =~= effects(old(fx)@) + toggle_brake(old(self)@).1);
        }
    }

    /// Updates the held drive keys and recomputes the speeds; ignored while the
    /// motor is stopped.
    fn set_dir(&mut self, fx: &mut Vec<Effect>, dir: Dir, pressed: bool)
        ensures
            final(self)@ == key_change(old(self)@, dir, pressed).0,
            effects(final(fx)@) == effects(old(fx)@) + key_change(old(self)@, dir, pressed).1,
    {
        if !self.drive.motor_running {
            proof {
                assert(effects(fx@) =~= effects(old(fx)@) + key_change(old(self)@, dir, pressed).1);
            }
            return;
        }
        let keys = pressed_keys(self.drive.keyboard, dir, pressed);
        self.drive.keyboard = keys;
        let speeds = calculate(&keys);
        self.apply_speeds(fx, speeds.left, speeds.right);
    }

    fn joystick_moved(&mut self, fx: &mut Vec<Effect>, left: i8, right: i8)
        ensures
            final(self)@ == joystick_moved(old(self)@, left, right).0,
            effects(final(fx)@) == effects(old(fx)@) + joystick_moved(old(self)@, left, right).1,
    {
        self.drive.joystick_dragging = true;
        if self.drive.motor_running {
            self.apply_speeds(fx, left, right);
        } else {
            proof {
                assert(effects(fx@) =~= effects(old(fx)@) + joystick_moved(old(self)@, left, right).1);
            }
        }
    }

    fn joystick_released(&mut self, fx: &mut Vec<Effect>)
        ensures
            final(self)@ == joystick_released(old(self)@).0,
            effects(final(fx)@) == effects(old(fx)@) + joystick_released(old(self)@).1,
    {
        if !self.drive.joystick_dragging {
            proof {
                assert(effects(fx@) =~= effects(old(fx)@) + joystick_released(old(self)@).1);
            }
            return;
        }
        self.drive.joystick_dragging = false;
        self.apply_speeds(fx, 0, 0);
    }

    fn camera_start(&mut self, fx: &mut Vec<Effect>)
        ensures
            final(self)@ == camera_start(old(self)@).0,
            effects(final(fx)@) == effects(old(fx)@) + camera_start(old(self)@).1,
    {
        let index = match &self.camera.selected {
            Some(choice) => choice.index,
            None => {
                proof {
                    assert(effects(fx@) =~= effects(old(fx)@) + camera_start(old(self)@).1);
                }
                return;
            },
        };
        self.camera.error = String::new();
        self.camera.starting = true;
        emit(fx, Effect::StartCamera(index));
        proof {
            assert(effects(fx@) =~= effects(old(fx)@) + camera_start(old(self)@).1);
        }
    }

    fn camera_stop(&mut self, fx: &mut Vec<Effect>)
        ensures
            final(self)@ == camera_stop(old(self)@).0,
            effects(final(fx)@) == effects(old(fx)@) + camera_stop(old(self)@).1,
    {
        emit(fx, Effect::StopCamera);
        emit(fx, Effect::SetDetection(false));
        self.camera.detection_enabled = false;
        self.camera.detection_count = 0;
        self.camera.starting = false;
        self.camera.running = false;
        self.camera.has_frame = false;
        self.camera.fps = 0;
        proof {
            assert(effects(fx@) =~= effects(old(fx)@) + camera_stop(old(self)@).1);
        }
    }

    fn ports_loaded(&mut self, ports: Vec<String>)
        ensures
            final(self)@ == ports_loaded(old(self)@, texts(ports@)).0,
    {
        let keep = match &self.link.serial_port {
            Some(current) => list_has(&ports, current),
            None => false,
        };
        if !keep {
            self.link.serial_port = first_text(&ports);
        }
        self.link.available_ports = ports;
    }

    fn cameras_loaded(&mut self, cams: Vec<CameraChoice>)
        ensures
            final(self)@ == cameras_loaded(old(self)@, choices(cams@)).0,
    {
        let still_present = match &self.camera.selected {
            Some(choice) => cameras_have(&cams, choice),
            None => false,
        };
        if !still_present {
            self.camera.selected = first_choice(&cams);
        }
        self.camera.available = cams;
    }

    fn interval_stepped(&mut self, fx: &mut Vec<Effect>, step: Step)
        ensures
            final(self)@ == interval_stepped(old(self)@, step).0,
            effects(final(fx)@) == effects(old(fx)@) + interval_stepped(old(self)@, step).1,
    {
        if self.drive.motor_running {
            proof {
                assert(effects(fx@) =~= effects(old(fx)@) + interval_stepped(old(self)@, step).1);
            }
            return;
        }
        let current = interval_index(self.drive.send_interval_ms);
        match step_index(current, step, 5) {
            None => {
                proof {
                    assert(effects(fx@) =~= effects(old(fx)@) + interval_stepped(old(self)@, step).1);
                }
            },
            Some(next) => {
                self.select_interval(fx, interval_choice(next));
            },
        }
    }
}


impl App {
    fn apply_camera_update(&mut self, fx: &mut Vec<Effect>, notice: CameraNotice)
        ensures
            final(self)@ == camera_notice(old(self)@, notice).0,
            effects(final(fx)@) == effects(old(fx)@) + camera_notice(old(self)@, notice).1,
    {
        let ghost n = notice;
        match notice {
            CameraNotice::Frame => self.camera.has_frame = true,
            CameraNotice::Fps(fps) => self.camera.fps = fps,
            CameraNotice::Started => {
                self.camera.starting = false;
                self.camera.running = true;
                self.camera.error = String::new();
            },
            CameraNotice::Error(message) => {
                self.camera.starting = false;
                self.camera.running = false;
                self.camera.has_frame = false;
                self.camera.fps = 0;
                self.camera.error = message;
            },
            CameraNotice::Stopped => {
                self.camera.starting = false;
                self.camera.running = false;
                self.camera.has_frame = false;
                self.camera.fps = 0;
            },
            CameraNotice::DetectionCount(count) => self.camera.detection_count = count,
            CameraNotice::DetectionUnavailable(reason) => {
                self.camera.detection_error = Some(reason);
                self.camera.detection_enabled = false;
                self.camera.detection_count = 0;
                emit(fx, Effect::SetDetection(false));
            },
        }
        proof {
            assert(effects(fx@) =~= effects(old(fx)@) + camera_notice(old(self)@, n).1);
        }
    }

    fn detection_toggled(&mut self, fx: &mut Vec<Effect>)
        ensures
            final(self)@ == detection_toggled(old(self)@).0,
            effects(final(fx)@) == effects(old(fx)@) + detection_toggled(old(self)@).1,
    {
        if self.camera.detection_error.is_none() && self.camera.running {
            let enabled = !self.camera.detection_enabled;
            self.camera.detection_enabled = enabled;
            emit(fx, Effect::SetDetection(enabled));
            if !enabled {
                self.camera.detection_count = 0;
            }
        }
        proof {
            assert(effects(fx@) =~= effects(old(fx)@) + detection_toggled(old(self)@).1);
        }
    }

    fn gps_toggled(&mut self, fx: &mut Vec<Effect>)
        ensures
            final(self)@ == gps_toggled(old(self)@).0,
            effects(final(fx)@) == effects(old(fx)@) + gps_toggled(old(self)@).1,
    {
        if self.link.connected {
            let enabled = !self.gps.active;
            emit(fx, Effect::Send(gps_enable_packet(enabled)));
            self.gps.active = enabled;
            if enabled {
                self.gps.point_count = 0;
                self.gps.lat_bits = 0;
                self.gps.lon_bits = 0;
            }
        }
        proof {
            assert(effects(fx@) =~= effects(old(fx)@) + gps_toggled(old(self)@).1);
        }
    }

    fn close_requested(&mut self, fx: &mut Vec<Effect>)
        ensures
            final(self)@ == close_requested(old(self)@).0,
            effects(final(fx)@) == effects(old(fx)@) + close_requested(old(self)@).1,
    {
        self.stop_pressed(fx);
        emit(fx, Effect::ShutdownCamera);
        emit(fx, Effect::Exit);
        proof {
            assert(effects(fx@) =~= effects(old(fx)@) + close_requested(old(self)@).1);
        }
    }

    fn apply_robot_response(&mut self, fx: &mut Vec<Effect>, response: RobotResponse)
        requires
            response matches RobotResponse::Gps { .. } ==> old(self).gps.point_count < usize::MAX,
        ensures
            final(self)@ == robot_response(old(self)@, response).0,
            effects(final(fx)@) == effects(old(fx)@) + robot_response(old(self)@, response).1,
    {
        let ghost r = response;
        match response {
            RobotResponse::Status(running) => {
                self.drive.motor_running = running;
                emit(fx, Effect::SetMotorRunning(running));
            },
            RobotResponse::Speed { gear, left, right } => {
                self.drive.gear = if gear < 1 {
                    1
                } else if gear > 3 {
                    3
                } else {
                    gear
                };
                self.drive.left_speed = left;
                self.drive.right_speed = right;
            },
            RobotResponse::Light(on) => self.drive.light_on = on,
            RobotResponse::Brake(on) => self.drive.brake_on = on,
            RobotResponse::Gps { lat_bits, lon_bits } => {
                self.gps.lat_bits = lat_bits;
                self.gps.lon_bits = lon_bits;
                self.gps.point_count = self.gps.point_count + 1;
                if self.gps.point_count == 1 {
                    emit(fx, Effect::CenterOnRobot);
                }
            },
            RobotResponse::Unknown(_) => {},
        }
        proof {
            assert(effects(fx@) =~= effects(old(fx)@) + robot_response(old(self)@, r).1);
        }
    }

    /// Applies a link or robot event (see `robot_event`).
    fn apply_robot_event(&mut self, fx: &mut Vec<Effect>, event: RobotEvent)
        requires
            event matches RobotEvent::Packet(RobotResponse::Gps { .. }) ==> old(self).gps.point_count
                < usize::MAX,
        ensures
            final(self)@ == robot_event(old(self)@, event).0,
            effects(final(fx)@) == effects(old(fx)@) + robot_event(old(self)@, event).1,
    {
        let ghost e = event;
        match event {
            RobotEvent::Connected(endpoint) => {
                self.stop_motor(fx);
                self.link.connected = true;
                self.link.connecting = false;
                self.link.last_error = None;
                let mut status = String::from_str("Bağlı — ");
                status.append(endpoint.as_str());
                self.link.status_text = status;
            },
            RobotEvent::Disconnected => {
                self.stop_motor(fx);
                self.link.connected = false;
                self.link.connecting = false;
                self.gps.active = false;
                let status = match &self.link.last_error {
                    Some(reason) => {
                        let mut s = String::from_str("Bağlantı kesildi — ");
                        s.append(reason.as_str());
                        s
                    },
                    None => String::from_str("Bağlantı kesildi"),
                };
                self.link.status_text = status;
            },
            RobotEvent::Error(message) => {
                self.link.connecting = false;
                self.link.last_error = Some(message.clone());
                self.link.status_text = message;
            },
            RobotEvent::Packet(response) => {
                self.apply_robot_response(fx, response);
            },
        }
        proof {
            assert(effects(fx@) =~= effects(old(fx)@) + robot_event(old(self)@, e).1);
        }
    }

    fn connection_toggle(&mut self, fx: &mut Vec<Effect>)
        ensures
            final(self)@ == connection_toggle(old(self)@).0,
            effects(final(fx)@) == effects(old(fx)@) + connection_toggle(old(self)@).1,
    {
        if self.link.connected {
            self.disconnect(fx);
        } else if self.link.connecting || !self.can_connect() {
            proof {
                assert(effects(fx@) =~= effects(old(fx)@) + connection_toggle(old(self)@).1);
            }
        } else {
            self.connect(fx);
        }
    }

    fn camera_toggle(&mut self, fx: &mut Vec<Effect>)
        ensures
            final(self)@ == camera_toggle(old(self)@).0,
            effects(final(fx)@) == effects(old(fx)@) + camera_toggle(old(self)@).1,
    {
        if self.camera.starting {
            proof {
                assert(effects(fx@) =~= effects(old(fx)@) + camera_toggle(old(self)@).1);
            }
        } else if self.camera.running {
            self.camera_stop(fx);
        } else {
            self.camera_start(fx);
        }
    }
}


impl App {
    fn handle(&mut self, fx: &mut Vec<Effect>, message: Message)
        requires
            gps_counter_has_room(old(self)@, message),
        ensures
            final(self)@ == handle(old(self)@, message).0,
            effects(final(fx)@) == effects(old(fx)@) + handle(old(self)@, message).1,
    {
        if message_is_link(&message) {
            self.handle_link(fx, message);
        } else if message_is_drive(&message) {
            self.handle_drive(fx, message);
        } else {
            self.handle_rest(fx, message);
        }
    }

    fn handle_link(&mut self, fx: &mut Vec<Effect>, message: Message)
        requires
            gps_counter_has_room(old(self)@, message),
            is_link_message(message),
        ensures
            final(self)@ == handle(old(self)@, message).0,
            effects(final(fx)@) == effects(old(fx)@) + handle(old(self)@, message).1,
    {
        let ghost msg = message;
        match message {
            Message::SerialModeSelected(is_serial) => self.link.is_serial = is_serial,
            Message::PortSelected(port) => self.link.serial_port = Some(port),
            Message::PortsRefreshRequested => emit(fx, Effect::ListPorts),
            Message::PortsLoaded(ports) => self.ports_loaded(ports),
            Message::HostChanged(host) => self.link.tcp_host = host,
            Message::TcpPortChanged(port) => {
                if port_text_ok(&port) {
                    self.link.tcp_port = port;
                }
            },
            Message::ConnectPressed => self.connect(fx),
            Message::DisconnectPressed => self.disconnect(fx),
            Message::ConnectionToggleRequested => self.connection_toggle(fx),
            Message::RefreshRequested => {
                emit(fx, Effect::ListPorts);
                emit(fx, Effect::ListCameras);
            },
            Message::TransportToggleRequested => {
                if !self.link.connected && !self.link.connecting {
                    self.link.is_serial = !self.link.is_serial;
                }
            },
            Message::GpsToggled => self.gps_toggled(fx),
            Message::Robot(event) => self.apply_robot_event(fx, event),
            _ => {},
        }
        proof {
            assert(effects(fx@) =~= effects(old(fx)@) + handle(old(self)@, msg).1);
        }
    }

    fn handle_drive(&mut self, fx: &mut Vec<Effect>, message: Message)
        requires
            gps_counter_has_room(old(self)@, message),
            is_drive_message(message),
        ensures
            final(self)@ == handle(old(self)@, message).0,
            effects(final(fx)@) == effects(old(fx)@) + handle(old(self)@, message).1,
    {
        let ghost msg = message;
        match message {
            Message::StartPressed => self.start_motor(fx),
            Message::StopPressed | Message::EmergencyStop => self.stop_pressed(fx),
            Message::GearSelected(gear) => self.select_gear(fx, gear),
            Message::IntervalSelected(ms) => self.select_interval(fx, ms),
            Message::LightToggled => self.toggle_light(fx),
            Message::BrakeToggled => self.toggle_brake(fx),
            Message::ReverseLeftToggled => self.toggle_reverse_left(fx),
            Message::ReverseRightToggled => self.toggle_reverse_right(fx),
            Message::JoystickMoved { left, right } => self.joystick_moved(fx, left, right),
            Message::JoystickReleased => self.joystick_released(fx),
            Message::DirPressed(dir) => self.set_dir(fx, dir, true),
            Message::DirReleased(dir) => self.set_dir(fx, dir, false),
            Message::MotorStartRequested => {
                if self.link.connected && !self.drive.motor_running {
                    self.start_motor(fx);
                }
            },
            Message::IntervalStepped(step) => self.interval_stepped(fx, step),
            Message::CloseRequested => self.close_requested(fx),
            _ => {},
        }
        proof {
            assert(effects(fx@) =~= effects(old(fx)@) + handle(old(self)@, msg).1);
        }
    }

    fn handle_rest(&mut self, fx: &mut Vec<Effect>, message: Message)
        requires
            gps_counter_has_room(old(self)@, message),
            !is_link_message(message) && !is_drive_message(message),
        ensures
            final(self)@ == handle(old(self)@, message).0,
            effects(final(fx)@) == effects(old(fx)@) + handle(old(self)@, message).1,
    {
        let ghost msg = message;
        match message {
            Message::CameraToggleRequested => self.camera_toggle(fx),
            Message::MapZoomStepped(step) => {
                if self.tab == Tab::MapView {
                    let zoom = match step {
                        Step::Up => self.map_zoom.saturating_add(1),
                        Step::Down => self.map_zoom.saturating_sub(1),
                    };
                    self.select_zoom(fx, zoom);
                }
            },
            Message::TabSelected(tab) => self.tab = tab,
            Message::ThemeToggled => self.is_dark = !self.is_dark,
            Message::ModalOpened(modal) => self.modal = Some(modal),
            Message::ModalClosed => self.modal = None,
            Message::CameraSelected(choice) => self.camera.selected = Some(choice),
            Message::CamerasRefreshRequested => emit(fx, Effect::ListCameras),
            Message::CamerasLoaded(cams) => self.cameras_loaded(cams),
            Message::CameraStartPressed => self.camera_start(fx),
            Message::CameraStopPressed => self.camera_stop(fx),
            Message::DetectionToggled => self.detection_toggled(fx),
            Message::Camera(notice) => self.apply_camera_update(fx, notice),
            Message::MapPanned => emit(fx, Effect::ApplyMapView),
            Message::MapZoomedAt(zoom) => {
                self.map_zoom = zoom_level(zoom);
                emit(fx, Effect::ZoomMapAt(zoom));
            },
            Message::MapZoomSelected(zoom) => self.select_zoom(fx, zoom),
            Message::MapResized => emit(fx, Effect::ApplyMapView),
            Message::TileLoaded(result) => {
                if result != TileResult::Stale {
                    emit(fx, Effect::ApplyTile);
                }
            },
            _ => {},
        }
        proof {
            assert(effects(fx@) =~= effects(old(fx)@) + handle(old(self)@, msg).1);
        }
    }

    fn select_zoom(&mut self, fx: &mut Vec<Effect>, zoom: u32)
        ensures
            final(self)@ == select_zoom(old(self)@, zoom).0,
            effects(final(fx)@) == effects(old(fx)@) + select_zoom(old(self)@, zoom).1,
    {
        self.map_zoom = zoom_level(zoom);
        emit(fx, Effect::ZoomMap(zoom));
        proof {
            assert(effects(fx@) =~= effects(old(fx)@) + select_zoom(old(self)@, zoom).1);
        }
    }

    /// Handles one message and returns the effects it asks for, in order.
    ///
    /// While a modal window is open the messages it blocks (see
    /// `Message::blocked_by_modal`) change nothing and ask for nothing.
    pub fn update(&mut self, message: Message) -> (fx: Vec<Effect>)
        requires
            gps_counter_has_room(old(self)@, message),
        ensures
            (final(self)@, effects(fx@)) == step(old(self)@, message),
    {
        let mut fx: Vec<Effect> = Vec::new();
        if self.modal.is_some() && message.blocked_by_modal() {
            proof {
                assert(effects(fx@) =~= Seq::<EffectModel>::empty());
            }
            return fx;
        }
        self.handle(&mut fx, message);
        proof {
            assert(effects(Seq::<Effect>::empty()) =~= Seq::<EffectModel>::empty());
        }
        fx
    }
}

/// `zoom` kept within the zoom levels of the map.
fn zoom_level(zoom: u32) -> (z: u32)
    ensures
        z == clamp_zoom(zoom),
{
    if zoom < MIN_ZOOM {
        MIN_ZOOM
    } else if zoom > MAX_ZOOM {
        MAX_ZOOM
    } else {
        zoom
    }
}


/// Messages about the link to the robot.
pub open spec fn is_link_message(m: Message) -> bool {
    match m {
        Message::SerialModeSelected(_)
        | Message::PortSelected(_)
        | Message::PortsRefreshRequested
        | Message::PortsLoaded(_)
        | Message::HostChanged(_)
        | Message::TcpPortChanged(_)
        | Message::ConnectPressed
        | Message::DisconnectPressed
        | Message::ConnectionToggleRequested
        | Message::RefreshRequested
        | Message::TransportToggleRequested
        | Message::GpsToggled
        | Message::Robot(_) => true,
        _ => false,
    }
}

/// Messages about driving the robot.
pub open spec fn is_drive_message(m: Message) -> bool {
    match m {
        Message::StartPressed
        | Message::StopPressed
        | Message::EmergencyStop
        | Message::GearSelected(_)
        | Message::IntervalSelected(_)
        | Message::LightToggled
        | Message::BrakeToggled
        | Message::ReverseLeftToggled
        | Message::ReverseRightToggled
        | Message::JoystickMoved { .. }
        | Message::JoystickReleased
        | Message::DirPressed(_)
        | Message::DirReleased(_)
        | Message::MotorStartRequested
        | Message::IntervalStepped(_)
        | Message::CloseRequested => true,
        _ => false,
    }
}

fn message_is_link(m: &Message) -> (b: bool)
    ensures
        b == is_link_message(*m),
{
    matches!(
        *m,
        Message::SerialModeSelected(_)
        | Message::PortSelected(_)
        | Message::PortsRefreshRequested
        | Message::PortsLoaded(_)
        | Message::HostChanged(_)
        | Message::TcpPortChanged(_)
        | Message::ConnectPressed
        | Message::DisconnectPressed
        | Message::ConnectionToggleRequested
        | Message::RefreshRequested
        | Message::TransportToggleRequested
        | Message::GpsToggled
        | Message::Robot(_)
    )
}

fn message_is_drive(m: &Message) -> (b: bool)
    ensures
        b == is_drive_message(*m),
{
    matches!(
        *m,
        Message::StartPressed
        | Message::StopPressed
        | Message::EmergencyStop
        | Message::GearSelected(_)
        | Message::IntervalSelected(_)
        | Message::LightToggled
        | Message::BrakeToggled
        | Message::ReverseLeftToggled
        | Message::ReverseRightToggled
        | Message::JoystickMoved { .. }
        | Message::JoystickReleased
        | Message::DirPressed(_)
        | Message::DirReleased(_)
        | Message::MotorStartRequested
        | Message::IntervalStepped(_)
        | Message::CloseRequested
    )
}
} // verus!
