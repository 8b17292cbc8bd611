//! The controller model: what the user interface shows and what the drive and
//! connection logic decide on.

use vstd::prelude::*;
use vstd::string::*;
use crate::input::{decimal, is_ipv4_address, is_ipv4_text, parse_port, push_decimal, u16_text_value};
use crate::keyboard::KeyboardState;
use crate::message::{Modal, Tab};

verus! {

/// Serial line speed.
pub const BAUD_RATE: u32 = 115_200;

/// Send interval choices in milliseconds.
pub const INTERVALS_MS: [u8; 5] = [10, 20, 30, 40, 50];

/// Map zoom levels that the map accepts.
pub const MIN_ZOOM: u32 = 1;
pub const MAX_ZOOM: u32 = 19;

/// Map zoom at start-up.
pub const DEFAULT_ZOOM: u32 = 15;

/// A camera the user can pick, labelled `"<index>: <name>"`.
#[derive(Debug, Clone, PartialEq, Eq)]
pub struct CameraChoice {
    pub index: usize,
    pub name: String,
}

impl View for CameraChoice {
    type V = (usize, Seq<char>);

    open spec fn view(&self) -> (usize, Seq<char>) {
        (self.index, self.name@)
    }
}

impl CameraChoice {
    /// The label shown in the camera list: `"<index>: <name>"`.
    pub fn label(&self) -> (s: String)
        ensures
            s@ == decimal(self.index as nat) + ": "@ + self.name@,
    {
        let mut s = String::new();
        push_decimal(&mut s, self.index as u64);
        s.append(": ");
        s.append(self.name.as_str());
        s
    }

    /// A copy with the same index and name.
    pub fn duplicate(&self) -> (c: CameraChoice)
        ensures
            c@ == self@,
    {
        CameraChoice { index: self.index, name: self.name.clone() }
    }

    /// Same index and same name.
    pub fn same_as(&self, other: &CameraChoice) -> (b: bool)
        ensures
            b == (self@ == other@),
    {
        self.index == other.index && self.name == other.name
    }
}

/// The values of a list of texts.
#[verifier::opaque]
pub open spec fn texts(v: Seq<String>) -> Seq<Seq<char>> {
    v.map_values(|s: String| s@)
}

/// The values of a list of camera choices.
#[verifier::opaque]
pub open spec fn choices(v: Seq<CameraChoice>) -> Seq<(usize, Seq<char>)> {
    v.map_values(|c: CameraChoice| c@)
}

/// Motor, peripherals and drive inputs.
#[derive(Debug, Clone, Copy, PartialEq, Eq, Structural)]
pub struct Drive {
    pub motor_running: bool,
    pub gear: u8,
    pub send_interval_ms: u8,
    pub reverse_left: bool,
    pub reverse_right: bool,
    pub light_on: bool,
    pub brake_on: bool,
    /// Speed display, left motor.
    pub left_speed: i8,
    /// Speed display, right motor.
    pub right_speed: i8,
    pub joystick_dragging: bool,
    pub keyboard: KeyboardState,
}

/// GPS broadcast state and the last fix.
#[derive(Debug, Clone, Copy, PartialEq, Eq, Structural)]
pub struct Gps {
    pub active: bool,
    /// Raw IEEE-754 bits of the last latitude.
    pub lat_bits: u32,
    /// Raw IEEE-754 bits of the last longitude.
    pub lon_bits: u32,
    pub point_count: usize,
}

/// The connection to the robot.
pub struct Link {
    pub connected: bool,
    /// A connection was requested and neither `Connected` nor `Error` has come yet.
    pub connecting: bool,
    pub is_serial: bool,
    pub status_text: String,
    /// The last error the link reported; shown again when the link drops.
    pub last_error: Option<String>,
    pub serial_port: Option<String>,
    pub available_ports: Vec<String>,
    pub tcp_host: String,
    pub tcp_port: String,
}

/// The connection as values.
pub struct LinkModel {
    pub connected: bool,
    pub connecting: bool,
    pub is_serial: bool,
    pub status_text: Seq<char>,
    pub last_error: Option<Seq<char>>,
    pub serial_port: Option<Seq<char>>,
    pub available_ports: Seq<Seq<char>>,
    pub tcp_host: Seq<char>,
    pub tcp_port: Seq<char>,
}

/// The camera and the object detection on its frames.
pub struct CameraPanel {
    pub running: bool,
    /// The camera was asked to start and neither `Started` nor `Error` has come yet.
    pub starting: bool,
    /// A camera frame is on display.
    pub has_frame: bool,
    pub fps: u32,
    pub error: String,
    pub available: Vec<CameraChoice>,
    pub selected: Option<CameraChoice>,
    pub detection_enabled: bool,
    pub detection_count: usize,
    /// Why detection can never run; while set, detection cannot be switched on.
    pub detection_error: Option<String>,
}

/// The camera panel as values.
pub struct CameraModel {
    pub running: bool,
    pub starting: bool,
    pub has_frame: bool,
    pub fps: u32,
    pub error: Seq<char>,
    pub available: Seq<(usize, Seq<char>)>,
    pub selected: Option<(usize, Seq<char>)>,
    pub detection_enabled: bool,
    pub detection_count: usize,
    pub detection_error: Option<Seq<char>>,
}

/// The state of the controller.
pub struct App {
    pub is_dark: bool,
    pub tab: Tab,
    pub modal: Option<Modal>,
    pub link: Link,
    pub drive: Drive,
    pub camera: CameraPanel,
    pub gps: Gps,
    pub map_zoom: u32,
}

/// The controller state as values.
pub struct AppModel {
    pub is_dark: bool,
    pub tab: Tab,
    pub modal: Option<Modal>,
    pub link: LinkModel,
    pub drive: Drive,
    pub camera: CameraModel,
    pub gps: Gps,
    pub map_zoom: u32,
}

/// The value of an optional text.
pub open spec fn opt_text(s: Option<String>) -> Option<Seq<char>> {
    match s {
        Some(t) => Some(t@),
        None => None,
    }
}

/// The value of an optional camera choice.
pub open spec fn opt_choice(c: Option<CameraChoice>) -> Option<(usize, Seq<char>)> {
    match c {
        Some(t) => Some(t@),
        None => None,
    }
}

impl View for Link {
    type V = LinkModel;

    open spec fn view(&self) -> LinkModel {
        LinkModel {
            connected: self.connected,
            connecting: self.connecting,
            is_serial: self.is_serial,
            status_text: self.status_text@,
            last_error: opt_text(self.last_error),
            serial_port: opt_text(self.serial_port),
            available_ports: texts(self.available_ports@),
            tcp_host: self.tcp_host@,
            tcp_port: self.tcp_port@,
        }
    }
}

impl View for CameraPanel {
    type V = CameraModel;

    open spec fn view(&self) -> CameraModel {
        CameraModel {
            running: self.running,
            starting: self.starting,
            has_frame: self.has_frame,
            fps: self.fps,
            error: self.error@,
            available: choices(self.available@),
            selected: opt_choice(self.selected),
            detection_enabled: self.detection_enabled,
            detection_count: self.detection_count,
            detection_error: opt_text(self.detection_error),
        }
    }
}

impl View for App {
    type V = AppModel;

    open spec fn view(&self) -> AppModel {
        AppModel {
            is_dark: self.is_dark,
            tab: self.tab,
            modal: self.modal,
            link: self.link@,
            drive: self.drive,
            camera: self.camera@,
            gps: self.gps,
            map_zoom: self.map_zoom,
        }
    }
}

/// No drive key held.
pub open spec fn keys_up() -> KeyboardState {
    KeyboardState { forward: false, backward: false, left: false, right: false }
}

/// The state at start-up.
pub open spec fn initial_model() -> AppModel {
    AppModel {
        is_dark: true,
        tab: Tab::Camera,
        modal: None,
        link: LinkModel {
            connected: false,
            connecting: false,
            is_serial: true,
            status_text: "Hazır..."@,
            last_error: None,
            serial_port: None,
            available_ports: Seq::empty(),
            tcp_host: "192.168.4.1"@,
            tcp_port: "80"@,
        },
        drive: Drive {
            motor_running: false,
            gear: 1,
            send_interval_ms: 30,
            reverse_left: false,
            reverse_right: false,
            light_on: false,
            brake_on: false,
            left_speed: 0,
            right_speed: 0,
            joystick_dragging: false,
            keyboard: keys_up(),
        },
        camera: CameraModel {
            running: false,
            starting: false,
            has_frame: false,
            fps: 0,
            error: Seq::empty(),
            available: Seq::empty(),
            selected: None,
            detection_enabled: false,
            detection_count: 0,
            detection_error: None,
        },
        gps: Gps { active: false, lat_bits: 0, lon_bits: 0, point_count: 0 },
        map_zoom: DEFAULT_ZOOM,
    }
}

/// The TCP port in the port field: a non-zero `u16`, when the text reads as one.
pub open spec fn port_value(text: Seq<char>) -> Option<u16> {
    match u16_text_value(text) {
        Some(v) => if v > 0 { Some(v as u16) } else { None },
        None => None,
    }
}

/// Whether the connect button can be pressed: a serial port is chosen, or the TCP
/// host is an IPv4 address and the port a non-zero port number.
pub open spec fn connect_allowed(l: LinkModel) -> bool {
    if l.is_serial {
        l.serial_port is Some
    } else {
        is_ipv4_text(l.tcp_host) && port_value(l.tcp_port) is Some
    }
}

impl App {
    /// The controller at start-up.
    pub fn new() -> (app: Self)
        ensures
            app@ == initial_model(),
    {
        let app = App {
            is_dark: true,
            tab: Tab::Camera,
            modal: None,
            link: Link {
                connected: false,
                connecting: false,
                is_serial: true,
                status_text: String::from_str("Hazır..."),
                last_error: None,
                serial_port: None,
                available_ports: Vec::new(),
                tcp_host: String::from_str("192.168.4.1"),
                tcp_port: String::from_str("80"),
            },
            drive: Drive {
                motor_running: false,
                gear: 1,
                send_interval_ms: 30,
                reverse_left: false,
                reverse_right: false,
                light_on: false,
                brake_on: false,
                left_speed: 0,
                right_speed: 0,
                joystick_dragging: false,
                keyboard: KeyboardState::default(),
            },
            camera: CameraPanel {
                running: false,
                starting: false,
                has_frame: false,
                fps: 0,
                error: String::new(),
                available: Vec::new(),
                selected: None,
                detection_enabled: false,
                detection_count: 0,
                detection_error: None,
            },
            gps: Gps { active: false, lat_bits: 0, lon_bits: 0, point_count: 0 },
            map_zoom: DEFAULT_ZOOM,
        };
        proof {
            reveal(texts);
            reveal(choices);
            assert(texts(app.link.available_ports@) =~= Seq::<Seq<char>>::empty());
            assert(choices(app.camera.available@) =~= Seq::<(usize, Seq<char>)>::empty());
        }
        app
    }

    /// Whether the TCP host field holds a dotted IPv4 address.
    pub fn tcp_host_valid(&self) -> (b: bool)
        ensures
            b == is_ipv4_text(self.link.tcp_host@),
    {
        is_ipv4_address(self.link.tcp_host.as_str())
    }

    /// The TCP port field as a non-zero port number.
    pub fn tcp_port_value(&self) -> (p: Option<u16>)
        ensures
            p == port_value(self.link.tcp_port@),
    {
        parse_port(self.link.tcp_port.as_str())
    }

    /// Whether the connect button can be pressed (see `connect_allowed`).
    pub fn can_connect(&self) -> (b: bool)
        ensures
            b == connect_allowed(self.link@),
    {
        if self.link.is_serial {
            self.link.serial_port.is_some()
        } else {
            self.tcp_host_valid() && self.tcp_port_value().is_some()
        }
    }

    /// Clears every drive input and the speed display, for when the motor stops.
    pub fn reset_drive_inputs(&mut self)
        ensures
            final(self)@ == (AppModel { drive: cleared_inputs(old(self)@.drive), ..old(self)@ }),
    {
        self.drive.keyboard = KeyboardState::default();
        self.drive.joystick_dragging = false;
        self.drive.left_speed = 0;
        self.drive.right_speed = 0;
    }
}

/// `d` with no drive key held, the joystick let go and the speed display at zero.
pub open spec fn cleared_inputs(d: Drive) -> Drive {
    Drive { keyboard: keys_up(), joystick_dragging: false, left_speed: 0, right_speed: 0, ..d }
}

} // verus!
