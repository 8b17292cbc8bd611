//! Everything that can happen to the controller: user intents, background results
//! and robot events.

use vstd::prelude::*;
use crate::framing::RobotEvent;
use crate::state::CameraChoice;

verus! {

/// View tab of the left panel.
#[derive(Debug, Clone, Copy, PartialEq, Eq, Structural)]
pub enum Tab {
    Camera,
    MapView,
}

/// Information window shown over the main view.
#[derive(Debug, Clone, Copy, PartialEq, Eq, Structural)]
pub enum Modal {
    About,
    Shortcuts,
}

/// One step in a discrete list: the send interval and the map zoom.
#[derive(Debug, Clone, Copy, PartialEq, Eq, Structural)]
pub enum Step {
    Down,
    Up,
}

/// Keyboard drive direction; WASD and the arrow keys fall on the same directions.
#[derive(Debug, Clone, Copy, PartialEq, Eq, Structural)]
pub enum Dir {
    Forward,
    Backward,
    Left,
    Right,
}

/// What the camera pipeline reports.
#[derive(Debug, Clone)]
pub enum CameraNotice {
    /// A new frame is ready for display.
    Frame,
    Fps(u32),
    Started,
    Error(String),
    Stopped,
    DetectionCount(usize),
    /// The detection worker cannot run (its model did not load); this is permanent.
    DetectionUnavailable(String),
}

/// How a map tile download ended.
#[derive(Debug, Clone, Copy, PartialEq, Eq, Structural)]
pub enum TileResult {
    Loaded,
    Failed,
    /// The view changed since the request was issued; a fresh request is in flight.
    Stale,
}

/// Messages that drive the controller state machine.
///
/// Pointer positions and map geometry stay with the user interface; the joystick
/// arrives here as the motor speeds it was mixed into.
#[derive(Debug, Clone)]
pub enum Message {
    // Connection
    SerialModeSelected(bool),
    PortSelected(String),
    PortsRefreshRequested,
    PortsLoaded(Vec<String>),
    HostChanged(String),
    TcpPortChanged(String),
    ConnectPressed,
    DisconnectPressed,
    // Motor
    StartPressed,
    StopPressed,
    GearSelected(u8),
    IntervalSelected(u8),
    LightToggled,
    BrakeToggled,
    ReverseLeftToggled,
    ReverseRightToggled,
    // Joystick
    JoystickMoved { left: i8, right: i8 },
    JoystickReleased,
    // Keyboard
    DirPressed(Dir),
    DirReleased(Dir),
    EmergencyStop,
    // Shortcut intents
    ConnectionToggleRequested,
    RefreshRequested,
    MotorStartRequested,
    CameraToggleRequested,
    TransportToggleRequested,
    IntervalStepped(Step),
    MapZoomStepped(Step),
    // View
    TabSelected(Tab),
    ThemeToggled,
    ModalOpened(Modal),
    ModalClosed,
    // Camera
    CameraSelected(CameraChoice),
    CamerasRefreshRequested,
    CamerasLoaded(Vec<CameraChoice>),
    CameraStartPressed,
    CameraStopPressed,
    DetectionToggled,
    Camera(CameraNotice),
    // Map
    MapPanned,
    MapZoomedAt(u32),
    MapZoomSelected(u32),
    MapResized,
    TileLoaded(TileResult),
    GpsToggled,
    // Robot
    Robot(RobotEvent),
    CloseRequested,
}

/// Messages swallowed while a modal window is open: every user intent, except
/// stopping, the modal's own controls and the release of a drive input (a swallowed
/// release would leave the robot driving). Background results always pass.
pub open spec fn is_blocked_by_modal(m: Message) -> bool {
    match m {
        Message::EmergencyStop | Message::StopPressed => false,
        Message::ModalOpened(_) | Message::ModalClosed => false,
        Message::DirReleased(_) | Message::JoystickReleased => false,
        Message::Robot(_)
        | Message::Camera(_)
        | Message::TileLoaded(_)
        | Message::PortsLoaded(_)
        | Message::CamerasLoaded(_)
        | Message::MapResized
        | Message::CloseRequested => false,
        _ => true,
    }
}

impl Message {
    /// Whether this message is swallowed while a modal window is open
    /// (see `is_blocked_by_modal`).
    pub fn blocked_by_modal(&self) -> (b: bool)
        ensures
            b == is_blocked_by_modal(*self),
    {
        match self {
            Message::EmergencyStop | Message::StopPressed => false,
            Message::ModalOpened(_) | Message::ModalClosed => false,
            Message::DirReleased(_) | Message::JoystickReleased => false,
            Message::Robot(_)
            | Message::Camera(_)
            | Message::TileLoaded(_)
            | Message::PortsLoaded(_)
            | Message::CamerasLoaded(_)
            | Message::MapResized
            | Message::CloseRequested => false,
            Message::SerialModeSelected(_)
            | Message::PortSelected(_)
            | Message::PortsRefreshRequested
            | Message::HostChanged(_)
            | Message::TcpPortChanged(_)
            | Message::ConnectPressed
            | Message::DisconnectPressed
            | Message::StartPressed
            | Message::GearSelected(_)
            | Message::IntervalSelected(_)
            | Message::LightToggled
            | Message::BrakeToggled
            | Message::ReverseLeftToggled
            | Message::ReverseRightToggled
            | Message::JoystickMoved { .. }
            | Message::DirPressed(_)
            | Message::ConnectionToggleRequested
            | Message::RefreshRequested
            | Message::MotorStartRequested
            | Message::CameraToggleRequested
            | Message::TransportToggleRequested
            | Message::IntervalStepped(_)
            | Message::MapZoomStepped(_)
            | Message::TabSelected(_)
            | Message::ThemeToggled
            | Message::CameraSelected(_)
            | Message::CamerasRefreshRequested
            | Message::CameraStartPressed
            | Message::CameraStopPressed
            | Message::DetectionToggled
            | Message::MapPanned
            | Message::MapZoomedAt(_)
            | Message::MapZoomSelected(_)
            | Message::GpsToggled => true,
        }
    }
}

} // verus!
