//! The periodic speed sender: what it knows of the drive, and the speed frames it
//! sends.

use vstd::prelude::*;
use crate::packet::{speed_packet, speed_payload, spec_frame};
use crate::state::Drive;
use crate::types::Command;
use crate::update::{Effect, EffectModel};

verus! {

/// The sender never sleeps less than this between two frames, in milliseconds.
pub const MIN_INTERVAL_MS: u64 = 5;

/// What the periodic speed sender knows of the drive.
#[derive(Debug, Clone, Copy, PartialEq, Eq, Structural)]
pub struct SpeedSender {
    pub left: i8,
    pub right: i8,
    pub gear: u8,
    pub motor_running: bool,
    pub reverse_left: bool,
    pub reverse_right: bool,
    pub send_interval_ms: u8,
}

/// The speed frame for `left` and `right` with the sender's gear and reverse flags.
pub open spec fn frame_for(s: SpeedSender, left: i8, right: i8) -> Seq<u8> {
    spec_frame(
        Command::SetSpeed.code(),
        speed_payload(left, right, s.gear, s.reverse_left, s.reverse_right),
    )
}

impl SpeedSender {
    /// Stopped, first gear, no reverse flag, 30 ms interval.
    pub fn new() -> (s: Self)
        ensures
            s == (SpeedSender {
                left: 0,
                right: 0,
                gear: 1,
                motor_running: false,
                reverse_left: false,
                reverse_right: false,
                send_interval_ms: 30,
            }),
    {
        SpeedSender {
            left: 0,
            right: 0,
            gear: 1,
            motor_running: false,
            reverse_left: false,
            reverse_right: false,
            send_interval_ms: 30,
        }
    }

    pub fn set_speeds(&mut self, left: i8, right: i8)
        ensures
            *final(self) == (SpeedSender { left, right, ..*old(self) }),
    {
        self.left = left;
        self.right = right;
    }

    /// The speed frame for `left` and `right` with the sender's gear and reverse flags.
    pub fn speed_packet_now(&self, left: i8, right: i8) -> (pkt: Vec<u8>)
        ensures
            pkt@ == frame_for(*self, left, right),
    {
        speed_packet(left, right, self.gear, self.reverse_left, self.reverse_right)
    }

    /// Sets the speeds to zero and gives the zero-speed frame sent when the motor stops.
    pub fn zero_speed_packet(&mut self) -> (pkt: Vec<u8>)
        ensures
            *final(self) == (SpeedSender { left: 0, right: 0, ..*old(self) }),
            pkt@ == frame_for(*old(self), 0, 0),
    {
        self.set_speeds(0, 0);
        self.speed_packet_now(0, 0)
    }

    /// How long to wait before the next frame, in milliseconds.
    pub fn sleep_ms(&self) -> (ms: u64)
        ensures
            ms == if self.send_interval_ms < MIN_INTERVAL_MS { MIN_INTERVAL_MS } else { self.send_interval_ms as u64 },
    {
        let interval = self.send_interval_ms as u64;
        if interval < MIN_INTERVAL_MS {
            MIN_INTERVAL_MS
        } else {
            interval
        }
    }

    /// The frame of one period: the current speeds while the motor runs, nothing
    /// otherwise. It goes out even when the speeds did not change, so that the
    /// robot's link timeout does not fire.
    pub fn tick(&self) -> (pkt: Option<Vec<u8>>)
        ensures
            match pkt {
                Some(p) => self.motor_running && p@ == frame_for(*self, self.left, self.right),
                None => !self.motor_running,
            },
    {
        if !self.motor_running {
            None
        } else {
            Some(self.speed_packet_now(self.left, self.right))
        }
    }
}

/// The sender after the controller's effect `e`.
pub open spec fn after_effect(s: SpeedSender, e: EffectModel) -> SpeedSender {
    match e {
        EffectModel::SetMotorRunning(b) => SpeedSender { motor_running: b, ..s },
        EffectModel::SetGear(g) => SpeedSender { gear: g, ..s },
        EffectModel::SetInterval(ms) => SpeedSender { send_interval_ms: ms, ..s },
        EffectModel::SetReverseLeft(b) => SpeedSender { reverse_left: b, ..s },
        EffectModel::SetReverseRight(b) => SpeedSender { reverse_right: b, ..s },
        EffectModel::SetSpeeds { left, right } => SpeedSender { left, right, ..s },
        EffectModel::SendZeroSpeed => SpeedSender { left: 0, right: 0, ..s },
        _ => s,
    }
}

/// The sender after the controller's effects `fx`, taken in order.
pub open spec fn after_effects(s: SpeedSender, fx: Seq<EffectModel>) -> SpeedSender
    decreases fx.len(),
{
    if fx.len() == 0 {
        s
    } else {
        after_effects(after_effect(s, fx[0]), fx.drop_first())
    }
}

/// The sender holds what the controller shows of the drive: the speeds, the gear,
/// whether the motor runs, the reverse flags and the send interval.
pub open spec fn follows(s: SpeedSender, d: Drive) -> bool {
    &&& s.left == d.left_speed
    &&& s.right == d.right_speed
    &&& s.gear == d.gear
    &&& s.motor_running == d.motor_running
    &&& s.reverse_left == d.reverse_left
    &&& s.reverse_right == d.reverse_right
    &&& s.send_interval_ms == d.send_interval_ms
}

impl SpeedSender {
    /// Takes in one of the controller's effects; for `SendZeroSpeed`, gives the
    /// zero-speed frame to send right away.
    pub fn apply(&mut self, e: &Effect) -> (pkt: Option<Vec<u8>>)
        ensures
            *final(self) == after_effect(*old(self), e@),
            match pkt {
                Some(p) => e@ is SendZeroSpeed && p@ == frame_for(*old(self), 0, 0),
                None => !(e@ is SendZeroSpeed),
            },
    {
        match e {
            Effect::SetMotorRunning(b) => {
                self.motor_running = *b;
                None
            },
            Effect::SetGear(g) => {
                self.gear = *g;
                None
            },
            Effect::SetInterval(ms) => {
                self.send_interval_ms = *ms;
                None
            },
            Effect::SetReverseLeft(b) => {
                self.reverse_left = *b;
                None
            },
            Effect::SetReverseRight(b) => {
                self.reverse_right = *b;
                None
            },
            Effect::SetSpeeds { left, right } => {
                self.set_speeds(*left, *right);
                None
            },
            Effect::SendZeroSpeed => Some(self.zero_speed_packet()),
            _ => None,
        }
    }
}

} // verus!
