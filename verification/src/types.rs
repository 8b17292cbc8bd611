//! Command codes, gears and the responses a robot sends back.

use vstd::prelude::*;

verus! {

/// A response decoded from a frame sent by the robot.
///
/// GPS coordinates travel as IEEE-754 `f32` values in little-endian order; the
/// library keeps their raw bit patterns, which `f32::from_bits` turns into numbers.
#[derive(Debug, Clone)]
pub enum RobotResponse {
    Status(bool),
    Speed { gear: u8, left: i8, right: i8 },
    Light(bool),
    Brake(bool),
    Gps { lat_bits: u32, lon_bits: u32 },
    Unknown(Vec<u8>),
}

/// Command codes of the wire protocol.
#[derive(Debug, Clone, Copy, PartialEq, Eq, Structural)]
pub enum Command {
    SetStop,
    SetSpeed,
    SetLight,
    SetBrake,
    /// Payload `0x01` starts the robot's periodic GPS broadcast, `0x00` stops it.
    SetGpsEnable,
    SetStart,
    GetStatus,
    GetSpeed,
    GetLight,
    GetBrake,
    GetGps,
}

impl Command {
    /// The byte that carries this command on the wire.
    pub open spec fn code(self) -> u8 {
        match self {
            Command::SetStop => 0x00,
            Command::SetSpeed => 0x01,
            Command::SetLight => 0x02,
            Command::SetBrake => 0x03,
            Command::SetGpsEnable => 0x04,
            Command::SetStart => 0xFF,
            Command::GetStatus => 0x10,
            Command::GetSpeed => 0x11,
            Command::GetLight => 0x12,
            Command::GetBrake => 0x13,
            Command::GetGps => 0x14,
        }
    }

    /// The byte that carries this command on the wire.
    pub fn as_byte(self) -> (b: u8)
        ensures
            b == self.code(),
    {
        match self {
            Command::SetStop => 0x00,
            Command::SetSpeed => 0x01,
            Command::SetLight => 0x02,
            Command::SetBrake => 0x03,
            Command::SetGpsEnable => 0x04,
            Command::SetStart => 0xFF,
            Command::GetStatus => 0x10,
            Command::GetSpeed => 0x11,
            Command::GetLight => 0x12,
            Command::GetBrake => 0x13,
            Command::GetGps => 0x14,
        }
    }
}

/// Gear selection; the first gear is the default.
#[derive(Debug, Clone, Copy, PartialEq, Eq, Structural)]
pub enum Gear {
    V1,
    V2,
    V3,
}

impl Gear {
    /// The gear number 1, 2 or 3.
    pub open spec fn number(self) -> u8 {
        match self {
            Gear::V1 => 1,
            Gear::V2 => 2,
            Gear::V3 => 3,
        }
    }

    /// The gear number 1, 2 or 3, as sent in a speed frame.
    pub fn as_byte(self) -> (b: u8)
        ensures
            b == self.number(),
    {
        match self {
            Gear::V1 => 1,
            Gear::V2 => 2,
            Gear::V3 => 3,
        }
    }
}

impl Default for Gear {
    fn default() -> (g: Self)
        ensures
            g == Gear::V1,
    {
        Gear::V1
    }
}

} // verus!
