//! Building command frames and decoding response frames.
//!
//! Every frame is `[0xAA][CMD][LEN][DATA; LEN][CK2][CK1]`, where the checksum is
//! Fletcher-16 over everything after the start byte.

use vstd::prelude::*;
use crate::checksum::{fletcher16, spec_fletcher16};
use crate::types::{Command, RobotResponse};

verus! {

/// Fixed first byte of every frame.
pub const START_BYTE: u8 = 0xAA;

/// Marker byte before the left motor's fields in a speed frame (`'L'`).
pub const LEFT_MARK: u8 = 0x4C;

/// Marker byte before the right motor's fields in a speed frame (`'R'`).
pub const RIGHT_MARK: u8 = 0x52;

/// Direction byte for forward motion (`'F'`).
pub const DIR_FORWARD: u8 = 0x46;

/// Direction byte for backward motion (`'B'`).
pub const DIR_BACKWARD: u8 = 0x42;

/// The bytes covered by the checksum: command, length and payload.
pub open spec fn frame_body(cmd: u8, payload: Seq<u8>) -> Seq<u8> {
    seq![cmd, payload.len() as u8] + payload
}

/// The complete frame carrying `payload` under command byte `cmd`.
pub open spec fn spec_frame(cmd: u8, payload: Seq<u8>) -> Seq<u8> {
    seq![START_BYTE] + frame_body(cmd, payload) + spec_fletcher16(frame_body(cmd, payload))
}

/// Encodes one frame.
fn encode_frame(cmd: u8, payload: &[u8]) -> (pkt: Vec<u8>)
    requires
        payload@.len() <= 255,
    ensures
        pkt@ == spec_frame(cmd, payload@),
{
    let mut body: Vec<u8> = Vec::new();
    body.push(cmd);
    body.push(payload.len() as u8);
    body.extend_from_slice(payload);
    let ghost b = body@;
    assert(b =~= frame_body(cmd, payload@));
    let ck = fletcher16(body.as_slice());
    let mut pkt: Vec<u8> = Vec::new();
    pkt.push(START_BYTE);
    pkt.append(&mut body);
    pkt.push(ck[0]);
    pkt.push(ck[1]);
    proof {
        assert(ck@[0] == ck[0] && ck@[1] == ck[1]);
        assert(pkt@ =~= spec_frame(cmd, payload@));
    }
    pkt
}

/// A frame with an empty payload: `[0xAA][CMD][0x00][CK2][CK1]`.
pub fn simple_packet(cmd: Command) -> (pkt: Vec<u8>)
    ensures
        pkt@ == spec_frame(cmd.code(), Seq::<u8>::empty()),
{
    let payload: [u8; 0] = [];
    encode_frame(cmd.as_byte(), &payload)
}

/// `v` negated without overflow: `-128` becomes `127`.
pub open spec fn saturating_negation(v: i8) -> i8 {
    if v == -128 {
        127
    } else {
        (-v) as i8
    }
}

/// `v` kept within `-100 ..= 100`.
pub open spec fn clamp_speed(v: i8) -> i8 {
    if v < -100 {
        -100i8
    } else if v > 100 {
        100i8
    } else {
        v
    }
}

/// The speed that goes on the wire for one motor: negated first when the motor is
/// mounted reversed, then clamped to `-100 ..= 100`.
pub open spec fn wire_speed(v: i8, reversed: bool) -> i8 {
    clamp_speed(if reversed { saturating_negation(v) } else { v })
}

/// The gear byte clamped to `1 ..= 3`.
pub open spec fn clamp_gear(gear: u8) -> u8 {
    if gear < 1 {
        1
    } else if gear > 3 {
        3
    } else {
        gear
    }
}

/// `'F'` for a non-negative speed, `'B'` for a negative one.
pub open spec fn direction_byte(v: i8) -> u8 {
    if v >= 0 {
        DIR_FORWARD
    } else {
        DIR_BACKWARD
    }
}

/// The magnitude of `v` as an unsigned byte.
pub open spec fn magnitude_byte(v: i8) -> u8 {
    if v >= 0 {
        v as u8
    } else {
        (-(v as int)) as u8
    }
}

/// The payload of a speed frame:
/// `[gear]['L'][left dir][left abs]['R'][right dir][right abs]`.
pub open spec fn speed_payload(left: i8, right: i8, gear: u8, rev_left: bool, rev_right: bool) -> Seq<u8> {
    let l = wire_speed(left, rev_left);
    let r = wire_speed(right, rev_right);
    seq![
        clamp_gear(gear),
        LEFT_MARK,
        direction_byte(l),
        magnitude_byte(l),
        RIGHT_MARK,
        direction_byte(r),
        magnitude_byte(r),
    ]
}

fn negate_saturating(v: i8) -> (r: i8)
    ensures
        r == saturating_negation(v),
{
    if v == -128 {
        127
    } else {
        -v
    }
}

fn clamp_to_speed_range(v: i8) -> (r: i8)
    ensures
        r == clamp_speed(v),
{
    if v < -100 {
        -100
    } else if v > 100 {
        100
    } else {
        v
    }
}

fn direction_of(v: i8) -> (b: u8)
    ensures
        b == direction_byte(v),
{
    if v >= 0 {
        DIR_FORWARD
    } else {
        DIR_BACKWARD
    }
}

fn magnitude_of(v: i8) -> (b: u8)
    requires
        -100 <= v <= 100,
    ensures
        b == magnitude_byte(v),
        b <= 100,
{
    if v >= 0 {
        v as u8
    } else {
        (-v) as u8
    }
}

/// Speed frame for the left and right motors (`-100 ..= 100` each).
///
/// A reversed motor has its speed negated before the direction byte and the
/// magnitude are taken; speeds are clamped to `-100 ..= 100` and the gear to `1 ..= 3`.
pub fn speed_packet(left: i8, right: i8, gear: u8, rev_left: bool, rev_right: bool) -> (pkt: Vec<u8>)
    ensures
        pkt@ == spec_frame(
            Command::SetSpeed.code(),
            speed_payload(left, right, gear, rev_left, rev_right),
        ),
{
    let l = clamp_to_speed_range(if rev_left { negate_saturating(left) } else { left });
    let r = clamp_to_speed_range(if rev_right { negate_saturating(right) } else { right });
    let g = if gear < 1 {
        1
    } else if gear > 3 {
        3
    } else {
        gear
    };
    let payload: [u8; 7] = [
        g,
        LEFT_MARK,
        direction_of(l),
        magnitude_of(l),
        RIGHT_MARK,
        direction_of(r),
        magnitude_of(r),
    ];
    proof {
        assert(payload@ =~= speed_payload(left, right, gear, rev_left, rev_right));
    }
    encode_frame(Command::SetSpeed.as_byte(), &payload)
}

/// The one-byte payload of an on/off command: `0x01` for on, `0x00` for off.
pub open spec fn switch_payload(on: bool) -> Seq<u8> {
    seq![if on { 1u8 } else { 0u8 }]
}

fn switch_frame(cmd: Command, on: bool) -> (pkt: Vec<u8>)
    ensures
        pkt@ == spec_frame(cmd.code(), switch_payload(on)),
{
    let payload: [u8; 1] = [if on { 0x01 } else { 0x00 }];
    proof {
        assert(payload@ =~= switch_payload(on));
    }
    encode_frame(cmd.as_byte(), &payload)
}

/// Light command: `[0xAA][0x02][0x01][on][CK2][CK1]`.
pub fn light_packet(on: bool) -> (pkt: Vec<u8>)
    ensures
        pkt@ == spec_frame(Command::SetLight.code(), switch_payload(on)),
{
    switch_frame(Command::SetLight, on)
}

/// Brake command: `[0xAA][0x03][0x01][on][CK2][CK1]`.
pub fn brake_packet(on: bool) -> (pkt: Vec<u8>)
    ensures
        pkt@ == spec_frame(Command::SetBrake.code(), switch_payload(on)),
{
    switch_frame(Command::SetBrake, on)
}

/// GPS broadcast command: `[0xAA][0x04][0x01][on][CK2][CK1]`; on asks the robot to
/// send its position periodically, off stops that.
pub fn gps_enable_packet(on: bool) -> (pkt: Vec<u8>)
    ensures
        pkt@ == spec_frame(Command::SetGpsEnable.code(), switch_payload(on)),
{
    switch_frame(Command::SetGpsEnable, on)
}

} // verus!

verus! {

/// `b` read as a two's-complement signed byte.
pub open spec fn signed_byte(b: u8) -> int {
    if b < 128 {
        b as int
    } else {
        b - 256
    }
}

/// A reported motor speed: the magnitude byte read as a signed byte, negated unless
/// the direction byte is `'F'`.
pub open spec fn reported_speed(dir: u8, magnitude: u8) -> int {
    if dir == DIR_FORWARD {
        signed_byte(magnitude)
    } else {
        -signed_byte(magnitude)
    }
}

/// Little-endian `u32` from four bytes.
pub open spec fn le_u32(b0: u8, b1: u8, b2: u8, b3: u8) -> int {
    b0 + 256 * b1 + 65536 * b2 + 16777216 * b3
}

/// `data` starts with the start byte, has a header and holds the whole payload that
/// its length byte announces.
pub open spec fn has_whole_payload(data: Seq<u8>) -> bool {
    &&& data.len() >= 3
    &&& data[0] == START_BYTE
    &&& data.len() >= 3 + data[2]
}

/// Command bytes of the responses that `parse_response` knows.
pub open spec fn is_known_response(cmd: u8) -> bool {
    0x10 <= cmd <= 0x14
}

/// A speed response whose negated magnitude does not fit in an `i8`: a backward
/// direction with magnitude byte `0x80`.
pub open spec fn speed_negation_overflows(data: Seq<u8>) -> bool {
    &&& has_whole_payload(data)
    &&& data[1] == 0x11
    &&& data[2] >= 7
    &&& ((data[5] != DIR_FORWARD && data[6] == 0x80) || (data[8] != DIR_FORWARD && data[9] == 0x80))
}

/// What `parse_response` gives for a frame whose command it knows.
pub open spec fn known_response(data: Seq<u8>) -> Option<RobotResponse> {
    let cmd = data[1];
    let len = data[2];
    if cmd == 0x10 {
        if len == 0 { None } else { Some(RobotResponse::Status(data[3] == 0x01)) }
    } else if cmd == 0x11 {
        if len < 7 {
            None
        } else {
            Some(
                RobotResponse::Speed {
                    gear: data[3],
                    left: reported_speed(data[5], data[6]) as i8,
                    right: reported_speed(data[8], data[9]) as i8,
                },
            )
        }
    } else if cmd == 0x12 {
        if len == 0 { None } else { Some(RobotResponse::Light(data[3] == 0x01)) }
    } else if cmd == 0x13 {
        if len == 0 { None } else { Some(RobotResponse::Brake(data[3] == 0x01)) }
    } else {
        if len < 8 {
            None
        } else {
            Some(
                RobotResponse::Gps {
                    lat_bits: le_u32(data[3], data[4], data[5], data[6]) as u32,
                    lon_bits: le_u32(data[7], data[8], data[9], data[10]) as u32,
                },
            )
        }
    }
}

fn reported_speed_of(dir: u8, magnitude: u8) -> (v: i8)
    requires
        !(dir != DIR_FORWARD && magnitude == 0x80),
    ensures
        v == reported_speed(dir, magnitude),
{
    let m: i8 = if magnitude < 128 {
        magnitude as i8
    } else {
        (magnitude as i16 - 256) as i8
    };
    if dir == DIR_FORWARD {
        m
    } else {
        -m
    }
}

fn le_u32_of(b0: u8, b1: u8, b2: u8, b3: u8) -> (v: u32)
    ensures
        v == le_u32(b0, b1, b2, b3),
{
    b0 as u32 + 256 * (b1 as u32) + 65536 * (b2 as u32) + 16777216 * (b3 as u32)
}

/// Decodes a raw frame from the robot.
///
/// `None` when the frame is shorter than its header, does not start with `0xAA`,
/// misses part of the payload its length byte announces, or carries too short a
/// payload for its command. Command bytes it does not know come back whole as
/// `Unknown`. The checksum is not looked at here (framing checks it).
pub fn parse_response(data: &[u8]) -> (res: Option<RobotResponse>)
    requires
        !speed_negation_overflows(data@),
    ensures
        !has_whole_payload(data@) ==> res is None,
        has_whole_payload(data@) && is_known_response(data@[1]) ==> res == known_response(data@),
        has_whole_payload(data@) && !is_known_response(data@[1]) ==> (res matches Some(
            RobotResponse::Unknown(v),
        ) && v@ == data@),
{
    if data.len() < 3 || data[0] != START_BYTE {
        return None;
    }
    let cmd = data[1];
    let len = data[2] as usize;
    if data.len() < 3 + len {
        return None;
    }
    if cmd == 0x10 {
        if len == 0 {
            return None;
        }
        Some(RobotResponse::Status(data[3] == 0x01))
    } else if cmd == 0x11 {
        if len < 7 {
            return None;
        }
        let gear = data[3];
        let left = reported_speed_of(data[5], data[6]);
        let right = reported_speed_of(data[8], data[9]);
        Some(RobotResponse::Speed { gear, left, right })
    } else if cmd == 0x12 {
        if len == 0 {
            return None;
        }
        Some(RobotResponse::Light(data[3] == 0x01))
    } else if cmd == 0x13 {
        if len == 0 {
            return None;
        }
        Some(RobotResponse::Brake(data[3] == 0x01))
    } else if cmd == 0x14 {
        if len < 8 {
            return None;
        }
        let lat_bits = le_u32_of(data[3], data[4], data[5], data[6]);
        let lon_bits = le_u32_of(data[7], data[8], data[9], data[10]);
        Some(RobotResponse::Gps { lat_bits, lon_bits })
    } else {
        Some(RobotResponse::Unknown(vstd::slice::slice_to_vec(data)))
    }
}

} // verus!
