//! Properties that tie several operations of the library together.

use vstd::prelude::*;
use vstd::string::*;
use crate::checksum::spec_fletcher16;
use crate::framing::{
    checksum_matches, drain, frame_len, lemma_scan_shrinks, noise_len, parses_to, scan, RobotEvent,
};
use crate::packet::{
    clamp_gear, direction_byte, frame_body, has_whole_payload, magnitude_byte, reported_speed,
    speed_negation_overflows, speed_payload, spec_frame, switch_payload, wire_speed, START_BYTE,
};
use crate::hotkeys::{key_command, key_direction, key_down_message, key_up_message, Key};
use crate::keyboard::{keyboard_left, keyboard_right, KeyboardState};
use crate::tiles::{distinct, lemma_missing_from_fresh, missing_from, visible, TileCoord, TileRange};
use crate::message::{is_blocked_by_modal, CameraNotice, Dir, Message, Step, Tab};
use crate::state::{keys_up, AppModel, Drive, LinkModel};
use crate::types::{Command, RobotResponse};
use crate::update::{
    bare_frame, camera_start, camera_stop, camera_toggle, close_requested, connect, detection_toggled,
    disconnect, gps_toggled, handle, interval_stepped, joystick_moved, joystick_released, key_change,
    motor_stop, robot_event, select_gear, select_interval, start_motor, step, stop_pressed,
    toggle_brake, toggle_light, toggle_reverse_left, toggle_reverse_right, unchanged, with_link,
    EffectModel,
};
use crate::sender::{after_effect, after_effects, follows, SpeedSender};

verus! {

proof fn lemma_noise_prefix(noise: Seq<u8>, tail: Seq<u8>)
    requires
        forall|i: int| 0 <= i < noise.len() ==> noise[i] != START_BYTE,
        tail.len() > 0,
        tail[0] == START_BYTE,
    ensures
        noise_len(noise + tail) == noise.len(),
    decreases noise.len(),
{
    if noise.len() == 0 {
        assert(noise + tail =~= tail);
    } else {
        assert((noise + tail).drop_first() =~= noise.drop_first() + tail);
        lemma_noise_prefix(noise.drop_first(), tail);
    }
}

/// Every frame survives the byte stream: when bytes without a start byte, then a
/// frame with any payload of at most 255 bytes, then anything at all are in the
/// receive buffer, framing takes out exactly that frame and leaves exactly what
/// followed it.
pub proof fn law_frame_is_recovered(noise: Seq<u8>, cmd: u8, payload: Seq<u8>, rest: Seq<u8>)
    requires
        forall|i: int| 0 <= i < noise.len() ==> noise[i] != START_BYTE,
        payload.len() <= 255,
    ensures
        scan(noise + spec_frame(cmd, payload) + rest) == (rest, Some(spec_frame(cmd, payload))),
{
    let frame = spec_frame(cmd, payload);
    let buf = noise + frame + rest;
    let body = frame_body(cmd, payload);
    assert(noise + frame + rest =~= noise + (frame + rest));
    lemma_noise_prefix(noise, frame + rest);
    let f = buf.skip(noise.len() as int);
    assert(f =~= frame + rest);
    assert(f[2] == payload.len());
    assert(frame.len() == 5 + payload.len());
    assert(frame_len(f) == frame.len());
    assert(f.take(frame_len(f)) =~= frame);
    assert(frame.subrange(1, frame.len() - 2) =~= body);
    assert(frame.subrange(frame.len() - 2, frame.len() as int) =~= spec_fletcher16(body));
    assert(checksum_matches(frame));
    assert(f.skip(frame_len(f)) =~= rest);
}

/// The bytes of the frames `fs`, each given as command byte and payload, sent one
/// after the other.
pub open spec fn frame_stream(fs: Seq<(u8, Seq<u8>)>) -> Seq<u8>
    decreases fs.len(),
{
    if fs.len() == 0 {
        Seq::empty()
    } else {
        spec_frame(fs[0].0, fs[0].1) + frame_stream(fs.drop_first())
    }
}

/// A stream of frames comes back whole: when the receive buffer holds frames with
/// payloads of at most 255 bytes, one after the other, draining it gives back
/// exactly those frames, in order, and leaves the buffer empty.
pub proof fn law_frame_stream_is_recovered(fs: Seq<(u8, Seq<u8>)>)
    requires
        forall|i: int| 0 <= i < fs.len() ==> (#[trigger] fs[i]).1.len() <= 255,
    ensures
        drain(frame_stream(fs)) == (Seq::<u8>::empty(), fs.map_values(|f: (u8, Seq<u8>)| spec_frame(f.0, f.1))),
    decreases fs.len(),
{
    let frames = fs.map_values(|f: (u8, Seq<u8>)| spec_frame(f.0, f.1));
    if fs.len() == 0 {
        assert(noise_len(Seq::<u8>::empty()) == 0);
        assert(frames =~= Seq::<Seq<u8>>::empty());
    } else {
        let rest = fs.drop_first();
        let tail = frame_stream(rest);
        let frame = spec_frame(fs[0].0, fs[0].1);
        assert(fs[0].1.len() <= 255);
        law_frame_is_recovered(Seq::empty(), fs[0].0, fs[0].1, tail);
        assert(Seq::<u8>::empty() + frame + tail =~= frame + tail);
        assert forall|i: int| 0 <= i < rest.len() implies (#[trigger] rest[i]).1.len() <= 255 by {
            assert(rest[i] == fs[i + 1]);
        }
        law_frame_stream_is_recovered(rest);
        lemma_scan_shrinks(frame_stream(fs));
        assert(frames =~= seq![frame] + rest.map_values(|f: (u8, Seq<u8>)| spec_frame(f.0, f.1)));
    }
}

/// A speed report carries the payload of a speed command under the `GetSpeed` code;
/// decoding it gives back what the command meant: the clamped gear and, for each
/// motor, the speed after the reverse flag and clamping, its sign restored from the
/// direction byte.
pub proof fn law_speed_frame_decodes(left: i8, right: i8, gear: u8, rev_left: bool, rev_right: bool)
    ensures
        !speed_negation_overflows(
            spec_frame(Command::GetSpeed.code(), speed_payload(left, right, gear, rev_left, rev_right)),
        ),
        parses_to(
            spec_frame(Command::GetSpeed.code(), speed_payload(left, right, gear, rev_left, rev_right)),
            Some(
                RobotResponse::Speed {
                    gear: clamp_gear(gear),
                    left: wire_speed(left, rev_left),
                    right: wire_speed(right, rev_right),
                },
            ),
        ),
{
    let p = speed_payload(left, right, gear, rev_left, rev_right);
    let frame = spec_frame(Command::GetSpeed.code(), p);
    let l = wire_speed(left, rev_left);
    let r = wire_speed(right, rev_right);
    assert(frame[1] == 0x11);
    assert(frame[2] == 7);
    assert(frame[3] == clamp_gear(gear));
    assert(frame[5] == direction_byte(l) && frame[6] == magnitude_byte(l));
    assert(frame[8] == direction_byte(r) && frame[9] == magnitude_byte(r));
    assert(reported_speed(direction_byte(l), magnitude_byte(l)) == l);
    assert(reported_speed(direction_byte(r), magnitude_byte(r)) == r);
    assert(has_whole_payload(frame));
}


/// An on/off report carries the payload of an on/off command under the report's
/// code; decoding it gives back the switch state, for the motor status, the light
/// and the brake.
pub proof fn law_switch_frames_decode(on: bool)
    ensures
        parses_to(spec_frame(Command::GetStatus.code(), switch_payload(on)), Some(RobotResponse::Status(on))),
        parses_to(spec_frame(Command::GetLight.code(), switch_payload(on)), Some(RobotResponse::Light(on))),
        parses_to(spec_frame(Command::GetBrake.code(), switch_payload(on)), Some(RobotResponse::Brake(on))),
{
    let codes = seq![Command::GetStatus.code(), Command::GetLight.code(), Command::GetBrake.code()];
    assert forall|i: int| 0 <= i < 3 implies {
        let f = #[trigger] spec_frame(codes[i], switch_payload(on));
        &&& has_whole_payload(f)
        &&& f[1] == codes[i]
        &&& f[2] == 1
        &&& f[3] == (if on { 1u8 } else { 0u8 })
    } by {
        let f = spec_frame(codes[i], switch_payload(on));
        assert(f.len() == 6);
    }
    assert(codes[0] == 0x10 && codes[1] == 0x12 && codes[2] == 0x13);
}

} // verus!

verus! {

/// The two reverse flags are never on together: no message switches both on when at
/// most one was on.
pub proof fn law_reverse_flags_exclusive(m: AppModel, msg: Message)
    requires
        !(m.drive.reverse_left && m.drive.reverse_right),
    ensures
        !(step(m, msg).0.drive.reverse_left && step(m, msg).0.drive.reverse_right),
{
}

/// The gear stays within `1 ..= 3` and the send interval within `10 ..= 50`
/// whatever message comes.
#[verifier::spinoff_prover]
pub proof fn law_gear_and_interval_stay_in_range(m: AppModel, msg: Message)
    requires
        1 <= m.drive.gear <= 3,
        10 <= m.drive.send_interval_ms <= 50,
    ensures
        1 <= step(m, msg).0.drive.gear <= 3,
        10 <= step(m, msg).0.drive.send_interval_ms <= 50,
{
    if !(m.modal is Some && is_blocked_by_modal(msg)) {
        match msg {
            Message::SerialModeSelected(..) => {
                assert(1 <= handle(m, msg).0.drive.gear <= 3);
                assert(10 <= handle(m, msg).0.drive.send_interval_ms <= 50);
            },
            Message::PortSelected(..) => {
                assert(1 <= handle(m, msg).0.drive.gear <= 3);
                assert(10 <= handle(m, msg).0.drive.send_interval_ms <= 50);
            },
            Message::PortsRefreshRequested => {
                assert(1 <= handle(m, msg).0.drive.gear <= 3);
                assert(10 <= handle(m, msg).0.drive.send_interval_ms <= 50);
            },
            Message::PortsLoaded(..) => {
                assert(1 <= handle(m, msg).0.drive.gear <= 3);
                assert(10 <= handle(m, msg).0.drive.send_interval_ms <= 50);
            },
            Message::HostChanged(..) => {
                assert(1 <= handle(m, msg).0.drive.gear <= 3);
                assert(10 <= handle(m, msg).0.drive.send_interval_ms <= 50);
            },
            Message::TcpPortChanged(..) => {
                assert(1 <= handle(m, msg).0.drive.gear <= 3);
                assert(10 <= handle(m, msg).0.drive.send_interval_ms <= 50);
            },
            Message::ConnectPressed => {
                assert(1 <= handle(m, msg).0.drive.gear <= 3);
                assert(10 <= handle(m, msg).0.drive.send_interval_ms <= 50);
            },
            Message::DisconnectPressed => {
                assert(1 <= handle(m, msg).0.drive.gear <= 3);
                assert(10 <= handle(m, msg).0.drive.send_interval_ms <= 50);
            },
            Message::StartPressed => {
                assert(1 <= handle(m, msg).0.drive.gear <= 3);
                assert(10 <= handle(m, msg).0.drive.send_interval_ms <= 50);
            },
            Message::StopPressed => {
                assert(1 <= handle(m, msg).0.drive.gear <= 3);
                assert(10 <= handle(m, msg).0.drive.send_interval_ms <= 50);
            },
            Message::GearSelected(..) => {
                assert(1 <= handle(m, msg).0.drive.gear <= 3);
                assert(10 <= handle(m, msg).0.drive.send_interval_ms <= 50);
            },
            Message::IntervalSelected(..) => {
                assert(1 <= handle(m, msg).0.drive.gear <= 3);
                assert(10 <= handle(m, msg).0.drive.send_interval_ms <= 50);
            },
            Message::LightToggled => {
                assert(1 <= handle(m, msg).0.drive.gear <= 3);
                assert(10 <= handle(m, msg).0.drive.send_interval_ms <= 50);
            },
            Message::BrakeToggled => {
                assert(1 <= handle(m, msg).0.drive.gear <= 3);
                assert(10 <= handle(m, msg).0.drive.send_interval_ms <= 50);
            },
            Message::ReverseLeftToggled => {
                assert(1 <= handle(m, msg).0.drive.gear <= 3);
                assert(10 <= handle(m, msg).0.drive.send_interval_ms <= 50);
            },
            Message::ReverseRightToggled => {
                assert(1 <= handle(m, msg).0.drive.gear <= 3);
                assert(10 <= handle(m, msg).0.drive.send_interval_ms <= 50);
            },
            Message::JoystickMoved { .. } => {
                assert(1 <= handle(m, msg).0.drive.gear <= 3);
                assert(10 <= handle(m, msg).0.drive.send_interval_ms <= 50);
            },
            Message::JoystickReleased => {
                assert(1 <= handle(m, msg).0.drive.gear <= 3);
                assert(10 <= handle(m, msg).0.drive.send_interval_ms <= 50);
            },
            Message::DirPressed(..) => {
                assert(1 <= handle(m, msg).0.drive.gear <= 3);
                assert(10 <= handle(m, msg).0.drive.send_interval_ms <= 50);
            },
            Message::DirReleased(..) => {
                assert(1 <= handle(m, msg).0.drive.gear <= 3);
                assert(10 <= handle(m, msg).0.drive.send_interval_ms <= 50);
            },
            Message::EmergencyStop => {
                assert(1 <= handle(m, msg).0.drive.gear <= 3);
                assert(10 <= handle(m, msg).0.drive.send_interval_ms <= 50);
            },
            Message::ConnectionToggleRequested => {
                assert(1 <= handle(m, msg).0.drive.gear <= 3);
                assert(10 <= handle(m, msg).0.drive.send_interval_ms <= 50);
            },
            Message::RefreshRequested => {
                assert(1 <= handle(m, msg).0.drive.gear <= 3);
                assert(10 <= handle(m, msg).0.drive.send_interval_ms <= 50);
            },
            Message::MotorStartRequested => {
                assert(1 <= handle(m, msg).0.drive.gear <= 3);
                assert(10 <= handle(m, msg).0.drive.send_interval_ms <= 50);
            },
            Message::CameraToggleRequested => {
                assert(1 <= handle(m, msg).0.drive.gear <= 3);
                assert(10 <= handle(m, msg).0.drive.send_interval_ms <= 50);
            },
            Message::TransportToggleRequested => {
                assert(1 <= handle(m, msg).0.drive.gear <= 3);
                assert(10 <= handle(m, msg).0.drive.send_interval_ms <= 50);
            },
            Message::IntervalStepped(..) => {
                assert(1 <= handle(m, msg).0.drive.gear <= 3);
                assert(10 <= handle(m, msg).0.drive.send_interval_ms <= 50);
            },
            Message::MapZoomStepped(..) => {
                assert(1 <= handle(m, msg).0.drive.gear <= 3);
                assert(10 <= handle(m, msg).0.drive.send_interval_ms <= 50);
            },
            Message::TabSelected(..) => {
                assert(1 <= handle(m, msg).0.drive.gear <= 3);
                assert(10 <= handle(m, msg).0.drive.send_interval_ms <= 50);
            },
            Message::ThemeToggled => {
                assert(1 <= handle(m, msg).0.drive.gear <= 3);
                assert(10 <= handle(m, msg).0.drive.send_interval_ms <= 50);
            },
            Message::ModalOpened(..) => {
                assert(1 <= handle(m, msg).0.drive.gear <= 3);
                assert(10 <= handle(m, msg).0.drive.send_interval_ms <= 50);
            },
            Message::ModalClosed => {
                assert(1 <= handle(m, msg).0.drive.gear <= 3);
                assert(10 <= handle(m, msg).0.drive.send_interval_ms <= 50);
            },
            Message::CameraSelected(..) => {
                assert(1 <= handle(m, msg).0.drive.gear <= 3);
                assert(10 <= handle(m, msg).0.drive.send_interval_ms <= 50);
            },
            Message::CamerasRefreshRequested => {
                assert(1 <= handle(m, msg).0.drive.gear <= 3);
                assert(10 <= handle(m, msg).0.drive.send_interval_ms <= 50);
            },
            Message::CamerasLoaded(..) => {
                assert(1 <= handle(m, msg).0.drive.gear <= 3);
                assert(10 <= handle(m, msg).0.drive.send_interval_ms <= 50);
            },
            Message::CameraStartPressed => {
                assert(1 <= handle(m, msg).0.drive.gear <= 3);
                assert(10 <= handle(m, msg).0.drive.send_interval_ms <= 50);
            },
            Message::CameraStopPressed => {
                assert(1 <= handle(m, msg).0.drive.gear <= 3);
                assert(10 <= handle(m, msg).0.drive.send_interval_ms <= 50);
            },
            Message::DetectionToggled => {
                assert(1 <= handle(m, msg).0.drive.gear <= 3);
                assert(10 <= handle(m, msg).0.drive.send_interval_ms <= 50);
            },
            Message::Camera(..) => {
                assert(1 <= handle(m, msg).0.drive.gear <= 3);
                assert(10 <= handle(m, msg).0.drive.send_interval_ms <= 50);
            },
            Message::MapPanned => {
                assert(1 <= handle(m, msg).0.drive.gear <= 3);
                assert(10 <= handle(m, msg).0.drive.send_interval_ms <= 50);
            },
            Message::MapZoomedAt(..) => {
                assert(1 <= handle(m, msg).0.drive.gear <= 3);
                assert(10 <= handle(m, msg).0.drive.send_interval_ms <= 50);
            },
            Message::MapZoomSelected(..) => {
                assert(1 <= handle(m, msg).0.drive.gear <= 3);
                assert(10 <= handle(m, msg).0.drive.send_interval_ms <= 50);
            },
            Message::MapResized => {
                assert(1 <= handle(m, msg).0.drive.gear <= 3);
                assert(10 <= handle(m, msg).0.drive.send_interval_ms <= 50);
            },
            Message::TileLoaded(..) => {
                assert(1 <= handle(m, msg).0.drive.gear <= 3);
                assert(10 <= handle(m, msg).0.drive.send_interval_ms <= 50);
            },
            Message::GpsToggled => {
                assert(1 <= handle(m, msg).0.drive.gear <= 3);
                assert(10 <= handle(m, msg).0.drive.send_interval_ms <= 50);
            },
            Message::Robot(..) => {
                assert(1 <= handle(m, msg).0.drive.gear <= 3);
                assert(10 <= handle(m, msg).0.drive.send_interval_ms <= 50);
            },
            Message::CloseRequested => {
                assert(1 <= handle(m, msg).0.drive.gear <= 3);
                assert(10 <= handle(m, msg).0.drive.send_interval_ms <= 50);
            },
        }
    }
}

/// Stopping always gets through, modal window or not: the stop frame goes out, the
/// sender stops after one zero-speed frame, and the motor counts as stopped with no
/// drive input left.
pub proof fn law_stop_always_passes(m: AppModel, emergency: bool)
    ensures
        ({
            let msg = if emergency { Message::EmergencyStop } else { Message::StopPressed };
            let out = step(m, msg);
            &&& !out.0.drive.motor_running
            &&& out.0.drive.keyboard == keys_up()
            &&& !out.0.drive.joystick_dragging
            &&& out.0.drive.left_speed == 0 && out.0.drive.right_speed == 0
            &&& out.1 == seq![
                EffectModel::Send(bare_frame(Command::SetStop)),
                EffectModel::SetMotorRunning(false),
                EffectModel::SendZeroSpeed,
            ]
        }),
{
    let msg = if emergency { Message::EmergencyStop } else { Message::StopPressed };
    assert(!is_blocked_by_modal(msg));
    assert(step(m, msg).1 =~= seq![
        EffectModel::Send(bare_frame(Command::SetStop)),
        EffectModel::SetMotorRunning(false),
        EffectModel::SendZeroSpeed,
    ]);
}

/// While a modal window is open, a message it blocks changes nothing and asks for
/// nothing.
pub proof fn law_modal_swallows_intents(m: AppModel, msg: Message)
    requires
        m.modal is Some,
        is_blocked_by_modal(msg),
    ensures
        step(m, msg) == unchanged(m),
{
}

/// Drive keys are ignored while the motor is stopped.
pub proof fn law_keys_ignored_while_stopped(m: AppModel, dir: Dir, pressed: bool)
    requires
        !m.drive.motor_running,
    ensures
        step(m, if pressed { Message::DirPressed(dir) } else { Message::DirReleased(dir) }) == unchanged(m),
{
}

/// Without a link, the light, brake and GPS switches change nothing and send nothing.
pub proof fn law_switches_need_a_link(m: AppModel)
    requires
        !m.link.connected,
    ensures
        step(m, Message::LightToggled) == unchanged(m),
        step(m, Message::BrakeToggled) == unchanged(m),
        step(m, Message::GpsToggled) == unchanged(m),
{
}

/// A lost link stops the motor (one zero-speed frame, no drive input left), ends the
/// GPS broadcast and leaves the controller disconnected.
pub proof fn law_link_loss_stops_motor(m: AppModel)
    ensures
        ({
            let out = step(m, Message::Robot(RobotEvent::Disconnected));
            &&& !out.0.drive.motor_running
            &&& out.0.drive.keyboard == keys_up()
            &&& out.0.drive.left_speed == 0 && out.0.drive.right_speed == 0
            &&& !out.0.link.connected && !out.0.link.connecting
            &&& !out.0.gps.active
            &&& out.1 == seq![EffectModel::SetMotorRunning(false), EffectModel::SendZeroSpeed]
        }),
{
}

/// A link error followed by the loss of the link shows the loss together with the
/// error's text, keeps that text as the last error, and leaves the controller
/// disconnected with the motor, the GPS broadcast and the speeds stopped.
pub proof fn law_error_then_disconnect(m: AppModel, msg: String)
    ensures
        ({
            let after_error = step(m, Message::Robot(RobotEvent::Error(msg))).0;
            let out = step(after_error, Message::Robot(RobotEvent::Disconnected));
            &&& out.0.link.status_text == "Bağlantı kesildi — "@ + msg@
            &&& out.0.link.last_error == Some(msg@)
            &&& !out.0.link.connected && !out.0.link.connecting
            &&& !out.0.drive.motor_running
            &&& !out.0.gps.active
            &&& out.0.drive.left_speed == 0 && out.0.drive.right_speed == 0
            &&& out.1 == seq![EffectModel::SetMotorRunning(false), EffectModel::SendZeroSpeed]
        }),
{
}

/// A new link also starts with the motor stopped: it may lead to another robot.
pub proof fn law_new_link_starts_stopped(m: AppModel, endpoint: String)
    ensures
        ({
            let out = step(m, Message::Robot(RobotEvent::Connected(endpoint)));
            &&& !out.0.drive.motor_running
            &&& out.0.link.connected && !out.0.link.connecting
            &&& out.1 == seq![EffectModel::SetMotorRunning(false), EffectModel::SendZeroSpeed]
        }),
{
}

/// Closing the window stops the robot before the application exits: the stop frame
/// is the first effect and exiting the last.
pub proof fn law_close_stops_robot_first(m: AppModel)
    ensures
        ({
            let out = step(m, Message::CloseRequested);
            &&& out.1.len() == 5
            &&& out.1[0] == EffectModel::Send(bare_frame(Command::SetStop))
            &&& out.1[4] == EffectModel::Exit
            &&& !out.0.drive.motor_running
        }),
{
}

} // verus!

verus! {

/// A tile is never requested twice: the tiles that `take_missing_tiles` hands out
/// are visible, none was loaded or already requested, and none comes twice.
pub proof fn law_tiles_requested_once(z: u32, r: TileRange, loaded: Set<TileCoord>, pending: Set<TileCoord>)
    ensures
        distinct(missing_from(visible(z, r), loaded, pending)),
        forall|c: TileCoord| #[trigger] missing_from(visible(z, r), loaded, pending).contains(c) ==> {
            &&& !loaded.contains(c)
            &&& !pending.contains(c)
            &&& visible(z, r).contains(c)
        },
{
    let m = missing_from(visible(z, r), loaded, pending);
    lemma_missing_from_fresh(visible(z, r), loaded, pending);
    assert forall|c: TileCoord| m.contains(c) implies !loaded.contains(c) && !pending.contains(c) && visible(z, r).contains(c) by {
        let i = choose|i: int| 0 <= i < m.len() && m[i] == c;
        assert(m[i] == c);
    }
}

/// The drive keys are mirror images: swapping the left and right turn keys swaps the
/// speeds of the two motors.
pub proof fn law_turn_keys_mirror(s: KeyboardState)
    ensures
        keyboard_left(KeyboardState { left: s.right, right: s.left, ..s }) == keyboard_right(s),
        keyboard_right(KeyboardState { left: s.right, right: s.left, ..s }) == keyboard_left(s),
{
}

/// A key's release undoes exactly its press: a key whose press drives in direction
/// `d` releases `d`, and a key whose press does not drive releases nothing.
pub proof fn law_key_release_matches_press(key: Key, d: Dir)
    ensures
        key_down_message(key) == Some(Message::DirPressed(d)) <==> key_up_message(key) == Some(
            Message::DirReleased(d),
        ),
        key_up_message(key) is None <==> !(key_down_message(key) matches Some(Message::DirPressed(_))),
{
    if key_direction(key) is None {
        assert(!(key_command(key) matches Some(Message::DirPressed(_))));
    }
}

} // verus!

verus! {

proof fn lemma_after_concat(s: SpeedSender, a: Seq<EffectModel>, b: Seq<EffectModel>)
    ensures
        after_effects(s, a + b) == after_effects(after_effects(s, a), b),
    decreases a.len(),
{
    if a.len() == 0 {
        assert(a + b =~= b);
    } else {
        assert((a + b).drop_first() =~= a.drop_first() + b);
        assert((a + b)[0] == a[0]);
        lemma_after_concat(after_effect(s, a[0]), a.drop_first(), b);
    }
}

proof fn lemma_after_one(s: SpeedSender, e: EffectModel)
    ensures
        after_effects(s, seq![e]) == after_effect(s, e),
{
    let t = after_effect(s, e);
    assert(seq![e][0] == e);
    assert(seq![e].drop_first() =~= Seq::<EffectModel>::empty());
    assert(after_effects(t, Seq::<EffectModel>::empty()) == t);
}

proof fn lemma_after_two(s: SpeedSender, a: EffectModel, b: EffectModel)
    ensures
        after_effects(s, seq![a, b]) == after_effect(after_effect(s, a), b),
{
    assert(seq![a, b].drop_first() =~= seq![b]);
    lemma_after_one(after_effect(s, a), b);
}

/// Stopping the motor keeps the sender in step.
proof fn lemma_motor_stop_follows(s: SpeedSender, m: AppModel)
    requires
        follows(s, m.drive),
    ensures
        follows(after_effects(s, motor_stop(m).1), motor_stop(m).0.drive),
{
    lemma_after_two(s, EffectModel::SetMotorRunning(false), EffectModel::SendZeroSpeed);
}

/// Effects that leave the sender alone, put before the stop of the motor.
proof fn lemma_inert_then_stop(s: SpeedSender, m: AppModel, e: EffectModel)
    requires
        follows(s, m.drive),
        after_effect(s, e) == s,
    ensures
        follows(after_effects(s, seq![e] + motor_stop(m).1), motor_stop(m).0.drive),
{
    lemma_after_concat(s, seq![e], motor_stop(m).1);
    lemma_after_one(s, e);
    lemma_motor_stop_follows(s, m);
}

proof fn lemma_robot_event_follows(s: SpeedSender, m: AppModel, e: RobotEvent)
    requires
        follows(s, m.drive),
        !(e matches RobotEvent::Packet(RobotResponse::Speed { .. })),
    ensures
        follows(after_effects(s, robot_event(m, e).1), robot_event(m, e).0.drive),
{
    match e {
        RobotEvent::Connected(_) => lemma_motor_stop_follows(s, m),
        RobotEvent::Disconnected => lemma_motor_stop_follows(s, m),
        RobotEvent::Error(_) => {},
        RobotEvent::Packet(r) => match r {
            RobotResponse::Status(b) => lemma_after_one(s, EffectModel::SetMotorRunning(b)),
            RobotResponse::Gps { .. } => lemma_after_one(s, EffectModel::CenterOnRobot),
            _ => {},
        },
    }
}

/// The sender takes in `o`'s effects and stays in step with `o`'s drive state.
spec fn stays_in_step(s: SpeedSender, o: (AppModel, Seq<EffectModel>)) -> bool {
    follows(after_effects(s, o.1), o.0.drive)
}

/// Outcomes with at most one effect, which leaves the sender in step.
proof fn lemma_single(s: SpeedSender, o: (AppModel, Seq<EffectModel>))
    requires
        o.1.len() <= 1,
        o.1.len() == 0 ==> follows(s, o.0.drive),
        o.1.len() == 1 ==> follows(after_effect(s, o.1[0]), o.0.drive),
    ensures
        stays_in_step(s, o),
{
    if o.1.len() == 1 {
        lemma_after_one(s, o.1[0]);
        assert(o.1 =~= seq![o.1[0]]);
    }
}

proof fn lemma_connect_follows(s: SpeedSender, m: AppModel)
    requires
        follows(s, m.drive),
    ensures
        stays_in_step(s, connect(m)),
{
    lemma_single(s, connect(m));
}

proof fn lemma_disconnect_follows(s: SpeedSender, m: AppModel)
    requires
        follows(s, m.drive),
    ensures
        stays_in_step(s, disconnect(m)),
{
    let m2 = with_link(m, LinkModel { connecting: false, last_error: None, ..m.link });
    lemma_inert_then_stop(s, m2, EffectModel::Disconnect);
}

proof fn lemma_stop_pressed_follows(s: SpeedSender, m: AppModel)
    requires
        follows(s, m.drive),
    ensures
        stays_in_step(s, stop_pressed(m)),
{
    lemma_inert_then_stop(s, m, EffectModel::Send(bare_frame(Command::SetStop)));
}

proof fn lemma_start_follows(s: SpeedSender, m: AppModel)
    requires
        follows(s, m.drive),
    ensures
        stays_in_step(s, start_motor(m)),
{
    lemma_after_two(s, EffectModel::Send(bare_frame(Command::SetStart)), EffectModel::SetMotorRunning(true));
}

proof fn lemma_close_follows(s: SpeedSender, m: AppModel)
    requires
        follows(s, m.drive),
    ensures
        stays_in_step(s, close_requested(m)),
{
    let sp = stop_pressed(m);
    lemma_stop_pressed_follows(s, m);
    lemma_after_concat(s, sp.1, seq![EffectModel::ShutdownCamera, EffectModel::Exit]);
    lemma_after_two(after_effects(s, sp.1), EffectModel::ShutdownCamera, EffectModel::Exit);
}

proof fn lemma_reverse_follows(s: SpeedSender, m: AppModel)
    requires
        follows(s, m.drive),
    ensures
        stays_in_step(s, toggle_reverse_left(m)),
        stays_in_step(s, toggle_reverse_right(m)),
{
    lemma_after_one(s, EffectModel::SetReverseLeft(false));
    lemma_after_two(s, EffectModel::SetReverseLeft(true), EffectModel::SetReverseRight(false));
    lemma_after_one(s, EffectModel::SetReverseRight(false));
    lemma_after_two(s, EffectModel::SetReverseRight(true), EffectModel::SetReverseLeft(false));
}

proof fn lemma_camera_follows(s: SpeedSender, m: AppModel)
    requires
        follows(s, m.drive),
    ensures
        stays_in_step(s, camera_start(m)),
        stays_in_step(s, camera_stop(m)),
        stays_in_step(s, camera_toggle(m)),
        stays_in_step(s, detection_toggled(m)),
{
    lemma_single(s, camera_start(m));
    lemma_single(s, detection_toggled(m));
    lemma_after_two(s, EffectModel::StopCamera, EffectModel::SetDetection(false));
}

proof fn lemma_keys_follow(s: SpeedSender, m: AppModel, d: Dir, pressed: bool)
    requires
        follows(s, m.drive),
    ensures
        stays_in_step(s, key_change(m, d, pressed)),
{
    lemma_single(s, key_change(m, d, pressed));
}

proof fn lemma_joystick_follows(s: SpeedSender, m: AppModel, left: i8, right: i8)
    requires
        follows(s, m.drive),
    ensures
        stays_in_step(s, joystick_moved(m, left, right)),
        stays_in_step(s, joystick_released(m)),
{
    lemma_single(s, joystick_moved(m, left, right));
    lemma_single(s, joystick_released(m));
}

proof fn lemma_switches_follow(s: SpeedSender, m: AppModel)
    requires
        follows(s, m.drive),
    ensures
        stays_in_step(s, toggle_light(m)),
        stays_in_step(s, toggle_brake(m)),
        stays_in_step(s, gps_toggled(m)),
{
    lemma_single(s, toggle_light(m));
    lemma_single(s, toggle_brake(m));
    lemma_single(s, gps_toggled(m));
}

proof fn lemma_settings_follow(s: SpeedSender, m: AppModel, g: u8, ms: u8, step: Step)
    requires
        follows(s, m.drive),
    ensures
        stays_in_step(s, select_gear(m, g)),
        stays_in_step(s, select_interval(m, ms)),
        stays_in_step(s, interval_stepped(m, step)),
{
    lemma_single(s, select_gear(m, g));
    lemma_single(s, select_interval(m, ms));
    lemma_single(s, interval_stepped(m, step));
}

proof fn lemma_view_follows(s: SpeedSender, m: AppModel, msg: Message)
    requires
        follows(s, m.drive),
        msg is PortsRefreshRequested || msg is RefreshRequested || msg is CamerasRefreshRequested
            || msg is MapPanned || msg is MapResized || msg is MapZoomedAt || msg is MapZoomSelected
            || msg is MapZoomStepped || msg is TileLoaded || msg is Camera || msg is PortsLoaded
            || msg is CamerasLoaded,
    ensures
        stays_in_step(s, handle(m, msg)),
{
    match msg {
        Message::RefreshRequested => lemma_after_two(s, EffectModel::ListPorts, EffectModel::ListCameras),
        _ => lemma_single(s, handle(m, msg)),
    }
}

#[verifier::spinoff_prover]
proof fn lemma_handle_follows(s: SpeedSender, m: AppModel, msg: Message)
    requires
        follows(s, m.drive),
        !(msg matches Message::Robot(RobotEvent::Packet(RobotResponse::Speed { .. }))),
    ensures
        stays_in_step(s, handle(m, msg)),
{
    match msg {
        Message::ConnectPressed => lemma_connect_follows(s, m),
        Message::DisconnectPressed => lemma_disconnect_follows(s, m),
        Message::StartPressed => lemma_start_follows(s, m),
        Message::StopPressed | Message::EmergencyStop => lemma_stop_pressed_follows(s, m),
        Message::GearSelected(g) => lemma_settings_follow(s, m, g, 0, Step::Up),
        Message::IntervalSelected(ms) => lemma_settings_follow(s, m, 1, ms, Step::Up),
        Message::IntervalStepped(st) => lemma_settings_follow(s, m, 1, 0, st),
        Message::LightToggled | Message::BrakeToggled | Message::GpsToggled => lemma_switches_follow(s, m),
        Message::ReverseLeftToggled | Message::ReverseRightToggled => lemma_reverse_follows(s, m),
        Message::JoystickMoved { left, right } => lemma_joystick_follows(s, m, left, right),
        Message::JoystickReleased => lemma_joystick_follows(s, m, 0, 0),
        Message::DirPressed(d) => lemma_keys_follow(s, m, d, true),
        Message::DirReleased(d) => lemma_keys_follow(s, m, d, false),
        Message::ConnectionToggleRequested => {
            lemma_connect_follows(s, m);
            lemma_disconnect_follows(s, m);
        },
        Message::MotorStartRequested => lemma_start_follows(s, m),
        Message::CameraToggleRequested | Message::CameraStartPressed | Message::CameraStopPressed
        | Message::DetectionToggled => lemma_camera_follows(s, m),
        Message::Robot(e) => lemma_robot_event_follows(s, m, e),
        Message::CloseRequested => lemma_close_follows(s, m),
        Message::PortsRefreshRequested | Message::RefreshRequested | Message::CamerasRefreshRequested
        | Message::MapPanned | Message::MapResized | Message::MapZoomedAt(_) | Message::MapZoomSelected(_)
        | Message::MapZoomStepped(_) | Message::TileLoaded(_) | Message::Camera(_) | Message::PortsLoaded(_)
        | Message::CamerasLoaded(_) => lemma_view_follows(s, m, msg),
        _ => {},
    }
}

/// The periodic sender sends what the controller shows: when the sender takes in the
/// effects of each message, in order, its speeds, gear, motor state, reverse flags
/// and send interval stay those of the controller's drive state. The one exception is
/// the robot's own speed report, which the controller shows and the sender ignores.
pub proof fn law_sender_follows_controller(s: SpeedSender, m: AppModel, msg: Message)
    requires
        follows(s, m.drive),
        !(msg matches Message::Robot(RobotEvent::Packet(RobotResponse::Speed { .. }))),
    ensures
        follows(after_effects(s, step(m, msg).1), step(m, msg).0.drive),
{
    if !(m.modal is Some && is_blocked_by_modal(msg)) {
        lemma_handle_follows(s, m, msg);
    }
}

} // verus!

verus! {

/// Stepping the send interval moves to the neighbouring entry of the list
/// 10, 20, 30, 40, 50 ms, without wrapping at either end: from 30 ms down gives
/// 20 ms, from 10 ms up gives 20 ms. The sender is told the new interval.
pub proof fn law_interval_steps_to_neighbour(m: AppModel, i: int)
    requires
        m.modal is None,
        !m.drive.motor_running,
        0 <= i < 5,
        m.drive.send_interval_ms == seq![10u8, 20u8, 30u8, 40u8, 50u8][i],
    ensures
        ({
            let list = seq![10u8, 20u8, 30u8, 40u8, 50u8];
            let up = step(m, Message::IntervalStepped(Step::Up));
            let down = step(m, Message::IntervalStepped(Step::Down));
            &&& i < 4 ==> up.0.drive.send_interval_ms == list[i + 1] && up.1 == seq![
                EffectModel::SetInterval(list[i + 1]),
            ] && up.0 == (AppModel { drive: Drive { send_interval_ms: list[i + 1], ..m.drive }, ..m })
            &&& i == 4 ==> up.0 == m && up.1 == Seq::<EffectModel>::empty()
            &&& i > 0 ==> down.0.drive.send_interval_ms == list[i - 1] && down.1 == seq![
                EffectModel::SetInterval(list[i - 1]),
            ] && down.0 == (AppModel { drive: Drive { send_interval_ms: list[i - 1], ..m.drive }, ..m })
            &&& i == 0 ==> down.0 == m && down.1 == Seq::<EffectModel>::empty()
        }),
{
    let list = seq![10u8, 20u8, 30u8, 40u8, 50u8];
    assert(list[0] == 10 && list[1] == 20 && list[2] == 30 && list[3] == 40 && list[4] == 50);
}

/// The digit keys 1, 2 and 3 select the gear of the same number.
pub proof fn law_digit_keys_select_gear(c: String)
    requires
        c@.len() == 1,
        '1' <= c@[0] <= '3',
    ensures
        key_down_message(Key::Character(c)) == Some(Message::GearSelected((c@[0] as u32 - '0' as u32) as u8)),
{
    reveal_strlit("1");
    reveal_strlit("2");
    reveal_strlit("3");
    reveal_strlit("w");
    reveal_strlit("W");
    reveal_strlit("s");
    reveal_strlit("S");
    reveal_strlit("a");
    reveal_strlit("A");
    reveal_strlit("d");
    reveal_strlit("D");
    if c@[0] == '1' {
        assert(c@ =~= "1"@);
    } else if c@[0] == '2' {
        assert(c@ =~= "2"@);
    } else {
        assert(c@ =~= "3"@);
    }
}

/// On the map tab, zooming out lowers the zoom level by one and zooming in raises it
/// by one, within the levels 1 to 19; the map is asked to zoom to the new level. A
/// step in and a step back out return to the starting level.
pub proof fn law_map_zoom_steps(m: AppModel)
    requires
        m.modal is None,
        m.tab == Tab::MapView,
        1 <= m.map_zoom <= 19,
    ensures
        ({
            let down = step(m, Message::MapZoomStepped(Step::Down));
            let up = step(m, Message::MapZoomStepped(Step::Up));
            &&& m.map_zoom > 1 ==> down.0 == (AppModel { map_zoom: (m.map_zoom - 1) as u32, ..m })
                && down.1 == seq![EffectModel::ZoomMap((m.map_zoom - 1) as u32)]
            &&& m.map_zoom < 19 ==> up.0 == (AppModel { map_zoom: (m.map_zoom + 1) as u32, ..m })
                && up.1 == seq![EffectModel::ZoomMap((m.map_zoom + 1) as u32)]
            &&& down.0.map_zoom <= m.map_zoom <= up.0.map_zoom
            &&& m.map_zoom < 19 ==> step(up.0, Message::MapZoomStepped(Step::Down)).0 == m
        }),
{
}

/// Switching the GPS broadcast on forgets the earlier fixes: the fix count and both
/// coordinates start again from zero, so the next fix is the first one and centres
/// the map on the robot.
pub proof fn law_gps_on_starts_a_new_track(m: AppModel, lat_bits: u32, lon_bits: u32)
    requires
        m.modal is None,
        m.link.connected,
        !m.gps.active,
    ensures
        ({
            let on = step(m, Message::GpsToggled).0;
            let fix = step(on, Message::Robot(RobotEvent::Packet(RobotResponse::Gps { lat_bits, lon_bits })));
            &&& on.gps.active
            &&& on.gps.point_count == 0
            &&& on.gps.lat_bits == 0 && on.gps.lon_bits == 0
            &&& fix.0.gps.point_count == 1
            &&& fix.0.gps.lat_bits == lat_bits && fix.0.gps.lon_bits == lon_bits
            &&& fix.1 == seq![EffectModel::CenterOnRobot]
        }),
{
}

/// When the camera worker reports that the camera stopped or failed, the camera no
/// longer counts as running or starting and shows no picture; the next camera toggle
/// starts the chosen camera again.
pub proof fn law_camera_stop_notice(m: AppModel, failed: bool, msg: String)
    ensures
        ({
            let notice = if failed { CameraNotice::Error(msg) } else { CameraNotice::Stopped };
            let out = step(m, Message::Camera(notice));
            let again = step(out.0, Message::CameraToggleRequested);
            &&& !out.0.camera.running
            &&& !out.0.camera.starting
            &&& !out.0.camera.has_frame
            &&& out.0.camera.fps == 0
            &&& out.1 == Seq::<EffectModel>::empty()
            &&& (m.modal is None && m.camera.selected is Some) ==> again.1 == seq![
                EffectModel::StartCamera(m.camera.selected.unwrap().0),
            ] && again.0.camera.starting
        }),
{
}

} // verus!
