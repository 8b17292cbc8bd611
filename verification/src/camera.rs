//! Decisions of the camera pipeline: which frames to decode, the frame rate shown,
//! and how camera events reach the controller.

use vstd::prelude::*;
use vstd::string::*;
use crate::input::{decimal, parse_usize, push_decimal, unsigned_text_value};
use crate::message::CameraNotice;

verus! {

/// What the camera thread reports.
#[derive(Debug, Clone)]
pub enum CameraEvent {
    /// The camera opened.
    Started,
    /// The camera could not be opened.
    Error(String),
    /// The camera stopped, on request or after an error.
    Stopped,
}

/// The controller's notice for a camera event.
pub fn notice_of(event: CameraEvent) -> (n: CameraNotice)
    ensures
        match event {
            CameraEvent::Started => n is Started,
            CameraEvent::Error(msg) => n matches CameraNotice::Error(m) && m@ == msg@,
            CameraEvent::Stopped => n is Stopped,
        },
{
    match event {
        CameraEvent::Started => CameraNotice::Started,
        CameraEvent::Error(message) => CameraNotice::Error(message),
        CameraEvent::Stopped => CameraNotice::Stopped,
    }
}

/// Frame skipping of the camera thread: when the display could not take the last
/// frame, the next frame is not decoded at all, which gives the display time to
/// catch up.
#[derive(Debug, Clone, Copy, PartialEq, Eq, Structural)]
pub struct FrameGate {
    pub channel_full: bool,
}

impl FrameGate {
    pub fn new() -> (g: Self)
        ensures
            !g.channel_full,
    {
        FrameGate { channel_full: false }
    }

    /// Whether to decode the frame that just arrived; a skipped frame clears the
    /// mark, so the next one is decoded.
    pub fn should_decode(&mut self) -> (decode: bool)
        ensures
            decode == !old(self).channel_full,
            !final(self).channel_full,
    {
        if self.channel_full {
            self.channel_full = false;
            false
        } else {
            true
        }
    }

    /// Records whether the decoded frame was handed to the display.
    pub fn delivered(&mut self, handed_over: bool)
        ensures
            final(self).channel_full == (old(self).channel_full || !handed_over),
    {
        if !handed_over {
            self.channel_full = true;
        }
    }
}

/// Frames counted for the frame rate shown.
#[derive(Debug, Clone, Copy, PartialEq, Eq, Structural)]
pub struct FpsCounter {
    pub frames: u32,
}

impl FpsCounter {
    pub fn new() -> (c: Self)
        ensures
            c.frames == 0,
    {
        FpsCounter { frames: 0 }
    }

    /// Counts one frame; once a second has passed since the count began, gives the
    /// count as the frame rate and starts counting again.
    pub fn on_frame(&mut self, second_passed: bool) -> (fps: Option<u32>)
        requires
            old(self).frames < u32::MAX,
        ensures
            second_passed ==> fps == Some((old(self).frames + 1) as u32) && final(self).frames == 0,
            !second_passed ==> fps is None && final(self).frames == old(self).frames + 1,
    {
        self.frames = self.frames + 1;
        if second_passed {
            let fps = self.frames;
            self.frames = 0;
            Some(fps)
        } else {
            None
        }
    }
}

/// While detection is off, the worker drops its boxes; the count shown goes back to
/// zero only when there were boxes to drop.
pub fn detection_idle_notice(had_boxes: bool) -> (n: Option<CameraNotice>)
    ensures
        had_boxes ==> (n matches Some(CameraNotice::DetectionCount(c)) && c == 0),
        !had_boxes ==> n is None,
{
    if had_boxes {
        Some(CameraNotice::DetectionCount(0))
    } else {
        None
    }
}

/// Something that happened to the camera worker.
#[derive(Debug, Clone)]
pub enum CameraInput {
    /// The camera device could not be opened.
    OpenFailed(String),
    /// The camera device opened; `stop` tells whether a stop was requested meanwhile.
    Opened { stop: bool },
    /// The frame stream could not be started.
    StreamFailed(String),
    /// The frame stream started.
    StreamStarted,
    /// A stop was requested before waiting for the next frame.
    StopRequested,
    /// A frame arrived; `stop` tells whether a stop was requested while waiting.
    FrameArrived { stop: bool },
    /// Reading a frame failed.
    FrameFailed,
}

/// What the camera worker does next.
#[derive(Debug, Clone, Copy, PartialEq, Eq, Structural)]
pub enum CameraAction {
    /// Go on: open the stream, or wait for the next frame.
    Continue,
    /// Decode the frame that arrived and hand it to the display.
    Decode,
    /// Drop the frame that arrived without decoding it.
    Skip,
    /// End the worker, stopping the stream when it was started.
    Finish,
}

/// Where a camera worker stands.
#[derive(Debug, Clone, Copy, PartialEq, Eq, Structural)]
pub enum CameraPhase {
    /// Opening the camera device.
    Opening,
    /// The device is open; the frame stream is being started.
    Opened,
    /// Frames are arriving.
    Streaming,
    /// The worker has ended.
    Done,
}

/// The kind of a camera event, without its text.
pub enum CameraReport {
    Started,
    Error,
    Stopped,
}

/// The kind of `e`.
pub open spec fn report_of(e: CameraEvent) -> CameraReport {
    match e {
        CameraEvent::Started => CameraReport::Started,
        CameraEvent::Error(_) => CameraReport::Error,
        CameraEvent::Stopped => CameraReport::Stopped,
    }
}

/// What the user reads when camera `index` cannot be opened.
pub open spec fn open_error_text(index: usize, err: Seq<char>) -> Seq<char> {
    "Kamera açılamadı (index "@ + decimal(index as nat) + "): "@ + err
}

/// What the user reads when the camera's frame stream cannot be started.
pub open spec fn stream_error_text(err: Seq<char>) -> Seq<char> {
    "Kamera stream açılamadı: "@ + err
}

/// One step of a camera worker in phase `phase`, whose frame gate is marked full
/// when `full`: the next phase and gate mark, the event reported, if any, and what
/// the worker does next. An input that cannot happen in the phase changes nothing.
pub open spec fn camera_step(phase: CameraPhase, full: bool, input: CameraInput) -> (
    CameraPhase,
    bool,
    Option<CameraReport>,
    CameraAction,
) {
    let ignored = (phase, full, None::<CameraReport>, CameraAction::Continue);
    match phase {
        CameraPhase::Opening => match input {
            CameraInput::OpenFailed(_) => (CameraPhase::Done, full, Some(CameraReport::Error), CameraAction::Finish),
            CameraInput::Opened { stop } => if stop {
                (CameraPhase::Done, full, Some(CameraReport::Stopped), CameraAction::Finish)
            } else {
                (CameraPhase::Opened, full, None, CameraAction::Continue)
            },
            _ => ignored,
        },
        CameraPhase::Opened => match input {
            CameraInput::StreamFailed(_) => (CameraPhase::Done, full, Some(CameraReport::Error), CameraAction::Finish),
            CameraInput::StreamStarted => (CameraPhase::Streaming, full, Some(CameraReport::Started), CameraAction::Continue),
            _ => ignored,
        },
        CameraPhase::Streaming => match input {
            CameraInput::FrameArrived { stop } => if stop {
                (CameraPhase::Done, full, Some(CameraReport::Stopped), CameraAction::Finish)
            } else if full {
                (CameraPhase::Streaming, false, None, CameraAction::Skip)
            } else {
                (CameraPhase::Streaming, false, None, CameraAction::Decode)
            },
            CameraInput::StopRequested | CameraInput::FrameFailed => (
                CameraPhase::Done,
                full,
                Some(CameraReport::Stopped),
                CameraAction::Finish,
            ),
            _ => ignored,
        },
        CameraPhase::Done => (CameraPhase::Done, full, None, CameraAction::Finish),
    }
}

/// A camera worker run fed `inputs` from phase `phase` with gate mark `full`: the
/// phase and gate mark it ends in, and the kinds of the events it reported, in order.
pub open spec fn camera_run(phase: CameraPhase, full: bool, inputs: Seq<CameraInput>) -> (
    CameraPhase,
    bool,
    Seq<CameraReport>,
)
    decreases inputs.len(),
{
    if inputs.len() == 0 {
        (phase, full, Seq::empty())
    } else {
        let prev = camera_run(phase, full, inputs.drop_last());
        let s = camera_step(prev.0, prev.1, inputs.last());
        (
            s.0,
            s.1,
            match s.2 {
                Some(r) => prev.2.push(r),
                None => prev.2,
            },
        )
    }
}

/// The decisions of the thread that runs camera `index`: opening the device,
/// starting the stream, and which frames to decode.
pub struct CameraWorker {
    pub index: usize,
    pub phase: CameraPhase,
    pub gate: FrameGate,
}

impl CameraWorker {
    /// A worker about to open camera `index`.
    pub fn new(index: usize) -> (w: Self)
        ensures
            w.index == index,
            w.phase == CameraPhase::Opening,
            !w.gate.channel_full,
    {
        CameraWorker { index, phase: CameraPhase::Opening, gate: FrameGate::new() }
    }

    /// Takes in `input` (see `camera_step`): gives the event to report, if any, and
    /// what to do next. A failure to open the device or the stream reports the error
    /// and ends the worker; a stop, or a failed read, reports `Stopped` and ends it;
    /// a frame is decoded unless the display could not take the previous one.
    pub fn step(&mut self, input: CameraInput) -> (out: (Option<CameraEvent>, CameraAction))
        ensures
            ({
                let s = camera_step(old(self).phase, old(self).gate.channel_full, input);
                &&& final(self).index == old(self).index
                &&& final(self).phase == s.0
                &&& final(self).gate.channel_full == s.1
                &&& out.1 == s.3
                &&& match out.0 {
                    None => s.2 is None,
                    Some(e) => s.2 == Some(report_of(e)),
                }
            }),
            out.0 matches Some(CameraEvent::Error(m)) ==> match input {
                CameraInput::OpenFailed(e) => m@ == open_error_text(old(self).index, e@),
                CameraInput::StreamFailed(e) => m@ == stream_error_text(e@),
                _ => false,
            },
    {
        match self.phase {
            CameraPhase::Opening => match input {
                CameraInput::OpenFailed(e) => {
                    let mut text = String::from_str("Kamera açılamadı (index ");
                    push_decimal(&mut text, self.index as u64);
                    text.append("): ");
                    text.append(e.as_str());
                    self.phase = CameraPhase::Done;
                    (Some(CameraEvent::Error(text)), CameraAction::Finish)
                },
                CameraInput::Opened { stop } => {
                    if stop {
                        self.phase = CameraPhase::Done;
                        (Some(CameraEvent::Stopped), CameraAction::Finish)
                    } else {
                        self.phase = CameraPhase::Opened;
                        (None, CameraAction::Continue)
                    }
                },
                _ => (None, CameraAction::Continue),
            },
            CameraPhase::Opened => match input {
                CameraInput::StreamFailed(e) => {
                    let mut text = String::from_str("Kamera stream açılamadı: ");
                    text.append(e.as_str());
                    self.phase = CameraPhase::Done;
                    (Some(CameraEvent::Error(text)), CameraAction::Finish)
                },
                CameraInput::StreamStarted => {
                    self.phase = CameraPhase::Streaming;
                    (Some(CameraEvent::Started), CameraAction::Continue)
                },
                _ => (None, CameraAction::Continue),
            },
            CameraPhase::Streaming => match input {
                CameraInput::FrameArrived { stop } => {
                    if stop {
                        self.phase = CameraPhase::Done;
                        (Some(CameraEvent::Stopped), CameraAction::Finish)
                    } else if self.gate.should_decode() {
                        (None, CameraAction::Decode)
                    } else {
                        (None, CameraAction::Skip)
                    }
                },
                CameraInput::StopRequested | CameraInput::FrameFailed => {
                    self.phase = CameraPhase::Done;
                    (Some(CameraEvent::Stopped), CameraAction::Finish)
                },
                _ => (None, CameraAction::Continue),
            },
            CameraPhase::Done => (None, CameraAction::Finish),
        }
    }

    /// Records whether the decoded frame was handed to the display (see
    /// `FrameGate::delivered`).
    pub fn delivered(&mut self, handed_over: bool)
        ensures
            final(self).index == old(self).index,
            final(self).phase == old(self).phase,
            final(self).gate.channel_full == (old(self).gate.channel_full || !handed_over),
    {
        self.gate.delivered(handed_over);
    }
}

/// A camera run reports exactly one of `[Error]`, `[Stopped]` and
/// `[Started, Stopped]` by the time it ends, nothing before the stream starts and
/// `[Started]` while it streams; and the worker decodes a frame only after it has
/// reported `Started`, whatever the inputs.
pub proof fn law_camera_run_reports(inputs: Seq<CameraInput>, next: CameraInput)
    ensures
        ({
            let run = camera_run(CameraPhase::Opening, false, inputs);
            &&& (run.0 == CameraPhase::Opening || run.0 == CameraPhase::Opened) ==> run.2 == Seq::<CameraReport>::empty()
            &&& run.0 == CameraPhase::Streaming ==> run.2 == seq![CameraReport::Started]
            &&& run.0 == CameraPhase::Done ==> run.2 == seq![CameraReport::Error] || run.2 == seq![CameraReport::Stopped]
                || run.2 == seq![CameraReport::Started, CameraReport::Stopped]
            &&& camera_step(run.0, run.1, next).3 == CameraAction::Decode ==> run.2 == seq![CameraReport::Started]
        }),
    decreases inputs.len(),
{
    if inputs.len() > 0 {
        law_camera_run_reports(inputs.drop_last(), inputs.last());
        let prev = camera_run(CameraPhase::Opening, false, inputs.drop_last());
        assert(Seq::<CameraReport>::empty().push(CameraReport::Error) =~= seq![CameraReport::Error]);
        assert(Seq::<CameraReport>::empty().push(CameraReport::Stopped) =~= seq![CameraReport::Stopped]);
        assert(Seq::<CameraReport>::empty().push(CameraReport::Started) =~= seq![CameraReport::Started]);
        assert(seq![CameraReport::Started].push(CameraReport::Stopped) =~= seq![
            CameraReport::Started,
            CameraReport::Stopped,
        ]);
    }
}

/// The index of a camera that the system names by text: the text read as a number,
/// or 0 when it is not one.
pub fn camera_index(name: &str) -> (i: usize)
    ensures
        i == (match unsigned_text_value(name@, usize::MAX as nat) {
            Some(v) => v as usize,
            None => 0,
        }),
{
    match parse_usize(name) {
        Some(v) => v,
        None => 0,
    }
}

} // verus!
