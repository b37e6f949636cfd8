//! The video session: what it asks of its codec, the frame it retains, and the steps by
//! which each incoming frame is dropped, or submitted behind repeats of the frame before
//! it, with the packets drained after every submission.

use vstd::prelude::*;
use crate::error::EncoderError;
use crate::frame::FrameView;
use crate::frame::PixelLayout;
use crate::frame::VideoFrame;
use crate::pacing::clock_after;
use crate::pacing::clock_wf;
use crate::pacing::increasing_above;
use crate::pacing::plan_at;
use crate::pacing::MAX_DUPLICATE_FRAMES;
use crate::pacing::FramePlan;
use crate::pacing::Pacer;
use crate::pacing::Running;
use crate::pipeline::drain_advance;
use crate::pipeline::drain_next;
use crate::pipeline::drain_request;
use crate::pipeline::drain_step;
use crate::pipeline::DrainStage;
use crate::pipeline::Step;
use crate::rate::FrameRate;
use crate::rate::TimeBase;

verus! {

/// The bit rate that the video encoder may not exceed.
pub const VIDEO_MAX_BIT_RATE: usize = 8000;

/// What the video encoder is opened with.
#[derive(Clone, Copy, Debug, PartialEq, Eq, Structural)]
pub struct VideoSettings {
    pub width: u32,
    pub height: u32,
    /// The pixel format that the encoder takes.
    pub format: PixelLayout,
    pub frame_rate: FrameRate,
    /// The unit of the timestamps of the frames: one frame slot.
    pub time_base: TimeBase,
    /// The distance between key frames, in frames.
    pub gop: u32,
    pub max_bit_rate: usize,
    /// Whether the encoder puts its headers into the container's header instead of into
    /// every key frame, which some containers ask for.
    pub global_header: bool,
}

/// The settings of a session: planar 4:2:0, the given dimensions and rate, timestamps that
/// count frame slots, one key frame a second, and the fixed ceiling on the bit rate. The
/// container's wish for global headers is passed on to the encoder.
pub open spec fn settings_for(width: u32, height: u32, fps: FrameRate, global_header: bool) -> VideoSettings {
    VideoSettings {
        width,
        height,
        format: PixelLayout::Yuv420p,
        frame_rate: fps,
        time_base: TimeBase { num: fps.den() as i32, den: fps.num() as i32 },
        gop: (fps.num() / fps.den()) as u32,
        max_bit_rate: VIDEO_MAX_BIT_RATE,
        global_header,
    }
}

/// Where a session stands.
#[derive(Clone, Copy, Debug, PartialEq, Eq, Structural)]
pub enum Stage {
    /// No call is in progress.
    Idle,
    /// A repeat of the previous frame was handed out for submission.
    SubmittingDuplicate,
    /// The packets that followed a repeat are being drained.
    DrainingDuplicate(DrainStage),
    /// The new frame was handed out for submission.
    SubmittingFrame,
    /// The packets that followed the new frame are being drained.
    DrainingFrame(DrainStage),
    /// The end of the stream was handed out to be signalled.
    Finishing,
    /// The packets left in the codec at the end are being drained.
    DrainingTail(DrainStage),
    /// The trailer was handed out to be written.
    WritingTrailer,
    /// The session is over.
    Closed,
}

/// A video session as a mathematical value.
#[verifier::ext_equal]
pub struct SessionView {
    pub settings: VideoSettings,
    /// The index of the video stream in its container.
    pub stream_index: usize,
    /// The clock of the stream: `None` until the first frame.
    pub clock: Option<Running>,
    /// The frame submitted last, kept for repeating.
    pub retained: Option<FrameView>,
    /// The new frame, while repeats of the previous one go before it.
    pub incoming: Option<FrameView>,
    pub stage: Stage,
    /// The number of repeats still to come after the one that is under way.
    pub duplicates_left: int,
}

impl SessionView {
    /// A session that was just set up.
    pub open spec fn initial(settings: VideoSettings, stream_index: usize) -> SessionView {
        SessionView {
            settings,
            stream_index,
            clock: None,
            retained: None,
            incoming: None,
            stage: Stage::Idle,
            duplicates_left: 0,
        }
    }

    /// Whether repeats of the previous frame are under way.
    pub open spec fn duplicating(self) -> bool {
        self.stage == Stage::SubmittingDuplicate || self.stage is DrainingDuplicate
    }

    /// What holds of every session. A frame is retained from the first frame on, and its
    /// timestamp is the last slot of the clock, except while repeats are under way: then
    /// the new frame waits, the clock is already at its slot, and the retained frame
    /// carries the timestamp of the repeat, with room below the new frame's slot for the
    /// repeats still to come.
    pub open spec fn wf(self) -> bool {
        &&& self.settings.frame_rate.wf()
        &&& clock_wf(self.clock)
        &&& (self.clock is Some <==> self.retained is Some)
        &&& if self.duplicating() {
            &&& self.incoming is Some
            &&& self.clock is Some
            &&& self.retained is Some
            &&& self.retained->0.pts is Some
            &&& 0 <= self.duplicates_left < MAX_DUPLICATE_FRAMES
            &&& self.retained->0.pts->0 + self.duplicates_left < self.clock->0.last_pts
        } else {
            &&& self.incoming is None
            &&& self.duplicates_left == 0
            &&& (self.retained matches Some(f) ==> f.pts == Some(self.clock->0.last_pts))
        }
    }

    /// The timestamp of the retained frame, or -1 before the first frame.
    pub open spec fn retained_pts(self) -> int {
        match self.retained {
            Some(f) => match f.pts {
                Some(p) => p as int,
                None => -1,
            },
            None => -1,
        }
    }

    /// The step of draining `stage` on this session's stream.
    pub open spec fn drain_step(self, stage: DrainStage) -> Step {
        drain_step(stage, self.stream_index, self.settings.time_base)
    }

    /// The session once the waiting frame took the place of the retained one, stamped with
    /// its slot, and was handed out for submission.
    pub open spec fn promoted(self) -> SessionView {
        SessionView {
            retained: Some(self.incoming->0.stamped(self.clock->0.last_pts)),
            incoming: None,
            duplicates_left: 0,
            stage: Stage::SubmittingFrame,
            ..self
        }
    }

    /// The session once the retained frame was stamped with the next slot and handed out
    /// for submission again.
    pub open spec fn repeated(self) -> SessionView {
        SessionView {
            retained: Some(self.retained->0.stamped((self.retained->0.pts->0 + 1) as i64)),
            duplicates_left: self.duplicates_left - 1,
            stage: Stage::SubmittingDuplicate,
            ..self
        }
    }

    /// The session and its first step after the frame `frame`, captured at
    /// `timestamp_ms`, was handed to it.
    ///
    /// A closed session rejects the frame, and so does one with a call in progress; the
    /// session stays as it is. Otherwise the pacing rule decides. A dropped frame changes
    /// nothing and the call is done. An emitted frame moves the clock to its slot. Without
    /// repeats it is retained, stamped, and handed out for submission. With repeats it
    /// waits while the retained frame is stamped with the slot after its own and handed
    /// out again.
    pub open spec fn begin_frame(self, frame: FrameView, timestamp_ms: u64) -> (SessionView, Result<Step, EncoderError>) {
        let num = self.settings.frame_rate.num();
        let den = self.settings.frame_rate.den();
        if self.stage == Stage::Closed {
            (self, Err(EncoderError::SessionClosed))
        } else if self.stage != Stage::Idle {
            (self, Err(EncoderError::CallInProgress))
        } else {
            match plan_at(num, den, self.clock, timestamp_ms) {
                FramePlan::Drop => (self, Ok(Step::Done)),
                FramePlan::Emit { duplicates, pts } => {
                    let clock = clock_after(num, den, self.clock, timestamp_ms);
                    if duplicates == 0 {
                        (
                            SessionView {
                                clock,
                                retained: Some(frame.stamped(pts)),
                                stage: Stage::SubmittingFrame,
                                ..self
                            },
                            Ok(Step::SubmitFrame { pts }),
                        )
                    } else {
                        let first = (self.clock->0.last_pts + 1) as i64;
                        (
                            SessionView {
                                clock,
                                retained: Some(self.retained->0.stamped(first)),
                                incoming: Some(frame),
                                duplicates_left: duplicates - 1,
                                stage: Stage::SubmittingDuplicate,
                                ..self
                            },
                            Ok(Step::SubmitDuplicate { pts: first }),
                        )
                    }
                },
            }
        }
    }

    /// The session and its step once the repeats are over, by failure or because the
    /// packets of the last one were drained: the next repeat if one is left and the last
    /// one went well, else the new frame.
    pub open spec fn after_duplicate(self, submitted: bool) -> (SessionView, Step) {
        if submitted && self.duplicates_left > 0 {
            (self.repeated(), Step::SubmitDuplicate { pts: (self.retained->0.pts->0 + 1) as i64 })
        } else {
            (self.promoted(), Step::SubmitFrame { pts: self.clock->0.last_pts })
        }
    }

    /// The session and its next step after the step that was handed out last succeeded
    /// (`ok`) or failed.
    ///
    /// A repeat that could not be submitted ends the repeats: the new frame is next. A
    /// repeat that was submitted has its packets drained, and then comes the next repeat
    /// or the new frame. The new frame has its packets drained whether its submission
    /// succeeded or not, and then the call is done. Draining asks for packets and writes
    /// them until there is none or a write fails. When closing, a codec that refuses the
    /// end of the stream ends the session in failure; else the last packets are drained
    /// and the trailer is written, and the session is closed whether that succeeded or
    /// not. With no step outstanding there is nothing to do.
    pub open spec fn advance(self, ok: bool) -> (SessionView, Step) {
        match self.stage {
            Stage::Idle => (self, Step::Done),
            Stage::Closed => (self, Step::Done),
            Stage::SubmittingDuplicate => if ok {
                (
                    SessionView { stage: Stage::DrainingDuplicate(DrainStage::Receiving), ..self },
                    Step::ReceivePacket,
                )
            } else {
                self.after_duplicate(false)
            },
            Stage::DrainingDuplicate(at) => match drain_next(at, ok) {
                Some(next) => (
                    SessionView { stage: Stage::DrainingDuplicate(next), ..self },
                    self.drain_step(next),
                ),
                None => self.after_duplicate(true),
            },
            Stage::SubmittingFrame => (
                SessionView { stage: Stage::DrainingFrame(DrainStage::Receiving), ..self },
                Step::ReceivePacket,
            ),
            Stage::DrainingFrame(at) => match drain_next(at, ok) {
                Some(next) => (
                    SessionView { stage: Stage::DrainingFrame(next), ..self },
                    self.drain_step(next),
                ),
                None => (SessionView { stage: Stage::Idle, ..self }, Step::Done),
            },
            Stage::Finishing => if ok {
                (
                    SessionView { stage: Stage::DrainingTail(DrainStage::Receiving), ..self },
                    Step::ReceivePacket,
                )
            } else {
                (
                    SessionView { stage: Stage::Closed, ..self },
                    Step::Failed(EncoderError::EncoderNegotiationFailed),
                )
            },
            Stage::DrainingTail(at) => match drain_next(at, ok) {
                Some(next) => (
                    SessionView { stage: Stage::DrainingTail(next), ..self },
                    self.drain_step(next),
                ),
                None => (SessionView { stage: Stage::WritingTrailer, ..self }, Step::WriteTrailer),
            },
            Stage::WritingTrailer => (
                SessionView { stage: Stage::Closed, ..self },
                if ok {
                    Step::Done
                } else {
                    Step::Failed(EncoderError::ContainerOpenFailed)
                },
            ),
        }
    }

    /// The session and its first step after it was asked to close: a closed session and
    /// one with a call in progress refuse and stay as they are; an idle one begins by
    /// signalling the end of the stream.
    pub open spec fn begin_close(self) -> (SessionView, Result<Step, EncoderError>) {
        if self.stage == Stage::Closed {
            (self, Err(EncoderError::SessionClosed))
        } else if self.stage != Stage::Idle {
            (self, Err(EncoderError::CallInProgress))
        } else {
            (SessionView { stage: Stage::Finishing, ..self }, Ok(Step::SignalEndOfStream))
        }
    }
}

/// What can happen to a session: a frame is handed to it, the outcome of its last step is
/// reported, or it is asked to close.
pub enum Input {
    Frame { frame: FrameView, timestamp_ms: u64 },
    Outcome(bool),
    Close,
}

/// The timestamp that a step submits, if it is a submission.
pub open spec fn submission(step: Option<Step>) -> Seq<int> {
    match step {
        Some(Step::SubmitDuplicate { pts }) => seq![pts as int],
        Some(Step::SubmitFrame { pts }) => seq![pts as int],
        _ => Seq::empty(),
    }
}

impl SessionView {
    /// The session after `input`, and the step that it hands out, if it accepts the input.
    pub open spec fn react(self, input: Input) -> (SessionView, Option<Step>) {
        match input {
            Input::Frame { frame, timestamp_ms } => {
                let r = self.begin_frame(frame, timestamp_ms);
                (
                    r.0,
                    match r.1 {
                        Ok(step) => Some(step),
                        Err(_) => None,
                    },
                )
            },
            Input::Outcome(ok) => {
                let r = self.advance(ok);
                (r.0, Some(r.1))
            },
            Input::Close => {
                let r = self.begin_close();
                (
                    r.0,
                    match r.1 {
                        Ok(step) => Some(step),
                        Err(_) => None,
                    },
                )
            },
        }
    }

    /// The session after the inputs, one after the other.
    pub open spec fn after(self, inputs: Seq<Input>) -> SessionView
        decreases inputs.len(),
    {
        if inputs.len() == 0 {
            self
        } else {
            self.react(inputs[0]).0.after(inputs.drop_first())
        }
    }

    /// The timestamps of all submissions that the session hands out under the inputs.
    pub open spec fn submissions(self, inputs: Seq<Input>) -> Seq<int>
        decreases inputs.len(),
    {
        if inputs.len() == 0 {
            Seq::empty()
        } else {
            submission(self.react(inputs[0]).1) + self.react(inputs[0]).0.submissions(
                inputs.drop_first(),
            )
        }
    }

    /// The number of repeats that the session hands out while the outcomes of its steps
    /// are reported one after the other.
    pub open spec fn repeats(self, outcomes: Seq<bool>) -> nat
        decreases outcomes.len(),
    {
        if outcomes.len() == 0 {
            0
        } else {
            let r = self.advance(outcomes[0]);
            (if r.1 is SubmitDuplicate {
                1nat
            } else {
                0nat
            }) + r.0.repeats(outcomes.drop_first())
        }
    }
}

/// Whatever happens to a valid session, it stays valid.
pub proof fn lemma_react_keeps_wf(s: SessionView, input: Input)
    requires
        s.wf(),
    ensures
        s.react(input).0.wf(),
{
}

/// A submission carries a timestamp beyond that of the frame retained before it, and the
/// frame retained after it carries that timestamp. Whatever else happens leaves the
/// timestamp of the retained frame as it is. The settings, the stream and the start of
/// the clock never change.
pub proof fn lemma_submission_moves_forward(s: SessionView, input: Input)
    requires
        s.wf(),
    ensures
        submission(s.react(input).1).len() <= 1,
        submission(s.react(input).1).len() == 1 ==> s.retained_pts() < submission(
            s.react(input).1,
        )[0] && s.react(input).0.retained_pts() == submission(s.react(input).1)[0],
        submission(s.react(input).1).len() == 0 ==> s.react(input).0.retained_pts()
            == s.retained_pts(),
        s.react(input).0.settings == s.settings,
        s.react(input).0.stream_index == s.stream_index,
        s.clock matches Some(run) ==> s.react(input).0.clock is Some && s.react(
            input,
        ).0.clock->0.start_time == run.start_time,
{
}

/// The timestamps submitted over the whole life of a session grow strictly, whatever
/// frames arrive at whatever times and however the codec and the container respond.
pub proof fn lemma_submissions_increasing(s: SessionView, inputs: Seq<Input>)
    requires
        s.wf(),
    ensures
        increasing_above(s.submissions(inputs), s.retained_pts()),
        s.after(inputs).wf(),
    decreases inputs.len(),
{
    if inputs.len() > 0 {
        let next = s.react(inputs[0]).0;
        let head = submission(s.react(inputs[0]).1);
        let tail = next.submissions(inputs.drop_first());
        lemma_react_keeps_wf(s, inputs[0]);
        lemma_submission_moves_forward(s, inputs[0]);
        lemma_submissions_increasing(next, inputs.drop_first());
        let all = head + tail;
        assert forall|i: int, j: int| 0 <= i < j < all.len() implies #[trigger] all[i] < #[trigger] all[j] by {
            if i < head.len() {
                assert(all[j] == tail[j - head.len()]);
            } else {
                assert(all[i] == tail[i - head.len()]);
                assert(all[j] == tail[j - head.len()]);
            }
        }
        assert forall|i: int| 0 <= i < all.len() implies s.retained_pts() < #[trigger] all[i] by {
            if i >= head.len() {
                assert(all[i] == tail[i - head.len()]);
            }
        }
    }
}

/// A closed session is over for good: it rejects every frame and every further close,
/// hands out nothing to submit or to write, and never changes again.
pub proof fn lemma_closed_is_terminal(s: SessionView, inputs: Seq<Input>)
    requires
        s.stage == Stage::Closed,
    ensures
        s.after(inputs) == s,
        s.submissions(inputs).len() == 0,
        forall|input: Input|
            (#[trigger] s.react(input)).0 == s && (s.react(input).1 is None || s.react(input).1
                == Some(Step::Done)),
    decreases inputs.len(),
{
    if inputs.len() > 0 {
        lemma_closed_is_terminal(s, inputs.drop_first());
    }
}

/// While one frame is being put through, however the codec and the container respond, no
/// more repeats are handed out than are still to come; and with the repeat that may be
/// under way already these are at most [`MAX_DUPLICATE_FRAMES`].
pub proof fn lemma_repeats_bounded(s: SessionView, outcomes: Seq<bool>)
    requires
        s.wf(),
    ensures
        s.duplicating() ==> s.repeats(outcomes) <= s.duplicates_left < MAX_DUPLICATE_FRAMES,
        !s.duplicating() ==> s.repeats(outcomes) == 0,
    decreases outcomes.len(),
{
    if outcomes.len() > 0 {
        lemma_react_keeps_wf(s, Input::Outcome(outcomes[0]));
        lemma_repeats_bounded(s.advance(outcomes[0]).0, outcomes.drop_first());
    }
}

/// A video session: the pacing of one stream of frames into the slots of a constant frame
/// rate, and the steps that carry each frame to the codec and its packets to the
/// container.
#[derive(Debug)]
pub struct H264Encoder {
    width: u32,
    height: u32,
    global_header: bool,
    stream_index: usize,
    pacer: Pacer,
    retained: Option<VideoFrame>,
    incoming: Option<VideoFrame>,
    stage: Stage,
    duplicates_left: i64,
}

/// The view of a frame that may be there.
pub open spec fn view_of(frame: Option<VideoFrame>) -> Option<FrameView> {
    match frame {
        Some(f) => Some(f@),
        None => None,
    }
}

impl View for H264Encoder {
    type V = SessionView;

    closed spec fn view(&self) -> SessionView {
        SessionView {
            settings: settings_for(self.width, self.height, self.pacer.rate(), self.global_header),
            stream_index: self.stream_index,
            clock: self.pacer.clock(),
            retained: view_of(self.retained),
            incoming: view_of(self.incoming),
            stage: self.stage,
            duplicates_left: self.duplicates_left as int,
        }
    }
}

impl H264Encoder {
    /// What holds of every session that this library hands out.
    pub open spec fn wf(&self) -> bool {
        self@.wf()
    }

    /// The pixel format that the encoder takes: planar 4:2:0.
    pub fn output_format() -> (format: PixelLayout)
        ensures
            format == PixelLayout::Yuv420p,
    {
        PixelLayout::Yuv420p
    }

    /// The options with which the encoder is opened, in order: the fastest preset, tuned
    /// for no latency.
    pub fn encoder_options() -> (options: Vec<(&'static str, &'static str)>)
        ensures
            options@.len() == 2,
            options@[0].0@ == "preset"@,
            options@[0].1@ == "ultrafast"@,
            options@[1].0@ == "tune"@,
            options@[1].1@ == "zerolatency"@,
    {
        let mut options: Vec<(&'static str, &'static str)> = Vec::new();
        options.push(("preset", "ultrafast"));
        options.push(("tune", "zerolatency"));
        options
    }

    /// The metadata that the stream carries in its container.
    pub fn stream_metadata() -> (metadata: Vec<(&'static str, &'static str)>)
        ensures
            metadata@.len() == 1,
            metadata@[0].0@ == "tune"@,
            metadata@[0].1@ == "zerolatency"@,
    {
        let mut metadata: Vec<(&'static str, &'static str)> = Vec::new();
        metadata.push(("tune", "zerolatency"));
        metadata
    }

    /// A session for frames of `width` by `height` pixels at `fps` frames per second,
    /// whose stream has the index `stream_index` in its container. `global_header` says
    /// whether that container asks for global headers. The session has seen no frame and
    /// has no call in progress.
    pub fn new(width: u32, height: u32, fps: FrameRate, stream_index: usize, global_header: bool) -> (encoder:
        H264Encoder)
        ensures
            encoder.wf(),
            encoder@ == SessionView::initial(
                settings_for(width, height, fps, global_header),
                stream_index,
            ),
    {
        H264Encoder {
            width,
            height,
            global_header,
            stream_index,
            pacer: Pacer::new(fps),
            retained: None,
            incoming: None,
            stage: Stage::Idle,
            duplicates_left: 0,
        }
    }

    /// What the encoder of this session is opened with.
    pub fn settings(&self) -> (settings: VideoSettings)
        ensures
            settings == self@.settings,
    {
        let fps = self.pacer.frame_rate();
        VideoSettings {
            width: self.width,
            height: self.height,
            format: PixelLayout::Yuv420p,
            frame_rate: fps,
            time_base: fps.time_base(),
            gop: fps.whole_frames_per_second(),
            max_bit_rate: VIDEO_MAX_BIT_RATE,
            global_header: self.global_header,
        }
    }

    /// The index of the video stream in its container.
    pub fn stream_index(&self) -> (index: usize)
        ensures
            index == self@.stream_index,
    {
        self.stream_index
    }

    /// The frame rate of the stream.
    pub fn fps(&self) -> (fps: FrameRate)
        ensures
            fps == self@.settings.frame_rate,
    {
        self.pacer.frame_rate()
    }

    /// The capture time of the first frame, once there was one.
    pub fn start_time(&self) -> (start: Option<u64>)
        ensures
            start == match self@.clock {
                None => None,
                Some(run) => Some(run.start_time),
            },
    {
        self.pacer.start_time()
    }

    /// The slot of the frame emitted last, once there was one.
    pub fn last_emitted_pts(&self) -> (last: Option<i64>)
        ensures
            last == match self@.clock {
                None => None,
                Some(run) => Some(run.last_pts),
            },
    {
        self.pacer.last_emitted_pts()
    }

    /// Where the session stands.
    pub fn stage(&self) -> (stage: Stage)
        ensures
            stage == self@.stage,
    {
        self.stage
    }

    /// Whether the session is over.
    pub fn is_closed(&self) -> (closed: bool)
        ensures
            closed == (self@.stage == Stage::Closed),
    {
        match self.stage {
            Stage::Closed => true,
            _ => false,
        }
    }

    /// The retained frame: the one to submit when a step says so.
    pub fn last_frame(&self) -> (frame: Option<&VideoFrame>)
        ensures
            view_of_ref(frame) == self@.retained,
    {
        self.retained.as_ref()
    }
}

impl H264Encoder {
    /// Puts the waiting frame in the place of the retained one, stamped with its slot.
    fn promote(&mut self) -> (step: Step)
        requires
            old(self).wf(),
            old(self)@.duplicating(),
        ensures
            final(self).wf(),
            final(self)@ == old(self)@.promoted(),
            step == (Step::SubmitFrame { pts: old(self)@.clock->0.last_pts }),
    {
        let last = self.pacer.last_emitted_pts();
        let pts: i64 = last.unwrap();
        let mut frame = self.incoming.take().unwrap();
        frame.set_pts(pts);
        self.retained = Some(frame);
        self.duplicates_left = 0;
        self.stage = Stage::SubmittingFrame;
        Step::SubmitFrame { pts }
    }

    /// Goes on after a repeat: to the next one if one is left and the last went well, else
    /// to the new frame.
    fn follow_duplicate(&mut self, submitted: bool) -> (step: Step)
        requires
            old(self).wf(),
            old(self)@.duplicating(),
        ensures
            final(self).wf(),
            final(self)@ == old(self)@.after_duplicate(submitted).0,
            step == old(self)@.after_duplicate(submitted).1,
    {
        if submitted && self.duplicates_left > 0 {
            let mut frame = self.retained.take().unwrap();
            let pts: i64 = frame.pts().unwrap() + 1;
            frame.set_pts(pts);
            self.retained = Some(frame);
            self.duplicates_left = self.duplicates_left - 1;
            self.stage = Stage::SubmittingDuplicate;
            Step::SubmitDuplicate { pts }
        } else {
            self.promote()
        }
    }

    /// Takes a frame captured at `capture_timestamp_ms` and says what to do first.
    ///
    /// The frame is dropped, and the call done at once, when its slot is not beyond the
    /// slot emitted last. Otherwise the answer is the first submission: of the frame
    /// itself, or of the first of the repeats that go before it. The caller carries out
    /// each step and reports it to [`H264Encoder::advance`] until the call is done. A
    /// closed session and one with a call in progress reject the frame.
    pub fn encode_frame(&mut self, frame: VideoFrame, capture_timestamp_ms: u64) -> (step: Result<
        Step,
        EncoderError,
    >)
        requires
            old(self).wf(),
        ensures
            final(self).wf(),
            final(self)@ == old(self)@.begin_frame(frame@, capture_timestamp_ms).0,
            step == old(self)@.begin_frame(frame@, capture_timestamp_ms).1,
    {
        match self.stage {
            Stage::Closed => {
                return Err(EncoderError::SessionClosed);
            },
            Stage::Idle => {},
            _ => {
                return Err(EncoderError::CallInProgress);
            },
        }
        let before = self.pacer.last_emitted_pts();
        let plan = self.pacer.schedule(capture_timestamp_ms);
        match plan {
            FramePlan::Drop => Ok(Step::Done),
            FramePlan::Emit { duplicates, pts } => {
                if duplicates == 0 {
                    let mut frame = frame;
                    frame.set_pts(pts);
                    self.retained = Some(frame);
                    self.stage = Stage::SubmittingFrame;
                    Ok(Step::SubmitFrame { pts })
                } else {
                    let first: i64 = before.unwrap() + 1;
                    let mut previous = self.retained.take().unwrap();
                    previous.set_pts(first);
                    self.retained = Some(previous);
                    self.incoming = Some(frame);
                    self.duplicates_left = duplicates - 1;
                    self.stage = Stage::SubmittingDuplicate;
                    Ok(Step::SubmitDuplicate { pts: first })
                }
            },
        }
    }

    /// Takes the outcome of the step handed out last and says what to do next.
    ///
    /// `ok` says that the step succeeded; for a request for a packet, that there was one.
    pub fn advance(&mut self, ok: bool) -> (step: Step)
        requires
            old(self).wf(),
        ensures
            final(self).wf(),
            final(self)@ == old(self)@.advance(ok).0,
            step == old(self)@.advance(ok).1,
    {
        let time_base = self.pacer.frame_rate().time_base();
        match self.stage {
            Stage::Idle => Step::Done,
            Stage::Closed => Step::Done,
            Stage::SubmittingDuplicate => {
                if ok {
                    self.stage = Stage::DrainingDuplicate(DrainStage::Receiving);
                    Step::ReceivePacket
                } else {
                    self.follow_duplicate(false)
                }
            },
            Stage::DrainingDuplicate(at) => {
                match drain_advance(at, ok) {
                    Some(next) => {
                        self.stage = Stage::DrainingDuplicate(next);
                        drain_request(next, self.stream_index, time_base)
                    },
                    None => self.follow_duplicate(true),
                }
            },
            Stage::SubmittingFrame => {
                self.stage = Stage::DrainingFrame(DrainStage::Receiving);
                Step::ReceivePacket
            },
            Stage::DrainingFrame(at) => {
                match drain_advance(at, ok) {
                    Some(next) => {
                        self.stage = Stage::DrainingFrame(next);
                        drain_request(next, self.stream_index, time_base)
                    },
                    None => {
                        self.stage = Stage::Idle;
                        Step::Done
                    },
                }
            },
            Stage::Finishing => {
                if ok {
                    self.stage = Stage::DrainingTail(DrainStage::Receiving);
                    Step::ReceivePacket
                } else {
                    self.stage = Stage::Closed;
                    Step::Failed(EncoderError::EncoderNegotiationFailed)
                }
            },
            Stage::DrainingTail(at) => {
                match drain_advance(at, ok) {
                    Some(next) => {
                        self.stage = Stage::DrainingTail(next);
                        drain_request(next, self.stream_index, time_base)
                    },
                    None => {
                        self.stage = Stage::WritingTrailer;
                        Step::WriteTrailer
                    },
                }
            },
            Stage::WritingTrailer => {
                self.stage = Stage::Closed;
                if ok {
                    Step::Done
                } else {
                    Step::Failed(EncoderError::ContainerOpenFailed)
                }
            },
        }
    }

    /// Begins to close the session: the end of the stream is signalled to the codec, the
    /// packets it still holds are drained, and the trailer is written, each as a step
    /// reported to [`H264Encoder::advance`]. A session can be closed once, and takes no
    /// frame afterward.
    pub fn close(&mut self) -> (step: Result<Step, EncoderError>)
        requires
            old(self).wf(),
        ensures
            final(self).wf(),
            final(self)@ == old(self)@.begin_close().0,
            step == old(self)@.begin_close().1,
    {
        match self.stage {
            Stage::Closed => Err(EncoderError::SessionClosed),
            Stage::Idle => {
                self.stage = Stage::Finishing;
                Ok(Step::SignalEndOfStream)
            },
            _ => Err(EncoderError::CallInProgress),
        }
    }
}

/// The view of a borrowed frame that may be there.
pub open spec fn view_of_ref(frame: Option<&VideoFrame>) -> Option<FrameView> {
    match frame {
        Some(f) => Some(f@),
        None => None,
    }
}

} // verus!
