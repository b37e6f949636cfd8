//! The audio session. A frame of audio is stamped with the number of samples submitted
//! before it, so its timestamps depend on nothing but the sizes of the frames: no clock is
//! read, nothing is dropped and nothing repeated.

use vstd::prelude::*;
use crate::error::EncoderError;
use crate::pipeline::drain_advance;
use crate::pipeline::drain_next;
use crate::pipeline::drain_request;
use crate::pipeline::drain_step;
use crate::pipeline::DrainStage;
use crate::pipeline::Step;
use crate::rate::TimeBase;

verus! {

/// The bit rate of the audio stream, which is also its ceiling.
pub const AUDIO_BIT_RATE: usize = 128000;

/// How the channels of the audio are laid out.
#[derive(Clone, Copy, Debug, PartialEq, Eq, Structural)]
pub enum ChannelLayout {
    /// One channel.
    Mono,
}

/// How a sample is stored.
#[derive(Clone, Copy, Debug, PartialEq, Eq, Structural)]
pub enum SampleFormat {
    /// 32-bit floating point, the channels interleaved.
    F32Packed,
}

/// What the audio encoder is opened with.
#[derive(Clone, Copy, Debug, PartialEq, Eq, Structural)]
pub struct AudioSettings {
    /// Samples per second.
    pub sample_rate: i32,
    pub bit_rate: usize,
    pub max_bit_rate: usize,
    pub channel_layout: ChannelLayout,
    pub sample_format: SampleFormat,
    /// The unit of the timestamps of the frames: one sample.
    pub time_base: TimeBase,
    /// Whether the encoder puts its headers into the container's header, which some
    /// containers ask for.
    pub global_header: bool,
}

/// The settings of an audio session: mono, packed 32-bit float samples, a fixed bit rate,
/// and timestamps that count samples.
pub open spec fn audio_settings_for(sample_rate: i32, global_header: bool) -> AudioSettings {
    AudioSettings {
        sample_rate,
        bit_rate: AUDIO_BIT_RATE,
        max_bit_rate: AUDIO_BIT_RATE,
        channel_layout: ChannelLayout::Mono,
        sample_format: SampleFormat::F32Packed,
        time_base: TimeBase { num: 1, den: sample_rate },
        global_header,
    }
}

/// Where an audio session stands.
#[derive(Clone, Copy, Debug, PartialEq, Eq, Structural)]
pub enum AudioStage {
    /// No call is in progress.
    Idle,
    /// A frame was handed out for submission.
    Submitting,
    /// The packets that followed the frame are being drained.
    Draining(DrainStage),
}

/// An audio session as a mathematical value.
pub struct AudioView {
    pub settings: AudioSettings,
    /// The index of the audio stream in its container.
    pub stream_index: usize,
    /// The number of samples submitted so far: the timestamp of the next frame.
    pub sample_cursor: int,
    pub stage: AudioStage,
}

impl AudioView {
    /// A session that was just set up.
    pub open spec fn initial(settings: AudioSettings, stream_index: usize) -> AudioView {
        AudioView { settings, stream_index, sample_cursor: 0, stage: AudioStage::Idle }
    }

    /// What holds of every session: the rate is positive and the samples were counted
    /// from zero.
    pub open spec fn wf(self) -> bool {
        &&& self.settings.sample_rate > 0
        &&& 0 <= self.sample_cursor <= i64::MAX
    }

    /// The session and its first step after a frame of `samples` samples was handed to
    /// it: the frame is stamped with the samples counted so far and handed out for
    /// submission, and the count moves on by its size. A session with a call in progress
    /// rejects the frame and stays as it is.
    pub open spec fn begin_frame(self, samples: usize) -> (AudioView, Result<Step, EncoderError>) {
        if self.stage != AudioStage::Idle {
            (self, Err(EncoderError::CallInProgress))
        } else {
            (
                AudioView {
                    sample_cursor: self.sample_cursor + samples,
                    stage: AudioStage::Submitting,
                    ..self
                },
                Ok(Step::SubmitFrame { pts: self.sample_cursor as i64 }),
            )
        }
    }

    /// The session and its next step after the step that was handed out last succeeded
    /// (`ok`) or failed: after the submission the packets are drained, as for video, until
    /// the codec has none left or a write fails; then the call is done.
    pub open spec fn advance(self, ok: bool) -> (AudioView, Step) {
        match self.stage {
            AudioStage::Idle => (self, Step::Done),
            AudioStage::Submitting => (
                AudioView { stage: AudioStage::Draining(DrainStage::Receiving), ..self },
                Step::ReceivePacket,
            ),
            AudioStage::Draining(at) => match drain_next(at, ok) {
                Some(next) => (
                    AudioView { stage: AudioStage::Draining(next), ..self },
                    drain_step(next, self.stream_index, self.settings.time_base),
                ),
                None => (AudioView { stage: AudioStage::Idle, ..self }, Step::Done),
            },
        }
    }
}

/// The timestamps of frames of the given sizes, submitted one after the other to a
/// session that has counted `cursor` samples.
pub open spec fn sample_timestamps(cursor: int, sizes: Seq<usize>) -> Seq<int>
    decreases sizes.len(),
{
    if sizes.len() == 0 {
        Seq::empty()
    } else {
        seq![cursor] + sample_timestamps(cursor + sizes[0], sizes.drop_first())
    }
}

/// The number of samples in the first `count` of the frames of the given sizes.
pub open spec fn samples_before(sizes: Seq<usize>, count: int) -> int
    decreases count,
{
    if count <= 0 {
        0
    } else {
        samples_before(sizes, count - 1) + sizes[count - 1]
    }
}

/// Counting the samples of the first frames from the second frame on, and adding the
/// first, gives the same as counting from the first.
proof fn lemma_samples_before_shift(sizes: Seq<usize>, count: int)
    requires
        0 <= count < sizes.len(),
    ensures
        samples_before(sizes, count + 1) == sizes[0] + samples_before(sizes.drop_first(), count),
    decreases count,
{
    let rest = sizes.drop_first();
    assert(samples_before(sizes, count + 1) == samples_before(sizes, count) + sizes[count]);
    if count > 0 {
        lemma_samples_before_shift(sizes, count - 1);
        assert(rest[count - 1] == sizes[count]);
        assert(samples_before(rest, count) == samples_before(rest, count - 1) + rest[count - 1]);
    } else {
        assert(samples_before(sizes, 0) == 0);
        assert(samples_before(rest, 0) == 0);
    }
}

/// Each frame of audio is stamped with the number of samples in the frames before it,
/// counted from where the session stood: the timestamps follow from the sizes of the
/// frames alone, whenever the frames arrive.
pub proof fn lemma_sample_timestamps(cursor: int, sizes: Seq<usize>)
    ensures
        sample_timestamps(cursor, sizes).len() == sizes.len(),
        forall|k: int|
            0 <= k < sizes.len() ==> #[trigger] sample_timestamps(cursor, sizes)[k] == cursor
                + samples_before(sizes, k),
    decreases sizes.len(),
{
    if sizes.len() > 0 {
        let rest = sizes.drop_first();
        lemma_sample_timestamps(cursor + sizes[0], rest);
        assert forall|k: int| 0 <= k < sizes.len() implies #[trigger] sample_timestamps(
            cursor,
            sizes,
        )[k] == cursor + samples_before(sizes, k) by {
            if k > 0 {
                lemma_samples_before_shift(sizes, k - 1);
                assert(sample_timestamps(cursor, sizes)[k] == sample_timestamps(
                    cursor + sizes[0],
                    rest,
                )[k - 1]);
            }
        }
    }
}

/// The timestamps of audio never go back, and they grow strictly where no frame is empty.
pub proof fn lemma_sample_timestamps_ordered(cursor: int, sizes: Seq<usize>, i: int, j: int)
    requires
        0 <= i <= j < sizes.len(),
    ensures
        sample_timestamps(cursor, sizes)[i] <= sample_timestamps(cursor, sizes)[j],
        i < j && sizes[i] > 0 ==> sample_timestamps(cursor, sizes)[i] < sample_timestamps(
            cursor,
            sizes,
        )[j],
    decreases j - i,
{
    lemma_sample_timestamps(cursor, sizes);
    if i < j {
        lemma_sample_timestamps_ordered(cursor, sizes, i, j - 1);
        assert(samples_before(sizes, j) == samples_before(sizes, j - 1) + sizes[j - 1]);
    }
}

/// An idle session stamps a frame with its count of samples and moves the count on by the
/// size of the frame; reporting the outcomes of steps never changes the count and never
/// hands out another submission. So the frames put through a session one after the other
/// carry the timestamps of [`sample_timestamps`].
pub proof fn lemma_audio_counts_samples(s: AudioView, samples: usize, ok: bool)
    ensures
        s.stage == AudioStage::Idle ==> s.begin_frame(samples).1 == Ok::<Step, EncoderError>(
            Step::SubmitFrame { pts: s.sample_cursor as i64 },
        ) && s.begin_frame(samples).0.sample_cursor == s.sample_cursor + samples,
        s.stage != AudioStage::Idle ==> s.begin_frame(samples).0 == s,
        s.advance(ok).0.sample_cursor == s.sample_cursor,
        s.advance(ok).0.settings == s.settings,
        !(s.advance(ok).1 is SubmitFrame) && !(s.advance(ok).1 is SubmitDuplicate),
{
}

/// An audio session: the sample clock of one stream, and the steps that carry each frame
/// to the codec and its packets to the container.
#[derive(Debug)]
pub struct MP3Encoder {
    sample_rate: i32,
    global_header: bool,
    stream_index: usize,
    sample_number: i64,
    stage: AudioStage,
}

impl View for MP3Encoder {
    type V = AudioView;

    closed spec fn view(&self) -> AudioView {
        AudioView {
            settings: audio_settings_for(self.sample_rate, self.global_header),
            stream_index: self.stream_index,
            sample_cursor: self.sample_number as int,
            stage: self.stage,
        }
    }
}

impl MP3Encoder {
    /// What holds of every session that this library hands out.
    pub open spec fn wf(&self) -> bool {
        self@.wf()
    }

    /// A session for audio of `sample_rate` samples per second, whose stream has the index
    /// `stream_index` in its container. `global_header` says whether that container asks
    /// for global headers. A rate of zero, or one beyond what the codec's 32-bit signed
    /// field can hold, cannot be negotiated.
    pub fn new(sample_rate: u32, stream_index: usize, global_header: bool) -> (encoder: Result<
        MP3Encoder,
        EncoderError,
    >)
        ensures
            encoder is Ok <==> 0 < sample_rate <= i32::MAX,
            encoder matches Ok(e) ==> e.wf() && e@ == AudioView::initial(
                audio_settings_for(sample_rate as i32, global_header),
                stream_index,
            ),
            encoder matches Err(e) ==> e == EncoderError::EncoderNegotiationFailed,
    {
        if sample_rate == 0 || sample_rate > 0x7fff_ffff {
            Err(EncoderError::EncoderNegotiationFailed)
        } else {
            Ok(
                MP3Encoder {
                    sample_rate: sample_rate as i32,
                    global_header,
                    stream_index,
                    sample_number: 0,
                    stage: AudioStage::Idle,
                },
            )
        }
    }

    /// What the encoder of this session is opened with.
    pub fn settings(&self) -> (settings: AudioSettings)
        ensures
            settings == self@.settings,
    {
        AudioSettings {
            sample_rate: self.sample_rate,
            bit_rate: AUDIO_BIT_RATE,
            max_bit_rate: AUDIO_BIT_RATE,
            channel_layout: ChannelLayout::Mono,
            sample_format: SampleFormat::F32Packed,
            time_base: TimeBase { num: 1, den: self.sample_rate },
            global_header: self.global_header,
        }
    }

    /// The index of the audio stream in its container.
    pub fn stream_index(&self) -> (index: usize)
        ensures
            index == self@.stream_index,
    {
        self.stream_index
    }

    /// Samples per second.
    pub fn sample_rate(&self) -> (rate: u32)
        requires
            self.wf(),
        ensures
            rate == self@.settings.sample_rate,
    {
        self.sample_rate as u32
    }

    /// The number of samples submitted so far: the timestamp of the next frame.
    pub fn sample_cursor(&self) -> (cursor: i64)
        ensures
            cursor == self@.sample_cursor,
    {
        self.sample_number
    }

    /// Where the session stands.
    pub fn stage(&self) -> (stage: AudioStage)
        ensures
            stage == self@.stage,
    {
        self.stage
    }

    /// Whether a frame of `samples` samples can still be counted: whether the count after
    /// it fits a 64-bit timestamp.
    pub fn has_room_for(&self, samples: usize) -> (room: bool)
        requires
            self.wf(),
        ensures
            room == (self@.sample_cursor + samples <= i64::MAX),
    {
        let left: u64 = (i64::MAX - self.sample_number) as u64;
        (samples as u64) <= left
    }

    /// Takes a frame of `samples` samples and says what to do first: submit it, stamped
    /// with the number of samples submitted before it. The caller carries out each step
    /// and reports it to [`MP3Encoder::advance`] until the call is done. A session with a
    /// call in progress rejects the frame.
    pub fn encode_frame(&mut self, samples: usize) -> (step: Result<Step, EncoderError>)
        requires
            old(self).wf(),
            old(self)@.sample_cursor + samples <= i64::MAX,
        ensures
            final(self).wf(),
            final(self)@ == old(self)@.begin_frame(samples).0,
            step == old(self)@.begin_frame(samples).1,
    {
        match self.stage {
            AudioStage::Idle => {
                let pts: i64 = self.sample_number;
                self.sample_number = pts + (samples as i64);
                self.stage = AudioStage::Submitting;
                Ok(Step::SubmitFrame { pts })
            },
            _ => Err(EncoderError::CallInProgress),
        }
    }

    /// Takes the outcome of the step handed out last and says what to do next.
    ///
    /// `ok` says that the step succeeded; for a request for a packet, that there was one.
    pub fn advance(&mut self, ok: bool) -> (step: Step)
        requires
            old(self).wf(),
        ensures
            final(self).wf(),
            final(self)@ == old(self)@.advance(ok).0,
            step == old(self)@.advance(ok).1,
    {
        match self.stage {
            AudioStage::Idle => Step::Done,
            AudioStage::Submitting => {
                self.stage = AudioStage::Draining(DrainStage::Receiving);
                Step::ReceivePacket
            },
            AudioStage::Draining(at) => {
                match drain_advance(at, ok) {
                    Some(next) => {
                        self.stage = AudioStage::Draining(next);
                        drain_request(
                            next,
                            self.stream_index,
                            TimeBase { num: 1, den: self.sample_rate },
                        )
                    },
                    None => {
                        self.stage = AudioStage::Idle;
                        Step::Done
                    },
                }
            },
        }
    }
}

} // verus!
