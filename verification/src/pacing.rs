//! The pacing rule of the video stream: for each incoming frame, whether it is dropped,
//! emitted, or emitted behind a bounded run of repeats of the frame before it.
//!
//! The first frame of a stream starts its clock and takes slot 0. Every later frame is
//! mapped to the slot nearest to its capture time. A frame whose slot is not beyond the
//! last emitted one is dropped. A frame that skips slots is preceded by repeats of the
//! previous frame in the slots directly after the last emitted one, at most
//! [`MAX_DUPLICATE_FRAMES`] of them however long the gap is, and then takes its own slot.

use vstd::prelude::*;
use crate::rate::lemma_slot_exact;
use crate::rate::slot_of;
use crate::rate::FrameRate;

verus! {

/// The largest number of repeated frames that bridge one gap.
pub const MAX_DUPLICATE_FRAMES: i64 = 5;

/// The decision for one incoming frame.
#[derive(Clone, Copy, Debug, PartialEq, Eq, Structural)]
pub enum FramePlan {
    /// The frame is discarded: nothing is submitted.
    Drop,
    /// The previous frame is submitted `duplicates` more times, in the slots directly after
    /// the last emitted one, and then the frame itself with timestamp `pts`.
    Emit { duplicates: i64, pts: i64 },
}

/// The clock of a running stream: when it started, and the slot emitted last.
#[derive(Clone, Copy, Debug, PartialEq, Eq, Structural)]
pub struct Running {
    pub start_time: u64,
    pub last_pts: i64,
}

/// The number of repeats that bridge the gap between the slot `last` and a later slot
/// `target`: one for each slot skipped, but never more than the maximum.
pub open spec fn duplicates_for(last: int, target: int) -> int {
    if target - last - 1 < MAX_DUPLICATE_FRAMES as int {
        target - last - 1
    } else {
        MAX_DUPLICATE_FRAMES as int
    }
}

/// The decision for a frame whose slot is `target`, in a stream that emitted `last` last.
pub open spec fn plan_for(last: int, target: int) -> FramePlan {
    if target <= last {
        FramePlan::Drop
    } else {
        FramePlan::Emit { duplicates: duplicates_for(last, target) as i64, pts: target as i64 }
    }
}

/// The decision for a frame captured at `timestamp_ms`, in a stream of `num / den` frames
/// per second whose clock is `clock` (`None` before the first frame).
pub open spec fn plan_at(num: int, den: int, clock: Option<Running>, timestamp_ms: u64) -> FramePlan {
    match clock {
        None => FramePlan::Emit { duplicates: 0, pts: 0 },
        Some(run) => plan_for(
            run.last_pts as int,
            slot_of(num, den, timestamp_ms - run.start_time),
        ),
    }
}

/// The clock after the frame captured at `timestamp_ms` was decided on: the first frame
/// starts it, an emitted frame moves the last slot to its own, a dropped one changes
/// nothing.
pub open spec fn clock_after(num: int, den: int, clock: Option<Running>, timestamp_ms: u64) -> Option<
    Running,
> {
    match clock {
        None => Some(Running { start_time: timestamp_ms, last_pts: 0 }),
        Some(run) => match plan_at(num, den, clock, timestamp_ms) {
            FramePlan::Drop => clock,
            FramePlan::Emit { pts, .. } => Some(Running { start_time: run.start_time, last_pts: pts }),
        },
    }
}

/// The timestamps that a plan submits, in order: the repeats, then the frame itself.
/// `last` is the slot emitted before.
pub open spec fn plan_timestamps(last: int, plan: FramePlan) -> Seq<int> {
    match plan {
        FramePlan::Drop => Seq::empty(),
        FramePlan::Emit { duplicates, pts } => Seq::new(
            duplicates as nat,
            |i: int| last + 1 + i,
        ).push(pts as int),
    }
}

/// The slot emitted last under `clock`, or -1 before the first frame, which takes slot 0.
pub open spec fn last_slot(clock: Option<Running>) -> int {
    match clock {
        None => -1,
        Some(run) => run.last_pts as int,
    }
}

/// All timestamps submitted for the frames captured at `timestamps_ms`, one after the
/// other, starting from `clock`.
pub open spec fn submitted(num: int, den: int, clock: Option<Running>, timestamps_ms: Seq<u64>) -> Seq<
    int,
>
    decreases timestamps_ms.len(),
{
    if timestamps_ms.len() == 0 {
        Seq::empty()
    } else {
        plan_timestamps(last_slot(clock), plan_at(num, den, clock, timestamps_ms[0])) + submitted(
            num,
            den,
            clock_after(num, den, clock, timestamps_ms[0]),
            timestamps_ms.drop_first(),
        )
    }
}

/// A clock is valid when its last slot is not negative.
pub open spec fn clock_wf(clock: Option<Running>) -> bool {
    clock matches Some(run) ==> run.last_pts >= 0
}

/// The pacing state of one video stream.
#[derive(Clone, Copy, Debug)]
pub struct Pacer {
    rate: FrameRate,
    clock: Option<Running>,
}

impl Pacer {
    #[verifier::type_invariant]
    spec fn inv(self) -> bool {
        self.rate.wf() && clock_wf(self.clock)
    }

    /// The frame rate of the stream.
    pub closed spec fn rate(self) -> FrameRate {
        self.rate
    }

    /// The clock of the stream: `None` until the first frame.
    pub closed spec fn clock(self) -> Option<Running> {
        self.clock
    }

    /// What holds of every pacer that executable code holds.
    pub open spec fn wf(self) -> bool {
        self.rate().wf() && clock_wf(self.clock())
    }

    /// The decision that this pacer takes for a frame captured at `timestamp_ms`.
    pub open spec fn plan(self, timestamp_ms: u64) -> FramePlan {
        plan_at(self.rate().num(), self.rate().den(), self.clock(), timestamp_ms)
    }

    /// A pacer for a stream of the given rate that has seen no frame.
    pub fn new(rate: FrameRate) -> (pacer: Pacer)
        ensures
            pacer.rate() == rate,
            pacer.clock() is None,
            pacer.wf(),
    {
        let _ = rate.numerator();
        Pacer { rate, clock: None }
    }

    /// The frame rate of the stream.
    pub fn frame_rate(&self) -> (rate: FrameRate)
        ensures
            rate == self.rate(),
            self.wf(),
    {
        proof {
            use_type_invariant(self);
        }
        self.rate
    }

    /// The capture time of the first frame, once there was one.
    pub fn start_time(&self) -> (start: Option<u64>)
        ensures
            start == match self.clock() {
                None => None,
                Some(run) => Some(run.start_time),
            },
    {
        match self.clock {
            None => None,
            Some(run) => Some(run.start_time),
        }
    }

    /// The timestamp of the frame emitted last, once there was one.
    pub fn last_emitted_pts(&self) -> (last: Option<i64>)
        ensures
            last == match self.clock() {
                None => None,
                Some(run) => Some(run.last_pts),
            },
            self.wf(),
    {
        proof {
            use_type_invariant(self);
        }
        match self.clock {
            None => None,
            Some(run) => Some(run.last_pts),
        }
    }

    /// Decides on a frame captured at `capture_timestamp_ms` and moves the clock on.
    ///
    /// The first frame is emitted in slot 0 and its capture time becomes the start of the
    /// stream. A later frame is dropped, with no change of state, when its slot is not
    /// beyond the last emitted one. Otherwise it is emitted in its slot, behind one repeat
    /// for each slot skipped, at most [`MAX_DUPLICATE_FRAMES`].
    pub fn schedule(&mut self, capture_timestamp_ms: u64) -> (plan: FramePlan)
        ensures
            plan == old(self).plan(capture_timestamp_ms),
            final(self).rate() == old(self).rate(),
            final(self).clock() == clock_after(
                old(self).rate().num(),
                old(self).rate().den(),
                old(self).clock(),
                capture_timestamp_ms,
            ),
            final(self).wf(),
            plan matches FramePlan::Emit { duplicates, pts } ==> {
                &&& 0 <= duplicates <= MAX_DUPLICATE_FRAMES
                &&& last_slot(old(self).clock()) + duplicates < pts
                &&& last_slot(final(self).clock()) == pts
            },
    {
        proof {
            use_type_invariant(&*self);
        }
        match self.clock {
            None => {
                self.clock = Some(Running { start_time: capture_timestamp_ms, last_pts: 0 });
                FramePlan::Emit { duplicates: 0, pts: 0 }
            },
            Some(run) => {
                let target: i64 = self.rate.slot_after(run.start_time, capture_timestamp_ms);
                if target <= run.last_pts {
                    FramePlan::Drop
                } else {
                    let skipped: i64 = target - run.last_pts - 1;
                    let duplicates: i64 = if skipped < MAX_DUPLICATE_FRAMES {
                        skipped
                    } else {
                        MAX_DUPLICATE_FRAMES
                    };
                    self.clock = Some(Running { start_time: run.start_time, last_pts: target });
                    FramePlan::Emit { duplicates, pts: target }
                }
            },
        }
    }
}

/// Whether the numbers of `s` grow strictly and all lie above `floor`.
pub open spec fn increasing_above(s: Seq<int>, floor: int) -> bool {
    &&& forall|i: int| 0 <= i < s.len() ==> floor < #[trigger] s[i]
    &&& forall|i: int, j: int| 0 <= i < j < s.len() ==> #[trigger] s[i] < #[trigger] s[j]
}

/// A frame whose slot is beyond the last emitted one is emitted in its own slot, behind one
/// repeat for each slot that it skips but never more than [`MAX_DUPLICATE_FRAMES`]: the
/// repeats take the slots directly after the last emitted one. However long the gap, at
/// most six timestamps are submitted, they grow strictly, and the last is the frame's own.
pub proof fn lemma_gap_fill_bounded(last: int, target: int)
    requires
        i64::MIN <= last < target <= i64::MAX,
    ensures
        plan_for(last, target) == (FramePlan::Emit {
            duplicates: duplicates_for(last, target) as i64,
            pts: target as i64,
        }),
        0 <= duplicates_for(last, target) <= MAX_DUPLICATE_FRAMES,
        duplicates_for(last, target) == target - last - 1 || (duplicates_for(last, target)
            == MAX_DUPLICATE_FRAMES && target - last - 1 > MAX_DUPLICATE_FRAMES),
        plan_timestamps(last, plan_for(last, target)).len() == duplicates_for(last, target) + 1,
        plan_timestamps(last, plan_for(last, target)).last() == target,
        forall|i: int|
            0 <= i < duplicates_for(last, target) ==> #[trigger] plan_timestamps(
                last,
                plan_for(last, target),
            )[i] == last + 1 + i,
        increasing_above(plan_timestamps(last, plan_for(last, target)), last),
{
}

/// A gap of six slots or more gets exactly [`MAX_DUPLICATE_FRAMES`] repeats, in the five
/// slots after the last emitted one, however long it is; the frame keeps its own slot,
/// which is the sixth after the last emitted one only when the gap is exactly six.
pub proof fn lemma_long_gap_gets_five_repeats(last: int, target: int)
    requires
        i64::MIN <= last,
        last + MAX_DUPLICATE_FRAMES < target <= i64::MAX,
    ensures
        plan_for(last, target) == (FramePlan::Emit { duplicates: MAX_DUPLICATE_FRAMES, pts: target as i64 }),
        plan_timestamps(last, plan_for(last, target)) == seq![
            last + 1,
            last + 2,
            last + 3,
            last + 4,
            last + 5,
            target,
        ],
        plan_timestamps(last, plan_for(last, target)).last() == last + 6 <==> target - last == 6,
{
    assert(plan_timestamps(last, plan_for(last, target)) =~= seq![
        last + 1,
        last + 2,
        last + 3,
        last + 4,
        last + 5,
        target,
    ]);
}

/// A frame whose slot is not beyond the last emitted one is dropped: nothing is submitted
/// for it and the clock stays as it is. So of two frames that map to one slot, in either
/// order of arrival, only the first is emitted.
pub proof fn lemma_same_slot_drops(num: int, den: int, clock: Option<Running>, first_ms: u64, second_ms: u64)
    requires
        slot_of(num, den, second_ms - clock_after(num, den, clock, first_ms)->0.start_time)
            <= last_slot(clock_after(num, den, clock, first_ms)),
    ensures
        plan_at(num, den, clock_after(num, den, clock, first_ms), second_ms) == FramePlan::Drop,
        plan_timestamps(
            last_slot(clock_after(num, den, clock, first_ms)),
            plan_at(num, den, clock_after(num, den, clock, first_ms), second_ms),
        ).len() == 0,
        clock_after(num, den, clock_after(num, den, clock, first_ms), second_ms) == clock_after(
            num,
            den,
            clock,
            first_ms,
        ),
{
}

/// The start of a stream is fixed by its first frame and never moves: from then on every
/// frame, emitted or dropped, leaves it as it is. The last emitted slot never moves back.
pub proof fn lemma_start_time_is_fixed(num: int, den: int, clock: Option<Running>, timestamp_ms: u64)
    ensures
        clock is None ==> clock_after(num, den, clock, timestamp_ms) == Some(
            Running { start_time: timestamp_ms, last_pts: 0 },
        ),
        clock matches Some(run) ==> clock_after(num, den, clock, timestamp_ms) is Some
            && clock_after(num, den, clock, timestamp_ms)->0.start_time == run.start_time
            && clock_after(num, den, clock, timestamp_ms)->0.last_pts >= run.last_pts,
        clock_wf(clock) ==> clock_wf(clock_after(num, den, clock, timestamp_ms)),
{
}

/// The timestamps submitted for any frames whatever, in the order of arrival, grow
/// strictly: no slot is used twice and none is used after a later one.
pub proof fn lemma_submitted_increasing(num: int, den: int, clock: Option<Running>, timestamps_ms: Seq<u64>)
    requires
        clock_wf(clock),
    ensures
        increasing_above(submitted(num, den, clock, timestamps_ms), last_slot(clock)),
    decreases timestamps_ms.len(),
{
    if timestamps_ms.len() > 0 {
        let plan = plan_at(num, den, clock, timestamps_ms[0]);
        let next = clock_after(num, den, clock, timestamps_ms[0]);
        let head = plan_timestamps(last_slot(clock), plan);
        let tail = submitted(num, den, next, timestamps_ms.drop_first());
        lemma_submitted_increasing(num, den, next, timestamps_ms.drop_first());
        assert(increasing_above(head, last_slot(clock)));
        assert(forall|i: int| 0 <= i < head.len() ==> #[trigger] head[i] <= last_slot(next));
        assert(last_slot(clock) <= last_slot(next));
        let all = head + tail;
        assert forall|i: int, j: int| 0 <= i < j < all.len() implies #[trigger] all[i] < #[trigger] all[j] by {
            if j < head.len() {
            } else if i < head.len() {
                assert(all[j] == tail[j - head.len()]);
            } else {
                assert(all[i] == tail[i - head.len()]);
                assert(all[j] == tail[j - head.len()]);
            }
        }
        assert forall|i: int| 0 <= i < all.len() implies last_slot(clock) < #[trigger] all[i] by {
            if i >= head.len() {
                assert(all[i] == tail[i - head.len()]);
            }
        }
    }
}

/// Frames that arrive exactly one frame slot apart, counted from a running stream's slot
/// `next` on, are emitted in the slots `next, next + 1, ...`: none is dropped and nothing
/// is repeated. The slots must fit a 64-bit timestamp.
pub proof fn lemma_exact_spacing_continues(num: int, den: int, start_time: u64, next: int, timestamps_ms: Seq<u64>)
    requires
        num > 0,
        den > 0,
        1 <= next,
        next + timestamps_ms.len() - 1 <= i64::MAX,
        forall|k: int|
            0 <= k < timestamps_ms.len() ==> (#[trigger] timestamps_ms[k] - start_time) * num == (next
                + k) * (1000 * den),
    ensures
        submitted(
            num,
            den,
            Some(Running { start_time, last_pts: (next - 1) as i64 }),
            timestamps_ms,
        ) == Seq::new(timestamps_ms.len(), |k: int| next + k),
    decreases timestamps_ms.len(),
{
    let clock = Some(Running { start_time, last_pts: (next - 1) as i64 });
    let expected = Seq::new(timestamps_ms.len(), |k: int| next + k);
    if timestamps_ms.len() > 0 {
        let rest = timestamps_ms.drop_first();
        assert((timestamps_ms[0] - start_time) * num == (next + 0) * (1000 * den));
        lemma_slot_exact(num, den, timestamps_ms[0] - start_time, next);
        assert(plan_at(num, den, clock, timestamps_ms[0]) == (FramePlan::Emit {
            duplicates: 0,
            pts: next as i64,
        }));
        assert forall|k: int| 0 <= k < rest.len() implies (#[trigger] rest[k] - start_time) * num
            == (next + 1 + k) * (1000 * den) by {
            assert(rest[k] == timestamps_ms[k + 1]);
        }
        lemma_exact_spacing_continues(num, den, start_time, next + 1, rest);
        let head = plan_timestamps(last_slot(clock), plan_at(num, den, clock, timestamps_ms[0]));
        assert(head =~= seq![next]);
        assert(submitted(num, den, clock, timestamps_ms) =~= expected);
    } else {
        assert(submitted(num, den, clock, timestamps_ms) =~= expected);
    }
}

/// Frames whose capture times are spaced exactly one frame slot (`1000 / fps`
/// milliseconds) apart are emitted in the slots `0, 1, 2, ...`, one each: none is dropped
/// and nothing is repeated. The slots must fit a 64-bit timestamp.
pub proof fn lemma_exact_spacing(num: int, den: int, timestamps_ms: Seq<u64>)
    requires
        num > 0,
        den > 0,
        timestamps_ms.len() - 1 <= i64::MAX,
        forall|k: int|
            0 <= k < timestamps_ms.len() ==> (#[trigger] timestamps_ms[k] - timestamps_ms[0]) * num
                == k * (1000 * den),
    ensures
        submitted(num, den, None, timestamps_ms) == Seq::new(timestamps_ms.len(), |k: int| k),
{
    let expected = Seq::new(timestamps_ms.len(), |k: int| k);
    if timestamps_ms.len() > 0 {
        let rest = timestamps_ms.drop_first();
        let start_time = timestamps_ms[0];
        assert forall|k: int| 0 <= k < rest.len() implies (#[trigger] rest[k] - start_time) * num
            == (1 + k) * (1000 * den) by {
            assert(rest[k] == timestamps_ms[k + 1]);
        }
        lemma_exact_spacing_continues(num, den, start_time, 1, rest);
        let head = plan_timestamps(last_slot(None), plan_at(num, den, None, timestamps_ms[0]));
        assert(head =~= seq![0int]);
        assert(clock_after(num, den, None, timestamps_ms[0]) == Some(
            Running { start_time, last_pts: 0 },
        ));
        assert(submitted(num, den, None, timestamps_ms) =~= expected);
    } else {
        assert(submitted(num, den, None, timestamps_ms) =~= expected);
    }
}

} // verus!
