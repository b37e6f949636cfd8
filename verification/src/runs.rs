//! Whole runs of a video session in which the codec accepts every frame and the container
//! every packet: what is submitted is exactly what the pacing rule plans.

use vstd::prelude::*;
use crate::frame::FrameView;
use crate::pacing::clock_after;
use crate::pacing::last_slot;
use crate::pacing::lemma_exact_spacing;
use crate::pacing::plan_at;
use crate::pacing::plan_timestamps;
use crate::pacing::submitted;
use crate::pacing::FramePlan;
use crate::pacing::Running;
use crate::pipeline::DrainStage;
use crate::video::submission;
use crate::video::Input;
use crate::video::SessionView;
use crate::video::Stage;

verus! {

/// The reports of a drain in which the codec hands out `packets` packets and each is
/// written: a packet received and a packet written, that many times, and then no packet.
pub open spec fn drained(packets: nat) -> Seq<Input>
    decreases packets,
{
    if packets == 0 {
        seq![Input::Outcome(false)]
    } else {
        seq![Input::Outcome(true), Input::Outcome(true)] + drained((packets - 1) as nat)
    }
}

/// The reports of `submissions` submissions that the codec accepts, each followed by a
/// drain of `packets` packets.
pub open spec fn accepted(submissions: nat, packets: nat) -> Seq<Input>
    decreases submissions,
{
    if submissions == 0 {
        Seq::empty()
    } else {
        seq![Input::Outcome(true)] + drained(packets) + accepted((submissions - 1) as nat, packets)
    }
}

/// What happens to a session when the frames arrive at the given times, one call after
/// the other, the codec accepts every submission, and `packets` packets are drained after
/// each: every frame is handed over and followed by the reports of its submissions.
pub open spec fn steady_inputs(
    num: int,
    den: int,
    clock: Option<Running>,
    frames: Seq<FrameView>,
    timestamps_ms: Seq<u64>,
    packets: nat,
) -> Seq<Input>
    decreases frames.len(),
{
    if frames.len() == 0 || timestamps_ms.len() == 0 {
        Seq::empty()
    } else {
        let plan = plan_at(num, den, clock, timestamps_ms[0]);
        seq![Input::Frame { frame: frames[0], timestamp_ms: timestamps_ms[0] }] + accepted(
            plan_timestamps(last_slot(clock), plan).len(),
            packets,
        ) + steady_inputs(
            num,
            den,
            clock_after(num, den, clock, timestamps_ms[0]),
            frames.drop_first(),
            timestamps_ms.drop_first(),
            packets,
        )
    }
}

/// What a session does under inputs that come one run after the other is what it does
/// under the first run and then, from where that left it, under the second.
pub proof fn lemma_runs_compose(s: SessionView, first: Seq<Input>, second: Seq<Input>)
    ensures
        s.after(first + second) == s.after(first).after(second),
        s.submissions(first + second) == s.submissions(first) + s.after(first).submissions(second),
    decreases first.len(),
{
    if first.len() == 0 {
        assert(first + second =~= second);
        assert(s.submissions(first) + s.submissions(second) =~= s.submissions(second));
    } else {
        let next = s.react(first[0]).0;
        assert((first + second)[0] == first[0]);
        assert((first + second).drop_first() =~= first.drop_first() + second);
        lemma_runs_compose(next, first.drop_first(), second);
        assert(s.submissions(first + second) =~= s.submissions(first) + s.after(
            first,
        ).submissions(second));
    }
}

/// Under a single input a session reacts once.
pub proof fn lemma_single_input(s: SessionView, input: Input)
    ensures
        s.after(seq![input]) == s.react(input).0,
        s.submissions(seq![input]) == submission(s.react(input).1),
{
    let one = seq![input];
    assert(one.drop_first() =~= Seq::<Input>::empty());
    let next = s.react(input).0;
    assert(next.after(one.drop_first()) == next);
    assert(next.submissions(one.drop_first()) =~= Seq::<int>::empty());
    assert(s.submissions(one) =~= submission(s.react(input).1));
}

/// A packet received and written leaves a draining session where it was, and nothing is
/// submitted meanwhile.
proof fn lemma_packet_written(s: SessionView)
    requires
        s.stage == Stage::DrainingFrame(DrainStage::Receiving) || s.stage
            == Stage::DrainingDuplicate(DrainStage::Receiving),
    ensures
        s.after(seq![Input::Outcome(true), Input::Outcome(true)]) == s,
        s.submissions(seq![Input::Outcome(true), Input::Outcome(true)]).len() == 0,
{
    let ok = Input::Outcome(true);
    assert(seq![ok, ok] =~= seq![ok] + seq![ok]);
    lemma_runs_compose(s, seq![ok], seq![ok]);
    lemma_single_input(s, ok);
    lemma_single_input(s.react(ok).0, ok);
    assert(s.react(ok).0.react(ok).0 =~= s);
}

/// The drain behind the new frame ends the call: the session is idle again and nothing
/// was submitted.
proof fn lemma_drained_after_frame(s: SessionView, packets: nat)
    requires
        s.stage == Stage::DrainingFrame(DrainStage::Receiving),
    ensures
        s.after(drained(packets)) == (SessionView { stage: Stage::Idle, ..s }),
        s.submissions(drained(packets)).len() == 0,
    decreases packets,
{
    if packets == 0 {
        lemma_single_input(s, Input::Outcome(false));
    } else {
        let pair = seq![Input::Outcome(true), Input::Outcome(true)];
        lemma_packet_written(s);
        lemma_runs_compose(s, pair, drained((packets - 1) as nat));
        lemma_drained_after_frame(s, (packets - 1) as nat);
    }
}

/// The drain behind a repeat ends with the next submission: of the next repeat if one is
/// left, else of the new frame.
proof fn lemma_drained_after_duplicate(s: SessionView, packets: nat)
    requires
        s.stage == Stage::DrainingDuplicate(DrainStage::Receiving),
    ensures
        s.after(drained(packets)) == s.after_duplicate(true).0,
        s.submissions(drained(packets)) == submission(Some(s.after_duplicate(true).1)),
    decreases packets,
{
    if packets == 0 {
        lemma_single_input(s, Input::Outcome(false));
    } else {
        let pair = seq![Input::Outcome(true), Input::Outcome(true)];
        lemma_packet_written(s);
        lemma_runs_compose(s, pair, drained((packets - 1) as nat));
        lemma_drained_after_duplicate(s, (packets - 1) as nat);
        assert(s.submissions(pair) + s.submissions(drained((packets - 1) as nat)) =~= s.submissions(
            drained((packets - 1) as nat),
        ));
    }
}

/// A new frame that the codec accepts is followed by its drain, and the call is done:
/// the session is idle and nothing more was submitted.
proof fn lemma_frame_accepted(s: SessionView, packets: nat)
    requires
        s.stage == Stage::SubmittingFrame,
    ensures
        s.after(accepted(1, packets)) == (SessionView { stage: Stage::Idle, ..s }),
        s.submissions(accepted(1, packets)).len() == 0,
{
    let ok = seq![Input::Outcome(true)];
    let next = s.react(Input::Outcome(true)).0;
    assert(accepted(0, packets) =~= Seq::<Input>::empty());
    assert(accepted(1, packets) =~= ok + drained(packets));
    lemma_single_input(s, Input::Outcome(true));
    lemma_runs_compose(s, ok, drained(packets));
    lemma_drained_after_frame(next, packets);
    assert(s.after(accepted(1, packets)) =~= (SessionView { stage: Stage::Idle, ..s }));
}

/// While a repeat is out for submission and `left` more are to come, accepted submissions
/// run through the repeats in the slots after the one under way and end with the new frame
/// in its own slot; then the session is idle and retains the new frame.
proof fn lemma_repeats_accepted(s: SessionView, packets: nat)
    requires
        s.wf(),
        s.stage == Stage::SubmittingDuplicate,
    ensures
        s.after(accepted((s.duplicates_left + 2) as nat, packets)) == (SessionView {
            stage: Stage::Idle,
            ..s.promoted()
        }),
        s.submissions(accepted((s.duplicates_left + 2) as nat, packets)) == Seq::new(
            s.duplicates_left as nat,
            |i: int| s.retained_pts() + 1 + i,
        ).push(s.clock->0.last_pts as int),
    decreases s.duplicates_left,
{
    let count = (s.duplicates_left + 2) as nat;
    let ok = seq![Input::Outcome(true)];
    let draining = s.react(Input::Outcome(true)).0;
    let next = draining.after_duplicate(true).0;
    let rest = accepted((count - 1) as nat, packets);
    let expected = Seq::new(s.duplicates_left as nat, |i: int| s.retained_pts() + 1 + i).push(
        s.clock->0.last_pts as int,
    );
    assert(accepted(count, packets) =~= (ok + drained(packets)) + rest);
    lemma_single_input(s, Input::Outcome(true));
    lemma_runs_compose(s, ok, drained(packets));
    lemma_drained_after_duplicate(draining, packets);
    lemma_runs_compose(s, ok + drained(packets), rest);
    assert(s.after(ok + drained(packets)) == next);
    let head = s.submissions(ok + drained(packets));
    assert(head =~= submission(Some(draining.after_duplicate(true).1)));
    if s.duplicates_left > 0 {
        assert(next == s.repeated());
        assert(next.wf());
        lemma_repeats_accepted(next, packets);
        assert(next.promoted() =~= s.promoted());
        assert(head + next.submissions(rest) =~= expected);
    } else {
        assert(next == s.promoted());
        lemma_frame_accepted(next, packets);
        assert(head + next.submissions(rest) =~= expected);
    }
}

/// One call that the codec accepts in full submits exactly what the pacing rule plans
/// for the frame: nothing for a frame that is dropped, else the repeats in the slots after
/// the last emitted one and the frame in its own. Afterward the session is idle, its clock
/// has moved as the rule says, and a frame that was emitted is the retained one.
pub proof fn lemma_steady_call(s: SessionView, frame: FrameView, timestamp_ms: u64, packets: nat)
    requires
        s.wf(),
        s.stage == Stage::Idle,
    ensures
        ({
            let num = s.settings.frame_rate.num();
            let den = s.settings.frame_rate.den();
            let plan = plan_at(num, den, s.clock, timestamp_ms);
            let planned = plan_timestamps(last_slot(s.clock), plan);
            let inputs = seq![Input::Frame { frame, timestamp_ms }] + accepted(
                planned.len(),
                packets,
            );
            &&& s.submissions(inputs) == planned
            &&& s.after(inputs).wf()
            &&& s.after(inputs).stage == Stage::Idle
            &&& s.after(inputs).settings == s.settings
            &&& s.after(inputs).clock == clock_after(num, den, s.clock, timestamp_ms)
            &&& plan matches FramePlan::Emit { pts, .. } ==> s.after(inputs).retained == Some(
                frame.stamped(pts),
            )
            &&& plan is Drop ==> s.after(inputs) == s
        }),
{
    let num = s.settings.frame_rate.num();
    let den = s.settings.frame_rate.den();
    let plan = plan_at(num, den, s.clock, timestamp_ms);
    let planned = plan_timestamps(last_slot(s.clock), plan);
    let arrival = Input::Frame { frame, timestamp_ms };
    let reports = accepted(planned.len(), packets);
    let begun = s.react(arrival).0;
    lemma_single_input(s, arrival);
    lemma_runs_compose(s, seq![arrival], reports);
    match plan {
        FramePlan::Drop => {
            assert(reports =~= Seq::<Input>::empty());
            assert(s.submissions(seq![arrival] + reports) =~= planned);
        },
        FramePlan::Emit { duplicates, pts } => {
            if duplicates == 0 {
                lemma_frame_accepted(begun, packets);
                assert(s.submissions(seq![arrival] + reports) =~= planned);
            } else {
                assert(begun.wf());
                lemma_repeats_accepted(begun, packets);
                assert(s.submissions(seq![arrival] + reports) =~= planned);
            }
        },
    }
}

/// Over any number of calls that the codec accepts in full, a session submits exactly the
/// timestamps that the pacing rule gives for the capture times of the frames.
pub proof fn lemma_steady_session(s: SessionView, frames: Seq<FrameView>, timestamps_ms: Seq<u64>, packets: nat)
    requires
        s.wf(),
        s.stage == Stage::Idle,
        frames.len() == timestamps_ms.len(),
    ensures
        s.submissions(
            steady_inputs(
                s.settings.frame_rate.num(),
                s.settings.frame_rate.den(),
                s.clock,
                frames,
                timestamps_ms,
                packets,
            ),
        ) == submitted(
            s.settings.frame_rate.num(),
            s.settings.frame_rate.den(),
            s.clock,
            timestamps_ms,
        ),
    decreases frames.len(),
{
    let num = s.settings.frame_rate.num();
    let den = s.settings.frame_rate.den();
    if frames.len() > 0 {
        let plan = plan_at(num, den, s.clock, timestamps_ms[0]);
        let planned = plan_timestamps(last_slot(s.clock), plan);
        let call = seq![Input::Frame { frame: frames[0], timestamp_ms: timestamps_ms[0] }]
            + accepted(planned.len(), packets);
        let later = steady_inputs(
            num,
            den,
            clock_after(num, den, s.clock, timestamps_ms[0]),
            frames.drop_first(),
            timestamps_ms.drop_first(),
            packets,
        );
        lemma_steady_call(s, frames[0], timestamps_ms[0], packets);
        lemma_runs_compose(s, call, later);
        lemma_steady_session(s.after(call), frames.drop_first(), timestamps_ms.drop_first(), packets);
    }
}

/// A session whose frames are captured exactly one frame slot (`1000 / fps` milliseconds)
/// apart, and whose codec accepts them all, submits each frame once, in the slots
/// `0, 1, 2, ...`: nothing is dropped and nothing is repeated. The slots must fit a 64-bit
/// timestamp.
pub proof fn lemma_exactly_spaced_session(s: SessionView, frames: Seq<FrameView>, timestamps_ms: Seq<u64>, packets: nat)
    requires
        s.wf(),
        s.stage == Stage::Idle,
        s.clock is None,
        frames.len() == timestamps_ms.len(),
        timestamps_ms.len() - 1 <= i64::MAX,
        forall|k: int|
            0 <= k < timestamps_ms.len() ==> (#[trigger] timestamps_ms[k] - timestamps_ms[0])
                * s.settings.frame_rate.num() == k * (1000 * s.settings.frame_rate.den()),
    ensures
        s.submissions(
            steady_inputs(
                s.settings.frame_rate.num(),
                s.settings.frame_rate.den(),
                None,
                frames,
                timestamps_ms,
                packets,
            ),
        ) == Seq::new(timestamps_ms.len(), |k: int| k),
{
    lemma_steady_session(s, frames, timestamps_ms, packets);
    lemma_exact_spacing(s.settings.frame_rate.num(), s.settings.frame_rate.den(), timestamps_ms);
}

} // verus!
