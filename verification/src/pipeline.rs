//! Pipeline plans: ordered lists of dispatch, barrier and draw stages, with
//! the synchronization protocol stated and proved — no stage may read a slot
//! whose most recent write has not been followed by a memory barrier, and
//! the plans built here satisfy that by construction because every dispatch
//! is immediately followed by a barrier.

use vstd::prelude::*;

verus! {

/// One stage of a pipeline plan: dispatch a compute kernel over a grid,
/// insert a full memory barrier, or draw the full-screen quad sampling
/// image slots. `reads` and `writes` are the binding slots the stage's
/// kernel reads and writes.
#[derive(Debug)]
pub enum Stage {
    Dispatch { program: u32, grid: (u32, u32, u32), reads: Vec<u32>, writes: Vec<u32> },
    Barrier,
    Draw { program: u32, reads: Vec<u32> },
}

/// Slots a stage reads. A barrier touches no image.
pub open spec fn stage_reads(s: Stage) -> Seq<u32> {
    match s {
        Stage::Dispatch { reads, .. } => reads@,
        Stage::Barrier => Seq::<u32>::empty(),
        Stage::Draw { reads, .. } => reads@,
    }
}

/// Slots a stage writes. Only a dispatch writes; the draw pass samples.
pub open spec fn stage_writes(s: Stage) -> Seq<u32> {
    match s {
        Stage::Dispatch { writes, .. } => writes@,
        Stage::Barrier => Seq::<u32>::empty(),
        Stage::Draw { .. } => Seq::<u32>::empty(),
    }
}

/// Two slot lists share an element.
pub open spec fn overlaps(a: Seq<u32>, b: Seq<u32>) -> bool {
    exists|i: int, j: int| 0 <= i < a.len() && 0 <= j < b.len() && a[i] == b[j]
}

/// A barrier stands strictly between positions `j` and `i`.
pub open spec fn barrier_between(stages: Seq<Stage>, j: int, i: int) -> bool {
    exists|k: int| j < k < i && (#[trigger] stages[k]) is Barrier
}

/// The synchronization protocol: every stage that reads a slot written by
/// an earlier stage sees a barrier in between, so it observes a consistent
/// view of the shared images.
pub open spec fn protocol_ok(stages: Seq<Stage>) -> bool {
    forall|j: int, i: int|
        0 <= j < i < stages.len() && #[trigger] overlaps(
            stage_writes(stages[j]),
            stage_reads(stages[i]),
        ) ==> barrier_between(stages, j, i)
}

/// A dispatch never targets one slot in both its read and its write role:
/// the double-buffered field rule.
pub open spec fn stage_self_ok(s: Stage) -> bool {
    s is Dispatch ==> !overlaps(stage_reads(s), stage_writes(s))
}

/// Every dispatch in the plan obeys the double-buffered field rule.
pub open spec fn stages_self_ok(stages: Seq<Stage>) -> bool {
    forall|i: int| 0 <= i < stages.len() ==> stage_self_ok(#[trigger] stages[i])
}

/// Every dispatch is immediately followed by a full barrier. The plans
/// built here have this shape, and it implies the protocol.
pub open spec fn dispatch_barriered(stages: Seq<Stage>) -> bool {
    forall|i: int|
        0 <= i < stages.len() && (#[trigger] stages[i]) is Dispatch ==> i + 1 < stages.len()
            && stages[i + 1] is Barrier
}

/// Number of dispatch stages in a plan.
pub open spec fn count_dispatches(stages: Seq<Stage>) -> int
    decreases stages.len(),
{
    if stages.len() == 0 {
        0
    } else {
        count_dispatches(stages.drop_last()) + if stages.last() is Dispatch {
            1int
        } else {
            0int
        }
    }
}

/// A plan in which every dispatch is immediately followed by a barrier
/// satisfies the synchronization protocol: only dispatches write, and a
/// reading stage is never the barrier itself, so the barrier right after
/// the writing dispatch stands strictly between writer and reader.
pub proof fn lemma_barriered_implies_protocol(stages: Seq<Stage>)
    requires
        dispatch_barriered(stages),
    ensures
        protocol_ok(stages),
{
    assert forall|j: int, i: int|
        0 <= j < i < stages.len() && #[trigger] overlaps(
            stage_writes(stages[j]),
            stage_reads(stages[i]),
        ) implies barrier_between(stages, j, i) by {
        assert(stage_writes(stages[j]).len() > 0);
        assert(stages[j] is Dispatch) by {
            match stages[j] {
                Stage::Dispatch { .. } => {},
                Stage::Barrier => {
                    assert(stage_writes(stages[j]) =~= Seq::<u32>::empty());
                },
                Stage::Draw { .. } => {
                    assert(stage_writes(stages[j]) =~= Seq::<u32>::empty());
                },
            }
        }
        assert(j + 1 < stages.len() && stages[j + 1] is Barrier);
        assert(stage_reads(stages[i]).len() > 0);
        assert(!(stages[i] is Barrier)) by {
            if stages[i] is Barrier {
                assert(stage_reads(stages[i]) =~= Seq::<u32>::empty());
            }
        }
        assert(i != j + 1);
        assert(j < j + 1 < i && stages[j + 1] is Barrier);
    }
}

/// Concatenating two plans that each barrier their dispatches yields one
/// that does too: an init plan followed by any number of frame plans keeps
/// the protocol.
pub proof fn lemma_dispatch_barriered_concat(a: Seq<Stage>, b: Seq<Stage>)
    requires
        dispatch_barriered(a),
        dispatch_barriered(b),
    ensures
        dispatch_barriered(a + b),
{
    assert forall|i: int|
        0 <= i < (a + b).len() && (#[trigger] (a + b)[i]) is Dispatch implies i + 1 < (a + b).len()
        && (a + b)[i + 1] is Barrier by {
        if i < a.len() {
            assert((a + b)[i] == a[i]);
            assert(i + 1 < a.len());
            assert((a + b)[i + 1] == a[i + 1]);
        } else {
            assert((a + b)[i] == b[i - a.len()]);
            assert((a + b)[i + 1] == b[i + 1 - a.len()]);
        }
    }
}

/// A whole session keeps the protocol: the one-time init plan followed by
/// any number of per-frame plans, each of which barriers its dispatches,
/// forms one command stream in which no stage reads a slot whose most
/// recent write has not been followed by a barrier.
pub proof fn lemma_session_protocol(plans: Seq<Seq<Stage>>)
    requires
        forall|i: int| 0 <= i < plans.len() ==> dispatch_barriered(#[trigger] plans[i]),
    ensures
        dispatch_barriered(plans.flatten()),
        protocol_ok(plans.flatten()),
    decreases plans.len(),
{
    if plans.len() == 0 {
        assert(plans.flatten() =~= Seq::<Stage>::empty());
    } else {
        assert forall|i: int|
            0 <= i < plans.drop_first().len() implies dispatch_barriered(
            #[trigger] plans.drop_first()[i],
        ) by {
            assert(plans.drop_first()[i] == plans[i + 1]);
        }
        assert(plans.first() == plans[0]);
        lemma_session_protocol(plans.drop_first());
        lemma_dispatch_barriered_concat(plans.first(), plans.drop_first().flatten());
    }
    lemma_barriered_implies_protocol(plans.flatten());
}

/// The initialization plan, run exactly once before the frame loop: one
/// dispatch of the init kernel over the grid, writing every field slot and
/// reading none, immediately followed by a full barrier so the first frame
/// observes the established starting state.
pub fn init_stages(program: u32, grid: (u32, u32, u32), writes: Vec<u32>) -> (stages: Vec<Stage>)
    ensures
        stages@.len() == 2,
        (stages@[0] matches Stage::Dispatch { program: p, grid: g, reads: r, writes: w }
            && p == program && g == grid && r@ =~= Seq::<u32>::empty() && w@ == writes@),
        stages@[1] is Barrier,
        dispatch_barriered(stages@),
        stages_self_ok(stages@),
        protocol_ok(stages@),
        count_dispatches(stages@) == 1,
{
    let reads: Vec<u32> = Vec::new();
    let mut stages: Vec<Stage> = Vec::new();
    stages.push(Stage::Dispatch { program, grid, reads, writes });
    stages.push(Stage::Barrier);
    proof {
        let s = stages@;
        let a = s.drop_last();
        assert(a.drop_last() =~= Seq::<Stage>::empty());
        assert(count_dispatches(a.drop_last()) == 0);
        assert(a.last() == s[0]);
        assert(count_dispatches(a) == 1);
        assert(s.last() == s[1]);
        assert(count_dispatches(s) == 1);
        lemma_barriered_implies_protocol(s);
    }
    stages
}

/// The per-frame plan: when `step` is set, exactly one step dispatch
/// followed by a barrier — never more, however many step requests arrived
/// this frame — and always the draw pass, which samples the display image.
/// The step dispatch must not read and write a common slot (double-buffered
/// fields keep the two roles apart).
pub fn frame_stages(
    step: bool,
    step_program: u32,
    grid: (u32, u32, u32),
    step_reads: Vec<u32>,
    step_writes: Vec<u32>,
    draw_program: u32,
    draw_reads: Vec<u32>,
) -> (stages: Vec<Stage>)
    requires
        !overlaps(step_reads@, step_writes@),
    ensures
        step ==> stages@.len() == 3 && (stages@[0] matches Stage::Dispatch {
            program: p,
            grid: g,
            reads: r,
            writes: w,
        } && p == step_program && g == grid && r@ == step_reads@ && w@ == step_writes@)
            && stages@[1] is Barrier && (stages@[2] matches Stage::Draw { program: dp, reads: dr }
            && dp == draw_program && dr@ == draw_reads@),
        !step ==> stages@.len() == 1 && (stages@[0] matches Stage::Draw { program: dp, reads: dr }
            && dp == draw_program && dr@ == draw_reads@),
        dispatch_barriered(stages@),
        stages_self_ok(stages@),
        protocol_ok(stages@),
        count_dispatches(stages@) == if step {
            1int
        } else {
            0int
        },
        !step ==> forall|i: int|
            0 <= i < stages@.len() ==> stage_writes(#[trigger] stages@[i]).len() == 0,
{
    let mut stages: Vec<Stage> = Vec::new();
    if step {
        stages.push(
            Stage::Dispatch { program: step_program, grid, reads: step_reads, writes: step_writes },
        );
        stages.push(Stage::Barrier);
    }
    stages.push(Stage::Draw { program: draw_program, reads: draw_reads });
    proof {
        let s = stages@;
        if step {
            let a = s.drop_last();
            let b = a.drop_last();
            assert(b.drop_last() =~= Seq::<Stage>::empty());
            assert(count_dispatches(b.drop_last()) == 0);
            assert(b.last() == s[0]);
            assert(count_dispatches(b) == 1);
            assert(a.last() == s[1]);
            assert(count_dispatches(a) == 1);
            assert(s.last() == s[2]);
            assert(count_dispatches(s) == 1);
        } else {
            assert(s.drop_last() =~= Seq::<Stage>::empty());
            assert(count_dispatches(s.drop_last()) == 0);
            assert(s.last() == s[0]);
            assert(count_dispatches(s) == 0);
        }
        lemma_barriered_implies_protocol(s);
    }
    stages
}

/// A device error code reported outside start-up: any non-zero code is a
/// fatal runtime dispatch error.
#[derive(Clone, Copy, PartialEq, Eq, Structural, Debug)]
pub enum RuntimeError {
    Dispatch { code: u32 },
}

/// Decide the outcome of a device call from its reported error code:
/// success exactly on code zero, and a fatal `Dispatch` error carrying the
/// code otherwise. Nothing is retried or locally recovered.
pub fn dispatch_status(code: u32) -> (r: Result<(), RuntimeError>)
    ensures
        code == 0 ==> r == Ok::<(), RuntimeError>(()),
        code != 0 ==> r == Err::<(), RuntimeError>((RuntimeError::Dispatch { code })),
{
    if code == 0 {
        Ok(())
    } else {
        Err(RuntimeError::Dispatch { code })
    }
}

} // verus!
