//! Kernel program construction: turning the device's compile and link
//! reports into either a fully usable program or an error that carries the
//! diagnostic log verbatim. A program is never partially usable: it exists
//! only when every stage compiled and the link succeeded.

use vstd::prelude::*;
use vstd::string::StrSliceExecFns;
use vstd::string::StringExecFns;

verus! {

/// The kinds of shader stage a program is made of: one compute stage, or a
/// vertex and fragment pair for the draw pass.
#[derive(Clone, Copy, PartialEq, Eq, Structural, Debug)]
pub enum StageKind {
    Compute,
    Vertex,
    Fragment,
}

/// A stage the device accepted: its kind and the device handle.
#[derive(Clone, Copy, PartialEq, Eq, Structural, Debug)]
pub struct CompiledStage {
    pub kind: StageKind,
    pub handle: u32,
}

/// A fully linked, executable program: the device handle and the kinds of
/// the stages it was linked from.
#[derive(PartialEq, Eq, Debug)]
pub struct KernelProgram {
    pub handle: u32,
    pub stage_kinds: Vec<StageKind>,
}

/// Errors of the kernel layer, always carrying the device's diagnostic
/// text: it is surfaced verbatim, never swallowed.
#[derive(PartialEq, Eq, Debug)]
pub enum KernelError {
    Compile { log: String },
    Link { log: String },
}

/// The diagnostic that reaches the caller: the device's log verbatim when
/// it produced one, and a fixed non-empty notice when it stayed silent, so
/// a failure never comes without text.
pub open spec fn surfaced_log(device_log: Seq<char>, silent_notice: Seq<char>) -> Seq<char> {
    if device_log.len() > 0 {
        device_log
    } else {
        silent_notice
    }
}

/// Pick the surfaced diagnostic for a failure report.
fn surface_log(device_log: String, silent_notice: &str) -> (log: String)
    requires
        silent_notice@.len() > 0,
    ensures
        log@ == surfaced_log(device_log@, silent_notice@),
        log@.len() > 0,
{
    if device_log.as_str().unicode_len() > 0 {
        device_log
    } else {
        String::from_str(silent_notice)
    }
}

/// Decide the outcome of one stage compilation from the device's report:
/// `accepted` is its compile status, `log` its diagnostic text. An accepted
/// stage becomes a `CompiledStage`; a rejected one always becomes a
/// `Compile` error with non-empty diagnostic text, the device's own
/// whenever it produced any.
pub fn stage_compile_outcome(kind: StageKind, handle: u32, accepted: bool, log: String) -> (r:
    Result<CompiledStage, KernelError>)
    ensures
        accepted ==> r == Ok::<CompiledStage, KernelError>((CompiledStage { kind, handle })),
        !accepted ==> (r matches Err(e) && e matches KernelError::Compile { log: l } && l@
            == surfaced_log(log@, "stage rejected without a diagnostic"@) && l@.len() > 0),
    {
    if accepted {
        Ok(CompiledStage { kind, handle })
    } else {
        proof {
            reveal_strlit("stage rejected without a diagnostic");
        }
        let l = surface_log(log, "stage rejected without a diagnostic");
        Err(KernelError::Compile { log: l })
    }
}

/// The stage combinations a program may be linked from: a single compute
/// stage, or a vertex stage followed by a fragment stage.
pub open spec fn stages_shape_ok(kinds: Seq<StageKind>) -> bool {
    ||| (kinds.len() == 1 && kinds[0] is Compute)
    ||| (kinds.len() == 2 && kinds[0] is Vertex && kinds[1] is Fragment)
}

/// The kinds of a stage list.
pub open spec fn kinds_of(stages: Seq<CompiledStage>) -> Seq<StageKind> {
    stages.map_values(|s: CompiledStage| s.kind)
}

/// Whether this stage list may be linked into a program.
pub fn check_stages_shape(stages: &Vec<CompiledStage>) -> (b: bool)
    ensures
        b == stages_shape_ok(kinds_of(stages@)),
{
    if stages.len() == 1 {
        matches!(stages[0].kind, StageKind::Compute)
    } else if stages.len() == 2 {
        matches!(stages[0].kind, StageKind::Vertex) && matches!(
            stages[1].kind,
            StageKind::Fragment,
        )
    } else {
        false
    }
}

/// Decide the outcome of linking compiled stages into a program:
/// `accepted` is the device's link-and-validate status, `log` its
/// diagnostic. The result is a usable `KernelProgram` exactly when the
/// stage combination is supported and the device accepted the link; every
/// failure is a `Link` error with non-empty diagnostic text, the device's
/// own whenever it produced any.
pub fn link_outcome(stages: &Vec<CompiledStage>, handle: u32, accepted: bool, log: String) -> (r:
    Result<KernelProgram, KernelError>)
    ensures
        (accepted && stages_shape_ok(kinds_of(stages@))) ==> (r matches Ok(p) && p.handle == handle
            && p.stage_kinds@ == kinds_of(stages@)),
        !(accepted && stages_shape_ok(kinds_of(stages@))) ==> (r matches Err(e) && e matches
            KernelError::Link { log: l } && l@ == surfaced_log(
            log@,
            "program rejected without a diagnostic"@,
        ) && l@.len() > 0),
    {
    if accepted && check_stages_shape(stages) {
        let mut kinds: Vec<StageKind> = Vec::new();
        let mut i: usize = 0;
        while i < stages.len()
            invariant
                i <= stages@.len(),
                kinds@ =~= kinds_of(stages@.take(i as int)),
            decreases stages@.len() - i,
        {
            kinds.push(stages[i].kind);
            proof {
                assert(stages@.take(i + 1).drop_last() =~= stages@.take(i as int));
                assert(kinds@ =~= kinds_of(stages@.take(i + 1)));
            }
            i = i + 1;
        }
        proof {
            assert(stages@.take(stages@.len() as int) =~= stages@);
        }
        Ok(KernelProgram { handle, stage_kinds: kinds })
    } else {
        proof {
            reveal_strlit("program rejected without a diagnostic");
        }
        let l = surface_log(log, "program rejected without a diagnostic");
        Err(KernelError::Link { log: l })
    }
}

/// A resolved named parameter of a program: a non-negative device location.
#[derive(Clone, Copy, PartialEq, Eq, Structural, Debug)]
pub struct ParameterHandle {
    pub location: i32,
}

/// Decide the outcome of resolving a named parameter from the location the
/// device reported: a negative location means the name was not found, which
/// is fatal at start-up since this system has no live re-binding and no
/// runtime fallback path.
pub fn parameter_outcome(location: i32) -> (r: Option<ParameterHandle>)
    ensures
        location >= 0 ==> r == Some((ParameterHandle { location })),
        location < 0 ==> r is None,
{
    if location >= 0 {
        Some(ParameterHandle { location })
    } else {
        None
    }
}

} // verus!
