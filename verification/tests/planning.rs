use lbm_core::dispatch::dispatch_grid;
use lbm_core::kernel::link_outcome;
use lbm_core::kernel::parameter_outcome;
use lbm_core::kernel::stage_compile_outcome;
use lbm_core::kernel::KernelError;
use lbm_core::kernel::ParameterHandle;
use lbm_core::kernel::StageKind;
use lbm_core::orchestrator::frame_plan;
use lbm_core::orchestrator::init_plan;
use lbm_core::pipeline::dispatch_status;
use lbm_core::pipeline::RuntimeError;
use lbm_core::pipeline::Stage;
use lbm_core::frame::FrameDecision;

#[test]
fn grid_is_ceiling_division() {
    assert_eq!(dispatch_grid(640, 400, 8, 8), (80, 50, 1));
    // 645 is not a multiple of 8: the grid rounds up and the kernel is
    // responsible for ignoring invocations beyond the true extent.
    assert_eq!(dispatch_grid(645, 400, 8, 8), (81, 50, 1));
    assert_eq!(dispatch_grid(1, 1, 8, 8), (1, 1, 1));
    assert_eq!(dispatch_grid(0, 400, 8, 8), (0, 50, 1));
    assert_eq!(dispatch_grid(1280, 640, 8, 8), (160, 80, 1));
}

#[test]
fn rejected_stage_surfaces_diagnostic_verbatim() {
    let r = stage_compile_outcome(
        StageKind::Compute,
        7,
        false,
        String::from("0:1: syntax error, unexpected token"),
    );
    match r {
        Err(KernelError::Compile { log }) => {
            assert_eq!(log, "0:1: syntax error, unexpected token");
            assert!(!log.is_empty());
        }
        _ => panic!("a rejected stage must be a compile error"),
    }
}

#[test]
fn rejected_stage_without_log_still_has_text() {
    let r = stage_compile_outcome(StageKind::Compute, 7, false, String::new());
    match r {
        Err(KernelError::Compile { log }) => assert!(!log.is_empty()),
        _ => panic!("a rejected stage must be a compile error"),
    }
}

#[test]
fn accepted_stage_becomes_compiled_stage() {
    let s = stage_compile_outcome(StageKind::Vertex, 11, true, String::new()).unwrap();
    assert_eq!(s.kind, StageKind::Vertex);
    assert_eq!(s.handle, 11);
}

#[test]
fn link_of_compute_stage_succeeds() {
    let s = stage_compile_outcome(StageKind::Compute, 3, true, String::new()).unwrap();
    let p = link_outcome(&vec![s], 21, true, String::new()).unwrap();
    assert_eq!(p.handle, 21);
    assert_eq!(p.stage_kinds, vec![StageKind::Compute]);
}

#[test]
fn link_of_vertex_fragment_pair_succeeds() {
    let v = stage_compile_outcome(StageKind::Vertex, 4, true, String::new()).unwrap();
    let f = stage_compile_outcome(StageKind::Fragment, 5, true, String::new()).unwrap();
    let p = link_outcome(&vec![v, f], 22, true, String::new()).unwrap();
    assert_eq!(p.stage_kinds, vec![StageKind::Vertex, StageKind::Fragment]);
}

#[test]
fn rejected_link_surfaces_diagnostic_verbatim() {
    let s = stage_compile_outcome(StageKind::Compute, 3, true, String::new()).unwrap();
    let r = link_outcome(&vec![s], 21, false, String::from("validation failed"));
    match r {
        Err(KernelError::Link { log }) => {
            assert_eq!(log, "validation failed");
            assert!(!log.is_empty());
        }
        _ => panic!("a rejected link must be a link error"),
    }
}

#[test]
fn unsupported_stage_combination_never_links() {
    let v = stage_compile_outcome(StageKind::Vertex, 4, true, String::new()).unwrap();
    // A lone vertex stage is not a usable program even if the device
    // reported success.
    let r = link_outcome(&vec![v], 23, true, String::new());
    match r {
        Err(KernelError::Link { log }) => assert!(!log.is_empty()),
        _ => panic!("an unsupported combination must not yield a program"),
    }
}

#[test]
fn parameter_resolution_is_fatal_on_negative_location() {
    assert_eq!(parameter_outcome(0), Some(ParameterHandle { location: 0 }));
    assert_eq!(parameter_outcome(3), Some(ParameterHandle { location: 3 }));
    assert_eq!(parameter_outcome(-1), None);
}

#[test]
fn nonzero_device_code_is_fatal() {
    assert_eq!(dispatch_status(0), Ok(()));
    assert_eq!(
        dispatch_status(0x0502),
        Err(RuntimeError::Dispatch { code: 0x0502 })
    );
}

fn count_dispatches(stages: &[Stage]) -> usize {
    stages
        .iter()
        .filter(|s| matches!(s, Stage::Dispatch { .. }))
        .count()
}

#[test]
fn init_plan_is_one_dispatch_then_barrier() {
    let stages = init_plan(9, 640, 400);
    assert_eq!(stages.len(), 2);
    match &stages[0] {
        Stage::Dispatch { program, grid, reads, writes } => {
            assert_eq!(*program, 9);
            assert_eq!(*grid, (80, 50, 1));
            assert!(reads.is_empty());
            assert_eq!(writes, &vec![0, 1, 2, 3, 4, 5]);
        }
        _ => panic!("the init plan must start with a dispatch"),
    }
    assert!(matches!(stages[1], Stage::Barrier));
}

#[test]
fn stepping_frame_runs_exactly_one_step_dispatch() {
    let d = FrameDecision { quit: false, step: true };
    let stages = frame_plan(d, 10, 11, 640, 400);
    assert_eq!(stages.len(), 3);
    assert_eq!(count_dispatches(&stages), 1);
    assert!(matches!(stages[0], Stage::Dispatch { .. }));
    assert!(matches!(stages[1], Stage::Barrier));
    match &stages[2] {
        Stage::Draw { program, reads } => {
            assert_eq!(*program, 11);
            assert_eq!(reads, &vec![0]);
        }
        _ => panic!("the frame plan must end with the draw pass"),
    }
}

#[test]
fn quiet_frame_only_draws() {
    let d = FrameDecision { quit: false, step: false };
    let stages = frame_plan(d, 10, 11, 640, 400);
    assert_eq!(stages.len(), 1);
    assert_eq!(count_dispatches(&stages), 0);
    assert!(matches!(stages[0], Stage::Draw { .. }));
}

#[test]
fn step_dispatch_keeps_read_and_write_slots_apart() {
    let d = FrameDecision { quit: false, step: true };
    let stages = frame_plan(d, 10, 11, 640, 400);
    match &stages[0] {
        Stage::Dispatch { reads, writes, .. } => {
            for r in reads {
                assert!(!writes.contains(r));
            }
        }
        _ => panic!("the stepping frame must start with the step dispatch"),
    }
}
