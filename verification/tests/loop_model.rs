use lbm_core::dispatch::dispatch_grid;
use lbm_core::field::apply_frame;
use lbm_core::field::run_init;
use lbm_core::field::run_step;
use lbm_core::field::FieldImage;
use lbm_core::frame::decide;
use lbm_core::frame::frame_iteration;
use lbm_core::frame::map_event;
use lbm_core::frame::FrameDecision;
use lbm_core::frame::FrameState;
use lbm_core::frame::InputAction;
use lbm_core::frame::KeyMap;
use lbm_core::frame::RawEvent;
use lbm_core::orchestrator::allocate_scene;
use lbm_core::resource::ResourceManager;

fn test_keys() -> KeyMap {
    KeyMap { quit_key: 27, step_key: 13, noop_key: 9 }
}

#[test]
fn event_table_is_fixed() {
    let km = test_keys();
    assert_eq!(map_event(&km, &RawEvent::WindowClose), InputAction::Quit);
    assert_eq!(map_event(&km, &RawEvent::KeyDown { key: 27 }), InputAction::Quit);
    assert_eq!(map_event(&km, &RawEvent::KeyDown { key: 13 }), InputAction::TriggerStep);
    assert_eq!(map_event(&km, &RawEvent::KeyDown { key: 9 }), InputAction::ToggleNoop);
    assert_eq!(map_event(&km, &RawEvent::KeyDown { key: 65 }), InputAction::Ignore);
    assert_eq!(
        map_event(&km, &RawEvent::WindowResize { width: 800, height: 600 }),
        InputAction::Ignore
    );
    assert_eq!(map_event(&km, &RawEvent::Other), InputAction::Ignore);
}

#[test]
fn many_step_requests_collapse_to_one() {
    let km = test_keys();
    let events = vec![
        RawEvent::KeyDown { key: 13 },
        RawEvent::KeyDown { key: 13 },
        RawEvent::KeyDown { key: 13 },
        RawEvent::Other,
    ];
    let d = decide(&km, &events);
    assert_eq!(d, FrameDecision { quit: false, step: true });
}

#[test]
fn noop_actions_decide_nothing() {
    let km = test_keys();
    let events = vec![
        RawEvent::KeyDown { key: 9 },
        RawEvent::KeyDown { key: 9 },
        RawEvent::WindowResize { width: 100, height: 100 },
    ];
    let d = decide(&km, &events);
    assert_eq!(d, FrameDecision { quit: false, step: false });
}

#[test]
fn quit_wins_over_step() {
    let km = test_keys();
    let events = vec![
        RawEvent::KeyDown { key: 13 },
        RawEvent::WindowClose,
        RawEvent::KeyDown { key: 13 },
    ];
    let d = decide(&km, &events);
    assert_eq!(d, FrameDecision { quit: true, step: false });
}

#[test]
fn quit_stops_within_the_same_iteration() {
    let km = test_keys();
    let mut st = FrameState::new();
    assert!(st.running);
    let d = frame_iteration(&mut st, &km, &vec![RawEvent::KeyDown { key: 27 }]);
    assert!(d.quit);
    assert!(!st.running);
    assert_eq!(st.frames, 1);
}

#[test]
fn running_iterations_advance_the_counter_only() {
    let km = test_keys();
    let mut st = FrameState::new();
    let d = frame_iteration(&mut st, &km, &vec![RawEvent::KeyDown { key: 9 }]);
    assert_eq!(d, FrameDecision { quit: false, step: false });
    assert!(st.running);
    assert_eq!(st.frames, 1);
    let d = frame_iteration(&mut st, &km, &vec![]);
    assert_eq!(d, FrameDecision { quit: false, step: false });
    assert!(st.running);
    assert_eq!(st.frames, 2);
}

#[test]
fn init_writes_the_declared_scene_value() {
    let mut img = FieldImage::new(645, 401);
    let grid = dispatch_grid(645, 401, 8, 8);
    run_init(&mut img, grid, 8, 8);
    // The init kernel's value is a fixed function of the coordinate.
    assert_eq!(img.pixel_at(0, 0), 0);
    assert_eq!(img.pixel_at(1, 0), 7);
    assert_eq!(img.pixel_at(0, 1), 13);
    assert_eq!(img.pixel_at(10, 20), (7 * 10 + 13 * 20) % 251);
    // The last pixel is covered even though 645 is no multiple of 8.
    assert_eq!(img.pixel_at(644, 400), (7 * 644 + 13 * 400) % 251);
}

#[test]
fn init_is_deterministic_across_runs() {
    let grid = dispatch_grid(640, 400, 8, 8);
    let mut a = FieldImage::new(640, 400);
    run_init(&mut a, grid, 8, 8);
    let mut b = FieldImage::new(640, 400);
    // Start the second run from different contents: init overwrites all.
    run_step(&mut b, grid, 8, 8);
    run_init(&mut b, grid, 8, 8);
    assert_eq!(a.pixels, b.pixels);
}

#[test]
fn step_rotates_every_pixel() {
    let grid = dispatch_grid(24, 16, 8, 8);
    let mut img = FieldImage::new(24, 16);
    run_init(&mut img, grid, 8, 8);
    let before = img.pixels.clone();
    run_step(&mut img, grid, 8, 8);
    for y in 0..16u32 {
        for x in 0..24u32 {
            let k = (y * 24 + x) as usize;
            assert_eq!(img.pixel_at(x, y), before[k].wrapping_add(1));
        }
    }
}

#[test]
fn end_to_end_step_changes_the_image_and_no_step_does_not() {
    // Start with a 640 x 400 surface: allocate the scene, run the init
    // stage, then one per-frame stage with a step request.
    let mut mgr = ResourceManager::new();
    let scene = allocate_scene(&mut mgr, 640, 400).unwrap();
    assert_eq!(scene.screen.width, 640);
    let grid = dispatch_grid(640, 400, 8, 8);
    let mut img = FieldImage::new(640, 400);
    run_init(&mut img, grid, 8, 8);
    let post_init = img.pixels.clone();

    // Zero step requests: the displayed image is pixel-identical.
    let km = test_keys();
    let quiet = decide(&km, &vec![RawEvent::Other]);
    apply_frame(&mut img, quiet.step, grid, 8, 8);
    assert_eq!(img.pixels, post_init);

    // One iteration with a step request: the image differs in at least
    // one pixel.
    let stepping = decide(&km, &vec![RawEvent::KeyDown { key: 13 }]);
    apply_frame(&mut img, stepping.step, grid, 8, 8);
    assert_ne!(img.pixels, post_init);

    mgr.release_all();
    assert_eq!(mgr.live_count(), 0);
}
