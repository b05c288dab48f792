use lbm_core::resource::Dimensionality;
use lbm_core::resource::PixelFormat;
use lbm_core::resource::ResourceError;
use lbm_core::resource::ResourceManager;
use lbm_core::resource::DoubleBufferedField;
use lbm_core::resource::MAX_IMAGE_DIM;
use lbm_core::orchestrator::allocate_scene;

#[test]
fn allocate_reports_requested_shape() {
    let mut m = ResourceManager::new();
    let r = m
        .allocate(640, 400, PixelFormat::RgbaF32, Dimensionality::Plane, 0)
        .unwrap();
    assert_eq!(r.width, 640);
    assert_eq!(r.height, 400);
    assert_eq!(r.format, PixelFormat::RgbaF32);
    assert_eq!(r.dim, Dimensionality::Plane);
    assert_eq!(r.slot, 0);
    assert_eq!(m.live_count(), 1);
}

#[test]
fn resource_stays_bound_until_release() {
    let mut m = ResourceManager::new();
    let a = m
        .allocate(640, 400, PixelFormat::RgbaF32, Dimensionality::Plane, 0)
        .unwrap();
    let b = m
        .allocate(640, 400, PixelFormat::RgF32, Dimensionality::Plane, 3)
        .unwrap();
    // Allocating and releasing other resources leaves `a` bound at slot 0:
    // the slot stays taken until `a` itself is released.
    assert!(m.slot_in_use(0));
    m.release(&b).unwrap();
    assert!(m.slot_in_use(0));
    assert!(!m.slot_in_use(3));
    m.release(&a).unwrap();
    assert!(!m.slot_in_use(0));
    assert_eq!(m.live_count(), 0);
}

#[test]
fn slot_conflict_is_signaled() {
    let mut m = ResourceManager::new();
    m.allocate(64, 64, PixelFormat::RgbaF32, Dimensionality::Plane, 2)
        .unwrap();
    let r = m.allocate(32, 32, PixelFormat::MaskU8, Dimensionality::Plane, 2);
    assert_eq!(r, Err(ResourceError::SlotConflict { slot: 2 }));
    // The failed request changed nothing.
    assert_eq!(m.live_count(), 1);
}

#[test]
fn rejected_size_reports_requested_parameters() {
    let mut m = ResourceManager::new();
    let r = m.allocate(0, 400, PixelFormat::RgF32, Dimensionality::Plane, 1);
    assert_eq!(
        r,
        Err(ResourceError::Allocation {
            width: 0,
            height: 400,
            format: PixelFormat::RgF32,
            slot: 1,
        })
    );
    let too_wide = MAX_IMAGE_DIM + 1;
    let r = m.allocate(too_wide, 8, PixelFormat::RgbaF32, Dimensionality::Plane, 1);
    assert_eq!(
        r,
        Err(ResourceError::Allocation {
            width: too_wide,
            height: 8,
            format: PixelFormat::RgbaF32,
            slot: 1,
        })
    );
    assert_eq!(m.live_count(), 0);
}

#[test]
fn largest_accepted_size_allocates() {
    let mut m = ResourceManager::new();
    let r = m
        .allocate(
            MAX_IMAGE_DIM,
            MAX_IMAGE_DIM,
            PixelFormat::RgbaF32,
            Dimensionality::Layered,
            0,
        )
        .unwrap();
    assert_eq!(r.width, MAX_IMAGE_DIM);
    assert_eq!(r.height, MAX_IMAGE_DIM);
    assert_eq!(r.dim, Dimensionality::Layered);
}

#[test]
fn double_release_is_an_error() {
    let mut m = ResourceManager::new();
    let a = m
        .allocate(16, 16, PixelFormat::MaskU8, Dimensionality::Plane, 5)
        .unwrap();
    assert_eq!(m.release(&a), Ok(()));
    assert_eq!(m.release(&a), Err(ResourceError::NotLive { id: a.id }));
    assert_eq!(m.live_count(), 0);
}

#[test]
fn release_of_foreign_resource_is_an_error() {
    let mut m = ResourceManager::new();
    let mut other = ResourceManager::new();
    let a = other
        .allocate(16, 16, PixelFormat::MaskU8, Dimensionality::Plane, 5)
        .unwrap();
    assert_eq!(m.release(&a), Err(ResourceError::NotLive { id: a.id }));
}

#[test]
fn release_all_drops_count_to_zero() {
    let mut m = ResourceManager::new();
    let scene = allocate_scene(&mut m, 640, 400).unwrap();
    assert_eq!(m.live_count(), 6);
    m.release_all();
    assert_eq!(m.live_count(), 0);
    // Every resource was released exactly once: a further release of any
    // of them is the tracked error, not a second free.
    assert_eq!(
        m.release(&scene.screen),
        Err(ResourceError::NotLive { id: scene.screen.id })
    );
}

#[test]
fn scene_allocation_matches_fixed_layout() {
    let mut m = ResourceManager::new();
    let scene = allocate_scene(&mut m, 640, 400).unwrap();
    assert_eq!(scene.screen.slot, 0);
    assert_eq!(scene.field_in.slot, 1);
    assert_eq!(scene.field_out.slot, 2);
    assert_eq!(scene.velocity.slot, 3);
    assert_eq!(scene.initial_velocity.slot, 4);
    assert_eq!(scene.obstacle.slot, 5);
    assert_eq!(scene.screen.format, PixelFormat::RgbaF32);
    assert_eq!(scene.field_in.format, PixelFormat::RgbaF32);
    assert_eq!(scene.field_in.dim, Dimensionality::Layered);
    assert_eq!(scene.field_out.dim, Dimensionality::Layered);
    assert_eq!(scene.velocity.format, PixelFormat::RgF32);
    assert_eq!(scene.obstacle.format, PixelFormat::MaskU8);
    for r in [
        &scene.screen,
        &scene.field_in,
        &scene.field_out,
        &scene.velocity,
        &scene.initial_velocity,
        &scene.obstacle,
    ] {
        assert_eq!(r.width, 640);
        assert_eq!(r.height, 400);
    }
}

#[test]
fn double_buffered_field_swap_keeps_roles_apart() {
    let mut f = DoubleBufferedField::new(1, 2);
    assert_eq!(f.front, 1);
    assert_eq!(f.back, 2);
    f.swap();
    assert_eq!(f.front, 2);
    assert_eq!(f.back, 1);
    assert_ne!(f.front, f.back);
}
