//! The concrete scene this system runs: six typed images at fixed binding
//! slots, kernels declared with an 8 x 8 work-group, the one-time
//! initialization plan and the per-frame plan, all assembled from the image
//! dimensions and proved to obey the synchronization protocol.

use vstd::prelude::*;
use crate::dispatch::ceil_div;
use crate::dispatch::dispatch_grid;
use crate::frame::FrameDecision;
use crate::pipeline::count_dispatches;
use crate::pipeline::dispatch_barriered;
use crate::pipeline::frame_stages;
use crate::pipeline::init_stages;
use crate::pipeline::overlaps;
use crate::pipeline::protocol_ok;
use crate::pipeline::stage_writes;
use crate::pipeline::stages_self_ok;
use crate::pipeline::Stage;
use crate::resource::dims_valid;
use crate::resource::Dimensionality;
use crate::resource::ImageResource;
use crate::resource::PixelFormat;
use crate::resource::ResourceEntry;
use crate::resource::ResourceError;
use crate::resource::ResourceManager;
use crate::resource::lemma_slot_live_push;

verus! {

/// The fixed binding slots of the scene's images.
pub const SLOT_SCREEN: u32 = 0;

pub const SLOT_FIELD_IN: u32 = 1;

pub const SLOT_FIELD_OUT: u32 = 2;

pub const SLOT_VELOCITY: u32 = 3;

pub const SLOT_INITIAL_VELOCITY: u32 = 4;

pub const SLOT_OBSTACLE: u32 = 5;

/// The work-group size every kernel of this system declares.
pub const LOCAL_SIZE_X: u32 = 8;

pub const LOCAL_SIZE_Y: u32 = 8;

/// The six images of the scene, allocated once at startup.
#[derive(Clone, Copy, PartialEq, Eq, Structural, Debug)]
pub struct SceneResources {
    pub screen: ImageResource,
    pub field_in: ImageResource,
    pub field_out: ImageResource,
    pub velocity: ImageResource,
    pub initial_velocity: ImageResource,
    pub obstacle: ImageResource,
}

/// One scene image has the expected shape.
pub open spec fn scene_image_ok(
    r: ImageResource,
    width: u32,
    height: u32,
    format: PixelFormat,
    dim: Dimensionality,
    slot: u32,
) -> bool {
    r.width == width && r.height == height && r.format == format && r.dim == dim && r.slot == slot
}

/// The whole scene has the shape the kernels expect: the display image and
/// the two multi-directional field buffers in high-precision four-channel
/// float, the two velocity fields in two-channel float, and the obstacle
/// mask in single-channel 8-bit — each at its fixed slot.
pub open spec fn scene_ok(s: SceneResources, width: u32, height: u32) -> bool {
    &&& scene_image_ok(s.screen, width, height, PixelFormat::RgbaF32, Dimensionality::Plane, SLOT_SCREEN)
    &&& scene_image_ok(
        s.field_in,
        width,
        height,
        PixelFormat::RgbaF32,
        Dimensionality::Layered,
        SLOT_FIELD_IN,
    )
    &&& scene_image_ok(
        s.field_out,
        width,
        height,
        PixelFormat::RgbaF32,
        Dimensionality::Layered,
        SLOT_FIELD_OUT,
    )
    &&& scene_image_ok(
        s.velocity,
        width,
        height,
        PixelFormat::RgF32,
        Dimensionality::Plane,
        SLOT_VELOCITY,
    )
    &&& scene_image_ok(
        s.initial_velocity,
        width,
        height,
        PixelFormat::RgF32,
        Dimensionality::Plane,
        SLOT_INITIAL_VELOCITY,
    )
    &&& scene_image_ok(
        s.obstacle,
        width,
        height,
        PixelFormat::MaskU8,
        Dimensionality::Plane,
        SLOT_OBSTACLE,
    )
}

/// Allocate the six scene images, each bound at its fixed slot. With the
/// six slots free and an accepted extent this succeeds and every image
/// reports exactly the requested shape; the manager then holds six more
/// live resources.
pub fn allocate_scene(mgr: &mut ResourceManager, width: u32, height: u32) -> (r: Result<
    SceneResources,
    ResourceError,
>)
    requires
        old(mgr).wf(),
        old(mgr).next_id as int + 6 <= u64::MAX as int,
        dims_valid(width, height),
        !old(mgr).slot_live(SLOT_SCREEN),
        !old(mgr).slot_live(SLOT_FIELD_IN),
        !old(mgr).slot_live(SLOT_FIELD_OUT),
        !old(mgr).slot_live(SLOT_VELOCITY),
        !old(mgr).slot_live(SLOT_INITIAL_VELOCITY),
        !old(mgr).slot_live(SLOT_OBSTACLE),
    ensures
        final(mgr).wf(),
        r matches Ok(s) && scene_ok(s, width, height),
        final(mgr).n_live() == old(mgr).n_live() + 6,
        final(mgr).slot_live(SLOT_SCREEN),
        final(mgr).slot_live(SLOT_FIELD_IN),
        final(mgr).slot_live(SLOT_FIELD_OUT),
        final(mgr).slot_live(SLOT_VELOCITY),
        final(mgr).slot_live(SLOT_INITIAL_VELOCITY),
        final(mgr).slot_live(SLOT_OBSTACLE),
{
    let ghost m0 = *mgr;
    let screen = match mgr.allocate(
        width,
        height,
        PixelFormat::RgbaF32,
        Dimensionality::Plane,
        SLOT_SCREEN,
    ) {
        Ok(res) => res,
        Err(e) => { return Err(e) },
    };
    proof {
        let e = (ResourceEntry { res: screen, live: true });
        lemma_slot_live_push(m0, *mgr, e, SLOT_FIELD_IN);
        lemma_slot_live_push(m0, *mgr, e, SLOT_FIELD_OUT);
        lemma_slot_live_push(m0, *mgr, e, SLOT_VELOCITY);
        lemma_slot_live_push(m0, *mgr, e, SLOT_INITIAL_VELOCITY);
        lemma_slot_live_push(m0, *mgr, e, SLOT_OBSTACLE);
    }
    let ghost m1 = *mgr;
    let field_in = match mgr.allocate(
        width,
        height,
        PixelFormat::RgbaF32,
        Dimensionality::Layered,
        SLOT_FIELD_IN,
    ) {
        Ok(res) => res,
        Err(e) => { return Err(e) },
    };
    proof {
        let e = (ResourceEntry { res: field_in, live: true });
        lemma_slot_live_push(m1, *mgr, e, SLOT_SCREEN);
        lemma_slot_live_push(m1, *mgr, e, SLOT_FIELD_OUT);
        lemma_slot_live_push(m1, *mgr, e, SLOT_VELOCITY);
        lemma_slot_live_push(m1, *mgr, e, SLOT_INITIAL_VELOCITY);
        lemma_slot_live_push(m1, *mgr, e, SLOT_OBSTACLE);
    }
    let ghost m2 = *mgr;
    let field_out = match mgr.allocate(
        width,
        height,
        PixelFormat::RgbaF32,
        Dimensionality::Layered,
        SLOT_FIELD_OUT,
    ) {
        Ok(res) => res,
        Err(e) => { return Err(e) },
    };
    proof {
        let e = (ResourceEntry { res: field_out, live: true });
        lemma_slot_live_push(m2, *mgr, e, SLOT_SCREEN);
        lemma_slot_live_push(m2, *mgr, e, SLOT_FIELD_IN);
        lemma_slot_live_push(m2, *mgr, e, SLOT_VELOCITY);
        lemma_slot_live_push(m2, *mgr, e, SLOT_INITIAL_VELOCITY);
        lemma_slot_live_push(m2, *mgr, e, SLOT_OBSTACLE);
    }
    let ghost m3 = *mgr;
    let velocity = match mgr.allocate(
        width,
        height,
        PixelFormat::RgF32,
        Dimensionality::Plane,
        SLOT_VELOCITY,
    ) {
        Ok(res) => res,
        Err(e) => { return Err(e) },
    };
    proof {
        let e = (ResourceEntry { res: velocity, live: true });
        lemma_slot_live_push(m3, *mgr, e, SLOT_SCREEN);
        lemma_slot_live_push(m3, *mgr, e, SLOT_FIELD_IN);
        lemma_slot_live_push(m3, *mgr, e, SLOT_FIELD_OUT);
        lemma_slot_live_push(m3, *mgr, e, SLOT_INITIAL_VELOCITY);
        lemma_slot_live_push(m3, *mgr, e, SLOT_OBSTACLE);
    }
    let ghost m4 = *mgr;
    let initial_velocity = match mgr.allocate(
        width,
        height,
        PixelFormat::RgF32,
        Dimensionality::Plane,
        SLOT_INITIAL_VELOCITY,
    ) {
        Ok(res) => res,
        Err(e) => { return Err(e) },
    };
    proof {
        let e = (ResourceEntry { res: initial_velocity, live: true });
        lemma_slot_live_push(m4, *mgr, e, SLOT_SCREEN);
        lemma_slot_live_push(m4, *mgr, e, SLOT_FIELD_IN);
        lemma_slot_live_push(m4, *mgr, e, SLOT_FIELD_OUT);
        lemma_slot_live_push(m4, *mgr, e, SLOT_VELOCITY);
        lemma_slot_live_push(m4, *mgr, e, SLOT_OBSTACLE);
    }
    let ghost m5 = *mgr;
    let obstacle = match mgr.allocate(
        width,
        height,
        PixelFormat::MaskU8,
        Dimensionality::Plane,
        SLOT_OBSTACLE,
    ) {
        Ok(res) => res,
        Err(e) => { return Err(e) },
    };
    proof {
        let e = (ResourceEntry { res: obstacle, live: true });
        lemma_slot_live_push(m5, *mgr, e, SLOT_SCREEN);
        lemma_slot_live_push(m5, *mgr, e, SLOT_FIELD_IN);
        lemma_slot_live_push(m5, *mgr, e, SLOT_FIELD_OUT);
        lemma_slot_live_push(m5, *mgr, e, SLOT_VELOCITY);
        lemma_slot_live_push(m5, *mgr, e, SLOT_INITIAL_VELOCITY);
    }
    Ok(SceneResources { screen, field_in, field_out, velocity, initial_velocity, obstacle })
}

/// The slots the step kernel reads: the current field values, the driving
/// velocity and the obstacle mask.
pub fn step_read_slots() -> (v: Vec<u32>)
    ensures
        v@ =~= seq![SLOT_FIELD_IN, SLOT_INITIAL_VELOCITY, SLOT_OBSTACLE],
{
    let mut v: Vec<u32> = Vec::new();
    v.push(SLOT_FIELD_IN);
    v.push(SLOT_INITIAL_VELOCITY);
    v.push(SLOT_OBSTACLE);
    v
}

/// The slots the step kernel writes: the next field values, the derived
/// velocity and the display image — disjoint from what it reads, so no
/// resource is targeted in both roles within one dispatch.
pub fn step_write_slots() -> (v: Vec<u32>)
    ensures
        v@ =~= seq![SLOT_SCREEN, SLOT_FIELD_OUT, SLOT_VELOCITY],
{
    let mut v: Vec<u32> = Vec::new();
    v.push(SLOT_SCREEN);
    v.push(SLOT_FIELD_OUT);
    v.push(SLOT_VELOCITY);
    v
}

/// Every slot of the scene, written by the init kernel.
pub fn all_slots() -> (v: Vec<u32>)
    ensures
        v@ =~= seq![
            SLOT_SCREEN,
            SLOT_FIELD_IN,
            SLOT_FIELD_OUT,
            SLOT_VELOCITY,
            SLOT_INITIAL_VELOCITY,
            SLOT_OBSTACLE,
        ],
{
    let mut v: Vec<u32> = Vec::new();
    v.push(SLOT_SCREEN);
    v.push(SLOT_FIELD_IN);
    v.push(SLOT_FIELD_OUT);
    v.push(SLOT_VELOCITY);
    v.push(SLOT_INITIAL_VELOCITY);
    v.push(SLOT_OBSTACLE);
    v
}

/// The one-time initialization plan: one dispatch of the init kernel over
/// the grid covering the whole image, writing every scene slot, followed by
/// a full barrier. The grid is computed from the image dimensions.
pub fn init_plan(init_program: u32, width: u32, height: u32) -> (stages: Vec<Stage>)
    ensures
        stages@.len() == 2,
        (stages@[0] matches Stage::Dispatch { program: p, grid: g, reads: r, writes: w }
            && p == init_program && g.0 == ceil_div(width as int, LOCAL_SIZE_X as int) && g.1
            == ceil_div(height as int, LOCAL_SIZE_Y as int) && g.2 == 1 && g.0 * LOCAL_SIZE_X
            >= width && g.1 * LOCAL_SIZE_Y >= height && r@ =~= Seq::<u32>::empty() && w@ =~= seq![
            SLOT_SCREEN,
            SLOT_FIELD_IN,
            SLOT_FIELD_OUT,
            SLOT_VELOCITY,
            SLOT_INITIAL_VELOCITY,
            SLOT_OBSTACLE,
        ]),
        stages@[1] is Barrier,
        dispatch_barriered(stages@),
        stages_self_ok(stages@),
        protocol_ok(stages@),
        count_dispatches(stages@) == 1,
{
    let grid = dispatch_grid(width, height, LOCAL_SIZE_X, LOCAL_SIZE_Y);
    init_stages(init_program, grid, all_slots())
}

/// The per-frame plan for one iteration's decision: at most one step
/// dispatch plus barrier — exactly one when the decision asks to step —
/// and always the draw pass sampling the display image.
pub fn frame_plan(
    d: FrameDecision,
    step_program: u32,
    draw_program: u32,
    width: u32,
    height: u32,
) -> (stages: Vec<Stage>)
    ensures
        dispatch_barriered(stages@),
        stages_self_ok(stages@),
        protocol_ok(stages@),
        count_dispatches(stages@) == if d.step {
            1int
        } else {
            0int
        },
        !d.step ==> forall|i: int|
            0 <= i < stages@.len() ==> stage_writes(#[trigger] stages@[i]).len() == 0,
        d.step ==> stages@.len() == 3 && stages@[0] is Dispatch && stages@[1] is Barrier
            && stages@[2] is Draw,
        !d.step ==> stages@.len() == 1 && stages@[0] is Draw,
{
    let grid = dispatch_grid(width, height, LOCAL_SIZE_X, LOCAL_SIZE_Y);
    let reads = step_read_slots();
    let writes = step_write_slots();
    let mut draw_reads: Vec<u32> = Vec::new();
    draw_reads.push(SLOT_SCREEN);
    proof {
        assert(!overlaps(reads@, writes@)) by {
            assert forall|i: int, j: int|
                0 <= i < reads@.len() && 0 <= j < writes@.len() implies reads@[i] != writes@[j] by {}
        }
    }
    frame_stages(d.step, step_program, grid, reads, writes, draw_program, draw_reads)
}

} // verus!
