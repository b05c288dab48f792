//! Reference model of the field images: integer pixels in row-major order,
//! an init kernel that writes a value depending on the invocation coordinate
//! alone, and a step kernel that rotates every pixel's value. The model runs
//! kernels the way the device does — one invocation per work-group cell over
//! the whole dispatch grid — with the invocation itself bounds-checking
//! against the true extent, as the kernel contract demands.

use vstd::prelude::*;
use vstd::arithmetic::div_mod::lemma_fundamental_div_mod;
use vstd::arithmetic::div_mod::lemma_mod_division_less_than_divisor;

verus! {

/// Value the init kernel writes at coordinate `(x, y)`: a fixed function of
/// the coordinate alone, so the initial state is deterministic.
pub open spec fn init_pixel(x: int, y: int) -> u64
    recommends
        x >= 0,
        y >= 0,
{
    ((7 * x + 13 * y) % 251) as u64
}

/// Value the step kernel writes over a pixel holding `v`: the next value in
/// a rotation, so one step always changes every pixel.
pub open spec fn step_pixel(v: u64) -> u64 {
    if v == u64::MAX {
        0
    } else {
        (v + 1) as u64
    }
}

/// One step always moves a pixel: the step kernel has observable effect.
pub proof fn lemma_step_pixel_moves(v: u64)
    ensures
        step_pixel(v) != v,
{
}

/// A row-major coordinate stays inside the pixel array.
pub proof fn lemma_row_major_index(w: int, h: int, x: int, y: int)
    requires
        0 <= x < w,
        0 <= y < h,
    ensures
        0 <= y * w + x < w * h,
{
    assert(y * w + x < w * h) by (nonlinear_arith)
        requires
            0 <= x < w,
            0 <= y < h,
    ;
    assert(y * w >= 0) by (nonlinear_arith)
        requires
            y >= 0,
            w > 0,
    ;
}

/// The product of two 32-bit extents fits in 64 bits.
pub proof fn lemma_u32_mul_fits(a: u32, b: u32)
    ensures
        a as int * b as int <= u64::MAX as int,
        a as int * b as int >= 0,
{
    assert(a as int * b as int <= u64::MAX as int && a as int * b as int >= 0)
        by (nonlinear_arith)
        requires
            0 <= a as int <= u32::MAX as int,
            0 <= b as int <= u32::MAX as int,
    ;
}

/// Distinct coordinates have distinct row-major indices.
pub proof fn lemma_row_major_distinct(w: int, x1: int, y1: int, x2: int, y2: int)
    requires
        0 <= x1 < w,
        0 <= x2 < w,
        y1 >= 0,
        y2 >= 0,
        x1 != x2 || y1 != y2,
    ensures
        y1 * w + x1 != y2 * w + x2,
{
    assert(y1 * w + x1 != y2 * w + x2) by (nonlinear_arith)
        requires
            0 <= x1 < w,
            0 <= x2 < w,
            y1 >= 0,
            y2 >= 0,
            x1 != x2 || y1 != y2,
    ;
}

/// The model of one field image: `width` x `height` integer pixels stored
/// row-major.
#[derive(Debug)]
pub struct FieldImage {
    pub width: u32,
    pub height: u32,
    pub pixels: Vec<u64>,
}

impl FieldImage {
    /// The pixel array holds exactly the extent, and the extent is
    /// addressable.
    pub open spec fn wf(self) -> bool {
        self.pixels@.len() == self.width as int * self.height as int && self.width as int
            * self.height as int <= usize::MAX as int
    }

    /// The pixel at coordinate `(x, y)`.
    pub open spec fn at(self, x: int, y: int) -> u64
        recommends
            self.wf(),
            0 <= x < self.width,
            0 <= y < self.height,
    {
        self.pixels@[y * self.width as int + x]
    }

    /// Every pixel holds the init kernel's value for its coordinate.
    pub open spec fn initialized(self) -> bool {
        forall|x: int, y: int|
            0 <= x < self.width && 0 <= y < self.height ==> #[trigger] self.at(x, y) == init_pixel(
                x,
                y,
            )
    }

    /// A fresh all-zero image of the given extent.
    pub fn new(width: u32, height: u32) -> (img: FieldImage)
        requires
            width as int * height as int <= usize::MAX as int,
        ensures
            img.wf(),
            img.width == width,
            img.height == height,
            forall|k: int| 0 <= k < img.pixels@.len() ==> img.pixels@[k] == 0u64,
    {
        let total: usize = (width as usize) * (height as usize);
        let mut pixels: Vec<u64> = Vec::new();
        let mut k: usize = 0;
        while k < total
            invariant
                k <= total,
                pixels@.len() == k,
                forall|j: int| 0 <= j < k ==> pixels@[j] == 0u64,
            decreases total - k,
        {
            pixels.push(0);
            k = k + 1;
        }
        FieldImage { width, height, pixels }
    }

    /// Read one pixel.
    pub fn pixel_at(&self, x: u32, y: u32) -> (v: u64)
        requires
            self.wf(),
            x < self.width,
            y < self.height,
        ensures
            v == self.at(x as int, y as int),
    {
        proof {
            lemma_row_major_index(
                self.width as int,
                self.height as int,
                x as int,
                y as int,
            );
        }
        let idx: usize = (y as usize) * (self.width as usize) + (x as usize);
        self.pixels[idx]
    }
}

/// The step relation between two images: same extent, and every pixel of
/// the new image is the step kernel's value over the old pixel.
pub open spec fn stepped(pre: FieldImage, post: FieldImage) -> bool {
    &&& post.width == pre.width
    &&& post.height == pre.height
    &&& post.pixels@.len() == pre.pixels@.len()
    &&& forall|x: int, y: int|
        0 <= x < pre.width && 0 <= y < pre.height ==> #[trigger] post.at(x, y) == step_pixel(
            pre.at(x, y),
        )
}

/// Run the init kernel over the whole dispatch grid: one invocation per
/// work-group cell, each writing its coordinate's value after
/// bounds-checking against the true extent — the extent need not be an
/// exact multiple of the work-group size. Requires the grid to cover the
/// image, as `dispatch_grid` guarantees; afterwards every pixel holds the
/// init value, whatever the image held before.
pub fn run_init(img: &mut FieldImage, grid: (u32, u32, u32), local_x: u32, local_y: u32)
    requires
        old(img).wf(),
        local_x > 0,
        local_y > 0,
        grid.2 == 1,
        grid.0 * local_x >= old(img).width,
        grid.1 * local_y >= old(img).height,
    ensures
        final(img).wf(),
        final(img).width == old(img).width,
        final(img).height == old(img).height,
        final(img).initialized(),
{
    let w: u32 = img.width;
    let h: u32 = img.height;
    proof {
        lemma_u32_mul_fits(grid.0, local_x);
        lemma_u32_mul_fits(grid.1, local_y);
    }
    let total_x: u64 = (grid.0 as u64) * (local_x as u64);
    let total_y: u64 = (grid.1 as u64) * (local_y as u64);
    let mut iy: u64 = 0;
    while iy < total_y
        invariant
            img.wf(),
            img.width == w,
            img.height == h,
            total_x >= w,
            total_y >= h,
            iy <= total_y,
            forall|x: int, y: int|
                0 <= x < w && 0 <= y < h && y < iy ==> #[trigger] img.at(x, y) == init_pixel(x, y),
        decreases total_y - iy,
    {
        let mut ix: u64 = 0;
        while ix < total_x
            invariant
                img.wf(),
                img.width == w,
                img.height == h,
                total_x >= w,
                iy < total_y,
                ix <= total_x,
                forall|x: int, y: int|
                    0 <= x < w && 0 <= y < h && y < iy ==> #[trigger] img.at(x, y) == init_pixel(
                        x,
                        y,
                    ),
                forall|x: int|
                    0 <= x < w && x < ix && iy < h ==> #[trigger] img.at(x, iy as int)
                        == init_pixel(x, iy as int),
            decreases total_x - ix,
        {
            if ix < w as u64 && iy < h as u64 {
                proof {
                    lemma_row_major_index(w as int, h as int, ix as int, iy as int);
                }
                let idx: usize = ((iy * (w as u64)) + ix) as usize;
                let v: u64 = (7 * ix + 13 * iy) % 251;
                let ghost before = *img;
                img.pixels.set(idx, v);
                proof {
                    assert forall|x: int, y: int|
                        0 <= x < w && 0 <= y < h && (y < iy || (y == iy && x < ix)) implies
                        #[trigger] img.at(x, y) == before.at(x, y) by {
                        lemma_row_major_distinct(w as int, x, y, ix as int, iy as int);
                        lemma_row_major_index(w as int, h as int, x, y);
                    }
                    assert(img.at(ix as int, iy as int) == v);
                    assert(v == init_pixel(ix as int, iy as int));
                }
            }
            ix = ix + 1;
        }
        iy = iy + 1;
    }
}

/// Run the step kernel over the whole dispatch grid, in the same
/// bounds-checked manner as `run_init`: afterwards every pixel holds the
/// rotated value of what it held before.
pub fn run_step(img: &mut FieldImage, grid: (u32, u32, u32), local_x: u32, local_y: u32)
    requires
        old(img).wf(),
        local_x > 0,
        local_y > 0,
        grid.2 == 1,
        grid.0 * local_x >= old(img).width,
        grid.1 * local_y >= old(img).height,
    ensures
        final(img).wf(),
        stepped(*old(img), *final(img)),
{
    let w: u32 = img.width;
    let h: u32 = img.height;
    proof {
        lemma_u32_mul_fits(grid.0, local_x);
        lemma_u32_mul_fits(grid.1, local_y);
    }
    let total_x: u64 = (grid.0 as u64) * (local_x as u64);
    let total_y: u64 = (grid.1 as u64) * (local_y as u64);
    let mut iy: u64 = 0;
    while iy < total_y
        invariant
            img.wf(),
            img.width == w,
            img.height == h,
            img.pixels@.len() == old(img).pixels@.len(),
            *old(img) == (FieldImage { width: w, height: h, pixels: old(img).pixels }),
            old(img).wf(),
            total_x >= w,
            total_y >= h,
            iy <= total_y,
            forall|x: int, y: int|
                0 <= x < w && 0 <= y < h && y < iy ==> #[trigger] img.at(x, y) == step_pixel(
                    old(img).at(x, y),
                ),
            forall|x: int, y: int|
                0 <= x < w && 0 <= y < h && y >= iy ==> #[trigger] img.at(x, y) == old(img).at(
                    x,
                    y,
                ),
        decreases total_y - iy,
    {
        let mut ix: u64 = 0;
        while ix < total_x
            invariant
                img.wf(),
                img.width == w,
                img.height == h,
                img.pixels@.len() == old(img).pixels@.len(),
                old(img).wf(),
                old(img).width == w,
                old(img).height == h,
                total_x >= w,
                iy < total_y,
                ix <= total_x,
                forall|x: int, y: int|
                    0 <= x < w && 0 <= y < h && y < iy ==> #[trigger] img.at(x, y) == step_pixel(
                        old(img).at(x, y),
                    ),
                forall|x: int|
                    0 <= x < w && x < ix && iy < h ==> #[trigger] img.at(x, iy as int)
                        == step_pixel(old(img).at(x, iy as int)),
                forall|x: int, y: int|
                    0 <= x < w && 0 <= y < h && (y > iy || (y == iy && x >= ix)) ==> #[trigger] img.at(
                        x,
                        y,
                    ) == old(img).at(x, y),
            decreases total_x - ix,
        {
            if ix < w as u64 && iy < h as u64 {
                proof {
                    lemma_row_major_index(w as int, h as int, ix as int, iy as int);
                }
                let idx: usize = ((iy * (w as u64)) + ix) as usize;
                let cur: u64 = img.pixels[idx];
                let v: u64 = if cur == u64::MAX {
                    0
                } else {
                    cur + 1
                };
                let ghost before = *img;
                img.pixels.set(idx, v);
                proof {
                    assert forall|x: int, y: int|
                        0 <= x < w && 0 <= y < h && (x != ix || y != iy) implies #[trigger] img.at(
                        x,
                        y,
                    ) == before.at(x, y) by {
                        lemma_row_major_distinct(w as int, x, y, ix as int, iy as int);
                        lemma_row_major_index(w as int, h as int, x, y);
                    }
                    assert(cur == before.at(ix as int, iy as int));
                    assert(before.at(ix as int, iy as int) == old(img).at(ix as int, iy as int));
                    assert(img.at(ix as int, iy as int) == step_pixel(
                        old(img).at(ix as int, iy as int),
                    ));
                }
            }
            ix = ix + 1;
        }
        iy = iy + 1;
    }
}

/// Run the model of one frame over an image: exactly one step when the
/// iteration decided to step, and none otherwise — an iteration without a
/// step, whatever no-op actions it drained, leaves every pixel untouched.
pub fn apply_frame(img: &mut FieldImage, step: bool, grid: (u32, u32, u32), local_x: u32, local_y: u32)
    requires
        old(img).wf(),
        local_x > 0,
        local_y > 0,
        grid.2 == 1,
        grid.0 * local_x >= old(img).width,
        grid.1 * local_y >= old(img).height,
    ensures
        final(img).wf(),
        step ==> stepped(*old(img), *final(img)),
        !step ==> *final(img) == *old(img),
{
    if step {
        run_step(img, grid, local_x, local_y);
    }
}

/// Determinism of the init stage: two images of one extent that both hold
/// the init kernel's output are identical pixel for pixel, whatever they
/// held before and however independently the two runs happened.
pub proof fn lemma_init_deterministic(a: FieldImage, b: FieldImage)
    requires
        a.wf(),
        b.wf(),
        a.width == b.width,
        a.height == b.height,
        a.initialized(),
        b.initialized(),
    ensures
        a.pixels@ =~= b.pixels@,
{
    let w = a.width as int;
    let h = a.height as int;
    assert forall|k: int| 0 <= k < a.pixels@.len() implies a.pixels@[k] == b.pixels@[k] by {
        assert(w > 0) by (nonlinear_arith)
            requires
                w >= 0,
                h >= 0,
                w * h > 0,
        ;
        let x = k % w;
        let y = k / w;
        lemma_fundamental_div_mod(k, w);
        lemma_mod_division_less_than_divisor(k, w);
        assert(0 <= y < h) by (nonlinear_arith)
            requires
                w > 0,
                h >= 0,
                0 <= k,
                k < w * h,
                k == w * y + x,
                0 <= x < w,
        ;
        assert(k == y * w + x) by (nonlinear_arith)
            requires
                k == w * y + x,
        ;
        assert(a.at(x, y) == init_pixel(x, y));
        assert(b.at(x, y) == init_pixel(x, y));
    }
}

/// A step has observable effect: after one step the image differs from
/// what it was — already at the origin pixel.
pub proof fn lemma_step_changes_image(pre: FieldImage, post: FieldImage)
    requires
        pre.wf(),
        stepped(pre, post),
        pre.width >= 1,
        pre.height >= 1,
    ensures
        post.at(0, 0) != pre.at(0, 0),
{
    lemma_step_pixel_moves(pre.at(0, 0));
}

} // verus!
