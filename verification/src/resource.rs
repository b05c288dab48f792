//! Typed GPU image resources and the manager that owns them: every resource
//! is bound to one fixed slot for its whole lifetime, a slot holds at most
//! one live resource at a time, and liveness is tracked so that a release
//! happens exactly once.

use vstd::prelude::*;

verus! {

/// Largest image extent the backing device accepts along one axis.
pub const MAX_IMAGE_DIM: u32 = 16384;

/// Pixel storage formats the kernels bind: high-precision four-channel
/// float, two-channel float (velocity fields), and a single-channel
/// 8-bit mask (obstacles).
#[derive(Clone, Copy, PartialEq, Eq, Structural, Debug)]
pub enum PixelFormat {
    RgbaF32,
    RgF32,
    MaskU8,
}

/// A plain 2D image, or a 2D array with a fixed depth of three layers
/// (multi-directional fields).
#[derive(Clone, Copy, PartialEq, Eq, Structural, Debug)]
pub enum Dimensionality {
    Plane,
    Layered,
}

/// Number of 2D layers a resource of the given dimensionality holds.
pub open spec fn layer_count(dim: Dimensionality) -> int {
    match dim {
        Dimensionality::Plane => 1,
        Dimensionality::Layered => 3,
    }
}

/// Exec counterpart of `layer_count`.
pub fn layers_of(dim: Dimensionality) -> (n: u32)
    ensures
        n == layer_count(dim),
{
    match dim {
        Dimensionality::Plane => 1,
        Dimensionality::Layered => 3,
    }
}

/// A live GPU image: its reported dimensions, format, dimensionality and
/// the binding slot it keeps for its entire lifetime.
#[derive(Clone, Copy, PartialEq, Eq, Structural, Debug)]
pub struct ImageResource {
    pub id: u64,
    pub width: u32,
    pub height: u32,
    pub format: PixelFormat,
    pub dim: Dimensionality,
    pub slot: u32,
}

/// One manager record: the resource and whether its storage is still live.
#[derive(Clone, Copy, PartialEq, Eq, Structural, Debug)]
pub struct ResourceEntry {
    pub res: ImageResource,
    pub live: bool,
}

/// Errors of the resource layer, each carrying the requested parameters
/// for diagnosis.
#[derive(Clone, Copy, PartialEq, Eq, Structural, Debug)]
pub enum ResourceError {
    /// The device rejected the requested size/format combination.
    Allocation { width: u32, height: u32, format: PixelFormat, slot: u32 },
    /// A second resource was requested at a slot that is already bound.
    SlotConflict { slot: u32 },
    /// The resource is not live: released twice, or never allocated here.
    NotLive { id: u64 },
}

/// Size/format combinations the device accepts: non-empty extents within
/// the device limit, in any of the supported formats.
pub open spec fn dims_valid(width: u32, height: u32) -> bool {
    1 <= width <= MAX_IMAGE_DIM && 1 <= height <= MAX_IMAGE_DIM
}

/// 1 if the entry is live, else 0.
pub open spec fn live_val(e: ResourceEntry) -> int {
    if e.live {
        1
    } else {
        0
    }
}

/// Number of live entries in a record sequence.
pub open spec fn count_live(s: Seq<ResourceEntry>) -> int
    decreases s.len(),
{
    if s.len() == 0 {
        0
    } else {
        count_live(s.drop_last()) + live_val(s.last())
    }
}

/// Updating one record changes the live count by the difference of the
/// old and new record's liveness.
pub proof fn lemma_count_live_update(s: Seq<ResourceEntry>, i: int, e: ResourceEntry)
    requires
        0 <= i < s.len(),
    ensures
        count_live(s.update(i, e)) == count_live(s) - live_val(s[i]) + live_val(e),
    decreases s.len(),
{
    if i == s.len() - 1 {
        assert(s.update(i, e).drop_last() =~= s.drop_last());
    } else {
        assert(s.update(i, e).drop_last() =~= s.drop_last().update(i, e));
        lemma_count_live_update(s.drop_last(), i, e);
    }
}

/// Appending a record adds its liveness to the count.
pub proof fn lemma_count_live_push(s: Seq<ResourceEntry>, e: ResourceEntry)
    ensures
        count_live(s.push(e)) == count_live(s) + live_val(e),
{
    assert(s.push(e).drop_last() =~= s);
}

/// A sequence with no live record counts zero.
pub proof fn lemma_count_live_zero(s: Seq<ResourceEntry>)
    requires
        forall|i: int| 0 <= i < s.len() ==> !(#[trigger] s[i]).live,
    ensures
        count_live(s) == 0,
    decreases s.len(),
{
    if s.len() > 0 {
        lemma_count_live_zero(s.drop_last());
    }
}

/// One more record in the prefix adds that record's liveness.
pub proof fn lemma_count_live_take_step(s: Seq<ResourceEntry>, i: int)
    requires
        0 <= i < s.len(),
    ensures
        count_live(s.take(i + 1)) == count_live(s.take(i)) + live_val(s[i]),
{
    assert(s.take(i + 1).drop_last() =~= s.take(i));
}

/// Owner of every image resource: allocates backing storage at a fixed
/// binding slot and tracks liveness until release.
pub struct ResourceManager {
    pub entries: Vec<ResourceEntry>,
    pub next_id: u64,
}

impl ResourceManager {
    /// Well-formedness: ids are fresh below `next_id` and unique, and no
    /// two live resources share a binding slot.
    pub open spec fn wf(self) -> bool {
        &&& forall|i: int|
            0 <= i < self.entries@.len() ==> (#[trigger] self.entries@[i]).res.id < self.next_id
        &&& forall|i: int, j: int|
            0 <= i < j < self.entries@.len() ==> (#[trigger] self.entries@[i]).res.id != (
            #[trigger] self.entries@[j]).res.id
        &&& forall|i: int, j: int|
            0 <= i < j < self.entries@.len() && (#[trigger] self.entries@[i]).live && (
            #[trigger] self.entries@[j]).live ==> self.entries@[i].res.slot
                != self.entries@[j].res.slot
    }

    /// Some live resource is bound at `slot`.
    pub open spec fn slot_live(self, slot: u32) -> bool {
        exists|i: int|
            0 <= i < self.entries@.len() && (#[trigger] self.entries@[i]).live
                && self.entries@[i].res.slot == slot
    }

    /// The resource with this id is live.
    pub open spec fn id_live(self, id: u64) -> bool {
        exists|i: int|
            0 <= i < self.entries@.len() && (#[trigger] self.entries@[i]).live
                && self.entries@[i].res.id == id
    }

    /// Number of live resources.
    pub open spec fn n_live(self) -> int {
        count_live(self.entries@)
    }

    /// A fresh manager owning nothing.
    pub fn new() -> (m: ResourceManager)
        ensures
            m.wf(),
            m.entries@ =~= Seq::<ResourceEntry>::empty(),
            m.next_id == 0,
            m.n_live() == 0,
    {
        ResourceManager { entries: Vec::new(), next_id: 0 }
    }

    /// Whether some live resource is bound at `slot`.
    pub fn slot_in_use(&self, slot: u32) -> (b: bool)
        ensures
            b == self.slot_live(slot),
    {
        let mut i: usize = 0;
        while i < self.entries.len()
            invariant
                i <= self.entries@.len(),
                forall|k: int|
                    0 <= k < i ==> !((#[trigger] self.entries@[k]).live && self.entries@[k].res.slot
                        == slot),
            decreases self.entries@.len() - i,
        {
            if self.entries[i].live && self.entries[i].res.slot == slot {
                return true;
            }
            i = i + 1;
        }
        false
    }

    /// Create backing storage of exactly `width` x `height` (times the layer
    /// count for layered resources) in the requested format, bound for
    /// read-write access at `slot`. Fails with `SlotConflict` if a live
    /// resource already holds the slot, and with `Allocation` if the device
    /// rejects the size, reporting the requested parameters either way.
    pub fn allocate(
        &mut self,
        width: u32,
        height: u32,
        format: PixelFormat,
        dim: Dimensionality,
        slot: u32,
    ) -> (r: Result<ImageResource, ResourceError>)
        requires
            old(self).wf(),
            old(self).next_id < u64::MAX,
        ensures
            final(self).wf(),
            old(self).slot_live(slot) ==> r == Err::<ImageResource, ResourceError>(
                (ResourceError::SlotConflict { slot }),
            ) && *final(self) == *old(self),
            !old(self).slot_live(slot) && !dims_valid(width, height) ==> r == Err::<
                ImageResource,
                ResourceError,
            >((ResourceError::Allocation { width, height, format, slot })) && *final(self) == *old(
                self,
            ),
            !old(self).slot_live(slot) && dims_valid(width, height) ==> ({
                let res = (ImageResource {
                    id: old(self).next_id,
                    width,
                    height,
                    format,
                    dim,
                    slot,
                });
                &&& r == Ok::<ImageResource, ResourceError>(res)
                &&& final(self).entries@ =~= old(self).entries@.push(
                    (ResourceEntry { res, live: true }),
                )
                &&& final(self).next_id == old(self).next_id + 1
                &&& final(self).n_live() == old(self).n_live() + 1
                &&& final(self).slot_live(slot)
            }),
    {
        if self.slot_in_use(slot) {
            return Err(ResourceError::SlotConflict { slot });
        }
        if !(1 <= width && width <= MAX_IMAGE_DIM && 1 <= height && height <= MAX_IMAGE_DIM) {
            return Err(ResourceError::Allocation { width, height, format, slot });
        }
        let res = ImageResource { id: self.next_id, width, height, format, dim, slot };
        let entry = ResourceEntry { res, live: true };
        proof {
            lemma_count_live_push(self.entries@, entry);
        }
        self.entries.push(entry);
        self.next_id = self.next_id + 1;
        assert(self.slot_live(slot)) by {
            assert(self.entries@[self.entries@.len() - 1].live);
        }
        Ok(res)
    }

    /// Free the backing storage of a live resource. A second release of the
    /// same resource fails with `NotLive` and changes nothing: liveness is
    /// tracked so a double release is an error, never silently unsafe.
    pub fn release(&mut self, res: &ImageResource) -> (r: Result<(), ResourceError>)
        requires
            old(self).wf(),
        ensures
            final(self).wf(),
            final(self).next_id == old(self).next_id,
            final(self).entries@.len() == old(self).entries@.len(),
            forall|j: int|
                0 <= j < old(self).entries@.len() && (#[trigger] old(self).entries@[j]).res.id
                    != res.id ==> final(self).entries@[j] == old(self).entries@[j],
            forall|j: int|
                0 <= j < old(self).entries@.len() ==> (#[trigger] final(self).entries@[j]).res
                    == old(self).entries@[j].res,
            !old(self).id_live(res.id) ==> r == Err::<(), ResourceError>(
                (ResourceError::NotLive { id: res.id }),
            ) && *final(self) == *old(self),
            old(self).id_live(res.id) ==> r == Ok::<(), ResourceError>(()) && !final(self).id_live(
                res.id,
            ) && final(self).n_live() == old(self).n_live() - 1,
    {
        let mut i: usize = 0;
        while i < self.entries.len()
            invariant
                *self == *old(self),
                old(self).wf(),
                i <= self.entries@.len(),
                forall|k: int|
                    0 <= k < i ==> !((#[trigger] self.entries@[k]).live && self.entries@[k].res.id
                        == res.id),
            decreases self.entries@.len() - i,
        {
            let e = self.entries[i];
            if e.live && e.res.id == res.id {
                let dead = ResourceEntry { res: e.res, live: false };
                proof {
                    lemma_count_live_update(self.entries@, i as int, dead);
                }
                self.entries.set(i, dead);
                proof {
                    assert forall|j: int|
                        0 <= j < self.entries@.len() && (#[trigger] self.entries@[j]).live implies
                        self.entries@[j].res.id != res.id by {
                        if j != i {
                            assert(self.entries@[j] == old(self).entries@[j]);
                            assert(old(self).entries@[i as int].res.id == res.id);
                        }
                    }
                }
                return Ok(());
            }
            i = i + 1;
        }
        Err(ResourceError::NotLive { id: res.id })
    }

    /// Number of live resources, for the teardown invariant that the count
    /// drops to zero.
    pub fn live_count(&self) -> (n: usize)
        ensures
            n == self.n_live(),
    {
        let mut n: usize = 0;
        let mut i: usize = 0;
        proof {
            assert(self.entries@.take(0) =~= Seq::<ResourceEntry>::empty());
        }
        while i < self.entries.len()
            invariant
                i <= self.entries@.len(),
                n <= i,
                n == count_live(self.entries@.take(i as int)),
            decreases self.entries@.len() - i,
        {
            proof {
                lemma_count_live_take_step(self.entries@, i as int);
            }
            if self.entries[i].live {
                n = n + 1;
            }
            i = i + 1;
        }
        proof {
            assert(self.entries@.take(self.entries@.len() as int) =~= self.entries@);
        }
        n
    }

    /// Release every still-live resource, each exactly once: afterwards no
    /// entry is live and the live count is zero.
    pub fn release_all(&mut self)
        requires
            old(self).wf(),
        ensures
            final(self).wf(),
            final(self).next_id == old(self).next_id,
            final(self).entries@.len() == old(self).entries@.len(),
            forall|j: int|
                0 <= j < old(self).entries@.len() ==> (#[trigger] final(self).entries@[j]).res
                    == old(self).entries@[j].res && !final(self).entries@[j].live,
            final(self).n_live() == 0,
    {
        let ghost pre = *self;
        let mut i: usize = 0;
        while i < self.entries.len()
            invariant
                self.next_id == pre.next_id,
                self.entries@.len() == pre.entries@.len(),
                i <= self.entries@.len(),
                forall|j: int|
                    0 <= j < self.entries@.len() ==> (#[trigger] self.entries@[j]).res
                        == pre.entries@[j].res,
                forall|j: int| 0 <= j < i ==> !(#[trigger] self.entries@[j]).live,
                pre.wf(),
            decreases self.entries@.len() - i,
        {
            let e = self.entries[i];
            self.entries.set(i, ResourceEntry { res: e.res, live: false });
            i = i + 1;
        }
        proof {
            lemma_count_live_zero(self.entries@);
            assert forall|i: int|
                0 <= i < self.entries@.len() implies (#[trigger] self.entries@[i]).res.id
                < self.next_id by {
                assert(pre.entries@[i].res.id < pre.next_id);
            }
            assert forall|i: int, j: int|
                0 <= i < j < self.entries@.len() implies (#[trigger] self.entries@[i]).res.id != (
            #[trigger] self.entries@[j]).res.id by {
                assert(pre.entries@[i].res.id != pre.entries@[j].res.id);
            }
        }
    }
}

/// How slot liveness changes when one record is appended: a slot is live
/// afterwards exactly when it was live before or the new record binds it.
pub proof fn lemma_slot_live_push(pre: ResourceManager, post: ResourceManager, e: ResourceEntry, t: u32)
    requires
        post.entries@ =~= pre.entries@.push(e),
    ensures
        post.slot_live(t) <==> (pre.slot_live(t) || (e.live && e.res.slot == t)),
{
    if pre.slot_live(t) {
        let i = choose|i: int|
            0 <= i < pre.entries@.len() && (#[trigger] pre.entries@[i]).live
                && pre.entries@[i].res.slot == t;
        assert(post.entries@[i] == pre.entries@[i]);
        assert(post.slot_live(t));
    }
    if e.live && e.res.slot == t {
        assert(post.entries@[post.entries@.len() - 1] == e);
        assert(post.slot_live(t));
    }
    if post.slot_live(t) {
        let i = choose|i: int|
            0 <= i < post.entries@.len() && (#[trigger] post.entries@[i]).live
                && post.entries@[i].res.slot == t;
        if i < pre.entries@.len() {
            assert(pre.entries@[i] == post.entries@[i]);
            assert(pre.slot_live(t));
        } else {
            assert(post.entries@[i] == e);
        }
    }
}

/// A pair of image slots standing for the current and next values of one
/// simulated field: a step kernel reads the front and writes the back, so
/// it never targets one resource in both roles within a dispatch.
#[derive(Clone, Copy, PartialEq, Eq, Structural, Debug)]
pub struct DoubleBufferedField {
    pub front: u32,
    pub back: u32,
}

impl DoubleBufferedField {
    /// The two roles never share a resource.
    pub open spec fn wf(self) -> bool {
        self.front != self.back
    }

    /// Make a field scheme over two distinct slots.
    pub fn new(front: u32, back: u32) -> (f: DoubleBufferedField)
        requires
            front != back,
        ensures
            f.wf(),
            f.front == front,
            f.back == back,
    {
        DoubleBufferedField { front, back }
    }

    /// Swap the roles atomically between frames, never mid-dispatch.
    pub fn swap(&mut self)
        requires
            old(self).wf(),
        ensures
            final(self).wf(),
            final(self).front == old(self).back,
            final(self).back == old(self).front,
    {
        let f = self.front;
        self.front = self.back;
        self.back = f;
    }
}

} // verus!
