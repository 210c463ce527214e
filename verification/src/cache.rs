//! Bookkeeping for GPU-resident resources: the vertex-buffer hysteresis
//! that decides when a buffer is reallocated, and the pipeline/bundle
//! cache that decides when those objects are rebuilt. The decisions are
//! made here, on plain values; performing the reallocation or rebuild is
//! the caller's business.

use vstd::prelude::*;

verus! {

/// Width and height of a render surface, in pixels.
#[derive(Clone, Copy, Debug, PartialEq, Eq, Structural)]
pub struct Size {
    pub width: u32,
    pub height: u32,
}

impl Size {
    pub fn new(width: u32, height: u32) -> (r: Size)
        ensures
            r.width == width,
            r.height == height,
    {
        Size { width, height }
    }
}

/// Item capacity and generation counter of one GPU buffer. The generation
/// changes exactly when the buffer is reallocated, so a downstream cache
/// can compare generations to detect that the GPU object identity changed
/// rather than merely its contents.
#[derive(Clone, Copy, Debug, PartialEq, Eq, Structural)]
pub struct ItemBufferState {
    /// Item count the current allocation was sized for.
    pub capacity: usize,
    /// Items currently in use; at most `capacity`.
    pub num_items: usize,
    /// Bumped once per reallocation.
    pub generation: u64,
}

/// Whether writing `new_len` items requires a fresh allocation: the data
/// outgrew the buffer, or shrank below half of it (hysteresis, so that
/// small oscillations in length do not reallocate every frame).
pub open spec fn needs_realloc(capacity: usize, new_len: usize) -> bool {
    new_len > capacity || new_len < capacity / 2
}

/// The state after an update with `new_len` items, paired with the
/// reallocation decision.
pub open spec fn item_buffer_update_spec(pre: ItemBufferState, new_len: usize) -> (
    ItemBufferState,
    bool,
) {
    if needs_realloc(pre.capacity, new_len) {
        (
            ItemBufferState {
                capacity: new_len,
                num_items: new_len,
                generation: ((pre.generation + 1) as u64),
            },
            true,
        )
    } else {
        (ItemBufferState { capacity: pre.capacity, num_items: new_len, ..pre }, false)
    }
}

impl ItemBufferState {
    /// A buffer freshly allocated for `num_items` items.
    pub fn new(num_items: usize) -> (r: ItemBufferState)
        ensures
            r.capacity == num_items,
            r.num_items == num_items,
            r.generation == 0,
    {
        ItemBufferState { capacity: num_items, num_items, generation: 0 }
    }

    /// Record that `new_len` items are about to be written. Returns true
    /// when the caller must reallocate the GPU buffer (sized exactly to
    /// `new_len`) before writing; the generation counter is bumped in
    /// exactly that case.
    pub fn update(&mut self, new_len: usize) -> (realloc: bool)
        requires
            old(self).generation < u64::MAX,
        ensures
            (*final(self), realloc) == item_buffer_update_spec(*old(self), new_len),
    {
        let realloc = new_len > self.capacity || new_len < self.capacity / 2;
        if realloc {
            self.capacity = new_len;
            self.generation = self.generation + 1;
        }
        self.num_items = new_len;
        realloc
    }

    /// The buffer's identity tag, compared by the render cache.
    pub fn id(&self) -> (r: u64)
        ensures
            r == self.generation,
    {
        self.generation
    }

    pub fn num_items(&self) -> (r: usize)
        ensures
            r == self.num_items,
    {
        self.num_items
    }
}

/// Reallocation keeps the logical length within the new capacity, and the
/// generation moves exactly when the allocation is replaced: equal
/// generations across an update mean the GPU object survived it.
pub proof fn lemma_item_buffer_update(pre: ItemBufferState, new_len: usize)
    requires
        pre.generation < u64::MAX,
        pre.num_items <= pre.capacity,
    ensures
        ({
            let (post, realloc) = item_buffer_update_spec(pre, new_len);
            &&& realloc == needs_realloc(pre.capacity, new_len)
            &&& post.num_items == new_len
            &&& post.num_items <= post.capacity
            &&& (post.generation == pre.generation <==> !realloc)
            &&& (!realloc ==> post.capacity == pre.capacity)
            &&& (realloc ==> post.capacity == new_len)
        }),
{
}

/// Which shader pair an icosphere renderer draws with, looked up by name
/// in the shader registry when the pipeline is built.
#[derive(Clone, Copy, Debug)]
pub struct IcoRendererSettings {
    /// Vertex-shader name.
    pub vs: &'static str,
    /// Fragment-shader name.
    pub fs: &'static str,
}

/// Which of the two cached GPU objects a caller wants rebuilt on the next
/// update: the render pipeline (after a multisample or format change) or
/// the recorded bundle.
pub enum RendererInvalid {
    Pipeline,
    Bundle,
}

/// What one call to [`Renderer::update`] asks the caller to rebuild.
#[derive(Clone, Copy, Debug, PartialEq, Eq, Structural)]
pub struct Rebuild {
    /// Build a new pipeline object before the bundle.
    pub pipeline: bool,
    /// Record a new bundle against the current pipeline and data.
    pub bundle: bool,
}

/// Validity tracking for a pipeline/bundle pair, plus the last-seen
/// identity of the data the bundle was recorded from. A bundle is never
/// left referencing a stale pipeline, and a data-identity change always
/// forces the bundle to be re-recorded.
#[derive(Clone, Copy, Debug, PartialEq, Eq, Structural)]
pub struct Renderer {
    pub pipeline_valid: bool,
    pub bundle_valid: bool,
    /// Data identity (buffer generation) the bundle was last built from.
    pub last_id: u64,
}

/// The state after an update that observed data identity `data_id`,
/// paired with the rebuild work that the update demands.
pub open spec fn renderer_update_spec(pre: Renderer, data_id: u64) -> (Renderer, Rebuild) {
    let rebuild_pipeline = !pre.pipeline_valid;
    let rebuild_bundle = data_id != pre.last_id || !pre.pipeline_valid || !pre.bundle_valid;
    (
        Renderer { pipeline_valid: true, bundle_valid: true, last_id: data_id },
        Rebuild { pipeline: rebuild_pipeline, bundle: rebuild_bundle },
    )
}

impl Renderer {
    /// The state right after first construction, where the pipeline and
    /// the bundle have both just been built from data of identity
    /// `data_id`.
    pub fn new(data_id: u64) -> (r: Renderer)
        ensures
            r.pipeline_valid,
            r.bundle_valid,
            r.last_id == data_id,
    {
        Renderer { pipeline_valid: true, bundle_valid: true, last_id: data_id }
    }

    /// Per-frame maintenance: compare the data identity against the last
    /// one seen, then report which objects must be rebuilt, in order
    /// (pipeline first, then bundle). Afterwards both parts are valid.
    pub fn update(&mut self, data_id: u64) -> (plan: Rebuild)
        ensures
            (*final(self), plan) == renderer_update_spec(*old(self), data_id),
    {
        if data_id != self.last_id {
            self.last_id = data_id;
            self.bundle_valid = false;
        }
        let rebuild_pipeline = !self.pipeline_valid;
        if rebuild_pipeline {
            self.pipeline_valid = true;
            self.bundle_valid = false;
        }
        let rebuild_bundle = !self.bundle_valid;
        if rebuild_bundle {
            self.bundle_valid = true;
        }
        Rebuild { pipeline: rebuild_pipeline, bundle: rebuild_bundle }
    }

    /// Externally force one of the two objects to be rebuilt on the next
    /// update.
    pub fn invalid(&mut self, invalid: RendererInvalid)
        ensures
            match invalid {
                RendererInvalid::Pipeline => *final(self) == Renderer {
                    pipeline_valid: false,
                    ..*old(self)
                },
                RendererInvalid::Bundle => *final(self) == Renderer {
                    bundle_valid: false,
                    ..*old(self)
                },
            },
    {
        match invalid {
            RendererInvalid::Pipeline => self.pipeline_valid = false,
            RendererInvalid::Bundle => self.bundle_valid = false,
        }
    }
}

/// When a bundle rebuild happens, exactly: on any data-identity change, on
/// any pipeline rebuild (including one forced by an explicit
/// invalidation), and never on an update whose data identity is unchanged
/// while both parts are valid. A pipeline rebuild happens exactly when the
/// pipeline was invalidated.
pub proof fn lemma_renderer_rebuild_conditions(pre: Renderer, data_id: u64)
    ensures
        ({
            let (post, plan) = renderer_update_spec(pre, data_id);
            &&& plan.pipeline == !pre.pipeline_valid
            &&& plan.bundle == (data_id != pre.last_id || !pre.pipeline_valid
                || !pre.bundle_valid)
            &&& plan.pipeline ==> plan.bundle
            &&& (data_id == pre.last_id && pre.pipeline_valid && pre.bundle_valid ==> plan
                == Rebuild { pipeline: false, bundle: false })
            &&& post == Renderer { pipeline_valid: true, bundle_valid: true, last_id: data_id }
        }),
{
}

} // verus!
