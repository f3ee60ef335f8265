use crate::handles::{RenderResourceHandle, RenderResourceType};
use crate::pipeline::{
    ComputePipeline, RasterPipeline, RasterPipelineDesc, RenderTarget, MAX_RENDER_TARGET_COUNT,
};
use crate::resource::RenderFormat;
use crate::shader_cache::{ShaderCacheEntry, ShaderCacheOutput, ShaderError};
use crate::tracking::TrackingResourceHandleAllocator;
use std::collections::HashMap;
use std::sync::Arc;
use vstd::prelude::*;

verus! {

broadcast use vstd::std_specs::hash::group_hash_axioms;

/// A small number per handle kind, used to pack a handle into one integer.
pub open spec fn kind_code(k: RenderResourceType) -> u64 {
    match k {
        RenderResourceType::Texture => 0,
        RenderResourceType::Buffer => 1,
        RenderResourceType::Shader => 2,
        RenderResourceType::ComputePipelineState => 3,
        RenderResourceType::GraphicsPipelineState => 4,
        RenderResourceType::ShaderViews => 5,
        RenderResourceType::FrameBindingSet => 6,
        RenderResourceType::RenderPass => 7,
        RenderResourceType::CommandList => 8,
        RenderResourceType::Fence => 9,
    }
}

/// A handle packed into one integer: kind above, slot number below.
pub open spec fn handle_key(h: RenderResourceHandle) -> u64 {
    (kind_code(h.kind) * 0x1_0000_0000 + h.index as u64) as u64
}

fn make_handle_key(h: RenderResourceHandle) -> (r: u64)
    ensures
        r == handle_key(h),
{
    let code: u64 = match h.kind {
        RenderResourceType::Texture => 0,
        RenderResourceType::Buffer => 1,
        RenderResourceType::Shader => 2,
        RenderResourceType::ComputePipelineState => 3,
        RenderResourceType::GraphicsPipelineState => 4,
        RenderResourceType::ShaderViews => 5,
        RenderResourceType::FrameBindingSet => 6,
        RenderResourceType::RenderPass => 7,
        RenderResourceType::CommandList => 8,
        RenderResourceType::Fence => 9,
    };
    code * 0x1_0000_0000 + h.index as u64
}

/// Distinct handles have distinct keys.
pub proof fn lemma_handle_key_injective(a: RenderResourceHandle, b: RenderResourceHandle)
    ensures
        handle_key(a) == handle_key(b) ==> a == b,
{
    let ca = kind_code(a.kind);
    let cb = kind_code(b.kind);
    let ia = a.index as u64;
    let ib = b.index as u64;
    if handle_key(a) == handle_key(b) {
        assert(ca == cb && ia == ib) by (nonlinear_arith)
            requires
                ca <= 9,
                cb <= 9,
                ia < 0x1_0000_0000,
                ib < 0x1_0000_0000,
                ca * 0x1_0000_0000 + ia == cb * 0x1_0000_0000 + ib,
        ;
        assert(a.kind == b.kind);
    }
}

/// A compute pipeline that the device must create before it can be cached.
pub struct ComputePipelineRequest {
    pub shader_handle: RenderResourceHandle,
    pub srv_count: u32,
    pub uav_count: u32,
    pub pipeline: ComputePipeline,
}

/// The outcome of a compute lookup: a cached pipeline, or one to create.
pub enum ComputeLookup {
    Cached(Arc<ComputePipeline>),
    Create(ComputePipelineRequest),
}

/// What identifies a graphics pipeline: its two shaders, the formats of
/// its color targets and a hash of its fixed-function state.
#[derive(Clone, Copy, Debug)]
pub struct RasterPipelineKey {
    pub vertex_shader: RenderResourceHandle,
    pub pixel_shader: RenderResourceHandle,
    pub render_target_formats: [RenderFormat; 8],
    pub render_state_hash: u64,
}

/// The pipeline was built from the shader whose handle has key `s`.
pub open spec fn uses(key: RasterPipelineKey, s: u64) -> bool {
    handle_key(key.vertex_shader) == s || handle_key(key.pixel_shader) == s
}

/// A cached graphics pipeline, under its arena id.
pub struct RasterPipelineEntry {
    pub id: usize,
    pub key: RasterPipelineKey,
    pub pipeline: Arc<RasterPipeline>,
}

/// A graphics pipeline that the device must create before it can be cached.
pub struct RasterPipelineRequest {
    pub key: RasterPipelineKey,
    pub render_target_count: u32,
    pub pipeline: RasterPipeline,
}

/// The outcome of a raster lookup: a cached pipeline, or one to create.
pub enum RasterLookup {
    Cached(Arc<RasterPipeline>),
    Create(RasterPipelineRequest),
}

/// The cached pipelines.
pub struct Pipelines {
    /// Compute pipelines by the key of their shader's handle.
    pub compute_shader_to_pipeline: HashMap<u64, Arc<ComputePipeline>>,
    /// Graphics pipelines, at most one per key.
    pub raster_pipelines: Vec<RasterPipelineEntry>,
    /// For the key of each shader handle, the ids of the graphics pipelines
    /// built from it.
    pub raster_shader_to_pipelines: HashMap<u64, Vec<usize>>,
    /// The id the next graphics pipeline gets.
    pub next_raster_pipeline_id: usize,
}

/// Relies on wyhash::wyhash: a 64-bit hash determined by the bytes and the
/// seed alone.
pub uninterp spec fn wyhash_of(bytes: Seq<u8>, seed: u64) -> u64;

/// Relies on wyhash::wyhash, which hashes `bytes` with `seed`.
#[verifier::external_body]
fn hash_bytes(bytes: &[u8], seed: u64) -> (r: u64)
    ensures
        r == wyhash_of(bytes@, seed),
{
    wyhash::wyhash(bytes, seed)
}

/// The format each color slot of `rt` contributes to a pipeline key.
pub open spec fn formats_of(rt: RenderTarget) -> Seq<RenderFormat> {
    Seq::new(
        8,
        |i: int|
            match rt.color@[i] {
                Some(f) => f,
                None => RenderFormat::Unknown,
            },
    )
}

/// The number of occupied slots among `s`.
pub open spec fn count_some(s: Seq<Option<RenderFormat>>) -> nat
    decreases s.len(),
{
    if s.len() == 0 {
        0
    } else {
        count_some(s.drop_last()) + if s.last() is Some {
            1nat
        } else {
            0nat
        }
    }
}

fn list_contains(v: &Vec<usize>, x: usize) -> (r: bool)
    ensures
        r == v@.contains(x),
{
    let mut i: usize = 0;
    while i < v.len()
        invariant
            i <= v@.len(),
            forall|j: int| 0 <= j < i ==> v@[j] != x,
        decreases v@.len() - i,
    {
        if v[i] == x {
            return true;
        }
        i = i + 1;
    }
    false
}

/// The items of `v` that are not in `drop`.
fn list_without(v: &Vec<usize>, drop: &Vec<usize>) -> (r: Vec<usize>)
    ensures
        forall|x: usize| r@.contains(x) <==> (v@.contains(x) && !drop@.contains(x)),
{
    let mut r: Vec<usize> = Vec::new();
    let mut i: usize = 0;
    while i < v.len()
        invariant
            i <= v@.len(),
            forall|x: usize|
                r@.contains(x) <==> (v@.subrange(0, i as int).contains(x) && !drop@.contains(x)),
        decreases v@.len() - i,
    {
        let x = v[i];
        let ghost before = r@;
        let skip = list_contains(drop, x);
        if !skip {
            r.push(x);
        }
        proof {
            assert(v@.subrange(0, i + 1) =~= v@.subrange(0, i as int).push(x));
            assert forall|y: usize| r@.contains(y) <==> (v@.subrange(0, i + 1).contains(y) && !drop@.contains(y)) by {
                let p = v@.subrange(0, i as int);
                assert(v@.subrange(0, i + 1).contains(y) <==> (p.contains(y) || y == x)) by {
                    if v@.subrange(0, i + 1).contains(y) {
                        let j = choose|j: int| 0 <= j < i + 1 && #[trigger] v@.subrange(0, i + 1)[j] == y;
                        if j < i {
                            assert(p[j] == y);
                        }
                    }
                    if p.contains(y) {
                        let j = choose|j: int| 0 <= j < i && #[trigger] p[j] == y;
                        assert(v@.subrange(0, i + 1)[j] == y);
                    }
                    if y == x {
                        assert(v@.subrange(0, i + 1)[i as int] == y);
                    }
                }
                if skip {
                    assert(r@ == before);
                } else {
                    assert(r@ == before.push(x));
                    assert(r@.contains(y) <==> (before.contains(y) || y == x)) by {
                        if r@.contains(y) {
                            let j = choose|j: int| 0 <= j < r@.len() && #[trigger] r@[j] == y;
                            if j < before.len() {
                                assert(before[j] == y);
                            }
                        }
                        if before.contains(y) {
                            let j = choose|j: int| 0 <= j < before.len() && #[trigger] before[j] == y;
                            assert(r@[j] == y);
                        }
                        if y == x {
                            assert(r@[before.len() as int] == y);
                        }
                    }
                }
            }
        }
        i = i + 1;
    }
    assert(v@.subrange(0, v@.len() as int) =~= v@);
    r
}

fn keys_equal(a: &RasterPipelineKey, b: &RasterPipelineKey) -> (r: bool)
    ensures
        r == (*a == *b),
{
    if a.vertex_shader != b.vertex_shader || a.pixel_shader != b.pixel_shader
        || a.render_state_hash != b.render_state_hash {
        return false;
    }
    let mut i: usize = 0;
    while i < MAX_RENDER_TARGET_COUNT
        invariant
            i <= 8,
            forall|j: int| 0 <= j < i ==> a.render_target_formats@[j] == b.render_target_formats@[j],
        decreases 8 - i,
    {
        if a.render_target_formats[i] != b.render_target_formats[i] {
            return false;
        }
        i = i + 1;
    }
    assert(a.render_target_formats@ =~= b.render_target_formats@);
    proof {
        vstd::array::axiom_array_ext_equal(a.render_target_formats, b.render_target_formats);
    }
    assert(a.render_target_formats == b.render_target_formats);
    true
}

/// Memoizes pipelines by shader identity, and forgets them when the shader
/// cache reports that it recompiled a shader.
pub struct PipelineCache {
    pub pipelines: Pipelines,
}

/// The compute map after the eviction that `retired` calls for.
pub open spec fn compute_after_retire(
    m: Map<u64, Arc<ComputePipeline>>,
    retired: Option<ShaderCacheEntry>,
) -> Map<u64, Arc<ComputePipeline>> {
    match retired {
        Some(e) => m.remove(handle_key(e.spec_shader_handle())),
        None => m,
    }
}

impl PipelineCache {
    pub fn new() -> (r: Self)
        ensures
            r.wf(),
            r.compute_map() == Map::<u64, Arc<ComputePipeline>>::empty(),
            r.raster_arena().len() == 0,
    {
        let r = PipelineCache {
            pipelines: Pipelines {
                compute_shader_to_pipeline: HashMap::new(),
                raster_pipelines: Vec::new(),
                raster_shader_to_pipelines: HashMap::new(),
                next_raster_pipeline_id: 0,
            },
        };
        r
    }

    /// The graphics pipelines and their index are those of `other`.
    pub open spec fn same_raster(&self, other: Self) -> bool {
        &&& self.raster_arena() == other.raster_arena()
        &&& self.raster_index() == other.raster_index()
        &&& self.pipelines.next_raster_pipeline_id == other.pipelines.next_raster_pipeline_id
    }

    pub open spec fn raster_arena(&self) -> Seq<RasterPipelineEntry> {
        self.pipelines.raster_pipelines@
    }

    pub open spec fn raster_index(&self) -> Map<u64, Vec<usize>> {
        self.pipelines.raster_shader_to_pipelines@
    }

    /// Arena entries have distinct ids and keys, below the next id; the
    /// index lists each entry under both of its shaders; and every id the
    /// index lists is that of an entry built from the shader it is listed
    /// under.
    pub open spec fn wf(&self) -> bool {
        let arena = self.raster_arena();
        let index = self.raster_index();
        let next = self.pipelines.next_raster_pipeline_id;
        &&& forall|i: int, j: int|
            0 <= i < arena.len() && 0 <= j < arena.len() && i != j ==> #[trigger] arena[i].id
                != #[trigger] arena[j].id && arena[i].key != arena[j].key
        &&& forall|i: int| 0 <= i < arena.len() ==> (#[trigger] arena[i]).id < next
        &&& forall|i: int|
            0 <= i < arena.len() ==> {
                &&& index.contains_key(handle_key((#[trigger] arena[i]).key.vertex_shader))
                &&& index[handle_key(arena[i].key.vertex_shader)]@.contains(arena[i].id)
                &&& index.contains_key(handle_key(arena[i].key.pixel_shader))
                &&& index[handle_key(arena[i].key.pixel_shader)]@.contains(arena[i].id)
            }
        &&& forall|s: u64, x: usize|
            index.contains_key(s) && (#[trigger] index[s]@.contains(x)) ==> {
                &&& x < next
                &&& exists|i: int| 0 <= i < arena.len() && (#[trigger] arena[i]).id == x
                &&& forall|i: int| 0 <= i < arena.len() && (#[trigger] arena[i]).id == x ==> uses(arena[i].key, s)
            }
    }

    /// Drops every graphics pipeline built from the shader with key `k`, and
    /// scrubs their ids from the lists of their other shaders.
    fn evict_raster_shader(&mut self, k: u64)
        requires
            old(self).wf(),
        ensures
            final(self).wf(),
            final(self).compute_map() == old(self).compute_map(),
            final(self).pipelines.next_raster_pipeline_id == old(self).pipelines.next_raster_pipeline_id,
            forall|e: RasterPipelineEntry|
                final(self).raster_arena().contains(e) <==> (old(self).raster_arena().contains(e)
                    && !uses(e.key, k)),
    {
        let ghost arena0 = self.raster_arena();
        let ghost index0 = self.raster_index();
        let ids = match self.pipelines.raster_shader_to_pipelines.remove(&k) {
            Some(ids) => ids,
            None => {
                proof {
                    assert forall|e: RasterPipelineEntry| arena0.contains(e) implies !uses(e.key, k) by {
                        let i = choose|i: int| 0 <= i < arena0.len() && arena0[i] == e;
                        assert(index0.contains_key(handle_key(arena0[i].key.vertex_shader)));
                    }
                }
                return;
            },
        };
        assert(ids@ == index0[k]@);
        let mut kept: Vec<RasterPipelineEntry> = Vec::new();
        let mut removed: Vec<RasterPipelineKey> = Vec::new();
        let ghost n = arena0.len();
        while self.pipelines.raster_pipelines.len() > 0
            invariant
                n == arena0.len(),
                old(self).wf(),
                arena0 == old(self).raster_arena(),
                index0 == old(self).raster_index(),
                index0.contains_key(k),
                self.raster_arena().len() <= n,
                forall|i: int, j: int|
                    0 <= i < kept@.len() && 0 <= j < kept@.len() && i != j ==> #[trigger] kept@[i].id
                        != #[trigger] kept@[j].id && kept@[i].key != kept@[j].key,
                self.raster_index() == index0.remove(k),
                self.compute_map() == old(self).compute_map(),
                self.pipelines.next_raster_pipeline_id == old(self).pipelines.next_raster_pipeline_id,
                ids@ == index0[k]@,
                kept@.len() + removed@.len() + self.raster_arena().len() == n,
                self.raster_arena() == arena0.subrange(n - self.raster_arena().len(), n as int),
                forall|e: RasterPipelineEntry|
                    kept@.contains(e) <==> (arena0.subrange(0, n - self.raster_arena().len()).contains(e)
                        && !ids@.contains(e.id)),
                forall|j: int| 0 <= j < removed@.len() ==> exists|i: int|
                    0 <= i < n - self.raster_arena().len() && arena0[i].key == #[trigger] removed@[j]
                        && ids@.contains(arena0[i].id),
                forall|i: int| 0 <= i < n - self.raster_arena().len() && ids@.contains(#[trigger] arena0[i].id)
                    ==> removed@.contains(arena0[i].key),
            decreases self.raster_arena().len(),
        {
            let ghost done = n - self.raster_arena().len();
            let ghost rest = self.raster_arena();
            assert(rest[0] == arena0[done]);
            let e = self.pipelines.raster_pipelines.remove(0);
            assert(e == arena0[done]);
            let ghost kept_before = kept@;
            let ghost removed_before = removed@;
            let in_ids = list_contains(&ids, e.id);
            if in_ids {
                removed.push(e.key);
            } else {
                kept.push(e);
            }
            proof {
                assert(self.raster_arena() =~= arena0.subrange(done + 1, n as int));
                assert forall|i: int, j: int|
                    0 <= i < kept@.len() && 0 <= j < kept@.len() && i != j implies #[trigger] kept@[i].id
                        != #[trigger] kept@[j].id && kept@[i].key != kept@[j].key by {
                    if i < kept_before.len() && j < kept_before.len() {
                        assert(kept@[i] == kept_before[i] && kept@[j] == kept_before[j]);
                        assert(kept_before[i].id != kept_before[j].id);
                        assert(kept_before[i].key != kept_before[j].key);
                    } else if i < kept_before.len() {
                        assert(kept_before.contains(kept@[i]));
                        assert(arena0.subrange(0, done).contains(kept@[i]));
                        let i0 = choose|i0: int| 0 <= i0 < done && arena0.subrange(0, done)[i0] == kept@[i];
                        assert(arena0[i0] == kept@[i]);
                        assert(kept@[j] == arena0[done]);
                        assert(arena0[i0].id != arena0[done].id && arena0[i0].key != arena0[done].key);
                    } else {
                        assert(kept_before.contains(kept@[j]));
                        assert(arena0.subrange(0, done).contains(kept@[j]));
                        let j0 = choose|j0: int| 0 <= j0 < done && arena0.subrange(0, done)[j0] == kept@[j];
                        assert(arena0[j0] == kept@[j]);
                        assert(kept@[i] == arena0[done]);
                        assert(arena0[j0].id != arena0[done].id && arena0[j0].key != arena0[done].key);
                    }
                }
                assert(arena0.subrange(0, done + 1) =~= arena0.subrange(0, done).push(arena0[done]));
                assert forall|x: RasterPipelineEntry| kept@.contains(x) <==> (arena0.subrange(0, done + 1).contains(x)
                    && !ids@.contains(x.id)) by {
                    if in_ids {
                        assert(kept@ == kept_before);
                    } else {
                        assert(kept@ == kept_before.push(arena0[done]));
                    }
                    if kept@.contains(x) && x != arena0[done] {
                        let j = choose|j: int| 0 <= j < kept@.len() && kept@[j] == x;
                        if j < kept_before.len() {
                            assert(kept_before[j] == x);
                            assert(kept_before.contains(x));
                        }
                        assert(arena0.subrange(0, done).contains(x));
                        let i0 = choose|i0: int| 0 <= i0 < done && arena0.subrange(0, done)[i0] == x;
                        assert(arena0.subrange(0, done + 1)[i0] == x);
                    }
                    if kept@.contains(x) && x == arena0[done] {
                        assert(arena0.subrange(0, done + 1)[done] == x);
                        if in_ids {
                            assert(kept_before.contains(x));
                            assert(arena0.subrange(0, done).contains(x));
                            let i0 = choose|i0: int| 0 <= i0 < done && arena0.subrange(0, done)[i0] == x;
                            assert(arena0[i0].id != arena0[done].id);
                        }
                    }
                    if arena0.subrange(0, done + 1).contains(x) && !ids@.contains(x.id) {
                        let i0 = choose|i0: int| 0 <= i0 < done + 1 && #[trigger] arena0.subrange(0, done + 1)[i0] == x;
                        if i0 < done {
                            assert(arena0.subrange(0, done)[i0] == x);
                        }
                    }
                    if arena0.subrange(0, done).contains(x) && !ids@.contains(x.id) {
                        assert(kept_before.contains(x));
                        let j = choose|j: int| 0 <= j < kept_before.len() && kept_before[j] == x;
                        assert(kept@[j] == x);
                    }
                    if x == arena0[done] && !ids@.contains(x.id) {
                        assert(kept@[kept@.len() - 1] == x);
                    }
                }
                assert forall|j: int| 0 <= j < removed@.len() implies exists|i: int|
                    0 <= i < done + 1 && arena0[i].key == #[trigger] removed@[j] && ids@.contains(arena0[i].id) by {
                    if j < removed_before.len() {
                        assert(removed@[j] == removed_before[j]);
                    } else {
                        assert(arena0[done].key == removed@[j]);
                    }
                }
                assert forall|i: int| 0 <= i < done + 1 && ids@.contains(#[trigger] arena0[i].id)
                    implies removed@.contains(arena0[i].key) by {
                    if i < done {
                        let j = choose|j: int| 0 <= j < removed_before.len() && removed_before[j] == arena0[i].key;
                        assert(removed@[j] == arena0[i].key);
                    } else {
                        assert(removed@[removed@.len() - 1] == arena0[i].key);
                    }
                }
            }
        }
        assert(arena0.subrange(0, n as int) =~= arena0);
        self.pipelines.raster_pipelines = kept;
        let ghost index1 = self.raster_index();
        self.scrub_all(&removed, &ids);
        proof {
            let arena = self.raster_arena();
            let index = self.raster_index();
            assert forall|e: RasterPipelineEntry| arena.contains(e) <==> (arena0.contains(e) && !uses(e.key, k)) by {
                if arena0.contains(e) {
                    let i = choose|i: int| 0 <= i < arena0.len() && arena0[i] == e;
                    if uses(e.key, k) {
                        assert(ids@.contains(e.id));
                    }
                    if ids@.contains(e.id) {
                        assert(index0.contains_key(k) && index0[k]@.contains(e.id));
                    }
                }
            }
            let next = self.pipelines.next_raster_pipeline_id;
            assert forall|i: int| 0 <= i < arena.len() implies (#[trigger] arena[i]).id < next by {
                assert(kept@.contains(arena[i]));
                let i0 = choose|i0: int| 0 <= i0 < arena0.len() && arena0[i0] == arena[i];
            }
            assert forall|i: int| 0 <= i < arena.len() implies {
                &&& index.contains_key(handle_key((#[trigger] arena[i]).key.vertex_shader))
                &&& index[handle_key(arena[i].key.vertex_shader)]@.contains(arena[i].id)
                &&& index.contains_key(handle_key(arena[i].key.pixel_shader))
                &&& index[handle_key(arena[i].key.pixel_shader)]@.contains(arena[i].id)
            } by {
                let e = arena[i];
                assert(kept@.contains(e));
                let i0 = choose|i0: int| 0 <= i0 < arena0.len() && arena0[i0] == e;
                assert(!uses(e.key, k));
            }
            assert forall|s: u64, x: usize|
                index.contains_key(s) && (#[trigger] index[s]@.contains(x)) implies {
                    &&& x < next
                    &&& exists|i: int| 0 <= i < arena.len() && (#[trigger] arena[i]).id == x
                    &&& forall|i: int| 0 <= i < arena.len() && (#[trigger] arena[i]).id == x ==> uses(arena[i].key, s)
                } by {
                assert(index1.contains_key(s));
                assert(index[s]@.contains(x) <==> (index1[s]@.contains(x) && (!ids@.contains(x)
                    || !Self::scrubbed(removed@, removed@.len() as int, s))));
                assert(index1[s] == index0[s]);
                assert(index0.contains_key(s) && index0[s]@.contains(x));
                let i0 = choose|i0: int| 0 <= i0 < arena0.len() && (#[trigger] arena0[i0]).id == x;
                if ids@.contains(x) {
                    assert(removed@.contains(arena0[i0].key));
                    let j = choose|j: int| 0 <= j < removed@.len() && removed@[j] == arena0[i0].key;
                    assert(uses(arena0[i0].key, s));
                    assert(Self::scrubbed(removed@, removed@.len() as int, s));
                }
                assert(kept@.contains(arena0[i0]));
                let j = choose|j: int| 0 <= j < kept@.len() && kept@[j] == arena0[i0];
                assert(arena[j].id == x);
                assert forall|i: int| 0 <= i < arena.len() && (#[trigger] arena[i]).id == x implies uses(arena[i].key, s) by {
                    assert(kept@.contains(arena[i]));
                    let i1 = choose|i1: int| 0 <= i1 < arena0.len() && arena0[i1] == arena[i];
                }
            }
        }
    }

    /// Takes the ids in `ids` out of the lists of both shaders of every key
    /// in `removed`.
    fn scrub_all(&mut self, removed: &Vec<RasterPipelineKey>, ids: &Vec<usize>)
        ensures
            final(self).raster_arena() == old(self).raster_arena(),
            final(self).compute_map() == old(self).compute_map(),
            final(self).pipelines.next_raster_pipeline_id == old(self).pipelines.next_raster_pipeline_id,
            final(self).raster_index().dom() == old(self).raster_index().dom(),
            forall|s: u64, x: usize| final(self).raster_index().contains_key(s) ==> (
                #[trigger] final(self).raster_index()[s]@.contains(x) <==> (old(self).raster_index()[s]@.contains(x)
                    && (!ids@.contains(x) || !Self::scrubbed(removed@, removed@.len() as int, s)))),
    {
        let ghost index1 = self.raster_index();
        let mut r: usize = 0;
        while r < removed.len()
            invariant
                r <= removed@.len(),
                self.raster_arena() == old(self).raster_arena(),
                self.compute_map() == old(self).compute_map(),
                self.pipelines.next_raster_pipeline_id == old(self).pipelines.next_raster_pipeline_id,
                index1 == old(self).raster_index(),
                self.raster_index().dom() == index1.dom(),
                forall|s: u64, x: usize| self.raster_index().contains_key(s) ==> (
                    #[trigger] self.raster_index()[s]@.contains(x) <==> (index1[s]@.contains(x) && (!ids@.contains(x)
                        || !Self::scrubbed(removed@, r as int, s)))),
            decreases removed@.len() - r,
        {
            let key = removed[r];
            let ghost before = self.raster_index();
            let kv = make_handle_key(key.vertex_shader);
            let kp = make_handle_key(key.pixel_shader);
            self.scrub(kv, ids);
            let ghost mid = self.raster_index();
            self.scrub(kp, ids);
            proof {
                let after = self.raster_index();
                assert forall|s: u64, x: usize| after.contains_key(s) implies (
                    #[trigger] after[s]@.contains(x) <==> (index1[s]@.contains(x) && (!ids@.contains(x)
                        || !Self::scrubbed(removed@, r + 1, s)))) by {
                    assert(before.contains_key(s));
                    assert(mid.contains_key(s));
                    let sb = Self::scrubbed(removed@, r as int, s);
                    assert(before[s]@.contains(x) <==> (index1[s]@.contains(x) && (!ids@.contains(x) || !sb)));
                    if s == kv || s == kp {
                        assert(uses(removed@[r as int], s));
                        assert(Self::scrubbed(removed@, r + 1, s));
                        if s == kv {
                            assert(mid[s]@.contains(x) <==> (before[s]@.contains(x) && !ids@.contains(x)));
                        } else {
                            assert(mid[s] == before[s]);
                        }
                        if s == kp {
                            assert(after[s]@.contains(x) <==> (mid[s]@.contains(x) && !ids@.contains(x)));
                        } else {
                            assert(after[s] == mid[s]);
                        }
                    } else {
                        assert(mid[s] == before[s]);
                        assert(after[s] == mid[s]);
                        if Self::scrubbed(removed@, r + 1, s) {
                            let j = choose|j: int| 0 <= j < r + 1 && uses(#[trigger] removed@[j], s);
                            assert(j < r);
                            assert(Self::scrubbed(removed@, r as int, s));
                        }
                    }
                }
            }
            r = r + 1;
        }
    }

    /// `k` is the key of a pipeline from shaders `vs` and `ps`, color
    /// targets `rt` and fixed-function state hash `hash`.
    pub open spec fn key_for(
        k: RasterPipelineKey,
        vs: RenderResourceHandle,
        ps: RenderResourceHandle,
        rt: RenderTarget,
        hash: u64,
    ) -> bool {
        &&& k.vertex_shader == vs
        &&& k.pixel_shader == ps
        &&& k.render_target_formats@ == formats_of(rt)
        &&& k.render_state_hash == hash
    }

    /// The entry was dropped because the shader cache retired one of its
    /// shaders.
    pub open spec fn retired_by(retired: Option<ShaderCacheEntry>, e: RasterPipelineEntry) -> bool {
        retired matches Some(s) && uses(e.key, handle_key(s.spec_shader_handle()))
    }

    /// The effect of a raster lookup: `new` and `handles1` are the cache and
    /// the allocator after a lookup on `old` and `handles0` that returned `r`.
    pub open spec fn raster_lookup(
        old: Self,
        new: Self,
        vertex_shader: ShaderCacheOutput,
        pixel_shader: ShaderCacheOutput,
        hash: u64,
        rt: RenderTarget,
        handles0: TrackingResourceHandleAllocator,
        handles1: TrackingResourceHandleAllocator,
        r: Result<RasterLookup, ShaderError>,
    ) -> bool {
        &&& new.wf()
        &&& new.compute_map() == old.compute_map()
        &&& new.pipelines.next_raster_pipeline_id == old.pipelines.next_raster_pipeline_id
        &&& forall|e: RasterPipelineEntry|
            new.raster_arena().contains(e) <==> (old.raster_arena().contains(e) && !Self::retired_by(
                vertex_shader.retired,
                e,
            ) && !Self::retired_by(pixel_shader.retired, e))
        &&& match (vertex_shader.entry, pixel_shader.entry) {
            (Err(e), _) => r == Err::<RasterLookup, ShaderError>(e) && handles1 == handles0,
            (Ok(_), Err(e)) => r == Err::<RasterLookup, ShaderError>(e) && handles1 == handles0,
            (Ok(v), Ok(p)) => {
                let vs = v.spec_shader_handle();
                let ps = p.spec_shader_handle();
                if exists|i: int|
                    0 <= i < new.raster_arena().len() && Self::key_for(
                        #[trigger] new.raster_arena()[i].key,
                        vs,
                        ps,
                        rt,
                        hash,
                    ) {
                    &&& r matches Ok(RasterLookup::Cached(pipeline))
                    &&& exists|i: int|
                        0 <= i < new.raster_arena().len() && Self::key_for(
                            #[trigger] new.raster_arena()[i].key,
                            vs,
                            ps,
                            rt,
                            hash,
                        ) && new.raster_arena()[i].pipeline == pipeline
                    &&& handles1 == handles0
                } else {
                    &&& r matches Ok(RasterLookup::Create(req))
                    &&& Self::key_for(req.key, vs, ps, rt, hash)
                    &&& req.render_target_count == count_some(rt.color@)
                    &&& req.pipeline.handle == (RenderResourceHandle {
                        kind: RenderResourceType::GraphicsPipelineState,
                        index: handles0.handles.next_index,
                    })
                    &&& handles1.next_index() == handles0.next_index() + 1
                    &&& handles1.allocated.persistent@ == handles0.allocated.persistent@.push(
                        req.pipeline.handle,
                    )
                    &&& handles1.allocated.transient@ == handles0.allocated.transient@
                }
            },
        }
    }

    /// The index of the cached graphics pipeline with key `key`, if any.
    fn find_raster(&self, key: &RasterPipelineKey) -> (r: Option<usize>)
        ensures
            match r {
                Some(i) => i < self.raster_arena().len() && self.raster_arena()[i as int].key == *key,
                None => forall|i: int| 0 <= i < self.raster_arena().len() ==> #[trigger] self.raster_arena()[i].key != *key,
            },
    {
        let mut i: usize = 0;
        while i < self.pipelines.raster_pipelines.len()
            invariant
                i <= self.raster_arena().len(),
                forall|j: int| 0 <= j < i ==> #[trigger] self.raster_arena()[j].key != *key,
            decreases self.raster_arena().len() - i,
        {
            if keys_equal(&self.pipelines.raster_pipelines[i].key, key) {
                return Some(i);
            }
            i = i + 1;
        }
        None
    }

    /// The formats of the occupied color slots of `render_target` (unknown
    /// for empty ones), and how many slots are occupied.
    fn render_target_formats(render_target: &RenderTarget) -> (r: ([RenderFormat; 8], u32))
        ensures
            r.0@ == formats_of(*render_target),
            r.1 == count_some(render_target.color@),
    {
        let mut formats = [RenderFormat::Unknown; 8];
        let mut count: u32 = 0;
        let mut i: usize = 0;
        while i < MAX_RENDER_TARGET_COUNT
            invariant
                i <= 8,
                formats@.len() == 8,
                count == count_some(render_target.color@.subrange(0, i as int)),
                count <= i,
                forall|j: int| 0 <= j < i ==> formats@[j] == formats_of(*render_target)[j],
                forall|j: int| i <= j < 8 ==> formats@[j] == RenderFormat::Unknown,
            decreases 8 - i,
        {
            proof {
                assert(render_target.color@.subrange(0, i + 1).drop_last() =~= render_target.color@.subrange(0, i as int));
            }
            match render_target.color[i] {
                Some(f) => {
                    formats[i] = f;
                    count = count + 1;
                },
                None => {},
            }
            i = i + 1;
        }
        assert(formats@ =~= formats_of(*render_target));
        assert(render_target.color@.subrange(0, 8) =~= render_target.color@);
        (formats, count)
    }

    /// Looks up the graphics pipeline of the two shaders the shader cache
    /// returned, the color targets and the hash of the fixed-function state,
    /// after dropping every pipeline built from a shader the cache retired.
    /// On a miss, allocates the new pipeline's handle and describes the
    /// pipeline to create; `insert_raster` caches it once the device made it.
    pub fn get_or_load_raster_with_hash(
        &mut self,
        vertex_shader: ShaderCacheOutput,
        pixel_shader: ShaderCacheOutput,
        render_state_hash: u64,
        render_target: &RenderTarget,
        handles: &mut TrackingResourceHandleAllocator,
    ) -> (r: Result<RasterLookup, ShaderError>)
        requires
            old(self).wf(),
            old(handles).has_room(1),
        ensures
            Self::raster_lookup(
                *old(self),
                *final(self),
                vertex_shader,
                pixel_shader,
                render_state_hash,
                *render_target,
                *old(handles),
                *final(handles),
                r,
            ),
    {
        let ghost vs_out = vertex_shader;
        let ghost ps_out = pixel_shader;
        let ShaderCacheOutput { entry: vs_entry, retired: vs_retired } = vertex_shader;
        let ShaderCacheOutput { entry: ps_entry, retired: ps_retired } = pixel_shader;
        let ghost arena0 = self.raster_arena();
        match vs_retired {
            Some(retired) => {
                let k = make_handle_key(retired.shader_handle());
                self.evict_raster_shader(k);
            },
            None => {},
        }
        let ghost arena1 = self.raster_arena();
        match ps_retired {
            Some(retired) => {
                let k = make_handle_key(retired.shader_handle());
                self.evict_raster_shader(k);
            },
            None => {},
        }
        proof {
            let new = self.raster_arena();
            assert forall|e: RasterPipelineEntry| new.contains(e) <==> (arena0.contains(e) && !Self::retired_by(
                vs_out.retired,
                e,
            ) && !Self::retired_by(ps_out.retired, e)) by {
                if vs_out.retired is None {
                    assert(arena1 == arena0);
                }
                if ps_out.retired is None {
                    assert(new == arena1);
                }
            }
        }
        let vs = match vs_entry {
            Ok(e) => e.shader_handle(),
            Err(e) => {
                return Err(e);
            },
        };
        let ps = match ps_entry {
            Ok(e) => e.shader_handle(),
            Err(e) => {
                return Err(e);
            },
        };
        let (render_target_formats, render_target_count) = Self::render_target_formats(render_target);
        let pipeline_key = RasterPipelineKey {
            vertex_shader: vs,
            pixel_shader: ps,
            render_target_formats,
            render_state_hash,
        };
        match self.find_raster(&pipeline_key) {
            Some(i) => {
                return Ok(RasterLookup::Cached(self.pipelines.raster_pipelines[i].pipeline.clone()));
            },
            None => {},
        }
        proof {
            assert forall|i: int| 0 <= i < self.raster_arena().len() implies !Self::key_for(
                #[trigger] self.raster_arena()[i].key,
                vs,
                ps,
                *render_target,
                render_state_hash,
            ) by {
                if Self::key_for(self.raster_arena()[i].key, vs, ps, *render_target, render_state_hash) {
                    assert(self.raster_arena()[i].key.render_target_formats@ =~= pipeline_key.render_target_formats@);
                    vstd::array::axiom_array_ext_equal(
                        self.raster_arena()[i].key.render_target_formats,
                        pipeline_key.render_target_formats,
                    );
                }
            }
        }
        let pipeline_handle = handles.allocate_persistent(RenderResourceType::GraphicsPipelineState);
        Ok(
            RasterLookup::Create(
                RasterPipelineRequest {
                    key: pipeline_key,
                    render_target_count,
                    pipeline: RasterPipeline { handle: pipeline_handle },
                },
            ),
        )
    }

    /// `get_or_load_raster_with_hash` with the hash of the serialized
    /// fixed-function state in `desc`.
    pub fn get_or_load_raster(
        &mut self,
        vertex_shader: ShaderCacheOutput,
        pixel_shader: ShaderCacheOutput,
        desc: &RasterPipelineDesc,
        render_target: &RenderTarget,
        handles: &mut TrackingResourceHandleAllocator,
    ) -> (r: Result<RasterLookup, ShaderError>)
        requires
            old(self).wf(),
            old(handles).has_room(1),
        ensures
            Self::raster_lookup(
                *old(self),
                *final(self),
                vertex_shader,
                pixel_shader,
                wyhash_of(desc.render_state@, 0),
                *render_target,
                *old(handles),
                *final(handles),
                r,
            ),
    {
        let render_state_hash = hash_bytes(desc.render_state.as_slice(), 0);
        self.get_or_load_raster_with_hash(
            vertex_shader,
            pixel_shader,
            render_state_hash,
            render_target,
            handles,
        )
    }

    /// Adds `id` to the list of the shader with key `s`.
    fn add_to_index(&mut self, s: u64, id: usize)
        ensures
            final(self).raster_arena() == old(self).raster_arena(),
            final(self).compute_map() == old(self).compute_map(),
            final(self).pipelines.next_raster_pipeline_id == old(self).pipelines.next_raster_pipeline_id,
            final(self).raster_index().dom() == old(self).raster_index().dom().insert(s),
            forall|t: u64| #[trigger] final(self).raster_index().contains_key(t) && t != s ==> final(self).raster_index()[t]
                == old(self).raster_index()[t],
            forall|x: usize| #[trigger] final(self).raster_index()[s]@.contains(x) <==> (x == id || (
                old(self).raster_index().contains_key(s) && old(self).raster_index()[s]@.contains(x))),
    {
        let mut list = match self.pipelines.raster_shader_to_pipelines.remove(&s) {
            Some(list) => list,
            None => Vec::new(),
        };
        let ghost before = list@;
        assert(old(self).raster_index().contains_key(s) ==> before == old(self).raster_index()[s]@);
        assert(!old(self).raster_index().contains_key(s) ==> before.len() == 0);
        list.push(id);
        let ghost final_list = list;
        self.pipelines.raster_shader_to_pipelines.insert(s, list);
        proof {
            assert(self.raster_index().dom() =~= old(self).raster_index().dom().insert(s));
            assert(self.raster_index()[s] == final_list);
            assert forall|x: usize| #[trigger] self.raster_index()[s]@.contains(x) <==> (x == id || (
                old(self).raster_index().contains_key(s) && old(self).raster_index()[s]@.contains(x))) by {
                assert(final_list@ == before.push(id));
                if final_list@.contains(x) && x != id {
                    let j = choose|j: int| 0 <= j < final_list@.len() && final_list@[j] == x;
                    assert(before[j] == x);
                }
                if before.contains(x) {
                    let j = choose|j: int| 0 <= j < before.len() && before[j] == x;
                    assert(final_list@[j] == x);
                }
                if x == id {
                    assert(final_list@[before.len() as int] == x);
                }
            }
        }
    }

    /// Caches a graphics pipeline that the device created, under the next
    /// id, in the arena and in the lists of both of its shaders. If a
    /// pipeline with the same key is cached already, that one is returned
    /// and nothing changes.
    pub fn insert_raster(&mut self, request: RasterPipelineRequest) -> (r: Arc<RasterPipeline>)
        requires
            old(self).wf(),
            old(self).pipelines.next_raster_pipeline_id < usize::MAX,
        ensures
            final(self).wf(),
            final(self).compute_map() == old(self).compute_map(),
            if exists|i: int|
                0 <= i < old(self).raster_arena().len() && #[trigger] old(self).raster_arena()[i].key
                    == request.key {
                &&& *final(self) == *old(self)
                &&& exists|i: int|
                    0 <= i < old(self).raster_arena().len() && #[trigger] old(self).raster_arena()[i].key
                        == request.key && old(self).raster_arena()[i].pipeline == r
            } else {
                &&& *r == request.pipeline
                &&& final(self).raster_arena() == old(self).raster_arena().push(
                    RasterPipelineEntry {
                        id: old(self).pipelines.next_raster_pipeline_id,
                        key: request.key,
                        pipeline: r,
                    },
                )
                &&& final(self).pipelines.next_raster_pipeline_id == old(self).pipelines.next_raster_pipeline_id + 1
            },
    {
        match self.find_raster(&request.key) {
            Some(i) => {
                return self.pipelines.raster_pipelines[i].pipeline.clone();
            },
            None => {},
        }
        let ghost old_self = *self;
        let id = self.pipelines.next_raster_pipeline_id;
        let key = request.key;
        let pipeline = Arc::new(request.pipeline);
        let kv = make_handle_key(key.vertex_shader);
        let kp = make_handle_key(key.pixel_shader);
        self.add_to_index(kv, id);
        let ghost mid = self.raster_index();
        self.add_to_index(kp, id);
        self.pipelines.raster_pipelines.push(RasterPipelineEntry { id, key, pipeline: pipeline.clone() });
        self.pipelines.next_raster_pipeline_id = id + 1;
        proof {
            let arena0 = old_self.raster_arena();
            let index0 = old_self.raster_index();
            let arena = self.raster_arena();
            let index = self.raster_index();
            let next = self.pipelines.next_raster_pipeline_id;
            let new_entry = arena[arena0.len() as int];
            assert forall|t: u64, x: usize| index.contains_key(t) && #[trigger] index[t]@.contains(x)
                implies (index0.contains_key(t) && index0[t]@.contains(x)) || (x == id && (t == kv || t == kp)) by {
                if t != kp {
                    assert(index[t] == mid[t]);
                    if t != kv {
                        assert(mid[t] == index0[t]);
                    } else {
                        assert(mid[t]@.contains(x));
                    }
                }
            }
            assert forall|t: u64, x: usize| index0.contains_key(t) && #[trigger] index0[t]@.contains(x)
                implies index.contains_key(t) && index[t]@.contains(x) by {
                assert(mid.contains_key(t));
                assert(index.contains_key(t));
                if t == kp {
                    assert(index[t]@.contains(x));
                } else if t == kv {
                    assert(mid[t]@.contains(x));
                    assert(index[t] == mid[t]);
                } else {
                    assert(index[t] == mid[t]);
                }
            }
            assert(index.contains_key(kv) && index[kv]@.contains(id)) by {
                if kv == kp {
                } else {
                    assert(mid.contains_key(kv));
                    assert(index.contains_key(kv));
                    assert(mid[kv]@.contains(id));
                    assert(index[kv] == mid[kv]);
                }
            }
            assert(index.contains_key(kp) && index[kp]@.contains(id));
            assert forall|i: int, j: int|
                0 <= i < arena.len() && 0 <= j < arena.len() && i != j implies #[trigger] arena[i].id
                    != #[trigger] arena[j].id && arena[i].key != arena[j].key by {
                if i < arena0.len() && j < arena0.len() {
                    assert(arena0[i].id != arena0[j].id);
                } else if i < arena0.len() {
                    assert(arena0[i].id < id);
                    assert(arena0[i].key != key);
                } else {
                    assert(arena0[j].id < id);
                    assert(arena0[j].key != key);
                }
            }
            assert forall|i: int| 0 <= i < arena.len() implies (#[trigger] arena[i]).id < next by {
                if i < arena0.len() {
                    assert(arena0[i].id < id);
                }
            }
            assert forall|i: int| 0 <= i < arena.len() implies {
                &&& index.contains_key(handle_key((#[trigger] arena[i]).key.vertex_shader))
                &&& index[handle_key(arena[i].key.vertex_shader)]@.contains(arena[i].id)
                &&& index.contains_key(handle_key(arena[i].key.pixel_shader))
                &&& index[handle_key(arena[i].key.pixel_shader)]@.contains(arena[i].id)
            } by {
                if i < arena0.len() {
                    assert(arena[i] == arena0[i]);
                    assert(index0[handle_key(arena0[i].key.vertex_shader)]@.contains(arena0[i].id));
                    assert(index0[handle_key(arena0[i].key.pixel_shader)]@.contains(arena0[i].id));
                }
            }
            assert forall|t: u64, x: usize|
                index.contains_key(t) && (#[trigger] index[t]@.contains(x)) implies {
                    &&& x < next
                    &&& exists|i: int| 0 <= i < arena.len() && (#[trigger] arena[i]).id == x
                    &&& forall|i: int| 0 <= i < arena.len() && (#[trigger] arena[i]).id == x ==> uses(arena[i].key, t)
                } by {
                if index0.contains_key(t) && index0[t]@.contains(x) {
                    let i0 = choose|i0: int| 0 <= i0 < arena0.len() && (#[trigger] arena0[i0]).id == x;
                    assert(arena[i0].id == x);
                    assert forall|i: int| 0 <= i < arena.len() && (#[trigger] arena[i]).id == x implies uses(arena[i].key, t) by {
                        if i < arena0.len() {
                            assert(arena[i] == arena0[i]);
                        } else {
                            assert(x < id);
                        }
                    }
                } else {
                    assert(x == id);
                    assert(arena[arena0.len() as int].id == x);
                    assert forall|i: int| 0 <= i < arena.len() && (#[trigger] arena[i]).id == x implies uses(arena[i].key, t) by {
                        if i < arena0.len() {
                            assert(arena0[i].id < id);
                        }
                    }
                }
            }
        }
        pipeline
    }

    /// Whether the shader with key `s` belongs to one of the first `r` keys.
    pub open spec fn scrubbed(removed: Seq<RasterPipelineKey>, r: int, s: u64) -> bool {
        exists|j: int| 0 <= j < r && uses(#[trigger] removed[j], s)
    }

    /// Takes the ids in `ids` out of the list of the shader with key `s`.
    fn scrub(&mut self, s: u64, ids: &Vec<usize>)
        ensures
            final(self).raster_arena() == old(self).raster_arena(),
            final(self).compute_map() == old(self).compute_map(),
            final(self).pipelines.next_raster_pipeline_id == old(self).pipelines.next_raster_pipeline_id,
            final(self).raster_index().dom() == old(self).raster_index().dom(),
            forall|t: u64| #[trigger] final(self).raster_index().contains_key(t) && t != s ==> final(self).raster_index()[t]
                == old(self).raster_index()[t],
            forall|x: usize| final(self).raster_index().contains_key(s) ==> (
                #[trigger] final(self).raster_index()[s]@.contains(x) <==> (old(self).raster_index()[s]@.contains(x)
                    && !ids@.contains(x))),
    {
        match self.pipelines.raster_shader_to_pipelines.remove(&s) {
            Some(list) => {
                let rest = list_without(&list, ids);
                self.pipelines.raster_shader_to_pipelines.insert(s, rest);
                proof {
                    assert(self.raster_index().dom() =~= old(self).raster_index().dom());
                }
            },
            None => {},
        }
    }

    pub open spec fn compute_map(&self) -> Map<u64, Arc<ComputePipeline>> {
        self.pipelines.compute_shader_to_pipeline@
    }

    /// The effect of a compute lookup: `new` and `handles1` are the cache
    /// and the allocator after a lookup on `old` and `handles0` with the
    /// shader cache's answer `shader`, that returned `r`.
    pub open spec fn compute_lookup(
        old: Self,
        new: Self,
        shader: ShaderCacheOutput,
        handles0: TrackingResourceHandleAllocator,
        handles1: TrackingResourceHandleAllocator,
        r: Result<ComputeLookup, ShaderError>,
    ) -> bool {
        &&& new.compute_map() == compute_after_retire(old.compute_map(), shader.retired)
        &&& new.same_raster(old)
        &&& match shader.entry {
                Err(e) => r == Err::<ComputeLookup, ShaderError>(e) && handles1 == handles0,
                Ok(entry) => {
                    let k = handle_key(entry.spec_shader_handle());
                    let m = compute_after_retire(old.compute_map(), shader.retired);
                    if m.contains_key(k) {
                        &&& r == Ok::<ComputeLookup, ShaderError>(ComputeLookup::Cached(m[k]))
                        &&& handles1 == handles0
                    } else {
                        &&& r matches Ok(ComputeLookup::Create(req))
                        &&& Self::compute_request_for(entry, req, handles0.handles.next_index)
                        &&& handles1.next_index() == handles0.next_index() + 1
                        &&& handles1.allocated.persistent@ == handles0.allocated.persistent@.push(
                            req.pipeline.handle,
                        )
                        &&& handles1.allocated.transient@ == handles0.allocated.transient@
                    }
                },
            }
    }

    /// Looks up the compute pipeline of the shader that the shader cache
    /// returned, after dropping the pipeline of the shader it retired. On a
    /// miss, allocates the new pipeline's handle and describes the pipeline
    /// to create; `insert_compute` caches it once the device made it.
    pub fn get_or_load_compute(
        &mut self,
        shader: ShaderCacheOutput,
        handles: &mut TrackingResourceHandleAllocator,
    ) -> (r: Result<ComputeLookup, ShaderError>)
        requires
            old(handles).has_room(1),
            shader.entry matches Ok(e) ==> e is Compute,
        ensures
            Self::compute_lookup(*old(self), *final(self), shader, *old(handles), *final(handles), r),
    {
        let ShaderCacheOutput { entry, retired } = shader;
        match retired {
            Some(old_shader) => {
                let k = make_handle_key(old_shader.shader_handle());
                self.pipelines.compute_shader_to_pipeline.remove(&k);
            },
            None => {},
        }
        let shader = match entry {
            Ok(s) => s,
            Err(e) => {
                return Err(e);
            },
        };
        let k = make_handle_key(shader.shader_handle());
        match self.pipelines.compute_shader_to_pipeline.get(&k) {
            Some(p) => {
                return Ok(ComputeLookup::Cached(p.clone()));
            },
            None => {},
        }
        match shader {
            ShaderCacheEntry::Compute(shader) => {
                let pipeline_handle = handles.allocate_persistent(
                    RenderResourceType::ComputePipelineState,
                );
                let srv_count = shader.srvs.len() as u32;
                let uav_count = shader.uavs.len() as u32;
                Ok(
                    ComputeLookup::Create(
                        ComputePipelineRequest {
                            shader_handle: shader.shader_handle,
                            srv_count,
                            uav_count,
                            pipeline: ComputePipeline {
                                handle: pipeline_handle,
                                group_size: shader.group_size,
                                srvs: shader.srvs,
                                uavs: shader.uavs,
                            },
                        },
                    ),
                )
            },
            ShaderCacheEntry::Raster(_) => {
                proof {
                    assert(false);
                }
                Err(ShaderError { message: String::new() })
            },
        }
    }

    /// `req` describes the pipeline to build for compute shader `entry`,
    /// with a new handle at slot `index`.
    pub open spec fn compute_request_for(
        entry: ShaderCacheEntry,
        req: ComputePipelineRequest,
        index: u32,
    ) -> bool {
        match entry {
            ShaderCacheEntry::Compute(s) => {
                &&& req.shader_handle == s.shader_handle
                &&& req.srv_count == s.srvs@.len() as u32
                &&& req.uav_count == s.uavs@.len() as u32
                &&& req.pipeline.handle == (RenderResourceHandle {
                    kind: RenderResourceType::ComputePipelineState,
                    index,
                })
                &&& req.pipeline.group_size == s.group_size
                &&& req.pipeline.srvs == s.srvs
                &&& req.pipeline.uavs == s.uavs
            },
            ShaderCacheEntry::Raster(_) => false,
        }
    }

    /// Caches a compute pipeline that the device created.
    pub fn insert_compute(&mut self, request: ComputePipelineRequest) -> (r: Arc<ComputePipeline>)
        ensures
            *r == request.pipeline,
            final(self).compute_map() == old(self).compute_map().insert(
                handle_key(request.shader_handle),
                r,
            ),
            final(self).same_raster(*old(self)),
    {
        let k = make_handle_key(request.shader_handle);
        let pipeline = Arc::new(request.pipeline);
        self.pipelines.compute_shader_to_pipeline.insert(k, pipeline.clone());
        pipeline
    }
}

} // verus!
