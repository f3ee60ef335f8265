//! Properties that relate several operations, stated over the contracts of
//! the operations themselves and proved from them.
use crate::dynamic_constants::{upload_of, ChunkUpload, DynamicConstants, DynamicConstantsAllocation};
use crate::graph::{created_handles, dense_handles, PassBuilder, RenderGraph};
use crate::handles::RenderResourceHandle;
use crate::lifetime::{is_lifetime_of, ResourceLifetime};
use crate::pipeline_cache::{
    handle_key, lemma_handle_key_injective, uses, ComputeLookup, PipelineCache, RasterPipelineEntry, RasterLookup,
};
use crate::render_loop::{FrameResources, RenderLoop};
use crate::resource::{GraphRawResourceHandle, Handle};
use crate::shader_cache::{ShaderCacheOutput, ShaderError};
use crate::tracking::TrackingResourceHandleAllocator;
use std::sync::Arc;
use vstd::prelude::*;

verus! {

/// Within one graph the resources' ids are 0, 1, 2, ... in the order of the
/// `create` calls that made them, each at version 0: no two creations share
/// an id.
pub proof fn lemma_create_ids_unique<F>(g: RenderGraph<F>)
    requires
        g.wf(),
    ensures
        created_handles(g.passes@).len() == g.resources@.len(),
        forall|i: int|
            0 <= i < g.resources@.len() ==> #[trigger] created_handles(g.passes@)[i] == (
            GraphRawResourceHandle { id: i as u32, version: 0 }),
        forall|i: int, j: int|
            0 <= i < j < g.resources@.len() ==> #[trigger] created_handles(g.passes@)[i].id
                != #[trigger] created_handles(g.passes@)[j].id,
{
    assert(created_handles(g.passes@) == dense_handles(g.resources@.len()));
}

/// Writing a handle twice (in two passes) yields references whose versions
/// strictly increase, on the same id: `h1` and `r1` are what the first write
/// left and returned, `h2` and `r2` those of the second.
pub proof fn lemma_write_versions_increase(
    h0: Handle,
    h1: Handle,
    r1: GraphRawResourceHandle,
    h2: Handle,
    r2: GraphRawResourceHandle,
)
    requires
        h0.raw.version < u32::MAX,
        h1.raw == h0.raw.spec_next_version(),
        r1 == h1.raw,
        h1.raw.version < u32::MAX,
        h2.raw == h1.raw.spec_next_version(),
        r2 == h2.raw,
    ensures
        r1.id == h0.raw.id,
        r2.id == h0.raw.id,
        r1.version > h0.raw.version,
        r2.version > r1.version,
{
}

/// In one pass, after a write of a resource neither a second write nor a
/// read of it is allowed; after a read, another read is. `b1` is the
/// builder after writing `h` (which became `h1`), `c1` the builder after
/// reading `g`.
pub proof fn lemma_same_pass_access<F>(
    b0: PassBuilder<F>,
    h: GraphRawResourceHandle,
    h1: GraphRawResourceHandle,
    b1: PassBuilder<F>,
    g: GraphRawResourceHandle,
    c1: PassBuilder<F>,
)
    requires
        b0.can_write(h),
        h1.id == h.id,
        b1.rg == b0.rg,
        b1.pass.write@ == b0.pass.write@.push(h1),
        b1.pass.read@ == b0.pass.read@,
        b0.can_read(g),
        c1.rg == b0.rg,
        c1.pass.read@ == b0.pass.read@.push(g),
        c1.pass.write@ == b0.pass.write@,
    ensures
        !b1.can_write(h),
        !b1.can_write(h1),
        !b1.can_read(h),
        !b1.can_read(h1),
        c1.can_read(g),
{
    assert(b1.pass.write@[b0.pass.write@.len() as int] == h1);
    assert(b1.pass.writes(h.id));
    assert(!c1.pass.writes(g.id)) by {
        if c1.pass.writes(g.id) {
            let i = choose|i: int| 0 <= i < c1.pass.write@.len() && c1.pass.write@[i].id == g.id;
            assert(b0.pass.write@[i].id == g.id);
        }
    }
}

/// A resource created in pass `i` and last read or written in pass `j`
/// (`j >= i`) lives from `i` to `j`.
pub proof fn lemma_lifetime_last_touch<F>(g: RenderGraph<F>, r: int, lt: ResourceLifetime, j: int)
    requires
        g.wf(),
        0 <= r < g.resources@.len(),
        is_lifetime_of(g, r, lt),
        g.resources@[r].create_pass_idx <= j < g.passes@.len(),
        g.passes@[j].touches(r as u32),
        forall|p: int| j < p < g.passes@.len() ==> !(#[trigger] g.passes@[p].touches(r as u32)),
    ensures
        lt.first_access == g.resources@[r].create_pass_idx,
        lt.last_access == j,
{
}

/// A resource that no pass after its creating pass `i` reads or writes lives
/// in `i` alone.
pub proof fn lemma_lifetime_scratch<F>(g: RenderGraph<F>, r: int, lt: ResourceLifetime)
    requires
        g.wf(),
        0 <= r < g.resources@.len(),
        is_lifetime_of(g, r, lt),
        forall|p: int|
            g.resources@[r].create_pass_idx < p < g.passes@.len() ==> !(
            #[trigger] g.passes@[p].touches(r as u32)),
    ensures
        lt.first_access == g.resources@[r].create_pass_idx,
        lt.last_access == g.resources@[r].create_pass_idx,
{
}

/// The compute shader that `out` hands over, unchanged and with nothing
/// retired, has handle `s`.
pub open spec fn unchanged_compute_shader(out: ShaderCacheOutput, s: RenderResourceHandle) -> bool {
    &&& out.retired is None
    &&& out.entry matches Ok(e) && e.spec_shader_handle() == s
}

/// A second lookup of an unchanged compute shader returns the very pipeline
/// that the first lookup returned from the cache.
pub proof fn lemma_compute_cache_hit(
    c0: PipelineCache,
    c1: PipelineCache,
    out1: ShaderCacheOutput,
    a0: TrackingResourceHandleAllocator,
    a1: TrackingResourceHandleAllocator,
    r1: Result<ComputeLookup, ShaderError>,
    c2: PipelineCache,
    out2: ShaderCacheOutput,
    a2: TrackingResourceHandleAllocator,
    r2: Result<ComputeLookup, ShaderError>,
    s: RenderResourceHandle,
    p: Arc<crate::pipeline::ComputePipeline>,
)
    requires
        unchanged_compute_shader(out1, s),
        unchanged_compute_shader(out2, s),
        PipelineCache::compute_lookup(c0, c1, out1, a0, a1, r1),
        r1 == Ok::<ComputeLookup, ShaderError>(ComputeLookup::Cached(p)),
        PipelineCache::compute_lookup(c1, c2, out2, a1, a2, r2),
    ensures
        r2 == Ok::<ComputeLookup, ShaderError>(ComputeLookup::Cached(p)),
        c2.compute_map() == c1.compute_map(),
{
}

/// After a lookup that missed and the insertion of the pipeline the device
/// created, a lookup of the unchanged shader returns that very pipeline.
pub proof fn lemma_compute_cache_hit_after_insert(
    c1: PipelineCache,
    c2: PipelineCache,
    s: RenderResourceHandle,
    p: Arc<crate::pipeline::ComputePipeline>,
    c3: PipelineCache,
    out: ShaderCacheOutput,
    a2: TrackingResourceHandleAllocator,
    a3: TrackingResourceHandleAllocator,
    r: Result<ComputeLookup, ShaderError>,
)
    requires
        c2.compute_map() == c1.compute_map().insert(handle_key(s), p),
        unchanged_compute_shader(out, s),
        PipelineCache::compute_lookup(c2, c3, out, a2, a3, r),
    ensures
        r == Ok::<ComputeLookup, ShaderError>(ComputeLookup::Cached(p)),
{
}

/// When the shader cache retired the shader with handle `old_s` and hands
/// over a new one with handle `new_s` that has no pipeline yet, the old
/// shader's pipeline is no longer cached, and the lookup asks for a new
/// pipeline under a handle that was not handed out before.
pub proof fn lemma_compute_retirement(
    c0: PipelineCache,
    c1: PipelineCache,
    out: ShaderCacheOutput,
    a0: TrackingResourceHandleAllocator,
    a1: TrackingResourceHandleAllocator,
    r: Result<ComputeLookup, ShaderError>,
    old_s: RenderResourceHandle,
    new_s: RenderResourceHandle,
)
    requires
        out.retired matches Some(e) && e.spec_shader_handle() == old_s,
        out.entry matches Ok(e) && e.spec_shader_handle() == new_s,
        !c0.compute_map().contains_key(handle_key(new_s)) || new_s == old_s,
        PipelineCache::compute_lookup(c0, c1, out, a0, a1, r),
    ensures
        !c1.compute_map().contains_key(handle_key(old_s)),
        r matches Ok(ComputeLookup::Create(req)) && req.pipeline.handle.index == a0.handles.next_index,
{
}

/// Pipelines A (shaders `vs`, `ps1`) and B (`vs`, `ps2`) share their vertex
/// shader. A lookup during which the shader cache retired `ps1` drops A and
/// keeps B, which stays the only pipeline under its key.
pub proof fn lemma_raster_retire_pixel_shader(
    c0: PipelineCache,
    c1: PipelineCache,
    vs_out: ShaderCacheOutput,
    ps_out: ShaderCacheOutput,
    hash: u64,
    rt: crate::pipeline::RenderTarget,
    a0: TrackingResourceHandleAllocator,
    a1: TrackingResourceHandleAllocator,
    r: Result<RasterLookup, ShaderError>,
    a: RasterPipelineEntry,
    b: RasterPipelineEntry,
)
    requires
        c0.wf(),
        c0.raster_arena().contains(a),
        c0.raster_arena().contains(b),
        a.key.vertex_shader == b.key.vertex_shader,
        b.key.pixel_shader != a.key.pixel_shader,
        b.key.vertex_shader != a.key.pixel_shader,
        vs_out.retired is None,
        ps_out.retired matches Some(e) && e.spec_shader_handle() == a.key.pixel_shader,
        PipelineCache::raster_lookup(c0, c1, vs_out, ps_out, hash, rt, a0, a1, r),
    ensures
        !c1.raster_arena().contains(a),
        c1.raster_arena().contains(b),
        forall|e: RasterPipelineEntry| c1.raster_arena().contains(e) && e.key == b.key ==> e == b,
{
    lemma_handle_key_injective(b.key.pixel_shader, a.key.pixel_shader);
    lemma_handle_key_injective(b.key.vertex_shader, a.key.pixel_shader);
    assert(uses(a.key, handle_key(a.key.pixel_shader)));
    assert(!uses(b.key, handle_key(a.key.pixel_shader)));
    assert forall|e: RasterPipelineEntry| c1.raster_arena().contains(e) && e.key == b.key implies e == b by {
        let i = choose|i: int| 0 <= i < c0.raster_arena().len() && c0.raster_arena()[i] == e;
        let j = choose|j: int| 0 <= j < c0.raster_arena().len() && c0.raster_arena()[j] == b;
        if i != j {
            assert(c0.raster_arena()[i].key != c0.raster_arena()[j].key);
        }
    }
}

/// With A and B as above, a lookup during which the shader cache retired
/// the shared vertex shader drops both.
pub proof fn lemma_raster_retire_vertex_shader(
    c0: PipelineCache,
    c1: PipelineCache,
    vs_out: ShaderCacheOutput,
    ps_out: ShaderCacheOutput,
    hash: u64,
    rt: crate::pipeline::RenderTarget,
    a0: TrackingResourceHandleAllocator,
    a1: TrackingResourceHandleAllocator,
    r: Result<RasterLookup, ShaderError>,
    a: RasterPipelineEntry,
    b: RasterPipelineEntry,
)
    requires
        a.key.vertex_shader == b.key.vertex_shader,
        vs_out.retired matches Some(e) && e.spec_shader_handle() == a.key.vertex_shader,
        PipelineCache::raster_lookup(c0, c1, vs_out, ps_out, hash, rt, a0, a1, r),
    ensures
        !c1.raster_arena().contains(a),
        !c1.raster_arena().contains(b),
{
    assert(uses(a.key, handle_key(a.key.vertex_shader)));
    assert(uses(b.key, handle_key(a.key.vertex_shader)));
}

/// A pushed value lands at an offset aligned to 256 bytes, a new chunk is
/// started exactly when the current one has less room than the value, and
/// the commit that follows uploads the value's bytes at that offset of that
/// buffer.
pub proof fn lemma_constants_round_trip(
    d0: DynamicConstants,
    d1: DynamicConstants,
    bytes: Seq<u8>,
    base: nat,
    a: DynamicConstantsAllocation,
    d2: DynamicConstants,
    uploads: Seq<ChunkUpload>,
)
    requires
        d0.wf(),
        DynamicConstants::pushed(d0, d1, bytes, base, a),
        DynamicConstants::committed(d1, d2, uploads),
    ensures
        a.offset % 256 == 0,
        d0.chunks@.len() > 0 ==> ((d1.chunks@.len() == d0.chunks@.len() + 1) <==> d0.chunks@.last().spec_free_space()
            < bytes.len()),
        exists|i: int|
            0 <= i < uploads.len() && uploads[i].buffer == a.buffer && uploads[i].data@.subrange(
                a.offset as int,
                a.offset + bytes.len(),
            ) == bytes,
{
    let i = d1.chunks@.len() - 1;
    assert(upload_of(d1.chunks@[i], uploads[i]));
}

/// With two frames in flight, the frame that the third of three
/// consecutive frames retires (waiting on its fence, then destroying its
/// resources) before allocating anything is the first one.
pub proof fn lemma_frame_retirement_order(
    l0: RenderLoop,
    l1: RenderLoop,
    x1: Option<FrameResources>,
    l2: RenderLoop,
    f1: FrameResources,
    l3: RenderLoop,
    x2: Option<FrameResources>,
    l4: RenderLoop,
    f2: FrameResources,
    l5: RenderLoop,
    x3: Option<FrameResources>,
)
    requires
        l0.wf(),
        !l0.in_frame,
        RenderLoop::began(l0, l1, x1),
        RenderLoop::finished(l1, l2, f1),
        RenderLoop::began(l2, l3, x2),
        RenderLoop::finished(l3, l4, f2),
        RenderLoop::began(l4, l5, x3),
    ensures
        x3 == Some(f1),
        l5.slots() == seq![Some(f2)],
{
    assert(l1.slots().len() == 1);
    assert(l2.slots() == seq![l0.slots()[1], Some(f1)]);
    assert(l4.slots() == seq![Some(f1), Some(f2)]);
    assert(l5.slots() =~= seq![Some(f2)]);
}

} // verus!
