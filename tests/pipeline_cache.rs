use rg::handles::{RenderResourceHandle, RenderResourceHandleAllocator, RenderResourceType};
use rg::pipeline::{RasterPipelineDesc, RenderTarget};
use rg::pipeline_cache::{ComputeLookup, PipelineCache, RasterLookup};
use rg::resource::RenderFormat;
use rg::shader_cache::{
    CachedShader, ComputeShaderCacheEntry, RasterShaderCacheEntry, RenderShaderType,
    ShaderCacheEntry, ShaderCacheOutput, ShaderEntries, ShaderError,
};
use rg::tracking::TrackingResourceHandleAllocator;
use std::sync::Arc;

fn shader(index: u32) -> RenderResourceHandle {
    RenderResourceHandle { kind: RenderResourceType::Shader, index }
}

fn compute_entry(index: u32) -> ShaderCacheEntry {
    ShaderCacheEntry::Compute(ComputeShaderCacheEntry {
        shader_handle: shader(index),
        srvs: vec!["input".to_string()],
        uavs: vec!["output".to_string(), "scratch".to_string()],
        group_size: [8, 8, 1],
    })
}

fn raster_entry(index: u32, stage: RenderShaderType) -> ShaderCacheEntry {
    ShaderCacheEntry::Raster(RasterShaderCacheEntry { shader_handle: shader(index), stage })
}

fn fresh(entry: ShaderCacheEntry) -> ShaderCacheOutput {
    ShaderCacheOutput { entry: Ok(entry), retired: None }
}

fn allocator() -> TrackingResourceHandleAllocator {
    TrackingResourceHandleAllocator::new(RenderResourceHandleAllocator::new())
}

fn one_target() -> RenderTarget {
    let mut color = [None; 8];
    color[0] = Some(RenderFormat::R16g16b16a16Float);
    RenderTarget { color }
}

fn load_compute(
    cache: &mut PipelineCache,
    out: ShaderCacheOutput,
    handles: &mut TrackingResourceHandleAllocator,
) -> Arc<rg::pipeline::ComputePipeline> {
    match cache.get_or_load_compute(out, handles).unwrap() {
        ComputeLookup::Cached(p) => p,
        ComputeLookup::Create(req) => cache.insert_compute(req),
    }
}

fn load_raster(
    cache: &mut PipelineCache,
    vs: ShaderCacheOutput,
    ps: ShaderCacheOutput,
    hash: u64,
    handles: &mut TrackingResourceHandleAllocator,
) -> (Arc<rg::pipeline::RasterPipeline>, bool) {
    match cache.get_or_load_raster_with_hash(vs, ps, hash, &one_target(), handles).unwrap() {
        RasterLookup::Cached(p) => (p, true),
        RasterLookup::Create(req) => (cache.insert_raster(req), false),
    }
}

#[test]
fn compute_lookup_is_idempotent_until_retirement() {
    let mut cache = PipelineCache::new();
    let mut handles = allocator();
    let first = match cache.get_or_load_compute(fresh(compute_entry(1)), &mut handles).unwrap() {
        ComputeLookup::Create(req) => {
            assert_eq!(req.srv_count, 1);
            assert_eq!(req.uav_count, 2);
            assert_eq!(req.shader_handle, shader(1));
            assert_eq!(
                req.pipeline.handle,
                RenderResourceHandle { kind: RenderResourceType::ComputePipelineState, index: 0 }
            );
            assert_eq!(req.pipeline.group_size, [8, 8, 1]);
            cache.insert_compute(req)
        }
        ComputeLookup::Cached(_) => panic!("empty cache hit"),
    };
    let second = load_compute(&mut cache, fresh(compute_entry(1)), &mut handles);
    assert!(Arc::ptr_eq(&first, &second));

    let out = ShaderCacheOutput { entry: Ok(compute_entry(2)), retired: Some(compute_entry(1)) };
    match cache.get_or_load_compute(out, &mut handles).unwrap() {
        ComputeLookup::Create(req) => {
            assert_ne!(req.pipeline.handle, first.handle);
            assert_eq!(req.shader_handle, shader(2));
        }
        ComputeLookup::Cached(_) => panic!("retired pipeline still cached"),
    }
    assert!(cache.pipelines.compute_shader_to_pipeline.is_empty());
    let (_, allocated) = handles.into_allocated_resources();
    assert_eq!(allocated.persistent.len(), 2);
}

#[test]
fn compute_shader_error_propagates() {
    let mut cache = PipelineCache::new();
    let mut handles = allocator();
    let _ = load_compute(&mut cache, fresh(compute_entry(1)), &mut handles);
    let out = ShaderCacheOutput {
        entry: Err(ShaderError { message: "syntax error".to_string() }),
        retired: Some(compute_entry(1)),
    };
    match cache.get_or_load_compute(out, &mut handles) {
        Err(e) => assert_eq!(e.message, "syntax error"),
        Ok(_) => panic!("error swallowed"),
    }
    assert!(cache.pipelines.compute_shader_to_pipeline.is_empty());
}

#[test]
fn raster_retiring_pixel_shader_keeps_sibling() {
    let mut cache = PipelineCache::new();
    let mut handles = allocator();
    let vs1 = || fresh(raster_entry(1, RenderShaderType::Vertex));
    let ps1 = || fresh(raster_entry(2, RenderShaderType::Pixel));
    let ps2 = || fresh(raster_entry(3, RenderShaderType::Pixel));
    let (a, cached_a) = load_raster(&mut cache, vs1(), ps1(), 5, &mut handles);
    let (b, cached_b) = load_raster(&mut cache, vs1(), ps2(), 5, &mut handles);
    assert!(!cached_a && !cached_b);
    assert_eq!(cache.pipelines.raster_pipelines.len(), 2);

    let ps1_new = ShaderCacheOutput {
        entry: Ok(raster_entry(4, RenderShaderType::Pixel)),
        retired: Some(raster_entry(2, RenderShaderType::Pixel)),
    };
    let (a2, cached_a2) = load_raster(&mut cache, vs1(), ps1_new, 5, &mut handles);
    assert!(!cached_a2);
    assert!(!Arc::ptr_eq(&a, &a2));
    let (b2, cached_b2) = load_raster(&mut cache, vs1(), ps2(), 5, &mut handles);
    assert!(cached_b2);
    assert!(Arc::ptr_eq(&b, &b2));
    let index = &cache.pipelines.raster_shader_to_pipelines;
    assert!(!index.contains_key(&(2u64 * 0x1_0000_0000 + 2)));
    assert_eq!(index[&(2u64 * 0x1_0000_0000 + 1)].len(), 2);
}

#[test]
fn raster_retiring_vertex_shader_drops_both() {
    let mut cache = PipelineCache::new();
    let mut handles = allocator();
    let vs1 = || fresh(raster_entry(1, RenderShaderType::Vertex));
    let (_a, _) = load_raster(&mut cache, vs1(), fresh(raster_entry(2, RenderShaderType::Pixel)), 5, &mut handles);
    let (_b, _) = load_raster(&mut cache, vs1(), fresh(raster_entry(3, RenderShaderType::Pixel)), 5, &mut handles);
    let vs_new = ShaderCacheOutput {
        entry: Ok(raster_entry(9, RenderShaderType::Vertex)),
        retired: Some(raster_entry(1, RenderShaderType::Vertex)),
    };
    let lookup = cache
        .get_or_load_raster_with_hash(vs_new, fresh(raster_entry(2, RenderShaderType::Pixel)), 5, &one_target(), &mut handles)
        .unwrap();
    assert!(matches!(lookup, RasterLookup::Create(_)));
    assert!(cache.pipelines.raster_pipelines.is_empty());
    let index = &cache.pipelines.raster_shader_to_pipelines;
    assert!(index.values().all(|ids| ids.is_empty()));
}

#[test]
fn raster_key_depends_on_state_hash_and_targets() {
    let mut cache = PipelineCache::new();
    let mut handles = allocator();
    let vs = || fresh(raster_entry(1, RenderShaderType::Vertex));
    let ps = || fresh(raster_entry(2, RenderShaderType::Pixel));
    let (first, _) = load_raster(&mut cache, vs(), ps(), 5, &mut handles);
    let (second, cached) = load_raster(&mut cache, vs(), ps(), 6, &mut handles);
    assert!(!cached);
    assert!(!Arc::ptr_eq(&first, &second));
    let mut color = [None; 8];
    color[0] = Some(RenderFormat::R16g16b16a16Float);
    color[2] = Some(RenderFormat::R8g8b8a8Unorm);
    match cache.get_or_load_raster_with_hash(vs(), ps(), 5, &RenderTarget { color }, &mut handles).unwrap() {
        RasterLookup::Create(req) => {
            assert_eq!(req.render_target_count, 2);
            assert_eq!(req.key.render_target_formats[1], RenderFormat::Unknown);
            assert_eq!(req.key.render_target_formats[2], RenderFormat::R8g8b8a8Unorm);
            assert_eq!(req.pipeline.handle.kind, RenderResourceType::GraphicsPipelineState);
        }
        RasterLookup::Cached(_) => panic!("different targets share a pipeline"),
    }
}

#[test]
fn raster_state_is_hashed_with_wyhash() {
    let mut cache = PipelineCache::new();
    let mut handles = allocator();
    let desc = RasterPipelineDesc {
        vertex_shader: "mesh.vs.hlsl".to_string(),
        pixel_shader: "mesh.ps.hlsl".to_string(),
        render_state: vec![1, 2, 3, 4, 5],
    };
    let lookup = cache
        .get_or_load_raster(
            fresh(raster_entry(1, RenderShaderType::Vertex)),
            fresh(raster_entry(2, RenderShaderType::Pixel)),
            &desc,
            &one_target(),
            &mut handles,
        )
        .unwrap();
    match lookup {
        RasterLookup::Create(req) => {
            assert_eq!(req.key.render_state_hash, wyhash::wyhash(&[1, 2, 3, 4, 5], 0));
            assert_ne!(req.key.render_state_hash, 0);
            assert_eq!(req.render_target_count, 1);
        }
        RasterLookup::Cached(_) => panic!("empty cache hit"),
    }
}

#[test]
fn raster_shader_error_comes_from_vertex_first() {
    let mut cache = PipelineCache::new();
    let mut handles = allocator();
    let vs = ShaderCacheOutput { entry: Err(ShaderError { message: "vs".to_string() }), retired: None };
    let ps = ShaderCacheOutput { entry: Err(ShaderError { message: "ps".to_string() }), retired: None };
    match cache.get_or_load_raster_with_hash(vs, ps, 0, &one_target(), &mut handles) {
        Err(e) => assert_eq!(e.message, "vs"),
        Ok(_) => panic!("error swallowed"),
    }
}

#[test]
fn shader_entries_retire_and_replace() {
    let mut entries: ShaderEntries<u32> = ShaderEntries::new();
    entries.insert(CachedShader { path: "a.hlsl".to_string(), stage: RenderShaderType::Compute, lazy_handle: 1, entry: compute_entry(1) });
    entries.insert(CachedShader { path: "a.hlsl".to_string(), stage: RenderShaderType::Pixel, lazy_handle: 2, entry: raster_entry(2, RenderShaderType::Pixel) });
    assert_eq!(entries.find(&"a.hlsl".to_string(), RenderShaderType::Pixel), Some(1));
    assert_eq!(entries.find(&"b.hlsl".to_string(), RenderShaderType::Compute), None);
    let i = entries.find(&"a.hlsl".to_string(), RenderShaderType::Compute).unwrap();
    let copy = entries.shaders[i].entry.copy();
    match &copy {
        ShaderCacheEntry::Compute(e) => {
            assert_eq!(e.srvs, vec!["input".to_string()]);
            assert_eq!(e.group_size, [8, 8, 1]);
        }
        ShaderCacheEntry::Raster(_) => panic!("stage changed"),
    }
    let retired = entries.retire(i);
    assert_eq!(retired.shader_handle(), shader(1));
    assert_eq!(entries.find(&"a.hlsl".to_string(), RenderShaderType::Compute), None);
    assert_eq!(entries.shaders.len(), 1);
}
