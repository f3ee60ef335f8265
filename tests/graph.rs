use rg::execute::TextureCreation;
use rg::graph::RenderGraph;
use rg::handles::{RenderResourceHandle, RenderResourceHandleAllocator, RenderResourceType};
use rg::lifetime::ResourceLifetime;
use rg::resource::{GpuResource, GpuSrv, GpuUav, GraphRawResourceHandle, RenderFormat, TextureDesc};
use rg::pipeline::ComputePipeline;
use rg::resource::Ref;
use rg::resource_registry::ResourceRegistry;
use rg::resource_view::RgSrv;
use std::marker::PhantomData;
use rg::tracking::TrackingResourceHandleAllocator;

type Callback = Box<dyn FnOnce(&mut Vec<&'static str>, &ResourceRegistry) -> Result<(), String>>;

fn desc64() -> TextureDesc {
    TextureDesc { width: 64, height: 64, format: RenderFormat::R32g32b32a32Float }
}

fn tex(index: u32) -> RenderResourceHandle {
    RenderResourceHandle { kind: RenderResourceType::Texture, index }
}

#[test]
fn end_to_end_two_passes() {
    let rg: RenderGraph<Callback> = RenderGraph::new();
    let mut pass = rg.add_pass();
    let (first, first_ref) = pass.create(&desc64());
    let rg = pass.render(Box::new(move |log: &mut Vec<&'static str>, reg: &ResourceRegistry| {
        let view: GpuUav = reg.get(first_ref);
        assert_eq!(view.0, tex(0));
        log.push("first");
        Ok(())
    }));
    let mut pass = rg.add_pass();
    let first_read = pass.read(&first);
    let (second, second_ref) = pass.create(&desc64());
    let rg = pass.render(Box::new(move |log: &mut Vec<&'static str>, reg: &ResourceRegistry| {
        let src: GpuSrv = reg.get(first_read);
        let dst: GpuUav = reg.get(second_ref);
        assert_eq!(src.0, tex(0));
        assert_eq!(dst.0, tex(1));
        log.push("second");
        Ok(())
    }));

    let mut handles = TrackingResourceHandleAllocator::new(RenderResourceHandleAllocator::new());
    let exec = rg.execute(&mut handles, &second);

    assert_eq!(exec.texture_creations.len(), 2);
    assert_eq!(exec.texture_creations[0], TextureCreation { handle: tex(0), desc: desc64() });
    assert_eq!(exec.texture_creations[1], TextureCreation { handle: tex(1), desc: desc64() });
    assert_eq!(exec.output.output_texture, tex(1));
    assert_eq!(exec.render_fns.len(), 2);

    let mut log = Vec::new();
    for f in exec.render_fns {
        f(&mut log, &exec.registry).unwrap();
    }
    assert_eq!(log, vec!["first", "second"]);

    let (_, allocated) = handles.into_allocated_resources();
    assert_eq!(allocated.transient, vec![tex(0), tex(1)]);
    assert!(allocated.persistent.is_empty());
}

#[test]
fn create_ids_are_dense_from_zero() {
    let rg: RenderGraph<u32> = RenderGraph::new();
    let mut pass = rg.add_pass();
    let (a, _) = pass.create(&desc64());
    let (b, _) = pass.create(&desc64());
    let rg = pass.render(0);
    let mut pass = rg.add_pass();
    let (c, _) = pass.create(&desc64());
    let rg = pass.render(1);
    assert_eq!(a.raw, GraphRawResourceHandle { id: 0, version: 0 });
    assert_eq!(b.raw, GraphRawResourceHandle { id: 1, version: 0 });
    assert_eq!(c.raw, GraphRawResourceHandle { id: 2, version: 0 });
    assert_eq!(rg.resources.len(), 3);
    assert_eq!(rg.passes.len(), 2);
    assert_eq!(rg.resources[2].create_pass_idx, 1);
}

#[test]
fn successive_writes_raise_the_version() {
    let rg: RenderGraph<u32> = RenderGraph::new();
    let mut pass = rg.add_pass();
    let (mut h, created) = pass.create(&desc64());
    let rg = pass.render(0);
    let mut pass = rg.add_pass();
    let w1 = pass.write(&mut h);
    let rg = pass.render(1);
    let mut pass = rg.add_pass();
    let w2 = pass.write(&mut h);
    let _rg = pass.render(2);
    assert_eq!(created.handle.version, 0);
    assert_eq!(w1.handle, GraphRawResourceHandle { id: 0, version: 1 });
    assert_eq!(w2.handle, GraphRawResourceHandle { id: 0, version: 2 });
    assert!(w2.handle.version > w1.handle.version);
    assert_eq!(h.raw, w2.handle);
}

#[test]
fn reading_twice_in_one_pass_is_allowed() {
    let rg: RenderGraph<u32> = RenderGraph::new();
    let mut pass = rg.add_pass();
    let (h, _) = pass.create(&desc64());
    let rg = pass.render(0);
    let mut pass = rg.add_pass();
    let r1 = pass.read(&h);
    let r2 = pass.read(&h);
    assert_eq!(r1.handle, r2.handle);
    assert_eq!(pass.pass.read.len(), 2);
    assert!(pass.pass.write.is_empty());
}

#[test]
fn lifetimes_span_creation_to_last_access() {
    let rg: RenderGraph<u32> = RenderGraph::new();
    let mut pass = rg.add_pass();
    let (a, _) = pass.create(&desc64());
    let rg = pass.render(0);
    let mut pass = rg.add_pass();
    let _ = pass.read(&a);
    let rg = pass.render(1);
    let mut pass = rg.add_pass();
    let _ = pass.read(&a);
    let (_b, _) = pass.create(&desc64());
    let rg = pass.render(2);
    let mut pass = rg.add_pass();
    let (_c, _) = pass.create(&desc64());
    let rg = pass.render(3);
    let lts = rg.calculate_resource_lifetimes();
    assert_eq!(lts[0], ResourceLifetime { first_access: 0, last_access: 2 });
    assert_eq!(lts[1], ResourceLifetime { first_access: 2, last_access: 2 });
    assert_eq!(lts[2], ResourceLifetime { first_access: 3, last_access: 3 });
}

#[test]
fn execute_allocates_after_existing_handles() {
    let rg: RenderGraph<u32> = RenderGraph::new();
    let mut pass = rg.add_pass();
    let (a, _) = pass.create(&desc64());
    let rg = pass.render(7);
    let mut alloc = RenderResourceHandleAllocator::new();
    let _ = alloc.allocate(RenderResourceType::Buffer);
    let mut handles = TrackingResourceHandleAllocator::new(alloc);
    let exec = rg.execute(&mut handles, &a);
    assert_eq!(exec.output.output_texture, tex(1));
    assert_eq!(exec.registry.resources, vec![GpuResource::Image(tex(1))]);
    assert_eq!(exec.render_fns, vec![7]);
    assert_eq!(exec.resource_lifetimes[0], ResourceLifetime { first_access: 0, last_access: 0 });
}

#[test]
fn empty_graph_executes_to_nothing() {
    let rg: RenderGraph<u32> = RenderGraph::new();
    let mut pass = rg.add_pass();
    let (a, _) = pass.create(&desc64());
    let rg = pass.render(0);
    let mut handles = TrackingResourceHandleAllocator::new(RenderResourceHandleAllocator::new());
    let exec = rg.execute(&mut handles, &a);
    assert_eq!(exec.texture_creations.len(), 1);
    let empty: RenderGraph<u32> = RenderGraph::new();
    assert!(empty.calculate_resource_lifetimes().is_empty());
}

#[test]
fn texture_desc_dims() {
    let d = TextureDesc { width: 1280, height: 720, format: RenderFormat::R16g16b16a16Float };
    assert_eq!(d.dims(), [1280, 720]);
}

#[test]
fn render_pass_resolves_targets() {
    let rg: RenderGraph<u32> = RenderGraph::new();
    let mut pass = rg.add_pass();
    let (_a, a_ref) = pass.create(&desc64());
    let (_b, b_ref) = pass.create(&desc64());
    let rg = pass.render(0);
    let mut handles = TrackingResourceHandleAllocator::new(RenderResourceHandleAllocator::new());
    let exec = rg.execute(&mut handles, &_b);
    let req = exec.registry.render_pass(&vec![b_ref, a_ref], &mut handles);
    assert_eq!(req.render_target_views, vec![tex(1), tex(0)]);
    assert_eq!(
        req.frame_binding_set,
        RenderResourceHandle { kind: RenderResourceType::FrameBindingSet, index: 2 }
    );
    assert_eq!(req.render_pass, RenderResourceHandle { kind: RenderResourceType::RenderPass, index: 3 });
}

#[test]
fn named_views_bind_by_reflected_name() {
    let pipeline = ComputePipeline {
        handle: RenderResourceHandle { kind: RenderResourceType::ComputePipelineState, index: 5 },
        group_size: [8, 8, 1],
        srvs: vec!["b".to_string(), "a".to_string()],
        uavs: vec!["out".to_string()],
    };
    let registry = ResourceRegistry { resources: vec![GpuResource::Image(tex(0)), GpuResource::Image(tex(1))] };
    let read = |id: u32| Ref::<GpuSrv> {
        handle: GraphRawResourceHandle { id, version: 0 },
        desc: desc64(),
        marker: PhantomData,
    };
    let write = Ref::<GpuUav> { handle: GraphRawResourceHandle { id: 1, version: 1 }, desc: desc64(), marker: PhantomData };
    let srvs: Vec<(String, RgSrv)> = vec![
        ("a".to_string(), rg::srv::texture_2d(read(0))),
        ("b".to_string(), rg::srv::texture_2d(read(1))),
    ];
    let uavs = vec![("out".to_string(), rg::uav::texture_2d(write))];
    let views = pipeline.named_views(&registry, &srvs, &uavs);
    assert_eq!(views.shader_resource_views, vec![Some(tex(1)), Some(tex(0))]);
    assert_eq!(views.unordered_access_views, vec![Some(tex(1))]);
}
