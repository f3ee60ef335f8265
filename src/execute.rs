use crate::graph::{GraphResourceDesc, RenderGraph};
use crate::handles::{RenderResourceHandle, RenderResourceType};
use crate::lifetime::{is_lifetime_of, ResourceLifetime};
use crate::resource::{GpuResource, Handle, TextureDesc};
use crate::resource_registry::ResourceRegistry;
use crate::tracking::TrackingResourceHandleAllocator;
use vstd::prelude::*;

verus! {

/// A texture the device must create before the passes run.
#[derive(Clone, Copy, Debug, PartialEq, Eq, Structural)]
pub struct TextureCreation {
    pub handle: RenderResourceHandle,
    pub desc: TextureDesc,
}

/// What the graph resolved its output to.
#[derive(Clone, Copy, Debug, PartialEq, Eq, Structural)]
pub struct RenderGraphExecutionOutput {
    pub output_texture: RenderResourceHandle,
}

/// A graph turned into work: the textures to create, in id order, the
/// registry that resolves references to them, the passes' callbacks in
/// recording order, and the resolved output.
pub struct GraphExecution<F> {
    pub resource_lifetimes: Vec<ResourceLifetime>,
    pub texture_creations: Vec<TextureCreation>,
    pub registry: ResourceRegistry,
    pub render_fns: Vec<F>,
    pub output: RenderGraphExecutionOutput,
}

/// The physical handle that execution gives logical resource `i`, when the
/// allocator's next slot number was `base`.
pub open spec fn physical_texture(base: nat, i: int) -> RenderResourceHandle {
    RenderResourceHandle { kind: RenderResourceType::Texture, index: (base + i) as u32 }
}

impl<F> RenderGraph<F> {
    /// Allocates one transient texture per logical resource, in id order,
    /// builds the registry over them, and hands out the passes' callbacks in
    /// recording order together with the physical handle of `output`.
    pub fn execute(self, handles: &mut TrackingResourceHandleAllocator, output: &Handle) -> (r:
        GraphExecution<F>)
        requires
            self.wf(),
            self.complete(),
            (output.raw.id as int) < self.resources@.len(),
            old(handles).has_room(self.resources@.len()),
        ensures
            r.resource_lifetimes@.len() == self.resources@.len(),
            forall|i: int|
                0 <= i < self.resources@.len() ==> is_lifetime_of(
                    self,
                    i,
                    #[trigger] r.resource_lifetimes@[i],
                ),
            r.texture_creations@.len() == self.resources@.len(),
            forall|i: int|
                0 <= i < self.resources@.len() ==> #[trigger] r.texture_creations@[i] == (
                TextureCreation {
                    handle: physical_texture(old(handles).next_index(), i),
                    desc: self.resources@[i].desc.texture_desc(),
                }),
            r.registry.resources@.len() == self.resources@.len(),
            forall|i: int|
                0 <= i < self.resources@.len() ==> #[trigger] r.registry.resources@[i]
                    == GpuResource::Image(physical_texture(old(handles).next_index(), i)),
            r.render_fns@.len() == self.passes@.len(),
            forall|p: int|
                0 <= p < self.passes@.len() ==> Some(#[trigger] r.render_fns@[p])
                    == self.passes@[p].render_fn,
            r.output.output_texture == physical_texture(
                old(handles).next_index(),
                output.raw.id as int,
            ),
            final(handles).next_index() == old(handles).next_index() + self.resources@.len(),
            final(handles).allocated.transient@ == old(handles).allocated.transient@ + Seq::new(
                self.resources@.len(),
                |i: int| physical_texture(old(handles).next_index(), i),
            ),
            final(handles).allocated.persistent@ == old(handles).allocated.persistent@,
    {
        let resource_lifetimes = self.calculate_resource_lifetimes();
        let ghost base = handles.next_index();
        let ghost old_transient = handles.allocated.transient@;
        let n = self.resources.len();
        let mut texture_creations: Vec<TextureCreation> = Vec::new();
        let mut gpu_resources: Vec<GpuResource> = Vec::new();
        let mut i: usize = 0;
        while i < n
            invariant
                n == self.resources@.len(),
                i <= n,
                handles.next_index() == base + i,
                base + n <= u32::MAX,
                texture_creations@.len() == i,
                gpu_resources@.len() == i,
                forall|j: int|
                    0 <= j < i ==> #[trigger] texture_creations@[j] == (TextureCreation {
                        handle: physical_texture(base, j),
                        desc: self.resources@[j].desc.texture_desc(),
                    }),
                forall|j: int|
                    0 <= j < i ==> #[trigger] gpu_resources@[j] == GpuResource::Image(
                        physical_texture(base, j),
                    ),
                handles.allocated.transient@ == old_transient + Seq::new(
                    i as nat,
                    |j: int| physical_texture(base, j),
                ),
                handles.allocated.persistent@ == old(handles).allocated.persistent@,
            decreases n - i,
        {
            match self.resources[i].desc {
                GraphResourceDesc::Texture(desc) => {
                    let handle = handles.allocate_transient(RenderResourceType::Texture);
                    texture_creations.push(TextureCreation { handle, desc });
                    gpu_resources.push(GpuResource::Image(handle));
                },
            }
            i = i + 1;
            assert(handles.allocated.transient@ =~= old_transient + Seq::new(
                i as nat,
                |j: int| physical_texture(base, j),
            ));
        }
        let registry = ResourceRegistry { resources: gpu_resources };
        let RenderGraph { passes, resources } = self;
        let ghost all_passes = passes@;
        let mut passes = passes;
        let mut render_fns: Vec<F> = Vec::new();
        while passes.len() > 0
            invariant
                render_fns@.len() + passes@.len() == all_passes.len(),
                passes@ == all_passes.subrange(render_fns@.len() as int, all_passes.len() as int),
                forall|p: int| 0 <= p < all_passes.len() ==> all_passes[p].render_fn.is_some(),
                forall|p: int|
                    0 <= p < render_fns@.len() ==> Some(#[trigger] render_fns@[p])
                        == all_passes[p].render_fn,
            decreases passes@.len(),
        {
            let pass = passes.remove(0);
            let ghost k = render_fns@.len() as int;
            assert(pass == all_passes[k]);
            match pass.render_fn {
                Some(f) => {
                    render_fns.push(f);
                },
                None => {},
            }
            assert(passes@ =~= all_passes.subrange(render_fns@.len() as int, all_passes.len() as int));
        }
        let output_texture = match registry.resources[output.raw.id as usize] {
            GpuResource::Image(h) => h,
            GpuResource::Buffer(h) => h,
        };
        GraphExecution {
            resource_lifetimes,
            texture_creations,
            registry,
            render_fns,
            output: RenderGraphExecutionOutput { output_texture },
        }
    }
}

} // verus!
