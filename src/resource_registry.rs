use crate::handles::{RenderResourceHandle, RenderResourceType};
use crate::resource::{GpuResource, GpuUav, Ref, ToGpuResourceView};
use crate::tracking::TrackingResourceHandleAllocator;
use vstd::prelude::*;

verus! {

/// Resolves logical references to the physical resources that execution
/// allocated for them, by logical id.
pub struct ResourceRegistry {
    pub resources: Vec<GpuResource>,
}

impl ResourceRegistry {
    /// The view of the physical resource that `resource` refers to.
    pub fn get<GpuResType: ToGpuResourceView>(&self, resource: Ref<GpuResType>) -> (r: GpuResType)
        requires
            (resource.handle.id as int) < self.resources@.len(),
        ensures
            r.view_handle() == self.resources@[resource.handle.id as int].spec_handle(),
    {
        GpuResType::to_gpu_resource_view(&self.resources[resource.handle.id as usize])
    }

    /// Allocates a frame binding set and a render pass over the color
    /// targets `rts`, in slot order, and resolves each target to its
    /// physical texture; the caller creates both on the device.
    pub fn render_pass(
        &self,
        rts: &Vec<Ref<GpuUav>>,
        handles: &mut TrackingResourceHandleAllocator,
    ) -> (r: RenderPassRequest)
        requires
            rts@.len() <= 8,
            forall|i: int| 0 <= i < rts@.len() ==> ((#[trigger] rts@[i]).handle.id as int) < self.resources@.len(),
            old(handles).has_room(2),
        ensures
            r.frame_binding_set == (RenderResourceHandle {
                kind: RenderResourceType::FrameBindingSet,
                index: old(handles).handles.next_index,
            }),
            r.render_pass == (RenderResourceHandle {
                kind: RenderResourceType::RenderPass,
                index: (old(handles).handles.next_index + 1) as u32,
            }),
            r.render_target_views@.len() == rts@.len(),
            forall|i: int|
                0 <= i < rts@.len() ==> #[trigger] r.render_target_views@[i]
                    == self.resources@[rts@[i].handle.id as int].spec_handle(),
            final(handles).next_index() == old(handles).next_index() + 2,
            final(handles).allocated.transient@ == old(handles).allocated.transient@.push(
                r.frame_binding_set,
            ).push(r.render_pass),
            final(handles).allocated.persistent@ == old(handles).allocated.persistent@,
    {
        let frame_binding_set = handles.allocate_transient(RenderResourceType::FrameBindingSet);
        let mut render_target_views: Vec<RenderResourceHandle> = Vec::new();
        let mut i: usize = 0;
        while i < rts.len()
            invariant
                i <= rts@.len(),
                forall|i: int| 0 <= i < rts@.len() ==> ((#[trigger] rts@[i]).handle.id as int) < self.resources@.len(),
                render_target_views@.len() == i,
                forall|j: int|
                    0 <= j < i ==> #[trigger] render_target_views@[j]
                        == self.resources@[rts@[j].handle.id as int].spec_handle(),
            decreases rts@.len() - i,
        {
            let h = self.resources[rts[i].handle.id as usize].handle();
            render_target_views.push(h);
            i = i + 1;
        }
        let render_pass = handles.allocate_transient(RenderResourceType::RenderPass);
        RenderPassRequest { frame_binding_set, render_pass, render_target_views }
    }
}

/// The device objects a raster pass needs: a frame binding set over the
/// color targets' textures, in slot order, and the render pass using it.
pub struct RenderPassRequest {
    pub frame_binding_set: RenderResourceHandle,
    pub render_pass: RenderResourceHandle,
    pub render_target_views: Vec<RenderResourceHandle>,
}

} // verus!
