use vstd::prelude::*;

verus! {

/// The kind of a device object that a physical handle names.
#[derive(Clone, Copy, Debug, PartialEq, Eq, Structural, Hash)]
pub enum RenderResourceType {
    Texture,
    Buffer,
    Shader,
    ComputePipelineState,
    GraphicsPipelineState,
    ShaderViews,
    FrameBindingSet,
    RenderPass,
    CommandList,
    Fence,
}

/// A physical handle: the kind of object and a slot number that the
/// allocator handed out.
#[derive(Clone, Copy, Debug, PartialEq, Eq, Structural, Hash)]
pub struct RenderResourceHandle {
    pub kind: RenderResourceType,
    pub index: u32,
}

impl RenderResourceHandle {
    pub fn get_type(&self) -> (r: RenderResourceType)
        ensures
            r == self.kind,
    {
        self.kind
    }
}

/// Hands out physical handles; slot numbers are never handed out twice.
pub struct RenderResourceHandleAllocator {
    pub next_index: u32,
}

impl RenderResourceHandleAllocator {
    pub fn new() -> (r: Self)
        ensures
            r.next_index == 0,
    {
        RenderResourceHandleAllocator { next_index: 0 }
    }

    pub open spec fn can_allocate(&self) -> bool {
        self.next_index < u32::MAX
    }

    pub fn allocate(&mut self, kind: RenderResourceType) -> (r: RenderResourceHandle)
        requires
            old(self).can_allocate(),
        ensures
            r.kind == kind,
            r.index == old(self).next_index,
            final(self).next_index == old(self).next_index + 1,
    {
        let index = self.next_index;
        self.next_index = self.next_index + 1;
        RenderResourceHandle { kind, index }
    }
}

} // verus!
