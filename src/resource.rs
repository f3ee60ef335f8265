use crate::handles::RenderResourceHandle;
use std::marker::PhantomData;
use vstd::prelude::*;

verus! {

/// The only kind of logical resource a graph can create so far.
#[derive(Copy, Clone, Debug, PartialEq, Eq, Structural)]
pub struct Texture;

/// Pixel format of a texture.
#[derive(Clone, Copy, Debug, PartialEq, Eq, Structural, Hash)]
pub enum RenderFormat {
    Unknown,
    R32g32b32a32Float,
    R16g16b16a16Float,
    R11g11b10Float,
    R8g8b8a8Unorm,
    R8g8b8a8UnormSrgb,
    R32Float,
    D32Float,
}

/// Shape of a logical texture.
#[derive(Clone, Copy, Debug, PartialEq, Eq, Structural)]
pub struct TextureDesc {
    pub width: u32,
    pub height: u32,
    pub format: RenderFormat,
}

impl TextureDesc {
    pub fn dims(self) -> (r: [u32; 2])
        ensures
            r@ == seq![self.width, self.height],
    {
        [self.width, self.height]
    }
}

/// Identity of a logical resource within one graph, and the write
/// generation it has reached.
#[derive(Clone, Copy, Debug, PartialEq, Eq, Structural)]
pub struct GraphRawResourceHandle {
    pub id: u32,
    pub version: u32,
}

impl GraphRawResourceHandle {
    pub open spec fn spec_next_version(self) -> Self {
        GraphRawResourceHandle { id: self.id, version: (self.version + 1) as u32 }
    }

    pub fn next_version(self) -> (r: Self)
        requires
            self.version < u32::MAX,
        ensures
            r == self.spec_next_version(),
            r.id == self.id,
            r.version == self.version + 1,
    {
        GraphRawResourceHandle { id: self.id, version: self.version + 1 }
    }
}

/// A logical texture as the pass that created it (and later writers) hold it.
#[derive(Clone, Copy, Debug)]
pub struct Handle {
    pub raw: GraphRawResourceHandle,
    pub desc: TextureDesc,
}

impl Handle {
    pub fn desc(&self) -> (r: &TextureDesc)
        ensures
            *r == self.desc,
    {
        &self.desc
    }
}

/// A capability to use a logical texture at render time; `AccessMode` is
/// `GpuSrv` for a read and `GpuUav` for a write, so the two cannot be mixed
/// up.
pub struct Ref<AccessMode> {
    pub handle: GraphRawResourceHandle,
    pub desc: TextureDesc,
    pub marker: PhantomData<AccessMode>,
}

impl<AccessMode> Ref<AccessMode> {
    pub fn desc(&self) -> (r: &TextureDesc)
        ensures
            *r == self.desc,
    {
        &self.desc
    }

    pub fn internal_clone(&self) -> (r: Ref<AccessMode>)
        ensures
            r.handle == self.handle,
            r.desc == self.desc,
    {
        Ref { handle: self.handle, desc: self.desc, marker: PhantomData }
    }
}

/// A physical resource, by category.
#[derive(Clone, Copy, Debug, PartialEq, Eq, Structural)]
pub enum GpuResource {
    Image(RenderResourceHandle),
    Buffer(RenderResourceHandle),
}

impl GpuResource {
    pub open spec fn spec_handle(self) -> RenderResourceHandle {
        match self {
            GpuResource::Image(h) => h,
            GpuResource::Buffer(h) => h,
        }
    }

    pub fn handle(&self) -> (r: RenderResourceHandle)
        ensures
            r == self.spec_handle(),
    {
        match self {
            GpuResource::Image(h) => *h,
            GpuResource::Buffer(h) => *h,
        }
    }
}

/// A shader-resource (read) view of a physical resource.
#[derive(Clone, Copy, Debug, PartialEq, Eq, Structural)]
pub struct GpuSrv(pub RenderResourceHandle);

/// An unordered-access (write) view of a physical resource.
#[derive(Clone, Copy, Debug, PartialEq, Eq, Structural)]
pub struct GpuUav(pub RenderResourceHandle);

/// The view a reference of a given access mode resolves to.
pub trait ToGpuResourceView: Sized {
    spec fn view_handle(&self) -> RenderResourceHandle;

    fn to_gpu_resource_view(gpu_res: &GpuResource) -> (r: Self)
        ensures
            r.view_handle() == gpu_res.spec_handle(),
    ;
}

impl ToGpuResourceView for GpuSrv {
    open spec fn view_handle(&self) -> RenderResourceHandle {
        self.0
    }

    fn to_gpu_resource_view(gpu_res: &GpuResource) -> (r: Self) {
        GpuSrv(gpu_res.handle())
    }
}

impl ToGpuResourceView for GpuUav {
    open spec fn view_handle(&self) -> RenderResourceHandle {
        self.0
    }

    fn to_gpu_resource_view(gpu_res: &GpuResource) -> (r: Self) {
        GpuUav(gpu_res.handle())
    }
}

/// Ties a type to itself, so that a bound can ask two types to be equal.
pub trait TypeEquals: Sized {
    type Other;

    fn same(value: Self) -> Self::Other;
}

impl<T: Sized> TypeEquals for T {
    type Other = Self;

    fn same(value: Self) -> (r: Self::Other)
    {
        value
    }
}

} // verus!
