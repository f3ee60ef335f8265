use crate::handles::RenderResourceHandle;
use crate::resource::RenderFormat;
use vstd::prelude::*;

verus! {

/// A compute pipeline with what its dispatches need to know.
pub struct ComputePipeline {
    pub handle: RenderResourceHandle,
    pub group_size: [u32; 3],
    pub srvs: Vec<String>,
    pub uavs: Vec<String>,
}

/// A graphics pipeline.
pub struct RasterPipeline {
    pub handle: RenderResourceHandle,
}

/// The shaders and fixed-function state of a graphics pipeline. The state
/// is held in its serialized form, which is what identifies it.
pub struct RasterPipelineDesc {
    pub vertex_shader: String,
    pub pixel_shader: String,
    pub render_state: Vec<u8>,
}

/// How many color targets a pipeline can write.
pub const MAX_RENDER_TARGET_COUNT: usize = 8;

/// The color targets a raster pass draws into, by slot.
#[derive(Clone, Copy, Debug)]
pub struct RenderTarget {
    pub color: [Option<RenderFormat>; 8],
}

} // verus!
