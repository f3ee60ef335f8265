use crate::handles::RenderResourceHandle;
use vstd::prelude::*;

verus! {

/// The pipeline stage a shader is compiled for.
#[derive(Clone, Copy, Debug, PartialEq, Eq, Structural, Hash)]
pub enum RenderShaderType {
    Vertex,
    Geometry,
    Hull,
    Domain,
    Pixel,
    Compute,
}

/// A compiled compute shader with its reflected binding names and thread
/// group size.
pub struct ComputeShaderCacheEntry {
    pub shader_handle: RenderResourceHandle,
    pub srvs: Vec<String>,
    pub uavs: Vec<String>,
    pub group_size: [u32; 3],
}

/// A compiled shader of a raster stage.
pub struct RasterShaderCacheEntry {
    pub shader_handle: RenderResourceHandle,
    pub stage: RenderShaderType,
}

/// What the shader cache holds for one (path, stage).
pub enum ShaderCacheEntry {
    Compute(ComputeShaderCacheEntry),
    Raster(RasterShaderCacheEntry),
}

impl ShaderCacheEntry {
    pub open spec fn spec_shader_handle(&self) -> RenderResourceHandle {
        match self {
            ShaderCacheEntry::Compute(e) => e.shader_handle,
            ShaderCacheEntry::Raster(e) => e.shader_handle,
        }
    }

    pub fn shader_handle(&self) -> (r: RenderResourceHandle)
        ensures
            r == self.spec_shader_handle(),
    {
        match self {
            ShaderCacheEntry::Compute(e) => e.shader_handle,
            ShaderCacheEntry::Raster(e) => e.shader_handle,
        }
    }
}

/// Why the shader cache could not produce a shader.
#[derive(Debug)]
pub struct ShaderError {
    pub message: String,
}

/// The shader cache's answer for one lookup: the current shader, or why
/// there is none, and the entry it retired on the way, if it recompiled.
pub struct ShaderCacheOutput {
    pub entry: Result<ShaderCacheEntry, ShaderError>,
    pub retired: Option<ShaderCacheEntry>,
}

/// A compiled shader under its source path and stage, with the handle its
/// compiler uses to tell whether the sources changed since.
pub struct CachedShader<L> {
    pub path: String,
    pub stage: RenderShaderType,
    pub lazy_handle: L,
    pub entry: ShaderCacheEntry,
}

/// The shader cache's entries: at most one per (path, stage).
pub struct ShaderEntries<L> {
    pub shaders: Vec<CachedShader<L>>,
}

/// A copy of `names`.
fn copy_names(names: &Vec<String>) -> (r: Vec<String>)
    ensures
        r@.len() == names@.len(),
        forall|i: int| 0 <= i < names@.len() ==> #[trigger] r@[i]@ == names@[i]@,
{
    let mut r: Vec<String> = Vec::new();
    let mut i: usize = 0;
    while i < names.len()
        invariant
            i <= names@.len(),
            r@.len() == i,
            forall|j: int| 0 <= j < i ==> #[trigger] r@[j]@ == names@[j]@,
        decreases names@.len() - i,
    {
        r.push(names[i].clone());
        i = i + 1;
    }
    r
}

impl ShaderCacheEntry {
    /// The entry describes the same shader as `other`: same handle, stage or
    /// thread group size, and binding names.
    pub open spec fn same_as(&self, other: &ShaderCacheEntry) -> bool {
        match (self, other) {
            (ShaderCacheEntry::Compute(a), ShaderCacheEntry::Compute(b)) => {
                &&& a.shader_handle == b.shader_handle
                &&& a.group_size == b.group_size
                &&& a.srvs@.len() == b.srvs@.len()
                &&& forall|i: int| 0 <= i < a.srvs@.len() ==> #[trigger] a.srvs@[i]@ == b.srvs@[i]@
                &&& a.uavs@.len() == b.uavs@.len()
                &&& forall|i: int| 0 <= i < a.uavs@.len() ==> #[trigger] a.uavs@[i]@ == b.uavs@[i]@
            },
            (ShaderCacheEntry::Raster(a), ShaderCacheEntry::Raster(b)) => a == b,
            _ => false,
        }
    }

    /// A copy to hand out while the cache keeps its own.
    pub fn copy(&self) -> (r: ShaderCacheEntry)
        ensures
            r.same_as(self),
            r.spec_shader_handle() == self.spec_shader_handle(),
    {
        match self {
            ShaderCacheEntry::Compute(e) => ShaderCacheEntry::Compute(
                ComputeShaderCacheEntry {
                    shader_handle: e.shader_handle,
                    srvs: copy_names(&e.srvs),
                    uavs: copy_names(&e.uavs),
                    group_size: e.group_size,
                },
            ),
            ShaderCacheEntry::Raster(e) => ShaderCacheEntry::Raster(
                RasterShaderCacheEntry { shader_handle: e.shader_handle, stage: e.stage },
            ),
        }
    }
}

impl<L> ShaderEntries<L> {
    pub open spec fn has_key(&self, i: int, path: Seq<char>, stage: RenderShaderType) -> bool {
        self.shaders@[i].path@ == path && self.shaders@[i].stage == stage
    }

    /// No two entries share a (path, stage).
    pub open spec fn wf(&self) -> bool {
        forall|i: int, j: int|
            0 <= i < self.shaders@.len() && 0 <= j < self.shaders@.len() && i != j ==> !(
            #[trigger] self.shaders@[i].path@ == #[trigger] self.shaders@[j].path@ && self.shaders@[i].stage
                == self.shaders@[j].stage)
    }

    pub fn new() -> (r: Self)
        ensures
            r.wf(),
            r.shaders@.len() == 0,
    {
        ShaderEntries { shaders: Vec::new() }
    }

    /// The index of the entry for (`path`, `stage`), if there is one.
    pub fn find(&self, path: &String, stage: RenderShaderType) -> (r: Option<usize>)
        ensures
            match r {
                Some(i) => i < self.shaders@.len() && self.has_key(i as int, path@, stage),
                None => forall|i: int| 0 <= i < self.shaders@.len() ==> !self.has_key(i, path@, stage),
            },
    {
        let mut i: usize = 0;
        while i < self.shaders.len()
            invariant
                i <= self.shaders@.len(),
                forall|j: int| 0 <= j < i ==> !self.has_key(j, path@, stage),
            decreases self.shaders@.len() - i,
        {
            if self.shaders[i].stage == stage && self.shaders[i].path == *path {
                return Some(i);
            }
            i = i + 1;
        }
        None
    }

    /// Drops entry `i`, whose sources changed, and returns it so that what
    /// was built from it can be evicted.
    pub fn retire(&mut self, i: usize) -> (r: ShaderCacheEntry)
        requires
            old(self).wf(),
            i < old(self).shaders@.len(),
        ensures
            final(self).wf(),
            r == old(self).shaders@[i as int].entry,
            final(self).shaders@ == old(self).shaders@.remove(i as int),
    {
        let cached = self.shaders.remove(i);
        proof {
            let o = old(self).shaders@;
            let n = self.shaders@;
            assert forall|a: int, b: int|
                0 <= a < n.len() && 0 <= b < n.len() && a != b implies !(#[trigger] n[a].path@ == #[trigger] n[b].path@
                    && n[a].stage == n[b].stage) by {
                let oa = if a < i { a } else { a + 1 };
                let ob = if b < i { b } else { b + 1 };
                assert(n[a] == o[oa] && n[b] == o[ob]);
                assert(!(o[oa].path@ == o[ob].path@ && o[oa].stage == o[ob].stage));
            }
        }
        cached.entry
    }

    /// Adds a freshly compiled shader, which has no entry yet.
    pub fn insert(&mut self, cached: CachedShader<L>)
        requires
            old(self).wf(),
            forall|i: int| 0 <= i < old(self).shaders@.len() ==> !old(self).has_key(i, cached.path@, cached.stage),
        ensures
            final(self).wf(),
            final(self).shaders@ == old(self).shaders@.push(cached),
    {
        self.shaders.push(cached);
        proof {
            let o = old(self).shaders@;
            let n = self.shaders@;
            assert forall|a: int, b: int|
                0 <= a < n.len() && 0 <= b < n.len() && a != b implies !(#[trigger] n[a].path@ == #[trigger] n[b].path@
                    && n[a].stage == n[b].stage) by {
                if a < o.len() && b < o.len() {
                    assert(n[a] == o[a] && n[b] == o[b]);
                } else if a < o.len() {
                    assert(n[a] == o[a] && n[b] == cached);
                    assert(!old(self).has_key(a, cached.path@, cached.stage));
                } else {
                    assert(n[b] == o[b] && n[a] == cached);
                    assert(!old(self).has_key(b, cached.path@, cached.stage));
                }
            }
        }
    }
}

} // verus!
