use crate::handles::RenderResourceHandle;
use crate::pipeline::ComputePipeline;
use crate::resource::{GpuSrv, GpuUav, Ref};
use crate::resource_registry::ResourceRegistry;
use vstd::prelude::*;

verus! {

/// A texture read through a shader-resource view.
pub struct RgSrv {
    pub rg_ref: Ref<GpuSrv>,
}

/// A texture written through an unordered-access view.
pub struct RgUav {
    pub rg_ref: Ref<GpuUav>,
}

/// The views a dispatch binds: for each binding slot of the shader, the
/// physical resource bound there, if any.
pub struct RenderShaderViewsDesc {
    pub shader_resource_views: Vec<Option<RenderResourceHandle>>,
    pub unordered_access_views: Vec<Option<RenderResourceHandle>>,
}

/// The position of the first name in `names` equal to `name`.
#[verifier::opaque]
pub open spec fn first_index(names: Seq<String>, name: Seq<char>) -> int {
    choose|i: int|
        0 <= i < names.len() && names[i]@ == name && forall|j: int| 0 <= j < i ==> names[j]@ != name
}

/// Whether `name` is among `names`, at a position below `bound`.
pub open spec fn named_below(names: Seq<String>, name: Seq<char>, bound: int) -> bool {
    exists|i: int| 0 <= i < bound && i < names.len() && names[i]@ == name
}

/// `slots` after binding, in order, each `(name, handle)` of `binds` to the
/// slot of the first equal name in `names`.
pub open spec fn bind_all(
    slots: Seq<Option<RenderResourceHandle>>,
    names: Seq<String>,
    binds: Seq<(Seq<char>, RenderResourceHandle)>,
) -> Seq<Option<RenderResourceHandle>>
    decreases binds.len(),
{
    if binds.len() == 0 {
        slots
    } else {
        bind_all(slots, names, binds.drop_last()).update(
            first_index(names, binds.last().0),
            Some(binds.last().1),
        )
    }
}

/// The position of `name` in `names`: the first one, if any.
fn position(names: &Vec<String>, name: &String) -> (r: Option<usize>)
    ensures
        match r {
            Some(i) => {
                &&& i == first_index(names@, name@)
                &&& i < names@.len()
                &&& names@[i as int]@ == name@
                &&& forall|j: int| 0 <= j < i ==> names@[j]@ != name@
            },
            None => forall|j: int| 0 <= j < names@.len() ==> names@[j]@ != name@,
        },
{
    let mut i: usize = 0;
    while i < names.len()
        invariant
            i <= names@.len(),
            forall|j: int| 0 <= j < i ==> names@[j]@ != name@,
        decreases names@.len() - i,
    {
        if names[i] == *name {
            proof {
                reveal(first_index);
                let f = first_index(names@, name@);
                assert(0 <= i < names@.len() && names@[i as int]@ == name@ && forall|j: int| 0 <= j < i ==> names@[j]@ != name@);
                if f != i {
                    if f < i {
                    } else {
                        assert(names@[i as int]@ != name@);
                    }
                }
            }
            return Some(i);
        }
        i = i + 1;
    }
    None
}

/// Binds, in order, each `(name, handle)` of `binds` to the slot of the
/// first equal name in `names`, over `binds.len()` empty slots.
fn bind_views(names: &Vec<String>, binds: &Vec<(String, RenderResourceHandle)>) -> (r: Vec<
    Option<RenderResourceHandle>,
>)
    requires
        forall|k: int|
            0 <= k < binds@.len() ==> named_below(names@, (#[trigger] binds@[k]).0@, binds@.len() as int),
    ensures
        r@ == bind_all(Seq::new(binds@.len(), |i: int| None), names@, name_views(binds@)),
{
    let mut slots: Vec<Option<RenderResourceHandle>> = Vec::new();
    let mut i: usize = 0;
    while i < binds.len()
        invariant
            i <= binds@.len(),
            slots@ == Seq::new(i as nat, |j: int| None::<RenderResourceHandle>),
        decreases binds@.len() - i,
    {
        slots.push(None);
        i = i + 1;
        assert(slots@ =~= Seq::new(i as nat, |j: int| None::<RenderResourceHandle>));
    }
    let ghost init = slots@;
    let ghost all = name_views(binds@);
    let mut k: usize = 0;
    while k < binds.len()
        invariant
            k <= binds@.len(),
            slots@.len() == binds@.len(),
            init == Seq::new(binds@.len(), |i: int| None::<RenderResourceHandle>),
            all == name_views(binds@),
            forall|k: int|
                0 <= k < binds@.len() ==> named_below(names@, (#[trigger] binds@[k]).0@, binds@.len() as int),
            slots@ == bind_all(init, names@, all.subrange(0, k as int)),
        decreases binds@.len() - k,
    {
        let pair = &binds[k];
        assert(named_below(names@, pair.0@, binds@.len() as int));
        let ghost j = choose|j: int| 0 <= j < binds@.len() && j < names@.len() && names@[j]@ == pair.0@;
        let slot = match position(names, &pair.0) {
            Some(p) => p,
            None => {
                assert(names@[j]@ != pair.0@);
                0
            },
        };
        assert(slot <= j);
        let ghost before = slots@;
        slots.set(slot, Some(pair.1));
        proof {
            let prefix = all.subrange(0, k + 1);
            assert(prefix.drop_last() =~= all.subrange(0, k as int));
            assert(prefix.last() == (pair.0@, pair.1));
            assert(bind_all(init, names@, prefix) == bind_all(init, names@, prefix.drop_last()).update(
                first_index(names@, prefix.last().0),
                Some(prefix.last().1),
            ));
            assert(slots@ == before.update(slot as int, Some(pair.1)));
        }
        k = k + 1;
    }
    assert(all.subrange(0, binds@.len() as int) =~= all);
    slots
}

/// Each binding's name as characters, with its handle.
pub open spec fn name_views(binds: Seq<(String, RenderResourceHandle)>) -> Seq<(Seq<char>, RenderResourceHandle)> {
    Seq::new(binds.len(), |k: int| (binds[k].0@, binds[k].1))
}

/// Each named read resolved through `registry`.
pub open spec fn resolved_srvs(registry: ResourceRegistry, srvs: Seq<(String, RgSrv)>) -> Seq<(String, RenderResourceHandle)> {
    Seq::new(srvs.len(), |k: int| (srvs[k].0, registry.resources@[srvs[k].1.rg_ref.handle.id as int].spec_handle()))
}

/// Each named write resolved through `registry`.
pub open spec fn resolved_uavs(registry: ResourceRegistry, uavs: Seq<(String, RgUav)>) -> Seq<(String, RenderResourceHandle)> {
    Seq::new(uavs.len(), |k: int| (uavs[k].0, registry.resources@[uavs[k].1.rg_ref.handle.id as int].spec_handle()))
}

fn resolve_srvs(registry: &ResourceRegistry, srvs: &Vec<(String, RgSrv)>) -> (r: Vec<(String, RenderResourceHandle)>)
    requires
        forall|k: int| 0 <= k < srvs@.len() ==> ((#[trigger] srvs@[k]).1.rg_ref.handle.id as int) < registry.resources@.len(),
    ensures
        r@ == resolved_srvs(*registry, srvs@),
{
    let mut r: Vec<(String, RenderResourceHandle)> = Vec::new();
    let mut k: usize = 0;
    while k < srvs.len()
        invariant
            k <= srvs@.len(),
            forall|k: int| 0 <= k < srvs@.len() ==> ((#[trigger] srvs@[k]).1.rg_ref.handle.id as int) < registry.resources@.len(),
            r@ == resolved_srvs(*registry, srvs@).subrange(0, k as int),
        decreases srvs@.len() - k,
    {
        let view: GpuSrv = registry.get(srvs[k].1.rg_ref.internal_clone());
        r.push((srvs[k].0.clone(), view.0));
        k = k + 1;
        assert(r@ =~= resolved_srvs(*registry, srvs@).subrange(0, k as int));
    }
    assert(resolved_srvs(*registry, srvs@).subrange(0, srvs@.len() as int) =~= resolved_srvs(*registry, srvs@));
    r
}

fn resolve_uavs(registry: &ResourceRegistry, uavs: &Vec<(String, RgUav)>) -> (r: Vec<(String, RenderResourceHandle)>)
    requires
        forall|k: int| 0 <= k < uavs@.len() ==> ((#[trigger] uavs@[k]).1.rg_ref.handle.id as int) < registry.resources@.len(),
    ensures
        r@ == resolved_uavs(*registry, uavs@),
{
    let mut r: Vec<(String, RenderResourceHandle)> = Vec::new();
    let mut k: usize = 0;
    while k < uavs.len()
        invariant
            k <= uavs@.len(),
            forall|k: int| 0 <= k < uavs@.len() ==> ((#[trigger] uavs@[k]).1.rg_ref.handle.id as int) < registry.resources@.len(),
            r@ == resolved_uavs(*registry, uavs@).subrange(0, k as int),
        decreases uavs@.len() - k,
    {
        let view: GpuUav = registry.get(uavs[k].1.rg_ref.internal_clone());
        r.push((uavs[k].0.clone(), view.0));
        k = k + 1;
        assert(r@ =~= resolved_uavs(*registry, uavs@).subrange(0, k as int));
    }
    assert(resolved_uavs(*registry, uavs@).subrange(0, uavs@.len() as int) =~= resolved_uavs(*registry, uavs@));
    r
}

impl ComputePipeline {
    /// The views to bind for a dispatch of this pipeline: each named read
    /// goes to the slot of the first reflected read binding of that name,
    /// each named write likewise among the write bindings, in order, so a
    /// later name bound to the same slot wins. There are as many slots of
    /// each kind as names given; every name must be a reflected binding
    /// within that range.
    pub fn named_views(
        &self,
        registry: &ResourceRegistry,
        srvs: &Vec<(String, RgSrv)>,
        uavs: &Vec<(String, RgUav)>,
    ) -> (r: RenderShaderViewsDesc)
        requires
            forall|k: int|
                0 <= k < srvs@.len() ==> named_below(self.srvs@, (#[trigger] srvs@[k]).0@, srvs@.len() as int)
                    && (srvs@[k].1.rg_ref.handle.id as int) < registry.resources@.len(),
            forall|k: int|
                0 <= k < uavs@.len() ==> named_below(self.uavs@, (#[trigger] uavs@[k]).0@, uavs@.len() as int)
                    && (uavs@[k].1.rg_ref.handle.id as int) < registry.resources@.len(),
        ensures
            r.shader_resource_views@ == bind_all(
                Seq::new(srvs@.len(), |i: int| None),
                self.srvs@,
                name_views(resolved_srvs(*registry, srvs@)),
            ),
            r.unordered_access_views@ == bind_all(
                Seq::new(uavs@.len(), |i: int| None),
                self.uavs@,
                name_views(resolved_uavs(*registry, uavs@)),
            ),
    {
        let srv_binds = resolve_srvs(registry, srvs);
        assert forall|k: int| 0 <= k < srv_binds@.len() implies named_below(self.srvs@, (#[trigger] srv_binds@[k]).0@, srv_binds@.len() as int) by {
            assert(srv_binds@[k].0 == srvs@[k].0);
        }
        let uav_binds = resolve_uavs(registry, uavs);
        assert forall|k: int| 0 <= k < uav_binds@.len() implies named_below(self.uavs@, (#[trigger] uav_binds@[k]).0@, uav_binds@.len() as int) by {
            assert(uav_binds@[k].0 == uavs@[k].0);
        }
        RenderShaderViewsDesc {
            shader_resource_views: bind_views(&self.srvs, &srv_binds),
            unordered_access_views: bind_views(&self.uavs, &uav_binds),
        }
    }
}

} // verus!
