use crate::resource::{GpuSrv, GpuUav, GraphRawResourceHandle, Handle, Ref, TextureDesc};
use std::marker::PhantomData;
use vstd::prelude::*;

verus! {

/// Description of a logical resource, by kind.
#[derive(Clone, Copy, Debug, PartialEq, Eq, Structural)]
pub enum GraphResourceDesc {
    Texture(TextureDesc),
}

impl GraphResourceDesc {
    pub open spec fn texture_desc(self) -> TextureDesc {
        match self {
            GraphResourceDesc::Texture(d) => d,
        }
    }
}

/// A logical resource as the graph records it: what it is and which pass
/// created it.
#[derive(Clone, Copy, Debug)]
pub struct GraphResourceCreateInfo {
    pub desc: GraphResourceDesc,
    pub create_pass_idx: usize,
}

/// One pass: the resources it reads, writes and creates, and the callback
/// that records its commands. `F` is the callback's type.
pub struct RecordedPass<F> {
    pub read: Vec<GraphRawResourceHandle>,
    pub write: Vec<GraphRawResourceHandle>,
    pub create: Vec<GraphRawResourceHandle>,
    pub render_fn: Option<F>,
}

/// Whether some handle in `s` names the logical resource `id`.
pub open spec fn holds_id(s: Seq<GraphRawResourceHandle>, id: u32) -> bool {
    exists|i: int| 0 <= i < s.len() && s[i].id == id
}

/// Every handle in `s` names a resource of `resources` created no later than
/// pass `p`.
pub open spec fn accesses_valid(
    s: Seq<GraphRawResourceHandle>,
    resources: Seq<GraphResourceCreateInfo>,
    p: int,
) -> bool {
    forall|i: int|
        0 <= i < s.len() ==> {
            &&& (s[i].id as int) < resources.len()
            &&& resources[s[i].id as int].create_pass_idx <= p
        }
}

impl<F> RecordedPass<F> {
    pub open spec fn reads(&self, id: u32) -> bool {
        holds_id(self.read@, id)
    }

    pub open spec fn writes(&self, id: u32) -> bool {
        holds_id(self.write@, id)
    }

    /// The pass reads or writes the resource.
    pub open spec fn touches(&self, id: u32) -> bool {
        self.reads(id) || self.writes(id)
    }

    pub open spec fn valid_at(&self, resources: Seq<GraphResourceCreateInfo>, p: int) -> bool {
        &&& accesses_valid(self.read@, resources, p)
        &&& accesses_valid(self.write@, resources, p)
    }

    fn empty() -> (r: Self)
        ensures
            r.read@.len() == 0,
            r.write@.len() == 0,
            r.create@.len() == 0,
            r.render_fn.is_none(),
    {
        RecordedPass { read: Vec::new(), write: Vec::new(), create: Vec::new(), render_fn: None }
    }
}

/// The handles that the passes of `passes` created, pass by pass, in order.
pub open spec fn created_handles<F>(passes: Seq<RecordedPass<F>>) -> Seq<GraphRawResourceHandle>
    decreases passes.len(),
{
    if passes.len() == 0 {
        seq![]
    } else {
        created_handles(passes.drop_last()) + passes.last().create@
    }
}

/// The handles `0..n`, each at version 0.
pub open spec fn dense_handles(n: nat) -> Seq<GraphRawResourceHandle> {
    Seq::new(n, |i: int| GraphRawResourceHandle { id: i as u32, version: 0 })
}

/// A frame's passes in recording order, and its logical resources in
/// creation order.
pub struct RenderGraph<F> {
    pub passes: Vec<RecordedPass<F>>,
    pub resources: Vec<GraphResourceCreateInfo>,
}

impl<F> RenderGraph<F> {
    /// Every resource was created by a recorded pass, ids are handed out
    /// densely in creation order, and each pass only touches resources that
    /// exist by then.
    pub open spec fn wf(&self) -> bool {
        &&& self.resources@.len() <= u32::MAX
        &&& forall|r: int|
            0 <= r < self.resources@.len() ==> self.resources@[r].create_pass_idx
                < self.passes@.len()
        &&& forall|p: int|
            0 <= p < self.passes@.len() ==> self.passes@[p].valid_at(self.resources@, p)
        &&& created_handles(self.passes@) == dense_handles(self.resources@.len())
    }

    /// Every pass has its render callback.
    pub open spec fn complete(&self) -> bool {
        forall|p: int| 0 <= p < self.passes@.len() ==> self.passes@[p].render_fn.is_some()
    }

    pub fn new() -> (r: Self)
        ensures
            r.wf(),
            r.complete(),
            r.passes@.len() == 0,
            r.resources@.len() == 0,
    {
        let r = RenderGraph { passes: Vec::new(), resources: Vec::new() };
        assert(created_handles(r.passes@) =~= dense_handles(0));
        r
    }

    /// Opens the next pass. The graph is handed back, with the pass appended,
    /// by the builder's `render`.
    pub fn add_pass(self) -> (b: PassBuilder<F>)
        requires
            self.wf(),
        ensures
            b.wf(),
            b.rg == self,
            b.pass_idx == self.passes@.len(),
            b.pass.read@.len() == 0,
            b.pass.write@.len() == 0,
            b.pass.create@.len() == 0,
            b.pass.render_fn.is_none(),
    {
        let pass_idx = self.passes.len();
        let b = PassBuilder { rg: self, pass_idx, pass: RecordedPass::empty() };
        assert(b.pass.create@ =~= seq![]);
        assert(created_handles(b.rg.passes@) + b.pass.create@ =~= created_handles(b.rg.passes@));
        b
    }

    /// Appends a finished pass.
    pub(crate) fn record_pass(&mut self, pass: RecordedPass<F>)
        ensures
            final(self).passes@ == old(self).passes@.push(pass),
            final(self).resources@ == old(self).resources@,
    {
        self.passes.push(pass);
    }

    /// Registers a logical resource; its id is the number of resources before
    /// it.
    pub(crate) fn create_raw_resource(&mut self, info: GraphResourceCreateInfo) -> (r:
        GraphRawResourceHandle)
        requires
            old(self).resources@.len() < u32::MAX,
        ensures
            r.id == old(self).resources@.len(),
            r.version == 0,
            final(self).resources@ == old(self).resources@.push(info),
            final(self).passes@ == old(self).passes@,
    {
        let res = GraphRawResourceHandle { id: self.resources.len() as u32, version: 0 };
        self.resources.push(info);
        res
    }
}

/// Records one pass. It owns the graph until `render` appends the pass and
/// hands the graph back, so a pass becomes visible exactly once.
pub struct PassBuilder<F> {
    pub rg: RenderGraph<F>,
    pub pass_idx: usize,
    pub pass: RecordedPass<F>,
}

/// The pass builder under the name the render graph's callers know it by.
pub type RenderGraphContext<F> = PassBuilder<F>;

impl<F> PassBuilder<F> {
    pub open spec fn wf(&self) -> bool {
        &&& self.rg.resources@.len() <= u32::MAX
        &&& self.pass_idx == self.rg.passes@.len()
        &&& forall|r: int|
            0 <= r < self.rg.resources@.len() ==> self.rg.resources@[r].create_pass_idx
                <= self.pass_idx
        &&& forall|p: int|
            0 <= p < self.rg.passes@.len() ==> self.rg.passes@[p].valid_at(self.rg.resources@, p)
        &&& self.pass.valid_at(self.rg.resources@, self.pass_idx as int)
        &&& created_handles(self.rg.passes@) + self.pass.create@ == dense_handles(
            self.rg.resources@.len(),
        )
    }

    /// A handle that this pass may still write: it names an existing
    /// resource that the pass has neither read nor written.
    pub open spec fn can_write(&self, h: GraphRawResourceHandle) -> bool {
        &&& (h.id as int) < self.rg.resources@.len()
        &&& !self.pass.writes(h.id)
        &&& !self.pass.reads(h.id)
    }

    /// A handle that this pass may still read: it names an existing resource
    /// that the pass has not written.
    pub open spec fn can_read(&self, h: GraphRawResourceHandle) -> bool {
        &&& (h.id as int) < self.rg.resources@.len()
        &&& !self.pass.writes(h.id)
    }

    /// Registers a new texture created by this pass, and grants this pass
    /// write access to it.
    pub fn create(&mut self, desc: &TextureDesc) -> (r: (Handle, Ref<GpuUav>))
        requires
            old(self).wf(),
            old(self).rg.resources@.len() < u32::MAX,
        ensures
            final(self).wf(),
            r.0.raw == (GraphRawResourceHandle { id: old(self).rg.resources@.len() as u32, version: 0 }),
            r.0.desc == *desc,
            r.1.handle == r.0.raw,
            r.1.desc == *desc,
            final(self).rg.resources@ == old(self).rg.resources@.push(
                GraphResourceCreateInfo {
                    desc: GraphResourceDesc::Texture(*desc),
                    create_pass_idx: old(self).pass_idx,
                },
            ),
            final(self).rg.passes@ == old(self).rg.passes@,
            final(self).pass_idx == old(self).pass_idx,
            final(self).pass.create@ == old(self).pass.create@.push(r.0.raw),
            final(self).pass.write@ == old(self).pass.write@.push(r.0.raw),
            final(self).pass.read@ == old(self).pass.read@,
            final(self).pass.render_fn == old(self).pass.render_fn,
    {
        let ghost old_res = self.rg.resources@;
        let raw = self.rg.create_raw_resource(
            GraphResourceCreateInfo {
                desc: GraphResourceDesc::Texture(*desc),
                create_pass_idx: self.pass_idx,
            },
        );
        self.pass.create.push(raw);
        self.pass.write.push(raw);
        let handle = Handle { raw, desc: *desc };
        let reference = Ref { handle: raw, desc: *desc, marker: PhantomData };
        proof {
            let n = old_res.len();
            assert(dense_handles(n + 1) =~= dense_handles(n).push(raw));
            assert(created_handles(self.rg.passes@) + self.pass.create@ =~= (created_handles(
                self.rg.passes@,
            ) + old(self).pass.create@).push(raw));
            assert forall|p: int| 0 <= p < self.rg.passes@.len() implies self.rg.passes@[p].valid_at(
                self.rg.resources@,
                p,
            ) by {
                assert(old(self).rg.passes@[p].valid_at(old_res, p));
            }
            assert(accesses_valid(old(self).pass.write@, old_res, self.pass_idx as int));
        }
        (handle, reference)
    }

    /// Records a write of `handle` by this pass. The handle moves on to its
    /// next version, and the reference names that version.
    pub fn write(&mut self, handle: &mut Handle) -> (r: Ref<GpuUav>)
        requires
            old(self).wf(),
            old(self).can_write(old(handle).raw),
            old(handle).raw.version < u32::MAX,
        ensures
            final(self).wf(),
            final(handle).raw == old(handle).raw.spec_next_version(),
            final(handle).desc == old(handle).desc,
            r.handle == final(handle).raw,
            r.desc == old(handle).desc,
            final(self).rg == old(self).rg,
            final(self).pass_idx == old(self).pass_idx,
            final(self).pass.write@ == old(self).pass.write@.push(final(handle).raw),
            final(self).pass.read@ == old(self).pass.read@,
            final(self).pass.create@ == old(self).pass.create@,
            final(self).pass.render_fn == old(self).pass.render_fn,
    {
        let next = handle.raw.next_version();
        handle.raw = next;
        self.pass.write.push(next);
        proof {
            assert(self.rg.resources@[next.id as int].create_pass_idx <= self.pass_idx);
        }
        Ref { handle: next, desc: handle.desc, marker: PhantomData }
    }

    /// Records a read of `handle` by this pass. Reads keep the version.
    pub fn read(&mut self, handle: &Handle) -> (r: Ref<GpuSrv>)
        requires
            old(self).wf(),
            old(self).can_read(handle.raw),
        ensures
            final(self).wf(),
            r.handle == handle.raw,
            r.desc == handle.desc,
            final(self).rg == old(self).rg,
            final(self).pass_idx == old(self).pass_idx,
            final(self).pass.read@ == old(self).pass.read@.push(handle.raw),
            final(self).pass.write@ == old(self).pass.write@,
            final(self).pass.create@ == old(self).pass.create@,
            final(self).pass.render_fn == old(self).pass.render_fn,
    {
        self.pass.read.push(handle.raw);
        proof {
            assert(self.rg.resources@[handle.raw.id as int].create_pass_idx <= self.pass_idx);
        }
        Ref { handle: handle.raw, desc: handle.desc, marker: PhantomData }
    }

    /// Attaches the callback that records this pass's commands, closes the
    /// pass and appends it to the graph, which is handed back.
    pub fn render(self, render: F) -> (rg: RenderGraph<F>)
        requires
            self.wf(),
        ensures
            rg.wf(),
            rg.resources@ == self.rg.resources@,
            rg.passes@.len() == self.rg.passes@.len() + 1,
            rg.passes@.drop_last() == self.rg.passes@,
            rg.passes@.last().read@ == self.pass.read@,
            rg.passes@.last().write@ == self.pass.write@,
            rg.passes@.last().create@ == self.pass.create@,
            rg.passes@.last().render_fn == Some(render),
            self.rg.complete() ==> rg.complete(),
    {
        let PassBuilder { rg, pass_idx, pass } = self;
        let mut rg = rg;
        let mut pass = pass;
        pass.render_fn = Some(render);
        let ghost old_passes = rg.passes@;
        rg.record_pass(pass);
        proof {
            assert(rg.passes@.drop_last() =~= old_passes);
            assert forall|p: int| 0 <= p < rg.passes@.len() implies rg.passes@[p].valid_at(
                rg.resources@,
                p,
            ) by {
                if p < old_passes.len() {
                    assert(old_passes[p].valid_at(rg.resources@, p));
                }
            }
        }
        rg
    }
}

} // verus!
