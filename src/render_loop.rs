use crate::handles::RenderResourceHandle;
use crate::tracking::TrackedResourceHandles;
use std::collections::VecDeque;
use vstd::prelude::*;

verus! {

/// How many frames may be in flight at once.
pub const FRAME_QUEUE_DEPTH: usize = 2;

/// What one frame allocated for itself, and the fence that signals when the
/// GPU is done with it.
pub struct FrameResources {
    pub handles: Vec<RenderResourceHandle>,
    pub resources_used_fence: Option<RenderResourceHandle>,
}

impl FrameResources {
    /// The handles to destroy once the frame's fence has signaled.
    pub fn destroy_now(self) -> (r: Vec<RenderResourceHandle>)
        ensures
            r@ == self.handles@,
    {
        self.handles
    }
}

/// Handles whose owners let go of them, waiting to be destroyed with the
/// next frame's resources.
pub struct PendingRelease {
    pub handles: Vec<RenderResourceHandle>,
}

impl PendingRelease {
    pub fn new() -> (r: Self)
        ensures
            r.handles@.len() == 0,
    {
        PendingRelease { handles: Vec::new() }
    }

    /// Queues `h` for destruction.
    pub fn release(&mut self, h: RenderResourceHandle)
        ensures
            final(self).handles@ == old(self).handles@.push(h),
    {
        self.handles.push(h);
    }

    /// Hands out everything queued so far and starts over empty.
    pub fn take(&mut self) -> (r: Vec<RenderResourceHandle>)
        ensures
            r@ == old(self).handles@,
            final(self).handles@.len() == 0,
    {
        let mut out: Vec<RenderResourceHandle> = Vec::new();
        std::mem::swap(&mut out, &mut self.handles);
        out
    }
}

/// A handle that must be destroyed once its owner is done with it.
pub struct OwnedRenderResourceHandle(pub RenderResourceHandle);

impl OwnedRenderResourceHandle {
    pub fn new(h: RenderResourceHandle) -> (r: Self)
        ensures
            r.0 == h,
    {
        OwnedRenderResourceHandle(h)
    }

    pub fn handle(&self) -> (r: RenderResourceHandle)
        ensures
            r == self.0,
    {
        self.0
    }

    /// Gives the handle up: it is destroyed with the next frame's resources.
    pub fn release_into(self, pending: &mut PendingRelease)
        ensures
            final(pending).handles@ == old(pending).handles@.push(self.0),
    {
        pending.release(self.0);
    }
}

/// What to present at the end of a frame: the graph's output, or the error
/// texture if the graph failed.
pub enum FrameOutcome<E> {
    Presented(RenderResourceHandle),
    Failed(RenderResourceHandle, E),
}

/// The decisions of the frame loop: which earlier frame to retire before a
/// new one starts, what the new frame keeps for later retirement, and what
/// it presents. The caller waits on fences, destroys, submits and presents.
pub struct RenderLoop {
    pub retired_frames: VecDeque<Option<FrameResources>>,
    pub persistent_resources: Vec<RenderResourceHandle>,
    pub error_output_texture: RenderResourceHandle,
    pub in_frame: bool,
}

impl RenderLoop {
    /// Between frames the queue holds one slot per frame in flight; during
    /// a frame, one fewer.
    pub open spec fn wf(&self) -> bool {
        self.retired_frames@.len() + (if self.in_frame {
            1int
        } else {
            0int
        }) == FRAME_QUEUE_DEPTH
    }

    pub open spec fn slots(&self) -> Seq<Option<FrameResources>> {
        self.retired_frames@
    }

    pub fn new(error_output_texture: RenderResourceHandle) -> (r: Self)
        ensures
            r.wf(),
            !r.in_frame,
            r.slots() == seq![None::<FrameResources>, None::<FrameResources>],
            r.persistent_resources@.len() == 0,
            r.error_output_texture == error_output_texture,
    {
        let mut retired_frames: VecDeque<Option<FrameResources>> = VecDeque::new();
        retired_frames.push_back(None);
        retired_frames.push_back(None);
        let r = RenderLoop {
            retired_frames,
            persistent_resources: Vec::new(),
            error_output_texture,
            in_frame: false,
        };
        assert(r.slots() =~= seq![None::<FrameResources>, None::<FrameResources>]);
        r
    }

    /// `new` is `old` after a frame began and handed out `r` to retire.
    pub open spec fn began(old: Self, new: Self, r: Option<FrameResources>) -> bool {
        &&& new.wf()
        &&& new.in_frame
        &&& r == old.slots()[0]
        &&& new.slots() == old.slots().drop_first()
        &&& new.persistent_resources == old.persistent_resources
        &&& new.error_output_texture == old.error_output_texture
    }

    /// `new` is `old` after a frame finished and queued `frame`.
    pub open spec fn finished(old: Self, new: Self, frame: FrameResources) -> bool {
        &&& new.wf()
        &&& !new.in_frame
        &&& new.slots() == old.slots().push(Some(frame))
        &&& new.error_output_texture == old.error_output_texture
    }

    /// Starts a frame: takes the oldest slot off the queue. If it holds a
    /// frame, the caller waits on that frame's fence and destroys its
    /// resources before it allocates anything for the new frame.
    pub fn render_frame_begin(&mut self) -> (r: Option<FrameResources>)
        requires
            old(self).wf(),
            !old(self).in_frame,
        ensures
            Self::began(*old(self), *final(self), r),
    {
        let r = self.retired_frames.pop_front();
        self.in_frame = true;
        match r {
            Some(slot) => slot,
            None => None,
        }
    }

    /// Ends a frame: what the frame allocated as transient, together with
    /// the handles released since the last frame, waits in the queue behind
    /// `fence`; persistent handles are kept until shutdown. The graph's
    /// output is presented, or the error texture if it failed.
    pub fn render_frame_end<E>(
        &mut self,
        allocated: TrackedResourceHandles,
        pending_release: Vec<RenderResourceHandle>,
        fence: RenderResourceHandle,
        output: Result<RenderResourceHandle, E>,
    ) -> (r: FrameOutcome<E>)
        requires
            old(self).wf(),
            old(self).in_frame,
        ensures
            Self::finished(
                *old(self),
                *final(self),
                FrameResources {
                    handles: final(self).slots().last()->Some_0.handles,
                    resources_used_fence: Some(fence),
                },
            ),
            final(self).slots().last()->Some_0.handles@ == allocated.transient@ + pending_release@,
            final(self).persistent_resources@ == old(self).persistent_resources@
                + allocated.persistent@,
            match output {
                Ok(t) => r == FrameOutcome::<E>::Presented(t),
                Err(e) => r == FrameOutcome::<E>::Failed(old(self).error_output_texture, e),
            },
    {
        let TrackedResourceHandles { transient, persistent } = allocated;
        let mut handles = transient;
        let mut pending = pending_release;
        handles.append(&mut pending);
        let mut persistent = persistent;
        self.persistent_resources.append(&mut persistent);
        self.retired_frames.push_back(
            Some(FrameResources { handles, resources_used_fence: Some(fence) }),
        );
        self.in_frame = false;
        match output {
            Ok(t) => FrameOutcome::Presented(t),
            Err(e) => FrameOutcome::Failed(self.error_output_texture, e),
        }
    }

    /// Gives up a frame that failed before it could be ended: its slot in
    /// the queue stays empty, so the queue keeps its depth.
    pub fn render_frame_abort(&mut self)
        requires
            old(self).wf(),
            old(self).in_frame,
        ensures
            final(self).wf(),
            !final(self).in_frame,
            final(self).slots() == old(self).slots().push(None),
            final(self).persistent_resources == old(self).persistent_resources,
            final(self).error_output_texture == old(self).error_output_texture,
    {
        self.retired_frames.push_back(None);
        self.in_frame = false;
    }

    /// At shutdown, once the device is idle: every queued frame's handles,
    /// then every persistent handle, all to destroy.
    pub fn destroy_resources(&mut self) -> (r: Vec<RenderResourceHandle>)
        requires
            old(self).wf(),
            !old(self).in_frame,
        ensures
            r@ == Self::queued_handles(old(self).slots()) + old(self).persistent_resources@,
            final(self).retired_frames@.len() == 0,
            final(self).persistent_resources@.len() == 0,
    {
        let ghost slots = self.slots();
        let mut out: Vec<RenderResourceHandle> = Vec::new();
        while self.retired_frames.len() > 0
            invariant
                slots == old(self).slots(),
                self.persistent_resources == old(self).persistent_resources,
                self.retired_frames@ == slots.subrange(slots.len() - self.retired_frames@.len(), slots.len() as int),
                self.retired_frames@.len() <= slots.len(),
                out@ == Self::queued_handles(slots.subrange(0, slots.len() - self.retired_frames@.len())),
            decreases self.retired_frames@.len(),
        {
            let ghost done = slots.len() - self.retired_frames@.len();
            let slot = self.retired_frames.pop_front();
            proof {
                assert(slots.subrange(0, done + 1).drop_last() =~= slots.subrange(0, done));
                assert(self.retired_frames@ =~= slots.subrange(done + 1, slots.len() as int));
            }
            match slot {
                Some(Some(frame)) => {
                    let mut hs = frame.destroy_now();
                    out.append(&mut hs);
                },
                _ => {},
            }
        }
        assert(slots.subrange(0, slots.len() as int) =~= slots);
        let mut persistent: Vec<RenderResourceHandle> = Vec::new();
        std::mem::swap(&mut persistent, &mut self.persistent_resources);
        out.append(&mut persistent);
        out
    }

    /// The handles of the queued frames, oldest first.
    pub open spec fn queued_handles(slots: Seq<Option<FrameResources>>) -> Seq<RenderResourceHandle>
        decreases slots.len(),
    {
        if slots.len() == 0 {
            seq![]
        } else {
            Self::queued_handles(slots.drop_last()) + match slots.last() {
                Some(f) => f.handles@,
                None => seq![],
            }
        }
    }
}

} // verus!
