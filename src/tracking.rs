use crate::handles::{RenderResourceHandle, RenderResourceHandleAllocator, RenderResourceType};
use vstd::prelude::*;

verus! {

/// The handles a tracking allocator handed out, by lifetime class.
pub struct TrackedResourceHandles {
    pub transient: Vec<RenderResourceHandle>,
    pub persistent: Vec<RenderResourceHandle>,
}

/// Hands out physical handles and remembers each one, so that a frame can
/// destroy its transient resources and keep its persistent ones.
pub struct TrackingResourceHandleAllocator {
    pub handles: RenderResourceHandleAllocator,
    pub allocated: TrackedResourceHandles,
}

impl TrackingResourceHandleAllocator {
    pub fn new(handles: RenderResourceHandleAllocator) -> (r: Self)
        ensures
            r.handles == handles,
            r.allocated.transient@.len() == 0,
            r.allocated.persistent@.len() == 0,
    {
        TrackingResourceHandleAllocator {
            handles,
            allocated: TrackedResourceHandles { transient: Vec::new(), persistent: Vec::new() },
        }
    }

    /// The next slot number to be handed out.
    pub open spec fn next_index(&self) -> nat {
        self.handles.next_index as nat
    }

    /// Whether `n` more handles can be handed out.
    pub open spec fn has_room(&self, n: nat) -> bool {
        self.next_index() + n <= u32::MAX
    }

    /// Gives up the allocator and what it handed out.
    pub fn into_allocated_resources(self) -> (r: (RenderResourceHandleAllocator, TrackedResourceHandles))
        ensures
            r.0 == self.handles,
            r.1.transient@ == self.allocated.transient@,
            r.1.persistent@ == self.allocated.persistent@,
    {
        (self.handles, self.allocated)
    }

    /// A handle for a resource that lives for one frame.
    pub fn allocate_transient(&mut self, kind: RenderResourceType) -> (r: RenderResourceHandle)
        requires
            old(self).has_room(1),
        ensures
            r == (RenderResourceHandle { kind, index: old(self).handles.next_index }),
            final(self).next_index() == old(self).next_index() + 1,
            final(self).allocated.transient@ == old(self).allocated.transient@.push(r),
            final(self).allocated.persistent@ == old(self).allocated.persistent@,
    {
        let handle = self.handles.allocate(kind);
        self.allocated.transient.push(handle);
        handle
    }

    /// A handle for a resource that outlives the frame.
    pub fn allocate_persistent(&mut self, kind: RenderResourceType) -> (r: RenderResourceHandle)
        requires
            old(self).has_room(1),
        ensures
            r == (RenderResourceHandle { kind, index: old(self).handles.next_index }),
            final(self).next_index() == old(self).next_index() + 1,
            final(self).allocated.persistent@ == old(self).allocated.persistent@.push(r),
            final(self).allocated.transient@ == old(self).allocated.transient@,
    {
        let handle = self.handles.allocate(kind);
        self.allocated.persistent.push(handle);
        handle
    }
}

} // verus!
