use crate::handles::{RenderResourceHandle, RenderResourceHandleAllocator, RenderResourceType};
use vstd::prelude::*;

verus! {

/// Size in bytes of one chunk of constant data.
pub const CHUNK_SIZE: usize = 65536;

/// Alignment in bytes of every allocation within a chunk.
pub const ALIGNMENT: usize = 256;

/// `n` rounded up to a multiple of `ALIGNMENT`.
pub open spec fn align_up(n: nat) -> nat {
    ((n + 255) / 256 * 256) as nat
}

/// The GPU buffer behind a chunk: its handle is allocated up front, the
/// buffer itself is only created on the first commit.
#[derive(Clone, Copy, Debug, PartialEq, Eq, Structural)]
pub enum ChunkBuffer {
    Unbacked(RenderResourceHandle),
    Backed(RenderResourceHandle),
}

impl ChunkBuffer {
    pub open spec fn spec_handle(self) -> RenderResourceHandle {
        match self {
            ChunkBuffer::Unbacked(h) => h,
            ChunkBuffer::Backed(h) => h,
        }
    }

    pub fn handle(&self) -> (r: RenderResourceHandle)
        ensures
            r == self.spec_handle(),
    {
        match self {
            ChunkBuffer::Unbacked(h) => *h,
            ChunkBuffer::Backed(h) => *h,
        }
    }
}

/// CPU-side bytes of one chunk, its buffer, and how far it is filled.
pub struct Chunk {
    pub data: Vec<u8>,
    pub buffer: ChunkBuffer,
    pub write_head: u32,
}

impl Chunk {
    pub open spec fn wf(&self) -> bool {
        &&& self.data@.len() == CHUNK_SIZE
        &&& self.write_head <= CHUNK_SIZE
        &&& self.write_head % 256 == 0
    }

    pub open spec fn spec_free_space(&self) -> int {
        CHUNK_SIZE - self.write_head
    }

    pub fn free_space(&self) -> (r: usize)
        requires
            self.wf(),
        ensures
            r == self.spec_free_space(),
    {
        CHUNK_SIZE - self.write_head as usize
    }
}

/// Where a pushed value landed: a buffer and a byte offset into it.
#[derive(Clone, Copy, Debug, PartialEq, Eq, Structural)]
pub struct DynamicConstantsAllocation {
    pub buffer: RenderResourceHandle,
    pub offset: usize,
}

impl DynamicConstantsAllocation {
    pub fn into_constant_buffer_with_offset(self) -> (r: (RenderResourceHandle, usize))
        ensures
            r == (self.buffer, self.offset),
    {
        (self.buffer, self.offset)
    }
}

/// What the device must do for one chunk at commit: create its buffer if
/// `create`, then upload `data` at offset 0.
pub struct ChunkUpload {
    pub buffer: RenderResourceHandle,
    pub create: bool,
    pub data: Vec<u8>,
}

/// A bump allocator of per-frame constant data over recycled chunks.
pub struct DynamicConstants {
    pub chunks: Vec<Chunk>,
    pub free_chunks: Vec<Chunk>,
}

/// The chunk a committed chunk becomes on the free list.
pub open spec fn retired_chunk(c: Chunk) -> Chunk {
    Chunk { data: c.data, buffer: ChunkBuffer::Backed(c.buffer.spec_handle()), write_head: 0 }
}

/// What a commit hands the device for chunk `c`.
pub open spec fn upload_of(c: Chunk, u: ChunkUpload) -> bool {
    &&& u.buffer == c.buffer.spec_handle()
    &&& u.create == (c.buffer is Unbacked)
    &&& u.data@ == c.data@
}

impl DynamicConstants {
    pub open spec fn wf(&self) -> bool {
        &&& forall|i: int| 0 <= i < self.chunks@.len() ==> (#[trigger] self.chunks@[i]).wf()
        &&& forall|i: int|
            0 <= i < self.free_chunks@.len() ==> {
                &&& (#[trigger] self.free_chunks@[i]).wf()
                &&& self.free_chunks@[i].write_head == 0
                &&& self.free_chunks@[i].buffer is Backed
            }
    }

    /// Whether a push of `size` bytes starts a new chunk.
    pub open spec fn needs_new_chunk(&self, size: nat) -> bool {
        self.chunks@.len() == 0 || self.chunks@.last().spec_free_space() < size
    }

    /// Whether a push of `size` bytes needs a fresh buffer handle.
    pub open spec fn needs_handle(&self, size: nat) -> bool {
        self.needs_new_chunk(size) && self.free_chunks@.len() == 0
    }

    /// `new` is `old` after pushing `bytes`, which landed at `a`;
    /// `base` is the allocator's next slot number before the push.
    pub open spec fn pushed(
        old: Self,
        new: Self,
        bytes: Seq<u8>,
        base: nat,
        a: DynamicConstantsAllocation,
    ) -> bool {
        let c = new.chunks@.last();
        &&& new.wf()
        &&& a.offset % 256 == 0
        &&& a.offset + bytes.len() <= CHUNK_SIZE
        &&& new.chunks@.len() > 0
        &&& a.buffer == c.buffer.spec_handle()
        &&& c.data@.subrange(a.offset as int, a.offset + bytes.len()) == bytes
        &&& c.write_head == a.offset + align_up(bytes.len())
        &&& if old.needs_new_chunk(bytes.len()) {
            &&& a.offset == 0
            &&& new.chunks@.drop_last() == old.chunks@
            &&& if old.free_chunks@.len() > 0 {
                &&& c.buffer == old.free_chunks@.last().buffer
                &&& new.free_chunks@ == old.free_chunks@.drop_last()
            } else {
                &&& c.buffer == ChunkBuffer::Unbacked(
                    RenderResourceHandle { kind: RenderResourceType::Buffer, index: base as u32 },
                )
                &&& new.free_chunks@ == old.free_chunks@
            }
        } else {
            let o = old.chunks@.last();
            &&& a.offset == o.write_head
            &&& new.chunks@.len() == old.chunks@.len()
            &&& new.chunks@.drop_last() == old.chunks@.drop_last()
            &&& c.buffer == o.buffer
            &&& forall|k: int|
                0 <= k < CHUNK_SIZE && !(a.offset <= k < a.offset + bytes.len()) ==> c.data@[k]
                    == o.data@[k]
            &&& new.free_chunks@ == old.free_chunks@
        }
    }

    /// `new` is `old` after a commit that handed the device `uploads`.
    pub open spec fn committed(old: Self, new: Self, uploads: Seq<ChunkUpload>) -> bool {
        &&& new.wf()
        &&& uploads.len() == old.chunks@.len()
        &&& forall|i: int| 0 <= i < uploads.len() ==> upload_of(old.chunks@[i], #[trigger] uploads[i])
        &&& new.chunks@.len() == 0
        &&& new.free_chunks@ == old.free_chunks@ + old.chunks@.map_values(|c: Chunk| retired_chunk(c))
    }

    pub fn new() -> (r: Self)
        ensures
            r.wf(),
            r.chunks@.len() == 0,
            r.free_chunks@.len() == 0,
    {
        DynamicConstants { chunks: Vec::new(), free_chunks: Vec::new() }
    }

    /// Starts a new current chunk, from the free list if it has one.
    fn alloc_chunk(&mut self, handles: &mut RenderResourceHandleAllocator)
        requires
            old(self).wf(),
            old(self).free_chunks@.len() == 0 ==> old(handles).can_allocate(),
        ensures
            final(self).wf(),
            final(self).chunks@.drop_last() == old(self).chunks@,
            final(self).chunks@.len() == old(self).chunks@.len() + 1,
            final(self).chunks@.last().write_head == 0,
            if old(self).free_chunks@.len() > 0 {
                &&& final(self).chunks@.last() == old(self).free_chunks@.last()
                &&& final(self).free_chunks@ == old(self).free_chunks@.drop_last()
                &&& *final(handles) == *old(handles)
            } else {
                &&& final(self).chunks@.last().buffer == ChunkBuffer::Unbacked(
                    RenderResourceHandle {
                        kind: RenderResourceType::Buffer,
                        index: old(handles).next_index,
                    },
                )
                &&& final(self).free_chunks@ == old(self).free_chunks@
                &&& final(handles).next_index == old(handles).next_index + 1
            },
    {
        if self.free_chunks.len() > 0 {
            let chunk = self.free_chunks.pop().unwrap();
            self.chunks.push(chunk);
        } else {
            let buffer = handles.allocate(RenderResourceType::Buffer);
            let mut data: Vec<u8> = Vec::new();
            let mut i: usize = 0;
            while i < CHUNK_SIZE
                invariant
                    i <= CHUNK_SIZE,
                    data@.len() == i,
                decreases CHUNK_SIZE - i,
            {
                data.push(0u8);
                i = i + 1;
            }
            self.chunks.push(Chunk { data, buffer: ChunkBuffer::Unbacked(buffer), write_head: 0 });
        }
        assert(self.chunks@.drop_last() =~= old(self).chunks@);
    }

    /// Copies `bytes` into the current chunk, starting a new chunk first when
    /// the current one has less room than `bytes` needs, and advances the
    /// chunk's cursor by the size rounded up to `ALIGNMENT`.
    pub fn push(&mut self, bytes: &[u8], handles: &mut RenderResourceHandleAllocator) -> (r:
        DynamicConstantsAllocation)
        requires
            old(self).wf(),
            bytes@.len() <= CHUNK_SIZE,
            old(self).needs_handle(bytes@.len()) ==> old(handles).can_allocate(),
        ensures
            Self::pushed(*old(self), *final(self), bytes@, old(handles).next_index as nat, r),
            old(self).needs_handle(bytes@.len()) ==> final(handles).next_index == old(
                handles,
            ).next_index + 1,
            !old(self).needs_handle(bytes@.len()) ==> *final(handles) == *old(handles),
    {
        let t_size = bytes.len();
        let ghost rolled = old(self).needs_new_chunk(t_size as nat);
        if self.chunks.len() == 0 || self.chunks[self.chunks.len() - 1].free_space() < t_size {
            self.alloc_chunk(handles);
        }
        let ghost before = self.chunks@;
        let ghost mid = *self;
        proof {
            if rolled {
                assert(before.last().write_head == 0);
                assert(before.drop_last() == old(self).chunks@);
            } else {
                assert(before == old(self).chunks@);
            }
            assert(before.last().wf());
        }
        let mut chunk = self.chunks.pop().unwrap();
        assert(self.chunks@ == before.drop_last());
        assert(chunk == before.last());
        assert(chunk.wf());
        assert(chunk.write_head + t_size <= CHUNK_SIZE) by {
            if !rolled {
                assert(old(self).chunks@.last().spec_free_space() >= t_size);
            }
        }
        let offset = chunk.write_head as usize;
        let ghost old_data = chunk.data@;
        let mut k: usize = 0;
        while k < t_size
            invariant
                k <= t_size,
                t_size == bytes@.len(),
                offset + t_size <= CHUNK_SIZE,
                old_data.len() == CHUNK_SIZE,
                chunk.buffer == before.last().buffer,
                chunk.data@.len() == CHUNK_SIZE,
                forall|j: int| 0 <= j < k ==> chunk.data@[offset + j] == bytes@[j],
                forall|j: int|
                    0 <= j < CHUNK_SIZE && !(offset <= j < offset + k) ==> chunk.data@[j]
                        == old_data[j],
            decreases t_size - k,
        {
            chunk.data.set(offset + k, bytes[k]);
            k = k + 1;
        }
        assert(chunk.data@.subrange(offset as int, offset + t_size) =~= bytes@);
        let allocation = DynamicConstantsAllocation { buffer: chunk.buffer.handle(), offset };
        let t_size_aligned = (t_size + ALIGNMENT - 1) / ALIGNMENT * ALIGNMENT;
        assert(t_size_aligned == align_up(t_size as nat));
        assert(offset + t_size_aligned <= CHUNK_SIZE) by {
            assert(offset % 256 == 0);
            assert(offset + t_size <= 65536);
            assert((offset + t_size_aligned) % 256 == 0 && offset + t_size_aligned < offset + t_size + 256) by (nonlinear_arith)
                requires
                    offset % 256 == 0,
                    t_size_aligned == (t_size + 255) / 256 * 256,
            ;
        }
        assert((offset + t_size_aligned) % 256 == 0) by (nonlinear_arith)
            requires
                offset % 256 == 0,
                t_size_aligned == (t_size + 255) / 256 * 256,
        ;
        chunk.write_head = (offset + t_size_aligned) as u32;
        let ghost new_chunk = chunk;
        self.chunks.push(chunk);
        proof {
            assert(self.chunks@.drop_last() =~= before.drop_last());
            assert(self.chunks@.last() == new_chunk);
            assert(new_chunk.wf());
            assert forall|i: int| 0 <= i < self.chunks@.len() implies (#[trigger] self.chunks@[i]).wf() by {
                if i < self.chunks@.len() - 1 {
                    assert(self.chunks@[i] == before[i]);
                    assert(mid.chunks@[i].wf());
                }
            }
            assert(self.free_chunks@ == mid.free_chunks@);
            if !rolled {
                assert(before == old(self).chunks@);
                assert forall|k: int|
                    0 <= k < CHUNK_SIZE && !(offset <= k < offset + t_size) implies new_chunk.data@[k]
                        == old(self).chunks@.last().data@[k] by {
                    assert(new_chunk.data@[k] == old_data[k]);
                }
            }
        }
        allocation
    }

    /// Hands the device every chunk used this frame (to create its buffer if
    /// needed and upload its bytes), rewinds those chunks and moves them to
    /// the free list.
    pub fn commit_and_reset(&mut self) -> (r: Vec<ChunkUpload>)
        requires
            old(self).wf(),
        ensures
            Self::committed(*old(self), *final(self), r@),
    {
        let ghost used = self.chunks@;
        let ghost free = self.free_chunks@;
        let mut uploads: Vec<ChunkUpload> = Vec::new();
        while self.chunks.len() > 0
            invariant
                self.wf(),
                uploads@.len() + self.chunks@.len() == used.len(),
                self.chunks@ == used.subrange(uploads@.len() as int, used.len() as int),
                forall|i: int|
                    0 <= i < uploads@.len() ==> upload_of(used[i], #[trigger] uploads@[i]),
                self.free_chunks@ == free + used.subrange(0, uploads@.len() as int).map_values(
                    |c: Chunk| retired_chunk(c),
                ),
            decreases self.chunks@.len(),
        {
            let ghost k = uploads@.len() as int;
            let chunk = self.chunks.remove(0);
            assert(chunk == used[k]);
            let buffer = chunk.buffer.handle();
            let create = match chunk.buffer {
                ChunkBuffer::Unbacked(_) => true,
                ChunkBuffer::Backed(_) => false,
            };
            let data = copy_bytes(&chunk.data);
            uploads.push(ChunkUpload { buffer, create, data });
            self.free_chunks.push(
                Chunk { data: chunk.data, buffer: ChunkBuffer::Backed(buffer), write_head: 0 },
            );
            proof {
                assert(self.chunks@ =~= used.subrange(uploads@.len() as int, used.len() as int));
                assert(used.subrange(0, k + 1).map_values(|c: Chunk| retired_chunk(c))
                    =~= used.subrange(0, k).map_values(|c: Chunk| retired_chunk(c)).push(
                    retired_chunk(used[k]),
                ));
                assert(self.free_chunks@ =~= free + used.subrange(0, k + 1).map_values(
                    |c: Chunk| retired_chunk(c),
                ));
            }
        }
        assert(used.subrange(0, used.len() as int) =~= used);
        uploads
    }

    /// Empties the free list and returns the buffers to destroy. Every chunk
    /// must have been committed first.
    pub fn destroy(&mut self) -> (r: Vec<RenderResourceHandle>)
        requires
            old(self).wf(),
            old(self).chunks@.len() == 0,
        ensures
            r@ == old(self).free_chunks@.map_values(|c: Chunk| c.buffer.spec_handle()),
            final(self).chunks@.len() == 0,
            final(self).free_chunks@.len() == 0,
    {
        let ghost free = self.free_chunks@;
        let mut buffers: Vec<RenderResourceHandle> = Vec::new();
        let mut i: usize = 0;
        while i < self.free_chunks.len()
            invariant
                self.free_chunks@ == free,
                i <= free.len(),
                buffers@ == free.subrange(0, i as int).map_values(|c: Chunk| c.buffer.spec_handle()),
            decreases free.len() - i,
        {
            let h = self.free_chunks[i].buffer.handle();
            buffers.push(h);
            i = i + 1;
            assert(buffers@ =~= free.subrange(0, i as int).map_values(|c: Chunk| c.buffer.spec_handle()));
        }
        assert(free.subrange(0, free.len() as int) =~= free);
        self.free_chunks = Vec::new();
        buffers
    }
}

/// A copy of `v`.
fn copy_bytes(v: &Vec<u8>) -> (r: Vec<u8>)
    ensures
        r@ == v@,
{
    let mut r: Vec<u8> = Vec::new();
    let mut i: usize = 0;
    while i < v.len()
        invariant
            i <= v@.len(),
            r@ == v@.subrange(0, i as int),
        decreases v@.len() - i,
    {
        r.push(v[i]);
        i = i + 1;
        assert(r@ =~= v@.subrange(0, i as int));
    }
    assert(v@.subrange(0, v@.len() as int) =~= v@);
    r
}

} // verus!
