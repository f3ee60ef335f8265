use rg::dynamic_constants::{DynamicConstants, CHUNK_SIZE};
use rg::handles::{RenderResourceHandle, RenderResourceHandleAllocator, RenderResourceType};

fn buffer(index: u32) -> RenderResourceHandle {
    RenderResourceHandle { kind: RenderResourceType::Buffer, index }
}

#[test]
fn pushes_are_aligned_to_256() {
    let mut dc = DynamicConstants::new();
    let mut handles = RenderResourceHandleAllocator::new();
    let a = dc.push(&[1, 2, 3, 4], &mut handles);
    let b = dc.push(&[7u8; 300], &mut handles);
    let c = dc.push(&[9u8; 16], &mut handles);
    assert_eq!(a.offset, 0);
    assert_eq!(b.offset, 256);
    assert_eq!(c.offset, 768);
    assert_eq!(a.buffer, buffer(0));
    assert_eq!(c.buffer, buffer(0));
    assert_eq!(dc.chunks.len(), 1);
    assert_eq!(dc.chunks[0].write_head, 1024);
    assert_eq!(c.into_constant_buffer_with_offset(), (buffer(0), 768));
}

#[test]
fn committed_bytes_read_back() {
    let mut dc = DynamicConstants::new();
    let mut handles = RenderResourceHandleAllocator::new();
    let a = dc.push(&[10, 20, 30], &mut handles);
    let b = dc.push(&[40, 50], &mut handles);
    let uploads = dc.commit_and_reset();
    assert_eq!(uploads.len(), 1);
    assert_eq!(uploads[0].buffer, a.buffer);
    assert!(uploads[0].create);
    assert_eq!(uploads[0].data.len(), CHUNK_SIZE);
    assert_eq!(&uploads[0].data[a.offset..a.offset + 3], &[10, 20, 30]);
    assert_eq!(&uploads[0].data[b.offset..b.offset + 2], &[40, 50]);
    assert!(dc.chunks.is_empty());
    assert_eq!(dc.free_chunks.len(), 1);
    assert_eq!(dc.free_chunks[0].write_head, 0);
}

#[test]
fn chunk_rolls_over_exactly_when_full() {
    let mut dc = DynamicConstants::new();
    let mut handles = RenderResourceHandleAllocator::new();
    let big = vec![1u8; CHUNK_SIZE - 512];
    let a = dc.push(&big, &mut handles);
    assert_eq!(a.offset, 0);
    let b = dc.push(&[2u8; 512], &mut handles);
    assert_eq!(b.buffer, a.buffer);
    assert_eq!(b.offset, CHUNK_SIZE - 512);
    assert_eq!(dc.chunks[0].write_head as usize, CHUNK_SIZE);
    let c = dc.push(&[3u8; 1], &mut handles);
    assert_eq!(c.offset, 0);
    assert_eq!(c.buffer, buffer(1));
    assert_eq!(dc.chunks.len(), 2);
    let empty = dc.push(&[], &mut handles);
    assert_eq!(empty.offset, 256);
}

#[test]
fn free_chunks_are_reused_and_destroyed() {
    let mut dc = DynamicConstants::new();
    let mut handles = RenderResourceHandleAllocator::new();
    let a = dc.push(&[1], &mut handles);
    let _ = dc.commit_and_reset();
    let b = dc.push(&[2], &mut handles);
    assert_eq!(b.buffer, a.buffer);
    assert_eq!(b.offset, 0);
    assert_eq!(handles.next_index, 1);
    let uploads = dc.commit_and_reset();
    assert!(!uploads[0].create);
    assert_eq!(uploads[0].data[0], 2);
    assert_eq!(dc.destroy(), vec![a.buffer]);
    assert!(dc.free_chunks.is_empty());
}
