use rg::handles::{RenderResourceHandle, RenderResourceType};
use rg::render_loop::{FrameOutcome, OwnedRenderResourceHandle, PendingRelease, RenderLoop};
use rg::tracking::TrackedResourceHandles;

fn h(kind: RenderResourceType, index: u32) -> RenderResourceHandle {
    RenderResourceHandle { kind, index }
}

fn allocation(transient: Vec<RenderResourceHandle>) -> TrackedResourceHandles {
    TrackedResourceHandles { transient, persistent: Vec::new() }
}

#[test]
fn frames_retire_two_frames_later() {
    let err = h(RenderResourceType::Texture, 99);
    let mut lp = RenderLoop::new(err);
    assert!(lp.render_frame_begin().is_none());
    let t1 = h(RenderResourceType::Texture, 1);
    let f1 = h(RenderResourceType::Fence, 2);
    let _ = lp.render_frame_end::<String>(allocation(vec![t1]), vec![], f1, Ok(t1));
    assert!(lp.render_frame_begin().is_none());
    let t2 = h(RenderResourceType::Texture, 3);
    let f2 = h(RenderResourceType::Fence, 4);
    let _ = lp.render_frame_end::<String>(allocation(vec![t2]), vec![], f2, Ok(t2));
    let retired = lp.render_frame_begin().expect("first frame retires on the third");
    assert_eq!(retired.resources_used_fence, Some(f1));
    assert_eq!(retired.destroy_now(), vec![t1]);
}

#[test]
fn failed_frame_presents_error_texture() {
    let err = h(RenderResourceType::Texture, 99);
    let mut lp = RenderLoop::new(err);
    let _ = lp.render_frame_begin();
    let pending = vec![h(RenderResourceType::Buffer, 7)];
    let out = lp.render_frame_end(
        allocation(vec![h(RenderResourceType::Texture, 1)]),
        pending,
        h(RenderResourceType::Fence, 2),
        Err("broken".to_string()),
    );
    match out {
        FrameOutcome::Failed(t, e) => {
            assert_eq!(t, err);
            assert_eq!(e, "broken");
        }
        FrameOutcome::Presented(_) => panic!("broken frame presented"),
    }
    let ok = lp.render_frame_begin();
    assert!(ok.is_none());
    let out = lp.render_frame_end::<String>(allocation(vec![]), vec![], h(RenderResourceType::Fence, 3), Ok(h(RenderResourceType::Texture, 5)));
    assert!(matches!(out, FrameOutcome::Presented(t) if t == h(RenderResourceType::Texture, 5)));
}

#[test]
fn shutdown_destroys_queued_and_persistent() {
    let mut lp = RenderLoop::new(h(RenderResourceType::Texture, 0));
    let _ = lp.render_frame_begin();
    let allocated = TrackedResourceHandles {
        transient: vec![h(RenderResourceType::Texture, 1)],
        persistent: vec![h(RenderResourceType::ComputePipelineState, 2)],
    };
    let _ = lp.render_frame_end::<String>(
        allocated,
        vec![h(RenderResourceType::Buffer, 3)],
        h(RenderResourceType::Fence, 4),
        Ok(h(RenderResourceType::Texture, 1)),
    );
    let all = lp.destroy_resources();
    assert_eq!(
        all,
        vec![
            h(RenderResourceType::Texture, 1),
            h(RenderResourceType::Buffer, 3),
            h(RenderResourceType::ComputePipelineState, 2)
        ]
    );
    assert!(lp.retired_frames.is_empty());
}

#[test]
fn released_handles_wait_for_next_frame() {
    let mut pending = PendingRelease::new();
    let owned = OwnedRenderResourceHandle::new(h(RenderResourceType::Buffer, 8));
    assert_eq!(owned.handle(), h(RenderResourceType::Buffer, 8));
    owned.release_into(&mut pending);
    pending.release(h(RenderResourceType::Texture, 9));
    assert_eq!(pending.take(), vec![h(RenderResourceType::Buffer, 8), h(RenderResourceType::Texture, 9)]);
    assert!(pending.take().is_empty());
}

#[test]
fn aborted_frame_keeps_queue_depth() {
    let mut lp = RenderLoop::new(h(RenderResourceType::Texture, 0));
    let _ = lp.render_frame_begin();
    lp.render_frame_abort();
    assert!(!lp.in_frame);
    assert_eq!(lp.retired_frames.len(), 2);
    assert!(lp.render_frame_begin().is_none());
    assert!(lp.in_frame);
}
