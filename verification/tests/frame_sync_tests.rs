use engine::frame_sync::FrameSync;

fn three_frames() -> FrameSync<u32, u64> {
    // image_available 10.., render_finished 20.., fences 30.., acquisition pool 40..
    FrameSync::new(vec![10, 11, 12], vec![20, 21, 22], vec![30, 31, 32], vec![40, 41, 42])
}

#[test]
fn new_starts_at_slot_zero() {
    let fs = three_frames();
    assert_eq!(fs.frame_count(), 3);
    assert_eq!(fs.frame_id(), 0);
    assert_eq!(fs.acquired_image_index(), 0);
    assert_eq!(fs.frame_fence(), 30);
    assert_eq!(fs.acquire_semaphore(), 40);
    assert_eq!(fs.wait_semaphore(), 10);
    assert_eq!(fs.signal_semaphore(), 20);
}

#[test]
fn acquisition_binds_the_handed_semaphore() {
    let mut fs = three_frames();
    let handed = fs.acquire_semaphore();
    fs.acquired(2);
    assert_eq!(fs.acquired_image_index(), 2);
    assert_eq!(fs.wait_semaphore(), handed);
    assert_eq!(fs.signal_semaphore(), 22);
    assert_eq!(fs.image_available(), &[10, 11, 40]);
    assert_eq!(fs.acquire_semaphores(), &[12, 41, 42]);
    assert_eq!(fs.acquire_semaphore(), 41);
    // The fence belongs to the frame slot, which acquisition does not move.
    assert_eq!(fs.frame_fence(), 30);
}

#[test]
fn acquisition_keeps_the_semaphore_pool() {
    let mut fs = three_frames();
    for image in [1u32, 1, 0, 2, 2, 0, 1] {
        fs.acquired(image);
        let mut all: Vec<u32> = fs.image_available().to_vec();
        all.extend_from_slice(fs.acquire_semaphores());
        all.sort();
        assert_eq!(all, vec![10, 11, 12, 40, 41, 42]);
    }
    assert_eq!(fs.render_finished(), &[20, 21, 22]);
    assert_eq!(fs.fences(), &[30, 31, 32]);
}

#[test]
fn acquisition_pool_index_wraps() {
    let mut fs = three_frames();
    fs.acquired(0);
    fs.acquired(0);
    fs.acquired(0);
    assert_eq!(fs.acquire_semaphore(), fs.acquire_semaphores()[0]);
}

#[test]
fn present_cycles_through_frame_slots() {
    let mut fs = three_frames();
    let mut seen = Vec::new();
    for _ in 0..7 {
        seen.push(fs.frame_id());
        fs.advance();
    }
    assert_eq!(seen, vec![0, 1, 2, 0, 1, 2, 0]);
    assert_eq!(fs.frame_id(), 1);
    assert_eq!(fs.frame_fence(), 31);
}

#[test]
fn single_frame_stays_in_slot_zero() {
    let mut fs: FrameSync<u8, u8> = FrameSync::new(vec![1], vec![2], vec![3], vec![4]);
    fs.advance();
    fs.acquired(0);
    assert_eq!(fs.frame_id(), 0);
    assert_eq!(fs.wait_semaphore(), 4);
    assert_eq!(fs.acquire_semaphore(), 1);
}

#[test]
fn no_frames_holds_nothing() {
    let fs: FrameSync<u32, u64> = FrameSync::new(vec![], vec![], vec![], vec![]);
    assert_eq!(fs.frame_count(), 0);
    assert_eq!(fs.frame_id(), 0);
    assert_eq!(fs.acquired_image_index(), 0);
    assert!(fs.fences().is_empty());
    assert!(fs.image_available().is_empty());
}
