use crabcrust::Animation;
use crabcrust::BrailleGrid;
use crabcrust::FrameBasedAnimation;

#[test]
fn test_frame_based_animation() {
    let mut anim = FrameBasedAnimation::new(false);

    // Add a simple frame
    anim.add_frame(vec![0xFF; 10 * 10], 10, 10, 100);

    assert_eq!(anim.frame_count(), 1);
    assert_eq!(anim.current_frame(), 0);

    // Update should advance after duration
    let result = anim.update(150);
    assert!(!result); // Should finish (non-looping, 1 frame)
}

#[test]
fn test_looping_animation() {
    let mut anim = FrameBasedAnimation::new(true);

    anim.add_frame(vec![0xFF; 10 * 10], 10, 10, 100);
    anim.add_frame(vec![0x00; 10 * 10], 10, 10, 100);

    // Advance through frames
    anim.update(150);
    assert_eq!(anim.current_frame(), 1);

    // Should loop back to frame 0
    anim.update(150);
    assert_eq!(anim.current_frame(), 0);
}

#[test]
fn test_update_within_frame_keeps_running() {
    let mut anim = FrameBasedAnimation::new(false);
    anim.add_frame(vec![0x01; 4], 2, 2, 100);
    anim.add_frame(vec![0x02; 4], 2, 2, 100);
    assert!(anim.update(50));
    assert_eq!(anim.current_frame(), 0);
    assert!(anim.update(60));
    assert_eq!(anim.current_frame(), 1);
}

#[test]
fn test_empty_animation_never_runs() {
    let mut anim = FrameBasedAnimation::new(true);
    assert!(!anim.update(16));
    assert_eq!(anim.frame_count(), 0);
}

#[test]
fn test_duration_sums_frames() {
    let mut anim = FrameBasedAnimation::new(false);
    anim.add_frame(vec![0u8; 1], 1, 1, 100);
    anim.add_frame(vec![0u8; 1], 1, 1, 150);
    assert_eq!(anim.duration_ms(), Some(250));

    let mut looping = FrameBasedAnimation::new(true);
    looping.add_frame(vec![0u8; 1], 1, 1, 100);
    assert_eq!(looping.duration_ms(), None);
}

#[test]
fn test_render_draws_current_frame() {
    let mut anim = FrameBasedAnimation::new(false);
    // One cell with every dot set.
    anim.add_frame(vec![0xFF], 1, 1, 100);
    let mut grid = BrailleGrid::new(2, 2);
    anim.render(&mut grid);
    assert_eq!(grid.get_char(0, 0) as u32, 0x28FF);
    assert!(grid.is_empty(1, 0));
    assert!(grid.is_empty(0, 1));
}
