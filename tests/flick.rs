use rustnithm::flick::{
    process_flick_sampling, update_touch_down, update_touch_move, update_touch_up, FlickDetector,
    SlotOwner, DRAIN_PER_TICK, FLICK_THRESHOLD, POINTER_SLOTS, TOTAL_ANIM_FRAMES, Y_SCALE,
};

fn slot_of(det: &FlickDetector, pid: i32) -> usize {
    det.pools.iter().position(|p| p.owner == SlotOwner::Pointer(pid)).expect("pointer is tracked")
}

#[test]
fn new_detector_is_empty() {
    let det = FlickDetector::new();
    assert_eq!(det.pools.len(), POINTER_SLOTS);
    assert_eq!(det.live_y.len(), POINTER_SLOTS);
    assert!(det.pools.iter().all(|p| p.owner == SlotOwner::Free && p.active_step == 0));
}

#[test]
fn touch_down_claims_first_free_slot() {
    let mut det = FlickDetector::new();
    update_touch_down(&mut det, 3, 500);
    assert_eq!(det.pools[0].owner, SlotOwner::Pointer(3));
    assert_eq!(det.pools[0].last_y, 500);
    assert_eq!(det.pools[0].water_level, 0);
    // the live positions are written by touch-move alone
    assert_eq!(det.live_y[3], 0);
    update_touch_down(&mut det, 7, 10);
    assert_eq!(det.pools[1].owner, SlotOwner::Pointer(7));
}

#[test]
fn touch_down_twice_leaves_pool_unchanged() {
    let mut det = FlickDetector::new();
    update_touch_down(&mut det, 2, 100);
    let pools = det.pools.clone();
    let live = det.live_y.clone();
    update_touch_down(&mut det, 2, 9999);
    assert_eq!(det.pools, pools);
    assert_eq!(det.live_y, live);
}

#[test]
fn touch_down_with_full_pool_is_ignored() {
    let mut det = FlickDetector::new();
    for pid in 0..10 {
        update_touch_down(&mut det, pid, 0);
    }
    // lift pointer 0 during an animation: its slot stays taken
    update_touch_move(&mut det, 0, 70 * Y_SCALE);
    process_flick_sampling(&mut det, false);
    update_touch_up(&mut det, 0);
    assert_eq!(det.pools[0].owner, SlotOwner::PendingRelease);
    let pools = det.pools.clone();
    update_touch_down(&mut det, 0, 5);
    assert_eq!(det.pools, pools);
}

#[test]
fn touch_move_only_updates_live_position() {
    let mut det = FlickDetector::new();
    update_touch_down(&mut det, 1, 0);
    let pools = det.pools.clone();
    update_touch_move(&mut det, 1, 1234);
    assert_eq!(det.live_y[1], 1234);
    assert_eq!(det.pools, pools);
    update_touch_move(&mut det, 4, 99);
    assert_eq!(det.live_y[4], 0);
}

#[test]
fn touch_up_without_animation_frees_slot() {
    let mut det = FlickDetector::new();
    update_touch_down(&mut det, 5, 0);
    update_touch_move(&mut det, 5, 1000);
    process_flick_sampling(&mut det, false);
    assert_eq!(det.pools[0].water_level, 1000 - DRAIN_PER_TICK);
    update_touch_up(&mut det, 5);
    assert_eq!(det.pools[0].owner, SlotOwner::Free);
    assert_eq!(det.pools[0].water_level, 0);
}

#[test]
fn water_level_decays_without_movement() {
    let mut det = FlickDetector::new();
    update_touch_down(&mut det, 0, 0);
    update_touch_move(&mut det, 0, 500);
    process_flick_sampling(&mut det, false);
    assert_eq!(det.pools[0].water_level, 500 - 192);
    process_flick_sampling(&mut det, false);
    assert_eq!(det.pools[0].water_level, 500 - 2 * 192);
    process_flick_sampling(&mut det, false);
    assert_eq!(det.pools[0].water_level, 0);
    process_flick_sampling(&mut det, false);
    assert_eq!(det.pools[0].water_level, 0);
}

#[test]
fn negative_water_level_decays_toward_zero() {
    let mut det = FlickDetector::new();
    update_touch_down(&mut det, 0, 0);
    update_touch_move(&mut det, 0, -300);
    process_flick_sampling(&mut det, false);
    assert_eq!(det.pools[0].water_level, -300 + 192);
    process_flick_sampling(&mut det, false);
    assert_eq!(det.pools[0].water_level, 0);
}

#[test]
fn upward_flick_animates_for_full_duration() {
    let mut det = FlickDetector::new();
    update_touch_down(&mut det, 4, 0);
    let slot = slot_of(&det, 4);
    // short of the threshold once drained
    update_touch_move(&mut det, 4, (FLICK_THRESHOLD + DRAIN_PER_TICK - 1) as i32);
    process_flick_sampling(&mut det, false);
    assert_eq!(det.pools[slot].active_step, 0);
    assert_eq!(det.pools[slot].water_level, FLICK_THRESHOLD - 1);
    // a step that outweighs one tick of drain crosses it
    update_touch_move(&mut det, 4, (FLICK_THRESHOLD + 2 * DRAIN_PER_TICK) as i32);
    process_flick_sampling(&mut det, false);
    assert_eq!(det.pools[slot].active_step, TOTAL_ANIM_FRAMES);
    assert!(det.pools[slot].is_up);
    assert_eq!(det.pools[slot].water_level, 0);
    // keep pushing upward: the animation counts down, no new flick starts
    let mut starts = 1;
    for tick in 1..=TOTAL_ANIM_FRAMES {
        update_touch_move(&mut det, 4, (FLICK_THRESHOLD * 2) as i32 + tick as i32 * 1000);
        let before = det.pools[slot].active_step;
        process_flick_sampling(&mut det, false);
        if det.pools[slot].active_step > before {
            starts += 1;
        }
        assert_eq!(det.pools[slot].active_step, TOTAL_ANIM_FRAMES - tick);
    }
    assert_eq!(starts, 1);
    assert_eq!(det.pools[slot].owner, SlotOwner::Pointer(4));
}

#[test]
fn downward_flick_sets_direction() {
    let mut det = FlickDetector::new();
    update_touch_down(&mut det, 0, 0);
    update_touch_move(&mut det, 0, -61 * Y_SCALE);
    process_flick_sampling(&mut det, false);
    assert_eq!(det.pools[0].active_step, TOTAL_ANIM_FRAMES);
    assert!(!det.pools[0].is_up);
}

#[test]
fn pending_release_frees_when_animation_ends() {
    let mut det = FlickDetector::new();
    update_touch_down(&mut det, 6, 0);
    update_touch_move(&mut det, 6, 61 * Y_SCALE);
    process_flick_sampling(&mut det, false);
    update_touch_up(&mut det, 6);
    assert_eq!(det.pools[0].owner, SlotOwner::PendingRelease);
    // the id can be claimed again meanwhile, in another slot
    update_touch_down(&mut det, 6, 0);
    assert_eq!(det.pools[1].owner, SlotOwner::Pointer(6));
    for _ in 0..TOTAL_ANIM_FRAMES - 1 {
        process_flick_sampling(&mut det, false);
    }
    assert_eq!(det.pools[0].owner, SlotOwner::PendingRelease);
    assert_eq!(det.pools[0].active_step, 1);
    process_flick_sampling(&mut det, false);
    assert_eq!(det.pools[0].owner, SlotOwner::Free);
    assert_eq!(det.pools[0].active_step, 0);
}

#[test]
fn status_byte_follows_animation_stages() {
    let mut det = FlickDetector::new();
    assert_eq!(process_flick_sampling(&mut det, false), 0);
    assert_eq!(process_flick_sampling(&mut det, true), 0x21);
    update_touch_down(&mut det, 0, 0);
    update_touch_down(&mut det, 1, 0);
    update_touch_move(&mut det, 0, 61 * Y_SCALE);
    update_touch_move(&mut det, 1, -61 * Y_SCALE);
    // the pass that starts the flicks reports the slots as they were
    assert_eq!(process_flick_sampling(&mut det, false), 0);
    // first stage: up sets 0x02, down sets 0x10
    assert_eq!(process_flick_sampling(&mut det, false), 0x12);
    for _ in 0..623 {
        process_flick_sampling(&mut det, false);
    }
    assert_eq!(det.pools[0].active_step, 626);
    assert_eq!(process_flick_sampling(&mut det, true), 0x21 | 0x12);
    // second stage: up sets 0x04, down sets 0x08
    assert_eq!(process_flick_sampling(&mut det, false), 0x0C);
}
