use bof::meadow_roll::{
    plan_roll, planted_ring, tier_count, ChunkKey, CHUNKS_BAKED_PER_FRAME, RING0_TIERS,
};
use bof::ring_records::ChunkCell;

fn key(ring: usize, tier: usize, x: i32, z: i32) -> ChunkKey {
    ChunkKey { ring, tier, cell: ChunkCell { x, z } }
}

#[test]
fn only_the_nearest_ring_is_split_into_tiers() {
    assert_eq!(tier_count(0), RING0_TIERS);
    assert_eq!(tier_count(1), 1);
    assert_eq!(tier_count(2), 1);
}

#[test]
fn an_isolated_ring_is_the_only_one_planted() {
    assert!(planted_ring(None, 2));
    assert!(planted_ring(Some(1), 1));
    assert!(!planted_ring(Some(1), 0));
}

#[test]
fn an_empty_grid_is_baked_whole_in_one_frame() {
    let wanted = vec![key(0, 0, 0, 0), key(0, 1, 1, 0), key(1, 0, 2, 2)];
    let plan = plan_roll(&Vec::new(), &wanted, &wanted);
    assert!(plan.kept.is_empty());
    assert!(plan.dropped.is_empty());
    assert_eq!(plan.missing, wanted);
}

#[test]
fn rolling_bakes_one_new_chunk_per_frame_and_drops_what_left() {
    let live = vec![key(1, 0, 0, 0), key(1, 0, 5, 5)];
    let keep = vec![key(1, 0, 0, 0)];
    let wanted = vec![key(1, 0, 0, 0), key(1, 0, 1, 0), key(1, 0, 2, 0)];
    let plan = plan_roll(&live, &wanted, &keep);
    assert_eq!(plan.kept, vec![key(1, 0, 0, 0)]);
    assert_eq!(plan.dropped, vec![key(1, 0, 5, 5)]);
    assert_eq!(plan.missing.len(), CHUNKS_BAKED_PER_FRAME);
    assert_eq!(plan.missing, vec![key(1, 0, 1, 0)]);
}

#[test]
fn a_chunk_that_changed_tier_comes_back_the_same_frame() {
    let live = vec![key(0, 0, 0, 0), key(0, 2, 3, 3), key(0, 1, 4, 4)];
    // Cell (3, 3) moved from tier 2 to tier 3: its old key is not kept.
    let keep = vec![key(0, 0, 0, 0), key(0, 1, 4, 4)];
    let wanted = vec![key(0, 1, 7, 7), key(0, 1, 8, 8), key(0, 3, 3, 3)];
    let plan = plan_roll(&live, &wanted, &keep);
    assert_eq!(plan.dropped, vec![key(0, 2, 3, 3)]);
    assert_eq!(plan.missing, vec![key(0, 3, 3, 3), key(0, 1, 7, 7)]);
}

#[test]
fn a_far_ring_cell_leaving_is_not_a_reassignment() {
    let live = vec![key(0, 0, 0, 0), key(1, 0, 3, 3)];
    let keep = vec![key(0, 0, 0, 0)];
    let wanted = vec![key(1, 0, 9, 9), key(0, 1, 3, 3)];
    let plan = plan_roll(&live, &wanted, &keep);
    // The dropped chunk is of ring 1, so the ring-0 cell (3, 3) waits its turn.
    assert_eq!(plan.missing, vec![key(1, 0, 9, 9)]);
}
