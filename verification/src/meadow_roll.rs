//! Rolling the meadow's chunk grid as the camera moves: which live chunks stay,
//! which go, and which of the wanted ones get baked this frame.
//!
//! The sets themselves (which cells a ring wants, which it keeps with slack)
//! come from distances to the camera; what this module owns is the decision
//! that follows from them, so that a chunk is never drawn twice and a chunk
//! that only changed tier comes back the same frame it left.

use vstd::prelude::*;

use crate::ring_records::ChunkCell;

verus! {

/// Which chunk of which ring, and which internal buffer tier of that ring.
#[derive(Clone, Copy, PartialEq, Eq, Hash, Debug, Structural)]
pub struct ChunkKey {
    pub ring: usize,
    pub tier: usize,
    pub cell: ChunkCell,
}

/// Rings of the meadow, nearest first.
pub const GRASS_RING_COUNT: usize = 3;

/// Buffer tiers of the nearest ring; every other ring has one.
pub const RING0_TIERS: usize = 6;

/// New chunks baked per frame while rolling.
pub const CHUNKS_BAKED_PER_FRAME: usize = 1;

/// An empty grid is filled whole in one frame rather than grown in over
/// several.
pub const FILL_IN_ONE_FRAME: bool = true;

/// How many buffer tiers a ring has.
pub open spec fn spec_tier_count(ring: usize) -> usize {
    if ring == 0 {
        RING0_TIERS
    } else {
        1
    }
}

/// How many buffer tiers a ring has. Only the nearest ring is split, the one
/// where a single stride per chunk was measured to waste most of what it sends.
pub fn tier_count(ring: usize) -> (tiers: usize)
    ensures
        tiers == spec_tier_count(ring),
{
    if ring == 0 {
        RING0_TIERS
    } else {
        1
    }
}

/// Whether this run plants a ring: all of them, or only the one isolated for
/// measurement.
pub fn planted_ring(only_ring: Option<usize>, ring: usize) -> (planted: bool)
    ensures
        planted == match only_ring {
            Some(only) => only == ring,
            None => true,
        },
{
    match only_ring {
        Some(only) => only == ring,
        None => true,
    }
}

/// What one roll of the grid does.
#[derive(Debug)]
pub struct RollPlan {
    /// Live chunks that stay, in their live order.
    pub kept: Vec<ChunkKey>,
    /// Live chunks to despawn and release, in their live order.
    pub dropped: Vec<ChunkKey>,
    /// Wanted chunks to bake this frame, reassignments first.
    pub missing: Vec<ChunkKey>,
}

/// The wanted chunk is a nearest-ring cell that was dropped this very roll,
/// only because it changed tier: the same ground moving to another buffer.
pub open spec fn is_reassignment(key: ChunkKey, dropped: Seq<ChunkKey>) -> bool {
    key.ring == 0 && exists|i: int|
        0 <= i < dropped.len() && dropped[i].ring == 0 && dropped[i].cell == key.cell
}

/// How many genuinely new chunks may be baked: all of them when the grid is
/// being filled rather than rolled.
pub open spec fn roll_budget(kept_count: nat) -> nat {
    if FILL_IN_ONE_FRAME && kept_count == 0 {
        usize::MAX as nat
    } else {
        CHUNKS_BAKED_PER_FRAME as nat
    }
}

/// The live chunks that the keep set holds.
pub open spec fn spec_kept(live: Seq<ChunkKey>, keep: Seq<ChunkKey>) -> Seq<ChunkKey> {
    live.filter(|k: ChunkKey| keep.contains(k))
}

/// The live chunks that the keep set no longer holds.
pub open spec fn spec_dropped(live: Seq<ChunkKey>, keep: Seq<ChunkKey>) -> Seq<ChunkKey> {
    live.filter(|k: ChunkKey| !keep.contains(k))
}

/// The wanted chunks that are not live after the drop.
pub open spec fn spec_new(live: Seq<ChunkKey>, wanted: Seq<ChunkKey>, keep: Seq<ChunkKey>) -> Seq<
    ChunkKey,
> {
    wanted.filter(|k: ChunkKey| !spec_kept(live, keep).contains(k))
}

/// The chunks baked this frame: every reassignment, then as many genuinely new
/// chunks as the budget allows, each group in wanted order.
pub open spec fn spec_missing(live: Seq<ChunkKey>, wanted: Seq<ChunkKey>, keep: Seq<ChunkKey>) -> Seq<
    ChunkKey,
> {
    let dropped = spec_dropped(live, keep);
    let fresh = spec_new(live, wanted, keep);
    let returning = fresh.filter(|k: ChunkKey| is_reassignment(k, dropped));
    let genuinely_new = fresh.filter(|k: ChunkKey| !is_reassignment(k, dropped));
    let budget = roll_budget(spec_kept(live, keep).len());
    returning + if genuinely_new.len() <= budget {
        genuinely_new
    } else {
        genuinely_new.take(budget as int)
    }
}

/// Whether `keys` holds `key`.
pub fn holds_key(keys: &Vec<ChunkKey>, key: ChunkKey) -> (found: bool)
    ensures
        found == keys@.contains(key),
{
    let mut i: usize = 0;
    while i < keys.len()
        invariant
            i <= keys.len(),
            forall|j: int| 0 <= j < i ==> keys@[j] != key,
        decreases keys.len() - i,
    {
        if keys[i] == key {
            return true;
        }
        i = i + 1;
    }
    false
}

/// Whether some dropped chunk of the nearest ring sits on `cell`.
fn dropped_near_cell(dropped: &Vec<ChunkKey>, cell: ChunkCell) -> (found: bool)
    ensures
        found == exists|i: int|
            0 <= i < dropped.len() && dropped@[i].ring == 0 && dropped@[i].cell == cell,
{
    let mut i: usize = 0;
    while i < dropped.len()
        invariant
            i <= dropped.len(),
            forall|j: int| 0 <= j < i ==> !(dropped@[j].ring == 0 && dropped@[j].cell == cell),
        decreases dropped.len() - i,
    {
        if dropped[i].ring == 0 && dropped[i].cell == cell {
            return true;
        }
        i = i + 1;
    }
    false
}

/// Decide one roll of the grid from the chunks alive now, the chunks the rings
/// want (created without slack) and the chunks they keep (kept with slack, so
/// that a chunk on a boundary is not re-baked every other frame).
pub fn plan_roll(live: &Vec<ChunkKey>, wanted: &Vec<ChunkKey>, keep: &Vec<ChunkKey>) -> (plan:
    RollPlan)
    ensures
        plan.kept@ == spec_kept(live@, keep@),
        plan.dropped@ == spec_dropped(live@, keep@),
        plan.missing@ == spec_missing(live@, wanted@, keep@),
{
    let ghost keep_pred = |k: ChunkKey| keep@.contains(k);
    let ghost drop_pred = |k: ChunkKey| !keep@.contains(k);
    let mut kept: Vec<ChunkKey> = Vec::new();
    let mut dropped: Vec<ChunkKey> = Vec::new();
    let mut i: usize = 0;
    while i < live.len()
        invariant
            i <= live.len(),
            keep_pred == (|k: ChunkKey| keep@.contains(k)),
            drop_pred == (|k: ChunkKey| !keep@.contains(k)),
            kept@ == live@.take(i as int).filter(keep_pred),
            dropped@ == live@.take(i as int).filter(drop_pred),
        decreases live.len() - i,
    {
        proof {
            reveal(Seq::filter);
        }
        assert(live@.take(i + 1).drop_last() =~= live@.take(i as int));
        let key = live[i];
        assert(live@.take(i + 1).last() == key);
        if holds_key(keep, key) {
            kept.push(key);
        } else {
            dropped.push(key);
        }
        i = i + 1;
    }
    assert(live@.take(live.len() as int) =~= live@);
    let ghost fresh_pred = |k: ChunkKey| !kept@.contains(k);
    let ghost back_pred = |k: ChunkKey| is_reassignment(k, dropped@);
    let ghost new_pred = |k: ChunkKey| !is_reassignment(k, dropped@);
    let ghost fresh = wanted@.filter(fresh_pred);
    let budget: usize = if FILL_IN_ONE_FRAME && kept.len() == 0 {
        usize::MAX
    } else {
        CHUNKS_BAKED_PER_FRAME
    };
    let mut returning: Vec<ChunkKey> = Vec::new();
    let mut genuinely_new: Vec<ChunkKey> = Vec::new();
    let mut w: usize = 0;
    while w < wanted.len()
        invariant
            w <= wanted.len(),
            fresh_pred == (|k: ChunkKey| !kept@.contains(k)),
            back_pred == (|k: ChunkKey| is_reassignment(k, dropped@)),
            new_pred == (|k: ChunkKey| !is_reassignment(k, dropped@)),
            returning@ == wanted@.take(w as int).filter(fresh_pred).filter(back_pred),
            genuinely_new@ == wanted@.take(w as int).filter(fresh_pred).filter(new_pred),
        decreases wanted.len() - w,
    {
        proof {
            reveal(Seq::filter);
        }
        let ghost before = wanted@.take(w as int);
        assert(wanted@.take(w + 1).drop_last() =~= before);
        let key = wanted[w];
        assert(wanted@.take(w + 1).last() == key);
        if !holds_key(&kept, key) {
            assert(wanted@.take(w + 1).filter(fresh_pred) == before.filter(fresh_pred).push(key));
            assert(before.filter(fresh_pred).push(key).drop_last() =~= before.filter(fresh_pred));
            if key.ring == 0 && dropped_near_cell(&dropped, key.cell) {
                returning.push(key);
            } else {
                genuinely_new.push(key);
            }
        }
        w = w + 1;
    }
    assert(wanted@.take(wanted.len() as int) =~= wanted@);
    let mut missing: Vec<ChunkKey> = returning;
    let mut n: usize = 0;
    while n < genuinely_new.len() && n < budget
        invariant
            n <= genuinely_new.len(),
            n <= budget,
            missing@ == wanted@.filter(fresh_pred).filter(back_pred) + genuinely_new@.take(
                n as int,
            ),
        decreases genuinely_new.len() - n,
    {
        assert(genuinely_new@.take(n + 1) =~= genuinely_new@.take(n as int).push(
            genuinely_new@[n as int],
        ));
        missing.push(genuinely_new[n]);
        n = n + 1;
    }
    proof {
        if genuinely_new@.len() <= budget {
            assert(genuinely_new@.take(n as int) =~= genuinely_new@);
        }
        assert(kept@.len() == spec_kept(live@, keep@).len());
    }
    RollPlan { kept, dropped, missing }
}

/// An element of a prefix is an element of the whole.
proof fn lemma_take_contains(s: Seq<ChunkKey>, n: int, key: ChunkKey)
    requires
        0 <= n <= s.len(),
        s.take(n).contains(key),
    ensures
        s.contains(key),
{
    let i = choose|i: int| 0 <= i < s.take(n).len() && s.take(n)[i] == key;
    assert(s[i] == key);
}

/// An element of a filtered sequence is an element of the unfiltered one that meets
/// the predicate.
proof fn lemma_filtered(s: Seq<ChunkKey>, pred: spec_fn(ChunkKey) -> bool, key: ChunkKey)
    requires
        s.filter(pred).contains(key),
    ensures
        s.contains(key),
        pred(key),
{
    broadcast use vstd::seq_lib::group_filter_ensures;

    s.lemma_filter_contains_rev(pred, key);
    let i = choose|i: int| 0 <= i < s.filter(pred).len() && s.filter(pred)[i] == key;
    assert(pred(s.filter(pred)[i]));
}

/// An element of the unfiltered sequence that meets the predicate survives the filter.
proof fn lemma_kept_by_filter(s: Seq<ChunkKey>, pred: spec_fn(ChunkKey) -> bool, key: ChunkKey)
    requires
        s.contains(key),
        pred(key),
    ensures
        s.filter(pred).contains(key),
{
    broadcast use vstd::seq_lib::group_filter_ensures;

    let i = choose|i: int| 0 <= i < s.len() && s[i] == key;
    s.lemma_filter_contains(pred, i);
}

/// A roll never draws a chunk twice: what it bakes is wanted and is not among
/// the chunks that stay, and what stays was live and is still kept.
pub proof fn a_roll_never_draws_a_chunk_twice(
    live: Seq<ChunkKey>,
    wanted: Seq<ChunkKey>,
    keep: Seq<ChunkKey>,
    key: ChunkKey,
)
    ensures
        spec_missing(live, wanted, keep).contains(key) ==> wanted.contains(key) && !spec_kept(
            live,
            keep,
        ).contains(key),
        spec_kept(live, keep).contains(key) ==> live.contains(key) && keep.contains(key),
{
    let dropped = spec_dropped(live, keep);
    let fresh_pred = |k: ChunkKey| !spec_kept(live, keep).contains(k);
    let fresh = spec_new(live, wanted, keep);
    let back_pred = |k: ChunkKey| is_reassignment(k, dropped);
    let new_pred = |k: ChunkKey| !is_reassignment(k, dropped);
    let returning = fresh.filter(back_pred);
    let genuinely_new = fresh.filter(new_pred);
    let budget = roll_budget(spec_kept(live, keep).len());
    let tail = if genuinely_new.len() <= budget {
        genuinely_new
    } else {
        genuinely_new.take(budget as int)
    };
    if spec_missing(live, wanted, keep).contains(key) {
        let i = choose|i: int|
            0 <= i < spec_missing(live, wanted, keep).len() && spec_missing(live, wanted, keep)[i]
                == key;
        if i < returning.len() {
            assert(returning[i] == key);
            lemma_filtered(fresh, back_pred, key);
        } else {
            assert(tail[i - returning.len()] == key);
            if genuinely_new.len() > budget {
                lemma_take_contains(genuinely_new, budget as int, key);
            }
            lemma_filtered(fresh, new_pred, key);
        }
        lemma_filtered(wanted, fresh_pred, key);
    }
    if spec_kept(live, keep).contains(key) {
        lemma_filtered(live, |k: ChunkKey| keep.contains(k), key);
    }
}

/// The drop splits the live chunks: each one either stays, when the keep set
/// holds it, or is dropped, when it does not.
pub proof fn the_drop_splits_the_live_chunks(live: Seq<ChunkKey>, keep: Seq<ChunkKey>, key: ChunkKey)
    requires
        live.contains(key),
    ensures
        spec_kept(live, keep).contains(key) <==> keep.contains(key),
        spec_dropped(live, keep).contains(key) <==> !keep.contains(key),
{
    let keep_pred = |k: ChunkKey| keep.contains(k);
    let drop_pred = |k: ChunkKey| !keep.contains(k);
    if keep.contains(key) {
        lemma_kept_by_filter(live, keep_pred, key);
        if spec_dropped(live, keep).contains(key) {
            lemma_filtered(live, drop_pred, key);
        }
    } else {
        lemma_kept_by_filter(live, drop_pred, key);
        if spec_kept(live, keep).contains(key) {
            lemma_filtered(live, keep_pred, key);
        }
    }
}

/// A nearest-ring chunk that left only to change tier comes back the same
/// frame, whatever the budget: the player sees it as the same ground.
pub proof fn a_reassigned_chunk_returns_the_same_frame(
    live: Seq<ChunkKey>,
    wanted: Seq<ChunkKey>,
    keep: Seq<ChunkKey>,
    key: ChunkKey,
)
    requires
        wanted.contains(key),
        !spec_kept(live, keep).contains(key),
        is_reassignment(key, spec_dropped(live, keep)),
    ensures
        spec_missing(live, wanted, keep).contains(key),
{
    let dropped = spec_dropped(live, keep);
    let fresh_pred = |k: ChunkKey| !spec_kept(live, keep).contains(k);
    let fresh = spec_new(live, wanted, keep);
    let back_pred = |k: ChunkKey| is_reassignment(k, dropped);
    lemma_kept_by_filter(wanted, fresh_pred, key);
    lemma_kept_by_filter(fresh, back_pred, key);
    let returning = fresh.filter(back_pred);
    let i = choose|i: int| 0 <= i < returning.len() && returning[i] == key;
    assert(spec_missing(live, wanted, keep)[i] == key);
}

/// An empty grid is filled, not rolled: with nothing kept, every wanted chunk
/// is baked in the same frame.
pub proof fn an_empty_grid_is_filled_in_one_frame(
    live: Seq<ChunkKey>,
    wanted: Seq<ChunkKey>,
    keep: Seq<ChunkKey>,
    key: ChunkKey,
)
    requires
        spec_kept(live, keep).len() == 0,
        wanted.len() <= usize::MAX,
        wanted.contains(key),
    ensures
        spec_missing(live, wanted, keep).contains(key),
{
    broadcast use vstd::seq_lib::group_filter_ensures;

    let dropped = spec_dropped(live, keep);
    let fresh_pred = |k: ChunkKey| !spec_kept(live, keep).contains(k);
    let fresh = spec_new(live, wanted, keep);
    let back_pred = |k: ChunkKey| is_reassignment(k, dropped);
    let new_pred = |k: ChunkKey| !is_reassignment(k, dropped);
    assert(!spec_kept(live, keep).contains(key));
    lemma_kept_by_filter(wanted, fresh_pred, key);
    if is_reassignment(key, dropped) {
        a_reassigned_chunk_returns_the_same_frame(live, wanted, keep, key);
    } else {
        lemma_kept_by_filter(fresh, new_pred, key);
        let returning = fresh.filter(back_pred);
        let genuinely_new = fresh.filter(new_pred);
        assert(genuinely_new.len() <= fresh.len() <= wanted.len());
        let i = choose|i: int| 0 <= i < genuinely_new.len() && genuinely_new[i] == key;
        assert(spec_missing(live, wanted, keep)[returning.len() + i] == key);
    }
}

/// While rolling, at most the per-frame budget of genuinely new chunks is
/// baked on top of the reassignments.
pub proof fn rolling_bakes_at_most_the_budget(
    live: Seq<ChunkKey>,
    wanted: Seq<ChunkKey>,
    keep: Seq<ChunkKey>,
)
    requires
        spec_kept(live, keep).len() > 0,
    ensures
        spec_missing(live, wanted, keep).len() <= spec_new(live, wanted, keep).filter(
            |k: ChunkKey| is_reassignment(k, spec_dropped(live, keep)),
        ).len() + CHUNKS_BAKED_PER_FRAME,
{
}

/// The grid after a roll, when every wanted chunk is also kept (the keep set is
/// the wanted set widened by slack): every chunk alive afterwards is kept; a
/// live chunk the keep set holds stays and is not baked again; a live chunk it
/// no longer holds is dropped and gone; and a grid with nothing kept ends the
/// frame with every wanted chunk.
pub proof fn the_grid_after_a_roll(
    live: Seq<ChunkKey>,
    wanted: Seq<ChunkKey>,
    keep: Seq<ChunkKey>,
    key: ChunkKey,
)
    requires
        forall|k: ChunkKey| wanted.contains(k) ==> keep.contains(k),
        wanted.len() <= usize::MAX,
    ensures
        (spec_kept(live, keep) + spec_missing(live, wanted, keep)).contains(key) ==> keep.contains(
            key,
        ),
        live.contains(key) && keep.contains(key) ==> spec_kept(live, keep).contains(key)
            && !spec_missing(live, wanted, keep).contains(key),
        live.contains(key) && !keep.contains(key) ==> spec_dropped(live, keep).contains(key)
            && !(spec_kept(live, keep) + spec_missing(live, wanted, keep)).contains(key),
        spec_kept(live, keep).len() == 0 && wanted.contains(key) ==> (spec_kept(live, keep)
            + spec_missing(live, wanted, keep)).contains(key),
{
    let kept = spec_kept(live, keep);
    let missing = spec_missing(live, wanted, keep);
    let after = kept + missing;
    a_roll_never_draws_a_chunk_twice(live, wanted, keep, key);
    if after.contains(key) {
        let i = choose|i: int| 0 <= i < after.len() && after[i] == key;
        if i < kept.len() {
            assert(kept[i] == key);
        } else {
            assert(missing[i - kept.len()] == key);
        }
    }
    if live.contains(key) {
        the_drop_splits_the_live_chunks(live, keep, key);
    }
    if kept.len() == 0 && wanted.contains(key) {
        an_empty_grid_is_filled_in_one_frame(live, wanted, keep, key);
        let i = choose|i: int| 0 <= i < missing.len() && missing[i] == key;
        assert(after[kept.len() + i] == key);
    }
}

} // verus!
