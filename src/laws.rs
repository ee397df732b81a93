use crate::allocator::{
    alloc_model, free_model, hidden, lemma_alloc_inv, lemma_free_inv, len_of, refs_of, restored,
    visibility, AllocatorView, HandleView,
};
use crate::block_arena::{no_fit, occupancy};
use crate::content_cache::content_hash_of;
use crate::error::HWSpriteAllocError;
use crate::slot_table::{lemma_ref_count_update, lemma_ref_count_zero, refers, slots_full};
use crate::sprite_size::HWSpriteSize;
use vstd::prelude::*;

verus! {

/// Block `j` lies in the run of blocks that the sprite of `h` uses: from its first block on,
/// as many blocks as its size takes.
pub open spec fn in_run(h: HandleView, j: int) -> bool {
    let start = h.binding.starting_block as int;
    start <= j < start + h.binding.sprite_size.blocks()
}

/// The run of a live sprite lies inside tile memory and is the allocation recorded at its
/// first block: the first block heads it, and the others continue it.
pub proof fn lemma_live_run_resident(v: AllocatorView, h: HandleView)
    requires
        v.inv(),
        v.is_live(h),
    ensures
        h.binding.starting_block + h.binding.sprite_size.blocks() <= v.blocks.len(),
        v.blocks[h.binding.starting_block as int] is Used,
        forall|j: int| #[trigger] in_run(h, j) ==> !(v.blocks[j] is Unused),
{
    let s = h.binding.starting_block as int;
    assert(v.binding_ok(h.oam_slot as int));
    assert(v.head_ok(s));
    assert forall|j: int| #[trigger] in_run(h, j) implies !(v.blocks[j] is Unused) by {
        if j > s {
            assert(v.blocks[j] is Continue);
        }
    }
}

/// Two live sprites whose payloads have different content hashes use disjoint runs of blocks.
pub proof fn lemma_distinct_content_disjoint(v: AllocatorView, h1: HandleView, h2: HandleView)
    requires
        v.inv(),
        v.is_live(h1),
        v.is_live(h2),
        h1.binding.data_hash != h2.binding.data_hash,
    ensures
        forall|j: int| !(#[trigger] in_run(h1, j) && in_run(h2, j)),
{
    let s1 = h1.binding.starting_block as int;
    let s2 = h2.binding.starting_block as int;
    assert(v.binding_ok(h1.oam_slot as int));
    assert(v.binding_ok(h2.oam_slot as int));
    assert(v.head_ok(s1));
    assert(v.head_ok(s2));
    assert(v.cache[h1.binding.data_hash] != v.cache[h2.binding.data_hash]);
    if s1 < s2 && s2 < s1 + len_of(v.blocks[s1]) {
        assert(v.blocks[s2] is Continue);
    }
    if s2 < s1 && s1 < s2 + len_of(v.blocks[s2]) {
        assert(v.blocks[s1] is Continue);
    }
}

/// A successful allocation keeps every live sprite live, and its new sprite's run lies inside
/// tile memory and is disjoint from the run of every live sprite with a different hash.
pub proof fn lemma_alloc_keeps_runs_apart(
    v: AllocatorView,
    payload: Seq<u32>,
    hash: u64,
    size: HWSpriteSize,
    g: HandleView,
)
    requires
        v.inv(),
        alloc_model(v, payload, hash, size) is Ok,
        v.is_live(g),
    ensures
        ({
            let (w, h) = alloc_model(v, payload, hash, size)->Ok_0;
            &&& w.inv()
            &&& w.is_live(h)
            &&& w.is_live(g)
            &&& h.binding.starting_block + h.binding.sprite_size.blocks() <= w.blocks.len()
            &&& g.binding.data_hash != h.binding.data_hash ==> forall|j: int|
                !(#[trigger] in_run(h, j) && in_run(g, j))
        }),
{
    let (w, h) = alloc_model(v, payload, hash, size)->Ok_0;
    lemma_alloc_inv(v, payload, hash, size);
    assert(g.oam_slot != h.oam_slot);
    assert(w.is_live(g));
    lemma_live_run_resident(w, h);
    if g.binding.data_hash != h.binding.data_hash {
        lemma_distinct_content_disjoint(w, h, g);
    }
}

/// Freeing a sprite keeps every other live sprite live, with all blocks of its run still
/// taken; live sprites with different hashes keep disjoint runs.
pub proof fn lemma_free_keeps_others(v: AllocatorView, h: HandleView, g: HandleView)
    requires
        v.inv(),
        v.is_live(h),
        v.is_live(g),
        g != h,
    ensures
        ({
            let w = free_model(v, h);
            &&& w.inv()
            &&& w.is_live(g)
            &&& forall|j: int| #[trigger] in_run(g, j) ==> occupancy(w.blocks)[j]
        }),
{
    let w = free_model(v, h);
    if g.oam_slot == h.oam_slot {
        assert(g == h);
    }
    lemma_free_inv(v, h);
    assert(w.is_live(g));
    lemma_live_run_resident(w, g);
    assert forall|j: int| #[trigger] in_run(g, j) implies occupancy(w.blocks)[j] by {
        assert(!(w.blocks[j] is Unused));
    }
}

/// Allocating the same payload twice shares one resident copy: the second handle starts at
/// the same block as the first, and the second call takes no further blocks.
pub proof fn lemma_dedup(v: AllocatorView, payload: Seq<u32>, size: HWSpriteSize)
    requires
        v.inv(),
        alloc_model(v, payload, content_hash_of(payload), size) is Ok,
        alloc_model(
            (alloc_model(v, payload, content_hash_of(payload), size)->Ok_0).0,
            payload,
            content_hash_of(payload),
            size,
        ) is Ok,
    ensures
        ({
            let (v1, h1) = alloc_model(v, payload, content_hash_of(payload), size)->Ok_0;
            let (v2, h2) = alloc_model(v1, payload, content_hash_of(payload), size)->Ok_0;
            &&& h2.binding.starting_block == h1.binding.starting_block
            &&& occupancy(v2.blocks) == occupancy(v1.blocks)
        }),
{
    let hash = content_hash_of(payload);
    let (v1, h1) = alloc_model(v, payload, hash, size)->Ok_0;
    lemma_alloc_inv(v, payload, hash, size);
    assert(v1.binding_ok(h1.oam_slot as int));
    let (v2, h2) = alloc_model(v1, payload, hash, size)->Ok_0;
    let start = h1.binding.starting_block as int;
    assert(v1.blocks[start] is Used);
    assert(occupancy(v2.blocks) =~= occupancy(v1.blocks));
}

/// Freeing one of two distinct live handles that share a run of blocks leaves the other live
/// and drawing the same pixels: its slot, its run, tile memory and the cache entry for its
/// content stay as they were, and no slot but the freed one changes.
pub proof fn lemma_free_shared(v: AllocatorView, h1: HandleView, h2: HandleView)
    requires
        v.inv(),
        v.is_live(h1),
        v.is_live(h2),
        h1 != h2,
        h1.binding.starting_block == h2.binding.starting_block,
    ensures
        ({
            let w = free_model(v, h1);
            &&& w.inv()
            &&& w.is_live(h2)
            &&& h1.oam_slot != h2.oam_slot
            &&& forall|s: int|
                0 <= s < v.oam.len() && s != h1.oam_slot ==> #[trigger] w.oam[s] == v.oam[s]
                    && w.bindings[s] == v.bindings[s]
            &&& w.tiles == v.tiles
            &&& w.cache == v.cache
            &&& w.cache.contains_key(h2.binding.data_hash)
            &&& w.cache[h2.binding.data_hash] == h2.binding.starting_block
            &&& forall|j: int| #[trigger] in_run(h2, j) ==> occupancy(w.blocks)[j]
        }),
{
    let start = h1.binding.starting_block as int;
    let w = free_model(v, h1);
    if h1.oam_slot == h2.oam_slot {
        assert(h1 == h2);
    }
    lemma_free_inv(v, h1);
    assert(v.binding_ok(h1.oam_slot as int));
    assert(v.binding_ok(h2.oam_slot as int));
    assert(v.head_ok(start));
    lemma_ref_count_update(v.bindings, h1.oam_slot as int, None, start);
    lemma_ref_count_zero(v.bindings.update(h1.oam_slot as int, None), start);
    assert(refers(v.bindings.update(h1.oam_slot as int, None)[h2.oam_slot as int], start));
    assert(refs_of(v.blocks[start]) >= 2);
    assert(w.is_live(h2));
    lemma_live_run_resident(w, h2);
    assert forall|j: int| #[trigger] in_run(h2, j) implies occupancy(w.blocks)[j] by {
        assert(!(w.blocks[j] is Unused));
    }
}

/// With every slot taken, allocating a payload of the right length that is resident (in a run
/// of the same length) or fits in tile memory fails with `OAMFull`; with a slot free, it
/// succeeds. (A failed call leaves the allocator as it was, by the contract of `alloc_sprite`.)
pub proof fn lemma_slots_full(v: AllocatorView, payload: Seq<u32>, size: HWSpriteSize)
    requires
        v.inv(),
        payload.len() * 4 == size.bytes(),
        v.cache.contains_key(content_hash_of(payload)) || !no_fit(v.blocks, size.blocks() as int),
        v.cache.contains_key(content_hash_of(payload)) ==> len_of(
            v.blocks[v.cache[content_hash_of(payload)] as int],
        ) == size.blocks(),
    ensures
        slots_full(v.bindings) ==> alloc_model(v, payload, content_hash_of(payload), size)
            == Err::<(AllocatorView, HandleView), HWSpriteAllocError>(
            HWSpriteAllocError::OAMFull,
        ),
        !slots_full(v.bindings) ==> alloc_model(v, payload, content_hash_of(payload), size) is Ok,
{
}

/// Hiding all sprites and restoring them straight away gives back the state before, whatever
/// it was.
pub proof fn lemma_hide_then_restore(v: AllocatorView)
    requires
        v.inv(),
    ensures
        restored(hidden(v)) == Ok::<AllocatorView, HWSpriteAllocError>(v),
{
    let h = hidden(v);
    let r = restored(h)->Ok_0;
    assert(h.stack.last() == visibility(v.oam));
    assert forall|s: int| 0 <= s < v.oam.len() implies r.oam[s] == v.oam[s] by {
        assert(h.stack.last()[s] == v.oam[s].render);
    }
    assert(r.oam =~= v.oam);
    assert(r.stack =~= v.stack);
}

/// Restoring with no saved snapshot fails with `EmptyVisibilityStack`. (The failed call
/// changes nothing, by the contract of `show_sprites_pop`.)
pub proof fn lemma_restore_without_hide(v: AllocatorView)
    requires
        v.stack.len() == 0,
    ensures
        restored(v) == Err::<AllocatorView, HWSpriteAllocError>(
            HWSpriteAllocError::EmptyVisibilityStack,
        ),
{
}

} // verus!
