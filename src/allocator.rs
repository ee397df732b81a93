use crate::block_arena::{
    find_contiguous_free, first_fit, is_first_fit, lemma_first_fit, lemma_first_fit_exists,
    mark_allocated, marked,
    no_fit, occupancy, release_run, released, run_is_free, BlockState, BLOCK_COUNT,
};
use crate::content_cache::{content_hash, content_hash_of, ContentCache};
use crate::error::HWSpriteAllocError;
use crate::slot_table::{
    blank_attributes, first_free_slot, identity_affine, is_first_free_slot, lemma_first_free_slot,
    lemma_first_free_slot_exists, lemma_ref_count_bound, lemma_ref_count_update, lemma_ref_count_zero, programmed, ref_count,
    refers, slots_full, with_render, AffineParameters, ObjAttributes, SlotBinding, AFFINE_ONE,
    SLOT_COUNT,
};
use crate::sprite_size::HWSpriteSize;
use vstd::prelude::*;

verus! {

/// Number of 32-bit words in one block of tile memory.
pub const WORDS_PER_BLOCK: usize = 8;

/// Number of 32-bit words in tile memory.
pub const TILE_WORDS: usize = 8192;

/// Number of entries in the sprite palette.
pub const PALETTE_SIZE: usize = 256;

/// The abstract state of a sprite allocator.
pub struct AllocatorView {
    /// State of each block of tile memory.
    pub blocks: Seq<BlockState>,
    /// Content cache: content hash to first block of the resident copy.
    pub cache: Map<u64, usize>,
    /// For each attribute slot, the sprite bound to it, if any.
    pub bindings: Seq<Option<SlotBinding>>,
    /// The hardware attribute slots.
    pub oam: Seq<ObjAttributes>,
    /// Tile memory, as 32-bit words.
    pub tiles: Seq<u32>,
    /// The palette the allocator was made with.
    pub palette: Seq<u16>,
    /// The hardware palette table.
    pub palette_ram: Seq<u16>,
    /// Saved render flags of every slot, most recent last.
    pub stack: Seq<Seq<bool>>,
}

/// The abstract content of a handle: its slot and what that slot is bound to.
pub struct HandleView {
    pub oam_slot: usize,
    pub binding: SlotBinding,
}

/// Reference count held by a block (zero unless it heads an allocation).
pub open spec fn refs_of(b: BlockState) -> nat {
    match b {
        BlockState::Used { refs, .. } => refs as nat,
        _ => 0,
    }
}

/// Length in blocks of the allocation that a block heads (zero unless it heads one).
pub open spec fn len_of(b: BlockState) -> nat {
    match b {
        BlockState::Used { len, .. } => len as nat,
        _ => 0,
    }
}

/// `tiles` with `src` copied in from word `dest` on.
pub open spec fn copy_region(tiles: Seq<u32>, dest: int, src: Seq<u32>) -> Seq<u32> {
    Seq::new(tiles.len(), |i: int| if dest <= i < dest + src.len() { src[i - dest] } else { tiles[i] })
}

/// The render flag of every slot.
pub open spec fn visibility(oam: Seq<ObjAttributes>) -> Seq<bool> {
    oam.map_values(|a: ObjAttributes| a.render)
}

/// The slot's fixed fields are those of a sprite of `size` whose pixels start at `start`.
pub open spec fn placed(a: ObjAttributes, start: int, size: HWSpriteSize) -> bool {
    &&& a.shape == size.size_and_shape().1
    &&& a.size == size.size_and_shape().0
    &&& a.is_8bpp
    &&& a.tile_id == start as u16
    &&& a.priority == 1
    &&& a.affine == identity_affine()
}

/// The block range `[start, start + len)` of the allocation headed at `start`.
pub open spec fn run_of(v: AllocatorView, start: int) -> (int, int) {
    (start, start + len_of(v.blocks[start]))
}

impl AllocatorView {
    /// Block `i` heads a well-formed allocation: its tail is `Continue` and inside the arena,
    /// and its reference count is the number of slots bound to it.
    pub open spec fn head_ok(self, i: int) -> bool {
        let b = self.blocks[i];
        &&& 1 <= len_of(b)
        &&& i + len_of(b) <= self.blocks.len()
        &&& forall|j: int| i < j < i + len_of(b) ==> (#[trigger] self.blocks[j]) is Continue
        &&& refs_of(b) == ref_count(self.bindings, i)
        &&& refs_of(b) >= 1
    }

    /// The sprite bound to slot `s` heads a resident allocation that the cache finds by its
    /// hash, and the slot points at it.
    pub open spec fn binding_ok(self, s: int) -> bool {
        let b = self.bindings[s]->0;
        &&& b.starting_block < self.blocks.len()
        &&& self.blocks[b.starting_block as int] is Used
        &&& self.cache.contains_key(b.data_hash)
        &&& self.cache[b.data_hash] == b.starting_block
        &&& len_of(self.blocks[b.starting_block as int]) == b.sprite_size.blocks()
        &&& placed(self.oam[s], b.starting_block as int, b.sprite_size)
    }

    /// The allocator's invariant.
    pub open spec fn inv(self) -> bool {
        &&& self.blocks.len() == BLOCK_COUNT
        &&& self.bindings.len() == SLOT_COUNT
        &&& self.oam.len() == SLOT_COUNT
        &&& self.tiles.len() == TILE_WORDS
        &&& self.palette.len() == PALETTE_SIZE
        &&& self.palette_ram.len() == PALETTE_SIZE
        &&& forall|i: int|
            0 <= i < self.blocks.len() && (#[trigger] self.blocks[i]) is Used ==> self.head_ok(i)
        &&& forall|k: u64| #[trigger]
            self.cache.contains_key(k) ==> self.cache[k] < BLOCK_COUNT && self.blocks[self.cache[k] as int] is Used
        &&& forall|k1: u64, k2: u64|
            self.cache.contains_key(k1) && self.cache.contains_key(k2) && #[trigger] self.cache[k1]
                == #[trigger] self.cache[k2] ==> k1 == k2
        &&& forall|s: int|
            0 <= s < self.bindings.len() && (#[trigger] self.bindings[s]) is Some ==> self.binding_ok(s)
        &&& forall|d: int| 0 <= d < self.stack.len() ==> (#[trigger] self.stack[d]).len() == SLOT_COUNT
    }

    /// The handle's slot is bound to exactly what the handle records.
    pub open spec fn is_live(self, h: HandleView) -> bool {
        &&& h.oam_slot < self.bindings.len()
        &&& self.bindings[h.oam_slot as int] == Some(h.binding)
    }
}

/// A fresh allocator for the given palette: all blocks unused, all slots free, nothing drawn.
pub open spec fn initial_model(palette: Seq<u16>) -> AllocatorView {
    AllocatorView {
        blocks: Seq::new(BLOCK_COUNT as nat, |i: int| BlockState::Unused),
        cache: Map::empty(),
        bindings: Seq::new(SLOT_COUNT as nat, |i: int| None),
        oam: Seq::new(SLOT_COUNT as nat, |i: int| blank_attributes()),
        tiles: Seq::new(TILE_WORDS as nat, |i: int| 0u32),
        palette: Seq::new(
            PALETTE_SIZE as nat,
            |i: int|
                if i < palette.len() {
                    palette[i]
                } else {
                    0u16
                },
        ),
        palette_ram: Seq::new(PALETTE_SIZE as nat, |i: int| 0u16),
        stack: Seq::empty(),
    }
}

/// A sprite allocator that owns tile memory, the sprite palette and the attribute slot table.
///
/// Identical payloads are stored once: the content cache finds a resident copy by the hash of
/// the payload, and the allocation's reference count records how many slots share it. Equality
/// is by hash alone; two different payloads with the same hash would share one copy.
pub struct HWSpriteAllocator {
    blocks: Vec<BlockState>,
    cache: ContentCache,
    bindings: Vec<Option<SlotBinding>>,
    oam: Vec<ObjAttributes>,
    tiles: Vec<u32>,
    palette: Vec<u16>,
    palette_ram: Vec<u16>,
    visibility_stack: Vec<Vec<bool>>,
}

impl View for HWSpriteAllocator {
    type V = AllocatorView;

    closed spec fn view(&self) -> AllocatorView {
        AllocatorView {
            blocks: self.blocks@,
            cache: self.cache@,
            bindings: self.bindings@,
            oam: self.oam@,
            tiles: self.tiles@,
            palette: self.palette@,
            palette_ram: self.palette_ram@,
            stack: self.visibility_stack@.map_values(|v: Vec<bool>| v@),
        }
    }
}

impl HWSpriteAllocator {
    /// The allocator's invariant holds.
    pub open spec fn wf(&self) -> bool {
        self@.inv()
    }

    /// Creates an allocator for sprites with the given palette (at most 256 colours).
    pub fn new(palette: &[u16]) -> (r: HWSpriteAllocator)
        requires
            palette@.len() <= PALETTE_SIZE,
        ensures
            r.wf(),
            r@ == initial_model(palette@),
    {
        let mut pal: Vec<u16> = Vec::new();
        let mut i: usize = 0;
        while i < PALETTE_SIZE
            invariant
                i <= PALETTE_SIZE,
                pal@.len() == i,
                forall|j: int|
                    0 <= j < i ==> pal@[j] == (if j < palette@.len() {
                        palette@[j]
                    } else {
                        0u16
                    }),
            decreases PALETTE_SIZE - i,
        {
            if i < palette.len() {
                pal.push(palette[i]);
            } else {
                pal.push(0);
            }
            i = i + 1;
        }
        let mut palette_ram: Vec<u16> = Vec::new();
        while palette_ram.len() < PALETTE_SIZE
            invariant
                palette_ram@.len() <= PALETTE_SIZE,
                forall|j: int| 0 <= j < palette_ram@.len() ==> palette_ram@[j] == 0u16,
            decreases PALETTE_SIZE - palette_ram@.len(),
        {
            palette_ram.push(0);
        }
        let mut blocks: Vec<BlockState> = Vec::new();
        while blocks.len() < BLOCK_COUNT
            invariant
                blocks@.len() <= BLOCK_COUNT,
                forall|j: int| 0 <= j < blocks@.len() ==> blocks@[j] == BlockState::Unused,
            decreases BLOCK_COUNT - blocks@.len(),
        {
            blocks.push(BlockState::Unused);
        }
        let mut bindings: Vec<Option<SlotBinding>> = Vec::new();
        let mut oam: Vec<ObjAttributes> = Vec::new();
        while bindings.len() < SLOT_COUNT
            invariant
                bindings@.len() <= SLOT_COUNT,
                oam@.len() == bindings@.len(),
                forall|j: int| 0 <= j < bindings@.len() ==> bindings@[j] == None::<SlotBinding>,
                forall|j: int| 0 <= j < oam@.len() ==> oam@[j] == blank_attributes(),
            decreases SLOT_COUNT - bindings@.len(),
        {
            bindings.push(None);
            oam.push(
                ObjAttributes {
                    y: 0,
                    x: 0,
                    shape: 0,
                    size: 0,
                    is_8bpp: false,
                    tile_id: 0,
                    priority: 0,
                    render: false,
                    affine: AffineParameters { pa: AFFINE_ONE, pb: 0, pc: 0, pd: AFFINE_ONE },
                },
            );
        }
        let mut tiles: Vec<u32> = Vec::new();
        while tiles.len() < TILE_WORDS
            invariant
                tiles@.len() <= TILE_WORDS,
                forall|j: int| 0 <= j < tiles@.len() ==> tiles@[j] == 0u32,
            decreases TILE_WORDS - tiles@.len(),
        {
            tiles.push(0);
        }
        let r = HWSpriteAllocator {
            blocks,
            cache: ContentCache::new(),
            bindings,
            oam,
            tiles,
            palette: pal,
            palette_ram,
            visibility_stack: Vec::new(),
        };
        let ghost init = initial_model(palette@);
        assert(r@.blocks =~= init.blocks);
        assert(r@.bindings =~= init.bindings);
        assert(r@.oam =~= init.oam);
        assert(r@.tiles =~= init.tiles);
        assert(r@.palette =~= init.palette);
        assert(r@.palette_ram =~= init.palette_ram);
        assert(r@.stack =~= init.stack);
        r
    }

    /// Loads the palette into the hardware palette table.
    pub fn init(&mut self)
        requires
            old(self).wf(),
        ensures
            final(self).wf(),
            final(self)@ == (AllocatorView { palette_ram: old(self)@.palette, ..old(self)@ }),
    {
        let mut i: usize = 0;
        while i < PALETTE_SIZE
            invariant
                i <= PALETTE_SIZE,
                self.palette@ == old(self).palette@,
                self.palette@.len() == PALETTE_SIZE,
                self.palette_ram@.len() == PALETTE_SIZE,
                forall|j: int|
                    0 <= j < PALETTE_SIZE ==> self.palette_ram@[j] == (if j < i {
                        self.palette@[j]
                    } else {
                        old(self).palette_ram@[j]
                    }),
                self.blocks == old(self).blocks,
                self.cache == old(self).cache,
                self.bindings == old(self).bindings,
                self.oam == old(self).oam,
                self.tiles == old(self).tiles,
                self.visibility_stack == old(self).visibility_stack,
            decreases PALETTE_SIZE - i,
        {
            let c = self.palette[i];
            self.palette_ram.set(i, c);
            i = i + 1;
        }
        assert(self.palette_ram@ =~= old(self).palette@);
    }

    /// Finds the lowest free attribute slot.
    fn find_free_oam_slot(&self) -> (r: Result<usize, HWSpriteAllocError>)
        ensures
            match r {
                Ok(s) => is_first_free_slot(self@.bindings, s as int),
                Err(e) => e == HWSpriteAllocError::OAMFull && slots_full(self@.bindings),
            },
    {
        let mut i: usize = 0;
        while i < self.bindings.len()
            invariant
                i <= self.bindings@.len(),
                forall|t: int| 0 <= t < i ==> self.bindings@[t] is Some,
            decreases self.bindings@.len() - i,
        {
            if self.bindings[i].is_none() {
                return Ok(i);
            }
            i = i + 1;
        }
        Err(HWSpriteAllocError::OAMFull)
    }

    /// Finds the lowest block that begins a run of `num_blocks` free blocks.
    fn find_contiguous_free_blocks(&self, num_blocks: usize) -> (r: Result<
        usize,
        HWSpriteAllocError,
    >)
        requires
            num_blocks >= 1,
        ensures
            match r {
                Ok(s) => is_first_fit(self@.blocks, num_blocks as int, s as int),
                Err(e) => e == HWSpriteAllocError::VRAMFull && no_fit(
                    self@.blocks,
                    num_blocks as int,
                ),
            },
    {
        match find_contiguous_free(&self.blocks, num_blocks) {
            Some(s) => Ok(s),
            None => Err(HWSpriteAllocError::VRAMFull),
        }
    }

    /// Programs an attribute slot for a new sprite: identity transform, not drawn, 8 bits per
    /// pixel, at the origin.
    fn prepare_oam_slot(
        &mut self,
        starting_tile_id: u16,
        oam_slot: usize,
        obj_size: u16,
        obj_shape: u16,
    )
        requires
            oam_slot < old(self)@.oam.len(),
        ensures
            final(self)@ == (AllocatorView {
                oam: old(self)@.oam.update(
                    oam_slot as int,
                    ObjAttributes {
                        y: 0,
                        x: 0,
                        shape: obj_shape,
                        size: obj_size,
                        is_8bpp: true,
                        tile_id: starting_tile_id,
                        priority: 1,
                        render: false,
                        affine: identity_affine(),
                    },
                ),
                ..old(self)@
            }),
    {
        self.oam.set(
            oam_slot,
            ObjAttributes {
                y: 0,
                x: 0,
                shape: obj_shape,
                size: obj_size,
                is_8bpp: true,
                tile_id: starting_tile_id,
                priority: 1,
                render: false,
                affine: AffineParameters { pa: AFFINE_ONE, pb: 0, pc: 0, pd: AFFINE_ONE },
            },
        );
    }

    /// Copies a sprite's pixel data into tile memory from block `start_block` on.
    fn dma_copy_sprite(&mut self, sprite_tile_data: &[u32], start_block: usize)
        requires
            old(self)@.tiles.len() == TILE_WORDS,
            start_block * WORDS_PER_BLOCK + sprite_tile_data@.len() <= TILE_WORDS,
        ensures
            final(self)@ == (AllocatorView {
                tiles: copy_region(
                    old(self)@.tiles,
                    start_block * WORDS_PER_BLOCK,
                    sprite_tile_data@,
                ),
                ..old(self)@
            }),
    {
        let base = start_block * WORDS_PER_BLOCK;
        let mut i: usize = 0;
        while i < sprite_tile_data.len()
            invariant
                i <= sprite_tile_data@.len(),
                base == start_block * WORDS_PER_BLOCK,
                base + sprite_tile_data@.len() <= TILE_WORDS,
                self.tiles@.len() == TILE_WORDS,
                old(self).tiles@.len() == TILE_WORDS,
                forall|j: int|
                    0 <= j < self.tiles@.len() ==> self.tiles@[j] == (if base <= j < base + i {
                        sprite_tile_data@[j - base]
                    } else {
                        old(self).tiles@[j]
                    }),
                self.blocks == old(self).blocks,
                self.cache == old(self).cache,
                self.bindings == old(self).bindings,
                self.oam == old(self).oam,
                self.palette == old(self).palette,
                self.palette_ram == old(self).palette_ram,
                self.visibility_stack == old(self).visibility_stack,
            decreases sprite_tile_data@.len() - i,
        {
            self.tiles.set(base + i, sprite_tile_data[i]);
            i = i + 1;
        }
        assert(self.tiles@ =~= copy_region(old(self)@.tiles, base as int, sprite_tile_data@));
    }
}

/// The outcome of allocating `payload`, whose content hash is `hash`, as a sprite of `size`:
/// the new state and the new handle, or the error.
///
/// The length is checked first. A resident copy with the same hash is shared (its reference
/// count goes up and nothing is copied); otherwise the first free run of blocks that fits takes
/// the payload. Either way the lowest free slot is programmed for the sprite. Nothing changes
/// on an error.
///
/// Equality is by hash alone, so a resident copy is not compared with the payload byte by
/// byte. A resident copy whose length in blocks differs from the requested size cannot hold
/// the same payload, though (the hashes collide), and sharing it would draw blocks outside
/// its run: that call fails with `SizeMismatch`.
pub open spec fn alloc_model(
    v: AllocatorView,
    payload: Seq<u32>,
    hash: u64,
    size: HWSpriteSize,
) -> Result<(AllocatorView, HandleView), HWSpriteAllocError> {
    let n = size.blocks() as int;
    let hit = v.cache.contains_key(hash);
    if payload.len() * 4 != size.bytes() {
        Err(HWSpriteAllocError::SizeMismatch)
    } else if hit && len_of(v.blocks[v.cache[hash] as int]) != size.blocks() {
        Err(HWSpriteAllocError::SizeMismatch)
    } else if !hit && no_fit(v.blocks, n) {
        Err(HWSpriteAllocError::VRAMFull)
    } else if slots_full(v.bindings) {
        Err(HWSpriteAllocError::OAMFull)
    } else {
        let start = if hit {
            v.cache[hash] as int
        } else {
            first_fit(v.blocks, n)
        };
        let slot = first_free_slot(v.bindings);
        let binding = SlotBinding { starting_block: start as usize, data_hash: hash, sprite_size: size };
        let head = v.blocks[start];
        Ok(
            (
                AllocatorView {
                    blocks: if hit {
                        v.blocks.update(
                            start,
                            BlockState::Used {
                                refs: (refs_of(head) + 1) as u32,
                                len: len_of(head) as usize,
                            },
                        )
                    } else {
                        marked(v.blocks, start, n)
                    },
                    cache: if hit {
                        v.cache
                    } else {
                        v.cache.insert(hash, start as usize)
                    },
                    bindings: v.bindings.update(slot, Some(binding)),
                    oam: v.oam.update(slot, programmed(start, size)),
                    tiles: if hit {
                        v.tiles
                    } else {
                        copy_region(v.tiles, start * WORDS_PER_BLOCK, payload)
                    },
                    ..v
                },
                HandleView { oam_slot: slot as usize, binding },
            ),
        )
    }
}

/// Allocation keeps the invariant.
pub proof fn lemma_alloc_inv(v: AllocatorView, payload: Seq<u32>, hash: u64, size: HWSpriteSize)
    requires
        v.inv(),
        alloc_model(v, payload, hash, size) is Ok,
    ensures
        (alloc_model(v, payload, hash, size)->Ok_0).0.inv(),
        (alloc_model(v, payload, hash, size)->Ok_0).0.is_live(
            (alloc_model(v, payload, hash, size)->Ok_0).1,
        ),
        is_first_free_slot(v.bindings, (alloc_model(v, payload, hash, size)->Ok_0).1.oam_slot as int),
        !v.cache.contains_key(hash) ==> is_first_fit(
            v.blocks,
            size.blocks() as int,
            (alloc_model(v, payload, hash, size)->Ok_0).1.binding.starting_block as int,
        ),
{
    size.lemma_block_bounds();
    let n = size.blocks() as int;
    let hit = v.cache.contains_key(hash);
    let w = (alloc_model(v, payload, hash, size)->Ok_0).0;
    let hv = (alloc_model(v, payload, hash, size)->Ok_0).1;
    let slot = hv.oam_slot as int;
    let start = hv.binding.starting_block as int;
    let binding = hv.binding;
    let free_s = choose|s: int| 0 <= s < v.bindings.len() && !(v.bindings[s] is Some);
    lemma_first_free_slot_exists(v.bindings, free_s);
    assert(is_first_free_slot(v.bindings, slot));
    if !hit {
        let k = choose|k: int| run_is_free(v.blocks, k, n);
        lemma_first_fit_exists(v.blocks, n, k);
        assert(is_first_fit(v.blocks, n, start));
    }
    if hit {
        assert(v.blocks[start] is Used);
        lemma_ref_count_bound(v.bindings, start);
    }
    assert forall|i: int| 0 <= i < w.blocks.len() && (#[trigger] w.blocks[i]) is Used implies w.head_ok(
        i,
    ) by {
        lemma_ref_count_update(v.bindings, slot, Some(binding), i);
        if hit {
            assert(v.blocks[start] is Used);
            assert(v.head_ok(start));
            if i != start {
                assert(v.blocks[i] == w.blocks[i]);
                assert(v.head_ok(i));
                assert forall|j: int| i < j < i + len_of(w.blocks[i]) implies (#[trigger] w.blocks[j]) is Continue by {
                    assert(v.blocks[j] is Continue);
                }
            } else {
                assert forall|j: int| i < j < i + len_of(w.blocks[i]) implies (#[trigger] w.blocks[j]) is Continue by {
                    assert(v.blocks[j] is Continue);
                }
            }
        } else {
            if i != start {
                assert(!(start < i < start + n));
                assert(v.blocks[i] == w.blocks[i]);
                assert(v.head_ok(i));
                assert forall|j: int| i < j < i + len_of(w.blocks[i]) implies (#[trigger] w.blocks[j]) is Continue by {
                    assert(v.blocks[j] is Continue);
                    assert(!(start <= j < start + n));
                }
            } else {
                lemma_ref_count_zero(v.bindings, start);
                assert forall|t: int| 0 <= t < v.bindings.len() implies !refers(
                    #[trigger] v.bindings[t],
                    start,
                ) by {
                    if v.bindings[t] is Some {
                        assert(v.binding_ok(t));
                    }
                }
            }
        }
    }
    assert forall|k: u64| #[trigger] w.cache.contains_key(k) implies w.cache[k] < BLOCK_COUNT
        && w.blocks[w.cache[k] as int] is Used by {
        if !hit && k != hash {
            assert(v.cache.contains_key(k));
            let c = v.cache[k] as int;
            assert(v.blocks[c] is Used);
            assert(!(start <= c < start + n));
        }
    }
    assert forall|k1: u64, k2: u64|
        w.cache.contains_key(k1) && w.cache.contains_key(k2) && #[trigger] w.cache[k1]
            == #[trigger] w.cache[k2] implies k1 == k2 by {
        if !hit {
            if k1 == hash && k2 != hash {
                assert(v.blocks[v.cache[k2] as int] is Used);
            }
            if k2 == hash && k1 != hash {
                assert(v.blocks[v.cache[k1] as int] is Used);
            }
        }
    }
    assert forall|s: int|
        0 <= s < w.bindings.len() && (#[trigger] w.bindings[s]) is Some implies w.binding_ok(s) by {
        if s != slot {
            assert(v.binding_ok(s));
            let b = v.bindings[s]->0;
            if !hit {
                assert(b.data_hash != hash);
                assert(!(start <= b.starting_block < start + n));
            }
        }
    }
    assert forall|d: int| 0 <= d < w.stack.len() implies (#[trigger] w.stack[d]).len()
        == SLOT_COUNT by {
        assert(v.stack[d] == w.stack[d]);
    }
}

/// A handle to a sprite placed by a `HWSpriteAllocator`: one attribute slot and a share of
/// the blocks that hold its pixels. It is consumed by `free`.
pub struct HWSpriteHandle {
    pub sprite_size: HWSpriteSize,
    starting_block: usize,
    data_hash: u64,
    oam_slot: usize,
}

impl View for HWSpriteHandle {
    type V = HandleView;

    closed spec fn view(&self) -> HandleView {
        HandleView {
            oam_slot: self.oam_slot,
            binding: SlotBinding {
                starting_block: self.starting_block,
                data_hash: self.data_hash,
                sprite_size: self.sprite_size,
            },
        }
    }
}

impl HWSpriteAllocator {
    /// Allocates a sprite whose payload has the given content hash.
    ///
    /// The result is `alloc_model`'s for this hash; `alloc_sprite` computes the hash itself.
    pub fn alloc_with_hash(
        &mut self,
        sprite_data: &[u32],
        sprite_hash: u64,
        sprite_size: HWSpriteSize,
    ) -> (r: Result<HWSpriteHandle, HWSpriteAllocError>)
        requires
            old(self).wf(),
        ensures
            final(self).wf(),
            match r {
                Ok(h) => alloc_model(old(self)@, sprite_data@, sprite_hash, sprite_size) == Ok::<
                    (AllocatorView, HandleView),
                    HWSpriteAllocError,
                >((final(self)@, h@)),
                Err(e) => alloc_model(old(self)@, sprite_data@, sprite_hash, sprite_size) == Err::<
                    (AllocatorView, HandleView),
                    HWSpriteAllocError,
                >(e) && final(self)@ == old(self)@,
            },
    {
        proof {
            sprite_size.lemma_block_bounds();
        }
        let num_blocks = sprite_size.to_num_of_32_byte_blocks();
        let size_in_words = (sprite_size.to_size_in_bytes() / 4) as usize;
        if sprite_data.len() != size_in_words {
            return Err(HWSpriteAllocError::SizeMismatch);
        }
        let cached = self.cache.lookup(sprite_hash);
        let starting_block: usize = match cached {
            Some(s) => {
                proof {
                    assert(self@.blocks[s as int] is Used);
                }
                if let BlockState::Used { len, .. } = self.blocks[s] {
                    if len != num_blocks {
                        return Err(HWSpriteAllocError::SizeMismatch);
                    }
                }
                s
            },
            None => match self.find_contiguous_free_blocks(num_blocks) {
                Ok(s) => s,
                Err(e) => {
                    return Err(e);
                },
            },
        };
        let oam_slot = match self.find_free_oam_slot() {
            Ok(s) => s,
            Err(e) => {
                return Err(e);
            },
        };
        let ghost v0 = self@;
        proof {
            lemma_alloc_inv(v0, sprite_data@, sprite_hash, sprite_size);
            lemma_first_free_slot(v0.bindings, oam_slot as int);
            if cached is None {
                lemma_first_fit(v0.blocks, num_blocks as int, starting_block as int);
            }
        }
        let ghost w = (alloc_model(v0, sprite_data@, sprite_hash, sprite_size)->Ok_0).0;
        match cached {
            Some(_) => {
                let head = self.blocks[starting_block];
                proof {
                    assert(v0.blocks[starting_block as int] is Used);
                    assert(v0.head_ok(starting_block as int));
                    lemma_ref_count_bound(v0.bindings, starting_block as int);
                }
                if let BlockState::Used { refs, len } = head {
                    self.blocks.set(starting_block, BlockState::Used { refs: refs + 1, len });
                }
            },
            None => {
                self.dma_copy_sprite(sprite_data, starting_block);
                mark_allocated(&mut self.blocks, starting_block, num_blocks);
                self.cache.insert(sprite_hash, starting_block);
            },
        }
        self.bindings.set(
            oam_slot,
            Some(SlotBinding { starting_block, data_hash: sprite_hash, sprite_size }),
        );
        let (obj_size, obj_shape) = sprite_size.to_obj_size_and_shape();
        self.prepare_oam_slot(starting_block as u16, oam_slot, obj_size, obj_shape);
        let handle = HWSpriteHandle {
            sprite_size,
            starting_block,
            data_hash: sprite_hash,
            oam_slot,
        };
        assert(self@.blocks == w.blocks);
        assert(self@.oam == w.oam);
        assert(self@ == w);
        Ok(handle)
    }
}

/// The state after freeing the sprite of a live handle: the slot is cleared and stops
/// drawing, and the allocation loses one reference; when that was the last one, its blocks
/// return to the pool and its cache entry goes.
pub open spec fn free_model(v: AllocatorView, h: HandleView) -> AllocatorView {
    let start = h.binding.starting_block as int;
    let head = v.blocks[start];
    let s = h.oam_slot as int;
    AllocatorView {
        blocks: if refs_of(head) == 1 {
            released(v.blocks, start, len_of(head) as int)
        } else {
            v.blocks.update(
                start,
                BlockState::Used { refs: (refs_of(head) - 1) as u32, len: len_of(head) as usize },
            )
        },
        cache: if refs_of(head) == 1 {
            v.cache.remove(h.binding.data_hash)
        } else {
            v.cache
        },
        bindings: v.bindings.update(s, None),
        oam: v.oam.update(s, with_render(v.oam[s], false)),
        ..v
    }
}

/// Freeing keeps the invariant.
pub proof fn lemma_free_inv(v: AllocatorView, h: HandleView)
    requires
        v.inv(),
        v.is_live(h),
    ensures
        free_model(v, h).inv(),
{
    let w = free_model(v, h);
    let slot = h.oam_slot as int;
    let b = h.binding;
    let start = b.starting_block as int;
    let len = len_of(v.blocks[start]) as int;
    let last = refs_of(v.blocks[start]) == 1;
    assert(v.binding_ok(slot));
    assert(v.head_ok(start));
    assert forall|i: int| 0 <= i < w.blocks.len() implies ref_count(w.bindings, i) + (if i
        == start {
        1nat
    } else {
        0nat
    }) == ref_count(v.bindings, i) by {
        lemma_ref_count_update(v.bindings, slot, None, i);
    }
    if last {
        assert(ref_count(w.bindings, start) == 0);
        lemma_ref_count_zero(w.bindings, start);
    }
    // A block that heads an allocation other than `start` lies outside `start`'s run, and so
    // does that allocation's whole run.

    assert forall|i: int| 0 <= i < w.blocks.len() && (#[trigger] w.blocks[i]) is Used implies w.head_ok(
        i,
    ) by {
        assert(ref_count(w.bindings, i) + (if i == start {
            1nat
        } else {
            0nat
        }) == ref_count(v.bindings, i));
        if i != start {
            assert(v.blocks[i] is Used) by {
                if last && start <= i < start + len {
                } else {
                    assert(v.blocks[i] == w.blocks[i]);
                }
            }
            assert(v.head_ok(i));
            if start < i < start + len {
                assert(v.blocks[i] is Continue);
            }
            assert(v.blocks[i] == w.blocks[i]);
            let li = len_of(v.blocks[i]) as int;
            if i < start {
                if start < i + li {
                    assert(v.blocks[start] is Continue);
                }
            }
            assert forall|j: int| i < j < i + li implies (#[trigger] w.blocks[j]) is Continue by {
                assert(v.blocks[j] is Continue);
            }
        } else {
            assert forall|j: int| i < j < i + len implies (#[trigger] w.blocks[j]) is Continue by {
                assert(v.blocks[j] is Continue);
            }
        }
    }
    assert forall|k: u64| #[trigger] w.cache.contains_key(k) implies w.cache[k] < BLOCK_COUNT
        && w.blocks[w.cache[k] as int] is Used by {
        assert(v.cache.contains_key(k));
        let c = v.cache[k] as int;
        assert(v.blocks[c] is Used);
        if last {
            assert(k != b.data_hash);
            assert(c != start);
            if start < c < start + len {
                assert(v.blocks[c] is Continue);
            }
        }
    }
    assert forall|k1: u64, k2: u64|
        w.cache.contains_key(k1) && w.cache.contains_key(k2) && #[trigger] w.cache[k1]
            == #[trigger] w.cache[k2] implies k1 == k2 by {
        assert(v.cache.contains_key(k1) && v.cache.contains_key(k2));
        assert(v.cache[k1] == v.cache[k2]);
    }
    assert forall|s: int|
        0 <= s < w.bindings.len() && (#[trigger] w.bindings[s]) is Some implies w.binding_ok(s) by {
        assert(s != slot);
        assert(v.bindings[s] == w.bindings[s]);
        assert(v.binding_ok(s));
        let bs = v.bindings[s]->0;
        let c = bs.starting_block as int;
        if last {
            assert(!refers(w.bindings[s], start));
            assert(c != start);
            if start < c < start + len {
                assert(v.blocks[c] is Continue);
            }
            assert(bs.data_hash != b.data_hash);
        }
    }
    assert forall|d: int| 0 <= d < w.stack.len() implies (#[trigger] w.stack[d]).len()
        == SLOT_COUNT by {
        assert(v.stack[d] == w.stack[d]);
    }
}

impl HWSpriteAllocator {
    /// Allocates a sprite: places its payload in tile memory (or shares an identical resident
    /// copy) and binds it to a free attribute slot, which starts out not drawn.
    pub fn alloc_sprite(&mut self, sprite_data: &[u32], sprite_size: HWSpriteSize) -> (r: Result<
        HWSpriteHandle,
        HWSpriteAllocError,
    >)
        requires
            old(self).wf(),
        ensures
            final(self).wf(),
            match r {
                Ok(h) => alloc_model(
                    old(self)@,
                    sprite_data@,
                    content_hash_of(sprite_data@),
                    sprite_size,
                ) == Ok::<(AllocatorView, HandleView), HWSpriteAllocError>((final(self)@, h@)),
                Err(e) => alloc_model(
                    old(self)@,
                    sprite_data@,
                    content_hash_of(sprite_data@),
                    sprite_size,
                ) == Err::<(AllocatorView, HandleView), HWSpriteAllocError>(e) && final(self)@
                    == old(self)@,
            },
    {
        proof {
            sprite_size.lemma_block_bounds();
        }
        if sprite_data.len() != (sprite_size.to_size_in_bytes() / 4) as usize {
            return Err(HWSpriteAllocError::SizeMismatch);
        }
        let sprite_hash = content_hash(sprite_data);
        self.alloc_with_hash(sprite_data, sprite_hash, sprite_size)
    }

    /// Allocates a sprite from the contents of a named resource, as found by the asset loader:
    /// `None` when the name could not be resolved.
    pub fn alloc_from_fs_file(
        &mut self,
        file_data: Option<&[u32]>,
        sprite_size: HWSpriteSize,
    ) -> (r: Result<HWSpriteHandle, HWSpriteAllocError>)
        requires
            old(self).wf(),
        ensures
            final(self).wf(),
            match file_data {
                None => r == Err::<HWSpriteHandle, HWSpriteAllocError>(
                    HWSpriteAllocError::ResourceNotFound,
                ) && final(self)@ == old(self)@,
                Some(d) => match r {
                    Ok(h) => alloc_model(old(self)@, d@, content_hash_of(d@), sprite_size) == Ok::<
                        (AllocatorView, HandleView),
                        HWSpriteAllocError,
                    >((final(self)@, h@)),
                    Err(e) => {
                        &&& alloc_model(old(self)@, d@, content_hash_of(d@), sprite_size) == Err::<
                            (AllocatorView, HandleView),
                            HWSpriteAllocError,
                        >(e)
                        &&& final(self)@ == old(self)@
                    },
                },
            },
    {
        match file_data {
            Some(d) => self.alloc_sprite(d, sprite_size),
            None => Err(HWSpriteAllocError::ResourceNotFound),
        }
    }

    /// Frees the sprite of a handle. Its slot stops drawing and becomes free; its blocks stay
    /// resident while other handles share them.
    pub fn free(&mut self, handle: HWSpriteHandle)
        requires
            old(self).wf(),
            old(self)@.is_live(handle@),
        ensures
            final(self).wf(),
            final(self)@ == free_model(old(self)@, handle@),
    {
        let ghost v0 = self@;
        proof {
            lemma_free_inv(v0, handle@);
            assert(v0.binding_ok(handle.oam_slot as int));
            assert(v0.head_ok(handle.starting_block as int));
        }
        let slot = handle.oam_slot;
        let attrs = self.oam[slot];
        self.oam.set(slot, ObjAttributes { render: false, ..attrs });
        self.bindings.set(slot, None);
        let start = handle.starting_block;
        let head = self.blocks[start];
        if let BlockState::Used { refs, len } = head {
            if refs == 1 {
                release_run(&mut self.blocks, start, len);
                self.cache.remove(handle.data_hash);
            } else {
                self.blocks.set(start, BlockState::Used { refs: refs - 1, len });
            }
        }
        assert(self@ == free_model(v0, handle@));
    }
}

/// The state after hiding every sprite: the render flags of all slots are pushed on the
/// visibility stack, and every occupied slot stops drawing.
pub open spec fn hidden(v: AllocatorView) -> AllocatorView {
    AllocatorView {
        oam: Seq::new(
            v.oam.len(),
            |s: int|
                if v.bindings[s] is Some {
                    with_render(v.oam[s], false)
                } else {
                    v.oam[s]
                },
        ),
        stack: v.stack.push(visibility(v.oam)),
        ..v
    }
}

/// Slot `s` after a restore: its render flag is the one saved in the most recent snapshot.
pub open spec fn restored_slot(v: AllocatorView, s: int) -> ObjAttributes {
    with_render(v.oam[s], v.stack.last()[s])
}

/// The outcome of restoring sprite visibility: the most recent snapshot is popped, and each
/// slot's render flag is set back to its value in that snapshot. With no snapshot on the
/// stack, an error.
pub open spec fn restored(v: AllocatorView) -> Result<AllocatorView, HWSpriteAllocError> {
    if v.stack.len() == 0 {
        Err(HWSpriteAllocError::EmptyVisibilityStack)
    } else {
        Ok(
            AllocatorView {
                oam: Seq::new(
                    v.oam.len(),
                    |s: int| restored_slot(v, s),
                ),
                stack: v.stack.drop_last(),
                ..v
            },
        )
    }
}

/// The state with the attribute slot `slot` replaced by `a`.
pub open spec fn with_slot(v: AllocatorView, slot: int, a: ObjAttributes) -> AllocatorView {
    AllocatorView { oam: v.oam.update(slot, a), ..v }
}

/// Rewriting the position or the render flag of an occupied slot keeps the invariant.
pub proof fn lemma_slot_update_inv(v: AllocatorView, slot: int, a: ObjAttributes)
    requires
        v.inv(),
        0 <= slot < v.bindings.len(),
        v.bindings[slot] is Some,
        a == (ObjAttributes { x: a.x, y: a.y, render: a.render, ..v.oam[slot] }),
    ensures
        with_slot(v, slot, a).inv(),
{
    let w = with_slot(v, slot, a);
    assert forall|s: int|
        0 <= s < w.bindings.len() && (#[trigger] w.bindings[s]) is Some implies w.binding_ok(s) by {
        assert(v.binding_ok(s));
    }
    assert forall|d: int| 0 <= d < w.stack.len() implies (#[trigger] w.stack[d]).len()
        == SLOT_COUNT by {
        assert(v.stack[d] == w.stack[d]);
    }
}

impl HWSpriteAllocator {
    /// Saves which slots are drawn on the visibility stack, then stops drawing every sprite.
    ///
    /// Useful to show a sprite-based menu without the game's sprites, and to bring them back
    /// afterwards with `show_sprites_pop` without re-creating any of them.
    pub fn hide_sprites_push(&mut self)
        requires
            old(self).wf(),
        ensures
            final(self).wf(),
            final(self)@ == hidden(old(self)@),
    {
        let ghost v0 = self@;
        let mut snapshot: Vec<bool> = Vec::new();
        let mut i: usize = 0;
        while i < SLOT_COUNT
            invariant
                i <= SLOT_COUNT,
                self.oam@.len() == SLOT_COUNT,
                snapshot@.len() == i,
                forall|j: int| 0 <= j < i ==> snapshot@[j] == self.oam@[j].render,
            decreases SLOT_COUNT - i,
        {
            snapshot.push(self.oam[i].render);
            i = i + 1;
        }
        assert(snapshot@ =~= visibility(v0.oam));
        self.visibility_stack.push(snapshot);
        assert(self@.stack =~= v0.stack.push(visibility(v0.oam)));
        let mut i: usize = 0;
        while i < SLOT_COUNT
            invariant
                i <= SLOT_COUNT,
                self@ == (AllocatorView {
                    oam: self@.oam,
                    stack: v0.stack.push(visibility(v0.oam)),
                    ..v0
                }),
                self.oam@.len() == SLOT_COUNT,
                self.bindings@.len() == SLOT_COUNT,
                forall|j: int|
                    0 <= j < SLOT_COUNT ==> self.oam@[j] == (if j < i && v0.bindings[j] is Some {
                        with_render(v0.oam[j], false)
                    } else {
                        v0.oam[j]
                    }),
            decreases SLOT_COUNT - i,
        {
            if self.bindings[i].is_some() {
                let attrs = self.oam[i];
                self.oam.set(i, ObjAttributes { render: false, ..attrs });
            }
            i = i + 1;
        }
        assert(self@.oam =~= hidden(v0).oam);
        assert(self@ == hidden(v0));
        proof {
            let w = hidden(v0);
            assert forall|s: int|
                0 <= s < w.bindings.len() && (#[trigger] w.bindings[s]) is Some implies w.binding_ok(
                s,
            ) by {
                assert(v0.binding_ok(s));
            }
            assert forall|d: int| 0 <= d < w.stack.len() implies (#[trigger] w.stack[d]).len()
                == SLOT_COUNT by {
                if d < v0.stack.len() {
                    assert(w.stack[d] == v0.stack[d]);
                }
            }
        }
    }

    /// Pops the most recent visibility snapshot and sets each slot's render flag back to its
    /// value in that snapshot.
    /// Fails, changing nothing, when `hide_sprites_push` was not called before.
    pub fn show_sprites_pop(&mut self) -> (r: Result<(), HWSpriteAllocError>)
        requires
            old(self).wf(),
        ensures
            final(self).wf(),
            match restored(old(self)@) {
                Ok(w) => r is Ok && final(self)@ == w,
                Err(e) => r == Err::<(), HWSpriteAllocError>(e) && final(self)@ == old(self)@,
            },
    {
        let ghost v0 = self@;
        let snapshot = match self.visibility_stack.pop() {
            Some(snapshot) => snapshot,
            None => {
                return Err(HWSpriteAllocError::EmptyVisibilityStack);
            },
        };
        proof {
            assert(self@.stack =~= v0.stack.drop_last());
            assert(snapshot@ == v0.stack.last());
            assert(v0.stack[v0.stack.len() - 1].len() == SLOT_COUNT);
        }
        let mut i: usize = 0;
        while i < SLOT_COUNT
            invariant
                i <= SLOT_COUNT,
                v0.stack.len() > 0,
                v0.oam.len() == SLOT_COUNT,
                self.bindings@ == v0.bindings,
                snapshot@ == v0.stack.last(),
                snapshot@.len() == SLOT_COUNT,
                self@ == (AllocatorView { oam: self@.oam, stack: v0.stack.drop_last(), ..v0 }),
                self.oam@.len() == SLOT_COUNT,
                self.bindings@.len() == SLOT_COUNT,
                forall|j: int| 0 <= j < i ==> self.oam@[j] == restored_slot(v0, j),
                forall|j: int| i <= j < SLOT_COUNT ==> self.oam@[j] == v0.oam[j],
            decreases SLOT_COUNT - i,
        {
            let visible = snapshot[i];
            let attrs = self.oam[i];
            self.oam.set(i, ObjAttributes { render: visible, ..attrs });
            i = i + 1;
        }
        let ghost w = restored(v0)->Ok_0;
        assert(self@.oam =~= w.oam);
        assert(self@ == w);
        proof {
            assert forall|s: int|
                0 <= s < w.bindings.len() && (#[trigger] w.bindings[s]) is Some implies w.binding_ok(
                s,
            ) by {
                assert(v0.binding_ok(s));
            }
            assert forall|d: int| 0 <= d < w.stack.len() implies (#[trigger] w.stack[d]).len()
                == SLOT_COUNT by {
                assert(w.stack[d] == v0.stack[d]);
            }
        }
        Ok(())
    }

    /// Whether the handle's slot is bound to exactly the sprite the handle records.
    pub fn is_live(&self, handle: &HWSpriteHandle) -> (r: bool)
        requires
            self.wf(),
        ensures
            r == self@.is_live(handle@),
    {
        if handle.oam_slot >= SLOT_COUNT {
            return false;
        }
        match self.bindings[handle.oam_slot] {
            Some(b) => b.starting_block == handle.starting_block && b.data_hash == handle.data_hash
                && b.sprite_size == handle.sprite_size,
            None => false,
        }
    }

    /// The render flag of every attribute slot.
    pub fn visibility(&self) -> (r: Vec<bool>)
        requires
            self.wf(),
        ensures
            r@ == visibility(self@.oam),
    {
        let mut out: Vec<bool> = Vec::new();
        let mut i: usize = 0;
        while i < SLOT_COUNT
            invariant
                i <= SLOT_COUNT,
                self.oam@.len() == SLOT_COUNT,
                out@.len() == i,
                forall|j: int| 0 <= j < i ==> out@[j] == self.oam@[j].render,
            decreases SLOT_COUNT - i,
        {
            out.push(self.oam[i].render);
            i = i + 1;
        }
        assert(out@ =~= visibility(self@.oam));
        out
    }

    /// Which blocks of tile memory are taken, block by block.
    pub fn block_occupancy(&self) -> (r: Vec<bool>)
        requires
            self.wf(),
        ensures
            r@ == occupancy(self@.blocks),
    {
        let mut out: Vec<bool> = Vec::new();
        let mut i: usize = 0;
        while i < BLOCK_COUNT
            invariant
                i <= BLOCK_COUNT,
                self.blocks@.len() == BLOCK_COUNT,
                out@.len() == i,
                forall|j: int| 0 <= j < i ==> out@[j] == !(self.blocks@[j] is Unused),
            decreases BLOCK_COUNT - i,
        {
            out.push(self.blocks[i] != BlockState::Unused);
            i = i + 1;
        }
        assert(out@ =~= occupancy(self@.blocks));
        out
    }

    /// Whether the content cache holds an entry for this hash.
    pub fn is_cached(&self, hash: u64) -> (r: bool)
        ensures
            r == self@.cache.contains_key(hash),
    {
        self.cache.lookup(hash).is_some()
    }

    /// The attribute slot `slot`.
    pub fn slot_attributes(&self, slot: usize) -> (r: ObjAttributes)
        requires
            self.wf(),
            slot < SLOT_COUNT,
        ensures
            r == self@.oam[slot as int],
    {
        self.oam[slot]
    }

    /// `len` words of tile memory from word `start` on.
    pub fn read_tiles(&self, start: usize, len: usize) -> (r: Vec<u32>)
        requires
            self.wf(),
            start + len <= TILE_WORDS,
        ensures
            r@ == self@.tiles.subrange(start as int, start + len),
    {
        let mut out: Vec<u32> = Vec::new();
        let mut i: usize = 0;
        while i < len
            invariant
                i <= len,
                start + len <= TILE_WORDS,
                self.tiles@.len() == TILE_WORDS,
                out@ == self@.tiles.subrange(start as int, start + i),
            decreases len - i,
        {
            out.push(self.tiles[start + i]);
            i = i + 1;
            assert(out@ =~= self@.tiles.subrange(start as int, start + i));
        }
        out
    }

    /// The hardware palette table.
    pub fn palette_ram(&self) -> (r: &Vec<u16>)
        ensures
            r@ == self@.palette_ram,
    {
        &self.palette_ram
    }
}

impl HWSpriteHandle {
    /// First block of the sprite's pixel data in tile memory.
    pub fn starting_block(&self) -> (r: usize)
        ensures
            r == self@.binding.starting_block,
    {
        self.starting_block
    }

    /// Content hash of the sprite's payload.
    pub fn data_hash(&self) -> (r: u64)
        ensures
            r == self@.binding.data_hash,
    {
        self.data_hash
    }

    /// The attribute slot the sprite is bound to.
    pub fn oam_slot(&self) -> (r: usize)
        ensures
            r == self@.oam_slot,
    {
        self.oam_slot
    }

    /// Shows or hides the sprite.
    pub fn set_visibility(&self, sprites: &mut HWSpriteAllocator, visible: bool)
        requires
            old(sprites).wf(),
            old(sprites)@.is_live(self@),
        ensures
            final(sprites).wf(),
            final(sprites)@ == with_slot(
                old(sprites)@,
                self@.oam_slot as int,
                with_render(old(sprites)@.oam[self@.oam_slot as int], visible),
            ),
    {
        let ghost v0 = sprites@;
        let attrs = sprites.oam[self.oam_slot];
        sprites.oam.set(self.oam_slot, ObjAttributes { render: visible, ..attrs });
        proof {
            lemma_slot_update_inv(v0, self.oam_slot as int, sprites@.oam[self.oam_slot as int]);
        }
    }

    /// Whether the sprite is drawn.
    pub fn get_visibility(&self, sprites: &HWSpriteAllocator) -> (r: bool)
        requires
            sprites.wf(),
            sprites@.is_live(self@),
        ensures
            r == sprites@.oam[self@.oam_slot as int].render,
    {
        sprites.oam[self.oam_slot].render
    }

    /// Sets the sprite's X position (9 bits, as the hardware keeps it). The position is not
    /// checked to be on screen.
    pub fn set_x_pos(&self, sprites: &mut HWSpriteAllocator, pos: u16)
        requires
            old(sprites).wf(),
            old(sprites)@.is_live(self@),
        ensures
            final(sprites).wf(),
            final(sprites)@ == with_slot(
                old(sprites)@,
                self@.oam_slot as int,
                ObjAttributes { x: pos & 0x1ff, ..old(sprites)@.oam[self@.oam_slot as int] },
            ),
    {
        let ghost v0 = sprites@;
        let attrs = sprites.oam[self.oam_slot];
        sprites.oam.set(self.oam_slot, ObjAttributes { x: pos & 0x1ff, ..attrs });
        proof {
            lemma_slot_update_inv(v0, self.oam_slot as int, sprites@.oam[self.oam_slot as int]);
        }
    }

    /// Sets the sprite's Y position (8 bits, as the hardware keeps it). The position is not
    /// checked to be on screen.
    pub fn set_y_pos(&self, sprites: &mut HWSpriteAllocator, pos: u16)
        requires
            old(sprites).wf(),
            old(sprites)@.is_live(self@),
        ensures
            final(sprites).wf(),
            final(sprites)@ == with_slot(
                old(sprites)@,
                self@.oam_slot as int,
                ObjAttributes { y: pos & 0xff, ..old(sprites)@.oam[self@.oam_slot as int] },
            ),
    {
        let ghost v0 = sprites@;
        let attrs = sprites.oam[self.oam_slot];
        sprites.oam.set(self.oam_slot, ObjAttributes { y: pos & 0xff, ..attrs });
        proof {
            lemma_slot_update_inv(v0, self.oam_slot as int, sprites@.oam[self.oam_slot as int]);
        }
    }
}

/// The three hardware attribute words of a slot.
///
/// Word 0: row in bits 0-7, "not drawn" in bit 9, 8 bits per pixel in bit 13, shape class in
/// bits 14-15. Word 1: column in bits 0-8, size class in bits 14-15. Word 2: base block in bits
/// 0-9, priority in bits 10-11.
pub open spec fn encode_attrs(a: ObjAttributes) -> (u16, u16, u16) {
    (
        (a.y & 0xff) | (if a.render {
            0u16
        } else {
            0x200u16
        }) | (if a.is_8bpp {
            0x2000u16
        } else {
            0u16
        }) | ((a.shape & 3) << 14u16),
        (a.x & 0x1ff) | ((a.size & 3) << 14u16),
        (a.tile_id & 0x3ff) | ((a.priority & 3) << 10u16),
    )
}

/// The slot `a` with the fields that the three attribute words hold taken from `raw`; the
/// affine transform, which they do not hold, is kept.
pub open spec fn decode_attrs(a: ObjAttributes, raw: (u16, u16, u16)) -> ObjAttributes {
    ObjAttributes {
        y: raw.0 & 0xff,
        render: raw.0 & 0x300 != 0x200,
        is_8bpp: raw.0 & 0x2000 != 0,
        shape: raw.0 >> 14u16,
        x: raw.1 & 0x1ff,
        size: raw.1 >> 14u16,
        tile_id: raw.2 & 0x3ff,
        priority: (raw.2 >> 10u16) & 3,
        affine: a.affine,
    }
}

/// Encoding a slot into its three attribute words and decoding them gives the slot back,
/// when each field fits its bits.
pub proof fn lemma_raw_round_trip(a: ObjAttributes)
    requires
        a.y < 0x100,
        a.x < 0x200,
        a.shape < 4,
        a.size < 4,
        a.tile_id < 0x400,
        a.priority < 4,
    ensures
        decode_attrs(a, encode_attrs(a)) == a,
{
    let (y, x, shape, size, tile, prio) = (a.y, a.x, a.shape, a.size, a.tile_id, a.priority);
    let h: u16 = if a.render { 0 } else { 0x200 };
    let d: u16 = if a.is_8bpp { 0x2000 } else { 0 };
    let w0 = encode_attrs(a).0;
    let w1 = encode_attrs(a).1;
    let w2 = encode_attrs(a).2;
    assert(w0 == (y & 0xff) | h | d | ((shape & 3) << 14u16));
    assert(((y & 0xff) | h | d | ((shape & 3) << 14u16)) & 0xff == y) by (bit_vector)
        requires
            y < 0x100,
            h == 0 || h == 0x200,
            d == 0 || d == 0x2000,
    ;
    assert((((y & 0xff) | h | d | ((shape & 3) << 14u16)) & 0x300 != 0x200) == (h == 0)) by (bit_vector)
        requires
            h == 0 || h == 0x200,
            d == 0 || d == 0x2000,
    ;
    assert((((y & 0xff) | h | d | ((shape & 3) << 14u16)) & 0x2000 != 0) == (d != 0)) by (bit_vector)
        requires
            h == 0 || h == 0x200,
            d == 0 || d == 0x2000,
    ;
    assert(((y & 0xff) | h | d | ((shape & 3) << 14u16)) >> 14u16 == shape) by (bit_vector)
        requires
            shape < 4,
            h == 0 || h == 0x200,
            d == 0 || d == 0x2000,
    ;
    assert(((x & 0x1ff) | ((size & 3) << 14u16)) & 0x1ff == x) by (bit_vector)
        requires
            x < 0x200,
    ;
    assert(((x & 0x1ff) | ((size & 3) << 14u16)) >> 14u16 == size) by (bit_vector)
        requires
            size < 4,
    ;
    assert(((tile & 0x3ff) | ((prio & 3) << 10u16)) & 0x3ff == tile) by (bit_vector)
        requires
            tile < 0x400,
    ;
    assert((((tile & 0x3ff) | ((prio & 3) << 10u16)) >> 10u16) & 3 == prio) by (bit_vector)
        requires
            prio < 4,
    ;
}

impl HWSpriteHandle {
    /// The three hardware attribute words of the sprite's slot.
    pub fn read_raw(&self, sprites: &HWSpriteAllocator) -> (r: (u16, u16, u16))
        requires
            sprites.wf(),
            sprites@.is_live(self@),
        ensures
            r == encode_attrs(sprites@.oam[self@.oam_slot as int]),
    {
        let a = sprites.oam[self.oam_slot];
        let hidden_bit: u16 = if a.render {
            0
        } else {
            0x200
        };
        let depth_bit: u16 = if a.is_8bpp {
            0x2000
        } else {
            0
        };
        (
            (a.y & 0xff) | hidden_bit | depth_bit | ((a.shape & 3) << 14u16),
            (a.x & 0x1ff) | ((a.size & 3) << 14u16),
            (a.tile_id & 0x3ff) | ((a.priority & 3) << 10u16),
        )
    }

    /// Writes the three hardware attribute words of the sprite's slot.
    ///
    /// The shape, size, colour depth, base block and priority that the words hold must be those
    /// the slot was programmed with: only position and visibility may change this way.
    pub fn write_raw(&self, sprites: &mut HWSpriteAllocator, raw: (u16, u16, u16))
        requires
            old(sprites).wf(),
            old(sprites)@.is_live(self@),
            placed(
                decode_attrs(old(sprites)@.oam[self@.oam_slot as int], raw),
                self@.binding.starting_block as int,
                self@.binding.sprite_size,
            ),
        ensures
            final(sprites).wf(),
            final(sprites)@ == with_slot(
                old(sprites)@,
                self@.oam_slot as int,
                decode_attrs(old(sprites)@.oam[self@.oam_slot as int], raw),
            ),
    {
        let ghost v0 = sprites@;
        let a = sprites.oam[self.oam_slot];
        let decoded = ObjAttributes {
            y: raw.0 & 0xff,
            render: raw.0 & 0x300 != 0x200,
            is_8bpp: raw.0 & 0x2000 != 0,
            shape: raw.0 >> 14u16,
            x: raw.1 & 0x1ff,
            size: raw.1 >> 14u16,
            tile_id: raw.2 & 0x3ff,
            priority: (raw.2 >> 10u16) & 3,
            affine: a.affine,
        };
        sprites.oam.set(self.oam_slot, decoded);
        proof {
            assert(v0.binding_ok(self.oam_slot as int));
            lemma_slot_update_inv(v0, self.oam_slot as int, decoded);
        }
    }
}

} // verus!
