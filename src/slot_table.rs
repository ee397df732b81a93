use crate::sprite_size::HWSpriteSize;
use vstd::prelude::*;

verus! {

/// Number of hardware attribute slots.
pub const SLOT_COUNT: usize = 128;

/// The fixed-point value 1.0 in an affine matrix entry (8 fractional bits).
pub const AFFINE_ONE: i16 = 256;

/// The 2x2 affine transform of an attribute slot, as signed 8.8 fixed-point values.
#[derive(Clone, Copy, Debug, PartialEq, Eq, Structural)]
pub struct AffineParameters {
    pub pa: i16,
    pub pb: i16,
    pub pc: i16,
    pub pd: i16,
}

/// The fields of one hardware attribute slot.
#[derive(Clone, Copy, Debug, PartialEq, Eq, Structural)]
pub struct ObjAttributes {
    /// Row (Y coordinate).
    pub y: u16,
    /// Column (X coordinate).
    pub x: u16,
    /// Shape class (square, horizontal, vertical).
    pub shape: u16,
    /// Size class.
    pub size: u16,
    /// 8 bits per pixel rather than 4.
    pub is_8bpp: bool,
    /// Base block of the pixel data in tile memory.
    pub tile_id: u16,
    /// Drawing priority.
    pub priority: u16,
    /// Whether the hardware draws this slot.
    pub render: bool,
    /// The slot's affine transform.
    pub affine: AffineParameters,
}

/// What the allocator records of the sprite bound to an occupied slot.
#[derive(Clone, Copy, Debug, PartialEq, Eq, Structural)]
pub struct SlotBinding {
    pub starting_block: usize,
    pub data_hash: u64,
    pub sprite_size: HWSpriteSize,
}

/// The identity transform.
pub open spec fn identity_affine() -> AffineParameters {
    AffineParameters { pa: AFFINE_ONE, pb: 0, pc: 0, pd: AFFINE_ONE }
}

/// A slot as it is at power-on: nothing drawn.
pub open spec fn blank_attributes() -> ObjAttributes {
    ObjAttributes {
        y: 0,
        x: 0,
        shape: 0,
        size: 0,
        is_8bpp: false,
        tile_id: 0,
        priority: 0,
        render: false,
        affine: identity_affine(),
    }
}

/// A slot freshly programmed for a sprite of the given size whose pixels start at `start`:
/// identity transform, not drawn, at the origin.
pub open spec fn programmed(start: int, size: HWSpriteSize) -> ObjAttributes {
    ObjAttributes {
        y: 0,
        x: 0,
        shape: size.size_and_shape().1,
        size: size.size_and_shape().0,
        is_8bpp: true,
        tile_id: start as u16,
        priority: 1,
        render: false,
        affine: identity_affine(),
    }
}

/// The same slot with its render flag set to `render`.
pub open spec fn with_render(a: ObjAttributes, render: bool) -> ObjAttributes {
    ObjAttributes { render, ..a }
}

/// The slot entry binds a sprite whose pixels start at block `head`.
pub open spec fn refers(e: Option<SlotBinding>, head: int) -> bool {
    e is Some && e->0.starting_block == head
}

/// Number of slots bound to sprites whose pixels start at block `head`.
pub open spec fn ref_count(bindings: Seq<Option<SlotBinding>>, head: int) -> nat
    decreases bindings.len(),
{
    if bindings.len() == 0 {
        0
    } else {
        ref_count(bindings.drop_last(), head) + (if refers(bindings.last(), head) {
            1nat
        } else {
            0nat
        })
    }
}

/// `s` is the lowest unoccupied slot.
pub open spec fn is_first_free_slot(bindings: Seq<Option<SlotBinding>>, s: int) -> bool {
    &&& 0 <= s < bindings.len()
    &&& bindings[s] is None
    &&& forall|t: int| 0 <= t < s ==> bindings[t] is Some
}

/// Every slot is occupied.
pub open spec fn slots_full(bindings: Seq<Option<SlotBinding>>) -> bool {
    forall|s: int| 0 <= s < bindings.len() ==> bindings[s] is Some
}

/// The lowest unoccupied slot.
pub open spec fn first_free_slot(bindings: Seq<Option<SlotBinding>>) -> int {
    choose|s: int| is_first_free_slot(bindings, s)
}

pub proof fn lemma_first_free_slot(bindings: Seq<Option<SlotBinding>>, s: int)
    requires
        is_first_free_slot(bindings, s),
    ensures
        first_free_slot(bindings) == s,
{
    let c = first_free_slot(bindings);
    assert(is_first_free_slot(bindings, c));
    if c < s {
        assert(bindings[c] is Some);
    } else if s < c {
        assert(bindings[s] is Some);
    }
}

/// Where some slot is free, a lowest free slot exists too.
pub proof fn lemma_first_free_slot_exists(bindings: Seq<Option<SlotBinding>>, s: int)
    requires
        0 <= s < bindings.len(),
        bindings[s] is None,
    ensures
        is_first_free_slot(bindings, first_free_slot(bindings)),
    decreases s,
{
    if exists|t: int| 0 <= t < s && bindings[t] is None {
        let t = choose|t: int| 0 <= t < s && bindings[t] is None;
        lemma_first_free_slot_exists(bindings, t);
    } else {
        assert(is_first_free_slot(bindings, s));
    }
}

pub proof fn lemma_ref_count_bound(bindings: Seq<Option<SlotBinding>>, head: int)
    ensures
        ref_count(bindings, head) <= bindings.len(),
    decreases bindings.len(),
{
    if bindings.len() > 0 {
        lemma_ref_count_bound(bindings.drop_last(), head);
    }
}

pub proof fn lemma_ref_count_zero(bindings: Seq<Option<SlotBinding>>, head: int)
    ensures
        ref_count(bindings, head) == 0 <==> forall|i: int|
            0 <= i < bindings.len() ==> !refers(#[trigger] bindings[i], head),
    decreases bindings.len(),
{
    if bindings.len() > 0 {
        let init = bindings.drop_last();
        lemma_ref_count_zero(init, head);
        if ref_count(bindings, head) == 0 {
            assert forall|i: int| 0 <= i < bindings.len() implies !refers(
                #[trigger] bindings[i],
                head,
            ) by {
                if i < bindings.len() - 1 {
                    assert(bindings[i] == init[i]);
                }
            }
        } else {
            if !refers(bindings.last(), head) {
                assert(ref_count(init, head) != 0);
                let i = choose|i: int| 0 <= i < init.len() && refers(#[trigger] init[i], head);
                assert(bindings[i] == init[i]);
            }
        }
    }
}

pub proof fn lemma_ref_count_update(
    bindings: Seq<Option<SlotBinding>>,
    i: int,
    e: Option<SlotBinding>,
    head: int,
)
    requires
        0 <= i < bindings.len(),
    ensures
        ref_count(bindings.update(i, e), head) + (if refers(bindings[i], head) {
            1nat
        } else {
            0nat
        }) == ref_count(bindings, head) + (if refers(e, head) {
            1nat
        } else {
            0nat
        }),
    decreases bindings.len(),
{
    let u = bindings.update(i, e);
    if i == bindings.len() - 1 {
        assert(u.drop_last() =~= bindings.drop_last());
    } else {
        assert(u.drop_last() =~= bindings.drop_last().update(i, e));
        lemma_ref_count_update(bindings.drop_last(), i, e, head);
    }
}

} // verus!
