use hw_sprites::allocator::{HWSpriteAllocator, HWSpriteHandle, TILE_WORDS, WORDS_PER_BLOCK};
use hw_sprites::content_cache::{content_hash, le_bytes_to_halfwords, le_bytes_to_words};
use hw_sprites::error::HWSpriteAllocError;
use hw_sprites::slot_table::{AFFINE_ONE, SLOT_COUNT};
use hw_sprites::sprite_size::{HWSpriteSize, HORIZONTAL, SQUARE, VERTICAL};

fn setup() -> HWSpriteAllocator {
    let palette: Vec<u16> = (0..256u32).map(|i| (i * 3) as u16).collect();
    let mut sprites = HWSpriteAllocator::new(&palette);
    sprites.init();
    sprites
}

/// A payload of the right length for `size` whose words all derive from `seed`.
fn payload(size: HWSpriteSize, seed: u32) -> Vec<u32> {
    let words = (size.to_size_in_bytes() / 4) as usize;
    (0..words as u32).map(|i| seed.wrapping_mul(0x9E37_79B9) ^ i).collect()
}

fn used_blocks(sprites: &HWSpriteAllocator) -> usize {
    sprites.block_occupancy().iter().filter(|b| **b).count()
}

#[test]
fn test_sprite_alloc_init() {
    let sprites = setup();
    let expected: Vec<u16> = (0..256u32).map(|i| (i * 3) as u16).collect();
    assert_eq!(sprites.palette_ram(), &expected);
    assert_eq!(used_blocks(&sprites), 0);
    assert!(sprites.visibility().iter().all(|v| !*v));
}

#[test]
fn short_palette_is_padded_with_zeros() {
    let mut sprites = HWSpriteAllocator::new(&[7, 8, 9]);
    assert!(sprites.palette_ram().iter().all(|c| *c == 0));
    sprites.init();
    let pal = sprites.palette_ram();
    assert_eq!(pal.len(), 256);
    assert_eq!(&pal[..4], &[7, 8, 9, 0]);
}

#[test]
fn test_sprite_alloc_fill_oam() {
    let mut sprites = setup();
    let data = payload(HWSpriteSize::SixteenBySixteen, 1);
    for _ in 0..SLOT_COUNT {
        sprites.alloc_sprite(&data, HWSpriteSize::SixteenBySixteen).unwrap();
    }
    // One shared copy of 256 bytes: 8 blocks.
    assert_eq!(used_blocks(&sprites), 8);
}

#[test]
fn test_sprite_alloc_overfill_oam() {
    let mut sprites = setup();
    let data = payload(HWSpriteSize::SixteenBySixteen, 1);
    for _ in 0..SLOT_COUNT {
        sprites.alloc_sprite(&data, HWSpriteSize::SixteenBySixteen).unwrap();
    }
    // A payload that is not resident yet and would fit: the failing call must take no blocks.
    let before = sprites.block_occupancy();
    let other = payload(HWSpriteSize::ThirtyTwoByThirtyTwo, 2);
    let r = sprites.alloc_sprite(&other, HWSpriteSize::ThirtyTwoByThirtyTwo);
    assert_eq!(r.err(), Some(HWSpriteAllocError::OAMFull));
    assert_eq!(sprites.block_occupancy(), before);
    assert!(!sprites.is_cached(content_hash(&other)));
    // The resident payload too.
    let r = sprites.alloc_sprite(&data, HWSpriteSize::SixteenBySixteen);
    assert_eq!(r.err(), Some(HWSpriteAllocError::OAMFull));
    assert_eq!(sprites.block_occupancy(), before);
}

#[test]
fn test_reclaim_oam() {
    let mut sprites = setup();
    let data = payload(HWSpriteSize::EightByEight, 3);
    let mut handles: Vec<HWSpriteHandle> = Vec::new();
    for _ in 0..SLOT_COUNT {
        handles.push(sprites.alloc_sprite(&data, HWSpriteSize::EightByEight).unwrap());
    }
    let h = handles.remove(40);
    assert_eq!(h.oam_slot(), 40);
    sprites.free(h);
    let again = sprites.alloc_sprite(&data, HWSpriteSize::EightByEight).unwrap();
    assert_eq!(again.oam_slot(), 40);
}

#[test]
fn test_exhaust_vram() {
    let mut sprites = setup();
    let size = HWSpriteSize::ThirtyTwoByThirtyTwo;
    assert_eq!(size.to_size_in_bytes(), 1024);
    assert_eq!(size.to_num_of_32_byte_blocks(), 32);
    for k in 0..32u32 {
        let h = sprites.alloc_sprite(&payload(size, 100 + k), size).unwrap();
        assert_eq!(h.starting_block(), (k * 32) as usize);
    }
    assert_eq!(used_blocks(&sprites), 1024);
    let before = sprites.block_occupancy();
    let r = sprites.alloc_sprite(&payload(size, 999), size);
    assert_eq!(r.err(), Some(HWSpriteAllocError::VRAMFull));
    assert_eq!(sprites.block_occupancy(), before);
    // Even the smallest sprite no longer fits.
    let r = sprites.alloc_sprite(&payload(HWSpriteSize::EightByEight, 5), HWSpriteSize::EightByEight);
    assert_eq!(r.err(), Some(HWSpriteAllocError::VRAMFull));
}

#[test]
fn test_reclaim_vram() {
    let mut sprites = setup();
    let size = HWSpriteSize::ThirtyTwoByThirtyTwo;
    let mut handles: Vec<HWSpriteHandle> = Vec::new();
    for k in 0..32u32 {
        handles.push(sprites.alloc_sprite(&payload(size, 100 + k), size).unwrap());
    }
    let h = handles.remove(5);
    let hash = h.data_hash();
    sprites.free(h);
    assert!(!sprites.is_cached(hash));
    assert_eq!(used_blocks(&sprites), 1024 - 32);
    let fresh = sprites.alloc_sprite(&payload(size, 777), size).unwrap();
    assert_eq!(fresh.starting_block(), 5 * 32);
    assert_eq!(used_blocks(&sprites), 1024);
}

#[test]
fn identical_payloads_share_blocks() {
    let mut sprites = setup();
    let data = payload(HWSpriteSize::SixteenByThirtyTwo, 9);
    let a = sprites.alloc_sprite(&data, HWSpriteSize::SixteenByThirtyTwo).unwrap();
    let after_first = sprites.block_occupancy();
    let b = sprites.alloc_sprite(&data, HWSpriteSize::SixteenByThirtyTwo).unwrap();
    assert_eq!(a.starting_block(), b.starting_block());
    assert_eq!(a.data_hash(), b.data_hash());
    assert_ne!(a.oam_slot(), b.oam_slot());
    assert_eq!(sprites.block_occupancy(), after_first);
    assert_eq!(used_blocks(&sprites), 16);
}

#[test]
fn freeing_one_sharer_keeps_the_other() {
    let mut sprites = setup();
    let data = payload(HWSpriteSize::SixteenBySixteen, 11);
    let a = sprites.alloc_sprite(&data, HWSpriteSize::SixteenBySixteen).unwrap();
    let b = sprites.alloc_sprite(&data, HWSpriteSize::SixteenBySixteen).unwrap();
    b.set_visibility(&mut sprites, true);
    let slot_before = sprites.slot_attributes(b.oam_slot());
    let start = b.starting_block() * WORDS_PER_BLOCK;
    sprites.free(a);
    assert!(sprites.is_live(&b));
    assert!(sprites.is_cached(b.data_hash()));
    assert_eq!(sprites.slot_attributes(b.oam_slot()), slot_before);
    assert_eq!(sprites.read_tiles(start, data.len()), data);
    assert_eq!(used_blocks(&sprites), 8);
    sprites.free(b);
    assert!(!sprites.is_cached(content_hash(&data)));
    assert_eq!(used_blocks(&sprites), 0);
}

#[test]
fn distinct_payloads_use_disjoint_blocks() {
    let mut sprites = setup();
    let sizes = [
        HWSpriteSize::EightByEight,
        HWSpriteSize::SixtyFourBySixtyFour,
        HWSpriteSize::ThirtyTwoBySixteen,
        HWSpriteSize::EightBySixteen,
        HWSpriteSize::SixtyFourByThirtyTwo,
    ];
    let mut runs: Vec<(usize, usize)> = Vec::new();
    for (k, size) in sizes.iter().enumerate() {
        let h = sprites.alloc_sprite(&payload(*size, k as u32 + 20), *size).unwrap();
        runs.push((h.starting_block(), h.starting_block() + size.to_num_of_32_byte_blocks()));
    }
    for i in 0..runs.len() {
        for j in 0..runs.len() {
            if i != j {
                assert!(runs[i].1 <= runs[j].0 || runs[j].1 <= runs[i].0);
            }
        }
    }
}

#[test]
fn first_fit_reuses_the_lowest_hole() {
    let mut sprites = setup();
    let small = HWSpriteSize::EightByEight; // 2 blocks
    let a = sprites.alloc_sprite(&payload(small, 1), small).unwrap();
    let b = sprites.alloc_sprite(&payload(small, 2), small).unwrap();
    assert_eq!((a.starting_block(), b.starting_block()), (0, 2));
    sprites.free(a);
    let big = HWSpriteSize::SixteenBySixteen; // 8 blocks: does not fit in the hole
    let c = sprites.alloc_sprite(&payload(big, 3), big).unwrap();
    assert_eq!(c.starting_block(), 4);
    let d = sprites.alloc_sprite(&payload(small, 4), small).unwrap();
    assert_eq!(d.starting_block(), 0);
}

#[test]
fn payload_lands_in_tile_memory() {
    let mut sprites = setup();
    let size = HWSpriteSize::EightBySixteen;
    let filler = sprites.alloc_sprite(&payload(size, 50), size).unwrap();
    let data = payload(size, 51);
    let h = sprites.alloc_sprite(&data, size).unwrap();
    assert_eq!(filler.starting_block(), 0);
    assert_eq!(h.starting_block(), 4);
    assert_eq!(sprites.read_tiles(4 * WORDS_PER_BLOCK, data.len()), data);
    assert!(sprites.read_tiles(8 * WORDS_PER_BLOCK, 8).iter().all(|w| *w == 0));
    assert_eq!(sprites.read_tiles(0, TILE_WORDS).len(), TILE_WORDS);
}

#[test]
fn slot_is_programmed_for_the_sprite() {
    let mut sprites = setup();
    let size = HWSpriteSize::ThirtyTwoBySixtyFour;
    let _first = sprites.alloc_sprite(&payload(HWSpriteSize::EightByEight, 60), HWSpriteSize::EightByEight).unwrap();
    let h = sprites.alloc_sprite(&payload(size, 61), size).unwrap();
    assert_eq!(h.oam_slot(), 1);
    let a = sprites.slot_attributes(h.oam_slot());
    assert_eq!((a.size, a.shape), (3, VERTICAL));
    assert_eq!(a.tile_id, 2);
    assert!(a.is_8bpp);
    assert!(!a.render);
    assert_eq!(a.priority, 1);
    assert_eq!((a.affine.pa, a.affine.pb, a.affine.pc, a.affine.pd), (AFFINE_ONE, 0, 0, AFFINE_ONE));
    assert_eq!((a.x, a.y), (0, 0));
}

#[test]
fn handle_moves_and_shows_its_sprite() {
    let mut sprites = setup();
    let size = HWSpriteSize::SixteenByEight;
    let h = sprites.alloc_sprite(&payload(size, 70), size).unwrap();
    assert!(!h.get_visibility(&sprites));
    h.set_visibility(&mut sprites, true);
    assert!(h.get_visibility(&sprites));
    h.set_x_pos(&mut sprites, 120);
    h.set_y_pos(&mut sprites, 33);
    let a = sprites.slot_attributes(h.oam_slot());
    assert_eq!((a.x, a.y), (120, 33));
    assert_eq!(h.sprite_size, size);
    sprites.free(h);
    assert!(!sprites.slot_attributes(0).render);
}

#[test]
fn hide_then_restore_keeps_visibility() {
    let mut sprites = setup();
    let size = HWSpriteSize::EightByEight;
    let mut handles: Vec<HWSpriteHandle> = Vec::new();
    for k in 0..6u32 {
        handles.push(sprites.alloc_sprite(&payload(size, k), size).unwrap());
    }
    handles[0].set_visibility(&mut sprites, true);
    handles[3].set_visibility(&mut sprites, true);
    handles[4].set_visibility(&mut sprites, true);
    let before = sprites.visibility();
    let attrs_before: Vec<_> = (0..SLOT_COUNT).map(|s| sprites.slot_attributes(s)).collect();
    sprites.hide_sprites_push();
    assert!(sprites.visibility().iter().all(|v| !*v));
    assert_eq!(sprites.show_sprites_pop(), Ok(()));
    assert_eq!(sprites.visibility(), before);
    let attrs_after: Vec<_> = (0..SLOT_COUNT).map(|s| sprites.slot_attributes(s)).collect();
    assert_eq!(attrs_after, attrs_before);
    // The snapshot was popped.
    assert_eq!(sprites.show_sprites_pop(), Err(HWSpriteAllocError::EmptyVisibilityStack));
}

#[test]
fn nested_hides_restore_in_order() {
    let mut sprites = setup();
    let size = HWSpriteSize::EightByEight;
    let a = sprites.alloc_sprite(&payload(size, 1), size).unwrap();
    a.set_visibility(&mut sprites, true);
    sprites.hide_sprites_push();
    let menu = sprites.alloc_sprite(&payload(size, 2), size).unwrap();
    menu.set_visibility(&mut sprites, true);
    sprites.hide_sprites_push();
    assert!(!a.get_visibility(&sprites) && !menu.get_visibility(&sprites));
    sprites.show_sprites_pop().unwrap();
    assert!(!a.get_visibility(&sprites) && menu.get_visibility(&sprites));
    sprites.free(menu);
    sprites.show_sprites_pop().unwrap();
    assert!(a.get_visibility(&sprites));
    assert!(!sprites.slot_attributes(1).render);
}

#[test]
fn restore_without_hide_fails() {
    let mut sprites = setup();
    let size = HWSpriteSize::EightByEight;
    let h = sprites.alloc_sprite(&payload(size, 1), size).unwrap();
    h.set_visibility(&mut sprites, true);
    let before: Vec<_> = (0..SLOT_COUNT).map(|s| sprites.slot_attributes(s)).collect();
    assert_eq!(sprites.show_sprites_pop(), Err(HWSpriteAllocError::EmptyVisibilityStack));
    let after: Vec<_> = (0..SLOT_COUNT).map(|s| sprites.slot_attributes(s)).collect();
    assert_eq!(after, before);
}

#[test]
fn wrong_payload_length_is_rejected() {
    let mut sprites = setup();
    let data = payload(HWSpriteSize::SixteenBySixteen, 1);
    let r = sprites.alloc_sprite(&data, HWSpriteSize::ThirtyTwoByThirtyTwo);
    assert_eq!(r.err(), Some(HWSpriteAllocError::SizeMismatch));
    let r = sprites.alloc_sprite(&[], HWSpriteSize::EightByEight);
    assert_eq!(r.err(), Some(HWSpriteAllocError::SizeMismatch));
    assert_eq!(used_blocks(&sprites), 0);
}

#[test]
fn missing_resource_is_reported() {
    let mut sprites = setup();
    let r = sprites.alloc_from_fs_file(None, HWSpriteSize::EightByEight);
    assert_eq!(r.err(), Some(HWSpriteAllocError::ResourceNotFound));
    let data = payload(HWSpriteSize::EightByEight, 4);
    let h = sprites.alloc_from_fs_file(Some(&data), HWSpriteSize::EightByEight).unwrap();
    assert_eq!(h.data_hash(), content_hash(&data));
}

#[test]
fn alloc_with_hash_uses_the_given_hash() {
    let mut sprites = setup();
    let size = HWSpriteSize::EightByEight;
    let a = sprites.alloc_with_hash(&payload(size, 1), 42, size).unwrap();
    let b = sprites.alloc_with_hash(&payload(size, 2), 42, size).unwrap();
    assert_eq!(a.data_hash(), 42);
    assert_eq!(a.starting_block(), b.starting_block());
    let c = sprites.alloc_with_hash(&payload(size, 1), 43, size).unwrap();
    assert_eq!(c.starting_block(), 2);
}

#[test]
fn content_hash_is_xxhash64_of_little_endian_bytes() {
    // xxHash64 of no input with seed 0.
    assert_eq!(content_hash(&[]), 0xEF46_DB37_51D8_E999);
    assert_ne!(content_hash(&[0]), content_hash(&[]));
    assert_ne!(content_hash(&[1, 2]), content_hash(&[2, 1]));
    assert_eq!(content_hash(&[0x0403_0201]), content_hash(&[0x0403_0201]));
}

#[test]
fn words_become_little_endian_bytes() {
    let bytes = hw_sprites::content_cache::words_to_le_bytes(&[0x0403_0201, 0xDDCC_BBAA]);
    assert_eq!(bytes, vec![1, 2, 3, 4, 0xAA, 0xBB, 0xCC, 0xDD]);
}

#[test]
fn sprite_sizes() {
    let all = [
        (HWSpriteSize::EightByEight, 64, (8, 8), (0, SQUARE)),
        (HWSpriteSize::SixteenBySixteen, 256, (16, 16), (1, SQUARE)),
        (HWSpriteSize::ThirtyTwoByThirtyTwo, 1024, (32, 32), (2, SQUARE)),
        (HWSpriteSize::SixtyFourBySixtyFour, 4096, (64, 64), (3, SQUARE)),
        (HWSpriteSize::EightBySixteen, 128, (8, 16), (0, VERTICAL)),
        (HWSpriteSize::EightByThirtyTwo, 256, (8, 32), (1, VERTICAL)),
        (HWSpriteSize::SixteenByEight, 128, (16, 8), (0, HORIZONTAL)),
        (HWSpriteSize::SixteenByThirtyTwo, 512, (16, 32), (2, VERTICAL)),
        (HWSpriteSize::ThirtyTwoByEight, 256, (32, 8), (1, HORIZONTAL)),
        (HWSpriteSize::ThirtyTwoBySixteen, 512, (32, 16), (2, HORIZONTAL)),
        (HWSpriteSize::ThirtyTwoBySixtyFour, 2048, (32, 64), (3, VERTICAL)),
        (HWSpriteSize::SixtyFourByThirtyTwo, 2048, (64, 32), (3, HORIZONTAL)),
    ];
    for (size, bytes, px, code) in all.iter() {
        assert_eq!(size.to_size_in_bytes(), *bytes);
        assert_eq!(size.to_num_of_32_byte_blocks(), (*bytes / 32) as usize);
        assert_eq!(size.to_size_in_px(), *px);
        assert_eq!(size.to_obj_size_and_shape(), *code);
    }
}

#[test]
fn raw_attribute_words() {
    let mut sprites = setup();
    let size = HWSpriteSize::ThirtyTwoByThirtyTwo;
    let h = sprites.alloc_sprite(&payload(size, 80), size).unwrap();
    // Not drawn, 8 bits per pixel, square; size class 2; base block 0, priority 1.
    assert_eq!(h.read_raw(&sprites), (0x2200, 0x8000, 0x0400));
    h.set_x_pos(&mut sprites, 0x1ff + 1 + 7);
    h.set_y_pos(&mut sprites, 300);
    h.set_visibility(&mut sprites, true);
    assert_eq!(h.read_raw(&sprites), (0x2000 | 44, 0x8000 | 7, 0x0400));
    h.write_raw(&mut sprites, (0x2200 | 10, 0x8000 | 20, 0x0400));
    let a = sprites.slot_attributes(h.oam_slot());
    assert_eq!((a.x, a.y, a.render), (20, 10, false));
    assert!(!h.get_visibility(&sprites));
}

#[test]
fn error_messages() {
    assert_eq!(HWSpriteAllocError::OAMFull.message(), "Can't create sprite because OAM is full");
    assert_eq!(
        HWSpriteAllocError::EmptyVisibilityStack.message(),
        "No sprite visibility info was saved before the call"
    );
}

#[test]
fn resource_bytes_decode() {
    assert_eq!(le_bytes_to_words(&[1, 2, 3, 4, 0xff, 0, 0, 0x80]), Some(vec![0x0403_0201, 0x8000_00ff]));
    assert_eq!(le_bytes_to_words(&[1, 2, 3]), None);
    assert_eq!(le_bytes_to_halfwords(&[0x34, 0x12, 0xff, 0x7f]), Some(vec![0x1234, 0x7fff]));
    assert_eq!(le_bytes_to_halfwords(&[1]), None);
}

#[test]
fn restore_sets_each_flag_to_its_snapshot() {
    let mut sprites = setup();
    let size = HWSpriteSize::EightByEight;
    let a = sprites.alloc_sprite(&payload(size, 1), size).unwrap();
    let b = sprites.alloc_sprite(&payload(size, 2), size).unwrap();
    a.set_visibility(&mut sprites, true);
    let slot_a = a.oam_slot();
    sprites.hide_sprites_push();
    sprites.free(a);
    assert!(!sprites.slot_attributes(slot_a).render);
    b.set_visibility(&mut sprites, true);
    assert_eq!(sprites.show_sprites_pop(), Ok(()));
    // Slot a drew when the snapshot was taken; slot b did not.
    assert!(sprites.slot_attributes(slot_a).render);
    assert!(!b.get_visibility(&sprites));
}

#[test]
fn hash_hit_with_other_length_is_rejected() {
    let mut sprites = setup();
    let a = sprites.alloc_with_hash(&payload(HWSpriteSize::EightByEight, 1), 9, HWSpriteSize::EightByEight).unwrap();
    let before = sprites.block_occupancy();
    let r = sprites.alloc_with_hash(&payload(HWSpriteSize::SixteenBySixteen, 2), 9, HWSpriteSize::SixteenBySixteen);
    assert_eq!(r.err(), Some(HWSpriteAllocError::SizeMismatch));
    assert_eq!(sprites.block_occupancy(), before);
    // Same hash and the same length in blocks: shared.
    let b = sprites.alloc_with_hash(&payload(HWSpriteSize::EightByEight, 3), 9, HWSpriteSize::EightByEight).unwrap();
    assert_eq!(a.starting_block(), b.starting_block());
    assert_eq!(b.oam_slot(), 1);
}
