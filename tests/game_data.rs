use hw_sprites::background::{coords_from_top_left_for_all_screen_corners, coords_to_backing_tilemap_indices};
use hw_sprites::components::{InputComponent, InventoryError, InventoryPartialTransfer, ItemSourceComponent};
use hw_sprites::debug_log::Subsystems;
use hw_sprites::entities::MechanicalDrill;
use hw_sprites::item::Item;
use hw_sprites::maps::{MapChunk, MapEntry, Maps};
use hw_sprites::wave::{from_file, WaveError, SAMPLE_RATE};

#[test]
fn item_sprite_names() {
    assert_eq!(Item::Scrap.to_sprite_name(), "item_scrapTiles");
    assert_eq!(Item::Copper.to_sprite_name(), "item_copperTiles");
    assert_eq!(Item::BlastCompound.to_sprite_name(), "item_blast_compoundTiles");
    assert_eq!(Item::SporePod.to_sprite_name(), "item_spore_podTiles");
    assert_eq!(Item::Titanium.to_sprite_name(), "item_titaniumTiles");
}

#[test]
fn item_display_names() {
    assert_eq!(Item::PhaseFabric.to_display_name(), "Phase Fabric");
    assert_eq!(Item::Lead.to_display_name(), "Lead");
    assert_eq!(Item::SurgeAlloy.to_display_name(), "Surge Alloy");
}

#[test]
fn subsystem_tags() {
    assert_eq!(Subsystems::HWSprite.to_str(), "HW SPRITE");
    assert_eq!(Subsystems::InventorySystem.to_str(), "INVENTORY SYSTEM");
    assert_eq!(Subsystems::WorldMap.to_str(), "MAP");
    assert_eq!(Subsystems::Game.to_str(), "GAME");
}

#[test]
fn fresh_components() {
    let input = InputComponent::new();
    assert!(!input.left_pressed && !input.right_pressed && !input.up_pressed && !input.down_pressed);
    let source = ItemSourceComponent::new(Item::Coal, [Some(3), None, Some(9), None]);
    assert_eq!(source.targets, [Some(3), None, Some(9), None]);
    assert_eq!(source.dump_item, Item::Coal);
    assert!(!source.dump_enabled && !source.did_transfer);
    let drill = MechanicalDrill::new(17);
    assert_eq!(drill.target_inventory_entity_id(), 17);
    assert_eq!(InventoryPartialTransfer::new(5).accepted(), 5);
    assert_ne!(InventoryError::PartialTransfer(2), InventoryError::Full);
}

fn entry(name: &str, chunks: &[&str]) -> MapEntry {
    MapEntry {
        name: name.to_string(),
        height: 64,
        width: 96,
        chunks: chunks.iter().map(|c| MapChunk { filename: c.to_string() }).collect(),
    }
}

#[test]
fn map_lookup_by_name() {
    let maps = Maps { maps: vec![entry("desert", &["d0"]), entry("ice", &["i0", "i1"]), entry("ice", &["x"])] };
    let ice = maps.get_by_name("ice").unwrap();
    assert_eq!(ice.name, "ice");
    assert_eq!(ice.chunks.len(), 2);
    assert_eq!(ice.chunks[1].filename, "i1");
    assert_eq!(ice.size_in_chunks(), (3, 2));
    assert!(maps.get_by_name("lava").is_none());
    assert!(Maps { maps: vec![] }.get_by_name("ice").is_none());
}

#[test]
fn backing_tilemap_indices() {
    assert_eq!(coords_to_backing_tilemap_indices(0, 0), (0, 0));
    assert_eq!(coords_to_backing_tilemap_indices(255, 256), (0, 1));
    assert_eq!(coords_to_backing_tilemap_indices(600, 513), (2, 2));
}

#[test]
fn screen_corners() {
    assert_eq!(
        coords_from_top_left_for_all_screen_corners(10, 20),
        ((250, 20), (250, 180), (10, 180))
    );
}

fn wave_header(format: u16, chans: u16, rate: u32, bits: u16) -> Vec<u8> {
    let mut h = vec![0u8; 44];
    h[20..22].copy_from_slice(&format.to_le_bytes());
    h[22..24].copy_from_slice(&chans.to_le_bytes());
    h[24..28].copy_from_slice(&rate.to_le_bytes());
    h[34..36].copy_from_slice(&bits.to_le_bytes());
    h
}

#[test]
fn wave_samples_follow_the_header() {
    let mut data = wave_header(1, 1, SAMPLE_RATE, 8);
    data.extend_from_slice(&[0, 1, 0x7f, 0x80, 0xff]);
    assert_eq!(from_file(&data), Ok(vec![0i8, 1, 127, -128, -1]));
    assert_eq!(from_file(&wave_header(1, 1, SAMPLE_RATE, 8)), Ok(vec![]));
}

#[test]
fn wave_errors() {
    assert_eq!(from_file(&[0u8; 43]), Err(WaveError::Truncated));
    assert_eq!(from_file(&wave_header(3, 1, SAMPLE_RATE, 8)), Err(WaveError::UnsupportedSampleType));
    assert_eq!(from_file(&wave_header(1, 2, SAMPLE_RATE, 8)), Err(WaveError::TooManyChannels));
    assert_eq!(from_file(&wave_header(1, 1, 44100, 8)), Err(WaveError::UnsupportedSampleRate(44100)));
    assert_eq!(from_file(&wave_header(1, 1, SAMPLE_RATE, 16)), Err(WaveError::UnsupportedSampleType));
}
