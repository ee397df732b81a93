use hw_sprites::components::InventoryError;
use hw_sprites::inventory::InventoryComponent;
use hw_sprites::item::Item;

#[test]
fn insert_and_retrieve() {
    let mut inv = InventoryComponent::new(10);
    assert_eq!(inv.peek(Item::Copper), None);
    assert_eq!(inv.insert(Item::Copper, 4), Ok(()));
    assert_eq!(inv.insert(Item::Copper, 3), Ok(()));
    assert_eq!(inv.insert(Item::Lead, 1), Ok(()));
    assert_eq!(inv.peek(Item::Copper), Some(7));
    assert_eq!(inv.peek(Item::Lead), Some(1));
    assert_eq!(inv.free_space(), 2);
    assert_eq!(inv.retrieve(Item::Copper, 5), Ok(()));
    assert_eq!(inv.peek(Item::Copper), Some(2));
    assert_eq!(inv.free_space(), 7);
}

#[test]
fn insert_beyond_room() {
    let mut inv = InventoryComponent::new(5);
    assert_eq!(inv.insert(Item::Sand, 3), Ok(()));
    assert_eq!(inv.insert(Item::Sand, 4), Err(InventoryError::PartialTransfer(2)));
    assert_eq!(inv.peek(Item::Sand), Some(3));
    assert_eq!(inv.insert(Item::Sand, 2), Ok(()));
    assert_eq!(inv.insert(Item::Coal, 1), Err(InventoryError::Full));
    assert_eq!(inv.free_space(), 0);
}

#[test]
fn retrieve_more_than_held() {
    let mut inv = InventoryComponent::new(5);
    assert_eq!(inv.retrieve(Item::Scrap, 1), Err(InventoryError::InsufficientItems));
    inv.insert(Item::Scrap, 2).unwrap();
    assert_eq!(inv.retrieve(Item::Scrap, 3), Err(InventoryError::InsufficientItems));
    assert_eq!(inv.peek(Item::Scrap), Some(2));
    assert_eq!(inv.retrieve(Item::Scrap, 2), Ok(()));
    assert_eq!(inv.peek(Item::Scrap), Some(0));
}

#[test]
fn whitelist_rejects_other_kinds() {
    let mut inv = InventoryComponent::with_whitelist(8, vec![Item::Coal, Item::Sand]);
    assert!(inv.check_item_accept(Item::Coal, 8));
    assert!(!inv.check_item_accept(Item::Coal, 9));
    assert!(!inv.check_item_accept(Item::Lead, 1));
    assert_eq!(inv.insert(Item::Lead, 1), Err(InventoryError::RejectedItemType));
    assert_eq!(inv.insert(Item::Sand, 1), Ok(()));
    let open = InventoryComponent::new(1);
    assert!(open.check_item_accept(Item::Thorium, 1));
}
