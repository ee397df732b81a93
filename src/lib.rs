//! Hardware sprite resources of a console with a fixed pool of tile memory and a fixed table
//! of sprite attribute slots: a first-fit block allocator with content deduplication,
//! attribute slot assignment, and a save/restore stack for sprite visibility.
//!
//! The allocator owns a model of the hardware it manages (tile memory, the attribute slots
//! and the palette table). Its operations are specified by spec functions over an abstract
//! view (`allocator::alloc_model`, `allocator::free_model`, `allocator::hidden`,
//! `allocator::restored`), and the properties that relate them are proved in `laws`.
//!
//! Beside it stand the game data the sprites serve: items, inventories, components, map
//! descriptions and wave audio headers.
pub mod allocator;
pub mod background;
pub mod block_arena;
pub mod components;
pub mod content_cache;
pub mod debug_log;
pub mod entities;
pub mod error;
pub mod inventory;
pub mod item;
pub mod laws;
pub mod maps;
pub mod slot_table;
pub mod sprite_size;
pub mod wave;

pub use allocator::{HWSpriteAllocator, HWSpriteHandle};
pub use error::HWSpriteAllocError;
pub use sprite_size::HWSpriteSize;
