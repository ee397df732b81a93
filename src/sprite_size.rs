use vstd::prelude::*;

verus! {

/// Hardware shape class of a square sprite.
pub const SQUARE: u16 = 0;

/// Hardware shape class of a sprite wider than it is tall.
pub const HORIZONTAL: u16 = 1;

/// Hardware shape class of a sprite taller than it is wide.
pub const VERTICAL: u16 = 2;

/// Size in bytes of one block (granule) of tile memory.
pub const BLOCK_BYTES: u32 = 32;

/// The sprite shapes and sizes that the hardware supports, and that can therefore be allocated.
/// Sprites are stored with 8 bits per pixel.
#[derive(Clone, Copy, Debug, PartialEq, Eq, Structural)]
pub enum HWSpriteSize {
    EightByEight,
    SixteenBySixteen,
    ThirtyTwoByThirtyTwo,
    SixtyFourBySixtyFour,
    EightBySixteen,
    EightByThirtyTwo,
    SixteenByEight,
    SixteenByThirtyTwo,
    ThirtyTwoByEight,
    ThirtyTwoBySixteen,
    ThirtyTwoBySixtyFour,
    SixtyFourByThirtyTwo,
}

impl HWSpriteSize {
    /// Width and height in pixels.
    pub open spec fn px(self) -> (u16, u16) {
        match self {
            HWSpriteSize::EightByEight => (8, 8),
            HWSpriteSize::SixteenBySixteen => (16, 16),
            HWSpriteSize::ThirtyTwoByThirtyTwo => (32, 32),
            HWSpriteSize::SixtyFourBySixtyFour => (64, 64),
            HWSpriteSize::EightBySixteen => (8, 16),
            HWSpriteSize::EightByThirtyTwo => (8, 32),
            HWSpriteSize::SixteenByEight => (16, 8),
            HWSpriteSize::SixteenByThirtyTwo => (16, 32),
            HWSpriteSize::ThirtyTwoByEight => (32, 8),
            HWSpriteSize::ThirtyTwoBySixteen => (32, 16),
            HWSpriteSize::ThirtyTwoBySixtyFour => (32, 64),
            HWSpriteSize::SixtyFourByThirtyTwo => (64, 32),
        }
    }

    /// Size of the pixel payload in bytes: one byte per pixel.
    pub open spec fn bytes(self) -> nat {
        (self.px().0 as nat) * (self.px().1 as nat)
    }

    /// Number of tile-memory blocks that the payload occupies.
    pub open spec fn blocks(self) -> nat {
        self.bytes() / (BLOCK_BYTES as nat)
    }

    /// The (size class, shape class) pair written into an attribute slot.
    pub open spec fn size_and_shape(self) -> (u16, u16) {
        match self {
            HWSpriteSize::EightByEight => (0, SQUARE),
            HWSpriteSize::SixteenBySixteen => (1, SQUARE),
            HWSpriteSize::ThirtyTwoByThirtyTwo => (2, SQUARE),
            HWSpriteSize::SixtyFourBySixtyFour => (3, SQUARE),
            HWSpriteSize::EightBySixteen => (0, VERTICAL),
            HWSpriteSize::EightByThirtyTwo => (1, VERTICAL),
            HWSpriteSize::SixteenByEight => (0, HORIZONTAL),
            HWSpriteSize::SixteenByThirtyTwo => (2, VERTICAL),
            HWSpriteSize::ThirtyTwoByEight => (1, HORIZONTAL),
            HWSpriteSize::ThirtyTwoBySixteen => (2, HORIZONTAL),
            HWSpriteSize::ThirtyTwoBySixtyFour => (3, VERTICAL),
            HWSpriteSize::SixtyFourByThirtyTwo => (3, HORIZONTAL),
        }
    }

    /// Every size fills whole blocks: between 2 and 128 of them.
    pub proof fn lemma_block_bounds(self)
        ensures
            self.bytes() == self.blocks() * (BLOCK_BYTES as nat),
            2 <= self.blocks() <= 128,
            self.bytes() <= 4096,
    {
    }

    /// Returns the sprite's size in bytes (8 bits per pixel).
    pub fn to_size_in_bytes(&self) -> (r: u32)
        ensures
            r as nat == self.bytes(),
    {
        match self {
            HWSpriteSize::EightByEight => 64,
            HWSpriteSize::SixteenBySixteen => 256,
            HWSpriteSize::ThirtyTwoByThirtyTwo => 1024,
            HWSpriteSize::SixtyFourBySixtyFour => 4096,
            HWSpriteSize::EightBySixteen => 128,
            HWSpriteSize::EightByThirtyTwo => 256,
            HWSpriteSize::SixteenByEight => 128,
            HWSpriteSize::SixteenByThirtyTwo => 512,
            HWSpriteSize::ThirtyTwoByEight => 256,
            HWSpriteSize::ThirtyTwoBySixteen => 512,
            HWSpriteSize::ThirtyTwoBySixtyFour => 2048,
            HWSpriteSize::SixtyFourByThirtyTwo => 2048,
        }
    }

    /// Returns the number of 32-byte blocks of tile memory needed to hold the sprite.
    pub fn to_num_of_32_byte_blocks(&self) -> (r: usize)
        ensures
            r as nat == self.blocks(),
            2 <= r <= 128,
    {
        proof {
            self.lemma_block_bounds();
        }
        (self.to_size_in_bytes() / BLOCK_BYTES) as usize
    }

    /// Returns the sprite's (size class, shape class) in the form the attribute slots use.
    pub fn to_obj_size_and_shape(&self) -> (r: (u16, u16))
        ensures
            r == self.size_and_shape(),
    {
        match self {
            HWSpriteSize::EightByEight => (0, SQUARE),
            HWSpriteSize::SixteenBySixteen => (1, SQUARE),
            HWSpriteSize::ThirtyTwoByThirtyTwo => (2, SQUARE),
            HWSpriteSize::SixtyFourBySixtyFour => (3, SQUARE),
            HWSpriteSize::EightBySixteen => (0, VERTICAL),
            HWSpriteSize::EightByThirtyTwo => (1, VERTICAL),
            HWSpriteSize::SixteenByEight => (0, HORIZONTAL),
            HWSpriteSize::SixteenByThirtyTwo => (2, VERTICAL),
            HWSpriteSize::ThirtyTwoByEight => (1, HORIZONTAL),
            HWSpriteSize::ThirtyTwoBySixteen => (2, HORIZONTAL),
            HWSpriteSize::ThirtyTwoBySixtyFour => (3, VERTICAL),
            HWSpriteSize::SixtyFourByThirtyTwo => (3, HORIZONTAL),
        }
    }

    /// Returns the size in pixels in the form (width, height).
    pub fn to_size_in_px(&self) -> (r: (u16, u16))
        ensures
            r == self.px(),
    {
        match self {
            HWSpriteSize::EightByEight => (8, 8),
            HWSpriteSize::SixteenBySixteen => (16, 16),
            HWSpriteSize::ThirtyTwoByThirtyTwo => (32, 32),
            HWSpriteSize::SixtyFourBySixtyFour => (64, 64),
            HWSpriteSize::EightBySixteen => (8, 16),
            HWSpriteSize::EightByThirtyTwo => (8, 32),
            HWSpriteSize::SixteenByEight => (16, 8),
            HWSpriteSize::SixteenByThirtyTwo => (16, 32),
            HWSpriteSize::ThirtyTwoByEight => (32, 8),
            HWSpriteSize::ThirtyTwoBySixteen => (32, 16),
            HWSpriteSize::ThirtyTwoBySixtyFour => (32, 64),
            HWSpriteSize::SixtyFourByThirtyTwo => (64, 32),
        }
    }
}

} // verus!
