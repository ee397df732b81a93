use vstd::prelude::*;

verus! {

/// The ways in which a sprite allocator call can fail.
#[derive(Clone, Copy, Debug, PartialEq, Eq, Structural)]
pub enum HWSpriteAllocError {
    /// Every attribute slot is bound to a live sprite.
    OAMFull,
    /// No run of free blocks in tile memory is long enough for the payload.
    VRAMFull,
    /// The payload's length does not match the requested sprite size.
    SizeMismatch,
    /// The named resource could not be found.
    ResourceNotFound,
    /// A restore was asked for without a matching earlier hide.
    EmptyVisibilityStack,
}

impl HWSpriteAllocError {
    /// A sentence that describes the error.
    pub open spec fn describe(self) -> Seq<char> {
        match self {
            HWSpriteAllocError::OAMFull => "Can't create sprite because OAM is full"@,
            HWSpriteAllocError::VRAMFull => "No contiguous free block of VRAM available to allocate hardware sprite"@,
            HWSpriteAllocError::SizeMismatch => "Sprite data does not match the requested sprite size"@,
            HWSpriteAllocError::ResourceNotFound => "Couldn't read sprite file"@,
            HWSpriteAllocError::EmptyVisibilityStack => "No sprite visibility info was saved before the call"@,
        }
    }

    /// A sentence that describes the error.
    pub fn message(&self) -> (r: &'static str)
        ensures
            r@ == self.describe(),
    {
        match self {
            HWSpriteAllocError::OAMFull => "Can't create sprite because OAM is full",
            HWSpriteAllocError::VRAMFull => "No contiguous free block of VRAM available to allocate hardware sprite",
            HWSpriteAllocError::SizeMismatch => "Sprite data does not match the requested sprite size",
            HWSpriteAllocError::ResourceNotFound => "Couldn't read sprite file",
            HWSpriteAllocError::EmptyVisibilityStack => "No sprite visibility info was saved before the call",
        }
    }
}

} // verus!
