//! Texture pixel formats as the archive's texture descriptors name them.

use vstd::prelude::*;

verus! {

/// A linear (row-major) colour layout.
#[derive(Debug, Clone, Copy, PartialEq, Eq, Structural)]
pub enum LinearColour {
    R8G8B8A8,
    A8R8G8B8,
}

/// A swizzled colour layout.
#[derive(Debug, Clone, Copy, PartialEq, Eq, Structural)]
pub enum Swizzled {
    B8G8R8A8,
    A8B8G8R8,
    A8R8G8B8,
    R8G8B8A8,
}

/// A block-compressed format.
#[derive(Debug, Clone, Copy, PartialEq, Eq, Structural)]
pub enum StandardFormat {
    DXT1,
    DXT2Or3,
    DXT4Or5,
}

/// A pixel format a texture descriptor can carry.
#[derive(Debug, Clone, Copy, PartialEq, Eq, Structural)]
pub enum D3DFormat {
    Linear(LinearColour),
    Swizzled(Swizzled),
    Standard(StandardFormat),
}

impl D3DFormat {
    /// Bits each pixel occupies in this format.
    pub open spec fn spec_bits_per_pixel(self) -> nat {
        match self {
            D3DFormat::Standard(StandardFormat::DXT1) => 4,
            D3DFormat::Standard(_) => 8,
            _ => 32,
        }
    }

    /// Bits each pixel occupies in this format.
    pub fn bits_per_pixel(self) -> (r: usize)
        ensures
            r == self.spec_bits_per_pixel(),
    {
        match self {
            D3DFormat::Standard(StandardFormat::DXT1) => 4,
            D3DFormat::Standard(_) => 8,
            _ => 32,
        }
    }

    /// The numeric code a format is stored as; formats the archive does not
    /// name fall back to the code of the linear 32-bit layout.
    pub open spec fn spec_code(self) -> u32 {
        match self {
            D3DFormat::Swizzled(Swizzled::B8G8R8A8) => 0x12,
            D3DFormat::Swizzled(Swizzled::A8B8G8R8) => 0x3f,
            D3DFormat::Standard(StandardFormat::DXT1) => 0x0c,
            D3DFormat::Standard(StandardFormat::DXT2Or3) => 0x0e,
            D3DFormat::Standard(StandardFormat::DXT4Or5) => 0x0f,
            _ => 0x40,
        }
    }

    /// The format a stored code decodes to; unrecognized codes fall back to
    /// the linear 32-bit layout.
    pub open spec fn spec_from_code(c: u32) -> D3DFormat {
        if c == 0x12 {
            D3DFormat::Swizzled(Swizzled::B8G8R8A8)
        } else if c == 0x3f {
            D3DFormat::Swizzled(Swizzled::A8B8G8R8)
        } else if c == 0x0c {
            D3DFormat::Standard(StandardFormat::DXT1)
        } else if c == 0x0e {
            D3DFormat::Standard(StandardFormat::DXT2Or3)
        } else if c == 0x0f {
            D3DFormat::Standard(StandardFormat::DXT4Or5)
        } else {
            D3DFormat::Linear(LinearColour::A8R8G8B8)
        }
    }

    /// The numeric code a format is stored as.
    pub fn code(self) -> (r: u32)
        ensures
            r == self.spec_code(),
    {
        match self {
            D3DFormat::Swizzled(Swizzled::B8G8R8A8) => 0x12,
            D3DFormat::Swizzled(Swizzled::A8B8G8R8) => 0x3f,
            D3DFormat::Standard(StandardFormat::DXT1) => 0x0c,
            D3DFormat::Standard(StandardFormat::DXT2Or3) => 0x0e,
            D3DFormat::Standard(StandardFormat::DXT4Or5) => 0x0f,
            _ => 0x40,
        }
    }

    /// Decodes a stored format code.
    pub fn from_code(c: u32) -> (r: D3DFormat)
        ensures
            r == D3DFormat::spec_from_code(c),
    {
        if c == 0x12 {
            D3DFormat::Swizzled(Swizzled::B8G8R8A8)
        } else if c == 0x3f {
            D3DFormat::Swizzled(Swizzled::A8B8G8R8)
        } else if c == 0x0c {
            D3DFormat::Standard(StandardFormat::DXT1)
        } else if c == 0x0e {
            D3DFormat::Standard(StandardFormat::DXT2Or3)
        } else if c == 0x0f {
            D3DFormat::Standard(StandardFormat::DXT4Or5)
        } else {
            D3DFormat::Linear(LinearColour::A8R8G8B8)
        }
    }
}

} // verus!
