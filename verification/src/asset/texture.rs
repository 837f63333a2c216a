//! The texture asset kind: a small fixed-size descriptor naming a pixel
//! format and the location of the image bytes inside the entry's resource.

use vstd::prelude::*;

use crate::asset::{AssetDescriptor, AssetLike, AssetParseError, AssetType};
use crate::bytes::{le16, le32, read_u16_le, read_u32_le, u16_le_bytes, u32_le_bytes};
use crate::d3d::D3DFormat;
use crate::resource::{concat_of, VirtualResource};

verus! {

/// The byte width of a serialized texture descriptor.
pub const TEXTURE_DESCRIPTOR_SIZE: usize = 28;

/// The fixed-size descriptor of one texture: its pixel format, dimensions,
/// and where its image bytes sit inside the entry's resource.
#[derive(Debug, Clone)]
pub struct TextureDescriptor {
    format: D3DFormat,
    header_size: u32,
    width: u16,
    height: u16,
    flags: u32,
    unknown_3a: u32,
    texture_offset: u32,
    texture_size: u32,
}

/// The mathematical content of a texture descriptor.
pub struct TextureDescriptorView {
    pub format: D3DFormat,
    pub header_size: u32,
    pub width: u16,
    pub height: u16,
    pub flags: u32,
    pub unknown_3a: u32,
    pub texture_offset: u32,
    pub texture_size: u32,
}

impl View for TextureDescriptor {
    type V = TextureDescriptorView;

    closed spec fn view(&self) -> TextureDescriptorView {
        TextureDescriptorView {
            format: self.format,
            header_size: self.header_size,
            width: self.width,
            height: self.height,
            flags: self.flags,
            unknown_3a: self.unknown_3a,
            texture_offset: self.texture_offset,
            texture_size: self.texture_size,
        }
    }
}

/// The 28 bytes a texture descriptor serializes to.
pub open spec fn spec_texture_descriptor_bytes(v: TextureDescriptorView) -> Seq<u8> {
    u32_le_bytes(v.format.spec_code()) + u32_le_bytes(v.header_size) + u16_le_bytes(v.width)
        + u16_le_bytes(v.height) + u32_le_bytes(v.flags) + u32_le_bytes(v.unknown_3a)
        + u32_le_bytes(v.texture_offset) + u32_le_bytes(v.texture_size)
}

/// The texture descriptor 28 bytes parse to.
pub open spec fn spec_parse_texture_descriptor(b: Seq<u8>) -> TextureDescriptorView
    recommends
        b.len() >= 28,
{
    TextureDescriptorView {
        format: D3DFormat::spec_from_code(le32(b.subrange(0, 4)) as u32),
        header_size: le32(b.subrange(4, 8)) as u32,
        width: le16(b.subrange(8, 10)) as u16,
        height: le16(b.subrange(10, 12)) as u16,
        flags: le32(b.subrange(12, 16)) as u32,
        unknown_3a: le32(b.subrange(16, 20)) as u32,
        texture_offset: le32(b.subrange(20, 24)) as u32,
        texture_size: le32(b.subrange(24, 28)) as u32,
    }
}

impl TextureDescriptor {
    pub fn new(
        format: D3DFormat,
        header_size: u32,
        width: u16,
        height: u16,
        flags: u32,
        unknown_3a: u32,
        texture_offset: u32,
        texture_size: u32,
    ) -> (r: TextureDescriptor)
        ensures
            r@ == (TextureDescriptorView {
                format,
                header_size,
                width,
                height,
                flags,
                unknown_3a,
                texture_offset,
                texture_size,
            }),
    {
        TextureDescriptor {
            format,
            header_size,
            width,
            height,
            flags,
            unknown_3a,
            texture_offset,
            texture_size,
        }
    }

    pub fn format(&self) -> (r: D3DFormat)
        ensures
            r == self@.format,
    {
        self.format
    }

    /// The byte size one image of these dimensions occupies in this format.
    pub fn required_image_size(&self) -> (r: usize)
        requires
            (self@.width * self@.height * self@.format.spec_bits_per_pixel() + 7) / 8
                <= usize::MAX,
        ensures
            r == (self@.width * self@.height * self@.format.spec_bits_per_pixel() + 7) / 8,
    {
        let bpp = self.format.bits_per_pixel();
        let w: u64 = self.width as u64;
        let h: u64 = self.height as u64;
        proof {
            assert(self@.format.spec_bits_per_pixel() <= 32);
            assert(w * h <= 65535 * 65535) by (nonlinear_arith)
                requires
                    w <= 65535 && h <= 65535,
            ;
            assert(w * h * (bpp as u64) <= 65535 * 65535 * 32) by (nonlinear_arith)
                requires
                    w * h <= 65535 * 65535 && bpp <= 32,
            ;
        }
        let bits: u64 = w * h * bpp as u64;
        ((bits + 7) / 8) as usize
    }

    pub fn width(&self) -> (r: u16)
        ensures
            r == self@.width,
    {
        self.width
    }

    pub fn height(&self) -> (r: u16)
        ensures
            r == self@.height,
    {
        self.height
    }

    pub fn header_size(&self) -> (r: u32)
        ensures
            r == self@.header_size,
    {
        self.header_size
    }

    pub fn flags(&self) -> (r: u32)
        ensures
            r == self@.flags,
    {
        self.flags
    }

    pub fn unknown_3a(&self) -> (r: u32)
        ensures
            r == self@.unknown_3a,
    {
        self.unknown_3a
    }

    pub fn texture_offset(&self) -> (r: u32)
        ensures
            r == self@.texture_offset,
    {
        self.texture_offset
    }

    pub fn texture_size(&self) -> (r: u32)
        ensures
            r == self@.texture_size,
    {
        self.texture_size
    }

    /// Parses a texture descriptor from the front of `data`; fails exactly
    /// when the input is shorter than the descriptor width.
    pub fn parse(data: &[u8]) -> (r: Result<TextureDescriptor, AssetParseError>)
        ensures
            data@.len() >= 28 ==> (r matches Ok(d) && d@ == spec_parse_texture_descriptor(data@)),
            data@.len() < 28 ==> r == Err::<TextureDescriptor, AssetParseError>(
                AssetParseError::InputTooSmall,
            ),
    {
        if data.len() < TEXTURE_DESCRIPTOR_SIZE {
            return Err(AssetParseError::InputTooSmall);
        }
        let format = D3DFormat::from_code(read_u32_le(data, 0));
        let header_size = read_u32_le(data, 4);
        let width = read_u16_le(data, 8);
        let height = read_u16_le(data, 10);
        let flags = read_u32_le(data, 12);
        let unknown_3a = read_u32_le(data, 16);
        let texture_offset = read_u32_le(data, 20);
        let texture_size = read_u32_le(data, 24);
        Ok(
            TextureDescriptor {
                format,
                header_size,
                width,
                height,
                flags,
                unknown_3a,
                texture_offset,
                texture_size,
            },
        )
    }

    /// Serializes this descriptor into its 28 bytes.
    pub fn serialize(&self) -> (r: Vec<u8>)
        ensures
            r@ == spec_texture_descriptor_bytes(self@),
            r@.len() == 28,
    {
        let mut out: Vec<u8> = Vec::new();
        crate::bytes::push_u32_le(&mut out, self.format.code());
        crate::bytes::push_u32_le(&mut out, self.header_size);
        crate::bytes::push_u16_le(&mut out, self.width);
        crate::bytes::push_u16_le(&mut out, self.height);
        crate::bytes::push_u32_le(&mut out, self.flags);
        crate::bytes::push_u32_le(&mut out, self.unknown_3a);
        crate::bytes::push_u32_le(&mut out, self.texture_offset);
        crate::bytes::push_u32_le(&mut out, self.texture_size);
        proof {
            assert(out@ =~= spec_texture_descriptor_bytes(self@));
        }
        out
    }
}

impl AssetDescriptor for TextureDescriptor {
    open spec fn spec_asset_type() -> AssetType {
        AssetType::ResTexture
    }

    open spec fn parsed_from(&self, data: Seq<u8>) -> bool {
        data.len() >= 28 && self@ == spec_parse_texture_descriptor(data)
    }

    open spec fn serialized_to(&self, bytes: Seq<u8>) -> bool {
        bytes == spec_texture_descriptor_bytes(self@)
    }

    fn from_bytes(data: &[u8]) -> Result<TextureDescriptor, AssetParseError> {
        TextureDescriptor::parse(data)
    }

    fn to_bytes(&self) -> Result<Vec<u8>, AssetParseError> {
        Ok(self.serialize())
    }

    fn size(&self) -> usize {
        TEXTURE_DESCRIPTOR_SIZE
    }

    fn asset_type() -> (r: AssetType) {
        AssetType::ResTexture
    }
}

/// Why a texture image could not be converted.
#[derive(Debug, Clone, PartialEq)]
pub enum TextureError {
    SizeMismatch,
    InvalidInput,
    UnsupportedOutputType,
}

/// One texture: its descriptor plus its owned image bytes.
#[derive(Debug, Clone)]
pub struct Texture {
    descriptor: TextureDescriptor,
    bytes: Vec<u8>,
}

impl Texture {
    pub fn new(descriptor: TextureDescriptor, image_bytes: Vec<u8>) -> (r: Texture)
        ensures
            r.spec_descriptor() == descriptor@,
            r.spec_bytes() == image_bytes@,
    {
        Texture { descriptor, bytes: image_bytes }
    }

    /// The image bytes this texture holds.
    pub closed spec fn spec_bytes(&self) -> Seq<u8> {
        self.bytes@
    }

    /// The descriptor this texture was built under.
    pub closed spec fn spec_descriptor(&self) -> TextureDescriptorView {
        self.descriptor@
    }

    pub fn descriptor(&self) -> (r: &TextureDescriptor)
        ensures
            r@ == self.spec_descriptor(),
    {
        &self.descriptor
    }

    pub fn bytes(&self) -> (r: &Vec<u8>)
        ensures
            r@ == self.spec_bytes(),
    {
        &self.bytes
    }

    /// Replaces this texture's image bytes.
    pub fn set_bytes(&mut self, bytes: Vec<u8>)
        ensures
            final(self).spec_bytes() == bytes@,
            final(self).spec_descriptor() == old(self).spec_descriptor(),
    {
        self.bytes = bytes;
    }

    /// Cuts a texture's image out of the entry's resource at the offset and
    /// size the descriptor records.  Fails on an empty resource and on a
    /// descriptor whose range lies outside the resource, never panicking.
    pub fn from_resource(descriptor: &TextureDescriptor, virtual_res: &VirtualResource) -> (r:
        Result<Texture, AssetParseError>)
        ensures
            (virtual_res@.len() != 0 && descriptor@.texture_offset + descriptor@.texture_size
                <= virtual_res@.len()) ==> (r matches Ok(t) && t.spec_descriptor() == descriptor@
                && t.spec_bytes() == virtual_res@.subrange(
                descriptor@.texture_offset as int,
                descriptor@.texture_offset + descriptor@.texture_size,
            )),
            (virtual_res@.len() == 0 || descriptor@.texture_offset + descriptor@.texture_size
                > virtual_res@.len()) ==> (r matches Err(e) && e matches
                AssetParseError::InvalidDataViews(_)),
    {
        if virtual_res.is_empty() {
            return Err(
                AssetParseError::InvalidDataViews(
                    "Unable to create a texture from an empty resource.".to_owned(),
                ),
            );
        }
        let offset = descriptor.texture_offset() as usize;
        let size = descriptor.texture_size() as usize;
        let bytes = match virtual_res.get_bytes(offset, size) {
            Ok(b) => b,
            Err(crate::resource::VirtualResourceError::OffsetOutOfBounds) => {
                return Err(
                    AssetParseError::InvalidDataViews(
                        "The texture offset lies outside the resource.".to_owned(),
                    ),
                );
            },
            Err(crate::resource::VirtualResourceError::SizeOutOfBounds) => {
                return Err(
                    AssetParseError::InvalidDataViews(
                        "The texture size runs past the resource.".to_owned(),
                    ),
                );
            },
        };
        Ok(Texture { descriptor: descriptor.clone_descriptor(), bytes })
    }
}

impl TextureDescriptor {
    /// An owned copy of this descriptor.
    pub fn clone_descriptor(&self) -> (r: TextureDescriptor)
        ensures
            r@ == self@,
    {
        TextureDescriptor {
            format: self.format,
            header_size: self.header_size,
            width: self.width,
            height: self.height,
            flags: self.flags,
            unknown_3a: self.unknown_3a,
            texture_offset: self.texture_offset,
            texture_size: self.texture_size,
        }
    }
}

impl AssetLike for Texture {
    type Descriptor = TextureDescriptor;

    open spec fn spec_asset_type() -> AssetType {
        AssetType::ResTexture
    }

    open spec fn built_from(&self, descriptor: TextureDescriptor, chunks: Seq<Seq<u8>>) -> bool {
        &&& self.spec_descriptor() == descriptor@
        &&& concat_of(chunks).len() != 0
        &&& descriptor@.texture_offset + descriptor@.texture_size <= concat_of(chunks).len()
        &&& self.spec_bytes() == concat_of(chunks).subrange(
            descriptor@.texture_offset as int,
            descriptor@.texture_offset + descriptor@.texture_size,
        )
    }

    open spec fn describes(&self, descriptor: TextureDescriptor) -> bool {
        descriptor@ == self.spec_descriptor()
    }

    open spec fn spec_chunks(&self) -> Option<Seq<Seq<u8>>> {
        Some(seq![self.spec_bytes()])
    }

    fn new(descriptor: &TextureDescriptor, virtual_res: &VirtualResource) -> Result<
        Texture,
        AssetParseError,
    > {
        proof {
            virtual_res.lemma_view_is_concat();
        }
        Texture::from_resource(descriptor, virtual_res)
    }

    fn get_descriptor(&self) -> TextureDescriptor {
        self.descriptor.clone_descriptor()
    }

    fn get_resource_chunks(&self) -> Option<Vec<Vec<u8>>> {
        let mut chunks: Vec<Vec<u8>> = Vec::new();
        let mut b: Vec<u8> = Vec::new();
        b.extend_from_slice(self.bytes.as_slice());
        chunks.push(b);
        proof {
            assert(chunks.deep_view() =~~= seq![self.spec_bytes()]);
        }
        Some(chunks)
    }

    fn asset_type() -> (r: AssetType) {
        AssetType::ResTexture
    }
}

/// An uncompressed 32-bit image, one byte per channel.
#[derive(Clone)]
pub struct RGBAImage {
    width: usize,
    height: usize,
    bytes: Vec<u8>,
}

impl RGBAImage {
    pub fn new(width: usize, height: usize, bytes: Vec<u8>) -> (r: RGBAImage)
        ensures
            r.width() == width,
            r.height() == height,
            r.spec_bytes() == bytes@,
    {
        RGBAImage { width, height, bytes }
    }

    /// The raw channel bytes, row-major.
    pub closed spec fn spec_bytes(&self) -> Seq<u8> {
        self.bytes@
    }

    pub closed spec fn spec_width(&self) -> usize {
        self.width
    }

    pub closed spec fn spec_height(&self) -> usize {
        self.height
    }

    #[verifier::when_used_as_spec(spec_width)]
    pub fn width(&self) -> (r: usize)
        ensures
            r == self.spec_width(),
    {
        self.width
    }

    #[verifier::when_used_as_spec(spec_height)]
    pub fn height(&self) -> (r: usize)
        ensures
            r == self.spec_height(),
    {
        self.height
    }

    pub fn bytes(&self) -> (r: &Vec<u8>)
        ensures
            r@ == self.spec_bytes(),
    {
        &self.bytes
    }
}

} // verus!
