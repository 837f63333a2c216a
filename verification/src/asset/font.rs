//! The font asset kind: a header naming a glyph range, followed by
//! fixed-size glyph entries, each pointing at a texture descriptor inside
//! the same descriptor bytes.

use vstd::prelude::*;

use crate::asset::texture::{Texture, TextureDescriptor};
use crate::asset::{AssetLike, AssetParseError, AssetType};
use crate::bytes::{le32, read_u32_le};
use crate::resource::VirtualResource;

verus! {

/// The raw fixed header of a font descriptor.
#[derive(Debug, Clone)]
pub struct RawFontDescriptor {
    pub start_glyph: u32,
    pub end_glyph: u32,
    pub num_variants: u32,
    pub text_x: u32,
    pub text_y: u32,
    pub entries_start_ptr: u32,
}

/// One parsed glyph entry: its index, its texture descriptor, and its
/// opaque words.
#[derive(Debug, Clone)]
pub struct RawGlyph {
    pub glyph_index: u32,
    pub texture_descriptor: TextureDescriptor,
    pub num_somethings: u32,
    pub unknown_u32_1: u32,
    pub unknown_u32_2: u32,
    pub unknown_u32_3: u32,
    pub unknown_u32_4: u32,
}

/// A parsed font descriptor: its metrics and its populated glyph entries.
#[derive(Debug, Clone)]
pub struct FontDescriptor {
    pub num_variants: u32,
    pub text_x: u32,
    pub text_y: u32,
    pub glyphs: Vec<RawGlyph>,
}

impl FontDescriptor {
    /// The smallest populated glyph index, or zero for an empty font.
    pub fn first_glyph(&self) -> (r: u32)
        ensures
            self.glyphs@.len() == 0 ==> r == 0,
            self.glyphs@.len() > 0 ==> (exists|i: int|
                0 <= i < self.glyphs@.len() && r == (#[trigger] self.glyphs@[i]).glyph_index) && (
            forall|i: int| 0 <= i < self.glyphs@.len() ==> r <= (#[trigger] self.glyphs@[i]).glyph_index),
    {
        if self.glyphs.len() == 0 {
            return 0;
        }
        let mut best: u32 = self.glyphs[0].glyph_index;
        let mut i: usize = 1;
        while i < self.glyphs.len()
            invariant
                self.glyphs@.len() > 0,
                1 <= i <= self.glyphs@.len(),
                exists|k: int|
                    0 <= k < i && best == (#[trigger] self.glyphs@[k]).glyph_index,
                forall|k: int| 0 <= k < i ==> best <= (#[trigger] self.glyphs@[k]).glyph_index,
            decreases self.glyphs@.len() - i,
        {
            if self.glyphs[i].glyph_index < best {
                best = self.glyphs[i].glyph_index;
            }
            i = i + 1;
        }
        best
    }

    /// The largest populated glyph index, or zero for an empty font.
    pub fn last_glyph(&self) -> (r: u32)
        ensures
            self.glyphs@.len() == 0 ==> r == 0,
            self.glyphs@.len() > 0 ==> (exists|i: int|
                0 <= i < self.glyphs@.len() && r == (#[trigger] self.glyphs@[i]).glyph_index) && (
            forall|i: int| 0 <= i < self.glyphs@.len() ==> r >= (#[trigger] self.glyphs@[i]).glyph_index),
    {
        if self.glyphs.len() == 0 {
            return 0;
        }
        let mut best: u32 = self.glyphs[0].glyph_index;
        let mut i: usize = 1;
        while i < self.glyphs.len()
            invariant
                self.glyphs@.len() > 0,
                1 <= i <= self.glyphs@.len(),
                exists|k: int|
                    0 <= k < i && best == (#[trigger] self.glyphs@[k]).glyph_index,
                forall|k: int| 0 <= k < i ==> best >= (#[trigger] self.glyphs@[k]).glyph_index,
            decreases self.glyphs@.len() - i,
        {
            if self.glyphs[i].glyph_index > best {
                best = self.glyphs[i].glyph_index;
            }
            i = i + 1;
        }
        best
    }

    /// Parses a font descriptor: the fixed header, then one 24-byte entry
    /// per glyph in the declared range, skipping unpopulated entries; each
    /// populated entry's texture descriptor is parsed from the same bytes
    /// at the entry's recorded offset.  Fails, never panicking, on a header
    /// or entry that lies outside the input or a glyph range that is not
    /// ascending.
    pub fn parse(data: &[u8]) -> (r: Result<FontDescriptor, AssetParseError>)
        ensures
            r matches Ok(d) ==> data@.len() >= 24 && d.num_variants == le32(data@.subrange(8, 12))
                && d.text_x == le32(data@.subrange(12, 16)) && d.text_y == le32(
                data@.subrange(16, 20),
            ),
    {
        if data.len() < 24 {
            return Err(AssetParseError::InputTooSmall);
        }
        let start_glyph = read_u32_le(data, 0);
        let end_glyph = read_u32_le(data, 4);
        let num_variants = read_u32_le(data, 8);
        let text_x = read_u32_le(data, 12);
        let text_y = read_u32_le(data, 16);
        let entries_start_ptr = read_u32_le(data, 20);

        if end_glyph < start_glyph {
            return Err(AssetParseError::ErrorParsingDescriptor);
        }
        let num_glyphs: u64 = end_glyph as u64 - start_glyph as u64 + 1;
        if entries_start_ptr as u64 + 24 * num_glyphs > data.len() as u64 {
            return Err(AssetParseError::InputTooSmall);
        }

        let mut glyphs: Vec<RawGlyph> = Vec::new();
        let mut i: usize = 0;
        while (i as u64) < num_glyphs
            invariant
                num_glyphs == end_glyph - start_glyph + 1,
                entries_start_ptr + 24 * num_glyphs <= data@.len(),
                data@.len() <= usize::MAX,
                0 <= i <= num_glyphs,
            decreases num_glyphs - i,
        {
            let base = entries_start_ptr as usize + 24 * i;
            let tex_ptr = read_u32_le(data, base);
            let ptr_2 = read_u32_le(data, base + 4);
            let unknown_u32_1 = read_u32_le(data, base + 8);
            let unknown_u32_2 = read_u32_le(data, base + 12);
            let unknown_u32_3 = read_u32_le(data, base + 16);
            let unknown_u32_4 = read_u32_le(data, base + 20);

            if tex_ptr != 0 && ptr_2 != 0xffff_ffff {
                if tex_ptr as u64 > data.len() as u64 {
                    return Err(AssetParseError::InputTooSmall);
                }
                let tex_slice = vstd::slice::slice_subrange(data, tex_ptr as usize, data.len());
                let tex_descriptor = match TextureDescriptor::parse(tex_slice) {
                    Ok(t) => t,
                    Err(e) => {
                        return Err(e);
                    },
                };
                glyphs.push(
                    RawGlyph {
                        glyph_index: start_glyph + i as u32,
                        texture_descriptor: tex_descriptor,
                        num_somethings: ptr_2,
                        unknown_u32_1,
                        unknown_u32_2,
                        unknown_u32_3,
                        unknown_u32_4,
                    },
                );
            }
            i = i + 1;
        }

        Ok(FontDescriptor { num_variants, text_x, text_y, glyphs })
    }
}

/// One glyph of a font: its index and the texture of each of its variants.
#[derive(Debug)]
pub struct Glyph {
    pub glyph_index: u32,
    pub textures: Vec<Texture>,
    pub num_somethings: u32,
    pub unknown_u32_1: u32,
    pub unknown_u32_2: u32,
    pub unknown_u32_3: u32,
    pub unknown_u32_4: u32,
}

/// A font asset: its descriptor and its materialized glyphs.
#[derive(Debug)]
pub struct Font {
    pub descriptor: FontDescriptor,
    pub glyphs: Vec<Glyph>,
}

impl Font {
    /// Materializes every glyph's variants by cutting each variant's image
    /// out of the resource at the texture descriptor's offset and size.
    /// Fails, never panicking, when a variant's range lies outside the
    /// resource.
    pub fn from_resource(descriptor: &FontDescriptor, virtual_res: &VirtualResource) -> (r: Result<
        Font,
        AssetParseError,
    >)
        ensures
            r matches Ok(f) ==> f.glyphs@.len() == descriptor.glyphs@.len()
                && f.descriptor.num_variants == descriptor.num_variants && f.descriptor.text_x
                == descriptor.text_x && f.descriptor.text_y == descriptor.text_y
                && f.descriptor.glyphs@.len() == descriptor.glyphs@.len(),
    {
        let res_bytes = virtual_res.get_all_bytes();
        let res_len = res_bytes.len();
        let mut glyphs: Vec<Glyph> = Vec::new();
        let mut gi: usize = 0;
        while gi < descriptor.glyphs.len()
            invariant
                0 <= gi <= descriptor.glyphs@.len(),
                glyphs@.len() == gi,
                res_len == res_bytes@.len(),
            decreases descriptor.glyphs@.len() - gi,
        {
            let raw = &descriptor.glyphs[gi];
            let tex_size = raw.texture_descriptor.texture_size() as u64;
            let mut start: u64 = raw.texture_descriptor.texture_offset() as u64;
            let mut textures: Vec<Texture> = Vec::new();
            let mut v: usize = 0;
            while v < descriptor.num_variants as usize
                invariant
                    gi < descriptor.glyphs@.len(),
                    res_len == res_bytes@.len(),
                    tex_size <= u32::MAX,
                decreases descriptor.num_variants as usize - v,
            {
                let end = match start.checked_add(tex_size) {
                    Some(e) => e,
                    None => {
                        return Err(
                            AssetParseError::InvalidDataViews(
                                "A glyph variant lies outside the resource.".to_owned(),
                            ),
                        );
                    },
                };
                if end > res_len as u64 {
                    return Err(
                        AssetParseError::InvalidDataViews(
                            "A glyph variant lies outside the resource.".to_owned(),
                        ),
                    );
                }
                let chunk = vstd::slice::slice_to_vec(
                    vstd::slice::slice_subrange(
                        res_bytes.as_slice(),
                        start as usize,
                        end as usize,
                    ),
                );
                textures.push(Texture::new(raw.texture_descriptor.clone_descriptor(), chunk));
                start = end;
                v = v + 1;
            }
            glyphs.push(
                Glyph {
                    glyph_index: raw.glyph_index,
                    textures,
                    num_somethings: raw.num_somethings,
                    unknown_u32_1: raw.unknown_u32_1,
                    unknown_u32_2: raw.unknown_u32_2,
                    unknown_u32_3: raw.unknown_u32_3,
                    unknown_u32_4: raw.unknown_u32_4,
                },
            );
            gi = gi + 1;
        }
        Ok(Font { descriptor: clone_font_descriptor(descriptor), glyphs })
    }
}

/// Copies a font descriptor.
fn clone_font_descriptor(d: &FontDescriptor) -> (r: FontDescriptor)
    ensures
        r.num_variants == d.num_variants,
        r.text_x == d.text_x,
        r.text_y == d.text_y,
        r.glyphs@.len() == d.glyphs@.len(),
{
    let mut glyphs: Vec<RawGlyph> = Vec::new();
    let mut i: usize = 0;
    while i < d.glyphs.len()
        invariant
            0 <= i <= d.glyphs@.len(),
            glyphs@.len() == i,
        decreases d.glyphs@.len() - i,
    {
        let g = &d.glyphs[i];
        glyphs.push(
            RawGlyph {
                glyph_index: g.glyph_index,
                texture_descriptor: g.texture_descriptor.clone_descriptor(),
                num_somethings: g.num_somethings,
                unknown_u32_1: g.unknown_u32_1,
                unknown_u32_2: g.unknown_u32_2,
                unknown_u32_3: g.unknown_u32_3,
                unknown_u32_4: g.unknown_u32_4,
            },
        );
        i = i + 1;
    }
    FontDescriptor { num_variants: d.num_variants, text_x: d.text_x, text_y: d.text_y, glyphs }
}

impl crate::asset::AssetDescriptor for FontDescriptor {
    open spec fn spec_asset_type() -> AssetType {
        AssetType::ResFont
    }

    open spec fn parsed_from(&self, data: Seq<u8>) -> bool {
        &&& data.len() >= 24
        &&& self.num_variants == le32(data.subrange(8, 12))
        &&& self.text_x == le32(data.subrange(12, 16))
        &&& self.text_y == le32(data.subrange(16, 20))
    }

    /// A font never serializes back: no bytes stand in this relation.
    open spec fn serialized_to(&self, bytes: Seq<u8>) -> bool {
        false
    }

    fn from_bytes(data: &[u8]) -> Result<FontDescriptor, AssetParseError> {
        FontDescriptor::parse(data)
    }

    /// The serialized form of a parsed font is not reconstructed; a font is
    /// read-only in this container.
    fn to_bytes(&self) -> Result<Vec<u8>, AssetParseError> {
        Err(AssetParseError::ErrorParsingDescriptor)
    }

    fn size(&self) -> usize {
        24
    }

    fn asset_type() -> (r: AssetType) {
        AssetType::ResFont
    }
}

impl AssetLike for Font {
    type Descriptor = FontDescriptor;

    open spec fn spec_asset_type() -> AssetType {
        AssetType::ResFont
    }

    open spec fn built_from(&self, descriptor: FontDescriptor, chunks: Seq<Seq<u8>>) -> bool {
        &&& self.descriptor.num_variants == descriptor.num_variants
        &&& self.descriptor.text_x == descriptor.text_x
        &&& self.descriptor.text_y == descriptor.text_y
        &&& self.descriptor.glyphs@.len() == descriptor.glyphs@.len()
        &&& self.glyphs@.len() == descriptor.glyphs@.len()
    }

    open spec fn describes(&self, descriptor: FontDescriptor) -> bool {
        &&& descriptor.num_variants == self.descriptor.num_variants
        &&& descriptor.text_x == self.descriptor.text_x
        &&& descriptor.text_y == self.descriptor.text_y
        &&& descriptor.glyphs@.len() == self.descriptor.glyphs@.len()
    }

    open spec fn spec_chunks(&self) -> Option<Seq<Seq<u8>>> {
        None
    }

    fn new(descriptor: &FontDescriptor, virtual_res: &VirtualResource) -> Result<
        Font,
        AssetParseError,
    > {
        Font::from_resource(descriptor, virtual_res)
    }

    fn get_descriptor(&self) -> FontDescriptor {
        clone_font_descriptor(&self.descriptor)
    }

    /// A font is read-only in this container: it hands back no chunks.
    fn get_resource_chunks(&self) -> Option<Vec<Vec<u8>>> {
        None
    }

    fn asset_type() -> (r: AssetType) {
        AssetType::ResFont
    }
}

} // verus!
