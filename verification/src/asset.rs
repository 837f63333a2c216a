//! Shared asset-layer types: type codes, fixed-width names, the fixed-size
//! archive entry record, errors, and the codec capability traits that let a
//! type-specific parser interpret an entry's bytes.

pub mod aidlist;
pub mod cuelist;
pub mod font;
pub mod loctext;
pub mod marker;
pub mod param;
pub mod script;
pub mod script_ops;
pub mod texture;

use vstd::prelude::*;
use vstd::string::StringSliceAdditionalSpecFns;
use vstd::utf8::valid_utf8;

use crate::bytes::{le32, read_u32_le, u32_le_bytes};
use crate::resource::VirtualResource;

verus! {

/// The byte width of one fixed-size archive entry record.
pub const ASSET_DESCRIPTION_SIZE: usize = 160;

/// The byte width of the fixed-width asset identifier field.
pub const ASSET_NAME_SIZE: usize = 128;

/// The longest identifier that still leaves room for its NUL terminator.
pub const MAX_ASSET_NAME_LENGTH: usize = 127;

/// A fixed-width, NUL-padded asset identifier as stored on disk.
pub type AssetName = [u8; 128];

/// The small integer tag naming which codec applies to an archive entry.
///
/// Codes the format does not name are carried through unchanged in the
/// `Unknown` variant, matching how the archive treats unrecognized entries.
#[derive(Debug, Clone, Copy, PartialEq, Eq, Structural)]
pub enum AssetType {
    ResAidList,
    ResTexture,
    ResAnim,
    ResUnknown3,
    ResModel,
    ResAnimEvents,
    ResCutscene,
    ResCutsceneEvents,
    ResMisc,
    ResActorGoals,
    ResMarker,
    ResFxCallout,
    ResLoctext,
    ResXSoundbank,
    ResXDSP,
    ResXCueList,
    ResFont,
    ResGhoulybox,
    ResGhoulyspawn,
    ResScript,
    ResActorAttribs,
    ResEmitter,
    ResParticle,
    ResRumble,
    ResShakeCam,
    ResCount,
    Unknown(u32),
}

impl AssetType {
    /// The numeric code this tag is stored as.
    pub open spec fn spec_code(self) -> u32 {
        match self {
            AssetType::ResAidList => 0,
            AssetType::ResTexture => 1,
            AssetType::ResAnim => 2,
            AssetType::ResUnknown3 => 3,
            AssetType::ResModel => 4,
            AssetType::ResAnimEvents => 5,
            AssetType::ResCutscene => 6,
            AssetType::ResCutsceneEvents => 7,
            AssetType::ResMisc => 8,
            AssetType::ResActorGoals => 9,
            AssetType::ResMarker => 10,
            AssetType::ResFxCallout => 11,
            AssetType::ResLoctext => 12,
            AssetType::ResXSoundbank => 13,
            AssetType::ResXDSP => 14,
            AssetType::ResXCueList => 15,
            AssetType::ResFont => 16,
            AssetType::ResGhoulybox => 17,
            AssetType::ResGhoulyspawn => 18,
            AssetType::ResScript => 19,
            AssetType::ResActorAttribs => 20,
            AssetType::ResEmitter => 21,
            AssetType::ResParticle => 22,
            AssetType::ResRumble => 23,
            AssetType::ResShakeCam => 24,
            AssetType::ResCount => 25,
            AssetType::Unknown(c) => c,
        }
    }

    /// The tag a numeric code decodes to.
    pub open spec fn spec_from_code(c: u32) -> AssetType {
        if c == 0 {
            AssetType::ResAidList
        } else if c == 1 {
            AssetType::ResTexture
        } else if c == 2 {
            AssetType::ResAnim
        } else if c == 3 {
            AssetType::ResUnknown3
        } else if c == 4 {
            AssetType::ResModel
        } else if c == 5 {
            AssetType::ResAnimEvents
        } else if c == 6 {
            AssetType::ResCutscene
        } else if c == 7 {
            AssetType::ResCutsceneEvents
        } else if c == 8 {
            AssetType::ResMisc
        } else if c == 9 {
            AssetType::ResActorGoals
        } else if c == 10 {
            AssetType::ResMarker
        } else if c == 11 {
            AssetType::ResFxCallout
        } else if c == 12 {
            AssetType::ResLoctext
        } else if c == 13 {
            AssetType::ResXSoundbank
        } else if c == 14 {
            AssetType::ResXDSP
        } else if c == 15 {
            AssetType::ResXCueList
        } else if c == 16 {
            AssetType::ResFont
        } else if c == 17 {
            AssetType::ResGhoulybox
        } else if c == 18 {
            AssetType::ResGhoulyspawn
        } else if c == 19 {
            AssetType::ResScript
        } else if c == 20 {
            AssetType::ResActorAttribs
        } else if c == 21 {
            AssetType::ResEmitter
        } else if c == 22 {
            AssetType::ResParticle
        } else if c == 23 {
            AssetType::ResRumble
        } else if c == 24 {
            AssetType::ResShakeCam
        } else if c == 25 {
            AssetType::ResCount
        } else {
            AssetType::Unknown(c)
        }
    }

    /// A tag is canonical when an `Unknown` code does not shadow a named one.
    /// Every tag read from an archive is canonical.
    pub open spec fn is_canonical(self) -> bool {
        self == AssetType::spec_from_code(self.spec_code())
    }

    /// Decoding any code and re-encoding it yields the same code, and decoded
    /// tags are canonical; a canonical tag survives an encode-decode round
    /// trip unchanged.
    pub proof fn lemma_code_round_trip(c: u32, t: AssetType)
        ensures
            AssetType::spec_from_code(c).spec_code() == c,
            AssetType::spec_from_code(c).is_canonical(),
            t.is_canonical() ==> AssetType::spec_from_code(t.spec_code()) == t,
    {
    }

    /// The numeric code this tag is stored as.
    pub fn code(self) -> (r: u32)
        ensures
            r == self.spec_code(),
    {
        match self {
            AssetType::ResAidList => 0,
            AssetType::ResTexture => 1,
            AssetType::ResAnim => 2,
            AssetType::ResUnknown3 => 3,
            AssetType::ResModel => 4,
            AssetType::ResAnimEvents => 5,
            AssetType::ResCutscene => 6,
            AssetType::ResCutsceneEvents => 7,
            AssetType::ResMisc => 8,
            AssetType::ResActorGoals => 9,
            AssetType::ResMarker => 10,
            AssetType::ResFxCallout => 11,
            AssetType::ResLoctext => 12,
            AssetType::ResXSoundbank => 13,
            AssetType::ResXDSP => 14,
            AssetType::ResXCueList => 15,
            AssetType::ResFont => 16,
            AssetType::ResGhoulybox => 17,
            AssetType::ResGhoulyspawn => 18,
            AssetType::ResScript => 19,
            AssetType::ResActorAttribs => 20,
            AssetType::ResEmitter => 21,
            AssetType::ResParticle => 22,
            AssetType::ResRumble => 23,
            AssetType::ResShakeCam => 24,
            AssetType::ResCount => 25,
            AssetType::Unknown(c) => c,
        }
    }

    /// Decodes a numeric code into its tag.
    pub fn from_code(c: u32) -> (r: AssetType)
        ensures
            r == AssetType::spec_from_code(c),
    {
        if c == 0 {
            AssetType::ResAidList
        } else if c == 1 {
            AssetType::ResTexture
        } else if c == 2 {
            AssetType::ResAnim
        } else if c == 3 {
            AssetType::ResUnknown3
        } else if c == 4 {
            AssetType::ResModel
        } else if c == 5 {
            AssetType::ResAnimEvents
        } else if c == 6 {
            AssetType::ResCutscene
        } else if c == 7 {
            AssetType::ResCutsceneEvents
        } else if c == 8 {
            AssetType::ResMisc
        } else if c == 9 {
            AssetType::ResActorGoals
        } else if c == 10 {
            AssetType::ResMarker
        } else if c == 11 {
            AssetType::ResFxCallout
        } else if c == 12 {
            AssetType::ResLoctext
        } else if c == 13 {
            AssetType::ResXSoundbank
        } else if c == 14 {
            AssetType::ResXDSP
        } else if c == 15 {
            AssetType::ResXCueList
        } else if c == 16 {
            AssetType::ResFont
        } else if c == 17 {
            AssetType::ResGhoulybox
        } else if c == 18 {
            AssetType::ResGhoulyspawn
        } else if c == 19 {
            AssetType::ResScript
        } else if c == 20 {
            AssetType::ResActorAttribs
        } else if c == 21 {
            AssetType::ResEmitter
        } else if c == 22 {
            AssetType::ResParticle
        } else if c == 23 {
            AssetType::ResRumble
        } else if c == 24 {
            AssetType::ResShakeCam
        } else if c == 25 {
            AssetType::ResCount
        } else {
            AssetType::Unknown(c)
        }
    }
}

/// Why an asset's bytes could not be interpreted.
#[derive(Debug, Clone, PartialEq)]
pub enum AssetParseError {
    /// The input ended before the fixed-size layout it declares.
    InputTooSmall,
    /// The descriptor bytes do not follow the codec's layout.
    ErrorParsingDescriptor,
    /// A chunk reference pointed outside the bytes it addresses.
    InvalidDataViews(String),
}

/// Why a typed-asset operation on the container failed.
#[derive(Debug, Clone, PartialEq)]
pub enum AssetError {
    /// No entry carries the requested name.
    NotFound,
    /// The entry exists but its recorded type code names another codec.
    TypeMismatch,
    /// The entry matches but its bytes could not be interpreted.
    ParseError(AssetParseError),
}

/// The index of the first NUL byte, or the length when none occurs.
pub open spec fn first_nul(s: Seq<u8>) -> int
    decreases s.len(),
{
    if s.len() == 0 {
        0
    } else if s[0] == 0 {
        0
    } else {
        1 + first_nul(s.drop_first())
    }
}

pub proof fn lemma_first_nul(s: Seq<u8>)
    ensures
        0 <= first_nul(s) <= s.len(),
        forall|i: int| 0 <= i < first_nul(s) ==> s[i] != 0,
        first_nul(s) < s.len() ==> s[first_nul(s)] == 0,
    decreases s.len(),
{
    if s.len() > 0 && s[0] != 0 {
        lemma_first_nul(s.drop_first());
        assert forall|i: int| 0 <= i < first_nul(s) implies s[i] != 0 by {
            if i > 0 {
                assert(s.drop_first()[i - 1] != 0);
            }
        }
    }
}

/// The identifier an on-disk name field denotes: its bytes before the first
/// NUL.
pub open spec fn spec_asset_name(s: Seq<u8>) -> Seq<u8> {
    s.take(first_nul(s))
}

/// Extracts the bytes of a fixed-width name field up to its first NUL.
pub fn asset_name_bytes(name: &AssetName) -> (r: Vec<u8>)
    ensures
        r@ == spec_asset_name(name@),
{
    proof {
        lemma_first_nul(name@);
    }
    let mut out: Vec<u8> = Vec::new();
    let mut i: usize = 0;
    while i < 128 && name[i] != 0
        invariant
            0 <= i <= 128,
            name@.len() == 128,
            out@ =~= name@.take(i as int),
            forall|k: int| 0 <= k < i ==> name@[k] != 0,
        decreases 128 - i,
    {
        out.push(name[i]);
        i = i + 1;
    }
    proof {
        lemma_first_nul(name@);
        assert(first_nul(name@) == i) by {
            let f = first_nul(name@);
            if f < i {
                assert(name@[f] != 0);
            }
            if f > i {
                assert(i < 128 ==> name@[i as int] == 0);
            }
        }
        assert(out@ =~= spec_asset_name(name@));
    }
    out
}

/// Builds a fixed-width name field from identifier bytes, NUL-padding the
/// remainder.
pub fn asset_name_from_bytes(id: &[u8]) -> (r: AssetName)
    requires
        id@.len() <= MAX_ASSET_NAME_LENGTH,
        forall|i: int| 0 <= i < id@.len() ==> id@[i] != 0,
    ensures
        spec_asset_name(r@) == id@,
{
    let mut out: [u8; 128] = [0; 128];
    let mut i: usize = 0;
    while i < id.len()
        invariant
            id@.len() <= 127,
            forall|k: int| 0 <= k < id@.len() ==> id@[k] != 0,
            0 <= i <= id@.len(),
            out@.len() == 128,
            forall|k: int| 0 <= k < i ==> out@[k] == id@[k],
            forall|k: int| i <= k < 128 ==> out@[k] == 0,
        decreases id@.len() - i,
    {
        out[i] = id[i];
        i = i + 1;
    }
    proof {
        lemma_first_nul(out@);
        assert(out@[id@.len() as int] == 0);
        assert(first_nul(out@) == id@.len()) by {
            let f = first_nul(out@);
            if f < id@.len() {
                assert(out@[f] == 0);
                assert(id@[f] != 0);
            }
            if f > id@.len() {
                assert(out@[id@.len() as int] != 0);
            }
        }
        assert(spec_asset_name(out@) =~= id@);
    }
    out
}

/// True when a stored name field denotes the same identifier as the query
/// string's UTF-8 bytes.
pub open spec fn name_matches(name_field: Seq<u8>, query: Seq<char>) -> bool {
    spec_asset_name(name_field) == vstd::utf8::encode_utf8(query)
}

/// The name, type tag and opaque words of one archive entry.
#[derive(Debug, Clone, Copy)]
pub struct AssetMetadata {
    pub name: AssetName,
    pub asset_type: AssetType,
    pub unk_1: u32,
    pub unk_2: u32,
}

impl AssetMetadata {
    pub fn new(name: AssetName, asset_type: AssetType, unk_1: u32, unk_2: u32) -> (r:
        AssetMetadata)
        ensures
            r.name == name,
            r.asset_type == asset_type,
            r.unk_1 == unk_1,
            r.unk_2 == unk_2,
    {
        AssetMetadata { name, asset_type, unk_1, unk_2 }
    }

    /// The identifier bytes of this entry: the name field before its first
    /// NUL.
    pub fn name_bytes(&self) -> (r: Vec<u8>)
        ensures
            r@ == spec_asset_name(self.name@),
    {
        asset_name_bytes(&self.name)
    }

    /// The identifier as a string, or empty when its bytes are not UTF-8.
    pub fn name(&self) -> (s: String)
        ensures
            valid_utf8(spec_asset_name(self.name@)) ==> vstd::utf8::encode_utf8(s@)
                == spec_asset_name(self.name@),
            !valid_utf8(spec_asset_name(self.name@)) ==> s@ == Seq::<char>::empty(),
    {
        let prefix = self.name_bytes();
        match utf8_from_bytes(prefix.as_slice()) {
            Some(s) => s.to_owned(),
            None => String::new(),
        }
    }

    /// True when this entry's identifier equals the query string.
    pub fn name_is(&self, query: &str) -> (r: bool)
        ensures
            r == name_matches(self.name@, query@),
    {
        let prefix = self.name_bytes();
        bytes_eq(prefix.as_slice(), query.as_bytes())
    }

    pub fn asset_type(&self) -> (r: AssetType)
        ensures
            r == self.asset_type,
    {
        self.asset_type
    }

    pub fn unk_1(&self) -> (r: u32)
        ensures
            r == self.unk_1,
    {
        self.unk_1
    }
}

/// Decodes bytes into an owned string exactly when they are valid UTF-8.
pub(crate) fn utf8_owned(v: &[u8]) -> (r: Option<String>)
    ensures
        r is Some <==> valid_utf8(v@),
        r matches Some(s) ==> vstd::utf8::encode_utf8(s@) == v@,
{
    match utf8_from_bytes(v) {
        Some(s) => Some(s.to_owned()),
        None => None,
    }
}

/// Relies on core::str::from_utf8: it succeeds exactly on valid UTF-8 and
/// views the same bytes.
#[verifier::external_body]
fn utf8_from_bytes(v: &[u8]) -> (r: Option<&str>)
    ensures
        r is Some <==> valid_utf8(v@),
        r matches Some(s) ==> s.spec_bytes() == v@,
{
    core::str::from_utf8(v).ok()
}

/// The fixed-size on-disk record describing one archive entry: its metadata
/// plus the offsets and sizes that locate the entry's descriptor bytes and
/// chunk list inside their sections.
#[derive(Debug, Clone, Copy)]
pub struct AssetDescription {
    pub metadata: AssetMetadata,
    pub chunk_count: u32,
    pub descriptor_ptr: u32,
    pub descriptor_size: u32,
    pub dataview_list_ptr: u32,
    pub resource_size: u32,
}

/// The mathematical content of one entry record.
pub struct AssetDescriptionView {
    pub name: Seq<u8>,
    pub asset_type: AssetType,
    pub unk_1: u32,
    pub unk_2: u32,
    pub chunk_count: u32,
    pub descriptor_ptr: u32,
    pub descriptor_size: u32,
    pub dataview_list_ptr: u32,
    pub resource_size: u32,
}

impl View for AssetDescription {
    type V = AssetDescriptionView;

    open spec fn view(&self) -> AssetDescriptionView {
        AssetDescriptionView {
            name: self.metadata.name@,
            asset_type: self.metadata.asset_type,
            unk_1: self.metadata.unk_1,
            unk_2: self.metadata.unk_2,
            chunk_count: self.chunk_count,
            descriptor_ptr: self.descriptor_ptr,
            descriptor_size: self.descriptor_size,
            dataview_list_ptr: self.dataview_list_ptr,
            resource_size: self.resource_size,
        }
    }
}

/// The 160 bytes an entry record serializes to.
pub open spec fn spec_record_bytes(v: AssetDescriptionView) -> Seq<u8> {
    v.name + u32_le_bytes(v.asset_type.spec_code()) + u32_le_bytes(v.unk_1) + u32_le_bytes(v.unk_2)
        + u32_le_bytes(v.chunk_count) + u32_le_bytes(v.descriptor_ptr) + u32_le_bytes(
        v.descriptor_size,
    ) + u32_le_bytes(v.dataview_list_ptr) + u32_le_bytes(v.resource_size)
}

/// The entry record that 160 bytes parse to.
pub open spec fn spec_parse_record(rec: Seq<u8>) -> AssetDescriptionView
    recommends
        rec.len() >= 160,
{
    AssetDescriptionView {
        name: rec.subrange(0, 128),
        asset_type: AssetType::spec_from_code(le32(rec.subrange(128, 132)) as u32),
        unk_1: le32(rec.subrange(132, 136)) as u32,
        unk_2: le32(rec.subrange(136, 140)) as u32,
        chunk_count: le32(rec.subrange(140, 144)) as u32,
        descriptor_ptr: le32(rec.subrange(144, 148)) as u32,
        descriptor_size: le32(rec.subrange(148, 152)) as u32,
        dataview_list_ptr: le32(rec.subrange(152, 156)) as u32,
        resource_size: le32(rec.subrange(156, 160)) as u32,
    }
}

/// A record written and read back comes back field for field, with its type
/// tag in canonical form.
#[verifier::rlimit(60)]
pub proof fn lemma_record_round_trip(v: AssetDescriptionView)
    requires
        v.name.len() == 128,
        v.asset_type.is_canonical(),
    ensures
        spec_record_bytes(v).len() == 160,
        spec_parse_record(spec_record_bytes(v)) == v,
{
    let b = spec_record_bytes(v);
    assert(b.subrange(0, 128) =~= v.name);
    assert(b.subrange(128, 132) =~= u32_le_bytes(v.asset_type.spec_code()));
    assert(b.subrange(132, 136) =~= u32_le_bytes(v.unk_1));
    assert(b.subrange(136, 140) =~= u32_le_bytes(v.unk_2));
    assert(b.subrange(140, 144) =~= u32_le_bytes(v.chunk_count));
    assert(b.subrange(144, 148) =~= u32_le_bytes(v.descriptor_ptr));
    assert(b.subrange(148, 152) =~= u32_le_bytes(v.descriptor_size));
    assert(b.subrange(152, 156) =~= u32_le_bytes(v.dataview_list_ptr));
    assert(b.subrange(156, 160) =~= u32_le_bytes(v.resource_size));
    crate::bytes::lemma_le32_round_trip(v.asset_type.spec_code());
    crate::bytes::lemma_le32_round_trip(v.unk_1);
    crate::bytes::lemma_le32_round_trip(v.unk_2);
    crate::bytes::lemma_le32_round_trip(v.chunk_count);
    crate::bytes::lemma_le32_round_trip(v.descriptor_ptr);
    crate::bytes::lemma_le32_round_trip(v.descriptor_size);
    crate::bytes::lemma_le32_round_trip(v.dataview_list_ptr);
    crate::bytes::lemma_le32_round_trip(v.resource_size);
}

impl AssetDescription {
    /// Parses one fixed-size entry record; fails exactly when the input is
    /// shorter than the record width.
    pub fn from_bytes(b: &[u8]) -> (r: Result<AssetDescription, AssetParseError>)
        ensures
            b@.len() >= 160 ==> (r matches Ok(d) && d@ == spec_parse_record(b@)),
            b@.len() < 160 ==> r == Err::<AssetDescription, AssetParseError>(
                AssetParseError::InputTooSmall,
            ),
    {
        if b.len() < 160 {
            return Err(AssetParseError::InputTooSmall);
        }
        let mut name: [u8; 128] = [0; 128];
        let mut i: usize = 0;
        while i < 128
            invariant
                b@.len() >= 160,
                0 <= i <= 128,
                name@.len() == 128,
                forall|k: int| 0 <= k < i ==> name@[k] == b@[k],
        decreases 128 - i,
        {
            name[i] = b[i];
            i = i + 1;
        }
        proof {
            assert(name@ =~= b@.subrange(0, 128));
        }
        let code = read_u32_le(b, 128);
        let unk_1 = read_u32_le(b, 132);
        let unk_2 = read_u32_le(b, 136);
        let chunk_count = read_u32_le(b, 140);
        let descriptor_ptr = read_u32_le(b, 144);
        let descriptor_size = read_u32_le(b, 148);
        let dataview_list_ptr = read_u32_le(b, 152);
        let resource_size = read_u32_le(b, 156);
        Ok(
            AssetDescription {
                metadata: AssetMetadata {
                    name,
                    asset_type: AssetType::from_code(code),
                    unk_1,
                    unk_2,
                },
                chunk_count,
                descriptor_ptr,
                descriptor_size,
                dataview_list_ptr,
                resource_size,
            },
        )
    }

    /// Serializes this record into its 160 bytes.
    pub fn to_bytes(&self) -> (r: Vec<u8>)
        ensures
            r@ == spec_record_bytes(self@),
            r@.len() == 160,
    {
        let mut out: Vec<u8> = Vec::new();
        let mut i: usize = 0;
        while i < 128
            invariant
                0 <= i <= 128,
                self.metadata.name@.len() == 128,
                out@ =~= self.metadata.name@.take(i as int),
            decreases 128 - i,
        {
            out.push(self.metadata.name[i]);
            i = i + 1;
        }
        proof {
            assert(out@ =~= self.metadata.name@);
        }
        crate::bytes::push_u32_le(&mut out, self.metadata.asset_type.code());
        crate::bytes::push_u32_le(&mut out, self.metadata.unk_1);
        crate::bytes::push_u32_le(&mut out, self.metadata.unk_2);
        crate::bytes::push_u32_le(&mut out, self.chunk_count);
        crate::bytes::push_u32_le(&mut out, self.descriptor_ptr);
        crate::bytes::push_u32_le(&mut out, self.descriptor_size);
        crate::bytes::push_u32_le(&mut out, self.dataview_list_ptr);
        crate::bytes::push_u32_le(&mut out, self.resource_size);
        proof {
            assert(out@ =~= spec_record_bytes(self@));
        }
        out
    }
}

/// The codec capability for one asset kind's descriptor: a pure binary codec
/// over the descriptor bytes, knowing nothing of the resource payload.
///
/// The two relations say, as strongly as each kind's codec can, which
/// descriptor given bytes parse to and which bytes a descriptor serializes
/// to; the generic container bridges promise their results through them.
pub trait AssetDescriptor: Sized {
    /// The type tag whose entries this codec interprets.
    spec fn spec_asset_type() -> AssetType;

    /// Whether this descriptor is what the given bytes parse to.
    spec fn parsed_from(&self, data: Seq<u8>) -> bool;

    /// Whether the given bytes are this descriptor's serialization.
    spec fn serialized_to(&self, bytes: Seq<u8>) -> bool;

    fn from_bytes(data: &[u8]) -> (r: Result<Self, AssetParseError>)
        ensures
            r matches Ok(d) ==> d.parsed_from(data@),
    ;

    fn to_bytes(&self) -> (r: Result<Vec<u8>, AssetParseError>)
        ensures
            r matches Ok(b) ==> self.serialized_to(b@),
    ;

    fn size(&self) -> usize;

    fn asset_type() -> (r: AssetType)
        ensures
            r == Self::spec_asset_type(),
    ;
}

/// The capability that combines a parsed descriptor with resolved resource
/// bytes into the semantically meaningful asset, and re-derives both halves
/// for re-serialization.
///
/// The three relations tie a typed value to the descriptor and chunks it
/// was built from and to the halves it re-derives, so the container's
/// generic bridges can promise what they store and hand back.
pub trait AssetLike: Sized {
    type Descriptor: AssetDescriptor;

    /// The type tag whose entries this asset kind interprets.
    spec fn spec_asset_type() -> AssetType;

    /// Whether this value is what the codec builds from the given
    /// descriptor and ordered resource chunks.
    spec fn built_from(&self, descriptor: Self::Descriptor, chunks: Seq<Seq<u8>>) -> bool;

    /// Whether the given descriptor is one this value re-derives.
    spec fn describes(&self, descriptor: Self::Descriptor) -> bool;

    /// The chunk list this value re-derives for storage, if it carries one.
    spec fn spec_chunks(&self) -> Option<Seq<Seq<u8>>>;

    fn new(descriptor: &Self::Descriptor, resource: &VirtualResource) -> (r: Result<
        Self,
        AssetParseError,
    >)
        ensures
            r matches Ok(a) ==> a.built_from(*descriptor, resource.spec_slices()),
    ;

    fn get_descriptor(&self) -> (r: Self::Descriptor)
        ensures
            self.describes(r),
    ;

    fn get_resource_chunks(&self) -> (r: Option<Vec<Vec<u8>>>)
        ensures
            (match r {
                Some(c) => self.spec_chunks() == Some(c.deep_view()),
                None => self.spec_chunks() is None,
            }),
    ;

    fn asset_type() -> (r: AssetType)
        ensures
            r == Self::spec_asset_type(),
    ;
}

/// A strongly-typed asset together with the container metadata it was read
/// under.
#[derive(Debug)]
pub struct Asset<AL: AssetLike> {
    pub metadata: AssetMetadata,
    pub asset: AL,
}

/// Compares two byte slices for equality.
pub fn bytes_eq(a: &[u8], b: &[u8]) -> (r: bool)
    ensures
        r == (a@ == b@),
{
    if a.len() != b.len() {
        proof {
            assert(a@.len() != b@.len());
        }
        return false;
    }
    let mut i: usize = 0;
    while i < a.len()
        invariant
            a@.len() == b@.len(),
            0 <= i <= a@.len(),
            forall|k: int| 0 <= k < i ==> a@[k] == b@[k],
        decreases a@.len() - i,
    {
        if a[i] != b[i] {
            return false;
        }
        i = i + 1;
    }
    proof {
        assert(a@ =~= b@);
    }
    true
}

} // verus!
