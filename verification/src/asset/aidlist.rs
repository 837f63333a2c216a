//! The identifier-list asset kind: a descriptor that is nothing but a run
//! of fixed-width, NUL-terminated asset identifiers.

use vstd::prelude::*;
use vstd::string::StringSliceAdditionalSpecFns;

use crate::asset::{spec_asset_name, AssetDescriptor, AssetLike, AssetName, AssetParseError, AssetType};
use crate::resource::VirtualResource;

verus! {

/// The identifier-list descriptor: the fixed-width name fields, in order.
#[derive(Debug, Clone)]
pub struct AidListDescriptor {
    asset_ids: Vec<AssetName>,
}

impl AidListDescriptor {
    /// The stored name fields, in order.
    pub closed spec fn spec_ids(&self) -> Seq<Seq<u8>> {
        self.asset_ids.deep_view()
    }

    /// Builds a descriptor from fixed-width name fields.
    pub fn from_ids(asset_ids: Vec<AssetName>) -> (r: AidListDescriptor)
        ensures
            r.spec_ids() == asset_ids.deep_view(),
    {
        AidListDescriptor { asset_ids }
    }

    /// The stored name fields, in order.
    pub fn ids(&self) -> (r: &Vec<AssetName>)
        ensures
            r.deep_view() == self.spec_ids(),
    {
        &self.asset_ids
    }

    /// Parses an identifier list: the input cut into 128-byte name fields;
    /// fails exactly when the input is not a whole number of fields.
    pub fn parse(data: &[u8]) -> (r: Result<AidListDescriptor, AssetParseError>)
        ensures
            data@.len() % 128 == 0 ==> (r matches Ok(d) && d.spec_ids().len() == data@.len() / 128
                && (forall|i: int|
                0 <= i < d.spec_ids().len() ==> #[trigger] d.spec_ids()[i] == data@.subrange(
                    128 * i,
                    128 * (i + 1),
                ))),
            data@.len() % 128 != 0 ==> (r matches Err(e) && e matches
                AssetParseError::InvalidDataViews(_)),
    {
        if data.len() % 128 != 0 {
            return Err(
                AssetParseError::InvalidDataViews(
                    "The input is not a whole number of name fields.".to_owned(),
                ),
            );
        }
        let n = data.len() / 128;
        let mut asset_ids: Vec<AssetName> = Vec::new();
        let mut i: usize = 0;
        while i < n
            invariant
                data@.len() % 128 == 0,
                data@.len() <= usize::MAX,
                n == data@.len() / 128,
                0 <= i <= n,
                asset_ids.deep_view().len() == i,
                forall|k: int|
                    0 <= k < i ==> #[trigger] asset_ids.deep_view()[k] == data@.subrange(
                        128 * k,
                        128 * (k + 1),
                    ),
            decreases n - i,
        {
            proof {
                assert(128 * (i + 1) <= data@.len()) by (nonlinear_arith)
                    requires
                        0 <= i < n && n == data@.len() / 128 && data@.len() % 128 == 0,
                ;
            }
            let base: usize = 128 * i;
            let mut field: [u8; 128] = [0; 128];
            let mut j: usize = 0;
            while j < 128
                invariant
                    0 <= j <= 128,
                    i < n,
                    base == 128 * i,
                    base + 128 <= data@.len(),
                    field@.len() == 128,
                    forall|k: int| 0 <= k < j ==> field@[k] == data@[base + k],
                decreases 128 - j,
            {
                field[j] = data[base + j];
                j = j + 1;
            }
            proof {
                assert(field@ =~= data@.subrange(128 * i as int, 128 * (i + 1)));
            }
            let ghost prev_ids = asset_ids.deep_view();
            asset_ids.push(field);
            proof {
                assert(asset_ids.deep_view() =~~= prev_ids.push(field@));
            }
            i = i + 1;
        }
        Ok(AidListDescriptor { asset_ids })
    }

    /// Serializes the name fields back to back.
    pub fn serialize(&self) -> (r: Vec<u8>)
        ensures
            r@.len() == 128 * self.spec_ids().len(),
            forall|i: int|
                0 <= i < self.spec_ids().len() ==> r@.subrange(128 * i, 128 * (i + 1))
                    == #[trigger] self.spec_ids()[i],
    {
        let mut out: Vec<u8> = Vec::new();
        let mut i: usize = 0;
        while i < self.asset_ids.len()
            invariant
                0 <= i <= self.asset_ids@.len(),
                out@.len() == 128 * i,
                forall|k: int|
                    0 <= k < i ==> out@.subrange(128 * k, 128 * (k + 1)) == #[trigger] self.spec_ids()[k],
            decreases self.asset_ids@.len() - i,
        {
            let ghost prev = out@;
            let field = &self.asset_ids[i];
            let mut j: usize = 0;
            while j < 128
                invariant
                    0 <= j <= 128,
                    i < self.asset_ids@.len(),
                    field@.len() == 128,
                    field@ == self.spec_ids()[i as int],
                    out@ =~= prev + field@.take(j as int),
                    prev.len() == 128 * i,
                decreases 128 - j,
            {
                out.push(field[j]);
                j = j + 1;
            }
            proof {
                assert(out@ =~= prev + field@);
                assert forall|k: int| 0 <= k < i + 1 implies out@.subrange(128 * k, 128 * (k + 1))
                    == self.spec_ids()[k] by {
                    if k < i {
                        assert(out@.subrange(128 * k, 128 * (k + 1)) =~= prev.subrange(
                            128 * k,
                            128 * (k + 1),
                        ));
                    } else {
                        assert(out@.subrange(128 * k, 128 * (k + 1)) =~= field@);
                    }
                }
            }
            i = i + 1;
        }
        out
    }
}

/// The 128-byte field an identifier embeds to: its bytes, cut to the field
/// width less the terminator, padded with NULs.
pub open spec fn spec_padded_id(b: Seq<u8>) -> Seq<u8> {
    Seq::new(
        128,
        |j: int|
            if j < b.len() && j < 127 {
                b[j]
            } else {
                0u8
            },
    )
}

impl AssetDescriptor for AidListDescriptor {
    open spec fn spec_asset_type() -> AssetType {
        AssetType::ResAidList
    }

    open spec fn parsed_from(&self, data: Seq<u8>) -> bool {
        &&& data.len() % 128 == 0
        &&& self.spec_ids().len() == data.len() / 128
        &&& forall|i: int|
            0 <= i < self.spec_ids().len() ==> #[trigger] self.spec_ids()[i] == data.subrange(
                128 * i,
                128 * (i + 1),
            )
    }

    open spec fn serialized_to(&self, bytes: Seq<u8>) -> bool {
        &&& bytes.len() == 128 * self.spec_ids().len()
        &&& forall|i: int|
            0 <= i < self.spec_ids().len() ==> bytes.subrange(128 * i, 128 * (i + 1))
                == #[trigger] self.spec_ids()[i]
    }

    fn from_bytes(data: &[u8]) -> Result<AidListDescriptor, AssetParseError> {
        AidListDescriptor::parse(data)
    }

    fn to_bytes(&self) -> Result<Vec<u8>, AssetParseError> {
        Ok(self.serialize())
    }

    fn size(&self) -> usize {
        if self.asset_ids.len() > usize::MAX / 128 {
            usize::MAX
        } else {
            self.asset_ids.len() * 128
        }
    }

    fn asset_type() -> (r: AssetType) {
        AssetType::ResAidList
    }
}

/// An identifier list: the identifiers as strings.
#[derive(Debug, Clone)]
pub struct AidList {
    asset_ids: Vec<String>,
}

impl AidList {
    /// The identifiers, in order.
    pub closed spec fn spec_ids(&self) -> Seq<Seq<char>> {
        self.asset_ids.deep_view()
    }

    /// Builds a list from identifier strings.
    pub fn from_strings(asset_ids: Vec<String>) -> (r: AidList)
        ensures
            r.spec_ids() == asset_ids.deep_view(),
    {
        AidList { asset_ids }
    }

    /// The identifiers, in order.
    pub fn asset_ids(&self) -> (r: &Vec<String>)
        ensures
            r.deep_view() == self.spec_ids(),
    {
        &self.asset_ids
    }

    pub fn asset_ids_mut(&mut self) -> (r: &mut Vec<String>)
        ensures
            r.deep_view() == old(self).spec_ids(),
            final(self).spec_ids() == final(r).deep_view(),
    {
        &mut self.asset_ids
    }
}

impl AssetLike for AidList {
    type Descriptor = AidListDescriptor;

    open spec fn spec_asset_type() -> AssetType {
        AssetType::ResAidList
    }

    open spec fn built_from(&self, descriptor: AidListDescriptor, chunks: Seq<Seq<u8>>) -> bool {
        &&& self.spec_ids().len() == descriptor.spec_ids().len()
        &&& forall|i: int|
            0 <= i < self.spec_ids().len() ==> vstd::utf8::encode_utf8(
                #[trigger] self.spec_ids()[i],
            ) == spec_asset_name(descriptor.spec_ids()[i])
    }

    open spec fn describes(&self, descriptor: AidListDescriptor) -> bool {
        &&& descriptor.spec_ids().len() == self.spec_ids().len()
        &&& forall|i: int|
            0 <= i < self.spec_ids().len() ==> #[trigger] descriptor.spec_ids()[i]
                == spec_padded_id(vstd::utf8::encode_utf8(self.spec_ids()[i]))
    }

    open spec fn spec_chunks(&self) -> Option<Seq<Seq<u8>>> {
        None
    }

    fn new(descriptor: &AidListDescriptor, _virtual_res: &VirtualResource) -> Result<
        AidList,
        AssetParseError,
    > {
        let mut strings: Vec<String> = Vec::new();
        let mut i: usize = 0;
        while i < descriptor.asset_ids.len()
            invariant
                0 <= i <= descriptor.asset_ids@.len(),
                strings.deep_view().len() == i,
                forall|k: int|
                    0 <= k < i ==> vstd::utf8::encode_utf8(#[trigger] strings.deep_view()[k])
                        == spec_asset_name(descriptor.spec_ids()[k]),
            decreases descriptor.asset_ids@.len() - i,
        {
            let field = &descriptor.asset_ids[i];
            let mut has_nul = false;
            let mut j: usize = 0;
            while j < 128
                invariant
                    0 <= j <= 128,
                    field@.len() == 128,
                decreases 128 - j,
            {
                if field[j] == 0 {
                    has_nul = true;
                    break ;
                }
                j = j + 1;
            }
            if !has_nul {
                return Err(
                    AssetParseError::InvalidDataViews(
                        "An identifier has no NUL terminator.".to_owned(),
                    ),
                );
            }
            let prefix = crate::asset::asset_name_bytes(field);
            proof {
                assert(field@ == descriptor.spec_ids()[i as int]);
            }
            match crate::asset::utf8_owned(prefix.as_slice()) {
                Some(s) => {
                    let ghost prev = strings.deep_view();
                    let ghost sv = s@;
                    strings.push(s);
                    proof {
                        assert(strings.deep_view() =~~= prev.push(sv));
                    }
                },
                None => {
                    return Err(AssetParseError::ErrorParsingDescriptor);
                },
            }
            i = i + 1;
        }
        let r = AidList { asset_ids: strings };
        proof {
            assert(r.built_from(*descriptor, _virtual_res.spec_slices()));
        }
        Ok(r)
    }

    fn get_descriptor(&self) -> AidListDescriptor {
        let mut asset_ids: Vec<AssetName> = Vec::new();
        let mut i: usize = 0;
        while i < self.asset_ids.len()
            invariant
                0 <= i <= self.asset_ids@.len(),
                asset_ids.deep_view().len() == i,
                forall|k: int|
                    0 <= k < i ==> #[trigger] asset_ids.deep_view()[k] == spec_padded_id(
                        vstd::utf8::encode_utf8(self.spec_ids()[k]),
                    ),
            decreases self.asset_ids@.len() - i,
        {
            let bytes = self.asset_ids[i].as_str().as_bytes_vec();
            let ghost eb = vstd::utf8::encode_utf8(self.spec_ids()[i as int]);
            proof {
                assert(bytes@ == eb);
            }
            let mut field: [u8; 128] = [0; 128];
            let mut j: usize = 0;
            while j < 127 && j < bytes.len()
                invariant
                    0 <= j <= 127,
                    j <= bytes@.len(),
                    bytes@ == eb,
                    field@.len() == 128,
                    forall|k: int| 0 <= k < j ==> field@[k] == eb[k],
                    forall|k: int| j <= k < 128 ==> field@[k] == 0,
                decreases 127 - j,
            {
                field[j] = bytes[j];
                j = j + 1;
            }
            proof {
                assert(field@ =~= spec_padded_id(eb));
            }
            let ghost prev = asset_ids.deep_view();
            asset_ids.push(field);
            proof {
                assert(asset_ids.deep_view() =~~= prev.push(field@));
            }
            i = i + 1;
        }
        let r = AidListDescriptor { asset_ids };
        proof {
            assert(self.describes(r));
        }
        r
    }

    fn get_resource_chunks(&self) -> Option<Vec<Vec<u8>>> {
        None
    }

    fn asset_type() -> (r: AssetType) {
        AssetType::ResAidList
    }
}

} // verus!
