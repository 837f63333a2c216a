//! Mods: named sets of asset overrides applied to an archive in memory.
//! Reading a mod from disk is the caller's concern; this module holds the
//! model and the application step.

use vstd::prelude::*;
use vstd::string::StringSliceAdditionalSpecFns;

use crate::bnl::BNLFile;

verus! {

/// The identification block of one mod.
#[derive(Debug, Clone)]
pub struct ModSpecification {
    pub version: u32,
    pub name: String,
}

/// The replacement bytes one override carries.
#[derive(Debug, Clone)]
pub struct AssetOverride {
    pub descriptor_bytes: Vec<u8>,
    pub resource_bytes: Vec<u8>,
}

/// A mod: its identification and its overrides, keyed by asset identifier.
#[derive(Debug)]
pub struct Mod {
    spec: ModSpecification,
    overrides: Vec<(String, AssetOverride)>,
}

/// What part of a mod could not be used.
#[derive(Debug, Clone, Copy, PartialEq, Eq, Structural)]
pub enum ModErrorType {
    SpecificationError,
    AssetOverrideError,
}

/// Why a mod could not be used.
#[derive(Debug, Clone)]
pub struct ModError {
    pub error_type: ModErrorType,
    pub details: String,
}

impl Mod {
    /// The overrides, in application order.
    pub closed spec fn spec_overrides(&self) -> Seq<(String, AssetOverride)> {
        self.overrides@
    }

    /// This mod's identification block.
    pub closed spec fn spec_specification(&self) -> ModSpecification {
        self.spec
    }

    /// Builds a mod from its identification and overrides.
    pub fn new(spec: ModSpecification, overrides: Vec<(String, AssetOverride)>) -> (r: Mod)
        ensures
            r.spec_overrides() == overrides@,
            r.spec_specification() == spec,
    {
        Mod { spec, overrides }
    }

    pub fn spec(&self) -> (r: &ModSpecification)
        ensures
            r == self.spec_specification(),
    {
        &self.spec
    }

    pub fn overrides(&self) -> (r: &Vec<(String, AssetOverride)>)
        ensures
            r@ == self.spec_overrides(),
    {
        &self.overrides
    }

    /// Applies the overrides to an archive in memory: each override whose
    /// name is present replaces that entry's descriptor bytes and moves the
    /// entry to the end of the list.  Returns how many overrides applied;
    /// names the archive does not hold are skipped.
    pub fn apply(&self, bnl: &mut BNLFile) -> (r: Result<usize, ModError>)
        ensures
            r matches Ok(n) ==> n <= self.spec_overrides().len(),
    {
        let mut overrides_applied: usize = 0;
        let mut i: usize = 0;
        while i < self.overrides.len()
            invariant
                0 <= i <= self.overrides@.len(),
                overrides_applied <= i,
            decreases self.overrides@.len() - i,
        {
            let name = &self.overrides[i].0;
            match bnl.remove_asset(name.as_str()) {
                Ok(mut raw_asset) => {
                    let desc_mut = raw_asset.descriptor_bytes_mut();
                    desc_mut.clear();
                    desc_mut.extend_from_slice(self.overrides[i].1.descriptor_bytes.as_slice());
                    overrides_applied = overrides_applied + 1;
                    bnl.append_raw_asset(raw_asset);
                },
                Err(_) => {},
            }
            i = i + 1;
        }
        Ok(overrides_applied)
    }
}

} // verus!
