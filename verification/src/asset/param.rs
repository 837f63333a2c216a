//! Operation parameters: the shapes and primitive values that script and
//! marker operations carry in their operand bytes.

use vstd::prelude::*;
use vstd::string::StringSliceAdditionalSpecFns;

use crate::bytes::{u16_le_bytes, u32_le_bytes, u64_le_bytes};

verus! {

/// A value that is either one of the named, known cases or an unrecognized
/// raw value carried through unchanged.
#[derive(Debug, Clone, Copy, PartialEq)]
pub enum KnownUnknown<K, U> {
    Known(K),
    Unknown(U),
}

/// A value that can serialize itself into operand bytes.
pub trait Param {
    /// The bytes this value serializes to.
    spec fn spec_param_bytes(&self) -> Seq<u8>;

    fn to_param_bytes(&self) -> (r: Vec<u8>)
        ensures
            r@ == self.spec_param_bytes(),
    ;
}

impl Param for u8 {
    open spec fn spec_param_bytes(&self) -> Seq<u8> {
        seq![*self]
    }

    fn to_param_bytes(&self) -> (r: Vec<u8>) {
        let mut out: Vec<u8> = Vec::new();
        out.push(*self);
        proof {
            assert(out@ =~= seq![*self]);
        }
        out
    }
}

impl Param for u16 {
    open spec fn spec_param_bytes(&self) -> Seq<u8> {
        u16_le_bytes(*self)
    }

    fn to_param_bytes(&self) -> (r: Vec<u8>) {
        let mut out: Vec<u8> = Vec::new();
        crate::bytes::push_u16_le(&mut out, *self);
        out
    }
}

impl Param for u32 {
    open spec fn spec_param_bytes(&self) -> Seq<u8> {
        u32_le_bytes(*self)
    }

    fn to_param_bytes(&self) -> (r: Vec<u8>) {
        let mut out: Vec<u8> = Vec::new();
        crate::bytes::push_u32_le(&mut out, *self);
        out
    }
}

impl Param for u64 {
    open spec fn spec_param_bytes(&self) -> Seq<u8> {
        u64_le_bytes(*self)
    }

    fn to_param_bytes(&self) -> (r: Vec<u8>) {
        let mut out: Vec<u8> = Vec::new();
        crate::bytes::push_u64_le(&mut out, *self);
        out
    }
}

impl Param for Vec<u8> {
    open spec fn spec_param_bytes(&self) -> Seq<u8> {
        self@
    }

    fn to_param_bytes(&self) -> (r: Vec<u8>) {
        let mut out: Vec<u8> = Vec::new();
        out.extend_from_slice(self.as_slice());
        out
    }
}

impl Param for String {
    open spec fn spec_param_bytes(&self) -> Seq<u8> {
        vstd::utf8::encode_utf8(self@)
    }

    fn to_param_bytes(&self) -> (r: Vec<u8>) {
        self.as_str().as_bytes_vec()
    }
}

/// The primitive type of one operation parameter and, for the sized kinds,
/// its byte width.
#[derive(Debug)]
pub enum ParamType {
    F32,
    F64,
    U8,
    I8,
    I16,
    U16,
    I32,
    U32,
    I64,
    U64,
    String(usize),
    WString(usize),
    Bytes(usize),
}

impl ParamType {
    /// The byte width a value of this type occupies in the operand bytes.
    pub open spec fn spec_size(&self) -> usize {
        match self {
            ParamType::F32 | ParamType::U32 | ParamType::I32 => 4,
            ParamType::F64 | ParamType::U64 | ParamType::I64 => 8,
            ParamType::U8 | ParamType::I8 => 1,
            ParamType::U16 | ParamType::I16 => 2,
            ParamType::String(size) => *size,
            ParamType::WString(size) => *size,
            ParamType::Bytes(size) => *size,
        }
    }

    /// The byte width a value of this type occupies in the operand bytes.
    pub fn size(&self) -> (r: usize)
        ensures
            r == self.spec_size(),
    {
        match self {
            ParamType::F32 | ParamType::U32 | ParamType::I32 => 4,
            ParamType::F64 | ParamType::U64 | ParamType::I64 => 8,
            ParamType::U8 | ParamType::I8 => 1,
            ParamType::U16 | ParamType::I16 => 2,
            ParamType::String(size) => *size,
            ParamType::WString(size) => *size,
            ParamType::Bytes(size) => *size,
        }
    }
}

/// One named parameter of an operation: its primitive type and a prose
/// description.
#[derive(Debug)]
pub struct ParamDescriptor {
    pub param_type: ParamType,
    pub description: String,
}

impl ParamDescriptor {
    pub fn param_type(&self) -> (r: &ParamType)
        ensures
            r == self.param_type,
    {
        &self.param_type
    }

    pub fn description(&self) -> (r: &String)
        ensures
            r == self.description,
    {
        &self.description
    }
}

} // verus!
