//! The scene-script asset kind: a descriptor holding a sequence of sized,
//! opcoded operations, terminated by the end-of-script operation.

use vstd::prelude::*;

use crate::asset::param::KnownUnknown;
use crate::asset::script_ops::{
    spec_opcode_from_u32, spec_opcode_to_u32, KnownOpcode, ScriptOpcode,
};
use crate::asset::{AssetDescriptor, AssetLike, AssetParseError, AssetType};
use crate::bytes::{le32, read_u32_le, u32_le_bytes};
use crate::resource::VirtualResource;

verus! {

/// Why a script operation could not be changed.
#[derive(Debug, Clone, PartialEq)]
pub enum ScriptError {
    SizeMismatch,
    InvalidInput,
    UnsupportedOutputType,
}

/// The mathematical content of one script operation.
pub struct ScriptOperationView {
    pub size: u32,
    pub opcode: u32,
    pub operands: Seq<u8>,
}

/// One operation of a script: its recorded size, its opcode, and its raw
/// operand bytes.
#[derive(Debug, Clone)]
pub struct ScriptOperation {
    size: u32,
    opcode: ScriptOpcode,
    operand_bytes: Vec<u8>,
}

impl View for ScriptOperation {
    type V = ScriptOperationView;

    closed spec fn view(&self) -> ScriptOperationView {
        ScriptOperationView {
            size: self.size,
            opcode: spec_opcode_to_u32(self.opcode),
            operands: self.operand_bytes@,
        }
    }
}

impl DeepView for ScriptOperation {
    type V = ScriptOperationView;

    open spec fn deep_view(&self) -> ScriptOperationView {
        self.view()
    }
}

impl ScriptOperation {
    pub fn new(size: u32, opcode: ScriptOpcode, operand_bytes: Vec<u8>) -> (r: ScriptOperation)
        ensures
            r@.size == size,
            r@.opcode == spec_opcode_to_u32(opcode),
            r@.operands == operand_bytes@,
    {
        ScriptOperation { size, opcode, operand_bytes }
    }

    pub fn size(&self) -> (r: u32)
        ensures
            r == self@.size,
    {
        self.size
    }

    pub fn opcode(&self) -> (r: &ScriptOpcode)
        ensures
            spec_opcode_to_u32(*r) == self@.opcode,
    {
        &self.opcode
    }

    pub fn operand_bytes(&self) -> (r: &Vec<u8>)
        ensures
            r@ == self@.operands,
    {
        &self.operand_bytes
    }

    pub fn operand_bytes_mut(&mut self) -> (r: &mut Vec<u8>)
        ensures
            r@ == old(self)@.operands,
            final(self)@ == (ScriptOperationView { operands: final(r)@, ..old(self)@ }),
    {
        &mut self.operand_bytes
    }

    /// Serializes this operation: a recomputed size field (the operand
    /// width plus the eight header bytes), the opcode, then the operands.
    pub fn to_bytes(&self) -> (r: Vec<u8>)
        requires
            self@.operands.len() + 8 <= u32::MAX,
        ensures
            r@ == spec_op_bytes(self@),
    {
        let size = (self.operand_bytes.len() + 8) as u32;
        let mut out: Vec<u8> = Vec::new();
        crate::bytes::push_u32_le(&mut out, size);
        crate::bytes::push_u32_le(&mut out, crate::asset::script_ops::opcode_to_u32(&self.opcode));
        out.extend_from_slice(self.operand_bytes.as_slice());
        proof {
            assert(out@ =~= spec_op_bytes(self@));
        }
        out
    }
}

/// The bytes one operation serializes to, its size field re-derived from
/// its operand width.
pub open spec fn spec_op_bytes(v: ScriptOperationView) -> Seq<u8> {
    u32_le_bytes((v.operands.len() + 8) as u32) + u32_le_bytes(v.opcode) + v.operands
}

/// The bytes a sequence of operations serializes to.
pub open spec fn spec_ops_bytes(ops: Seq<ScriptOperationView>) -> Seq<u8>
    decreases ops.len(),
{
    if ops.len() == 0 {
        Seq::empty()
    } else {
        spec_op_bytes(ops[0]) + spec_ops_bytes(ops.drop_first())
    }
}

/// The operations parsed from `b` starting at `pos`: sized records follow
/// one another until the end-of-script opcode, whose record must declare
/// exactly the eight header bytes.  `None` when any record is malformed or
/// runs past the buffer.
pub open spec fn spec_parse_ops(b: Seq<u8>, pos: int) -> Option<Seq<ScriptOperationView>>
    decreases b.len() - pos,
{
    if pos < 0 || pos + 8 > b.len() {
        None
    } else {
        let size = le32(b.subrange(pos, pos + 4));
        let opcode = le32(b.subrange(pos + 4, pos + 8));
        if opcode == 0 {
            if size == 8 {
                Some(
                    seq![
                        ScriptOperationView { size: 8, opcode: 0, operands: Seq::empty() },
                    ],
                )
            } else {
                None
            }
        } else if size < 8 {
            None
        } else if pos + size > b.len() {
            None
        } else {
            match spec_parse_ops(b, pos + size) {
                None => None,
                Some(rest) => Some(
                    seq![
                        ScriptOperationView {
                            size: size as u32,
                            opcode: opcode as u32,
                            operands: b.subrange(pos + 8, pos + size),
                        },
                    ] + rest,
                ),
            }
        }
    }
}

/// A script descriptor: the ordered operations of one scene script.
#[derive(Debug, Clone)]
pub struct ScriptDescriptor {
    operations: Vec<ScriptOperation>,
}

impl ScriptDescriptor {
    /// The operations, in script order.
    pub closed spec fn spec_operations(&self) -> Seq<ScriptOperationView> {
        self.operations.deep_view()
    }

    pub fn operations(&self) -> (r: &Vec<ScriptOperation>)
        ensures
            r.deep_view() == self.spec_operations(),
    {
        &self.operations
    }

    pub fn operations_mut(&mut self) -> (r: &mut Vec<ScriptOperation>)
        ensures
            r.deep_view() == old(self).spec_operations(),
            final(self).spec_operations() == final(r).deep_view(),
    {
        &mut self.operations
    }

    /// Parses a script: operations until the end-of-script record,
    /// succeeding exactly when the byte layout is well formed.
    pub fn parse(data: &[u8]) -> (r: Result<ScriptDescriptor, AssetParseError>)
        ensures
            spec_parse_ops(data@, 0) matches Some(ops) ==> (r matches Ok(d) && d.spec_operations()
                == ops),
            spec_parse_ops(data@, 0) is None ==> r is Err,
    {
        let mut operations: Vec<ScriptOperation> = Vec::new();
        let mut pos: usize = 0;
        let total = data.len();
        proof {
            assert(operations.deep_view() =~= Seq::<ScriptOperationView>::empty());
            assert(data@.len() == total);
        }
        loop
            invariant_except_break
                spec_parse_ops(data@, 0) == (match spec_parse_ops(data@, pos as int) {
                    None => None::<Seq<ScriptOperationView>>,
                    Some(rest) => Some(operations.deep_view() + rest),
                }),
            invariant
                0 <= pos <= data@.len(),
                data@.len() <= usize::MAX,
            ensures
                spec_parse_ops(data@, 0) == Some(operations.deep_view()),
            decreases data@.len() - pos,
        {
            if pos > data.len() || data.len() - pos < 8 {
                return Err(AssetParseError::InputTooSmall);
            }
            let size = read_u32_le(data, pos);
            let opcode = read_u32_le(data, pos + 4);
            proof {
                assert(data@.subrange(pos as int, pos as int + 4) == data@.subrange(
                    pos as int,
                    pos + 4,
                ));
            }
            if opcode == 0 {
                if size == 8 {
                    let ghost prev = operations.deep_view();
                    operations.push(
                        ScriptOperation {
                            size: 8,
                            opcode: KnownUnknown::Known(KnownOpcode::EndScript),
                            operand_bytes: Vec::new(),
                        },
                    );
                    proof {
                        assert(operations.deep_view() =~~= prev.push(
                            ScriptOperationView { size: 8, opcode: 0, operands: Seq::empty() },
                        ));
                        assert(prev + seq![
                            ScriptOperationView { size: 8, opcode: 0, operands: Seq::empty() },
                        ] =~= operations.deep_view());
                    }
                    break ;
                } else {
                    return Err(AssetParseError::ErrorParsingDescriptor);
                }
            }
            if size < 8 {
                return Err(AssetParseError::ErrorParsingDescriptor);
            }
            if (size as u64) > (data.len() - pos) as u64 {
                return Err(AssetParseError::InputTooSmall);
            }
            let operand_bytes = vstd::slice::slice_to_vec(
                vstd::slice::slice_subrange(data, pos + 8, pos + size as usize),
            );
            let ghost prev = operations.deep_view();
            let ghost opv = ScriptOperationView {
                size,
                opcode,
                operands: data@.subrange(pos as int + 8, pos + size as int),
            };
            operations.push(
                ScriptOperation {
                    size,
                    opcode: crate::asset::script_ops::opcode_from_u32(opcode),
                    operand_bytes,
                },
            );
            proof {
                lemma_opcode_round_trip(opcode);
                assert(operations.deep_view() =~~= prev.push(opv));
                assert(prev.push(opv) =~= prev + seq![opv]);
            }
            pos = pos + size as usize;
        }
        Ok(ScriptDescriptor { operations })
    }

    /// Serializes the operations in order, each size field re-derived from
    /// its operand width.
    pub fn serialize(&self) -> (r: Vec<u8>)
        requires
            forall|i: int|
                0 <= i < self.spec_operations().len() ==> (#[trigger] self.spec_operations()[i]).operands.len()
                    + 8 <= u32::MAX,
        ensures
            r@ == spec_ops_bytes(self.spec_operations()),
    {
        let mut out: Vec<u8> = Vec::new();
        let mut i: usize = 0;
        while i < self.operations.len()
            invariant
                forall|k: int|
                    0 <= k < self.spec_operations().len() ==> (
                    #[trigger] self.spec_operations()[k]).operands.len() + 8 <= u32::MAX,
                0 <= i <= self.operations@.len(),
                self.operations@.len() == self.spec_operations().len(),
                out@ =~= spec_ops_bytes(self.spec_operations().take(i as int)),
            decreases self.operations@.len() - i,
        {
            proof {
                assert(self.spec_operations()[i as int] == self.operations@[i as int]@);
            }
            let op_bytes = self.operations[i].to_bytes();
            out.extend_from_slice(op_bytes.as_slice());
            proof {
                lemma_ops_bytes_snoc(self.spec_operations().take(i as int), self.spec_operations()[i as int]);
                assert(self.spec_operations().take(i + 1) =~= self.spec_operations().take(
                    i as int,
                ).push(self.spec_operations()[i as int]));
            }
            i = i + 1;
        }
        proof {
            assert(self.spec_operations().take(self.spec_operations().len() as int)
                =~= self.spec_operations());
        }
        out
    }
}

/// Appending one operation appends its bytes.
proof fn lemma_ops_bytes_snoc(ops: Seq<ScriptOperationView>, v: ScriptOperationView)
    ensures
        spec_ops_bytes(ops.push(v)) =~= spec_ops_bytes(ops) + spec_op_bytes(v),
    decreases ops.len(),
{
    assert(spec_ops_bytes(ops.push(v)) == spec_op_bytes(ops.push(v)[0]) + spec_ops_bytes(
        ops.push(v).drop_first(),
    ));
    if ops.len() == 0 {
        assert(ops.push(v)[0] == v);
        assert(ops.push(v).drop_first() =~= Seq::<ScriptOperationView>::empty());
        assert(spec_ops_bytes(ops.push(v).drop_first()) == Seq::<u8>::empty());
    } else {
        lemma_ops_bytes_snoc(ops.drop_first(), v);
        assert(ops.push(v)[0] == ops[0]);
        assert(ops.push(v).drop_first() =~= ops.drop_first().push(v));
        assert(spec_ops_bytes(ops.push(v).drop_first()) == spec_ops_bytes(
            ops.drop_first().push(v),
        ));
    }
}

/// Decoding a known opcode's code yields that opcode back.
proof fn lemma_opcode_round_trip(c: u32)
    ensures
        spec_opcode_to_u32(spec_opcode_from_u32(c)) == c,
{
}

impl AssetDescriptor for ScriptDescriptor {
    open spec fn spec_asset_type() -> AssetType {
        AssetType::ResScript
    }

    open spec fn parsed_from(&self, data: Seq<u8>) -> bool {
        spec_parse_ops(data, 0) == Some(self.spec_operations())
    }

    open spec fn serialized_to(&self, bytes: Seq<u8>) -> bool {
        bytes == spec_ops_bytes(self.spec_operations())
    }

    fn from_bytes(data: &[u8]) -> Result<ScriptDescriptor, AssetParseError> {
        ScriptDescriptor::parse(data)
    }

    fn to_bytes(&self) -> Result<Vec<u8>, AssetParseError> {
        let mut ok = true;
        let mut i: usize = 0;
        while i < self.operations.len()
            invariant
                0 <= i <= self.operations@.len(),
                ok ==> forall|k: int|
                    0 <= k < i ==> (#[trigger] self.operations@[k]@).operands.len() + 8
                        <= u32::MAX,
            decreases self.operations@.len() - i,
        {
            if self.operations[i].operand_bytes().len() > u32::MAX as usize - 8 {
                ok = false;
            }
            i = i + 1;
        }
        if !ok {
            return Err(AssetParseError::ErrorParsingDescriptor);
        }
        proof {
            assert(forall|k: int|
                0 <= k < self.spec_operations().len() ==> (
                #[trigger] self.spec_operations()[k]).operands.len() + 8 <= u32::MAX);
        }
        Ok(self.serialize())
    }

    fn size(&self) -> usize {
        let mut total: usize = 0;
        let mut i: usize = 0;
        while i < self.operations.len()
            invariant
                0 <= i <= self.operations@.len(),
            decreases self.operations@.len() - i,
        {
            let sz = self.operations[i].size();
            total = match total.checked_add(sz as usize) {
                Some(t) => t,
                None => usize::MAX,
            };
            i = i + 1;
        }
        total
    }

    fn asset_type() -> (r: AssetType) {
        AssetType::ResScript
    }
}

/// A script asset: its parsed descriptor plus its raw resource chunks.
#[derive(Debug)]
pub struct Script {
    descriptor: ScriptDescriptor,
    data: Vec<Vec<u8>>,
}

impl Script {
    /// The raw resource chunks this script was read with.
    pub closed spec fn spec_data(&self) -> Seq<Seq<u8>> {
        self.data.deep_view()
    }

    pub fn descriptor_mut(&mut self) -> (r: &mut ScriptDescriptor)
        ensures
            r.spec_operations() == old(self).spec_operations(),
            final(self).spec_operations() == final(r).spec_operations(),
            final(self).spec_data() == old(self).spec_data(),
    {
        &mut self.descriptor
    }

    /// The operations of this script's descriptor.
    pub closed spec fn spec_operations(&self) -> Seq<ScriptOperationView> {
        self.descriptor.spec_operations()
    }

    /// The chunks this script hands back for storage: none at all when it
    /// was read without a payload, never an empty list.
    pub fn chunks_opt(&self) -> (r: Option<Vec<Vec<u8>>>)
        ensures
            self.spec_data().len() == 0 <==> r is None,
            r matches Some(c) ==> c.deep_view() == self.spec_data(),
    {
        if self.data.len() == 0 {
            return None;
        }
        Some(crate::bnl::copy_chunks(&self.data))
    }
}

impl AssetLike for Script {
    type Descriptor = ScriptDescriptor;

    open spec fn spec_asset_type() -> AssetType {
        AssetType::ResScript
    }

    open spec fn built_from(&self, descriptor: ScriptDescriptor, chunks: Seq<Seq<u8>>) -> bool {
        self.spec_operations() == descriptor.spec_operations() && self.spec_data() == chunks
    }

    open spec fn describes(&self, descriptor: ScriptDescriptor) -> bool {
        descriptor.spec_operations() == self.spec_operations()
    }

    open spec fn spec_chunks(&self) -> Option<Seq<Seq<u8>>> {
        if self.spec_data().len() == 0 {
            None
        } else {
            Some(self.spec_data())
        }
    }

    fn new(descriptor: &ScriptDescriptor, virtual_res: &VirtualResource) -> Result<
        Script,
        AssetParseError,
    > {
        Ok(Script { descriptor: descriptor.clone_descriptor(), data: virtual_res.chunk_copies() })
    }

    fn get_descriptor(&self) -> ScriptDescriptor {
        self.descriptor.clone_descriptor()
    }

    fn get_resource_chunks(&self) -> Option<Vec<Vec<u8>>> {
        self.chunks_opt()
    }

    fn asset_type() -> (r: AssetType) {
        AssetType::ResScript
    }
}

impl ScriptDescriptor {
    /// An owned copy of this descriptor.
    pub fn clone_descriptor(&self) -> (r: ScriptDescriptor)
        ensures
            r.spec_operations() == self.spec_operations(),
    {
        let mut ops: Vec<ScriptOperation> = Vec::new();
        let mut i: usize = 0;
        while i < self.operations.len()
            invariant
                0 <= i <= self.operations@.len(),
                ops.deep_view() =~= self.operations.deep_view().take(i as int),
            decreases self.operations@.len() - i,
        {
            let ghost prev = ops.deep_view();
            let op = &self.operations[i];
            let copy = ScriptOperation {
                size: op.size,
                opcode: op.opcode,
                operand_bytes: crate::bnl::copy_bytes(&op.operand_bytes),
            };
            proof {
                assert(copy@ == self.operations.deep_view()[i as int]);
            }
            ops.push(copy);
            proof {
                assert(ops.deep_view() =~~= prev.push(copy@));
                assert(ops.deep_view() =~~= self.operations.deep_view().take(i + 1));
            }
            i = i + 1;
        }
        proof {
            assert(ops.deep_view() =~= self.operations.deep_view());
        }
        ScriptDescriptor { operations: ops }
    }
}

} // verus!
