//! How Cool types lower to backend types: the built-in types, and the
//! decisions that drop zero-sized parts from arrays, pointers, function
//! signatures and aggregates.
use vstd::prelude::*;
use vstd::layout::size_of;
use std::collections::HashMap;

verus! {

/// The built-in Cool types.
#[derive(Clone, Copy, PartialEq, Eq, Structural, Debug)]
pub enum PrimitiveTy {
    Unit,
    I8,
    I16,
    I32,
    I64,
    I128,
    Isize,
    U8,
    U16,
    U32,
    U64,
    U128,
    Usize,
    F32,
    F64,
    Bool,
    Char,
    CStr,
}

/// A scalar backend type.
#[derive(Clone, Copy, PartialEq, Eq, Structural, Debug)]
pub enum ScalarTy {
    Int { bits: u32 },
    F32,
    F64,
    /// A pointer to bytes.
    BytePtr,
}

/// The backend type of a built-in type on a target whose pointers have
/// `pointer_bits` bits; the unit type has none (it is zero-sized).
pub open spec fn spec_lower_primitive(ty: PrimitiveTy, pointer_bits: u32) -> Option<ScalarTy> {
    match ty {
        PrimitiveTy::Unit => None,
        PrimitiveTy::I8 | PrimitiveTy::U8 | PrimitiveTy::Bool => Some(ScalarTy::Int { bits: 8 }),
        PrimitiveTy::I16 | PrimitiveTy::U16 => Some(ScalarTy::Int { bits: 16 }),
        PrimitiveTy::I32 | PrimitiveTy::U32 | PrimitiveTy::Char => Some(ScalarTy::Int { bits: 32 }),
        PrimitiveTy::I64 | PrimitiveTy::U64 => Some(ScalarTy::Int { bits: 64 }),
        PrimitiveTy::I128 | PrimitiveTy::U128 => Some(ScalarTy::Int { bits: 128 }),
        PrimitiveTy::Isize | PrimitiveTy::Usize => Some(ScalarTy::Int { bits: pointer_bits }),
        PrimitiveTy::F32 => Some(ScalarTy::F32),
        PrimitiveTy::F64 => Some(ScalarTy::F64),
        PrimitiveTy::CStr => Some(ScalarTy::BytePtr),
    }
}

pub fn lower_primitive(ty: PrimitiveTy, pointer_bits: u32) -> (r: Option<ScalarTy>)
    ensures
        r == spec_lower_primitive(ty, pointer_bits),
{
    match ty {
        PrimitiveTy::Unit => None,
        PrimitiveTy::I8 | PrimitiveTy::U8 | PrimitiveTy::Bool => Some(ScalarTy::Int { bits: 8 }),
        PrimitiveTy::I16 | PrimitiveTy::U16 => Some(ScalarTy::Int { bits: 16 }),
        PrimitiveTy::I32 | PrimitiveTy::U32 | PrimitiveTy::Char => Some(ScalarTy::Int { bits: 32 }),
        PrimitiveTy::I64 | PrimitiveTy::U64 => Some(ScalarTy::Int { bits: 64 }),
        PrimitiveTy::I128 | PrimitiveTy::U128 => Some(ScalarTy::Int { bits: 128 }),
        PrimitiveTy::Isize | PrimitiveTy::Usize => Some(ScalarTy::Int { bits: pointer_bits }),
        PrimitiveTy::F32 => Some(ScalarTy::F32),
        PrimitiveTy::F64 => Some(ScalarTy::F64),
        PrimitiveTy::CStr => Some(ScalarTy::BytePtr),
    }
}

/// Signed and unsigned integers of one width share their backend type;
/// only the unit type is zero-sized.
pub proof fn lemma_integer_lowering_ignores_sign(pointer_bits: u32)
    ensures
        spec_lower_primitive(PrimitiveTy::I8, pointer_bits) == spec_lower_primitive(PrimitiveTy::U8, pointer_bits),
        spec_lower_primitive(PrimitiveTy::I16, pointer_bits) == spec_lower_primitive(PrimitiveTy::U16, pointer_bits),
        spec_lower_primitive(PrimitiveTy::I32, pointer_bits) == spec_lower_primitive(PrimitiveTy::U32, pointer_bits),
        spec_lower_primitive(PrimitiveTy::I64, pointer_bits) == spec_lower_primitive(PrimitiveTy::U64, pointer_bits),
        spec_lower_primitive(PrimitiveTy::I128, pointer_bits) == spec_lower_primitive(PrimitiveTy::U128, pointer_bits),
        spec_lower_primitive(PrimitiveTy::Isize, pointer_bits) == spec_lower_primitive(PrimitiveTy::Usize, pointer_bits),
        forall|t: PrimitiveTy| spec_lower_primitive(t, pointer_bits) is None <==> t == PrimitiveTy::Unit,
{
}

/// Each built-in type other than the unit type and the floats lowers to
/// an integer as wide as the Rust type of the same name holds in memory
/// (eight bits per byte of `size_of`), on every target: `i64` and `u64`
/// to 64 bits, `bool` to 8, `char` to 32; `isize` and `usize` to the
/// target's pointer width.
pub proof fn lemma_integers_keep_their_width(pointer_bits: u32)
    ensures
        spec_lower_primitive(PrimitiveTy::I8, pointer_bits) == Some(ScalarTy::Int { bits: (8 * size_of::<i8>()) as u32 }),
        spec_lower_primitive(PrimitiveTy::U8, pointer_bits) == Some(ScalarTy::Int { bits: (8 * size_of::<u8>()) as u32 }),
        spec_lower_primitive(PrimitiveTy::I16, pointer_bits) == Some(ScalarTy::Int { bits: (8 * size_of::<i16>()) as u32 }),
        spec_lower_primitive(PrimitiveTy::U16, pointer_bits) == Some(ScalarTy::Int { bits: (8 * size_of::<u16>()) as u32 }),
        spec_lower_primitive(PrimitiveTy::I32, pointer_bits) == Some(ScalarTy::Int { bits: (8 * size_of::<i32>()) as u32 }),
        spec_lower_primitive(PrimitiveTy::U32, pointer_bits) == Some(ScalarTy::Int { bits: (8 * size_of::<u32>()) as u32 }),
        spec_lower_primitive(PrimitiveTy::I64, pointer_bits) == Some(ScalarTy::Int { bits: (8 * size_of::<i64>()) as u32 }),
        spec_lower_primitive(PrimitiveTy::U64, pointer_bits) == Some(ScalarTy::Int { bits: (8 * size_of::<u64>()) as u32 }),
        spec_lower_primitive(PrimitiveTy::I128, pointer_bits) == Some(ScalarTy::Int { bits: (8 * size_of::<i128>()) as u32 }),
        spec_lower_primitive(PrimitiveTy::U128, pointer_bits) == Some(ScalarTy::Int { bits: (8 * size_of::<u128>()) as u32 }),
        spec_lower_primitive(PrimitiveTy::Bool, pointer_bits) == Some(ScalarTy::Int { bits: (8 * size_of::<bool>()) as u32 }),
        spec_lower_primitive(PrimitiveTy::Char, pointer_bits) == Some(ScalarTy::Int { bits: (8 * size_of::<char>()) as u32 }),
        spec_lower_primitive(PrimitiveTy::Isize, pointer_bits) == Some(ScalarTy::Int { bits: pointer_bits }),
        spec_lower_primitive(PrimitiveTy::Usize, pointer_bits) == Some(ScalarTy::Int { bits: pointer_bits }),
{
    broadcast use vstd::layout::layout_of_primitives;
    assert(size_of::<i8>() == 1);
    assert(size_of::<i128>() == 16);
}

/// The length of the backend array of `len` elements whose element type
/// is sized or not; `None` when the array is zero-sized (no sized element,
/// or no elements). The length is taken as a `u32`, truncated as `as` does.
pub fn lower_array(elem_is_sized: bool, len: u64) -> (r: Option<u32>)
    ensures
        r == (if elem_is_sized && len != 0 { Some(len as u32) } else { None::<u32> }),
{
    if elem_is_sized && len != 0 {
        Some(len as u32)
    } else {
        None
    }
}

/// How a pointer is represented.
#[derive(Clone, Copy, PartialEq, Eq, Structural, Debug)]
pub enum PointerRepr {
    /// A pointer to the pointee's backend type.
    ToPointee,
    /// A pointer-sized integer, for pointees that are zero-sized.
    PtrSizedInt,
}

pub fn lower_pointer(pointee_is_sized: bool) -> (r: PointerRepr)
    ensures
        r == (if pointee_is_sized { PointerRepr::ToPointee } else { PointerRepr::PtrSizedInt }),
{
    if pointee_is_sized {
        PointerRepr::ToPointee
    } else {
        PointerRepr::PtrSizedInt
    }
}

/// The number of sized fields among the first `i` of `sized`.
pub open spec fn count_sized(sized: Seq<bool>, i: int) -> nat
    decreases i,
{
    if i <= 0 {
        0
    } else {
        count_sized(sized, i - 1) + if sized[i - 1] { 1nat } else { 0nat }
    }
}

proof fn lemma_count_sized_monotone(sized: Seq<bool>, i: int, j: int)
    requires
        0 <= i <= j,
    ensures
        count_sized(sized, i) <= count_sized(sized, j),
        count_sized(sized, j) <= count_sized(sized, i) + (j - i),
    decreases j - i,
{
    if i < j {
        lemma_count_sized_monotone(sized, i, j - 1);
    }
}

/// The positions of the parameters that a function's backend signature
/// keeps (the sized ones, in order), and whether it returns a value (it
/// returns void when the return type is zero-sized).
pub fn lower_fn_signature(params_sized: &[bool], ret_is_sized: bool) -> (r: (Vec<usize>, bool))
    ensures
        r.1 == ret_is_sized,
        r.0@.len() == count_sized(params_sized@, params_sized@.len() as int),
        forall|k: int| 0 <= k < r.0@.len() ==> {
            let p = #[trigger] r.0@[k] as int;
            &&& 0 <= p < params_sized@.len()
            &&& params_sized@[p]
            &&& count_sized(params_sized@, p) == k
        },
{
    let mut kept: Vec<usize> = Vec::new();
    let mut i: usize = 0;
    while i < params_sized.len()
        invariant
            i <= params_sized@.len(),
            kept@.len() == count_sized(params_sized@, i as int),
            forall|k: int| 0 <= k < kept@.len() ==> {
                let p = #[trigger] kept@[k] as int;
                &&& 0 <= p < i
                &&& params_sized@[p]
                &&& count_sized(params_sized@, p) == k
            },
        decreases params_sized@.len() - i,
    {
        if params_sized[i] {
            kept.push(i);
        }
        i += 1;
    }
    (kept, ret_is_sized)
}

/// The slot of each field of an aggregate in its backend struct: sized
/// fields take consecutive slots in order (the slot number taken as a
/// `u32`, truncated as `as` does), zero-sized fields take none.
pub fn aggregate_slots(fields_sized: &[bool]) -> (r: Vec<Option<u32>>)
    ensures
        r@.len() == fields_sized@.len(),
        forall|i: int| 0 <= i < r@.len() ==> #[trigger] r@[i] == if fields_sized@[i] {
            Some(count_sized(fields_sized@, i) as u32)
        } else {
            None::<u32>
        },
{
    let mut slots: Vec<Option<u32>> = Vec::new();
    let mut next: usize = 0;
    let mut i: usize = 0;
    while i < fields_sized.len()
        invariant
            i <= fields_sized@.len(),
            next == count_sized(fields_sized@, i as int),
            slots@.len() == i,
            forall|j: int| 0 <= j < i ==> #[trigger] slots@[j] == if fields_sized@[j] {
                Some(count_sized(fields_sized@, j) as u32)
            } else {
                None::<u32>
            },
        decreases fields_sized@.len() - i,
    {
        proof {
            lemma_count_sized_monotone(fields_sized@, 0, i as int);
        }
        if fields_sized[i] {
            slots.push(Some(#[verifier::truncate] (next as u32)));
            next += 1;
        } else {
            slots.push(None);
        }
        i += 1;
    }
    slots
}

/// Whether an aggregate (a tuple, a struct or a slice) is sized: it is
/// when one of its fields is; with no sized field it lowers to nothing.
pub fn aggregate_is_sized(fields_sized: &[bool]) -> (r: bool)
    ensures
        r == exists|i: int| 0 <= i < fields_sized@.len() && #[trigger] fields_sized@[i],
        r == (count_sized(fields_sized@, fields_sized@.len() as int) > 0),
{
    let mut i: usize = 0;
    while i < fields_sized.len()
        invariant
            i <= fields_sized@.len(),
            forall|j: int| 0 <= j < i ==> !#[trigger] fields_sized@[j],
            count_sized(fields_sized@, i as int) == 0,
        decreases fields_sized@.len() - i,
    {
        if fields_sized[i] {
            proof {
                lemma_count_sized_monotone(fields_sized@, i as int + 1, fields_sized@.len() as int);
            }
            return true;
        }
        i += 1;
    }
    false
}

/// Sized fields get distinct slots: a later sized field gets a higher
/// slot, and the slots of the sized fields are exactly 0 up to their
/// number.
pub proof fn lemma_slots_distinct(sized: Seq<bool>, i: int, j: int)
    requires
        0 <= i < j < sized.len(),
        sized[i],
    ensures
        count_sized(sized, i) < count_sized(sized, j),
        count_sized(sized, j) <= count_sized(sized, sized.len() as int),
{
    lemma_count_sized_monotone(sized, i + 1, j);
    lemma_count_sized_monotone(sized, j, sized.len() as int);
}

/// Maps each field name of an aggregate to its slot; a name given twice
/// keeps the slot of its last sized field.
pub struct TyFieldMap {
    fields: HashMap<u32, u32>,
}

/// The field map that names with slots, in order, build.
pub open spec fn spec_field_map(fields: Seq<(u32, bool)>) -> Map<u32, u32>
    decreases fields.len(),
{
    if fields.len() == 0 {
        Map::empty()
    } else {
        let prefix = fields.drop_last();
        let last = fields.last();
        if last.1 {
            spec_field_map(prefix).insert(
                last.0,
                count_sized(fields.map_values(|f: (u32, bool)| f.1), prefix.len() as int) as u32,
            )
        } else {
            spec_field_map(prefix)
        }
    }
}

impl View for TyFieldMap {
    type V = Map<u32, u32>;

    closed spec fn view(&self) -> Map<u32, u32> {
        self.fields@
    }
}

proof fn lemma_count_sized_prefix(s: Seq<bool>, t: Seq<bool>, i: int)
    requires
        0 <= i <= s.len(),
        i <= t.len(),
        s.subrange(0, i) == t.subrange(0, i),
    ensures
        count_sized(s, i) == count_sized(t, i),
    decreases i,
{
    if i > 0 {
        assert(s.subrange(0, i - 1) =~= s.subrange(0, i).subrange(0, i - 1));
        assert(t.subrange(0, i - 1) =~= t.subrange(0, i).subrange(0, i - 1));
        assert(s[i - 1] == s.subrange(0, i)[i - 1]);
        assert(t[i - 1] == t.subrange(0, i)[i - 1]);
        lemma_count_sized_prefix(s, t, i - 1);
    }
}

impl TyFieldMap {
    /// The map of an aggregate whose fields, in order, have the names and
    /// sizedness given: sized fields get consecutive slots.
    pub fn new(fields: &[(u32, bool)]) -> (r: TyFieldMap)
        ensures
            r@ == spec_field_map(fields@),
    {
        let ghost sized = fields@.map_values(|f: (u32, bool)| f.1);
        let mut map: HashMap<u32, u32> = HashMap::new();
        let mut next: usize = 0;
        let mut i: usize = 0;
        while i < fields.len()
            invariant
                i <= fields@.len(),
                sized == fields@.map_values(|f: (u32, bool)| f.1),
                next == count_sized(sized, i as int),
                map@ == spec_field_map(fields@.subrange(0, i as int)),
            decreases fields@.len() - i,
        {
            proof {
                lemma_count_sized_monotone(sized, 0, i as int);
                let pre = fields@.subrange(0, i as int);
                let cur = fields@.subrange(0, i + 1);
                assert(cur.drop_last() =~= pre);
                let cs = cur.map_values(|f: (u32, bool)| f.1);
                assert(cs.subrange(0, i as int) =~= sized.subrange(0, i as int));
                lemma_count_sized_prefix(sized, cs, i as int);
            }
            let (symbol, is_sized) = fields[i];
            if is_sized {
                map.insert(symbol, #[verifier::truncate] (next as u32));
                next += 1;
            }
            i += 1;
        }
        proof {
            assert(fields@.subrange(0, fields@.len() as int) =~= fields@);
        }
        TyFieldMap { fields: map }
    }

    /// The slot of the field named `symbol`.
    pub fn get(&self, symbol: u32) -> (r: Option<u32>)
        ensures
            r == (if self@.contains_key(symbol) { Some(self@[symbol]) } else { None::<u32> }),
    {
        match self.fields.get(&symbol) {
            Some(slot) => Some(*slot),
            None => None,
        }
    }
}

} // verus!
