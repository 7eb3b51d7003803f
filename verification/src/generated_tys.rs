//! The backend types of a program's types, each computed once and then
//! remembered. A zero-sized type lowers to nothing, and that propagates:
//! an array of no element or of zero-sized elements, and a tuple or slice
//! with no sized field, lower to nothing; a pointer to a zero-sized type is
//! a pointer-sized integer; a function signature drops its zero-sized
//! parameters and returns void for a zero-sized return type. A struct type
//! is declared by name before anything is lowered, so it always has a
//! backend type (a named struct, whose body holds its sized fields).
use vstd::prelude::*;
use crate::ty_lowering::{spec_field_map, ScalarTy, TyFieldMap};

verus! {

/// The shape of a type of the program. The types it is made of are named
/// by their ids. Types are interned after the types they are made of, so
/// the ids a shape names are smaller than its own, except for the fields
/// of a struct, which is declared before its fields are known.
pub enum TyShape {
    /// A built-in type, with its backend type (`None` for the unit type).
    Builtin(Option<ScalarTy>),
    Fn { params: Vec<u32>, ret: u32, is_variadic: bool },
    Array { elem: u32, len: u64 },
    /// A tuple or a slice, by its fields: (name, type id) pairs.
    Aggregate { fields: Vec<(u32, u32)> },
    /// A struct, by its fields: (name, type id) pairs.
    Struct { fields: Vec<(u32, u32)> },
    /// A pointer, to one value or to many.
    Ptr { pointee: u32 },
}

/// A backend type; the types it is built from are named by type ids.
#[derive(Clone, Copy, PartialEq, Eq, Structural, Debug)]
pub enum LoweredTy {
    Scalar(ScalarTy),
    /// An array of the element type's backend type; the length is taken
    /// as a `u32`, truncated as `as` does.
    Array { elem: u32, len: u32 },
    /// An anonymous struct of the backend types of the sized fields, in
    /// order.
    Struct,
    /// The named struct declared for a struct type.
    Named,
    /// A pointer to the pointee's backend type.
    Ptr { pointee: u32 },
    /// A pointer-sized integer: a pointer to a zero-sized type.
    PtrSizedInt,
    /// A pointer to the function type recorded for the type.
    FnPtr,
}

/// The backend signature of a function type: the ids of its sized
/// parameters in order, its return type unless that is zero-sized (the
/// function then returns void), and whether it is variadic.
pub struct FnSig {
    pub params: Vec<u32>,
    pub ret: Option<u32>,
    pub is_variadic: bool,
}

/// The ids a shape names lie below `id`, the struct's fields aside.
pub open spec fn components_below(shape: TyShape, id: int) -> bool {
    match shape {
        TyShape::Builtin(_) => true,
        TyShape::Fn { params, ret, .. } => ret < id && forall|k: int|
            0 <= k < params@.len() ==> #[trigger] params@[k] < id,
        TyShape::Array { elem, .. } => elem < id,
        TyShape::Aggregate { fields } => forall|k: int|
            0 <= k < fields@.len() ==> (#[trigger] fields@[k]).1 < id,
        TyShape::Struct { .. } => true,
        TyShape::Ptr { pointee } => pointee < id,
    }
}

/// A table of types as interning builds it: ids fit a `u32` (with room
/// for the table's length), and each
/// shape names only types of the table, of smaller ids unless it is a
/// struct.
pub open spec fn table_wf(table: Seq<TyShape>) -> bool {
    &&& table.len() < 0x1_0000_0000
    &&& forall|id: int| 0 <= id < table.len() ==> components_below(#[trigger] table[id], id)
    &&& forall|id: int, k: int|
        0 <= id < table.len() && table[id] is Struct && 0 <= k < table[id]->Struct_fields@.len()
            ==> (#[trigger] table[id]->Struct_fields@[k]).1 < table.len()
}

/// Whether a type of the given shape is sized, the sizedness of the types
/// before it being `known`.
pub open spec fn shape_sized(shape: TyShape, known: Seq<bool>) -> bool {
    match shape {
        TyShape::Builtin(s) => s is Some,
        TyShape::Fn { .. } => true,
        TyShape::Array { elem, len } => len != 0 && elem < known.len() && known[elem as int],
        TyShape::Aggregate { fields } => exists|k: int|
            0 <= k < fields@.len() && (#[trigger] fields@[k]).1 < known.len() && known[fields@[k].1 as int],
        TyShape::Struct { .. } => true,
        TyShape::Ptr { .. } => true,
    }
}

/// The sizedness of the first `n` types of the table.
pub open spec fn sized_upto(table: Seq<TyShape>, n: int) -> Seq<bool>
    decreases n,
{
    if n <= 0 {
        Seq::empty()
    } else {
        let known = sized_upto(table, n - 1);
        known.push(shape_sized(table[n - 1], known))
    }
}

/// Whether the type `id` of the table is sized (has a backend type).
pub open spec fn spec_is_sized(table: Seq<TyShape>, id: int) -> bool {
    shape_sized(table[id], sized_upto(table, id))
}

/// Some field of the list is sized.
pub open spec fn any_field_sized(table: Seq<TyShape>, fields: Seq<(u32, u32)>) -> bool {
    exists|k: int| 0 <= k < fields.len() && spec_is_sized(table, (#[trigger] fields[k]).1 as int)
}

/// The backend type of the type `id` of the table.
pub open spec fn spec_lower(table: Seq<TyShape>, id: int) -> Option<LoweredTy> {
    match table[id] {
        TyShape::Builtin(s) => match s {
            Some(scalar) => Some(LoweredTy::Scalar(scalar)),
            None => None,
        },
        TyShape::Fn { .. } => Some(LoweredTy::FnPtr),
        TyShape::Array { elem, len } => if len != 0 && spec_is_sized(table, elem as int) {
            Some(LoweredTy::Array { elem, len: len as u32 })
        } else {
            None
        },
        TyShape::Aggregate { fields } => if any_field_sized(table, fields@) {
            Some(LoweredTy::Struct)
        } else {
            None
        },
        TyShape::Struct { .. } => Some(LoweredTy::Named),
        TyShape::Ptr { pointee } => if spec_is_sized(table, pointee as int) {
            Some(LoweredTy::Ptr { pointee })
        } else {
            Some(LoweredTy::PtrSizedInt)
        },
    }
}

/// The ids of the sized types among `ids`, in order.
pub open spec fn spec_sized_ids(table: Seq<TyShape>, ids: Seq<u32>) -> Seq<u32>
    decreases ids.len(),
{
    if ids.len() == 0 {
        Seq::empty()
    } else {
        let kept = spec_sized_ids(table, ids.drop_last());
        if spec_is_sized(table, ids.last() as int) {
            kept.push(ids.last())
        } else {
            kept
        }
    }
}

/// Each field's name with whether its type is sized.
pub open spec fn spec_field_sizes(table: Seq<TyShape>, fields: Seq<(u32, u32)>) -> Seq<(u32, bool)> {
    fields.map_values(|f: (u32, u32)| (f.0, spec_is_sized(table, f.1 as int)))
}

/// The fields of a tuple, slice or struct shape.
pub open spec fn shape_fields(shape: TyShape) -> Seq<(u32, u32)> {
    match shape {
        TyShape::Aggregate { fields } => fields@,
        TyShape::Struct { fields } => fields@,
        _ => Seq::empty(),
    }
}

/// `sig` is the backend signature of the function type `id` of the table.
pub open spec fn fn_sig_ok(table: Seq<TyShape>, id: int, sig: FnSig) -> bool {
    match table[id] {
        TyShape::Fn { params, ret, is_variadic } => {
            &&& sig.params@ == spec_sized_ids(table, params@)
            &&& sig.ret == (if spec_is_sized(table, ret as int) { Some(ret) } else { None::<u32> })
            &&& sig.is_variadic == is_variadic
        },
        _ => false,
    }
}

proof fn lemma_sized_upto_len(table: Seq<TyShape>, n: int)
    requires
        0 <= n,
    ensures
        sized_upto(table, n).len() == n,
    decreases n,
{
    if n > 0 {
        lemma_sized_upto_len(table, n - 1);
    }
}

proof fn lemma_sized_upto_index(table: Seq<TyShape>, n: int, i: int)
    requires
        0 <= i < n,
    ensures
        sized_upto(table, n)[i] == spec_is_sized(table, i),
    decreases n,
{
    lemma_sized_upto_len(table, n - 1);
    if i < n - 1 {
        lemma_sized_upto_index(table, n - 1, i);
    }
}

/// The sizedness of a type, from that of the types it is made of.
pub proof fn lemma_sized_unfold(table: Seq<TyShape>, id: int)
    requires
        table_wf(table),
        0 <= id < table.len(),
    ensures
        spec_is_sized(table, id) == match table[id] {
            TyShape::Builtin(s) => s is Some,
            TyShape::Fn { .. } => true,
            TyShape::Array { elem, len } => len != 0 && spec_is_sized(table, elem as int),
            TyShape::Aggregate { fields } => any_field_sized(table, fields@),
            TyShape::Struct { .. } => true,
            TyShape::Ptr { .. } => true,
        },
{
    let known = sized_upto(table, id);
    lemma_sized_upto_len(table, id);
    assert(components_below(table[id], id));
    match table[id] {
        TyShape::Array { elem, len } => {
            lemma_sized_upto_index(table, id, elem as int);
        },
        TyShape::Aggregate { fields } => {
            if shape_sized(table[id], known) {
                let k = choose|k: int|
                    0 <= k < fields@.len() && (#[trigger] fields@[k]).1 < known.len() && known[fields@[k].1 as int];
                lemma_sized_upto_index(table, id, fields@[k].1 as int);
                assert(spec_is_sized(table, fields@[k].1 as int));
            }
            if any_field_sized(table, fields@) {
                let k = choose|k: int|
                    0 <= k < fields@.len() && spec_is_sized(table, (#[trigger] fields@[k]).1 as int);
                assert(fields@[k].1 < id);
                lemma_sized_upto_index(table, id, fields@[k].1 as int);
                assert(fields@[k].1 < known.len() && known[fields@[k].1 as int]);
            }
        },
        _ => {},
    }
}

/// A type has a backend type exactly when it is sized.
pub proof fn lemma_lowered_iff_sized(table: Seq<TyShape>, id: int)
    requires
        table_wf(table),
        0 <= id < table.len(),
    ensures
        spec_lower(table, id) is Some <==> spec_is_sized(table, id),
{
    lemma_sized_unfold(table, id);
}

/// Remembered backend types, function signatures and field maps, by type
/// id.
pub struct GeneratedTys {
    tys: Vec<Option<Option<LoweredTy>>>,
    fns: Vec<Option<FnSig>>,
    field_maps: Vec<Option<TyFieldMap>>,
}

impl GeneratedTys {
    /// The number of type ids it has room for.
    pub closed spec fn capacity(&self) -> nat {
        self.tys@.len()
    }

    /// It has room for the same type ids in each of its tables.
    pub closed spec fn wf(&self) -> bool {
        &&& self.fns@.len() == self.tys@.len()
        &&& self.field_maps@.len() == self.tys@.len()
    }

    /// The backend type remembered for `id`, if it was lowered.
    pub closed spec fn lowered(&self, id: int) -> Option<Option<LoweredTy>> {
        self.tys@[id]
    }

    /// The signature remembered for the function type `id`, if any.
    pub closed spec fn fn_sig(&self, id: int) -> Option<FnSig> {
        self.fns@[id]
    }

    /// The field map remembered for the aggregate or struct type `id`, if
    /// any.
    pub closed spec fn field_map(&self, id: int) -> Option<Map<u32, u32>> {
        match self.field_maps@[id] {
            Some(m) => Some(m@),
            None => None,
        }
    }

    /// Everything remembered is what lowering the table gives: the backend
    /// type of each lowered type, the signature of each lowered function
    /// type and the field map of each lowered tuple or slice and of each
    /// defined struct.
    pub closed spec fn consistent(&self, table: Seq<TyShape>) -> bool {
        &&& self.tys@.len() == table.len()
        &&& self.fns@.len() == table.len()
        &&& self.field_maps@.len() == table.len()
        &&& forall|i: int| 0 <= i < table.len() && #[trigger] self.tys@[i] is Some
            ==> self.tys@[i]->0 == spec_lower(table, i)
        &&& forall|i: int| 0 <= i < table.len() && #[trigger] self.fns@[i] is Some
            ==> fn_sig_ok(table, i, self.fns@[i]->0)
        &&& forall|i: int| 0 <= i < table.len() && #[trigger] self.tys@[i] is Some && table[i] is Fn
            ==> self.fns@[i] is Some
        &&& forall|i: int| 0 <= i < table.len() && #[trigger] self.field_maps@[i] is Some
            ==> self.field_maps@[i]->0@ == spec_field_map(spec_field_sizes(table, shape_fields(table[i])))
        &&& forall|i: int| 0 <= i < table.len() && #[trigger] self.tys@[i] is Some && table[i] is Aggregate
            ==> self.field_maps@[i] is Some
    }

    /// What a consistent record holds of each type id: a remembered backend
    /// type is the type's lowering; a lowered function type has its
    /// signature remembered, a lowered tuple or slice its field map; and
    /// every remembered signature and field map is the one the table gives.
    pub proof fn lemma_remembered(&self, table: Seq<TyShape>, id: int)
        requires
            self.consistent(table),
            0 <= id < table.len(),
        ensures
            self.wf(),
            self.capacity() == table.len(),
            self.lowered(id) is Some ==> self.lowered(id) == Some(spec_lower(table, id)),
            self.lowered(id) is Some && table[id] is Fn ==> self.fn_sig(id) is Some,
            self.fn_sig(id) is Some ==> fn_sig_ok(table, id, self.fn_sig(id)->0),
            self.lowered(id) is Some && table[id] is Aggregate ==> self.field_map(id) is Some,
            self.field_map(id) is Some ==> self.field_map(id) == Some(
                spec_field_map(spec_field_sizes(table, shape_fields(table[id]))),
            ),
    {
        assert(self.tys@[id] is Some ==> self.tys@[id]->0 == spec_lower(table, id));
        assert(self.fns@[id] is Some ==> fn_sig_ok(table, id, self.fns@[id]->0));
        assert(self.field_maps@[id] is Some ==> self.field_maps@[id]->0@ == spec_field_map(
            spec_field_sizes(table, shape_fields(table[id])),
        ));
    }

    /// Nothing remembered yet, with room for `len` type ids.
    fn empty(len: usize) -> (r: Self)
        ensures
            r.capacity() == len,
            forall|i: int| 0 <= i < len ==> #[trigger] r.lowered(i) is None,
            forall|table: Seq<TyShape>| table.len() == len ==> #[trigger] r.consistent(table),
    {
        let mut tys: Vec<Option<Option<LoweredTy>>> = Vec::new();
        let mut fns: Vec<Option<FnSig>> = Vec::new();
        let mut field_maps: Vec<Option<TyFieldMap>> = Vec::new();
        let mut i: usize = 0;
        while i < len
            invariant
                i <= len,
                tys@.len() == i,
                fns@.len() == i,
                field_maps@.len() == i,
                forall|j: int| 0 <= j < i ==> #[trigger] tys@[j] is None,
                forall|j: int| 0 <= j < i ==> #[trigger] fns@[j] is None,
                forall|j: int| 0 <= j < i ==> #[trigger] field_maps@[j] is None,
            decreases len - i,
        {
            tys.push(None);
            fns.push(None);
            field_maps.push(None);
            i += 1;
        }
        GeneratedTys { tys, fns, field_maps }
    }

    /// The sizedness of each field, remembered on the way, with each
    /// field's name: what the field map is built from.
    fn insert_fields(&mut self, table: &[TyShape], fields: &Vec<(u32, u32)>, bound: u32) -> (r: Vec<(u32, bool)>)
        requires
            table_wf(table@),
            old(self).consistent(table@),
            bound <= table@.len(),
            forall|k: int| 0 <= k < fields@.len() ==> (#[trigger] fields@[k]).1 < bound,
        ensures
            final(self).consistent(table@),
            r@ == spec_field_sizes(table@, fields@),
            forall|i: int| 0 <= i < table@.len() && #[trigger] old(self).lowered(i) is Some ==> final(self).lowered(i) is Some,
            forall|i: int| 0 <= i < table@.len() && #[trigger] old(self).field_map(i) is Some ==> final(self).field_map(i) is Some,
        decreases bound, 0nat,
    {
        let mut sizes: Vec<(u32, bool)> = Vec::new();
        let mut k: usize = 0;
        while k < fields.len()
            invariant
                table_wf(table@),
                self.consistent(table@),
                bound <= table@.len(),
                forall|j: int| 0 <= j < fields@.len() ==> (#[trigger] fields@[j]).1 < bound,
                k <= fields@.len(),
                sizes@ == spec_field_sizes(table@, fields@.take(k as int)),
                forall|i: int| 0 <= i < table@.len() && #[trigger] old(self).lowered(i) is Some ==> self.lowered(i) is Some,
                forall|i: int| 0 <= i < table@.len() && #[trigger] old(self).field_map(i) is Some ==> self.field_map(i) is Some,
            decreases fields@.len() - k,
        {
            let (symbol, ty_id) = fields[k];
            let lowered = self.insert_ty(table, ty_id);
            proof {
                lemma_lowered_iff_sized(table@, ty_id as int);
                assert(fields@.take(k + 1) =~= fields@.take(k as int).push(fields@[k as int]));
            }
            sizes.push((symbol, lowered.is_some()));
            proof {
                assert(sizes@ =~= spec_field_sizes(table@, fields@.take(k + 1)));
            }
            k += 1;
        }
        proof {
            assert(fields@.take(fields@.len() as int) =~= fields@);
        }
        sizes
    }

    /// The backend type of the type `id`, lowered now unless it was before:
    /// lowering a type lowers the types it is made of and remembers every
    /// result, and the signature of each function type and the field map
    /// of each tuple or slice on the way. Lowering a type a second time
    /// gives the same result and changes nothing.
    pub fn insert_ty(&mut self, table: &[TyShape], id: u32) -> (r: Option<LoweredTy>)
        requires
            table_wf(table@),
            old(self).consistent(table@),
            id < table@.len(),
        ensures
            final(self).consistent(table@),
            final(self).wf(),
            r == spec_lower(table@, id as int),
            final(self).lowered(id as int) == Some(r),
            table@[id as int] is Fn ==> {
                &&& final(self).fn_sig(id as int) is Some
                &&& fn_sig_ok(table@, id as int, final(self).fn_sig(id as int)->0)
            },
            table@[id as int] is Aggregate ==> final(self).field_map(id as int) == Some(
                spec_field_map(spec_field_sizes(table@, shape_fields(table@[id as int]))),
            ),
            old(self).lowered(id as int) is Some ==> *final(self) == *old(self),
            forall|i: int| 0 <= i < table@.len() && #[trigger] old(self).lowered(i) is Some ==> final(self).lowered(i) is Some,
            forall|i: int| 0 <= i < table@.len() && #[trigger] old(self).field_map(i) is Some ==> final(self).field_map(i) is Some,
        decreases id, 1nat,
    {
        let idx = id as usize;
        if let Some(ty) = self.tys[idx] {
            return ty;
        }
        proof {
            assert(components_below(table@[idx as int], idx as int));
        }
        let ty = match &table[idx] {
            TyShape::Builtin(s) => match s {
                Some(scalar) => Some(LoweredTy::Scalar(*scalar)),
                None => None,
            },
            TyShape::Fn { params, ret, is_variadic } => {
                let mut kept: Vec<u32> = Vec::new();
                let mut k: usize = 0;
                while k < params.len()
                    invariant
                        table_wf(table@),
                        self.consistent(table@),
                        id < table@.len(),
                        table@[id as int] == (TyShape::Fn { params: *params, ret: *ret, is_variadic: *is_variadic }),
                        forall|j: int| 0 <= j < params@.len() ==> #[trigger] params@[j] < id,
                        k <= params@.len(),
                        kept@ == spec_sized_ids(table@, params@.take(k as int)),
                        forall|i: int| 0 <= i < table@.len() && #[trigger] old(self).lowered(i) is Some ==> self.lowered(i) is Some,
                        forall|i: int| 0 <= i < table@.len() && #[trigger] old(self).field_map(i) is Some ==> self.field_map(i) is Some,
                    decreases params@.len() - k,
                {
                    let param = params[k];
                    let lowered = self.insert_ty(table, param);
                    proof {
                        lemma_lowered_iff_sized(table@, param as int);
                        assert(params@.take(k + 1).drop_last() =~= params@.take(k as int));
                    }
                    if lowered.is_some() {
                        kept.push(param);
                    }
                    k += 1;
                }
                proof {
                    assert(params@.take(params@.len() as int) =~= params@);
                }
                let ret_lowered = self.insert_ty(table, *ret);
                proof {
                    lemma_lowered_iff_sized(table@, *ret as int);
                }
                let ret_kept = if ret_lowered.is_some() { Some(*ret) } else { None };
                self.fns[idx] = Some(FnSig { params: kept, ret: ret_kept, is_variadic: *is_variadic });
                Some(LoweredTy::FnPtr)
            },
            TyShape::Array { elem, len } => {
                let elem_lowered = self.insert_ty(table, *elem);
                proof {
                    lemma_lowered_iff_sized(table@, *elem as int);
                }
                if *len != 0 && elem_lowered.is_some() {
                    Some(LoweredTy::Array { elem: *elem, len: #[verifier::truncate] (*len as u32) })
                } else {
                    None
                }
            },
            TyShape::Aggregate { fields } => {
                let sizes = self.insert_fields(table, fields, id);
                let map = TyFieldMap::new(sizes.as_slice());
                self.field_maps[idx] = Some(map);
                let mut any: bool = false;
                let mut k: usize = 0;
                while k < sizes.len()
                    invariant
                        k <= sizes@.len(),
                        sizes@ == spec_field_sizes(table@, fields@),
                        any == exists|j: int| 0 <= j < k && (#[trigger] sizes@[j]).1,
                    decreases sizes@.len() - k,
                {
                    if sizes[k].1 {
                        any = true;
                    }
                    k += 1;
                }
                proof {
                    if any {
                        let j = choose|j: int| 0 <= j < sizes@.len() && (#[trigger] sizes@[j]).1;
                        assert(spec_is_sized(table@, fields@[j].1 as int));
                    }
                    if any_field_sized(table@, fields@) {
                        let j = choose|j: int|
                            0 <= j < fields@.len() && spec_is_sized(table@, (#[trigger] fields@[j]).1 as int);
                        assert(sizes@[j].1);
                    }
                }
                if any {
                    Some(LoweredTy::Struct)
                } else {
                    None
                }
            },
            TyShape::Struct { .. } => Some(LoweredTy::Named),
            TyShape::Ptr { pointee } => {
                let pointee_lowered = self.insert_ty(table, *pointee);
                proof {
                    lemma_lowered_iff_sized(table@, *pointee as int);
                }
                if pointee_lowered.is_some() {
                    Some(LoweredTy::Ptr { pointee: *pointee })
                } else {
                    Some(LoweredTy::PtrSizedInt)
                }
            },
        };
        self.tys[idx] = Some(ty);
        ty
    }

    /// Defines a struct type: lowers its fields and remembers its field
    /// map (its sized fields take consecutive slots of its body, in order).
    pub fn define_struct_ty(&mut self, table: &[TyShape], id: u32)
        requires
            table_wf(table@),
            old(self).consistent(table@),
            id < table@.len(),
            table@[id as int] is Struct,
        ensures
            final(self).consistent(table@),
            final(self).wf(),
            final(self).field_map(id as int) == Some(
                spec_field_map(spec_field_sizes(table@, shape_fields(table@[id as int]))),
            ),
            forall|i: int| 0 <= i < table@.len() && #[trigger] old(self).lowered(i) is Some ==> final(self).lowered(i) is Some,
            forall|i: int| 0 <= i < table@.len() && #[trigger] old(self).field_map(i) is Some ==> final(self).field_map(i) is Some,
    {
        let idx = id as usize;
        match &table[idx] {
            TyShape::Struct { fields } => {
                proof {
                    assert forall|k: int| 0 <= k < fields@.len() implies (#[trigger] fields@[k]).1 < table@.len() by {
                        assert(table@[id as int]->Struct_fields@[k] == fields@[k]);
                    }
                }
                let sizes = self.insert_fields(table, fields, table.len() as u32);
                let map = TyFieldMap::new(sizes.as_slice());
                self.field_maps[idx] = Some(map);
            },
            _ => {},
        }
    }

    /// The backend types of all the types of the table: every struct is
    /// declared by name, every type lowered, then every struct defined.
    pub fn new(table: &[TyShape]) -> (r: Self)
        requires
            table_wf(table@),
        ensures
            r.consistent(table@),
            r.wf(),
            r.capacity() == table@.len(),
            forall|i: int| 0 <= i < table@.len() ==> #[trigger] r.lowered(i) == Some(spec_lower(table@, i)),
            forall|i: int| 0 <= i < table@.len() && table@[i] is Fn ==> {
                &&& #[trigger] r.fn_sig(i) is Some
                &&& fn_sig_ok(table@, i, r.fn_sig(i)->0)
            },
            forall|i: int| 0 <= i < table@.len() && (table@[i] is Struct || table@[i] is Aggregate)
                ==> #[trigger] r.field_map(i) == Some(
                spec_field_map(spec_field_sizes(table@, shape_fields(table@[i]))),
            ),
    {
        let mut tys = GeneratedTys::empty(table.len());
        let mut id: usize = 0;
        while id < table.len()
            invariant
                table_wf(table@),
                tys.consistent(table@),
                id <= table@.len(),
                forall|i: int| 0 <= i < id ==> #[trigger] tys.lowered(i) is Some,
            decreases table@.len() - id,
        {
            let ghost before = tys;
            tys.insert_ty(table, id as u32);
            proof {
                assert forall|i: int| 0 <= i < id + 1 implies #[trigger] tys.lowered(i) is Some by {
                    if i < id {
                        assert(before.lowered(i) is Some);
                    }
                }
            }
            id += 1;
        }
        let mut id: usize = 0;
        while id < table.len()
            invariant
                table_wf(table@),
                tys.consistent(table@),
                id <= table@.len(),
                forall|i: int| 0 <= i < table@.len() ==> #[trigger] tys.lowered(i) is Some,
                forall|i: int| 0 <= i < id && table@[i] is Struct ==> #[trigger] tys.field_map(i) is Some,
            decreases table@.len() - id,
        {
            let ghost before = tys;
            if let TyShape::Struct { .. } = &table[id] {
                tys.define_struct_ty(table, id as u32);
            }
            proof {
                assert forall|i: int| 0 <= i < table@.len() implies #[trigger] tys.lowered(i) is Some by {
                    assert(before.lowered(i) is Some);
                }
                assert forall|i: int| 0 <= i < id + 1 && table@[i] is Struct implies #[trigger] tys.field_map(i) is Some by {
                    if i < id {
                        assert(before.field_map(i) is Some);
                    }
                }
            }
            id += 1;
        }
        proof {
            assert forall|i: int| 0 <= i < table@.len() && table@[i] is Fn implies {
                &&& #[trigger] tys.fn_sig(i) is Some
                &&& fn_sig_ok(table@, i, tys.fn_sig(i)->0)
            } by {
                assert(tys.lowered(i) is Some);
            }
            assert forall|i: int| 0 <= i < table@.len() && (table@[i] is Struct || table@[i] is Aggregate)
                implies #[trigger] tys.field_map(i) == Some(
                spec_field_map(spec_field_sizes(table@, shape_fields(table@[i]))),
            ) by {
                assert(tys.lowered(i) is Some);
            }
        }
        tys
    }

    /// The backend type of a lowered type.
    pub fn get(&self, id: u32) -> (r: Option<LoweredTy>)
        requires
            self.wf(),
            id < self.capacity(),
            self.lowered(id as int) is Some,
        ensures
            self.lowered(id as int) == Some(r),
    {
        match self.tys[id as usize] {
            Some(ty) => ty,
            None => vstd::pervasive::unreached(),
        }
    }

    /// The signature of a lowered function type.
    pub fn get_fn_ty(&self, id: u32) -> (r: &FnSig)
        requires
            self.wf(),
            id < self.capacity(),
            self.fn_sig(id as int) is Some,
        ensures
            self.fn_sig(id as int) == Some(*r),
    {
        match &self.fns[id as usize] {
            Some(sig) => sig,
            None => vstd::pervasive::unreached(),
        }
    }

    /// The field map of a lowered tuple or slice, or of a defined struct.
    pub fn get_field_map(&self, id: u32) -> (r: &TyFieldMap)
        requires
            self.wf(),
            id < self.capacity(),
            self.field_map(id as int) is Some,
        ensures
            self.field_map(id as int) == Some(r@),
    {
        match &self.field_maps[id as usize] {
            Some(map) => map,
            None => vstd::pervasive::unreached(),
        }
    }
}

} // verus!
