//! The instructions that the code generator picks when it lowers operators,
//! casts and literals: a function of the operator and of the class of the
//! operand types.
use vstd::prelude::*;

verus! {

/// What instruction selection needs to know of a value's type.
#[derive(Clone, Copy, PartialEq, Eq, Structural, Debug)]
pub enum TyClass {
    SignedInt,
    UnsignedInt,
    Float,
    /// Booleans, characters, pointers and the rest.
    Other,
}

impl TyClass {
    pub open spec fn spec_is_int(self) -> bool {
        self is SignedInt || self is UnsignedInt
    }

    pub fn is_int(self) -> (r: bool)
        ensures
            r == self.spec_is_int(),
    {
        match self {
            TyClass::SignedInt | TyClass::UnsignedInt => true,
            _ => false,
        }
    }

    pub fn is_signed_int(self) -> (r: bool)
        ensures
            r == (self is SignedInt),
    {
        match self {
            TyClass::SignedInt => true,
            _ => false,
        }
    }

    pub fn is_unsigned_int(self) -> (r: bool)
        ensures
            r == (self is UnsignedInt),
    {
        match self {
            TyClass::UnsignedInt => true,
            _ => false,
        }
    }

    pub fn is_float(self) -> (r: bool)
        ensures
            r == (self is Float),
    {
        match self {
            TyClass::Float => true,
            _ => false,
        }
    }
}

#[derive(Clone, Copy, PartialEq, Eq, Structural, Debug)]
pub enum ArithmeticOp {
    Add,
    Sub,
    Mul,
    Div,
    Rem,
}

#[derive(Clone, Copy, PartialEq, Eq, Structural, Debug)]
pub enum ArithmeticInstr {
    IntAdd,
    FloatAdd,
    IntSub,
    FloatSub,
    IntMul,
    FloatMul,
    SignedDiv,
    UnsignedDiv,
    FloatDiv,
    SignedRem,
    UnsignedRem,
    FloatRem,
}

/// The arithmetic instruction for `op` on operands of class `ty`: integer
/// instructions for integers, signed or unsigned division and remainder by
/// the sign, float instructions otherwise.
pub open spec fn spec_arithmetic_instr(op: ArithmeticOp, ty: TyClass) -> ArithmeticInstr {
    match op {
        ArithmeticOp::Add => if ty.spec_is_int() { ArithmeticInstr::IntAdd } else { ArithmeticInstr::FloatAdd },
        ArithmeticOp::Sub => if ty.spec_is_int() { ArithmeticInstr::IntSub } else { ArithmeticInstr::FloatSub },
        ArithmeticOp::Mul => if ty.spec_is_int() { ArithmeticInstr::IntMul } else { ArithmeticInstr::FloatMul },
        ArithmeticOp::Div => if ty is SignedInt {
            ArithmeticInstr::SignedDiv
        } else if ty is UnsignedInt {
            ArithmeticInstr::UnsignedDiv
        } else {
            ArithmeticInstr::FloatDiv
        },
        ArithmeticOp::Rem => if ty is SignedInt {
            ArithmeticInstr::SignedRem
        } else if ty is UnsignedInt {
            ArithmeticInstr::UnsignedRem
        } else {
            ArithmeticInstr::FloatRem
        },
    }
}

pub fn arithmetic_instr(op: ArithmeticOp, ty: TyClass) -> (r: ArithmeticInstr)
    ensures
        r == spec_arithmetic_instr(op, ty),
{
    match op {
        ArithmeticOp::Add => if ty.is_int() { ArithmeticInstr::IntAdd } else { ArithmeticInstr::FloatAdd },
        ArithmeticOp::Sub => if ty.is_int() { ArithmeticInstr::IntSub } else { ArithmeticInstr::FloatSub },
        ArithmeticOp::Mul => if ty.is_int() { ArithmeticInstr::IntMul } else { ArithmeticInstr::FloatMul },
        ArithmeticOp::Div => if ty.is_signed_int() {
            ArithmeticInstr::SignedDiv
        } else if ty.is_unsigned_int() {
            ArithmeticInstr::UnsignedDiv
        } else {
            ArithmeticInstr::FloatDiv
        },
        ArithmeticOp::Rem => if ty.is_signed_int() {
            ArithmeticInstr::SignedRem
        } else if ty.is_unsigned_int() {
            ArithmeticInstr::UnsignedRem
        } else {
            ArithmeticInstr::FloatRem
        },
    }
}

#[derive(Clone, Copy, PartialEq, Eq, Structural, Debug)]
pub enum ComparisonOp {
    Eq,
    Ne,
    Lt,
    Le,
    Gt,
    Ge,
}

#[derive(Clone, Copy, PartialEq, Eq, Structural, Debug)]
pub enum IntPredicate {
    EQ,
    NE,
    UGT,
    UGE,
    ULT,
    ULE,
    SGT,
    SGE,
    SLT,
    SLE,
}

#[derive(Clone, Copy, PartialEq, Eq, Structural, Debug)]
pub enum FloatPredicate {
    OEQ,
    OGE,
    OGT,
    OLE,
    OLT,
    ONE,
}

/// A comparison instruction with its predicate.
#[derive(Clone, Copy, PartialEq, Eq, Structural, Debug)]
pub enum Comparison {
    Int(IntPredicate),
    Float(FloatPredicate),
}

/// The comparison for `op` on operands of class `ty`. Pointers are compared
/// as integers. `<` and `<=` both lower to the predicate below: an ordered
/// less-or-equal on floats, a strict less-than on integers.
pub open spec fn spec_comparison(op: ComparisonOp, ty: TyClass) -> Comparison {
    match op {
        ComparisonOp::Eq => if ty is Float {
            Comparison::Float(FloatPredicate::OEQ)
        } else {
            Comparison::Int(IntPredicate::EQ)
        },
        ComparisonOp::Ne => if ty is Float {
            Comparison::Float(FloatPredicate::ONE)
        } else {
            Comparison::Int(IntPredicate::NE)
        },
        ComparisonOp::Lt | ComparisonOp::Le => if ty is Float {
            Comparison::Float(FloatPredicate::OLE)
        } else if ty is SignedInt {
            Comparison::Int(IntPredicate::SLT)
        } else {
            Comparison::Int(IntPredicate::ULT)
        },
        ComparisonOp::Gt => if ty is Float {
            Comparison::Float(FloatPredicate::OGT)
        } else if ty is SignedInt {
            Comparison::Int(IntPredicate::SGT)
        } else {
            Comparison::Int(IntPredicate::UGT)
        },
        ComparisonOp::Ge => if ty is Float {
            Comparison::Float(FloatPredicate::OGE)
        } else if ty is SignedInt {
            Comparison::Int(IntPredicate::SGE)
        } else {
            Comparison::Int(IntPredicate::UGE)
        },
    }
}

pub fn comparison(op: ComparisonOp, ty: TyClass) -> (r: Comparison)
    ensures
        r == spec_comparison(op, ty),
{
    match op {
        ComparisonOp::Eq => if ty.is_float() {
            Comparison::Float(FloatPredicate::OEQ)
        } else {
            Comparison::Int(IntPredicate::EQ)
        },
        ComparisonOp::Ne => if ty.is_float() {
            Comparison::Float(FloatPredicate::ONE)
        } else {
            Comparison::Int(IntPredicate::NE)
        },
        ComparisonOp::Lt | ComparisonOp::Le => if ty.is_float() {
            Comparison::Float(FloatPredicate::OLE)
        } else if ty.is_signed_int() {
            Comparison::Int(IntPredicate::SLT)
        } else {
            Comparison::Int(IntPredicate::ULT)
        },
        ComparisonOp::Gt => if ty.is_float() {
            Comparison::Float(FloatPredicate::OGT)
        } else if ty.is_signed_int() {
            Comparison::Int(IntPredicate::SGT)
        } else {
            Comparison::Int(IntPredicate::UGT)
        },
        ComparisonOp::Ge => if ty.is_float() {
            Comparison::Float(FloatPredicate::OGE)
        } else if ty.is_signed_int() {
            Comparison::Int(IntPredicate::SGE)
        } else {
            Comparison::Int(IntPredicate::UGE)
        },
    }
}

#[derive(Clone, Copy, PartialEq, Eq, Structural, Debug)]
pub enum BitwiseOp {
    And,
    Or,
    Xor,
    Shl,
    Shr,
}

#[derive(Clone, Copy, PartialEq, Eq, Structural, Debug)]
pub enum BitwiseInstr {
    And,
    Or,
    Xor,
    Shl,
    /// A right shift, arithmetic when `sign_extend` holds.
    Shr { sign_extend: bool },
}

/// The bitwise instruction for `op`: a right shift sign-extends exactly on
/// signed integers.
pub open spec fn spec_bitwise_instr(op: BitwiseOp, ty: TyClass) -> BitwiseInstr {
    match op {
        BitwiseOp::And => BitwiseInstr::And,
        BitwiseOp::Or => BitwiseInstr::Or,
        BitwiseOp::Xor => BitwiseInstr::Xor,
        BitwiseOp::Shl => BitwiseInstr::Shl,
        BitwiseOp::Shr => BitwiseInstr::Shr { sign_extend: ty is SignedInt },
    }
}

pub fn bitwise_instr(op: BitwiseOp, ty: TyClass) -> (r: BitwiseInstr)
    ensures
        r == spec_bitwise_instr(op, ty),
{
    match op {
        BitwiseOp::And => BitwiseInstr::And,
        BitwiseOp::Or => BitwiseInstr::Or,
        BitwiseOp::Xor => BitwiseInstr::Xor,
        BitwiseOp::Shl => BitwiseInstr::Shl,
        BitwiseOp::Shr => BitwiseInstr::Shr { sign_extend: ty.is_signed_int() },
    }
}

#[derive(Clone, Copy, PartialEq, Eq, Structural, Debug)]
pub enum AssignOp {
    Eq,
    Add,
    Sub,
    Mul,
    Div,
    Rem,
    Or,
    And,
    Xor,
    Shl,
    Shr,
}

/// What an assignment computes before it stores.
#[derive(Clone, Copy, PartialEq, Eq, Structural, Debug)]
pub enum AssignInstr {
    /// Stores the right-hand side as it is.
    Store,
    Arithmetic(ArithmeticInstr),
    Bitwise(BitwiseInstr),
}

/// The instruction of an assignment `lhs op= rhs` on a left-hand side of
/// class `ty`.
pub open spec fn spec_assign_instr(op: AssignOp, ty: TyClass) -> AssignInstr {
    match op {
        AssignOp::Eq => AssignInstr::Store,
        AssignOp::Add => AssignInstr::Arithmetic(if ty.spec_is_int() { ArithmeticInstr::IntAdd } else { ArithmeticInstr::FloatAdd }),
        AssignOp::Sub => AssignInstr::Arithmetic(if ty.spec_is_int() { ArithmeticInstr::IntSub } else { ArithmeticInstr::FloatSub }),
        AssignOp::Mul => AssignInstr::Arithmetic(if ty.spec_is_int() { ArithmeticInstr::IntMul } else { ArithmeticInstr::FloatMul }),
        AssignOp::Div => AssignInstr::Arithmetic(
            if ty is SignedInt {
                ArithmeticInstr::SignedDiv
            } else if ty is UnsignedInt {
                ArithmeticInstr::UnsignedDiv
            } else {
                ArithmeticInstr::FloatDiv
            },
        ),
        AssignOp::Rem => AssignInstr::Arithmetic(
            if ty is SignedInt {
                ArithmeticInstr::SignedRem
            } else if ty is UnsignedInt {
                ArithmeticInstr::UnsignedRem
            } else {
                ArithmeticInstr::FloatRem
            },
        ),
        AssignOp::Or => AssignInstr::Bitwise(BitwiseInstr::Or),
        AssignOp::And => AssignInstr::Bitwise(BitwiseInstr::And),
        AssignOp::Xor => AssignInstr::Bitwise(BitwiseInstr::Xor),
        AssignOp::Shl => AssignInstr::Bitwise(BitwiseInstr::Shl),
        AssignOp::Shr => AssignInstr::Bitwise(BitwiseInstr::Shr { sign_extend: ty is SignedInt }),
    }
}

pub fn assign_instr(op: AssignOp, ty: TyClass) -> (r: AssignInstr)
    ensures
        r == spec_assign_instr(op, ty),
{
    match op {
        AssignOp::Eq => AssignInstr::Store,
        AssignOp::Add => AssignInstr::Arithmetic(if ty.is_int() { ArithmeticInstr::IntAdd } else { ArithmeticInstr::FloatAdd }),
        AssignOp::Sub => AssignInstr::Arithmetic(if ty.is_int() { ArithmeticInstr::IntSub } else { ArithmeticInstr::FloatSub }),
        AssignOp::Mul => AssignInstr::Arithmetic(if ty.is_int() { ArithmeticInstr::IntMul } else { ArithmeticInstr::FloatMul }),
        AssignOp::Div => AssignInstr::Arithmetic(
            if ty.is_signed_int() {
                ArithmeticInstr::SignedDiv
            } else if ty.is_unsigned_int() {
                ArithmeticInstr::UnsignedDiv
            } else {
                ArithmeticInstr::FloatDiv
            },
        ),
        AssignOp::Rem => AssignInstr::Arithmetic(
            if ty.is_signed_int() {
                ArithmeticInstr::SignedRem
            } else if ty.is_unsigned_int() {
                ArithmeticInstr::UnsignedRem
            } else {
                ArithmeticInstr::FloatRem
            },
        ),
        AssignOp::Or => AssignInstr::Bitwise(BitwiseInstr::Or),
        AssignOp::And => AssignInstr::Bitwise(BitwiseInstr::And),
        AssignOp::Xor => AssignInstr::Bitwise(BitwiseInstr::Xor),
        AssignOp::Shl => AssignInstr::Bitwise(BitwiseInstr::Shl),
        AssignOp::Shr => AssignInstr::Bitwise(BitwiseInstr::Shr { sign_extend: ty.is_signed_int() }),
    }
}

/// A compound assignment computes what the binary operator it is named
/// after computes: `x op= y` uses the instruction of `x op y`.
pub proof fn lemma_compound_assign_is_binary(ty: TyClass)
    ensures
        spec_assign_instr(AssignOp::Add, ty) == AssignInstr::Arithmetic(spec_arithmetic_instr(ArithmeticOp::Add, ty)),
        spec_assign_instr(AssignOp::Sub, ty) == AssignInstr::Arithmetic(spec_arithmetic_instr(ArithmeticOp::Sub, ty)),
        spec_assign_instr(AssignOp::Mul, ty) == AssignInstr::Arithmetic(spec_arithmetic_instr(ArithmeticOp::Mul, ty)),
        spec_assign_instr(AssignOp::Div, ty) == AssignInstr::Arithmetic(spec_arithmetic_instr(ArithmeticOp::Div, ty)),
        spec_assign_instr(AssignOp::Rem, ty) == AssignInstr::Arithmetic(spec_arithmetic_instr(ArithmeticOp::Rem, ty)),
        spec_assign_instr(AssignOp::And, ty) == AssignInstr::Bitwise(spec_bitwise_instr(BitwiseOp::And, ty)),
        spec_assign_instr(AssignOp::Or, ty) == AssignInstr::Bitwise(spec_bitwise_instr(BitwiseOp::Or, ty)),
        spec_assign_instr(AssignOp::Xor, ty) == AssignInstr::Bitwise(spec_bitwise_instr(BitwiseOp::Xor, ty)),
        spec_assign_instr(AssignOp::Shl, ty) == AssignInstr::Bitwise(spec_bitwise_instr(BitwiseOp::Shl, ty)),
        spec_assign_instr(AssignOp::Shr, ty) == AssignInstr::Bitwise(spec_bitwise_instr(BitwiseOp::Shr, ty)),
{
}

/// The signedness of an operation follows the signedness of its type:
/// signed and unsigned integers get distinct division, remainder, shift and
/// ordering instructions, and floats never get integer ones.
pub proof fn lemma_signedness_respected(op: ComparisonOp)
    ensures
        op != ComparisonOp::Eq && op != ComparisonOp::Ne ==> spec_comparison(op, TyClass::SignedInt)
            != spec_comparison(op, TyClass::UnsignedInt),
        spec_comparison(op, TyClass::Float) is Float,
        spec_comparison(op, TyClass::SignedInt) is Int,
        spec_arithmetic_instr(ArithmeticOp::Div, TyClass::SignedInt) != spec_arithmetic_instr(ArithmeticOp::Div, TyClass::UnsignedInt),
        spec_bitwise_instr(BitwiseOp::Shr, TyClass::SignedInt) != spec_bitwise_instr(BitwiseOp::Shr, TyClass::UnsignedInt),
{
}

#[derive(Clone, Copy, PartialEq, Eq, Structural, Debug)]
pub enum LogicalOp {
    And,
    Or,
}

/// How a short-circuit operator lowers: the right-hand side is evaluated
/// only when the left-hand side is `rhs_when`; otherwise the result is
/// `skipped_value` (0 or 1, the representation of a boolean).
#[derive(Clone, Copy, PartialEq, Eq, Structural, Debug)]
pub struct ShortCircuit {
    pub rhs_when: bool,
    pub skipped_value: u8,
}

pub open spec fn spec_short_circuit(op: LogicalOp) -> ShortCircuit {
    match op {
        LogicalOp::And => ShortCircuit { rhs_when: true, skipped_value: 0 },
        LogicalOp::Or => ShortCircuit { rhs_when: false, skipped_value: 1 },
    }
}

pub fn short_circuit(op: LogicalOp) -> (r: ShortCircuit)
    ensures
        r == spec_short_circuit(op),
{
    match op {
        LogicalOp::And => ShortCircuit { rhs_when: true, skipped_value: 0 },
        LogicalOp::Or => ShortCircuit { rhs_when: false, skipped_value: 1 },
    }
}

/// The value the lowered code yields for booleans `lhs` and `rhs`
/// (represented as 0 and 1).
pub open spec fn short_circuit_result(plan: ShortCircuit, lhs: bool, rhs: u8) -> u8 {
    if lhs == plan.rhs_when {
        rhs
    } else {
        plan.skipped_value
    }
}

/// The short-circuit lowering computes `&&` and `||`.
pub proof fn lemma_short_circuit_computes(lhs: bool, rhs: bool)
    ensures
        short_circuit_result(spec_short_circuit(LogicalOp::And), lhs, if rhs { 1u8 } else { 0u8 })
            == (if lhs && rhs { 1u8 } else { 0u8 }),
        short_circuit_result(spec_short_circuit(LogicalOp::Or), lhs, if rhs { 1u8 } else { 0u8 })
            == (if lhs || rhs { 1u8 } else { 0u8 }),
{
}

#[derive(Clone, Copy, PartialEq, Eq, Structural, Debug)]
pub enum UnaryOp {
    Minus,
    Not,
    Addr,
}

#[derive(Clone, Copy, PartialEq, Eq, Structural, Debug)]
pub enum UnaryInstr {
    IntNeg,
    FloatNeg,
    /// Flips every bit of an integer.
    BitNot,
    /// Maps the boolean 1 to 0 and everything else to 1.
    BoolNot,
    /// Takes the address of the operand.
    AddressOf,
}

/// The instruction for a unary operator on an operand of class `ty`.
pub open spec fn spec_unary_instr(op: UnaryOp, ty: TyClass) -> UnaryInstr {
    match op {
        UnaryOp::Minus => if ty.spec_is_int() { UnaryInstr::IntNeg } else { UnaryInstr::FloatNeg },
        UnaryOp::Not => if ty.spec_is_int() { UnaryInstr::BitNot } else { UnaryInstr::BoolNot },
        UnaryOp::Addr => UnaryInstr::AddressOf,
    }
}

pub fn unary_instr(op: UnaryOp, ty: TyClass) -> (r: UnaryInstr)
    ensures
        r == spec_unary_instr(op, ty),
{
    match op {
        UnaryOp::Minus => if ty.is_int() { UnaryInstr::IntNeg } else { UnaryInstr::FloatNeg },
        UnaryOp::Not => if ty.is_int() { UnaryInstr::BitNot } else { UnaryInstr::BoolNot },
        UnaryOp::Addr => UnaryInstr::AddressOf,
    }
}

/// The value that the boolean negation emitted for `Not` yields.
pub fn bool_not_value(v: u8) -> (r: u8)
    ensures
        r == (if v == 1 { 0u8 } else { 1u8 }),
{
    if v == 1 {
        0
    } else {
        1
    }
}

#[derive(Clone, Copy, PartialEq, Eq, Structural, Debug)]
pub enum CastKind {
    IntToFloat,
    IntToInt,
    IntToPtr,
    FloatToFloat,
    FloatToInt,
    PtrToPtr,
    TupleToSlice,
    PtrToUsize,
}

#[derive(Clone, Copy, PartialEq, Eq, Structural, Debug)]
pub enum CastInstr {
    SignedIntToFloat,
    UnsignedIntToFloat,
    /// An integer resize that sign-extends when `signed` holds.
    IntCast { signed: bool },
    IntToPtr,
    FloatCast,
    FloatToSignedInt,
    FloatToUnsignedInt,
    Bitcast,
    PtrToInt,
}

/// The cast instruction for `kind`: the source decides the signedness of
/// conversions from integers, the target that of conversions to integers.
pub open spec fn spec_cast_instr(kind: CastKind, from: TyClass, to: TyClass) -> CastInstr {
    match kind {
        CastKind::IntToFloat => if from is SignedInt {
            CastInstr::SignedIntToFloat
        } else {
            CastInstr::UnsignedIntToFloat
        },
        CastKind::IntToInt => CastInstr::IntCast { signed: from is SignedInt },
        CastKind::IntToPtr => CastInstr::IntToPtr,
        CastKind::FloatToFloat => CastInstr::FloatCast,
        CastKind::FloatToInt => if to is SignedInt {
            CastInstr::FloatToSignedInt
        } else {
            CastInstr::FloatToUnsignedInt
        },
        CastKind::PtrToPtr | CastKind::TupleToSlice => CastInstr::Bitcast,
        CastKind::PtrToUsize => CastInstr::PtrToInt,
    }
}

pub fn cast_instr(kind: CastKind, from: TyClass, to: TyClass) -> (r: CastInstr)
    ensures
        r == spec_cast_instr(kind, from, to),
{
    match kind {
        CastKind::IntToFloat => if from.is_signed_int() {
            CastInstr::SignedIntToFloat
        } else {
            CastInstr::UnsignedIntToFloat
        },
        CastKind::IntToInt => CastInstr::IntCast { signed: from.is_signed_int() },
        CastKind::IntToPtr => CastInstr::IntToPtr,
        CastKind::FloatToFloat => CastInstr::FloatCast,
        CastKind::FloatToInt => if to.is_signed_int() {
            CastInstr::FloatToSignedInt
        } else {
            CastInstr::FloatToUnsignedInt
        },
        CastKind::PtrToPtr | CastKind::TupleToSlice => CastInstr::Bitcast,
        CastKind::PtrToUsize => CastInstr::PtrToInt,
    }
}

/// The two 64-bit words, low first, in which an integer literal is handed
/// to the backend.
pub fn int_literal_words(value: u128) -> (r: [u64; 2])
    ensures
        r[0] as int + r[1] as int * 0x1_0000_0000_0000_0000 == value as int,
{
    let low = (value & 0xFFFF_FFFF_FFFF_FFFF) as u64;
    let high = ((value >> 64u32) & 0xFFFF_FFFF_FFFF_FFFF) as u64;
    proof {
        assert(low as u128 == value & 0xFFFF_FFFF_FFFF_FFFF) by (bit_vector)
            requires
                low == (value & 0xFFFF_FFFF_FFFF_FFFF) as u64,
        ;
        assert(high as u128 == value >> 64u32) by (bit_vector)
            requires
                high == ((value >> 64u32) & 0xFFFF_FFFF_FFFF_FFFF) as u64,
        ;
        assert(value == (value & 0xFFFF_FFFF_FFFF_FFFF) + (value >> 64u32) * 0x1_0000_0000_0000_0000)
            by (bit_vector);
    }
    [low, high]
}

/// The tag of a nullable pointer read as a two-variant union: the variant
/// that holds a pointer (0) for a nonzero address, the other one (1) for
/// zero.
pub fn nullable_ptr_tag(address: u64) -> (r: u8)
    ensures
        r == (if address != 0 { 0u8 } else { 1u8 }),
{
    if address != 0 {
        0
    } else {
        1
    }
}

/// The tag that a match arm on a nullable pointer stands for: 0 for the arm
/// whose type is pointer-like, 1 for the other.
pub fn nullable_ptr_arm_tag(arm_is_ptr_like: bool) -> (r: u8)
    ensures
        r == (if arm_is_ptr_like { 0u8 } else { 1u8 }),
{
    if arm_is_ptr_like {
        0
    } else {
        1
    }
}

/// A match on a nullable pointer enters the pointer-like arm exactly when
/// the address is nonzero.
pub proof fn lemma_nullable_ptr_dispatch(address: u64, arm_is_ptr_like: bool)
    ensures
        ((if address != 0 { 0u8 } else { 1u8 }) == (if arm_is_ptr_like { 0u8 } else { 1u8 }))
            <==> (arm_is_ptr_like <==> address != 0),
{
}

/// The start and the length of the slice that a range expression takes of
/// a base of `base_len` elements: a missing start is 0, a missing end is
/// the base's length; the length is the end minus the start, wrapping as
/// the machine subtraction does.
pub fn range_slice(from: Option<u64>, to: Option<u64>, base_len: u64) -> (r: (u64, u64))
    ensures
        r.0 == (match from { Some(f) => f, None => 0 }),
        ({
            let end = match to {
                Some(t) => t,
                None => base_len,
            };
            r.1 == range_slice_spec_len(r.0, end)
        }),
{
    let start = match from {
        Some(f) => f,
        None => 0,
    };
    let end = match to {
        Some(t) => t,
        None => base_len,
    };
    (start, end.wrapping_sub(start))
}

/// A range within bounds covers exactly its elements: the start plus the
/// length is the end.
pub proof fn lemma_range_slice_in_bounds(start: u64, end: u64)
    requires
        start <= end,
    ensures
        ({
            let r = range_slice_spec_len(start, end);
            start + r == end
        }),
{
}

/// The length that `range_slice` gives for a start and an end.
pub open spec fn range_slice_spec_len(start: u64, end: u64) -> int {
    if end >= start {
        end - start
    } else {
        end - start + 0x1_0000_0000_0000_0000
    }
}

/// What kind of value evaluating an expression produced.
#[derive(Clone, Copy, PartialEq, Eq, Structural, Debug)]
pub enum ValueKind {
    /// Nothing (a zero-sized value).
    Void,
    /// A function.
    Fn,
    /// A value held in a register.
    Register,
    /// A value held in memory.
    Memory,
}

/// What is written into a slot of an aggregate once its initializer has
/// been evaluated.
#[derive(Clone, Copy, PartialEq, Eq, Structural, Debug)]
pub enum SlotStore {
    /// The function's address.
    FnPointer,
    /// The register's value.
    Register,
    /// The value loaded from where it was computed.
    LoadAndStore,
    /// Nothing: the value is zero-sized or already in place.
    Nothing,
}

/// The slot that an initializer of an aggregate writes to: its field's
/// slot when the aggregate has a backend type, has memory, and the field
/// has a slot; otherwise the initializer is only evaluated.
pub fn init_slot_target(aggregate_is_sized: bool, has_memory: bool, slot: Option<u32>) -> (r: Option<u32>)
    ensures
        r == (if aggregate_is_sized && has_memory { slot } else { None::<u32> }),
{
    if aggregate_is_sized && has_memory {
        slot
    } else {
        None
    }
}

/// What is stored for a struct field: a value computed in memory of its
/// own is copied into the slot, unless the expression already built it in
/// the slot's memory.
pub fn struct_field_store(value: ValueKind, uses_stack_memory: bool) -> (r: SlotStore)
    ensures
        r == match value {
            ValueKind::Fn => SlotStore::FnPointer,
            ValueKind::Register => SlotStore::Register,
            ValueKind::Memory => if uses_stack_memory { SlotStore::Nothing } else { SlotStore::LoadAndStore },
            ValueKind::Void => SlotStore::Nothing,
        },
{
    match value {
        ValueKind::Fn => SlotStore::FnPointer,
        ValueKind::Register => SlotStore::Register,
        ValueKind::Memory => if uses_stack_memory { SlotStore::Nothing } else { SlotStore::LoadAndStore },
        ValueKind::Void => SlotStore::Nothing,
    }
}

/// What is stored for a tuple element or the payload of a variant: values
/// in memory are left where they are.
pub fn element_store(value: ValueKind) -> (r: SlotStore)
    ensures
        r == match value {
            ValueKind::Fn => SlotStore::FnPointer,
            ValueKind::Register => SlotStore::Register,
            _ => SlotStore::Nothing,
        },
{
    match value {
        ValueKind::Fn => SlotStore::FnPointer,
        ValueKind::Register => SlotStore::Register,
        _ => SlotStore::Nothing,
    }
}

/// Whether a conditional or a match yields its value through a join of
/// the branches' values: only when its type is sized and some branch
/// reaches the join with a value.
pub fn joins_with_phi(result_is_sized: bool, incoming: usize) -> (r: bool)
    ensures
        r == (result_is_sized && incoming > 0),
{
    result_is_sized && incoming > 0
}

/// Where control goes when the condition of a conditional's branch fails.
#[derive(Clone, Copy, PartialEq, Eq, Structural, Debug)]
pub enum CondFallthrough {
    /// To the end of the conditional.
    End,
    /// To a fresh block: the next condition, or the `else` branch.
    Next,
}

/// Where the `index`-th of `count` branches falls through to: the last
/// branch of a conditional without `else` falls through to its end.
pub fn cond_fallthrough(index: usize, count: usize, has_else: bool) -> (r: CondFallthrough)
    requires
        index < count,
    ensures
        r == (if index + 1 == count && !has_else { CondFallthrough::End } else { CondFallthrough::Next }),
{
    if index + 1 == count && !has_else {
        CondFallthrough::End
    } else {
        CondFallthrough::Next
    }
}

/// What an array repeat expression `[elem; len]` does.
#[derive(Clone, Copy, PartialEq, Eq, Structural, Debug)]
pub enum RepeatPlan {
    /// Nothing: the array has no element, so the element is not evaluated
    /// and the expression yields nothing.
    Skip,
    /// The element is evaluated, but it is zero-sized: nothing is stored and
    /// the expression yields nothing.
    EvaluateOnly,
    /// The element is evaluated once and stored `len` times, by a loop over
    /// the indexes `0..len`; the expression yields the array in memory.
    Fill,
}

/// How `[elem; len]` is generated, when the element's type is sized or not.
pub fn array_repeat_plan(len: u64, elem_is_sized: bool) -> (r: RepeatPlan)
    ensures
        r == (if len == 0 {
            RepeatPlan::Skip
        } else if !elem_is_sized {
            RepeatPlan::EvaluateOnly
        } else {
            RepeatPlan::Fill
        }),
        (r == RepeatPlan::Fill) == (len != 0 && elem_is_sized),
{
    if len == 0 {
        RepeatPlan::Skip
    } else if !elem_is_sized {
        RepeatPlan::EvaluateOnly
    } else {
        RepeatPlan::Fill
    }
}

/// What taking the address of an operand (`&x`) yields.
#[derive(Clone, Copy, PartialEq, Eq, Structural, Debug)]
pub enum AddressOf {
    /// The pointer to the memory that holds the operand.
    MemoryPointer,
    /// The address of the function.
    FnAddress,
    /// A pointer made from the operand type's alignment: a zero-sized
    /// operand has no memory, and any well-aligned non-null address will do.
    AlignmentPointer,
}

/// What `&x` yields for an operand of the given kind. An operand held in a
/// register has no address and is left out.
pub fn address_of(operand: ValueKind) -> (r: AddressOf)
    requires
        operand != ValueKind::Register,
    ensures
        r == match operand {
            ValueKind::Memory => AddressOf::MemoryPointer,
            ValueKind::Fn => AddressOf::FnAddress,
            _ => AddressOf::AlignmentPointer,
        },
{
    match operand {
        ValueKind::Memory => AddressOf::MemoryPointer,
        ValueKind::Fn => AddressOf::FnAddress,
        _ => AddressOf::AlignmentPointer,
    }
}

} // verus!
