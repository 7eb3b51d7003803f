//! What the backend's integer instructions compute on `w`-bit operands,
//! and the laws that say the instructions picked for Cool's operators and
//! casts compute what those operators mean on the operands' values.
//!
//! An operand is a `w`-bit pattern, an integer in `0 .. 2^w`; a signed
//! value `v` is held as the pattern `v mod 2^w` (two's complement), and an
//! instruction's operands are taken modulo `2^w`.
use vstd::prelude::*;
use vstd::arithmetic::power2::{lemma_pow2_pos, lemma_pow2_unfold, pow2};
use vstd::arithmetic::div_mod::{lemma_fundamental_div_mod_converse, lemma_small_mod};
use crate::lowering::{
    spec_arithmetic_instr, spec_cast_instr, spec_comparison, spec_unary_instr, ArithmeticInstr,
    ArithmeticOp, CastInstr, CastKind, Comparison, ComparisonOp, IntPredicate, TyClass, UnaryInstr,
    UnaryOp,
};

verus! {

/// The number of `w`-bit patterns.
pub open spec fn modulus(w: nat) -> int {
    pow2(w) as int
}

/// The `w`-bit pattern that holds `v`: `v` modulo `2^w`.
pub open spec fn bits_of(v: int, w: nat) -> int {
    v % modulus(w)
}

/// The value a `w`-bit pattern stands for when read as a signed
/// (two's complement) integer.
pub open spec fn signed_value(x: int, w: nat) -> int {
    let p = bits_of(x, w);
    if p >= modulus((w - 1) as nat) {
        p - modulus(w)
    } else {
        p
    }
}

/// The values of a `w`-bit integer type of the given class: signed ones
/// from `-2^(w-1)` below `2^(w-1)`, unsigned ones from 0 below `2^w`.
pub open spec fn in_class_range(ty: TyClass, v: int, w: nat) -> bool {
    if ty is SignedInt {
        -modulus((w - 1) as nat) <= v < modulus((w - 1) as nat)
    } else {
        0 <= v < modulus(w)
    }
}

/// Whether integer predicate `p` holds of the `w`-bit patterns of `x` and
/// `y`: `U` predicates read them unsigned, `S` predicates signed.
pub open spec fn int_predicate_holds(p: IntPredicate, x: int, y: int, w: nat) -> bool {
    let ux = bits_of(x, w);
    let uy = bits_of(y, w);
    let sx = signed_value(x, w);
    let sy = signed_value(y, w);
    match p {
        IntPredicate::EQ => ux == uy,
        IntPredicate::NE => ux != uy,
        IntPredicate::UGT => ux > uy,
        IntPredicate::UGE => ux >= uy,
        IntPredicate::ULT => ux < uy,
        IntPredicate::ULE => ux <= uy,
        IntPredicate::SGT => sx > sy,
        IntPredicate::SGE => sx >= sy,
        IntPredicate::SLT => sx < sy,
        IntPredicate::SLE => sx <= sy,
    }
}

/// What a comparison operator means on two values.
pub open spec fn operator_holds(op: ComparisonOp, a: int, b: int) -> bool {
    match op {
        ComparisonOp::Eq => a == b,
        ComparisonOp::Ne => a != b,
        ComparisonOp::Lt => a < b,
        ComparisonOp::Le => a <= b,
        ComparisonOp::Gt => a > b,
        ComparisonOp::Ge => a >= b,
    }
}

pub open spec fn abs(v: int) -> int {
    if v < 0 {
        -v
    } else {
        v
    }
}

/// Division that rounds toward zero, as Rust's and Cool's `/` on integers.
pub open spec fn trunc_div(a: int, b: int) -> int {
    let q = abs(a) / abs(b);
    if (a < 0) == (b < 0) {
        q
    } else {
        -q
    }
}

/// The remainder of division rounding toward zero, as Rust's and Cool's
/// `%` on integers: it has the sign of the dividend and is smaller than the
/// divisor in size.
pub open spec fn trunc_rem(a: int, b: int) -> int {
    if a >= 0 {
        a % abs(b)
    } else {
        -((-a) % abs(b))
    }
}

/// The `w`-bit pattern an integer arithmetic instruction yields on
/// operands `x` and `y`; `None` for float instructions.
pub open spec fn int_arith_result(instr: ArithmeticInstr, x: int, y: int, w: nat) -> Option<int> {
    match instr {
        ArithmeticInstr::IntAdd => Some(bits_of(x + y, w)),
        ArithmeticInstr::IntSub => Some(bits_of(x - y, w)),
        ArithmeticInstr::IntMul => Some(bits_of(x * y, w)),
        ArithmeticInstr::SignedDiv => Some(bits_of(trunc_div(signed_value(x, w), signed_value(y, w)), w)),
        ArithmeticInstr::UnsignedDiv => Some(bits_of(x, w) / bits_of(y, w)),
        ArithmeticInstr::SignedRem => Some(bits_of(trunc_rem(signed_value(x, w), signed_value(y, w)), w)),
        ArithmeticInstr::UnsignedRem => Some(bits_of(x, w) % bits_of(y, w)),
        _ => None,
    }
}

/// What an arithmetic operator means on two integers (before the result
/// is taken modulo `2^w`).
pub open spec fn operator_result(op: ArithmeticOp, a: int, b: int) -> int {
    match op {
        ArithmeticOp::Add => a + b,
        ArithmeticOp::Sub => a - b,
        ArithmeticOp::Mul => a * b,
        ArithmeticOp::Div => trunc_div(a, b),
        ArithmeticOp::Rem => trunc_rem(a, b),
    }
}

/// The `to_w`-bit pattern an integer resize yields on a `from_w`-bit
/// operand: it extends the operand's sign bit when `signed`, zeros
/// otherwise, then keeps the low `to_w` bits.
pub open spec fn int_cast_result(signed: bool, x: int, from_w: nat, to_w: nat) -> int {
    let v = if signed {
        signed_value(x, from_w)
    } else {
        bits_of(x, from_w)
    };
    bits_of(v, to_w)
}

/// The `w`-bit pattern a unary integer instruction yields on operand `x`;
/// `None` for the others.
pub open spec fn int_unary_result(instr: UnaryInstr, x: int, w: nat) -> Option<int> {
    match instr {
        UnaryInstr::IntNeg => Some(bits_of(-x, w)),
        UnaryInstr::BitNot => Some(modulus(w) - 1 - bits_of(x, w)),
        UnaryInstr::BoolNot => Some(if bits_of(x, w) == 1 { 0 } else { 1 }),
        _ => None,
    }
}

/// The pattern of a value of its type is the value itself when unsigned,
/// the value plus `2^w` when negative; read back, it gives the value.
/// Values of integer-like types (booleans, characters, pointers) are held
/// unsigned.
pub proof fn lemma_pattern_of_value(ty: TyClass, v: int, w: nat)
    requires
        w >= 1,
        !(ty is Float),
        in_class_range(ty, v, w),
    ensures
        0 <= bits_of(v, w) < modulus(w),
        v >= 0 ==> bits_of(v, w) == v,
        v < 0 ==> bits_of(v, w) == v + modulus(w),
        ty is SignedInt ==> signed_value(v, w) == v,
        !(ty is SignedInt) ==> bits_of(v, w) == v,
{
    let m = modulus(w);
    let h = modulus((w - 1) as nat);
    lemma_pow2_unfold(w);
    lemma_pow2_pos((w - 1) as nat);
    assert(m == 2 * h);
    if v >= 0 {
        lemma_fundamental_div_mod_converse(v, m, 0, v);
    } else {
        lemma_fundamental_div_mod_converse(v, m, -1, v + m);
    }
}

/// Comparisons on integers and on integer-like values (booleans,
/// characters, pointers) compute what their operator means on the
/// operands' values: the predicate picked for `op` holds of the two `w`-bit
/// operands exactly when `a op b` holds, reading them signed for signed
/// types and unsigned otherwise. So `>=` holds of
/// equal operands and `>` does not, on every integer class. (`<=` is left
/// out: it lowers to the strict `<` predicate, so `3 <= 3` is false.)
pub proof fn lemma_int_comparison_means_operator(op: ComparisonOp, ty: TyClass, w: nat, a: int, b: int)
    requires
        !(ty is Float),
        op != ComparisonOp::Le,
        w >= 1,
        in_class_range(ty, a, w),
        in_class_range(ty, b, w),
    ensures
        spec_comparison(op, ty) is Int,
        int_predicate_holds(spec_comparison(op, ty)->Int_0, a, b, w) == operator_holds(op, a, b),
{
    lemma_pattern_of_value(ty, a, w);
    lemma_pattern_of_value(ty, b, w);
    lemma_pow2_unfold(w);
}

/// Integer arithmetic computes what its operator means, modulo `2^w`: the
/// instruction picked for `op` on `w`-bit operands of values `a` and `b`
/// yields the pattern of `a op b`, with division and remainder rounding
/// toward zero on the values as the type reads them (so `-7 % 2` is `-1`
/// on a signed type). Division and remainder need a divisor other than 0.
pub proof fn lemma_int_arithmetic_means_operator(op: ArithmeticOp, ty: TyClass, w: nat, a: int, b: int)
    requires
        ty is SignedInt || ty is UnsignedInt,
        w >= 1,
        in_class_range(ty, a, w),
        in_class_range(ty, b, w),
        (op == ArithmeticOp::Div || op == ArithmeticOp::Rem) ==> b != 0,
    ensures
        int_arith_result(spec_arithmetic_instr(op, ty), a, b, w) == Some(bits_of(operator_result(op, a, b), w)),
{
    lemma_pattern_of_value(ty, a, w);
    lemma_pattern_of_value(ty, b, w);
    if ty is UnsignedInt {
        let m = modulus(w);
        if op == ArithmeticOp::Div {
            assert(0 <= a / b <= a) by (nonlinear_arith)
                requires
                    0 <= a,
                    0 < b,
            ;
            lemma_small_mod((a / b) as nat, m as nat);
        }
        if op == ArithmeticOp::Rem {
            assert(0 <= a % b < b) by (nonlinear_arith)
                requires
                    0 < b,
            ;
            lemma_small_mod((a % b) as nat, m as nat);
        }
    }
}

/// A cast between integer types keeps the value modulo the target's
/// `2^to_w`, as Rust's `as` does: the resize picked for the cast turns the
/// `from_w`-bit pattern of any value `a` of the source type into the
/// `to_w`-bit pattern of `a`. So a widening cast of an unsigned value
/// zero-extends it (`200u8 as i32` is 200) and one of a signed value
/// sign-extends it (`-56i8 as u32` is `2^32 - 56`).
pub proof fn lemma_int_cast_keeps_value(from: TyClass, to: TyClass, from_w: nat, to_w: nat, a: int)
    requires
        from is SignedInt || from is UnsignedInt,
        to is SignedInt || to is UnsignedInt,
        from_w >= 1,
        to_w >= 1,
        in_class_range(from, a, from_w),
    ensures
        spec_cast_instr(CastKind::IntToInt, from, to) is IntCast,
        int_cast_result(spec_cast_instr(CastKind::IntToInt, from, to)->signed, a, from_w, to_w) == bits_of(a, to_w),
{
    lemma_pattern_of_value(from, a, from_w);
}

/// `!` on an integer, signed or unsigned, flips every bit: on the `w`-bit
/// operand of value `a` it yields the pattern of `-a - 1` (so `!5` is `-6`
/// on a signed type and `2^w - 6` on an unsigned one); unary `-` yields the
/// pattern of `-a`.
pub proof fn lemma_int_unary_means_operator(ty: TyClass, w: nat, a: int)
    requires
        ty is SignedInt || ty is UnsignedInt,
        w >= 1,
        in_class_range(ty, a, w),
    ensures
        int_unary_result(spec_unary_instr(UnaryOp::Not, ty), a, w) == Some(bits_of(-a - 1, w)),
        int_unary_result(spec_unary_instr(UnaryOp::Minus, ty), a, w) == Some(bits_of(-a, w)),
{
    lemma_pattern_of_value(ty, a, w);
    let m = modulus(w);
    let p = bits_of(a, w);
    lemma_pow2_unfold(w);
    lemma_pow2_pos((w - 1) as nat);
    if a >= 0 {
        lemma_fundamental_div_mod_converse(-a - 1, m, -1, m - 1 - p);
    } else {
        lemma_fundamental_div_mod_converse(-a - 1, m, 0, m - 1 - p);
    }
}

/// `<=` lowers to the predicate of `<` on every class of operands, so on
/// integers it holds exactly when `<` does (`3 <= 3` is false); and no
/// comparison of floats uses an integer predicate, nor one of integers a
/// float predicate.
pub proof fn lemma_le_lowers_as_lt(ty: TyClass)
    ensures
        spec_comparison(ComparisonOp::Le, ty) == spec_comparison(ComparisonOp::Lt, ty),
        ty is Float ==> spec_comparison(ComparisonOp::Le, ty) is Float,
        !(ty is Float) ==> spec_comparison(ComparisonOp::Le, ty) is Int,
{
}

/// `!` on a boolean (held as 0 or 1) yields the other boolean.
pub proof fn lemma_bool_not_negates(w: nat, a: int)
    requires
        w >= 1,
        a == 0 || a == 1,
    ensures
        int_unary_result(spec_unary_instr(UnaryOp::Not, TyClass::Other), a, w) == Some(1 - a),
{
    lemma_pow2_unfold(w);
    lemma_pow2_pos((w - 1) as nat);
    lemma_pattern_of_value(TyClass::Other, a, w);
}

} // verus!
