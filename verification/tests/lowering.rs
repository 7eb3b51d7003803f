use cool_compiler::value::{load_action, CallableValue, LoadAction, LoadedValue, Value};
use cool_compiler::fn_state::{FnStack, FnState, JumpBlock};
use cool_compiler::defers::{defer_frames, return_defer_frames};
use cool_compiler::generated_tys::{GeneratedTys, LoweredTy, TyShape};
use cool_compiler::lowering::{
    address_of, array_repeat_plan, AddressOf, RepeatPlan,
    arithmetic_instr, assign_instr, cond_fallthrough, joins_with_phi, CondFallthrough, bitwise_instr, bool_not_value, cast_instr, comparison,
    element_store, init_slot_target, int_literal_words, nullable_ptr_arm_tag, nullable_ptr_tag,
    range_slice, short_circuit, struct_field_store, unary_instr, ArithmeticInstr, ArithmeticOp,
    AssignInstr, AssignOp, BitwiseInstr, BitwiseOp, CastInstr, CastKind, Comparison,
    ComparisonOp, FloatPredicate, IntPredicate, LogicalOp, SlotStore, TyClass, UnaryInstr,
    UnaryOp, ValueKind,
};
use cool_compiler::mangle_item_path;
use cool_compiler::text::{bytes_eq, str_eq};
use cool_compiler::ty_lowering::{
    aggregate_is_sized, aggregate_slots, lower_array, lower_fn_signature, lower_pointer, lower_primitive,
    PointerRepr, PrimitiveTy, ScalarTy, TyFieldMap,
};

#[test]
fn arithmetic_picks_instruction_by_type_class() {
    assert_eq!(arithmetic_instr(ArithmeticOp::Add, TyClass::SignedInt), ArithmeticInstr::IntAdd);
    assert_eq!(arithmetic_instr(ArithmeticOp::Add, TyClass::Float), ArithmeticInstr::FloatAdd);
    assert_eq!(arithmetic_instr(ArithmeticOp::Div, TyClass::SignedInt), ArithmeticInstr::SignedDiv);
    assert_eq!(arithmetic_instr(ArithmeticOp::Div, TyClass::UnsignedInt), ArithmeticInstr::UnsignedDiv);
    assert_eq!(arithmetic_instr(ArithmeticOp::Rem, TyClass::Float), ArithmeticInstr::FloatRem);
    assert_eq!(arithmetic_instr(ArithmeticOp::Mul, TyClass::UnsignedInt), ArithmeticInstr::IntMul);
}

#[test]
fn comparison_predicates() {
    assert_eq!(comparison(ComparisonOp::Eq, TyClass::Float), Comparison::Float(FloatPredicate::OEQ));
    assert_eq!(comparison(ComparisonOp::Ne, TyClass::Other), Comparison::Int(IntPredicate::NE));
    assert_eq!(comparison(ComparisonOp::Gt, TyClass::SignedInt), Comparison::Int(IntPredicate::SGT));
    assert_eq!(comparison(ComparisonOp::Ge, TyClass::UnsignedInt), Comparison::Int(IntPredicate::UGE));
    // `<` and `<=` lower alike.
    assert_eq!(comparison(ComparisonOp::Lt, TyClass::SignedInt), Comparison::Int(IntPredicate::SLT));
    assert_eq!(comparison(ComparisonOp::Le, TyClass::SignedInt), Comparison::Int(IntPredicate::SLT));
    assert_eq!(comparison(ComparisonOp::Le, TyClass::UnsignedInt), Comparison::Int(IntPredicate::ULT));
    assert_eq!(comparison(ComparisonOp::Lt, TyClass::Float), Comparison::Float(FloatPredicate::OLE));
}

#[test]
fn bitwise_and_assign_instructions() {
    assert_eq!(bitwise_instr(BitwiseOp::Shr, TyClass::SignedInt), BitwiseInstr::Shr { sign_extend: true });
    assert_eq!(bitwise_instr(BitwiseOp::Shr, TyClass::UnsignedInt), BitwiseInstr::Shr { sign_extend: false });
    assert_eq!(bitwise_instr(BitwiseOp::Xor, TyClass::UnsignedInt), BitwiseInstr::Xor);
    assert_eq!(assign_instr(AssignOp::Eq, TyClass::Float), AssignInstr::Store);
    assert_eq!(
        assign_instr(AssignOp::Rem, TyClass::UnsignedInt),
        AssignInstr::Arithmetic(ArithmeticInstr::UnsignedRem)
    );
    assert_eq!(
        assign_instr(AssignOp::Shr, TyClass::SignedInt),
        AssignInstr::Bitwise(BitwiseInstr::Shr { sign_extend: true })
    );
    assert_eq!(
        assign_instr(AssignOp::Sub, TyClass::Float),
        AssignInstr::Arithmetic(arithmetic_instr(ArithmeticOp::Sub, TyClass::Float))
    );
}

#[test]
fn unary_and_cast_instructions() {
    assert_eq!(unary_instr(UnaryOp::Minus, TyClass::SignedInt), UnaryInstr::IntNeg);
    assert_eq!(unary_instr(UnaryOp::Minus, TyClass::Float), UnaryInstr::FloatNeg);
    assert_eq!(unary_instr(UnaryOp::Not, TyClass::UnsignedInt), UnaryInstr::BitNot);
    assert_eq!(unary_instr(UnaryOp::Not, TyClass::Other), UnaryInstr::BoolNot);
    assert_eq!(unary_instr(UnaryOp::Addr, TyClass::Other), UnaryInstr::AddressOf);
    assert_eq!(bool_not_value(1), 0);
    assert_eq!(bool_not_value(0), 1);
    assert_eq!(cast_instr(CastKind::IntToFloat, TyClass::SignedInt, TyClass::Float), CastInstr::SignedIntToFloat);
    assert_eq!(cast_instr(CastKind::IntToFloat, TyClass::UnsignedInt, TyClass::Float), CastInstr::UnsignedIntToFloat);
    assert_eq!(cast_instr(CastKind::IntToInt, TyClass::SignedInt, TyClass::UnsignedInt), CastInstr::IntCast { signed: true });
    assert_eq!(cast_instr(CastKind::FloatToInt, TyClass::Float, TyClass::UnsignedInt), CastInstr::FloatToUnsignedInt);
    assert_eq!(cast_instr(CastKind::TupleToSlice, TyClass::Other, TyClass::Other), CastInstr::Bitcast);
    assert_eq!(cast_instr(CastKind::PtrToUsize, TyClass::Other, TyClass::UnsignedInt), CastInstr::PtrToInt);
}

#[test]
fn literal_words_split_low_first() {
    assert_eq!(int_literal_words(5), [5, 0]);
    assert_eq!(int_literal_words(u128::MAX), [u64::MAX, u64::MAX]);
    assert_eq!(int_literal_words((3u128 << 64) | 7), [7, 3]);
}

#[test]
fn nullable_pointer_tags_and_ranges() {
    assert_eq!(nullable_ptr_tag(0x1000), nullable_ptr_arm_tag(true));
    assert_eq!(nullable_ptr_tag(0), nullable_ptr_arm_tag(false));
    assert_eq!(range_slice(Some(2), Some(5), 9), (2, 3));
    assert_eq!(range_slice(None, None, 9), (0, 9));
    assert_eq!(range_slice(Some(4), None, 9), (4, 5));
    assert_eq!(range_slice(Some(5), Some(4), 9), (5, u64::MAX));
}

#[test]
fn short_circuit_and_slot_stores() {
    let and = short_circuit(LogicalOp::And);
    assert!(and.rhs_when);
    assert_eq!(and.skipped_value, 0);
    let or = short_circuit(LogicalOp::Or);
    assert!(!or.rhs_when);
    assert_eq!(or.skipped_value, 1);
    assert_eq!(init_slot_target(true, true, Some(2)), Some(2));
    assert_eq!(init_slot_target(true, false, Some(2)), None);
    assert_eq!(struct_field_store(ValueKind::Memory, false), SlotStore::LoadAndStore);
    assert_eq!(struct_field_store(ValueKind::Memory, true), SlotStore::Nothing);
    assert_eq!(struct_field_store(ValueKind::Fn, false), SlotStore::FnPointer);
    assert_eq!(element_store(ValueKind::Memory), SlotStore::Nothing);
    assert_eq!(element_store(ValueKind::Register), SlotStore::Register);
}

#[test]
fn type_lowering() {
    assert_eq!(lower_primitive(PrimitiveTy::Unit, 64), None);
    assert_eq!(lower_primitive(PrimitiveTy::Bool, 64), Some(ScalarTy::Int { bits: 8 }));
    assert_eq!(lower_primitive(PrimitiveTy::Char, 64), Some(ScalarTy::Int { bits: 32 }));
    assert_eq!(lower_primitive(PrimitiveTy::Usize, 32), Some(ScalarTy::Int { bits: 32 }));
    assert_eq!(lower_primitive(PrimitiveTy::CStr, 64), Some(ScalarTy::BytePtr));
    assert_eq!(lower_primitive(PrimitiveTy::F64, 64), Some(ScalarTy::F64));
    assert_eq!(lower_array(true, 4), Some(4));
    assert_eq!(lower_array(true, 0), None);
    assert_eq!(lower_array(false, 4), None);
    assert_eq!(lower_array(true, (1u64 << 32) + 3), Some(3));
    assert_eq!(lower_pointer(false), PointerRepr::PtrSizedInt);
    assert_eq!(lower_pointer(true), PointerRepr::ToPointee);
    assert_eq!(lower_fn_signature(&[true, false, true], false), (vec![0, 2], false));
    assert_eq!(aggregate_slots(&[false, true, false, true]), vec![None, Some(0), None, Some(1)]);
}

#[test]
fn field_map_gives_consecutive_slots_to_sized_fields() {
    let map = TyFieldMap::new(&[(10, true), (11, false), (12, true), (10, true)]);
    assert_eq!(map.get(10), Some(2));
    assert_eq!(map.get(11), None);
    assert_eq!(map.get(12), Some(1));
    assert_eq!(map.get(13), None);
}

#[test]
fn mangled_names() {
    assert_eq!(mangle_item_path(&["pkg", "module", "item"]).as_str(), "pkg__module__item");
    assert_eq!(mangle_item_path(&["pkg", "main"]).as_str(), "main");
    assert_eq!(mangle_item_path(&["one"]).as_str(), "one");
    assert_eq!(mangle_item_path(&[]).as_str(), "");
}

#[test]
fn deferred_frames_walk_up_the_tree() {
    // Frame 0 is the root; 1 is in 0; 2 is in 1; 3 is in 2.
    let parents = [None, Some(0), Some(1), Some(2)];
    let has_defer = [true, false, true, true];
    assert_eq!(defer_frames(&parents, &has_defer, 1, 3), vec![3, 2]);
    assert_eq!(defer_frames(&parents, &has_defer, 3, 3), Vec::<u32>::new());
    assert_eq!(return_defer_frames(&parents, &has_defer, 3), vec![3, 2, 0]);
    assert_eq!(return_defer_frames(&parents, &has_defer, 1), vec![0]);
}

#[test]
fn text_equality() {
    assert!(str_eq("héllo", "héllo"));
    assert!(!str_eq("héllo", "hello"));
    assert!(bytes_eq(&[1, 2], &[1, 2]));
    assert!(!bytes_eq(&[1, 2], &[1]));
}

#[test]
fn joins_and_fallthrough() {
    assert!(joins_with_phi(true, 2));
    assert!(!joins_with_phi(true, 0));
    assert!(!joins_with_phi(false, 3));
    assert_eq!(cond_fallthrough(1, 2, false), CondFallthrough::End);
    assert_eq!(cond_fallthrough(1, 2, true), CondFallthrough::Next);
    assert_eq!(cond_fallthrough(0, 2, false), CondFallthrough::Next);
}

#[test]
fn fn_stack_tracks_loops_of_the_current_function() {
    let state: FnState<&str, u32, u32> = FnState::new("f");
    assert!(state.jump_blocks.is_empty());
    assert_eq!(state.last_alloca, None);

    let mut stack: FnStack<&str, u32, u32> = FnStack::new();
    stack.enter_fn("main");
    assert_eq!(stack.fn_state().fn_value, "main");
    stack.push_jump_block(JumpBlock { first_frame_id: 1, break_block: 10, continue_block: 11 });
    stack.push_jump_block(JumpBlock { first_frame_id: 2, break_block: 20, continue_block: 21 });
    assert_eq!(stack.jump_block().continue_block, 21);
    stack.pop_jump_block();
    assert_eq!(stack.jump_block().break_block, 10);
    assert_eq!(stack.get_last_alloca(), None);
    stack.update_last_alloca(7);
    assert_eq!(stack.get_last_alloca(), Some(&7));
    stack.fn_state_mut().fn_value = "renamed";
    assert_eq!(stack.fn_state().fn_value, "renamed");
    stack.enter_fn("inner");
    assert!(stack.fn_state().jump_blocks.is_empty());
    stack.leave_fn();
    assert_eq!(stack.jump_block().first_frame_id, 1);
}

#[test]
fn values_and_loading() {
    let v: Value<&str, u32, u64, u8> = Value::memory(0x10, 4);
    assert!(!v.is_void());
    assert_eq!(load_action(&v, true), LoadAction::Load);
    assert_eq!(load_action(&v, false), LoadAction::Nothing);
    let f: Value<&str, u32, u64, u8> = Value::Fn("callee");
    assert_eq!(load_action(&f, true), LoadAction::FnAddress);
    assert_eq!(f.into_function_value(), "callee");
    let void: Value<&str, u32, u64, u8> = Value::Void;
    assert!(void.is_void());
    assert_eq!(load_action(&void, true), LoadAction::Nothing);

    let loaded: LoadedValue<u32> = LoadedValue::Register(9);
    assert_eq!(loaded.as_basic_value(), Some(&9));
    assert_eq!(loaded.into_basic_value(), 9);
    assert!(matches!(loaded.into_value::<&str, u64, u8>(), Value::Register(9)));
    assert!(matches!(loaded.into_callable_value::<&str>(), CallableValue::Register(9)));
    let nothing: LoadedValue<u32> = LoadedValue::Void;
    assert_eq!(nothing.as_basic_value(), None);
    assert!(matches!(nothing.into_value::<&str, u64, u8>(), Value::Void));
}

#[test]
fn aggregate_is_sized_when_some_field_is() {
    assert!(!aggregate_is_sized(&[]));
    assert!(!aggregate_is_sized(&[false, false]));
    assert!(aggregate_is_sized(&[false, true]));
    assert!(aggregate_is_sized(&[true]));
}

#[test]
fn array_repeat_plans() {
    assert_eq!(array_repeat_plan(0, true), RepeatPlan::Skip);
    assert_eq!(array_repeat_plan(0, false), RepeatPlan::Skip);
    assert_eq!(array_repeat_plan(3, false), RepeatPlan::EvaluateOnly);
    assert_eq!(array_repeat_plan(3, true), RepeatPlan::Fill);
}

#[test]
fn address_of_operands() {
    assert_eq!(address_of(ValueKind::Memory), AddressOf::MemoryPointer);
    assert_eq!(address_of(ValueKind::Fn), AddressOf::FnAddress);
    assert_eq!(address_of(ValueKind::Void), AddressOf::AlignmentPointer);
}

#[test]
fn balanced_jump_blocks_give_back_the_outer_loop() {
    let mut stack: FnStack<u8, u8, u32> = FnStack::new();
    stack.enter_fn(1);
    let outer = JumpBlock { first_frame_id: 1, break_block: 10, continue_block: 11 };
    stack.push_jump_block(outer);
    for depth in 0..3u32 {
        stack.push_jump_block(JumpBlock { first_frame_id: 2 + depth, break_block: 20 + depth, continue_block: 30 + depth });
        stack.push_jump_block(JumpBlock { first_frame_id: 9, break_block: 90, continue_block: 91 });
        stack.pop_jump_block();
        stack.pop_jump_block();
    }
    let top = stack.jump_block();
    assert_eq!((top.first_frame_id, top.break_block, top.continue_block), (1, 10, 11));
}

fn sample_table() -> Vec<TyShape> {
    vec![
        // 0: unit, 1: i32
        TyShape::Builtin(None),
        TyShape::Builtin(Some(ScalarTy::Int { bits: 32 })),
        // 2: [i32; 4], 3: [(); 4], 4: [i32; 0]
        TyShape::Array { elem: 1, len: 4 },
        TyShape::Array { elem: 0, len: 4 },
        TyShape::Array { elem: 1, len: 0 },
        // 5: ((), [(); 4]), 6: ((), i32)
        TyShape::Aggregate { fields: vec![(100, 0), (101, 3)] },
        TyShape::Aggregate { fields: vec![(100, 0), (101, 1)] },
        // 7: *(), 8: *i32
        TyShape::Ptr { pointee: 0 },
        TyShape::Ptr { pointee: 1 },
        // 9: fn(i32, (), [i32; 4]) -> (), 10: fn(...) -> i32
        TyShape::Fn { params: vec![1, 0, 2], ret: 0, is_variadic: false },
        TyShape::Fn { params: vec![], ret: 1, is_variadic: true },
        // 11: struct S { a: (), b: i32, c: *S }, 12: *S, 13: struct E {}
        TyShape::Struct { fields: vec![(200, 0), (201, 1), (202, 12)] },
        TyShape::Ptr { pointee: 11 },
        TyShape::Struct { fields: vec![(300, 0)] },
    ]
}

#[test]
fn generated_tys_lower_every_type() {
    let table = sample_table();
    let tys = GeneratedTys::new(&table);
    assert_eq!(tys.get(0), None);
    assert_eq!(tys.get(1), Some(LoweredTy::Scalar(ScalarTy::Int { bits: 32 })));
    assert_eq!(tys.get(2), Some(LoweredTy::Array { elem: 1, len: 4 }));
    assert_eq!(tys.get(3), None);
    assert_eq!(tys.get(4), None);
    assert_eq!(tys.get(5), None);
    assert_eq!(tys.get(6), Some(LoweredTy::Struct));
    assert_eq!(tys.get(7), Some(LoweredTy::PtrSizedInt));
    assert_eq!(tys.get(8), Some(LoweredTy::Ptr { pointee: 1 }));
    assert_eq!(tys.get(9), Some(LoweredTy::FnPtr));
    assert_eq!(tys.get(11), Some(LoweredTy::Named));
    assert_eq!(tys.get(12), Some(LoweredTy::Ptr { pointee: 11 }));
    assert_eq!(tys.get(13), Some(LoweredTy::Named));
}

#[test]
fn generated_tys_record_fn_signatures_and_field_maps() {
    let table = sample_table();
    let tys = GeneratedTys::new(&table);
    let sig = tys.get_fn_ty(9);
    assert_eq!(sig.params, vec![1, 2]);
    assert_eq!(sig.ret, None);
    assert!(!sig.is_variadic);
    let sig = tys.get_fn_ty(10);
    assert!(sig.params.is_empty());
    assert_eq!(sig.ret, Some(1));
    assert!(sig.is_variadic);
    let map = tys.get_field_map(6);
    assert_eq!(map.get(100), None);
    assert_eq!(map.get(101), Some(0));
    let map = tys.get_field_map(11);
    assert_eq!(map.get(200), None);
    assert_eq!(map.get(201), Some(0));
    assert_eq!(map.get(202), Some(1));
    assert_eq!(tys.get_field_map(13).get(300), None);
}

#[test]
fn generated_tys_insert_ty_is_remembered() {
    let table = sample_table();
    let mut tys = GeneratedTys::new(&table);
    assert_eq!(tys.insert_ty(&table, 6), Some(LoweredTy::Struct));
    assert_eq!(tys.insert_ty(&table, 6), Some(LoweredTy::Struct));
    assert_eq!(tys.insert_ty(&table, 5), None);
    assert_eq!(tys.get(5), None);
}

#[test]
fn fn_state_clone_keeps_its_loops() {
    let mut state: FnState<u8, u8, u32> = FnState::new(3);
    state.jump_blocks.push(JumpBlock { first_frame_id: 1, break_block: 2, continue_block: 3 });
    let copy = state.clone();
    assert_eq!(copy.fn_value, 3);
    assert_eq!(copy.jump_blocks.len(), 1);
    assert_eq!(copy.jump_blocks[0].break_block, 2);
}
