use khora_codegen_llvm::ints::IntKind;
use khora_codegen_llvm::operators::{
    binary, comparison, conversion_message, division_message, float_predicate_for, int_operation,
    int_predicate_for, int_shape, int_width, overflow_intrinsic_for, overflow_message, read_ordering,
    through_impl, unary, unresolved_comparison_message, BinOp, Binary, Comparison, Conversion, FloatOp,
    FloatPredicate, ImplReading, IntOperation, IntPredicate, Operand, UnOp, Unary,
};
use khora_codegen_llvm::variants::{VariantInfo, VariantTable};

fn v(owner: &str, name: &str) -> VariantInfo {
    VariantInfo { owner: owner.to_string(), name: name.to_string(), home: Some("std".to_string()) }
}

fn three_way() -> VariantTable {
    VariantTable { variants: vec![v("Option", "None"), v("Ordering", "Less"), v("Ordering", "Equal"), v("Ordering", "Greater")] }
}

#[test]
fn integer_types_have_a_width_and_a_sign() {
    assert_eq!(int_shape(Operand::Int), Some((64, true)));
    assert_eq!(int_shape(Operand::Fixed(IntKind::U8)), Some((8, false)));
    assert_eq!(int_shape(Operand::Fixed(IntKind::I32)), Some((32, true)));
    assert_eq!(int_shape(Operand::Bool), None);
    assert_eq!(int_shape(Operand::Float), None);
}

#[test]
fn arithmetic_is_checked_at_the_types_own_width() {
    assert_eq!(binary(BinOp::Add, Operand::Fixed(IntKind::U8)), Binary::Checked { signed: false, bits: 8 });
    assert_eq!(binary(BinOp::Mul, Operand::Int), Binary::Checked { signed: true, bits: 64 });
    assert_eq!(overflow_intrinsic_for(BinOp::Add, 8, false), "llvm.uadd.with.overflow.i8");
    assert_eq!(overflow_intrinsic_for(BinOp::Sub, 64, true), "llvm.ssub.with.overflow.i64");
    assert_eq!(overflow_intrinsic_for(BinOp::Mul, 32, true), "llvm.smul.with.overflow.i32");
    assert_eq!(overflow_message(BinOp::Add, "U8"), "U8 addition overflowed");
    assert_eq!(overflow_message(BinOp::Sub, "Int"), "Int subtraction overflowed");
    assert_eq!(overflow_message(BinOp::Mul, "I16"), "I16 multiplication overflowed");
}

#[test]
fn strings_and_floats_have_their_own_arithmetic() {
    assert_eq!(binary(BinOp::Add, Operand::Str), Binary::Concat);
    assert_eq!(binary(BinOp::Add, Operand::Float), Binary::Float(FloatOp::Add));
    assert_eq!(binary(BinOp::Sub, Operand::Float), Binary::Float(FloatOp::Sub));
    assert_eq!(binary(BinOp::Mul, Operand::Float), Binary::Float(FloatOp::Mul));
    assert_eq!(binary(BinOp::Div, Operand::Float), Binary::Float(FloatOp::Div));
}

#[test]
fn division_divides_with_the_types_sign() {
    assert_eq!(binary(BinOp::Div, Operand::Int), Binary::Divide { signed: true, remainder: false, bits: 64 });
    assert_eq!(
        binary(BinOp::Rem, Operand::Fixed(IntKind::U32)),
        Binary::Divide { signed: false, remainder: true, bits: 32 }
    );
    assert_eq!(division_message("I8", false), "I8 division by zero");
    assert_eq!(division_message("I8", true), "I8 division overflowed");
}

#[test]
fn logical_operators_short_circuit() {
    assert_eq!(binary(BinOp::And, Operand::Bool), Binary::ShortCircuit { shortcut: false });
    assert_eq!(binary(BinOp::Or, Operand::Bool), Binary::ShortCircuit { shortcut: true });
}

#[test]
fn comparisons_are_signed_as_the_type_is() {
    assert_eq!(int_predicate_for(BinOp::Lt, Operand::Fixed(IntKind::U8)), IntPredicate::Ult);
    assert_eq!(int_predicate_for(BinOp::Lt, Operand::Fixed(IntKind::I8)), IntPredicate::Slt);
    assert_eq!(int_predicate_for(BinOp::Ge, Operand::Int), IntPredicate::Sge);
    assert_eq!(int_predicate_for(BinOp::Le, Operand::Bool), IntPredicate::Ule);
    assert_eq!(int_predicate_for(BinOp::Gt, Operand::Unit), IntPredicate::Sgt);
    assert_eq!(int_predicate_for(BinOp::Eq, Operand::Fixed(IntKind::U8)), IntPredicate::Eq);
    assert_eq!(int_predicate_for(BinOp::Ne, Operand::Int), IntPredicate::Ne);
    assert_eq!(binary(BinOp::Lt, Operand::Bool), Binary::Compare(Comparison::Int(IntPredicate::Ult)));
    assert_eq!(binary(BinOp::Eq, Operand::Unit), Binary::Compare(Comparison::Int(IntPredicate::Eq)));
}

#[test]
fn a_u8_255_is_not_below_zero() {
    // The predicate read on the two values' bits, as `icmp` reads them.
    let predicate = int_predicate_for(BinOp::Lt, Operand::Fixed(IntKind::U8));
    let (x, y) = (255u8, 0u8);
    let holds = match predicate {
        IntPredicate::Ult => x < y,
        IntPredicate::Slt => (x as i8) < (y as i8),
        _ => panic!("not an ordering predicate"),
    };
    assert!(!holds);
    // `false < true` for a `Bool`.
    let predicate = int_predicate_for(BinOp::Lt, Operand::Bool);
    let holds = match predicate {
        IntPredicate::Ult => 0u8 < 1u8,
        _ => false,
    };
    assert!(holds);
}

#[test]
fn floats_compare_ordered_except_not_equal() {
    assert_eq!(float_predicate_for(BinOp::Eq), FloatPredicate::Oeq);
    assert_eq!(float_predicate_for(BinOp::Ne), FloatPredicate::Une);
    assert_eq!(float_predicate_for(BinOp::Lt), FloatPredicate::Olt);
    assert_eq!(float_predicate_for(BinOp::Ge), FloatPredicate::Oge);
    assert_eq!(comparison(BinOp::Le, Operand::Float), Comparison::Float(FloatPredicate::Ole));
}

#[test]
fn strings_compare_by_their_bytes() {
    assert_eq!(comparison(BinOp::Eq, Operand::Str), Comparison::Strings { equal: true });
    assert_eq!(comparison(BinOp::Ne, Operand::Str), Comparison::Strings { equal: false });
    assert_eq!(comparison(BinOp::Lt, Operand::Str), Comparison::ThroughImpl);
    assert_eq!(comparison(BinOp::Eq, Operand::Other), Comparison::ThroughImpl);
}

#[test]
fn one_tag_test_answers_each_ordering_operator() {
    let table = three_way();
    assert_eq!(read_ordering(&table, BinOp::Lt), Ok(ImplReading::Tag { tag: 0, equal: true }));
    assert_eq!(read_ordering(&table, BinOp::Ge), Ok(ImplReading::Tag { tag: 0, equal: false }));
    assert_eq!(read_ordering(&table, BinOp::Gt), Ok(ImplReading::Tag { tag: 2, equal: true }));
    assert_eq!(read_ordering(&table, BinOp::Le), Ok(ImplReading::Tag { tag: 2, equal: false }));
    // Each operator, read off the three answers of `cmp` for 1 against 2, 2 and 3.
    let answers = [0u32, 1, 2];
    for (op, expected) in [
        (BinOp::Lt, [true, false, false]),
        (BinOp::Le, [true, true, false]),
        (BinOp::Gt, [false, false, true]),
        (BinOp::Ge, [false, true, true]),
    ] {
        let Ok(ImplReading::Tag { tag, equal }) = read_ordering(&table, op) else { panic!("no reading") };
        let got: Vec<bool> = answers.iter().map(|a| (*a == tag) == equal).collect();
        assert_eq!(got, expected);
    }
}

#[test]
fn a_three_way_type_without_its_answers_is_reported() {
    let table = VariantTable { variants: vec![v("Ordering", "Less")] };
    assert_eq!(
        read_ordering(&table, BinOp::Lt),
        Err("`Ord::cmp` produces an `Ordering`, which has `Less`, `Equal` and `Greater`".to_string())
    );
}

#[test]
fn a_comparison_through_an_impl() {
    let table = three_way();
    assert_eq!(through_impl(&table, BinOp::Eq, true, "Point"), Ok(ImplReading::Direct));
    assert_eq!(through_impl(&table, BinOp::Ne, true, "Point"), Ok(ImplReading::Negated));
    assert_eq!(through_impl(&table, BinOp::Gt, true, "Point"), Ok(ImplReading::Tag { tag: 2, equal: true }));
    assert_eq!(
        through_impl(&table, BinOp::Eq, false, "Point"),
        Err("two `Point` values cannot be compared with `==` or `!=`: no `Eq` impl was reachable here. \
             Either there is no `impl Eq for Point`, or `Eq` is not imported in this module \u{2014} an \
             operator only reaches an impl whose trait is in scope where the comparison is written"
            .to_string())
    );
    assert_eq!(
        unresolved_comparison_message(BinOp::Lt, "Point"),
        "two `Point` values cannot be compared with `<`, `>`, `<=` or `>=`: no `Ord` impl was reachable \
         here. Either there is no `impl Ord for Point`, or `Ord` is not imported in this module \u{2014} an \
         operator only reaches an impl whose trait is in scope where the comparison is written"
    );
}

#[test]
fn negation_follows_the_operand() {
    assert_eq!(unary(UnOp::Neg, Operand::Float), Unary::FloatNeg);
    assert_eq!(unary(UnOp::Neg, Operand::Int), Unary::IntNeg);
    assert_eq!(unary(UnOp::Not, Operand::Bool), Unary::Not);
}

#[test]
fn integer_operations_by_name() {
    assert_eq!(int_operation(8, false, "U8", "wrapping_add", 2), Ok(IntOperation::WrappingAdd));
    assert_eq!(int_operation(8, false, "U8", "xor", 2), Ok(IntOperation::Xor));
    assert_eq!(int_operation(8, false, "U8", "shl", 2), Ok(IntOperation::Shl { mask: 7 }));
    assert_eq!(int_operation(32, true, "I32", "shr", 2), Ok(IntOperation::Shr { mask: 31, arithmetic: true }));
    assert_eq!(int_operation(64, false, "U64", "shr", 2), Ok(IntOperation::Shr { mask: 63, arithmetic: false }));
    assert_eq!(int_operation(16, false, "U16", "to_float", 1), Ok(IntOperation::ToFloat));
}

#[test]
fn integer_operations_check_their_arguments() {
    assert_eq!(int_operation(8, false, "U8", "to_float", 2), Err("`U8::to_float` takes one number".to_string()));
    assert_eq!(int_operation(8, false, "U8", "wrapping", 2), Err("`U8::wrapping` takes one argument".to_string()));
    assert_eq!(int_operation(8, false, "U8", "rotate", 1), Err("`U8::rotate` takes two arguments".to_string()));
    assert_eq!(
        int_operation(8, false, "U8", "rotate", 2),
        Err("`U8::rotate` is not an integer operation the backend knows".to_string())
    );
}

#[test]
fn conversions_check_what_does_not_fit() {
    assert_eq!(int_operation(8, true, "I8", "wrapping", 1), Ok(IntOperation::Convert(Conversion::Truncate)));
    assert_eq!(
        int_operation(8, true, "I8", "wrapping_to_int", 1),
        Ok(IntOperation::Convert(Conversion::Widen { signed: true }))
    );
    assert_eq!(
        int_operation(8, true, "I8", "of", 1),
        Ok(IntOperation::Convert(Conversion::Narrow { signed: true, nonnegative: false }))
    );
    assert_eq!(
        int_operation(32, false, "U32", "to_int", 1),
        Ok(IntOperation::Convert(Conversion::WidenChecked { signed: false, nonnegative: false }))
    );
    // Only `U64` holds numbers `Int` cannot, and only its round trip keeps a
    // negative `Int`; both get the sign check.
    assert_eq!(
        int_operation(64, false, "U64", "to_int", 1),
        Ok(IntOperation::Convert(Conversion::WidenChecked { signed: false, nonnegative: true }))
    );
    assert_eq!(
        int_operation(64, false, "U64", "of", 1),
        Ok(IntOperation::Convert(Conversion::Narrow { signed: false, nonnegative: true }))
    );
    assert_eq!(conversion_message("U8", true), "converting Int to U8");
    assert_eq!(conversion_message("U64", false), "converting U64 to Int");
}

#[test]
fn only_the_minimum_over_minus_one_overflows_a_division() {
    // What the check stops, against what the machine computes.
    assert_eq!(binary(BinOp::Div, Operand::Fixed(IntKind::I8)), Binary::Divide { signed: true, remainder: false, bits: 8 });
    for a in i8::MIN..=i8::MAX {
        for b in [i8::MIN, -2, -1, 1, 2, i8::MAX] {
            let stopped = a == i8::MIN && b == -1;
            assert_eq!(a.checked_div(b).is_none(), stopped);
        }
    }
}

#[test]
fn four_widths_exist() {
    assert_eq!(int_width(8), 8);
    assert_eq!(int_width(16), 16);
    assert_eq!(int_width(32), 32);
    assert_eq!(int_width(64), 64);
    assert_eq!(int_width(1), 64);
}
