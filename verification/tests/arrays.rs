use khora_codegen_llvm::arrays::{bounds_check, stride, FIELD_WORD};
use khora_codegen_llvm::ints::IntKind;
use khora_codegen_llvm::operators::{IntPredicate, Operand};

#[test]
fn an_element_is_as_wide_as_its_type() {
    assert_eq!(stride(Operand::Fixed(IntKind::U8)), 1);
    assert_eq!(stride(Operand::Fixed(IntKind::I16)), 2);
    assert_eq!(stride(Operand::Fixed(IntKind::U32)), 4);
    assert_eq!(stride(Operand::Fixed(IntKind::I64)), 8);
    assert_eq!(stride(Operand::Bool), 1);
    assert_eq!(stride(Operand::Int), FIELD_WORD);
    assert_eq!(stride(Operand::Str), 8);
    assert_eq!(stride(Operand::Other), 8);
}

#[test]
fn one_unsigned_comparison_checks_both_ends() {
    assert_eq!(bounds_check(), IntPredicate::Ult);
    // The index's bits against the length's, unsigned.
    let length: i64 = 5;
    for index in [-1i64, i64::MIN, 0, 4, 5, 6, i64::MAX] {
        let passes = (index as u64) < (length as u64);
        assert_eq!(passes, 0 <= index && index < length, "index {index}");
    }
}

#[test]
fn elements_are_aligned_to_their_width() {
    // Field area at 16 bytes, a header of three words.
    for element in [Operand::Fixed(IntKind::U8), Operand::Fixed(IntKind::U16), Operand::Fixed(IntKind::I32), Operand::Int] {
        let s = stride(element);
        for index in 0..10u64 {
            assert_eq!((16 + 3 * FIELD_WORD + index * s) % s, 0);
        }
    }
}
