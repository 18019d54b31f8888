use khora_codegen_llvm::intrinsics::{
    array_operation, printer, ptr_operation, slice_range, string_operation, ArrayOperation, Printer, PtrOperation,
    StringOperation,
};
use khora_codegen_llvm::operators::Operand;

#[test]
fn print_dispatches_on_the_argument_type() {
    assert_eq!(printer(Operand::Int, "Int"), Ok(Printer::Int));
    assert_eq!(printer(Operand::Float, "Float"), Ok(Printer::Float));
    assert_eq!(printer(Operand::Bool, "Bool"), Ok(Printer::Bool));
    assert_eq!(printer(Operand::Str, "String"), Ok(Printer::Str));
    assert_eq!(
        printer(Operand::Other, "List<Int>"),
        Err("`print` shows `Int`, `Bool` and `String`; showing a `List<Int>` needs a typeclass, which arrives \
             in phase 3"
            .to_string())
    );
}

#[test]
fn a_pointer_can_be_null_and_be_asked() {
    assert_eq!(ptr_operation("null", 0), Ok(PtrOperation::Null));
    assert_eq!(ptr_operation("is_null", 1), Ok(PtrOperation::IsNull));
    assert_eq!(ptr_operation("null", 1), Err("`Ptr::null` takes no arguments but `self`".to_string()));
    assert_eq!(ptr_operation("offset", 2), Err("`Ptr::offset` takes no arguments but `self`".to_string()));
}

#[test]
fn the_cut_test_finds_the_middle_of_a_character() {
    // The test the generated code makes, against where characters start.
    let text = "h\u{e9}llo \u{1f600}!";
    let bytes = text.as_bytes();
    for at in 0..=bytes.len() {
        let cuts = at < bytes.len() && bytes[at] & 0xC0 == 0x80;
        assert_eq!(cuts, !text.is_char_boundary(at), "at {at}");
    }
}

#[test]
fn a_slice_clamps_its_ends_and_never_cuts_a_character() {
    assert_eq!(slice_range(0, 1_000_000, 5), (0, 5), "a huge end means the rest");
    assert_eq!(slice_range(-3, 2, 5), (0, 2));
    assert_eq!(slice_range(4, 1, 5), (4, 4), "an end before the start is an empty slice");
    assert_eq!(slice_range(9, 12, 5), (5, 5));
    let text = "h\u{e9}llo";
    let bytes = text.as_bytes();
    for from in -1..8i64 {
        for to in -1..8i64 {
            let (start, end) = slice_range(from, to, bytes.len() as i64);
            let cuts = |at: i64| (at as usize) < bytes.len() && bytes[at as usize] & 0xC0 == 0x80;
            let stopped = end > start && (cuts(start) || cuts(end));
            // An empty slice is "", whatever it was cut out of.
            let valid = end == start || text.get(start as usize..end as usize).is_some();
            assert_eq!(!stopped, valid, "slice({from}, {to})");
        }
    }
}

#[test]
fn array_and_string_intrinsics_by_name() {
    assert_eq!(array_operation("with_data", 2), Ok(ArrayOperation::WithData));
    assert_eq!(array_operation("empty", 0), Ok(ArrayOperation::Empty));
    assert_eq!(array_operation("new", 2), Ok(ArrayOperation::New));
    assert_eq!(array_operation("get", 2), Ok(ArrayOperation::Get));
    assert_eq!(array_operation("set", 3), Ok(ArrayOperation::Store));
    assert_eq!(
        array_operation("get", 3),
        Err("`Array::get` is not an array operation the backend knows".to_string())
    );
    assert_eq!(string_operation("byte_length", 1), Ok(StringOperation::ByteLength));
    assert_eq!(string_operation("find", 3), Ok(StringOperation::Find));
    assert_eq!(string_operation("slice", 3), Ok(StringOperation::Slice));
    assert_eq!(string_operation("bytes", 0), Err("`String::bytes` takes a string".to_string()));
    assert_eq!(
        string_operation("upper", 1),
        Err("`String::upper` is not a string operation the backend knows".to_string())
    );
}

#[test]
fn find_answers_the_first_occurrence_from_the_cursor() {
    // The runtime searches from the clamped start; the answer is shifted back.
    let text = "a: 1\r\nb: 2\r\n";
    for from in [-4i64, 0, 3, 6, 10, 99] {
        let (start, _) = slice_range(from, from, text.len() as i64);
        let relative = text[start as usize..].find("\r\n").map_or(-1, |i| i as i64);
        let answer = if relative < 0 { relative } else { relative + start };
        let expected = text.match_indices("\r\n").map(|(i, _)| i as i64).find(|i| *i >= start).unwrap_or(-1);
        assert_eq!(answer, expected, "from {from}");
    }
}
