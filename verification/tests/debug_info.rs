use khora_codegen_llvm::debug_info::{
    contains_text, debug_format, debug_type, DebugFormat, DebugType, Described, BOOLEAN, SIGNED, UNSIGNED, UTF,
};
use khora_codegen_llvm::ints::IntKind;

#[test]
fn msvc_targets_get_codeview() {
    assert_eq!(debug_format("x86_64-pc-windows-msvc"), DebugFormat::CodeView);
    assert_eq!(debug_format("x86_64-unknown-linux-gnu"), DebugFormat::Dwarf(4));
    assert_eq!(debug_format("x86_64-pc-windows-gnu"), DebugFormat::Dwarf(4));
    assert!(contains_text("abc", ""));
    assert!(!contains_text("ms", "msvc"));
    assert!(contains_text("msvc", "msvc"));
}

#[test]
fn a_debugger_sees_scalars_exactly_and_the_rest_as_pointers() {
    let basic = |name: &str, bits: u64, encoding: u32| DebugType::Basic { name: name.to_string(), bits, encoding };
    assert_eq!(debug_type(Described::Int, "Int"), basic("Int", 64, SIGNED));
    assert_eq!(debug_type(Described::Bool, "Bool"), basic("Bool", 8, BOOLEAN));
    assert_eq!(debug_type(Described::Char, "Char"), basic("Char", 32, UTF));
    assert_eq!(debug_type(Described::Float, "Float"), basic("Float", 64, 0x04));
    assert_eq!(debug_type(Described::Fixed(IntKind::U16), "U16"), basic("U16", 16, UNSIGNED));
    assert_eq!(debug_type(Described::Fixed(IntKind::I8), "I8"), basic("I8", 8, SIGNED));
    assert_eq!(debug_type(Described::Unit, "()"), basic("()", 64, UNSIGNED));
    assert_eq!(debug_type(Described::Ptr, "Ptr"), basic("Ptr", 64, UNSIGNED));
    assert_eq!(
        debug_type(Described::Boxed, "Result<Int, DbError>"),
        DebugType::Pointer { name: "Result<Int, DbError>".to_string() }
    );
}
