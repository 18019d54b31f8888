use khora_codegen_llvm::statics::{variant_key_of, variant_symbol_of, Statics, IMMORTAL};

#[test]
fn one_object_per_literal_and_per_case() {
    let mut statics = Statics::new();
    assert_eq!(statics.static_string("hello"), 0);
    assert_eq!(statics.static_string("world"), 1);
    assert_eq!(statics.static_string("hello"), 0, "a repeated literal is the same object");
    assert_eq!(statics.static_variant("Option", "None"), 0);
    assert_eq!(statics.static_variant("Cache", "None"), 1, "another type's `None` is another object");
    assert_eq!(statics.static_variant("Option", "None"), 0);
}

#[test]
fn a_case_object_is_named_for_its_type_and_case() {
    assert_eq!(variant_key_of("Option", "None"), "Option::None");
    assert_eq!(variant_symbol_of("Option", "None"), "kh$case$Option::None");
    assert_eq!(IMMORTAL, 1 << 40);
}
