use khora_codegen_llvm::calls::{
    function_target, method_target, unresolved_method_message, FunctionTarget, MethodTarget,
};

#[test]
fn a_method_somebody_wrote_wins_over_an_intrinsic() {
    // `Int::to_string` is written in Khora: it is not an integer operation.
    assert_eq!(method_target("Int", "to_string", Some(true)), MethodTarget::Named);
    assert_eq!(method_target("Int", "wrapping_add", None), MethodTarget::Int(64, true));
    assert_eq!(method_target("U8", "of", Some(false)), MethodTarget::Int(8, false));
    assert_eq!(method_target("Array", "get", Some(true)), MethodTarget::Named);
}

#[test]
fn each_runtime_type_has_its_intrinsics() {
    assert_eq!(method_target("Region", "open", None), MethodTarget::Region);
    assert_eq!(method_target("Fiber", "spawn", None), MethodTarget::Fiber);
    assert_eq!(method_target("Fibers", "open", None), MethodTarget::Nursery);
    assert_eq!(method_target("SharedFn", "call", None), MethodTarget::SharedFn);
    assert_eq!(method_target("Shared", "get", None), MethodTarget::Shared);
    assert_eq!(method_target("Channel", "send", None), MethodTarget::Channel);
    assert_eq!(method_target("Array", "new", None), MethodTarget::Array);
    assert_eq!(method_target("String", "with_data", None), MethodTarget::WithData);
    assert_eq!(method_target("String", "with_c_string", None), MethodTarget::WithCString);
    assert_eq!(method_target("String", "from_bytes", None), MethodTarget::FromBytes);
    assert_eq!(method_target("String", "slice", None), MethodTarget::StringOperation);
    assert_eq!(method_target("Float", "to_int", None), MethodTarget::FloatToInt);
    assert_eq!(method_target("Ptr", "is_null", None), MethodTarget::PtrOperation);
}

#[test]
fn anything_else_goes_where_monomorphization_sent_it() {
    assert_eq!(method_target("List", "map", Some(false)), MethodTarget::Named);
    assert_eq!(method_target("String", "upper", Some(false)), MethodTarget::Named);
    assert_eq!(method_target("List", "map", None), MethodTarget::Unresolved);
    assert_eq!(unresolved_method_message("map"), "`map` was not resolved to an impl; that is a compiler bug");
}

#[test]
fn print_assert_and_attempt_are_intrinsics_unless_the_program_has_its_own() {
    assert_eq!(function_target("print", false, 1), FunctionTarget::Print);
    assert_eq!(function_target("assert", false, 1), FunctionTarget::Assert);
    assert_eq!(function_target("attempt", false, 1), FunctionTarget::Attempt);
    assert_eq!(function_target("attempt", true, 1), FunctionTarget::Named);
    assert_eq!(function_target("print", false, 2), FunctionTarget::Named);
    assert_eq!(function_target("main", true, 0), FunctionTarget::Named);
}
