use khora_codegen_llvm::functions::{Callee, CalleeSignature, FunctionTable, SignatureTable};

fn extern_fn() -> CalleeSignature {
    CalleeSignature { is_extern: true, obstacle: None, representable: true }
}

#[test]
fn a_definition_is_its_own_callee() {
    let mut table = FunctionTable::new();
    assert_eq!(table.declare_definition("main", Some(true)), Ok(()));
    assert!(table.is_defined("main"));
    assert!(table.definition("main"));
    assert_eq!(table.callee("main", None, None, None), Ok(Callee::Known));
    assert_eq!(table.declare_definition("ghost", None), Ok(()));
    assert!(!table.is_declared("ghost"));
    assert_eq!(
        table.declare_definition("odd", Some(false)),
        Err("`odd` cannot be compiled: every parameter and the return type need a type the backend knows \
             (`Int`, `Bool`, `String`, `()` or an ADT)"
            .to_string())
    );
    assert!(!table.is_defined("odd"));
}

#[test]
fn a_c_symbol_is_declared_once_and_then_found() {
    let mut table = FunctionTable::new();
    assert_eq!(table.callee("puts", None, Some(&extern_fn()), None), Ok(Callee::Declared));
    assert!(table.is_declared("puts"));
    assert!(!table.is_defined("puts"));
    assert_eq!(table.callee("puts", None, Some(&extern_fn()), None), Ok(Callee::Known));
    assert_eq!(table.callee("khora_print_int", None, Some(&extern_fn()), Some(true)), Ok(Callee::Runtime));
}

#[test]
fn a_callee_that_cannot_be_called_is_reported() {
    let mut table = FunctionTable::new();
    assert_eq!(
        table.callee("nowhere", None, None, None),
        Err("`nowhere` has no signature to call through".to_string())
    );
    let unwritten = CalleeSignature { is_extern: false, obstacle: None, representable: true };
    assert_eq!(
        table.callee("later", None, Some(&unwritten), None),
        Err("`later` has no body, so there is nothing to call. Give it one, or write `extern fn` if it is a C \
             symbol to be found at link time"
            .to_string())
    );
    let record = CalleeSignature {
        is_extern: true,
        obstacle: Some("its parameter `p` is a `Point`".to_string()),
        representable: true,
    };
    assert_eq!(
        table.callee("draw", None, Some(&record), None),
        Err("`draw` is `extern`, so it crosses the C ABI, and its parameter `p` is a `Point`. Only scalars and \
             pointers cross \u{2014} `docs/design/ffi.md`"
            .to_string())
    );
    let strange = CalleeSignature { is_extern: true, obstacle: None, representable: false };
    assert_eq!(
        table.callee("strange", None, Some(&strange), None),
        Err("`strange` has a parameter or return type the backend cannot represent yet; phase 2 handles `Int`, \
             `Bool`, `String`, `()` and ADTs"
            .to_string())
    );
    assert_eq!(
        table.callee("khora_dup", None, Some(&extern_fn()), Some(false)),
        Err("`khora_dup` is already provided by the runtime with a different signature; declaring it here would \
             silently call something else"
            .to_string())
    );
    for name in ["nowhere", "later", "draw", "strange", "khora_dup"] {
        assert!(!table.is_declared(name), "{name} was not declared");
    }
}

#[test]
fn a_specialization_is_compiled_against_its_own_signature() {
    let mut table: SignatureTable<&str> = SignatureTable::new();
    table.declare("map", "fn(List<A>, A -> B) -> List<B>");
    table.declare("map", "a second view of the same import");
    table.register_instance("kh$map$Int$Int", "fn(List<Int>, Int -> Int) -> List<Int>");
    assert_eq!(table.signature_of("map"), Some(&"fn(List<A>, A -> B) -> List<B>"));
    assert_eq!(table.signature_of("kh$map$Int$Int"), Some(&"fn(List<Int>, Int -> Int) -> List<Int>"));
    table.register_instance("kh$map$Int$Int", "replaced");
    assert_eq!(table.signature_of("kh$map$Int$Int"), Some(&"replaced"));
    assert_eq!(table.signature_of("nothing"), None);
}

#[test]
fn a_c_symbol_keeps_its_own_signature() {
    let mut table: SignatureTable<&str> = SignatureTable::new();
    table.declare("close", "fn(File) -> ()");
    table.register_foreign("close", "extern fn(I32) -> I32");
    assert_eq!(table.foreign_signature_of("close"), Some(&"extern fn(I32) -> I32"));
    assert_eq!(table.signature_of("close"), Some(&"fn(File) -> ()"));
    assert_eq!(table.foreign_signature_of("open"), None);
    table.declare("read", "fn(File) -> String");
    assert_eq!(table.foreign_signature_of("read"), Some(&"fn(File) -> String"));
}
