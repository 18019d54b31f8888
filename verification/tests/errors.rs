use khora_codegen_llvm::errors::ErrorIds;

#[test]
fn error_ids_count_up_from_one_in_order_of_first_sight() {
    let mut ids = ErrorIds::new();
    assert_eq!(ids.error_id("DbError"), 1);
    assert_eq!(ids.error_id("ParseError"), 2);
    assert_eq!(ids.error_id("DbError"), 1, "a name keeps its id");
    assert_eq!(ids.error_id("IoError"), 3);
    assert_eq!(ids.len(), 3);
    let known: Vec<(String, u32)> = ids.known();
    assert_eq!(
        known,
        [("DbError".to_string(), 1), ("ParseError".to_string(), 2), ("IoError".to_string(), 3)]
    );
}

#[test]
fn no_error_travels_under_zero() {
    let mut ids = ErrorIds::new();
    for name in ["A", "B", "A", "C", "B"] {
        assert_ne!(ids.error_id(name), 0);
    }
    assert!(ErrorIds::new().known().is_empty());
}
