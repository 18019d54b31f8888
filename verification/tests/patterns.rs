use khora_codegen_llvm::patterns::{is_irrefutable, switch_plan, Arm, Pattern};

fn arm(pattern: Pattern) -> Arm {
    Arm { pattern, guarded: false }
}

#[test]
fn tuples_of_names_are_irrefutable() {
    assert!(is_irrefutable(&Pattern::Tuple(vec![Pattern::Bind, Pattern::Wildcard, Pattern::Missing])));
    assert!(is_irrefutable(&Pattern::Tuple(vec![Pattern::Tuple(vec![]), Pattern::Bind])));
    assert!(!is_irrefutable(&Pattern::Tuple(vec![Pattern::Bind, Pattern::Path { tag: Some(0) }])));
    assert!(!is_irrefutable(&Pattern::Other));
}

#[test]
fn distinct_variants_then_a_catch_all_switch() {
    let arms = vec![
        arm(Pattern::Path { tag: Some(1) }),
        arm(Pattern::TupleStruct { tag: Some(0), fields: vec![Pattern::Bind, Pattern::Wildcard] }),
        arm(Pattern::Wildcard),
    ];
    assert_eq!(switch_plan(&arms, true), Some(vec![Some(1), Some(0), None]));
}

#[test]
fn what_a_switch_cannot_hold() {
    assert_eq!(switch_plan(&vec![arm(Pattern::Path { tag: Some(1) })], false), None, "not a data type");
    let guarded = vec![Arm { pattern: Pattern::Path { tag: Some(1) }, guarded: true }];
    assert_eq!(switch_plan(&guarded, true), None, "a guard");
    let repeated = vec![arm(Pattern::Path { tag: Some(1) }), arm(Pattern::Path { tag: Some(1) })];
    assert_eq!(switch_plan(&repeated, true), None, "a tag twice");
    let after = vec![arm(Pattern::Bind), arm(Pattern::Path { tag: Some(1) })];
    assert_eq!(switch_plan(&after, true), None, "an arm after a catch-all");
    let refutable = vec![arm(Pattern::TupleStruct { tag: Some(2), fields: vec![Pattern::Other] })];
    assert_eq!(switch_plan(&refutable, true), None, "a field that needs a test");
    assert_eq!(switch_plan(&vec![arm(Pattern::Path { tag: None })], true), None, "no tag");
    assert_eq!(switch_plan(&vec![arm(Pattern::Missing)], true), None);
    assert_eq!(switch_plan(&vec![], true), Some(vec![]));
}
