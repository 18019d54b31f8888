use khora_codegen_llvm::catches::{plan_catch, route, CatchArm, Route};

fn names(owner: &str) -> CatchArm {
    CatchArm { owner: Some(owner.to_string()), catch_all: false }
}

fn anything() -> CatchArm {
    CatchArm { owner: None, catch_all: true }
}

#[test]
fn arms_are_grouped_by_the_error_type_they_name() {
    let arms = vec![names("DbError"), names("IoError"), names("DbError"), anything()];
    let plan = plan_catch(&arms);
    assert_eq!(plan.groups, [("DbError".to_string(), vec![0, 2]), ("IoError".to_string(), vec![1])]);
    assert_eq!(plan.everything, Some(3));
    let plain = plan_catch(&vec![names("DbError"), CatchArm { owner: None, catch_all: false }]);
    assert_eq!(plain.everything, None);
    assert_eq!(plain.groups.len(), 1);
}

#[test]
fn a_catch_all_never_swallows_a_cancellation_or_a_failed_test() {
    // Error ids 1 and 2 for the two groups; the runtime's own two beyond them.
    let (cancelled, failed) = (u32::MAX, u32::MAX - 1);
    let ids = vec![1, 2];
    assert_eq!(route(&ids, true, 1, cancelled, failed), Route::Arms(0));
    assert_eq!(route(&ids, true, 2, cancelled, failed), Route::Arms(1));
    assert_eq!(route(&ids, true, 7, cancelled, failed), Route::CatchAll);
    assert_eq!(route(&ids, true, cancelled, cancelled, failed), Route::Propagate);
    assert_eq!(route(&ids, true, failed, cancelled, failed), Route::Propagate);
    assert_eq!(route(&ids, false, 7, cancelled, failed), Route::Propagate, "a partial catch passes the rest on");
}
