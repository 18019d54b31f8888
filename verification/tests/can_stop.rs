use std::collections::{HashMap, HashSet};

use khora_codegen_llvm::can_stop::{
    decide, operation, receiver_owner, stop_free, stop_free_item, Callee, CanStop, Expr,
    Instance, ItemKind, Local, Shape, Target, Ty,
};
use khora_codegen_llvm::graph::in_a_cycle;
use khora_codegen_llvm::ints::IntKind;

fn other() -> Expr {
    Expr { shape: Shape::Other, mention: Target::Unresolved }
}

fn mention(i: usize) -> Expr {
    Expr { shape: Shape::Other, mention: Target::Instance(i) }
}

fn call_instance(name: &str, i: usize) -> Vec<Expr> {
    vec![
        mention(i),
        Expr {
            shape: Shape::Call {
                callee: Callee::Item { name: name.to_string(), kind: ItemKind::Function },
                resolved: Target::Instance(i),
                hands_function: false,
            },
            mention: Target::Unresolved,
        },
    ]
}

fn call_named(name: &str, hands_function: bool) -> Expr {
    Expr {
        shape: Shape::Call {
            callee: Callee::Item { name: name.to_string(), kind: ItemKind::Function },
            resolved: Target::Named(name.to_string()),
            hands_function,
        },
        mention: Target::Unresolved,
    }
}

fn call_operation(owner: &str, name: &str, hands_function: bool) -> Expr {
    Expr {
        shape: Shape::Call {
            callee: Callee::TraitItem { owner: owner.to_string(), name: name.to_string() },
            resolved: Target::Named(format!("{owner}::{name}")),
            hands_function,
        },
        mention: Target::Unresolved,
    }
}

fn call_method(receiver: Ty, name: &str, hands_function: bool) -> Expr {
    Expr {
        shape: Shape::Call {
            callee: Callee::Field { receiver, name: name.to_string() },
            resolved: Target::Unresolved,
            hands_function,
        },
        mention: Target::Unresolved,
    }
}

fn instance(symbol: &str, body: Vec<Expr>) -> Instance {
    Instance { symbol: symbol.to_string(), body }
}

fn index(answer: &CanStop, name: &str) -> usize {
    let found: Vec<usize> = (0..answer.considered)
        .filter(|i| answer.symbols[*i].rsplit(['$', ':']).next() == Some(name))
        .collect();
    assert_eq!(found.len(), 1, "exactly one symbol ending `{name}`");
    found[0]
}

fn stops(answer: &CanStop, name: &str) -> bool {
    answer.stops[index(answer, name)]
}

fn cyclic(answer: &CanStop, name: &str) -> bool {
    answer.cyclic[index(answer, name)]
}

fn local_has(answer: &CanStop, name: &str, reason: Local) -> bool {
    answer.local[index(answer, name)].contains(reason)
}

/// Tarjan on its own: a cycle is found wherever the walk enters it, and a
/// path into or out of one is not part of it.
#[test]
fn cycles_are_exactly_the_strongly_connected_components() {
    let edges: HashMap<String, Vec<String>> = [
        ("a", vec!["b"]),
        ("b", vec!["c"]),
        ("c", vec!["b", "d"]),
        ("d", vec![]),
        ("e", vec!["e"]),
        ("f", vec!["a", "e"]),
    ]
    .into_iter()
    .map(|(k, v)| (k.to_string(), v.into_iter().map(String::from).collect()))
    .collect();
    // Numbered in name order, as the analysis numbers instances.
    let mut names: Vec<&String> = edges.keys().collect();
    names.sort();
    let index_of: HashMap<&String, usize> = names.iter().enumerate().map(|(i, n)| (*n, i)).collect();
    let succ: Vec<Vec<usize>> =
        names.iter().map(|n| edges[*n].iter().filter_map(|c| index_of.get(c).copied()).collect()).collect();
    let cyclic = in_a_cycle(&succ);
    let mut found: Vec<String> =
        names.iter().enumerate().filter(|(i, _)| cyclic[*i]).map(|(_, n)| n.to_string()).collect();
    found.sort();
    assert_eq!(found, ["b", "c", "e"]);
}

/// The report's list has every reason once, so none is left out of the
/// counts it prints.
#[test]
fn every_reason_is_in_the_report() {
    let listed: HashSet<Local> = Local::ALL.into_iter().collect();
    assert_eq!(listed.len(), Local::ALL.len(), "a reason is listed twice");
    let summary = CanStop::default().summary();
    for reason in Local::ALL {
        assert!(summary.contains(&format!("{reason:?} 0")), "{reason:?} missing: {summary}");
    }
}

#[test]
fn an_empty_program_reports_all_zeros() {
    assert_eq!(
        CanStop::default().summary(),
        "cancel-T: 0 functions, 0 can stop (0 in a call cycle, 0 only through a foreign call), 0 keep a \
         plain return\ncancel-T: by own reason: BackEdge 0, Try 0, ClosureCall 0, Blocking 0, \
         HandsAClosure 0, Foreign 0, Intrinsic 0"
    );
}

/// `fn add(a, b) { a + b }` and `fn main() { add(1, 2) }`.
#[test]
fn a_leaf_with_no_loop_and_no_call_keeps_its_plain_return() {
    let mut main = call_instance("add", 0);
    main.push(other());
    let program = vec![
        instance("main$add", vec![other(), other(), other()]),
        instance("main$main", main),
    ];
    let answer = decide(&program, &vec![]);
    assert!(!stops(&answer, "add"));
    assert!(!stops(&answer, "main"), "calling only a leaf is not a reason");
    assert!(!cyclic(&answer, "add"));
}

/// `spin` loops, `middle` calls it, `main` calls `middle`.
#[test]
fn a_loop_stops_and_so_does_every_caller_of_it() {
    let loop_body = vec![other(), Expr { shape: Shape::While, mention: Target::Unresolved }, other()];
    let program = vec![
        instance("main$spin", loop_body),
        instance("main$middle", call_instance("spin", 0)),
        instance("main$main", call_instance("middle", 1)),
    ];
    let answer = decide(&program, &vec![]);
    assert!(local_has(&answer, "spin", Local::BackEdge));
    assert!(stops(&answer, "spin"));
    assert!(stops(&answer, "middle"), "a caller of something that stops, stops");
    assert!(stops(&answer, "main"));
    assert!(!cyclic(&answer, "spin"), "a back-edge is not a call cycle");
    let summary = answer.summary();
    assert!(summary.starts_with("cancel-T: 3 functions, 3 can stop (0 in a call cycle"), "{summary}");
    assert!(summary.contains("BackEdge 1"), "{summary}");
}

/// Recursion has no back-edge, so a cycle is itself the reason.
#[test]
fn a_call_cycle_stops_and_polls_at_entry() {
    let mut main = call_instance("even", 1);
    main.extend(call_instance("fib", 0));
    main.extend(call_instance("leaf", 3));
    let mut fib = call_instance("fib", 0);
    fib.extend(call_instance("fib", 0));
    let program = vec![
        instance("main$fib", fib),
        instance("main$even", call_instance("odd", 2)),
        instance("main$odd", call_instance("even", 1)),
        instance("main$leaf", vec![other()]),
        instance("main$main", main),
    ];
    let answer = decide(&program, &vec![]);
    assert!(cyclic(&answer, "fib"), "self-recursion");
    assert!(cyclic(&answer, "even") && cyclic(&answer, "odd"), "mutual recursion");
    assert!(stops(&answer, "fib") && stops(&answer, "even"));
    assert!(!cyclic(&answer, "main"), "calling into a cycle is not being in one");
    assert!(stops(&answer, "main"));
    assert!(!stops(&answer, "leaf"));
}

/// `apply(f, x)` calls `f(x)`; `main` passes `double` to it.
#[test]
fn a_call_through_a_function_value_stops() {
    let apply = vec![
        Expr {
            shape: Shape::Call { callee: Callee::Computed, resolved: Target::Unresolved, hands_function: false },
            mention: Target::Unresolved,
        },
        other(),
    ];
    let mut main = call_instance("apply", 0);
    main.push(mention(1));
    let program = vec![
        instance("main$apply", apply),
        instance("main$double", vec![other()]),
        instance("main$main", main),
    ];
    let answer = decide(&program, &vec![]);
    assert!(local_has(&answer, "apply", Local::ClosureCall));
    assert!(stops(&answer, "apply"));
    assert!(!stops(&answer, "double"), "the function passed is a leaf");
    assert!(stops(&answer, "main"));
}

/// One answer per specialization: each instance is decided on its own body.
#[test]
fn a_generic_is_decided_per_specialization() {
    let wait = || vec![Expr { shape: Shape::While, mention: Target::Unresolved }, other()];
    let mut main = call_instance("same", 0);
    main.extend(call_instance("wait", 2));
    main.extend(call_instance("same", 1));
    main.extend(call_instance("wait", 3));
    let program = vec![
        instance("main$same<Bool>", vec![other()]),
        instance("main$same<Int>", vec![other()]),
        instance("main$wait<Bool>", wait()),
        instance("main$wait<Int>", wait()),
        instance("main$main", main),
    ];
    let answer = decide(&program, &vec![]);
    assert!(!answer.stops[0] && !answer.stops[1]);
    assert!(answer.stops[2] && answer.stops[3]);
}

/// A blocking `std` call is a foreign call to a runtime export.
#[test]
fn a_runtime_export_counts_and_third_party_c_does_not() {
    let externs = vec!["khora_sleep".to_string(), "getpid".to_string()];
    let mut main = call_instance("nap", 0);
    main.extend(call_instance("who", 1));
    let program = vec![
        instance("main$nap", vec![call_named("khora_sleep", false)]),
        instance("main$who", vec![call_named("getpid", false)]),
        instance("main$main", main),
    ];
    let answer = decide(&program, &externs);
    assert!(local_has(&answer, "nap", Local::Foreign));
    assert!(stops(&answer, "nap"));
    assert!(answer.only_foreign[index(&answer, "nap")]);
    assert!(stops(&answer, "main"));
    assert!(answer.only_foreign[index(&answer, "main")]);
    assert!(!stops(&answer, "who"), "third-party C runs to its end whatever the tag says");
    assert!(!answer.only_foreign[index(&answer, "who")]);
}

/// Bodiless operations: a blocking type's stop, one handed a closure stops,
/// a listed stop-free one does not, and a bodiless method on a Khora type is
/// a field holding a function value.
#[test]
fn a_bodiless_operation_stops_only_if_it_blocks_or_takes_a_function() {
    let joins = vec![
        call_operation("Fiber", "spawn", true),
        call_operation("Fiber", "join", false),
        Expr { shape: Shape::Try, mention: Target::Unresolved },
    ];
    let measures = vec![call_method(Ty::Adt { name: "Shared".to_string() }, "get", false)];
    let changes = vec![call_method(Ty::Adt { name: "Shared".to_string() }, "update", true)];
    let fielded = vec![call_method(Ty::Adt { name: "Cell".to_string() }, "width", false)];
    let writes = vec![call_operation("Shared", "set", false)];
    let program = vec![
        instance("main$joins", joins),
        instance("main$measures", measures),
        instance("main$changes", changes),
        instance("main$fielded", fielded),
        instance("main$write", writes),
    ];
    let answer = decide(&program, &vec![]);
    assert!(local_has(&answer, "joins", Local::Blocking));
    assert!(local_has(&answer, "joins", Local::Try), "the `!` on join");
    assert!(!stops(&answer, "measures"), "a listed stop-free intrinsic is no cancellation point");
    assert!(local_has(&answer, "changes", Local::HandsAClosure));
    assert!(local_has(&answer, "changes", Local::Intrinsic), "`update` is not listed as stop-free");
    assert!(local_has(&answer, "fielded", Local::ClosureCall));
    assert!(!stops(&answer, "write"));
}

/// `SharedFn::call(h, 5)` runs whatever closure `h` wraps, so it is a call
/// through a function value; `route` is called by `main`.
#[test]
fn a_shared_fn_call_is_a_call_through_a_function_value() {
    let program = vec![
        instance("main$route", vec![call_operation("SharedFn", "call", false)]),
        instance("main$main", call_instance("route", 0)),
    ];
    let answer = decide(&program, &vec![]);
    assert!(local_has(&answer, "route", Local::ClosureCall));
    assert!(stops(&answer, "route"));
}

/// The same, written as a method: `h.call(5)`.
#[test]
fn a_shared_fn_method_call_is_a_call_through_a_function_value() {
    let program = vec![
        instance("main$route", vec![call_method(Ty::Adt { name: "SharedFn".to_string() }, "call", false)]),
        instance("main$main", call_instance("route", 0)),
    ];
    let answer = decide(&program, &vec![]);
    assert!(local_has(&answer, "route", Local::ClosureCall));
    assert!(stops(&answer, "route"));
}

/// `nap` calls the runtime's `khora_sleep`, declared without a body: a
/// foreign call, and the only reason `nap` stops.
#[test]
fn a_call_to_a_foreign_function_stops() {
    let externs = vec!["khora_sleep".to_string()];
    let mut main = call_instance("nap", 0);
    main.push(other());
    let program = vec![instance("main$nap", vec![call_named("khora_sleep", false)]), instance("main$main", main)];
    let answer = decide(&program, &externs);
    assert!(local_has(&answer, "nap", Local::Foreign));
    assert!(stops(&answer, "nap"));
    assert!(answer.only_foreign[index(&answer, "nap")]);
    assert!(stops(&answer, "main"));
    assert!(!answer.symbols.iter().any(|s| s.ends_with("khora_sleep")), "a declaration has no body and is not an instance");
}

fn call_method_instance(receiver: Ty, name: &str, i: usize) -> Vec<Expr> {
    vec![
        mention(i),
        Expr {
            shape: Shape::Call {
                callee: Callee::Field { receiver, name: name.to_string() },
                resolved: Target::Instance(i),
                hands_function: false,
            },
            mention: Target::Unresolved,
        },
    ]
}

/// A method is an ordinary instance, and a method call an ordinary edge:
/// `peek` reads a field, `drain` loops, `look` calls `c.peek()` and `empty`
/// calls `c.drain()`.
#[test]
fn a_method_is_decided_like_any_function() {
    let counter = || Ty::Adt { name: "Counter".to_string() };
    let drain = vec![other(), Expr { shape: Shape::While, mention: Target::Unresolved }, other()];
    let mut main = call_instance("look", 2);
    main.extend(call_instance("empty", 3));
    let program = vec![
        instance("main$#Counter::peek", vec![other()]),
        instance("main$#Counter::drain", drain),
        instance("main$look", call_method_instance(counter(), "peek", 0)),
        instance("main$empty", call_method_instance(counter(), "drain", 1)),
        instance("main$main", main),
    ];
    let answer = decide(&program, &vec![]);
    assert!(!stops(&answer, "peek"));
    assert!(stops(&answer, "drain"));
    assert!(!stops(&answer, "look"), "a call to a method that cannot stop");
    assert!(stops(&answer, "empty"), "a call to a method that can");
}

/// `Shared::get` and `set` wait on the cell's lock and are still not
/// cancellation points; `update` is handed a closure.
#[test]
fn shared_get_and_set_are_not_cancellation_points() {
    let shared = || Ty::Adt { name: "Shared".to_string() };
    let program = vec![
        instance("main$read", vec![call_method(shared(), "get", false)]),
        instance("main$write", vec![call_operation("Shared", "set", false)]),
        instance("main$bump", vec![call_method(shared(), "update", true)]),
    ];
    let answer = decide(&program, &vec![]);
    assert!(!stops(&answer, "read"));
    assert!(!stops(&answer, "write"));
    assert!(local_has(&answer, "bump", Local::HandsAClosure));
}

/// The default is to count: an operation nobody listed as stop-free stops.
#[test]
fn an_intrinsic_nobody_listed_is_counted() {
    let program = vec![
        instance("main$listed", vec![call_method(Ty::Adt { name: "Array".to_string() }, "length", false)]),
        instance("main$unlisted", vec![call_method(Ty::Adt { name: "Region".to_string() }, "warm_up", false)]),
        instance("main$made_up", vec![call_operation("Region", "warm_up", false)]),
        instance("main$free", vec![call_named("made_up_intrinsic", false)]),
        instance("main$printing", vec![call_named("print", false)]),
    ];
    let answer = decide(&program, &vec![]);
    assert!(!stops(&answer, "listed"), "a listed, stop-free intrinsic is not counted");
    assert!(local_has(&answer, "unlisted", Local::Intrinsic));
    assert!(local_has(&answer, "made_up", Local::Intrinsic));
    assert!(local_has(&answer, "free", Local::Intrinsic));
    assert!(!stops(&answer, "printing"));
}

#[test]
fn operations_by_owner() {
    assert_eq!(operation("Fiber", "join"), Some(Local::Blocking));
    assert_eq!(operation("Channel", "send"), Some(Local::Blocking));
    assert_eq!(operation("Fibers", "wait"), Some(Local::Blocking));
    assert_eq!(operation("SharedFn", "call"), Some(Local::ClosureCall));
    assert_eq!(operation("SharedFn", "of"), Some(Local::Intrinsic));
    assert_eq!(operation("Counter", "peek"), Some(Local::ClosureCall));
    assert_eq!(operation("Array", "with_data"), Some(Local::Intrinsic));
    assert_eq!(operation("Array", "length"), None);
    assert_eq!(operation("U8", "to_int"), None);
    assert_eq!(operation("I64", "anything"), None);
    assert_eq!(operation("Float", "to_int"), None);
    assert_eq!(operation("Float", "sqrt"), Some(Local::Intrinsic));
    assert!(stop_free("String", "from_bytes"));
    assert!(!stop_free("String", "concat"));
    assert!(stop_free("Ptr", "is_null"));
    assert!(stop_free("Char", "from_code"));
    assert!(stop_free_item("assert_that"));
    assert!(!stop_free_item("sleep"));
}

#[test]
fn receivers_are_named_the_way_dispatch_names_them() {
    assert_eq!(receiver_owner(&Ty::Str).as_deref(), Some("String"));
    assert_eq!(receiver_owner(&Ty::Fixed(IntKind::U16)).as_deref(), Some("U16"));
    assert_eq!(receiver_owner(&Ty::Other), None);
}

#[test]
fn an_answer_with_a_short_list_is_not_well_formed() {
    assert!(CanStop::default().is_well_formed());
    let mut answer = CanStop::default();
    answer.considered = 1;
    assert!(!answer.is_well_formed());
}
