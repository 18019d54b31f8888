use khora_codegen_llvm::can_stop::{Expr, Instance, Shape, Target};
use khora_codegen_llvm::driver::{counts_non_atomically, Declaration, Entry};

fn spawning() -> Instance {
    Instance {
        symbol: "main$main".to_string(),
        body: vec![Expr {
            shape: Shape::TraitPath { owner: "Fiber".to_string(), name: "spawn".to_string() },
            mention: Target::Named("Fiber::spawn".to_string()),
        }],
    }
}

fn quiet() -> Instance {
    Instance {
        symbol: "main$main".to_string(),
        body: vec![Expr { shape: Shape::Other, mention: Target::Unresolved }],
    }
}

#[test]
fn a_main_that_neither_spawns_nor_publishes_may_count_without_atomics() {
    assert!(counts_non_atomically(Entry::Main, &vec![Declaration { has_body: true, is_extern: false }], &vec![quiet()]));
}

#[test]
fn a_main_that_spawns_may_not() {
    assert!(!counts_non_atomically(Entry::Main, &vec![], &vec![quiet(), spawning()]));
}

#[test]
fn a_main_that_publishes_a_symbol_may_not() {
    let published = vec![Declaration { has_body: true, is_extern: true }];
    assert!(!counts_non_atomically(Entry::Main, &published, &vec![quiet()]));
}

#[test]
fn declaring_a_foreign_symbol_is_not_publishing_one() {
    let imported = vec![Declaration { has_body: false, is_extern: true }];
    assert!(counts_non_atomically(Entry::Main, &imported, &vec![quiet()]));
}

/// A published symbol anywhere in the program counts: the declarations are
/// every file's, not only those of the file that holds `main`.
#[test]
fn a_symbol_published_by_another_module_counts() {
    let declarations = vec![
        Declaration { has_body: true, is_extern: true },
        Declaration { has_body: true, is_extern: false },
    ];
    assert!(!counts_non_atomically(Entry::Main, &declarations, &vec![quiet()]));
}

#[test]
fn a_library_never_counts_without_atomics() {
    assert!(!counts_non_atomically(Entry::Library, &vec![], &vec![quiet()]));
}

#[test]
fn tests_and_benches_never_do_either() {
    assert!(!counts_non_atomically(Entry::Tests, &vec![], &vec![quiet()]));
    assert!(!counts_non_atomically(Entry::Benches, &vec![], &vec![quiet()]));
}

#[test]
fn another_operation_named_spawn_is_not_a_fiber() {
    let other = Instance {
        symbol: "main$main".to_string(),
        body: vec![Expr {
            shape: Shape::TraitPath { owner: "Pool".to_string(), name: "spawn".to_string() },
            mention: Target::Unresolved,
        }],
    };
    assert!(counts_non_atomically(Entry::Main, &vec![], &vec![other]));
}
