//! Decisions the build makes about the whole program before it emits
//! anything.

use vstd::prelude::*;

use crate::can_stop::{Expr, Instance, Shape};
use crate::text::same_text;

verus! {

broadcast use vstd::string::group_string_axioms;

/// Which entry point an executable gets.
#[derive(Clone, Copy, PartialEq, Eq, Structural, Debug)]
pub enum Entry {
    /// Call `main`, and its result is the exit status.
    Main,
    /// Run every test, and whether they all passed is the exit status.
    Tests,
    /// Time every `bench` block and report the distribution.
    Benches,
    /// No entry point at all: a shared library whose `pub extern fn`s are
    /// the only way in.
    Library,
}

/// A function as a file declares it.
#[derive(Clone, Copy, Debug)]
pub struct Declaration {
    /// It has a body.
    pub has_body: bool,
    /// It is declared `extern`.
    pub is_extern: bool,
}

/// Whether an expression mentions `Fiber::spawn`.
pub open spec fn spawns_a_fiber(e: Expr) -> bool {
    e.shape matches Shape::TraitPath { owner, name } && owner@ == "Fiber"@ && name@ == "spawn"@
}

/// Whether any instance's body so much as mentions `Fiber::spawn`.
pub open spec fn can_spawn(instances: Seq<Instance>) -> bool {
    exists|i: int, j: int|
        0 <= i < instances.len() && 0 <= j < instances[i].body.len() && spawns_a_fiber(
            #[trigger] instances[i].body@[j],
        )
}

/// Whether a function with a body is declared `extern`: a symbol anybody
/// could call. Without a body it is an import, not an export.
pub open spec fn publishes(declarations: Seq<Declaration>) -> bool {
    exists|i: int| 0 <= i < declarations.len() && (#[trigger] declarations[i]).has_body && declarations[i].is_extern
}

/// Whether generated code may count references without atomics: only a
/// `main` build that publishes no symbol and starts no fiber.
pub open spec fn counts_plainly(entry: Entry, declarations: Seq<Declaration>, instances: Seq<Instance>) -> bool {
    entry == Entry::Main && !publishes(declarations) && !can_spawn(instances)
}

/// Whether anything in the program can start a thread: `Fiber::spawn` is
/// the only thing that does, so the question is whether any body mentions it.
pub fn program_can_spawn(instances: &Vec<Instance>) -> (b: bool)
    ensures
        b == can_spawn(instances@),
{
    let mut i: usize = 0;
    while i < instances.len()
        invariant
            i <= instances.len(),
            forall|x: int, y: int|
                0 <= x < i && 0 <= y < instances[x].body.len() ==> !spawns_a_fiber(#[trigger] instances[x].body@[y]),
        decreases instances.len() - i,
    {
        let body = &instances[i].body;
        let mut j: usize = 0;
        while j < body.len()
            invariant
                i < instances.len(),
                body@ == instances@[i as int].body@,
                j <= body.len(),
                forall|y: int| 0 <= y < j ==> !spawns_a_fiber(#[trigger] body@[y]),
            decreases body.len() - j,
        {
            if let Shape::TraitPath { owner, name } = &body[j].shape {
                if same_text(owner.as_str(), "Fiber") && same_text(name.as_str(), "spawn") {
                    assert(spawns_a_fiber(instances@[i as int].body@[j as int]));
                    return true;
                }
            }
            j = j + 1;
        }
        i = i + 1;
    }
    false
}

/// Whether this program publishes a C symbol anybody could call: a function
/// declared `extern` that has a body.
pub fn program_publishes_a_symbol(declarations: &Vec<Declaration>) -> (b: bool)
    ensures
        b == publishes(declarations@),
{
    let mut i: usize = 0;
    while i < declarations.len()
        invariant
            i <= declarations.len(),
            forall|x: int| 0 <= x < i ==> !((#[trigger] declarations@[x]).has_body && declarations@[x].is_extern),
        decreases declarations.len() - i,
    {
        if declarations[i].has_body && declarations[i].is_extern {
            assert((declarations@[i as int]).has_body);
            return true;
        }
        i = i + 1;
    }
    false
}

/// Whether generated code may count references without atomics.
///
/// Answering yes wrongly is a data race in every reference count in the
/// program, so each way a second thread gets in says no: tests and benches
/// get a fiber each and a library's host picks its threads, a published
/// symbol can be called from any thread, and a fiber has workers.
pub fn counts_non_atomically(entry: Entry, declarations: &Vec<Declaration>, instances: &Vec<Instance>) -> (b: bool)
    ensures
        b == counts_plainly(entry, declarations@, instances@),
{
    if entry != Entry::Main {
        return false;
    }
    if program_publishes_a_symbol(declarations) {
        return false;
    }
    !program_can_spawn(instances)
}

/// Plain counts only ever go to a `main` build that publishes nothing and
/// starts no fiber.
pub proof fn law_plain_counts_only_for_a_closed_main(
    entry: Entry,
    declarations: Seq<Declaration>,
    instances: Seq<Instance>,
)
    requires
        counts_plainly(entry, declarations, instances),
    ensures
        entry == Entry::Main,
        forall|i: int| 0 <= i < declarations.len() ==> !((#[trigger] declarations[i]).has_body && declarations[i].is_extern),
        forall|i: int, j: int|
            0 <= i < instances.len() && 0 <= j < instances[i].body.len() ==> !spawns_a_fiber(#[trigger] instances[i].body@[j]),
{
}

} // verus!
