//! Which functions can reach a cancellation point.
//!
//! A cancellation tag on a function's return gives a cancellation a way out
//! of it, at the price of a branch after every call. A function that cannot
//! reach a cancellation point has nothing to carry, so its calls keep their
//! plain return. This works out which functions those are, for a whole
//! program at once.
//!
//! # The rule
//!
//! A function **can stop** when its expressions hold a back-edge (`loop`,
//! `while`), a `!`, a call through a function value (`SharedFn::call`
//! included), a `Fiber`, `Fibers` or `Channel` operation, a call to something
//! that is not a Khora body and is handed a function value, a call to a
//! runtime export (`khora_*`), a call to a backend intrinsic not known to be
//! stop-free, a mention of a Khora function that can stop — or when it is
//! part of a call cycle, which polls when it is entered.
//!
//! Every default leans toward tagging: a callee of a shape not recognised is
//! a call through a function value, and a bodiless operation not listed as
//! stop-free is an intrinsic that may stop. Tagging a function that did not
//! need it costs a branch; the other direction is a miscompile.
//!
//! # The program as this module reads it
//!
//! The instances of a program are numbered from zero. Each one is a symbol
//! and the expressions of its body, each expression reduced to what the rule
//! reads of it: its shape, and the function its position resolves to.

use vstd::prelude::*;

use crate::graph::{
    close_over_callers, count_true, edge, graph_of, in_a_cycle, is_path, lemma_count_bounds,
    lemma_prepend, lemma_single, lemma_tail, on_cycle, reaches, reaches_marked, well_formed,
};
use crate::ints::{int_kind_name, int_kind_named, IntKind};
use crate::text::{decimal, owned, push_decimal, same_text, starts_with_text};

verus! {

broadcast use vstd::string::group_string_axioms;

// ---------------------------------------------------------------------------
// Reasons
// ---------------------------------------------------------------------------

/// Why a function can stop on its own account, before its callees count.
#[derive(Clone, Copy, PartialEq, Eq, Debug, Hash)]
pub enum Local {
    /// A `loop` or `while`.
    BackEdge,
    /// A `!`.
    Try,
    /// A call through a function value.
    ClosureCall,
    /// A `Fiber`, `Fibers` or `Channel` operation.
    Blocking,
    /// A call to something that is not a Khora body, handed a function value.
    HandsAClosure,
    /// A call to a runtime export (`khora_*`).
    Foreign,
    /// A call to a backend intrinsic that is not listed as stop-free.
    Intrinsic,
}

/// The reasons in the order the report lists them.
pub open spec fn reason_at(i: int) -> Local {
    if i == 0 {
        Local::BackEdge
    } else if i == 1 {
        Local::Try
    } else if i == 2 {
        Local::ClosureCall
    } else if i == 3 {
        Local::Blocking
    } else if i == 4 {
        Local::HandsAClosure
    } else if i == 5 {
        Local::Foreign
    } else {
        Local::Intrinsic
    }
}

/// The name the report prints for a reason.
pub open spec fn reason_name(r: Local) -> Seq<char> {
    match r {
        Local::BackEdge => "BackEdge"@,
        Local::Try => "Try"@,
        Local::ClosureCall => "ClosureCall"@,
        Local::Blocking => "Blocking"@,
        Local::HandsAClosure => "HandsAClosure"@,
        Local::Foreign => "Foreign"@,
        Local::Intrinsic => "Intrinsic"@,
    }
}

impl Local {
    /// How many reasons there are.
    pub const COUNT: usize = 7;

    /// Every reason, in the order the report lists them.
    pub const ALL: [Local; 7] = [
        Local::BackEdge,
        Local::Try,
        Local::ClosureCall,
        Local::Blocking,
        Local::HandsAClosure,
        Local::Foreign,
        Local::Intrinsic,
    ];

    /// The name the report prints for this reason.
    pub fn name(&self) -> (n: &'static str)
        ensures
            n@ == reason_name(*self),
    {
        match self {
            Local::BackEdge => "BackEdge",
            Local::Try => "Try",
            Local::ClosureCall => "ClosureCall",
            Local::Blocking => "Blocking",
            Local::HandsAClosure => "HandsAClosure",
            Local::Foreign => "Foreign",
            Local::Intrinsic => "Intrinsic",
        }
    }
}

/// Every reason is listed, each once.
pub proof fn law_every_reason_is_listed_once(r: Local)
    ensures
        exists|i: int| 0 <= i < 7 && reason_at(i) == r,
        forall|i: int, j: int| 0 <= i < j < 7 ==> reason_at(i) != reason_at(j),
{
    match r {
        Local::BackEdge => assert(reason_at(0) == r),
        Local::Try => assert(reason_at(1) == r),
        Local::ClosureCall => assert(reason_at(2) == r),
        Local::Blocking => assert(reason_at(3) == r),
        Local::HandsAClosure => assert(reason_at(4) == r),
        Local::Foreign => assert(reason_at(5) == r),
        Local::Intrinsic => assert(reason_at(6) == r),
    }
}

/// A set of reasons.
#[derive(Clone, Copy, Debug)]
pub struct Reasons {
    back_edge: bool,
    try_: bool,
    closure_call: bool,
    blocking: bool,
    hands_a_closure: bool,
    foreign: bool,
    intrinsic: bool,
}

impl Reasons {
    /// Whether `r` is in the set.
    pub closed spec fn has(self, r: Local) -> bool {
        match r {
            Local::BackEdge => self.back_edge,
            Local::Try => self.try_,
            Local::ClosureCall => self.closure_call,
            Local::Blocking => self.blocking,
            Local::HandsAClosure => self.hands_a_closure,
            Local::Foreign => self.foreign,
            Local::Intrinsic => self.intrinsic,
        }
    }

    /// Whether the set holds any reason.
    pub open spec fn any(self) -> bool {
        exists|r: Local| #[trigger] self.has(r)
    }

    /// Whether the set holds a reason other than [`Local::Foreign`].
    pub open spec fn any_but_foreign(self) -> bool {
        exists|r: Local| #[trigger] self.has(r) && r != Local::Foreign
    }

    /// The empty set.
    pub fn none() -> (s: Reasons)
        ensures
            forall|r: Local| !(#[trigger] s.has(r)),
    {
        Reasons {
            back_edge: false,
            try_: false,
            closure_call: false,
            blocking: false,
            hands_a_closure: false,
            foreign: false,
            intrinsic: false,
        }
    }

    /// Adds `r`.
    pub fn insert(&mut self, r: Local)
        ensures
            forall|x: Local| #[trigger] final(self).has(x) == (old(self).has(x) || x == r),
    {
        match r {
            Local::BackEdge => self.back_edge = true,
            Local::Try => self.try_ = true,
            Local::ClosureCall => self.closure_call = true,
            Local::Blocking => self.blocking = true,
            Local::HandsAClosure => self.hands_a_closure = true,
            Local::Foreign => self.foreign = true,
            Local::Intrinsic => self.intrinsic = true,
        }
    }

    /// Whether `r` is in the set.
    pub fn contains(&self, r: Local) -> (b: bool)
        ensures
            b == self.has(r),
    {
        match r {
            Local::BackEdge => self.back_edge,
            Local::Try => self.try_,
            Local::ClosureCall => self.closure_call,
            Local::Blocking => self.blocking,
            Local::HandsAClosure => self.hands_a_closure,
            Local::Foreign => self.foreign,
            Local::Intrinsic => self.intrinsic,
        }
    }

    /// Whether the set is empty.
    pub fn is_empty(&self) -> (b: bool)
        ensures
            b == !self.any(),
    {
        let b = !(self.back_edge || self.try_ || self.closure_call || self.blocking
            || self.hands_a_closure || self.foreign || self.intrinsic);
        proof {
            if !b {
                if self.back_edge {
                    assert(self.has(Local::BackEdge));
                } else if self.try_ {
                    assert(self.has(Local::Try));
                } else if self.closure_call {
                    assert(self.has(Local::ClosureCall));
                } else if self.blocking {
                    assert(self.has(Local::Blocking));
                } else if self.hands_a_closure {
                    assert(self.has(Local::HandsAClosure));
                } else if self.foreign {
                    assert(self.has(Local::Foreign));
                } else {
                    assert(self.has(Local::Intrinsic));
                }
            }
        }
        b
    }

    /// Whether the set holds a reason other than [`Local::Foreign`].
    pub fn has_other_than_foreign(&self) -> (b: bool)
        ensures
            b == self.any_but_foreign(),
    {
        let b = self.back_edge || self.try_ || self.closure_call || self.blocking
            || self.hands_a_closure || self.intrinsic;
        proof {
            if b {
                if self.back_edge {
                    assert(self.has(Local::BackEdge));
                } else if self.try_ {
                    assert(self.has(Local::Try));
                } else if self.closure_call {
                    assert(self.has(Local::ClosureCall));
                } else if self.blocking {
                    assert(self.has(Local::Blocking));
                } else if self.hands_a_closure {
                    assert(self.has(Local::HandsAClosure));
                } else {
                    assert(self.has(Local::Intrinsic));
                }
            }
        }
        b
    }
}

// ---------------------------------------------------------------------------
// Owners and operations
// ---------------------------------------------------------------------------

/// Whether `owner` is one of the runtime's blocking types.
pub open spec fn blocking_owner(owner: Seq<char>) -> bool {
    owner == "Fiber"@ || owner == "Fibers"@ || owner == "Channel"@
}

/// Whether `owner` names an integer type.
pub open spec fn int_owner_named(owner: Seq<char>) -> bool {
    owner == "Int"@ || owner == "I64"@ || int_kind_named(owner) is Some
}

/// Whether `owner` is a type the backend implements operations for, as
/// opposed to a type declared in Khora.
pub open spec fn intrinsic_owner(owner: Seq<char>) -> bool {
    ||| blocking_owner(owner)
    ||| owner == "Region"@
    ||| owner == "Shared"@
    ||| owner == "SharedFn"@
    ||| owner == "Array"@
    ||| int_owner_named(owner)
    ||| owner == "Char"@
    ||| owner == "String"@
    ||| owner == "Float"@
    ||| owner == "Ptr"@
}

/// The backend operations known to have no cancellation point. The list is
/// what is allowed: anything not on it is counted.
pub open spec fn stop_free_operation(owner: Seq<char>, name: Seq<char>) -> bool {
    if int_owner_named(owner) || (owner == "Array"@ && name != "with_data"@) {
        true
    } else if owner == "Region"@ {
        name == "open"@ || name == "root"@
    } else if owner == "Shared"@ {
        name == "of"@ || name == "get"@ || name == "set"@
    } else if owner == "Char"@ {
        name == "code"@ || name == "of"@ || name == "from_code"@
    } else if owner == "String"@ {
        ||| name == "bytes"@
        ||| name == "byte"@
        ||| name == "byte_length"@
        ||| name == "slice"@
        ||| name == "find"@
        ||| name == "from_bytes"@
    } else if owner == "Float"@ {
        name == "to_int"@
    } else if owner == "Ptr"@ {
        name == "null"@ || name == "is_null"@
    } else {
        false
    }
}

/// The bodiless free functions known to have no cancellation point.
pub open spec fn stop_free_function(name: Seq<char>) -> bool {
    name == "print"@ || name == "assert"@ || name == "assert_that"@
}

/// Why a call to the bodiless type operation `owner::name` can stop.
pub open spec fn operation_reason(owner: Seq<char>, name: Seq<char>) -> Option<Local> {
    if blocking_owner(owner) {
        Some(Local::Blocking)
    } else if owner == "SharedFn"@ && name == "call"@ {
        Some(Local::ClosureCall)
    } else if !intrinsic_owner(owner) {
        Some(Local::ClosureCall)
    } else if stop_free_operation(owner, name) {
        None
    } else {
        Some(Local::Intrinsic)
    }
}

/// Whether `name` is one of the runtime's blocking types' operations.
pub fn is_blocking_owner(name: &str) -> (b: bool)
    ensures
        b == blocking_owner(name@),
{
    same_text(name, "Fiber") || same_text(name, "Fibers") || same_text(name, "Channel")
}

/// Whether `owner` names an integer type: `Int`, `I64`, or a fixed width.
pub fn is_int_owner(owner: &str) -> (b: bool)
    ensures
        b == int_owner_named(owner@),
{
    same_text(owner, "Int") || same_text(owner, "I64") || IntKind::parse(owner).is_some()
}

/// Whether `owner` is a type the backend implements operations for, as
/// opposed to a type declared in Khora, whose bodiless "method" can only be a
/// field holding a function value.
pub fn is_intrinsic_owner(owner: &str) -> (b: bool)
    ensures
        b == intrinsic_owner(owner@),
{
    is_blocking_owner(owner) || same_text(owner, "Region") || same_text(owner, "Shared")
        || same_text(owner, "SharedFn") || same_text(owner, "Array") || is_int_owner(owner)
        || same_text(owner, "Char") || same_text(owner, "String") || same_text(owner, "Float")
        || same_text(owner, "Ptr")
}

/// Whether the backend operation `owner::name` is known to have no
/// cancellation point.
pub fn stop_free(owner: &str, name: &str) -> (b: bool)
    ensures
        b == stop_free_operation(owner@, name@),
{
    if is_int_owner(owner) || same_text(owner, "Array") && !same_text(name, "with_data") {
        return true;
    }
    if same_text(owner, "Region") {
        return same_text(name, "open") || same_text(name, "root");
    }
    if same_text(owner, "Shared") {
        return same_text(name, "of") || same_text(name, "get") || same_text(name, "set");
    }
    if same_text(owner, "Char") {
        same_text(name, "code") || same_text(name, "of") || same_text(name, "from_code")
    } else if same_text(owner, "String") {
        same_text(name, "bytes") || same_text(name, "byte") || same_text(name, "byte_length")
            || same_text(name, "slice") || same_text(name, "find") || same_text(name, "from_bytes")
    } else if same_text(owner, "Float") {
        same_text(name, "to_int")
    } else if same_text(owner, "Ptr") {
        same_text(name, "null") || same_text(name, "is_null")
    } else {
        false
    }
}

/// Whether the bodiless free function `name` is known to have no
/// cancellation point.
pub fn stop_free_item(name: &str) -> (b: bool)
    ensures
        b == stop_free_function(name@),
{
    same_text(name, "print") || same_text(name, "assert") || same_text(name, "assert_that")
}

/// Why a call to the bodiless type operation `owner::name` can stop, if it can.
pub fn operation(owner: &str, name: &str) -> (reason: Option<Local>)
    ensures
        reason == operation_reason(owner@, name@),
{
    if is_blocking_owner(owner) {
        Some(Local::Blocking)
    } else if same_text(owner, "SharedFn") && same_text(name, "call") {
        // Calls the wrapped closure: a call through a function value.
        Some(Local::ClosureCall)
    } else if !is_intrinsic_owner(owner) {
        // A Khora type has no intrinsics, so a bodiless call on one is a
        // field holding a function value.
        Some(Local::ClosureCall)
    } else if stop_free(owner, name) {
        None
    } else {
        Some(Local::Intrinsic)
    }
}

// ---------------------------------------------------------------------------
// The program model
// ---------------------------------------------------------------------------

/// The type of a receiver, as far as dispatch reads it.
#[derive(Debug)]
pub enum Ty {
    Str,
    Adt { name: String },
    Int,
    Fixed(IntKind),
    Float,
    Ptr,
    /// A tuple, a function value, or anything else with no operations of
    /// its own.
    Other,
}

/// What kind of item a path names.
#[derive(Clone, Copy, PartialEq, Eq, Debug)]
pub enum ItemKind {
    Function,
    Type,
    Const,
    Context,
    Effect,
    Trait,
    Row,
}

/// The shape of the expression a call calls.
#[derive(Debug)]
pub enum Callee {
    /// A path to an item.
    Item { name: String, kind: ItemKind },
    /// A path to an enum variant: a constructor.
    Variant,
    /// A path to a type's operation, `owner::name`.
    TraitItem { owner: String, name: String },
    /// A path that did not resolve; a compile error elsewhere.
    Unsupported,
    /// A field or method of a receiver.
    Field { receiver: Ty, name: String },
    /// Any other expression: it produces a function value.
    Computed,
}

/// The function an expression's position resolves to, if any.
#[derive(Debug)]
pub enum Target {
    /// One of the program's instances, by number.
    Instance(usize),
    /// A function with no Khora body: an `extern` or an intrinsic.
    Named(String),
    /// Nothing.
    Unresolved,
}

/// What the rule reads of an expression's shape.
#[derive(Debug)]
pub enum Shape {
    Loop,
    While,
    Try,
    /// A call: the shape of what it calls, what that resolves to, and whether
    /// any argument is a function value.
    Call { callee: Callee, resolved: Target, hands_function: bool },
    /// A path to a type's operation, used as a value or called.
    TraitPath { owner: String, name: String },
    /// Anything with no cancellation point of its own.
    Other,
}

/// One expression of a body.
#[derive(Debug)]
pub struct Expr {
    pub shape: Shape,
    /// The function this expression mentions, called or not.
    pub mention: Target,
}

/// One emitted function: its symbol and its body's expressions.
#[derive(Debug)]
pub struct Instance {
    pub symbol: String,
    pub body: Vec<Expr>,
}

/// Every instance number a target names is one of the program's.
pub open spec fn target_in(t: Target, n: nat) -> bool {
    match t {
        Target::Instance(i) => i < n,
        _ => true,
    }
}

/// Every instance number the program's expressions name exists.
pub open spec fn program_well_formed(instances: Seq<Instance>) -> bool {
    forall|i: int, j: int|
        0 <= i < instances.len() && 0 <= j < instances[i].body.len() ==> {
            let e = #[trigger] instances[i].body@[j];
            &&& target_in(e.mention, instances.len())
            &&& (e.shape matches Shape::Call { resolved, .. } ==> target_in(resolved, instances.len()))
        }
}

/// The names declared `extern`, as text.
pub open spec fn extern_names(externs: Seq<String>) -> Seq<Seq<char>> {
    externs.map_values(|s: String| s@)
}

/// What dispatch names a receiver's type by, if it has operations.
pub open spec fn receiver_owner_name(ty: Ty) -> Option<Seq<char>> {
    match ty {
        Ty::Str => Some("String"@),
        Ty::Adt { name } => Some(name@),
        Ty::Int => Some("Int"@),
        Ty::Fixed(kind) => Some(int_kind_name(kind)),
        Ty::Float => Some("Float"@),
        Ty::Ptr => Some("Ptr"@),
        Ty::Other => None,
    }
}

/// Whether `text` begins with `prefix`.
pub open spec fn has_prefix(text: Seq<char>, prefix: Seq<char>) -> bool {
    prefix.len() <= text.len() && text.subrange(0, prefix.len() as int) == prefix
}

/// Why a call to a named function with no Khora body can stop: an `extern`
/// counts only when it is a runtime export, anything else only when it is
/// not listed as stop-free.
pub open spec fn named_reason(name: Seq<char>, externs: Seq<Seq<char>>) -> Option<Local> {
    if externs.contains(name) {
        if has_prefix(name, "khora_"@) { Some(Local::Foreign) } else { None }
    } else if stop_free_function(name) {
        None
    } else {
        Some(Local::Intrinsic)
    }
}

/// Why a call whose callee has this shape, and no Khora body behind it, can
/// stop.
pub open spec fn callee_reason_spec(target: Callee, resolved: Target, externs: Seq<Seq<char>>) -> Option<Local> {
    match target {
        Callee::Item { name, kind } => match kind {
            ItemKind::Function => named_reason(
                match resolved {
                    Target::Named(s) => s@,
                    _ => name@,
                },
                externs,
            ),
            ItemKind::Type => None,
            _ => Some(Local::ClosureCall),
        },
        Callee::Variant => None,
        Callee::TraitItem { owner, name } => operation_reason(owner@, name@),
        Callee::Unsupported => Some(Local::Intrinsic),
        Callee::Field { receiver, name } => match receiver_owner_name(receiver) {
            Some(owner) => operation_reason(owner, name@),
            None => Some(Local::ClosureCall),
        },
        Callee::Computed => Some(Local::ClosureCall),
    }
}

/// Whether one expression is, by itself, a reason `r` to stop.
pub open spec fn expr_gives(e: Expr, externs: Seq<Seq<char>>, r: Local) -> bool {
    match e.shape {
        Shape::Loop | Shape::While => r == Local::BackEdge,
        Shape::Try => r == Local::Try,
        Shape::Call { callee, resolved, hands_function } => {
            &&& !(resolved is Instance)
            &&& (callee_reason_spec(callee, resolved, externs) == Some(r) || (hands_function
                && r == Local::HandsAClosure))
        },
        _ => false,
    }
}

/// Whether a body holds a reason `r` to stop.
pub open spec fn body_gives(body: Seq<Expr>, externs: Seq<Seq<char>>, r: Local) -> bool {
    exists|j: int| 0 <= j < body.len() && expr_gives(#[trigger] body[j], externs, r)
}

/// The instances a body mentions, in order: its edges in the call graph.
pub open spec fn mentions(body: Seq<Expr>) -> Seq<usize>
    decreases body.len(),
{
    if body.len() == 0 {
        Seq::empty()
    } else {
        let rest = mentions(body.drop_last());
        match body.last().mention {
            Target::Instance(i) => rest.push(i),
            _ => rest,
        }
    }
}

/// The program's call graph: an edge for every mention of an instance.
pub open spec fn call_graph(instances: Seq<Instance>) -> Seq<Seq<usize>> {
    Seq::new(instances.len(), |i: int| mentions(instances[i].body@))
}

/// The instances with a reason of their own that `counts`, or in a cycle.
pub open spec fn seeds(instances: Seq<Instance>, externs: Seq<Seq<char>>, foreign_counts: bool) -> Seq<bool> {
    Seq::new(
        instances.len(),
        |i: int|
            on_cycle(call_graph(instances), i) || exists|r: Local|
                #[trigger] body_gives(instances[i].body@, externs, r) && (foreign_counts || r != Local::Foreign),
    )
}

/// Whether instance `v` can stop: it reaches, through zero or more mentions,
/// an instance with a reason of its own or one in a call cycle.
pub open spec fn can_stop(instances: Seq<Instance>, externs: Seq<Seq<char>>, v: int) -> bool {
    reaches_marked(call_graph(instances), seeds(instances, externs, true), v)
}

/// Whether instance `v` would still stop if calls to runtime exports were
/// not counted.
pub open spec fn can_stop_without_foreign(instances: Seq<Instance>, externs: Seq<Seq<char>>, v: int) -> bool {
    reaches_marked(call_graph(instances), seeds(instances, externs, false), v)
}

proof fn lemma_mentions_in_range(body: Seq<Expr>, n: nat)
    requires
        forall|j: int| 0 <= j < body.len() ==> target_in(#[trigger] body[j].mention, n),
    ensures
        forall|k: int| 0 <= k < mentions(body).len() ==> #[trigger] mentions(body)[k] < n,
    decreases body.len(),
{
    if body.len() > 0 {
        let rest = body.drop_last();
        assert forall|j: int| 0 <= j < rest.len() implies target_in(#[trigger] rest[j].mention, n) by {
            assert(rest[j] == body[j]);
        }
        assert(target_in(body[body.len() - 1].mention, n));
        lemma_mentions_in_range(rest, n);
        let m = mentions(body);
        let r = mentions(rest);
        assert forall|k: int| 0 <= k < m.len() implies #[trigger] m[k] < n by {
            match body.last().mention {
                Target::Instance(i) => {
                    assert(m == r.push(i));
                    if k < r.len() {
                        assert(m[k] == r[k]);
                    }
                },
                _ => {
                    assert(m == r);
                },
            }
        }
    }
}

proof fn lemma_program_graph_well_formed(instances: Seq<Instance>)
    requires
        program_well_formed(instances),
    ensures
        well_formed(call_graph(instances)),
{
    let g = call_graph(instances);
    assert forall|u: int, k: int| 0 <= u < g.len() && 0 <= k < g[u].len() implies (#[trigger] g[u][k]) < g.len() by {
        let body = instances[u].body@;
        assert forall|j: int| 0 <= j < body.len() implies target_in(#[trigger] body[j].mention, instances.len()) by {
            assert(instances[u].body@[j] == body[j]);
        }
        lemma_mentions_in_range(body, instances.len());
    }
}

// ---------------------------------------------------------------------------
// Scanning one body
// ---------------------------------------------------------------------------

/// Whether `name` is declared `extern` somewhere in the program.
pub fn is_extern(name: &str, externs: &Vec<String>) -> (b: bool)
    ensures
        b == extern_names(externs@).contains(name@),
{
    let ghost names = extern_names(externs@);
    let mut i: usize = 0;
    while i < externs.len()
        invariant
            names == extern_names(externs@),
            i <= externs.len(),
            forall|j: int| 0 <= j < i ==> names[j] != name@,
        decreases externs.len() - i,
    {
        if same_text(externs[i].as_str(), name) {
            assert(names[i as int] == name@);
            return true;
        }
        i = i + 1;
    }
    false
}

/// The name dispatch uses for a receiver of type `ty`; `None` for a receiver
/// with no operations of its own.
pub fn receiver_owner(ty: &Ty) -> (owner: Option<String>)
    ensures
        owner matches Some(o) ==> receiver_owner_name(*ty) == Some(o@),
        owner is None ==> receiver_owner_name(*ty) is None,
{
    match ty {
        Ty::Str => Some(owned("String")),
        Ty::Adt { name } => Some(name.clone()),
        Ty::Int => Some(owned("Int")),
        Ty::Fixed(kind) => Some(owned(kind.name())),
        Ty::Float => Some(owned("Float")),
        Ty::Ptr => Some(owned("Ptr")),
        Ty::Other => None,
    }
}

/// Why a call to a named function with no Khora body can stop, if it can.
pub fn named(name: &str, externs: &Vec<String>) -> (reason: Option<Local>)
    ensures
        reason == named_reason(name@, extern_names(externs@)),
{
    if is_extern(name, externs) {
        // Only the runtime observes a cancellation; other C runs to its end.
        if starts_with_text(name, "khora_") {
            Some(Local::Foreign)
        } else {
            None
        }
    } else if stop_free_item(name) {
        None
    } else {
        Some(Local::Intrinsic)
    }
}

/// Why a call whose callee is `target`, with no Khora body behind it, can
/// stop. Every shape not recognised as stop-free is a call through a
/// function value.
fn callee_reason(target: &Callee, resolved: &Target, externs: &Vec<String>) -> (reason: Option<Local>)
    ensures
        reason == callee_reason_spec(*target, *resolved, extern_names(externs@)),
{
    match target {
        Callee::Item { name, kind } => match kind {
            ItemKind::Function => match resolved {
                Target::Named(s) => named(s.as_str(), externs),
                _ => named(name.as_str(), externs),
            },
            // A constructor.
            ItemKind::Type => None,
            // A value that is called, so a function value.
            _ => Some(Local::ClosureCall),
        },
        // A constructor.
        Callee::Variant => None,
        Callee::TraitItem { owner, name } => operation(owner.as_str(), name.as_str()),
        // A compile error elsewhere; counted rather than guessed at.
        Callee::Unsupported => Some(Local::Intrinsic),
        Callee::Field { receiver, name } => match receiver_owner(receiver) {
            Some(owner) => operation(owner.as_str(), name.as_str()),
            None => Some(Local::ClosureCall),
        },
        Callee::Computed => Some(Local::ClosureCall),
    }
}

/// One function's own reasons to stop, and the instances it mentions.
pub fn scan(body: &Vec<Expr>, externs: &Vec<String>) -> (found: (Reasons, Vec<usize>))
    ensures
        forall|r: Local| #[trigger] found.0.has(r) == body_gives(body@, extern_names(externs@), r),
        found.1@ == mentions(body@),
{
    let ghost ext = extern_names(externs@);
    let mut local = Reasons::none();
    let mut out: Vec<usize> = Vec::new();
    let mut j: usize = 0;
    while j < body.len()
        invariant
            ext == extern_names(externs@),
            j <= body.len(),
            out@ == mentions(body@.subrange(0, j as int)),
            forall|r: Local| #[trigger] local.has(r) == body_gives(body@.subrange(0, j as int), ext, r),
        decreases body.len() - j,
    {
        let e = &body[j];
        let ghost before = body@.subrange(0, j as int);
        let ghost after = body@.subrange(0, j as int + 1);
        assert(after.drop_last() =~= before);
        assert(after.last() == *e);
        // A mention is an edge, called or not.
        if let Target::Instance(callee) = &e.mention {
            out.push(*callee);
        }
        let ghost old_local = local;
        match &e.shape {
            Shape::Loop | Shape::While => {
                local.insert(Local::BackEdge);
            },
            Shape::Try => {
                local.insert(Local::Try);
            },
            Shape::Call { callee, resolved, hands_function } => {
                if let Target::Instance(_) = resolved {
                    // A Khora body: counted through the edge.
                } else {
                    if let Some(reason) = callee_reason(callee, resolved, externs) {
                        local.insert(reason);
                    }
                    if *hands_function {
                        local.insert(Local::HandsAClosure);
                    }
                }
            },
            Shape::TraitPath { .. } | Shape::Other => {},
        }
        proof {
            assert forall|r: Local| #[trigger] local.has(r) == body_gives(after, ext, r) by {
                if body_gives(after, ext, r) {
                    let k = choose|k: int| 0 <= k < after.len() && expr_gives(#[trigger] after[k], ext, r);
                    if k < before.len() {
                        assert(before[k] == after[k]);
                        assert(body_gives(before, ext, r));
                    }
                }
                if body_gives(before, ext, r) {
                    let k = choose|k: int| 0 <= k < before.len() && expr_gives(#[trigger] before[k], ext, r);
                    assert(after[k] == before[k]);
                }
                if expr_gives(*e, ext, r) {
                    assert(expr_gives(after[j as int], ext, r));
                }
            }
        }
        j = j + 1;
    }
    assert(body@.subrange(0, body.len() as int) =~= body@);
    (local, out)
}

// ---------------------------------------------------------------------------
// The whole program
// ---------------------------------------------------------------------------

/// The whole program's answer, by instance number.
pub struct CanStop {
    /// Each instance's symbol.
    pub symbols: Vec<String>,
    /// Instances whose calls need the tag.
    pub stops: Vec<bool>,
    /// Instances in a call cycle, which poll when entered.
    pub cyclic: Vec<bool>,
    /// Instances that stop only because calls to runtime exports count.
    pub only_foreign: Vec<bool>,
    /// Each instance's own reasons, before its callees count.
    pub local: Vec<Reasons>,
    /// How many instances were considered.
    pub considered: usize,
}

/// How many of `local` hold `r`.
pub open spec fn count_holding(local: Seq<Reasons>, r: Local) -> nat
    decreases local.len(),
{
    if local.len() == 0 {
        0
    } else {
        count_holding(local.drop_last(), r) + if local.last().has(r) { 1nat } else { 0nat }
    }
}

/// The report's list of reasons, the first `k` of them, each with how many
/// instances it fires in.
pub open spec fn reasons_report(local: Seq<Reasons>, k: int) -> Seq<char>
    decreases k,
{
    if k <= 0 {
        Seq::empty()
    } else {
        let entry = reason_name(reason_at(k - 1)) + " "@ + decimal(count_holding(local, reason_at(k - 1)));
        if k == 1 {
            entry
        } else {
            reasons_report(local, k - 1) + ", "@ + entry
        }
    }
}

/// The report: totals, then how many instances each reason fires in.
pub open spec fn summary_text(considered: nat, stops: nat, cyclic: nat, only_foreign: nat, local: Seq<Reasons>) -> Seq<char> {
    "cancel-T: "@ + decimal(considered) + " functions, "@ + decimal(stops) + " can stop ("@ + decimal(cyclic)
        + " in a call cycle, "@ + decimal(only_foreign) + " only through a foreign call), "@ + decimal(
        (considered - stops) as nat,
    ) + " keep a plain return\ncancel-T: by own reason: "@ + reasons_report(local, 7)
}

impl CanStop {
    /// Every per-instance vector has one entry per considered instance.
    pub open spec fn wf(&self) -> bool {
        &&& self.symbols.len() == self.considered
        &&& self.stops.len() == self.considered
        &&& self.cyclic.len() == self.considered
        &&& self.only_foreign.len() == self.considered
        &&& self.local.len() == self.considered
    }

    /// Whether every per-instance vector has one entry per considered
    /// instance, tested: what a caller that built the answer itself checks
    /// before asking for the report.
    pub fn is_well_formed(&self) -> (ok: bool)
        ensures
            ok == self.wf(),
    {
        self.symbols.len() == self.considered && self.stops.len() == self.considered && self.cyclic.len()
            == self.considered && self.only_foreign.len() == self.considered && self.local.len()
            == self.considered
    }

    /// The report: the totals, then how many instances each rule fires in,
    /// before callees count.
    pub fn summary(&self) -> (text: String)
        requires
            self.wf(),
        ensures
            text@ == summary_text(
                self.considered as nat,
                count_true(self.stops@),
                count_true(self.cyclic@),
                count_true(self.only_foreign@),
                self.local@,
            ),
    {
        let stops = count_set(&self.stops);
        let cyclic = count_set(&self.cyclic);
        let foreign = count_set(&self.only_foreign);
        proof {
            lemma_count_bounds(self.stops@);
        }
        let mut text = owned("cancel-T: ");
        push_decimal(&mut text, self.considered);
        text.append(" functions, ");
        push_decimal(&mut text, stops);
        text.append(" can stop (");
        push_decimal(&mut text, cyclic);
        text.append(" in a call cycle, ");
        push_decimal(&mut text, foreign);
        text.append(" only through a foreign call), ");
        push_decimal(&mut text, self.considered - stops);
        text.append(" keep a plain return\ncancel-T: by own reason: ");
        let all = Local::ALL;
        proof {
            assert(all@ =~= seq![
                Local::BackEdge,
                Local::Try,
                Local::ClosureCall,
                Local::Blocking,
                Local::HandsAClosure,
                Local::Foreign,
                Local::Intrinsic,
            ]);
        }
        let mut k: usize = 0;
        let ghost head = text@;
        while k < 7
            invariant
                k <= 7,
                forall|i: int| 0 <= i < 7 ==> #[trigger] all[i] == reason_at(i),
                text@ == head + reasons_report(self.local@, k as int),
            decreases 7 - k,
        {
            let reason = all[k];
            if k > 0 {
                text.append(", ");
            }
            text.append(reason.name());
            text.append(" ");
            let count = count_reason(&self.local, reason);
            push_decimal(&mut text, count);
            k = k + 1;
        }
        text
    }
}

impl Default for CanStop {
    fn default() -> (d: CanStop)
        ensures
            d.considered == 0,
            d.wf(),
    {
        CanStop {
            symbols: Vec::new(),
            stops: Vec::new(),
            cyclic: Vec::new(),
            only_foreign: Vec::new(),
            local: Vec::new(),
            considered: 0,
        }
    }
}

/// How many entries of `v` are set.
fn count_set(v: &Vec<bool>) -> (n: usize)
    ensures
        n == count_true(v@),
{
    let mut n: usize = 0;
    let mut i: usize = 0;
    while i < v.len()
        invariant
            i <= v.len(),
            n == count_true(v@.subrange(0, i as int)),
            n <= i,
        decreases v.len() - i,
    {
        let ghost s = v@.subrange(0, i as int + 1);
        assert(s.drop_last() =~= v@.subrange(0, i as int));
        if v[i] {
            n = n + 1;
        }
        i = i + 1;
    }
    assert(v@.subrange(0, v.len() as int) =~= v@);
    n
}

/// How many entries of `local` hold `r`.
fn count_reason(local: &Vec<Reasons>, r: Local) -> (n: usize)
    ensures
        n == count_holding(local@, r),
{
    let mut n: usize = 0;
    let mut i: usize = 0;
    while i < local.len()
        invariant
            i <= local.len(),
            n == count_holding(local@.subrange(0, i as int), r),
            n <= i,
        decreases local.len() - i,
    {
        let ghost s = local@.subrange(0, i as int + 1);
        assert(s.drop_last() =~= local@.subrange(0, i as int));
        if local[i].contains(r) {
            n = n + 1;
        }
        i = i + 1;
    }
    assert(local@.subrange(0, local.len() as int) =~= local@);
    n
}

/// Decides, for every instance, whether it can stop.
///
/// An instance stops when it has a reason of its own or is in a call cycle,
/// and then so does every instance with a path of mentions to it: a caller
/// of something that stops, stops.
pub fn decide(instances: &Vec<Instance>, externs: &Vec<String>) -> (answer: CanStop)
    requires
        program_well_formed(instances@),
    ensures
        answer.wf(),
        answer.considered == instances.len(),
        forall|i: int| 0 <= i < instances.len() ==> #[trigger] answer.symbols[i]@ == instances[i].symbol@,
        forall|i: int, r: Local|
            0 <= i < instances.len() ==> #[trigger] answer.local[i].has(r) == body_gives(
                instances[i].body@,
                extern_names(externs@),
                r,
            ),
        forall|v: int|
            0 <= v < instances.len() ==> #[trigger] answer.cyclic[v] == on_cycle(call_graph(instances@), v),
        forall|v: int|
            0 <= v < instances.len() ==> #[trigger] answer.stops[v] == can_stop(
                instances@,
                extern_names(externs@),
                v,
            ),
        forall|v: int|
            0 <= v < instances.len() ==> #[trigger] answer.only_foreign[v] == (can_stop(
                instances@,
                extern_names(externs@),
                v,
            ) && !can_stop_without_foreign(instances@, extern_names(externs@), v)),
{
    let ghost ext = extern_names(externs@);
    let ghost g = call_graph(instances@);
    let n = instances.len();
    let mut edges: Vec<Vec<usize>> = Vec::new();
    let mut local: Vec<Reasons> = Vec::new();
    let mut symbols: Vec<String> = Vec::new();
    let mut i: usize = 0;
    while i < n
        invariant
            n == instances.len(),
            ext == extern_names(externs@),
            g == call_graph(instances@),
            i <= n,
            edges.len() == i,
            local.len() == i,
            symbols.len() == i,
            forall|k: int| 0 <= k < i ==> (#[trigger] edges[k])@ == g[k],
            forall|k: int| 0 <= k < i ==> (#[trigger] symbols[k])@ == instances[k].symbol@,
            forall|k: int, r: Local|
                0 <= k < i ==> #[trigger] local[k].has(r) == body_gives(instances[k].body@, ext, r),
        decreases n - i,
    {
        let (reasons, out) = scan(&instances[i].body, externs);
        edges.push(out);
        local.push(reasons);
        symbols.push(instances[i].symbol.clone());
        i = i + 1;
    }
    proof {
        lemma_program_graph_well_formed(instances@);
        assert(graph_of(&edges) =~= g);
    }
    let cyclic = in_a_cycle(&edges);
    let mut every: Vec<bool> = Vec::new();
    let mut not_foreign: Vec<bool> = Vec::new();
    let mut v: usize = 0;
    while v < n
        invariant
            n == instances.len(),
            ext == extern_names(externs@),
            g == call_graph(instances@),
            g == graph_of(&edges),
            cyclic.len() == n,
            local.len() == n,
            v <= n,
            every.len() == v,
            not_foreign.len() == v,
            forall|x: int| 0 <= x < n ==> (cyclic[x] <==> on_cycle(g, x)),
            forall|k: int, r: Local|
                0 <= k < n ==> #[trigger] local[k].has(r) == body_gives(instances[k].body@, ext, r),
            forall|x: int| 0 <= x < v ==> #[trigger] every[x] == seeds(instances@, ext, true)[x],
            forall|x: int| 0 <= x < v ==> #[trigger] not_foreign[x] == seeds(instances@, ext, false)[x],
        decreases n - v,
    {
        let own = !local[v].is_empty();
        let own_not_foreign = local[v].has_other_than_foreign();
        proof {
            let body = instances@[v as int].body@;
            if own {
                let r = choose|r: Local| #[trigger] local[v as int].has(r);
                assert(body_gives(body, ext, r));
            }
            if exists|r: Local| #[trigger] body_gives(body, ext, r) && (true || r != Local::Foreign) {
                let r = choose|r: Local| #[trigger] body_gives(body, ext, r) && (true || r != Local::Foreign);
                assert(local[v as int].has(r));
            }
            if own_not_foreign {
                let r = choose|r: Local| #[trigger] local[v as int].has(r) && r != Local::Foreign;
                assert(body_gives(body, ext, r));
            }
            if exists|r: Local| #[trigger] body_gives(body, ext, r) && (false || r != Local::Foreign) {
                let r = choose|r: Local| #[trigger] body_gives(body, ext, r) && (false || r != Local::Foreign);
                assert(local[v as int].has(r));
            }
        }
        every.push(cyclic[v] || own);
        not_foreign.push(cyclic[v] || own_not_foreign);
        v = v + 1;
    }
    proof {
        assert(every@ =~= seeds(instances@, ext, true));
        assert(not_foreign@ =~= seeds(instances@, ext, false));
    }
    let stops = close_over_callers(&edges, &every);
    let without = close_over_callers(&edges, &not_foreign);
    let mut only_foreign: Vec<bool> = Vec::new();
    let mut w: usize = 0;
    while w < n
        invariant
            w <= n,
            stops.len() == n,
            without.len() == n,
            only_foreign.len() == w,
            forall|x: int| 0 <= x < w ==> #[trigger] only_foreign[x] == (stops[x] && !without[x]),
        decreases n - w,
    {
        only_foreign.push(stops[w] && !without[w]);
        w = w + 1;
    }
    CanStop { symbols, stops, cyclic, only_foreign, local, considered: n }
}

// ---------------------------------------------------------------------------
// Laws
// ---------------------------------------------------------------------------

/// An instance stops exactly when it has a reason of its own, is in a call
/// cycle, or mentions an instance that stops.
pub proof fn law_stops_exactly(instances: Seq<Instance>, externs: Seq<Seq<char>>, v: int)
    requires
        program_well_formed(instances),
        0 <= v < instances.len(),
    ensures
        can_stop(instances, externs, v) <==> {
            ||| exists|r: Local| #[trigger] body_gives(instances[v].body@, externs, r)
            ||| on_cycle(call_graph(instances), v)
            ||| exists|w: int| #[trigger] edge(call_graph(instances), v, w) && can_stop(instances, externs, w)
        },
{
    let g = call_graph(instances);
    let s = seeds(instances, externs, true);
    lemma_program_graph_well_formed(instances);
    if can_stop(instances, externs, v) {
        let w = choose|w: int| 0 <= w < g.len() && w < s.len() && #[trigger] s[w] && reaches(g, v, w);
        let p = choose|p: Seq<int>| #[trigger] is_path(g, p) && p[0] == v && p.last() == w;
        if p.len() == 1 {
            assert(s[v]);
        } else {
            lemma_tail(g, p);
            assert(reaches(g, p[1], w));
            assert(can_stop(instances, externs, p[1]));
            assert(edge(g, v, p[1]));
        }
    }
    if exists|r: Local| #[trigger] body_gives(instances[v].body@, externs, r) {
        lemma_single(g, v);
        assert(s[v]);
    }
    if on_cycle(g, v) {
        lemma_single(g, v);
        assert(s[v]);
    }
    if exists|w: int| #[trigger] edge(g, v, w) && can_stop(instances, externs, w) {
        let w = choose|w: int| #[trigger] edge(g, v, w) && can_stop(instances, externs, w);
        let m = choose|m: int| 0 <= m < g.len() && m < s.len() && #[trigger] s[m] && reaches(g, w, m);
        let p = choose|p: Seq<int>| #[trigger] is_path(g, p) && p[0] == w && p.last() == m;
        lemma_prepend(g, v, p);
        assert(reaches(g, v, m));
    }
}

/// A caller of something that stops, stops.
pub proof fn law_caller_of_a_stopping_function_stops(
    instances: Seq<Instance>,
    externs: Seq<Seq<char>>,
    v: int,
    w: int,
)
    requires
        program_well_formed(instances),
        edge(call_graph(instances), v, w),
        can_stop(instances, externs, w),
    ensures
        can_stop(instances, externs, v),
{
    law_stops_exactly(instances, externs, v);
}

/// A function in a call cycle stops, whatever its body holds.
pub proof fn law_a_call_cycle_stops(instances: Seq<Instance>, externs: Seq<Seq<char>>, v: int)
    requires
        program_well_formed(instances),
        0 <= v < instances.len(),
        on_cycle(call_graph(instances), v),
    ensures
        can_stop(instances, externs, v),
{
    law_stops_exactly(instances, externs, v);
}

/// Whatever stops without counting calls to runtime exports also stops when
/// they count: counting one more rule only ever adds tags.
pub proof fn law_counting_foreign_calls_only_adds(instances: Seq<Instance>, externs: Seq<Seq<char>>, v: int)
    requires
        0 <= v < instances.len(),
        can_stop_without_foreign(instances, externs, v),
    ensures
        can_stop(instances, externs, v),
{
    let g = call_graph(instances);
    let nf = seeds(instances, externs, false);
    let all = seeds(instances, externs, true);
    let w = choose|w: int| 0 <= w < g.len() && w < nf.len() && #[trigger] nf[w] && reaches(g, v, w);
    if !on_cycle(g, w) {
        let r = choose|r: Local| #[trigger] body_gives(instances[w].body@, externs, r) && (false || r != Local::Foreign);
        assert(body_gives(instances[w].body@, externs, r) && (true || r != Local::Foreign));
    }
    assert(all[w]);
}

/// A loop is a back-edge, so a cancellation point: a `loop`, like a
/// `while`, gives exactly the back-edge reason, and a function whose body
/// holds one stops.
pub proof fn law_a_looping_function_stops(instances: Seq<Instance>, externs: Seq<Seq<char>>, v: int, j: int, r: Local)
    requires
        program_well_formed(instances),
        0 <= v < instances.len(),
        0 <= j < instances[v].body@.len(),
        instances[v].body@[j].shape is Loop || instances[v].body@[j].shape is While,
    ensures
        expr_gives(instances[v].body@[j], externs, r) <==> r == Local::BackEdge,
        body_gives(instances[v].body@, externs, Local::BackEdge),
        can_stop(instances, externs, v),
{
    assert(expr_gives(instances[v].body@[j], externs, Local::BackEdge));
    assert(body_gives(instances[v].body@, externs, Local::BackEdge));
    law_stops_exactly(instances, externs, v);
}

/// Which expressions are cancellation points by themselves: a `loop` or a
/// `while` is a back-edge and a `!` a fallible call, each that reason and no
/// other; a call that resolves to a Khora body gives none (it counts through
/// its edge), one that does not and hands over a function value gives
/// `HandsAClosure`; a path or anything else gives none.
pub proof fn law_cancellation_points_of_an_expression(e: Expr, externs: Seq<Seq<char>>, r: Local)
    ensures
        e.shape is Loop || e.shape is While ==> (expr_gives(e, externs, r) <==> r == Local::BackEdge),
        e.shape is Try ==> (expr_gives(e, externs, r) <==> r == Local::Try),
        e.shape is Other || e.shape is TraitPath ==> !expr_gives(e, externs, r),
        e.shape matches Shape::Call { resolved, .. } && resolved is Instance ==> !expr_gives(e, externs, r),
        e.shape matches Shape::Call { resolved, hands_function, .. } && !(resolved is Instance) && hands_function
            ==> expr_gives(e, externs, Local::HandsAClosure),
{
}

proof fn lemma_mentions_are_the_instance_mentions(body: Seq<Expr>, w: usize)
    ensures
        mentions(body).contains(w) <==> exists|j: int| 0 <= j < body.len() && #[trigger] body[j].mention == Target::Instance(w),
    decreases body.len(),
{
    if body.len() > 0 {
        let init = body.drop_last();
        lemma_mentions_are_the_instance_mentions(init, w);
        let m = mentions(body);
        let p = mentions(init);
        let last = body[body.len() - 1];
        assert(last == body.last());
        assert forall|j: int| 0 <= j < init.len() implies #[trigger] init[j] == body[j] by {}
        match last.mention {
            Target::Instance(x) => {
                assert(m == p.push(x));
                if m.contains(w) {
                    let k = choose|k: int| 0 <= k < m.len() && m[k] == w;
                    if k < p.len() {
                        assert(p[k] == w);
                        assert(p.contains(w));
                        let j = choose|j: int| 0 <= j < init.len() && #[trigger] init[j].mention == Target::Instance(w);
                        assert(body[j].mention == Target::Instance(w));
                    } else {
                        assert(body[body.len() - 1].mention == Target::Instance(w));
                    }
                }
                if exists|j: int| 0 <= j < body.len() && #[trigger] body[j].mention == Target::Instance(w) {
                    let j = choose|j: int| 0 <= j < body.len() && #[trigger] body[j].mention == Target::Instance(w);
                    if j < init.len() {
                        assert(init[j].mention == Target::Instance(w));
                        let k = choose|k: int| 0 <= k < p.len() && p[k] == w;
                        assert(m[k] == w);
                    } else {
                        assert(m[m.len() - 1] == w);
                    }
                }
            },
            _ => {
                assert(m == p);
                if exists|j: int| 0 <= j < body.len() && #[trigger] body[j].mention == Target::Instance(w) {
                    let j = choose|j: int| 0 <= j < body.len() && #[trigger] body[j].mention == Target::Instance(w);
                    assert(j < init.len());
                    assert(init[j].mention == Target::Instance(w));
                }
                if m.contains(w) {
                    let j = choose|j: int| 0 <= j < init.len() && #[trigger] init[j].mention == Target::Instance(w);
                    assert(body[j].mention == Target::Instance(w));
                }
            },
        }
    }
}

/// The call graph has an edge from `v` to `w` exactly when some expression
/// of `v`'s body mentions `w`, called or not: a function passed as a value
/// is called by whoever receives it.
pub proof fn law_every_mention_is_an_edge(instances: Seq<Instance>, v: int, w: usize)
    requires
        0 <= v < instances.len(),
        0 <= w < instances.len(),
    ensures
        edge(call_graph(instances), v, w as int) <==> exists|j: int|
            0 <= j < instances[v].body@.len() && #[trigger] instances[v].body@[j].mention == Target::Instance(w),
{
    let g = call_graph(instances);
    lemma_mentions_are_the_instance_mentions(instances[v].body@, w);
    assert(g[v] == mentions(instances[v].body@));
    if edge(g, v, w as int) {
        let k = choose|k: int| 0 <= k < g[v].len() && g[v][k] == w;
        assert(g[v].contains(w));
    }
    if g[v].contains(w) {
        let k = choose|k: int| 0 <= k < g[v].len() && g[v][k] == w;
        assert(edge(g, v, w as int));
    }
}

} // verus!
