//! How a program is entered: the C `main` that calls the Khora one, the test
//! and bench blocks a runner is handed, and the symbols a library publishes.

use vstd::prelude::*;

use crate::driver::Entry;
use crate::operators::{bits_of, fits, read_bits};
use crate::text::{owned, same_text};

verus! {

broadcast use vstd::string::group_string_axioms;

/// One emitted specialization of a source function.
#[derive(Debug)]
pub struct Specialization {
    /// The source function it specializes.
    pub function: String,
    /// The symbol it is emitted under.
    pub symbol: String,
    /// Its signature says `extern`.
    pub is_extern: bool,
    /// Its body has a root expression, so it is a definition rather than a
    /// declaration.
    pub has_body: bool,
}

/// A specialization, as text.
pub type SpecializationKey = (Seq<char>, Seq<char>, bool, bool);

/// A specialization's text and flags.
pub open spec fn spec_key(s: Specialization) -> SpecializationKey {
    (s.function@, s.symbol@, s.is_extern, s.has_body)
}

/// The specializations, as text.
pub open spec fn spec_keys(s: Seq<Specialization>) -> Seq<SpecializationKey> {
    s.map_values(|x: Specialization| spec_key(x))
}

/// The first position, from `i` on, of a specialization of `function`.
pub open spec fn first_of(s: Seq<SpecializationKey>, function: Seq<char>, i: int) -> Option<int>
    decreases s.len() - i,
{
    if i < 0 || i >= s.len() {
        None
    } else if s[i].0 == function {
        Some(i)
    } else {
        first_of(s, function, i + 1)
    }
}

/// The symbol of the first specialization of `function`, if there is one.
pub open spec fn symbol_of(s: Seq<SpecializationKey>, function: Seq<char>) -> Option<Seq<char>> {
    match first_of(s, function, 0) {
        Some(i) => Some(s[i].1),
        None => None,
    }
}

/// The symbol of the first specialization of `function`.
pub fn symbol_for(specializations: &Vec<Specialization>, function: &str) -> (symbol: Option<String>)
    ensures
        match symbol {
            Some(t) => symbol_of(spec_keys(specializations@), function@) == Some(t@),
            None => symbol_of(spec_keys(specializations@), function@) is None,
        },
{
    let ghost s = spec_keys(specializations@);
    let mut i: usize = 0;
    while i < specializations.len()
        invariant
            s == spec_keys(specializations@),
            i <= specializations.len(),
            first_of(s, function@, 0) == first_of(s, function@, i as int),
        decreases specializations.len() - i,
    {
        assert(s[i as int] == spec_key(specializations@[i as int]));
        if same_text(specializations[i].function.as_str(), function) {
            return Some(specializations[i].symbol.clone());
        }
        i = i + 1;
    }
    None
}

/// Whether a specialization is published: declared `extern` and defined. One
/// without a body is somebody else's symbol, an import.
pub open spec fn published(s: SpecializationKey) -> bool {
    s.2 && s.3
}

/// The name and symbol of each published specialization, in order.
pub open spec fn exported(s: Seq<SpecializationKey>) -> Seq<(Seq<char>, Seq<char>)>
    decreases s.len(),
{
    if s.len() == 0 {
        Seq::empty()
    } else {
        exported(s.drop_last()) + if published(s.last()) {
            seq![(s.last().0, s.last().1)]
        } else {
            Seq::empty()
        }
    }
}

/// The text of a list of pairs of strings.
pub open spec fn pairs_text(v: Seq<(String, String)>) -> Seq<(Seq<char>, Seq<char>)> {
    v.map_values(|p: (String, String)| (p.0@, p.1@))
}

/// The C symbols a program publishes, as the source function's name and the
/// emitted symbol: every specialization that is `extern` and has a body,
/// emitted after every body exists, because a wrapper calls a definition.
pub fn exports(specializations: &Vec<Specialization>) -> (out: Vec<(String, String)>)
    ensures
        pairs_text(out@) == exported(spec_keys(specializations@)),
{
    let ghost s = spec_keys(specializations@);
    let mut out: Vec<(String, String)> = Vec::new();
    let mut i: usize = 0;
    while i < specializations.len()
        invariant
            s == spec_keys(specializations@),
            i <= specializations.len(),
            pairs_text(out@) == exported(s.subrange(0, i as int)),
        decreases specializations.len() - i,
    {
        proof {
            assert(s.subrange(0, i as int + 1).drop_last() =~= s.subrange(0, i as int));
            assert(s.subrange(0, i as int + 1).last() == spec_key(specializations@[i as int]));
        }
        let ghost before = out@;
        let item = &specializations[i];
        if item.is_extern && item.has_body {
            out.push((item.function.clone(), item.symbol.clone()));
            assert(pairs_text(out@) =~= pairs_text(before) + seq![(item.function@, item.symbol@)]);
        } else {
            assert(pairs_text(out@) =~= pairs_text(before) + Seq::<(Seq<char>, Seq<char>)>::empty());
        }
        i = i + 1;
    }
    assert(s.subrange(0, specializations.len() as int) =~= s);
    out
}

/// What the compiler says of a library that publishes nothing.
pub open spec fn unreachable_library() -> Seq<char> {
    "a library has no `pub extern fn`, so nothing could call it. Mark the functions that are its C interface \u{2014} `docs/design/c-export.md`"@
}

/// The error a library build that publishes nothing gets: nothing could
/// call it. Any other build, or a library with exports, gets none.
pub fn library_error(entry: Entry, exports: usize) -> (error: Option<String>)
    ensures
        error is Some <==> (entry == Entry::Library && exports == 0),
        error matches Some(m) ==> m@ == unreachable_library(),
{
    if entry == Entry::Library && exports == 0 {
        proof {
            reveal_strlit("a library has no `pub extern fn`, so nothing could call it. Mark the functions that are its C interface \u{2014} `docs/design/c-export.md`");
        }
        Some(owned("a library has no `pub extern fn`, so nothing could call it. Mark the functions that are its C interface \u{2014} `docs/design/c-export.md`"))
    } else {
        None
    }
}

/// The symbol of the last export named `name`: the one a later export of
/// that name collides with.
pub open spec fn last_symbol(s: Seq<(Seq<char>, Seq<char>)>, name: Seq<char>) -> Option<Seq<char>>
    decreases s.len(),
{
    if s.len() == 0 {
        None
    } else if s.last().0 == name {
        Some(s.last().1)
    } else {
        last_symbol(s.drop_last(), name)
    }
}

/// What the compiler says of a second export under a C name.
pub open spec fn collision(name: Seq<char>, first: Seq<char>, second: Seq<char>) -> Seq<char> {
    "two functions are exported to C as `"@ + name + "` \u{2014} `"@ + first + "` and `"@ + second
        + "`. A C symbol has no module to be qualified by, so one of them has to be renamed"@
}

/// The exports that are published, and what is said of the ones that are
/// not: the C namespace is flat, so the first export under a name is
/// published and each later one is a collision with the one before it.
pub open spec fn published_once(s: Seq<(Seq<char>, Seq<char>)>) -> (Seq<(Seq<char>, Seq<char>)>, Seq<Seq<char>>)
    decreases s.len(),
{
    if s.len() == 0 {
        (Seq::empty(), Seq::empty())
    } else {
        let rest = published_once(s.drop_last());
        match last_symbol(s.drop_last(), s.last().0) {
            Some(first) => (rest.0, rest.1.push(collision(s.last().0, first, s.last().1))),
            None => (rest.0.push(s.last()), rest.1),
        }
    }
}

fn collision_message(name: &str, first: &str, second: &str) -> (message: String)
    ensures
        message@ == collision(name@, first@, second@),
{
    let mut message = owned("two functions are exported to C as `");
    message.append(name);
    message.append("` \u{2014} `");
    message.append(first);
    message.append("` and `");
    message.append(second);
    message.append("`. A C symbol has no module to be qualified by, so one of them has to be renamed");
    message
}

/// The text of some strings.
pub open spec fn strings_text(v: Seq<String>) -> Seq<Seq<char>> {
    v.map_values(|s: String| s@)
}

/// Which exports are published, and the errors for the rest: two functions
/// cannot publish one C symbol, so a second export under a name is an
/// error naming both symbols, and only the first is published.
pub fn publish_once(exports: &Vec<(String, String)>) -> (r: (Vec<(String, String)>, Vec<String>))
    ensures
        pairs_text(r.0@) == published_once(pairs_text(exports@)).0,
        strings_text(r.1@) == published_once(pairs_text(exports@)).1,
{
    let ghost s = pairs_text(exports@);
    let mut out: Vec<(String, String)> = Vec::new();
    let mut errors: Vec<String> = Vec::new();
    let mut i: usize = 0;
    while i < exports.len()
        invariant
            s == pairs_text(exports@),
            i <= exports.len(),
            pairs_text(out@) == published_once(s.subrange(0, i as int)).0,
            strings_text(errors@) == published_once(s.subrange(0, i as int)).1,
        decreases exports.len() - i,
    {
        let ghost prefix = s.subrange(0, i as int);
        proof {
            assert(s.subrange(0, i as int + 1).drop_last() =~= prefix);
            assert(s.subrange(0, i as int + 1).last() == s[i as int]);
        }
        // The last earlier export under the same name, if any.
        assert(prefix.subrange(0, i as int) =~= prefix);
        let mut j: usize = i;
        let mut first: Option<usize> = None;
        while j > 0 && first.is_none()
            invariant
                s == pairs_text(exports@),
                i < exports.len(),
                j <= i,
                prefix == s.subrange(0, i as int),
                first is None ==> last_symbol(prefix, s[i as int].0) == last_symbol(prefix.subrange(0, j as int), s[i as int].0),
                first matches Some(k) ==> k < i && last_symbol(prefix, s[i as int].0) == Some(s[k as int].1),
            decreases j + if first is None { 1int } else { 0int },
        {
            let ghost part = prefix.subrange(0, j as int);
            proof {
                assert(part.drop_last() =~= prefix.subrange(0, j - 1));
                assert(part.last() == s[j - 1]);
            }
            if same_text(exports[j - 1].0.as_str(), exports[i].0.as_str()) {
                first = Some(j - 1);
            }
            j = j - 1;
        }
        let ghost errors_before = errors@;
        let ghost out_before = out@;
        match first {
            Some(k) => {
                errors.push(collision_message(exports[i].0.as_str(), exports[k].1.as_str(), exports[i].1.as_str()));
                assert(strings_text(errors@) =~= strings_text(errors_before).push(
                    collision(s[i as int].0, s[k as int].1, s[i as int].1),
                ));
            },
            None => {
                proof {
                    assert(last_symbol(prefix.subrange(0, 0), s[i as int].0) is None);
                }
                out.push((exports[i].0.clone(), exports[i].1.clone()));
                assert(pairs_text(out@) =~= pairs_text(out_before).push(s[i as int]));
            },
        }
        i = i + 1;
    }
    assert(s.subrange(0, exports.len() as int) =~= s);
    (out, errors)
}

/// Whether the names of some exports are all different.
pub open spec fn distinct_names(s: Seq<(Seq<char>, Seq<char>)>) -> bool {
    forall|i: int, j: int| 0 <= i < j < s.len() ==> (#[trigger] s[i]).0 != (#[trigger] s[j]).0
}

proof fn lemma_last_symbol_some(s: Seq<(Seq<char>, Seq<char>)>, name: Seq<char>)
    ensures
        last_symbol(s, name) is Some <==> exists|i: int| 0 <= i < s.len() && (#[trigger] s[i]).0 == name,
    decreases s.len(),
{
    if s.len() > 0 {
        lemma_last_symbol_some(s.drop_last(), name);
        if s.last().0 != name {
            assert forall|i: int| 0 <= i < s.len() && (#[trigger] s[i]).0 == name implies exists|k: int|
                0 <= k < s.drop_last().len() && (#[trigger] s.drop_last()[k]).0 == name by {
                assert(s.drop_last()[i] == s[i]);
            }
            assert forall|k: int| 0 <= k < s.drop_last().len() && (#[trigger] s.drop_last()[k]).0 == name implies
                exists|i: int| 0 <= i < s.len() && (#[trigger] s[i]).0 == name by {
                assert(s[k] == s.drop_last()[k]);
            }
        } else {
            assert(s[s.len() - 1].0 == name);
        }
    }
}

/// Every published export is one of the exports.
proof fn lemma_published_are_exports(s: Seq<(Seq<char>, Seq<char>)>)
    ensures
        forall|k: int| 0 <= k < published_once(s).0.len() ==> exists|i: int|
            0 <= i < s.len() && #[trigger] published_once(s).0[k] == s[i],
    decreases s.len(),
{
    if s.len() > 0 {
        let init = s.drop_last();
        lemma_published_are_exports(init);
        let p = published_once(init).0;
        let q = published_once(s).0;
        assert forall|k: int| 0 <= k < q.len() implies exists|i: int| 0 <= i < s.len() && #[trigger] q[k] == s[i] by {
            if k < p.len() {
                let i = choose|i: int| 0 <= i < init.len() && #[trigger] p[k] == init[i];
                assert(s[i] == init[i]);
                assert(q[k] == p[k]);
            } else {
                assert(q[k] == s[s.len() - 1]);
            }
        }
    }
}

/// The published exports have different names.
proof fn lemma_published_names_differ(s: Seq<(Seq<char>, Seq<char>)>)
    ensures
        distinct_names(published_once(s).0),
    decreases s.len(),
{
    if s.len() > 0 {
        let init = s.drop_last();
        let name = s.last().0;
        lemma_published_names_differ(init);
        if last_symbol(init, name) is None {
            lemma_published_are_exports(init);
            lemma_last_symbol_some(init, name);
            let p = published_once(init).0;
            let q = published_once(s).0;
            assert(q == p.push(s.last()));
            assert forall|a: int, b: int| 0 <= a < b < q.len() implies (#[trigger] q[a]).0 != (#[trigger] q[b]).0 by {
                if b == q.len() - 1 {
                    let w = choose|w: int| 0 <= w < init.len() && #[trigger] p[a] == init[w];
                    assert(q[a] == init[w]);
                    assert(q[b] == s.last());
                } else {
                    assert(q[a] == p[a] && q[b] == p[b]);
                }
            }
        }
    }
}

/// Every name exported is published.
proof fn lemma_every_name_is_published(s: Seq<(Seq<char>, Seq<char>)>)
    ensures
        forall|i: int| 0 <= i < s.len() ==> exists|k: int|
            0 <= k < published_once(s).0.len() && (#[trigger] published_once(s).0[k]).0 == (#[trigger] s[i]).0,
    decreases s.len(),
{
    if s.len() > 0 {
        let init = s.drop_last();
        let name = s.last().0;
        lemma_every_name_is_published(init);
        lemma_last_symbol_some(init, name);
        let p = published_once(init).0;
        let q = published_once(s).0;
        if last_symbol(init, name) is Some {
            assert(q == p);
            let w = choose|w: int| 0 <= w < init.len() && (#[trigger] init[w]).0 == name;
            assert forall|i: int| 0 <= i < s.len() implies exists|k: int|
                0 <= k < q.len() && (#[trigger] q[k]).0 == (#[trigger] s[i]).0 by {
                let t: int = if i < s.len() - 1 { i } else { w };
                assert(init[t].0 == s[i].0);
                let k = choose|k: int| 0 <= k < p.len() && (#[trigger] p[k]).0 == (#[trigger] init[t]).0;
                assert(q[k].0 == s[i].0);
            }
        } else {
            assert(q == p.push(s.last()));
            assert forall|i: int| 0 <= i < s.len() implies exists|k: int|
                0 <= k < q.len() && (#[trigger] q[k]).0 == (#[trigger] s[i]).0 by {
                if i < s.len() - 1 {
                    assert(s[i] == init[i]);
                    let k = choose|k: int| 0 <= k < p.len() && (#[trigger] p[k]).0 == (#[trigger] init[i]).0;
                    assert(q[k] == p[k]);
                } else {
                    assert(q[q.len() - 1] == s[i]);
                }
            }
        }
    }
}

/// Two functions never publish one C symbol: the published exports have
/// different names, each is one of the exports, and every name exported is
/// published, by the first export under it.
pub proof fn law_each_c_name_is_published_once(s: Seq<(Seq<char>, Seq<char>)>)
    ensures
        distinct_names(published_once(s).0),
        forall|k: int| 0 <= k < published_once(s).0.len() ==> exists|i: int|
            0 <= i < s.len() && #[trigger] published_once(s).0[k] == s[i],
        forall|i: int| 0 <= i < s.len() ==> exists|k: int|
            0 <= k < published_once(s).0.len() && (#[trigger] published_once(s).0[k]).0 == (#[trigger] s[i]).0,
{
    lemma_published_names_differ(s);
    lemma_published_are_exports(s);
    lemma_every_name_is_published(s);
}

/// The two kinds of block a file can hold besides functions.
#[derive(Clone, Copy, PartialEq, Eq, Structural, Debug)]
pub enum BlockKind {
    Test,
    Bench,
}

/// A `test` or `bench` block, as written.
#[derive(Debug)]
pub struct Block {
    pub kind: BlockKind,
    /// The function its body was compiled as.
    pub key: String,
    /// The name it is reported under.
    pub name: String,
}

/// A block's kind and text.
pub type BlockKey = (BlockKind, Seq<char>, Seq<char>);

/// A block, as text.
pub open spec fn block_key(b: Block) -> BlockKey {
    (b.kind, b.key@, b.name@)
}

/// The blocks, as text.
pub open spec fn block_keys(b: Seq<Block>) -> Seq<BlockKey> {
    b.map_values(|x: Block| block_key(x))
}

/// The kind of block an entry point runs: benches for a bench build, and
/// tests otherwise.
pub open spec fn wanted_kind(entry: Entry) -> BlockKind {
    if entry == Entry::Benches { BlockKind::Bench } else { BlockKind::Test }
}

/// The blocks a runner is handed, as each one's symbol and name: every block
/// of the wanted kind that was compiled, in written order.
pub open spec fn registered(
    blocks: Seq<BlockKey>,
    kind: BlockKind,
    s: Seq<SpecializationKey>,
) -> Seq<(Seq<char>, Seq<char>)>
    decreases blocks.len(),
{
    if blocks.len() == 0 {
        Seq::empty()
    } else {
        let b = blocks.last();
        registered(blocks.drop_last(), kind, s) + if b.0 == kind && symbol_of(s, b.1) is Some {
            seq![(symbol_of(s, b.1).unwrap(), b.2)]
        } else {
            Seq::empty()
        }
    }
}

/// The blocks a test or bench runner is handed, in the order they are
/// written, which is the order a reader expects a report in: each block of
/// the kind the entry point runs whose function was compiled, under that
/// function's symbol.
pub fn runner_blocks(entry: Entry, blocks: &Vec<Block>, specializations: &Vec<Specialization>)
    -> (out: Vec<(String, String)>)
    ensures
        pairs_text(out@) == registered(block_keys(blocks@), wanted_kind(entry), spec_keys(specializations@)),
{
    let kind = if entry == Entry::Benches { BlockKind::Bench } else { BlockKind::Test };
    let ghost b = block_keys(blocks@);
    let ghost s = spec_keys(specializations@);
    let mut out: Vec<(String, String)> = Vec::new();
    let mut i: usize = 0;
    while i < blocks.len()
        invariant
            b == block_keys(blocks@),
            s == spec_keys(specializations@),
            kind == wanted_kind(entry),
            i <= blocks.len(),
            pairs_text(out@) == registered(b.subrange(0, i as int), kind, s),
        decreases blocks.len() - i,
    {
        proof {
            assert(b.subrange(0, i as int + 1).drop_last() =~= b.subrange(0, i as int));
            assert(b.subrange(0, i as int + 1).last() == block_key(blocks@[i as int]));
        }
        let ghost before = out@;
        let block = &blocks[i];
        if block.kind == kind {
            match symbol_for(specializations, block.key.as_str()) {
                Some(symbol) => {
                    out.push((symbol, block.name.clone()));
                    assert(pairs_text(out@) =~= pairs_text(before) + seq![(symbol@, block.name@)]);
                },
                None => {
                    assert(pairs_text(out@) =~= pairs_text(before) + Seq::<(Seq<char>, Seq<char>)>::empty());
                },
            }
        } else {
            assert(pairs_text(out@) =~= pairs_text(before) + Seq::<(Seq<char>, Seq<char>)>::empty());
        }
        i = i + 1;
    }
    assert(b.subrange(0, blocks.len() as int) =~= b);
    out
}

/// What an entry point's `main` returns, as far as the shim cares.
#[derive(Clone, Copy, PartialEq, Eq, Structural, Debug)]
pub enum MainReturn {
    Int,
    Unit,
    /// Any other type.
    Other,
}

/// The signature of the Khora `main`, as far as the shim cares.
#[derive(Clone, Copy, Debug)]
pub struct MainSignature {
    /// How many parameters it takes.
    pub params: usize,
    pub ret: MainReturn,
    /// It can raise, so it returns a tagged value.
    pub raises: bool,
}

/// Where the process's exit status comes from when `main` returns.
#[derive(Clone, Copy, PartialEq, Eq, Structural, Debug)]
pub enum ExitCode {
    /// The `Int` result, truncated to the 32 bits a process status carries.
    Truncated,
    /// Zero, for a `main` that returns `()`.
    Zero,
}

/// The C `main` to emit.
#[derive(Clone, Copy, PartialEq, Eq, Structural, Debug)]
pub struct MainPlan {
    /// The Khora `main` returns a tagged value, and an uncaught raise is a
    /// failing exit.
    pub raises: bool,
    pub code: ExitCode,
}

/// The C `main` that calls the Khora one, or what the compiler says when
/// there is none to call: `found` is whether the program has a `main` with a
/// signature, and `defined` whether it has a body; `shown` is how the return
/// type is written, for the message about one that is neither `Int` nor `()`.
pub open spec fn main_of(found: Option<MainSignature>, defined: bool, shown: Seq<char>) -> Result<MainPlan, Seq<char>> {
    match found {
        None => Err("this program has no `main` function, so there is nothing to run"@),
        Some(signature) => if !defined {
            Err("`main` is declared without a body, so there is nothing to run"@)
        } else if signature.params != 0 {
            Err("`main` cannot take parameters yet; command-line arguments arrive with the standard library"@)
        } else {
            match signature.ret {
                MainReturn::Int => Ok(MainPlan { raises: signature.raises, code: ExitCode::Truncated }),
                MainReturn::Unit => Ok(MainPlan { raises: signature.raises, code: ExitCode::Zero }),
                MainReturn::Other => Err(
                    "`main` returns `"@ + shown + "`, but an entry point must return `Int` or `()`"@,
                ),
            }
        },
    }
}

/// The text of a result whose error is a string.
pub open spec fn plan_text(r: Result<MainPlan, String>) -> Result<MainPlan, Seq<char>> {
    match r {
        Ok(p) => Ok(p),
        Err(e) => Err(e@),
    }
}

/// The C `main` that calls the Khora one: its exit status is the `Int`
/// result, or 0 for `()`; or what the compiler says when the program has no
/// `main` to call, one without a body, one with parameters, or one that
/// returns anything else.
pub fn main_plan(found: Option<MainSignature>, defined: bool, shown: &str) -> (plan: Result<MainPlan, String>)
    ensures
        plan_text(plan) == main_of(found, defined, shown@),
{
    let signature = match found {
        None => {
            proof { reveal_strlit("this program has no `main` function, so there is nothing to run"); }
            return Err(owned("this program has no `main` function, so there is nothing to run"));
        },
        Some(s) => s,
    };
    if !defined {
        proof { reveal_strlit("`main` is declared without a body, so there is nothing to run"); }
        return Err(owned("`main` is declared without a body, so there is nothing to run"));
    }
    if signature.params != 0 {
        proof {
            reveal_strlit("`main` cannot take parameters yet; command-line arguments arrive with the standard library");
        }
        return Err(owned("`main` cannot take parameters yet; command-line arguments arrive with the standard library"));
    }
    match signature.ret {
        MainReturn::Int => Ok(MainPlan { raises: signature.raises, code: ExitCode::Truncated }),
        MainReturn::Unit => Ok(MainPlan { raises: signature.raises, code: ExitCode::Zero }),
        MainReturn::Other => {
            let mut message = owned("`main` returns `");
            message.append(shown);
            message.append("`, but an entry point must return `Int` or `()`");
            Err(message)
        },
    }
}

/// The exit status the emitted `main` gives the process: when the Khora
/// `main` raised under `which` and nothing caught it, 130 (128 + SIGINT,
/// what a shell means by "interrupted") for the runtime's cancellation,
/// `cancelled`, and 1 for any other error; otherwise an `Int` result's low 32
/// bits read signed, or 0.
pub open spec fn exit_status(plan: MainPlan, raised: Option<int>, cancelled: int, result: int) -> int {
    match raised {
        Some(which) => if which == cancelled { 130 } else { 1 },
        None => match plan.code {
            ExitCode::Truncated => read_bits(bits_of(result, 32), 32, true),
            ExitCode::Zero => 0,
        },
    }
}

/// An `Int` result becomes the exit status truncated to 32 bits, as C does:
/// a status is a 32-bit number equal to the result modulo 2^32, the result
/// itself whenever it fits, so a `main` returning 2^32 exits 0.
pub proof fn law_an_int_result_is_the_exit_status_modulo_two_to_the_32(plan: MainPlan, cancelled: int, result: int)
    requires
        plan.code == ExitCode::Truncated,
    ensures
        fits(exit_status(plan, None, cancelled, result), 32, true),
        (exit_status(plan, None, cancelled, result) - result) % 0x1_0000_0000 == 0,
        fits(result, 32, true) ==> exit_status(plan, None, cancelled, result) == result,
        exit_status(plan, None, cancelled, 0x1_0000_0000) == 0,
{
    vstd::arithmetic::power2::lemma2_to64();
    let m: int = 0x1_0000_0000;
    let p: int = result % m;
    vstd::arithmetic::div_mod::lemma_fundamental_div_mod(result, m);
    assert((p - result) % m == 0) by {
        vstd::arithmetic::div_mod::lemma_mod_multiples_basic(-(result / m), m);
        assert(p - result == -(result / m) * m) by (nonlinear_arith)
            requires
                result == m * (result / m) + p,
        ;
    }
    assert((p - m - result) % m == 0) by {
        vstd::arithmetic::div_mod::lemma_mod_multiples_basic(-(result / m) - 1, m);
        assert(p - m - result == (-(result / m) - 1) * m) by (nonlinear_arith)
            requires
                result == m * (result / m) + p,
        ;
    }
    if fits(result, 32, true) {
        if result >= 0 {
            vstd::arithmetic::div_mod::lemma_small_mod(result as nat, m as nat);
        } else {
            vstd::arithmetic::div_mod::lemma_mod_add_multiples_vanish(result, m);
            vstd::arithmetic::div_mod::lemma_small_mod((m + result) as nat, m as nat);
        }
    }
    vstd::arithmetic::div_mod::lemma_mod_self_0(m);
}

/// An uncaught raise exits 130 exactly when it is the runtime's
/// cancellation, and 1 for every other error, whatever `main` returns.
pub proof fn law_an_uncaught_raise_exits_130_or_1(plan: MainPlan, which: int, cancelled: int, result: int)
    ensures
        exit_status(plan, Some(which), cancelled, result) == if which == cancelled { 130int } else { 1int },
{
}

/// A `main` with a body and no parameters is accepted exactly when it
/// returns `Int` or `()`, and the plan keeps what the signature says: it
/// reads a tagged value exactly when `main` can raise, and takes the exit
/// status from the result exactly when that is an `Int`.
pub proof fn law_the_plan_follows_the_signature(signature: MainSignature, shown: Seq<char>)
    requires
        signature.params == 0,
    ensures
        main_of(Some(signature), true, shown) is Ok <==> (signature.ret is Int || signature.ret is Unit),
        main_of(Some(signature), true, shown) matches Ok(plan) ==> plan.raises == signature.raises && (plan.code
            is Truncated <==> signature.ret is Int),
{
}

proof fn lemma_first_of(s: Seq<SpecializationKey>, function: Seq<char>, i: int)
    requires
        0 <= i,
    ensures
        first_of(s, function, i) matches Some(k) ==> i <= k < s.len() && s[k].0 == function && forall|j: int|
            i <= j < k ==> s[j].0 != function,
        first_of(s, function, i) is None ==> forall|j: int| i <= j < s.len() ==> s[j].0 != function,
    decreases s.len() - i,
{
    if i < s.len() {
        lemma_first_of(s, function, i + 1);
    }
}

/// A function's symbol is the symbol of its first specialization, and a
/// function with none has no symbol.
pub proof fn law_a_function_is_called_by_its_first_specialization(s: Seq<SpecializationKey>, function: Seq<char>)
    ensures
        symbol_of(s, function) is None <==> forall|j: int| 0 <= j < s.len() ==> s[j].0 != function,
        symbol_of(s, function) matches Some(x) ==> exists|i: int|
            0 <= i < s.len() && s[i].0 == function && s[i].1 == x && forall|j: int| 0 <= j < i ==> s[j].0 != function,
{
    lemma_first_of(s, function, 0);
    if let Some(k) = first_of(s, function, 0) {
        assert(s[k].0 == function);
    }
}

/// What a program exports to C is exactly its specializations declared
/// `extern` and defined, as name and symbol: an `extern` without a body is
/// an import and is not published.
pub proof fn law_exports_are_the_defined_externs(s: Seq<SpecializationKey>)
    ensures
        exported(s).len() <= s.len(),
        forall|k: int| #![trigger exported(s)[k]] 0 <= k < exported(s).len() ==> exists|i: int|
            #![trigger s[i]] 0 <= i < s.len() && s[i].2 && s[i].3 && exported(s)[k].0 == s[i].0 && exported(s)[k].1 == s[i].1,
        forall|i: int| #![trigger s[i]] 0 <= i < s.len() && s[i].2 && s[i].3 ==> exists|k: int|
            #![trigger exported(s)[k]] 0 <= k < exported(s).len() && exported(s)[k].0 == s[i].0 && exported(s)[k].1 == s[i].1,
    decreases s.len(),
{
    if s.len() > 0 {
        let init = s.drop_last();
        law_exports_are_the_defined_externs(init);
        let e = exported(s);
        let p = exported(init);
        let l = s.last();
        if published(l) {
            assert(e == p + seq![(l.0, l.1)]);
        } else {
            assert(e == p + Seq::<(Seq<char>, Seq<char>)>::empty());
            assert(e =~= p);
        }
        assert forall|k: int| #![trigger e[k]] 0 <= k < e.len() implies exists|i: int|
            #![trigger s[i]] 0 <= i < s.len() && s[i].2 && s[i].3 && e[k].0 == s[i].0 && e[k].1 == s[i].1 by {
            if k < p.len() {
                assert(e[k] == p[k]);
                let i = choose|i: int| #![trigger init[i]] 0 <= i < init.len() && init[i].2 && init[i].3 && p[k].0 == init[i].0 && p[k].1 == init[i].1;
                assert(s[i] == init[i]);
            } else {
                assert(e[k] == (l.0, l.1));
                assert(s[s.len() - 1] == l);
            }
        }
        assert forall|i: int| #![trigger s[i]] 0 <= i < s.len() && s[i].2 && s[i].3 implies exists|k: int|
            #![trigger e[k]] 0 <= k < e.len() && e[k].0 == s[i].0 && e[k].1 == s[i].1 by {
            if i < init.len() {
                assert(s[i] == init[i]);
                let k = choose|k: int| #![trigger p[k]] 0 <= k < p.len() && p[k].0 == init[i].0 && p[k].1 == init[i].1;
                assert(e[k] == p[k]);
            } else {
                assert(e[e.len() - 1] == (l.0, l.1));
            }
        }
    }
}

/// A runner is handed exactly the compiled blocks of the kind it runs —
/// benches for a bench build and tests for any other, never the other kind —
/// each under the symbol of its function's first specialization and with its
/// own name.
pub proof fn law_a_runner_gets_the_blocks_of_its_kind(blocks: Seq<BlockKey>, entry: Entry, s: Seq<SpecializationKey>)
    ensures
        forall|k: int| #![trigger registered(blocks, wanted_kind(entry), s)[k]]
            0 <= k < registered(blocks, wanted_kind(entry), s).len() ==> exists|i: int|
            #![trigger blocks[i]] 0 <= i < blocks.len() && blocks[i].0 == (if entry == Entry::Benches {
                BlockKind::Bench
            } else {
                BlockKind::Test
            }) && symbol_of(s, blocks[i].1) == Some(registered(blocks, wanted_kind(entry), s)[k].0)
                && registered(blocks, wanted_kind(entry), s)[k].1 == blocks[i].2,
        forall|i: int| #![trigger blocks[i]] 0 <= i < blocks.len() && blocks[i].0 == (if entry == Entry::Benches {
            BlockKind::Bench
        } else {
            BlockKind::Test
        }) && symbol_of(s, blocks[i].1) is Some ==> exists|k: int|
            #![trigger registered(blocks, wanted_kind(entry), s)[k]] 0 <= k < registered(blocks, wanted_kind(entry), s).len()
                && registered(blocks, wanted_kind(entry), s)[k].0 == symbol_of(s, blocks[i].1).unwrap()
                && registered(blocks, wanted_kind(entry), s)[k].1 == blocks[i].2,
    decreases blocks.len(),
{
    let kind = wanted_kind(entry);
    if blocks.len() > 0 {
        let init = blocks.drop_last();
        law_a_runner_gets_the_blocks_of_its_kind(init, entry, s);
        let r = registered(blocks, kind, s);
        let p = registered(init, kind, s);
        let b = blocks.last();
        if b.0 == kind && symbol_of(s, b.1) is Some {
            assert(r == p + seq![(symbol_of(s, b.1).unwrap(), b.2)]);
        } else {
            assert(r == p + Seq::<(Seq<char>, Seq<char>)>::empty());
            assert(r =~= p);
        }
        assert forall|k: int| #![trigger r[k]] 0 <= k < r.len() implies exists|i: int|
            #![trigger blocks[i]] 0 <= i < blocks.len() && blocks[i].0 == kind && symbol_of(s, blocks[i].1) == Some(r[k].0)
                && r[k].1 == blocks[i].2 by {
            if k < p.len() {
                assert(r[k] == p[k]);
                let i = choose|i: int| #![trigger init[i]] 0 <= i < init.len() && init[i].0 == kind && symbol_of(s, init[i].1) == Some(p[k].0)
                    && p[k].1 == init[i].2;
                assert(blocks[i] == init[i]);
            } else {
                assert(blocks[blocks.len() - 1] == b);
            }
        }
        assert forall|i: int| #![trigger blocks[i]] 0 <= i < blocks.len() && blocks[i].0 == kind && symbol_of(s, blocks[i].1) is Some
            implies exists|k: int| #![trigger r[k]] 0 <= k < r.len() && r[k].0 == symbol_of(s, blocks[i].1).unwrap() && r[k].1 == blocks[i].2 by {
            if i < init.len() {
                assert(blocks[i] == init[i]);
                let k = choose|k: int| #![trigger p[k]] 0 <= k < p.len() && p[k].0 == symbol_of(s, init[i].1).unwrap() && p[k].1 == init[i].2;
                assert(r[k] == p[k]);
            } else {
                assert(r[r.len() - 1] == (symbol_of(s, b.1).unwrap(), b.2));
            }
        }
    }
}

} // verus!
