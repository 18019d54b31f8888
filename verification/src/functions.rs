//! Declaring and finding the functions a program needs.
//!
//! Everything is declared before anything is lowered, because mutual
//! recursion means no order exists in which every callee is already defined.
//! A call then finds its callee here, and a name is never declared twice: LLVM
//! quietly renames a second function of the same name, and a call to the
//! renamed one is an undefined symbol at link time with no hint of why.

use vstd::prelude::*;

use crate::text::{owned, same_text};

verus! {

broadcast use vstd::string::group_string_axioms;

/// What the backend knows of the signature a call goes through.
#[derive(Debug)]
pub struct CalleeSignature {
    /// It is declared `extern`: a C symbol found at link time.
    pub is_extern: bool,
    /// Why it cannot cross the C ABI, when it cannot.
    pub obstacle: Option<String>,
    /// Every parameter and the result have a machine type.
    pub representable: bool,
}

/// How a call found its callee.
#[derive(Clone, Copy, PartialEq, Eq, Structural, Debug)]
pub enum Callee {
    /// Declared already: a definition, or a callee found before.
    Known,
    /// The runtime already provides it, with the same machine type.
    Runtime,
    /// Declared now, as an external symbol.
    Declared,
}

/// The names of the functions declared so far, and which of them the
/// program defines.
pub struct FunctionTable {
    declared: Vec<String>,
    defined: Vec<String>,
}

/// The text of some strings.
pub open spec fn texts_of(v: Seq<String>) -> Seq<Seq<char>> {
    v.map_values(|s: String| s@)
}

fn holds(names: &Vec<String>, name: &str) -> (found: bool)
    ensures
        found == texts_of(names@).contains(name@),
{
    let mut i: usize = 0;
    while i < names.len()
        invariant
            i <= names.len(),
            forall|k: int| 0 <= k < i ==> names@[k]@ != name@,
        decreases names.len() - i,
    {
        if same_text(names[i].as_str(), name) {
            assert(texts_of(names@)[i as int] == name@);
            return true;
        }
        i = i + 1;
    }
    assert forall|k: int| 0 <= k < texts_of(names@).len() implies texts_of(names@)[k] != name@ by {
        assert(names@[k]@ != name@);
    }
    false
}

/// What the compiler says of a definition with a type the backend has no
/// machine type for.
pub open spec fn unrepresentable_definition(name: Seq<char>) -> Seq<char> {
    "`"@ + name + "` cannot be compiled: every parameter and the return type need a type the backend knows (`Int`, `Bool`, `String`, `()` or an ADT)"@
}

/// Why a call finds no callee: `own` is the signature a Khora definition of
/// the name has, `foreign` the one a C symbol of the name is called through,
/// `existing` whether the runtime already provides the name and, if so,
/// whether with the same machine type.
pub open spec fn callee_error(
    name: Seq<char>,
    defined: bool,
    own: Option<(bool, Option<Seq<char>>, bool)>,
    foreign: Option<(bool, Option<Seq<char>>, bool)>,
    existing: Option<bool>,
) -> Option<Seq<char>> {
    let signature = if defined { own } else { foreign };
    match signature {
        None => Some("`"@ + name + "` has no signature to call through"@),
        Some(s) => if !defined && !s.0 {
            Some("`"@ + name + "` has no body, so there is nothing to call. Give it one, or write `extern fn` if it is a C symbol to be found at link time"@)
        } else if !defined && s.1 is Some {
            Some("`"@ + name + "` is `extern`, so it crosses the C ABI, and "@ + s.1.unwrap()
                + ". Only scalars and pointers cross \u{2014} `docs/design/ffi.md`"@)
        } else if !s.2 {
            Some("`"@ + name + "` has a parameter or return type the backend cannot represent yet; phase 2 handles `Int`, `Bool`, `String`, `()` and ADTs"@)
        } else if existing == Some(false) {
            Some("`"@ + name + "` is already provided by the runtime with a different signature; declaring it here would silently call something else"@)
        } else {
            None
        },
    }
}

/// A signature, as text.
pub open spec fn signature_text(s: Option<&CalleeSignature>) -> Option<(bool, Option<Seq<char>>, bool)> {
    match s {
        Some(s) => Some((s.is_extern, match s.obstacle {
            Some(o) => Some(o@),
            None => None,
        }, s.representable)),
        None => None,
    }
}

fn quoted(name: &str, rest: &str) -> (message: String)
    ensures
        message@ == "`"@ + name@ + rest@,
{
    let mut message = owned("`");
    message.append(name);
    message.append(rest);
    message
}

impl FunctionTable {
    /// The names declared so far.
    pub closed spec fn declared_names(&self) -> Set<Seq<char>> {
        texts_of(self.declared@).to_set()
    }

    /// The names the program defines.
    pub closed spec fn defined_names(&self) -> Set<Seq<char>> {
        texts_of(self.defined@).to_set()
    }

    /// Every definition is declared.
    pub open spec fn wf(&self) -> bool {
        self.defined_names().subset_of(self.declared_names())
    }

    /// Nothing declared.
    pub fn new() -> (t: FunctionTable)
        ensures
            t.wf(),
            t.declared_names() == Set::<Seq<char>>::empty(),
            t.defined_names() == Set::<Seq<char>>::empty(),
    {
        let t = FunctionTable { declared: Vec::new(), defined: Vec::new() };
        assert(texts_of(t.declared@) =~= Seq::<Seq<char>>::empty());
        assert(t.declared_names() =~= Set::<Seq<char>>::empty());
        assert(t.defined_names() =~= Set::<Seq<char>>::empty());
        t
    }

    /// Whether the program defines `name`, as opposed to only declaring it.
    pub fn is_defined(&self, name: &str) -> (b: bool)
        ensures
            b == self.defined_names().contains(name@),
    {
        let b = holds(&self.defined, name);
        proof {
            if b {
                assert(texts_of(self.defined@).to_set().contains(name@));
            } else {
                assert(!texts_of(self.defined@).to_set().contains(name@));
            }
        }
        b
    }

    /// Whether `name` has been declared, as a definition or as a callee.
    pub fn is_declared(&self, name: &str) -> (b: bool)
        ensures
            b == self.declared_names().contains(name@),
    {
        holds(&self.declared, name)
    }

    /// Declares a function the program defines. A name with no signature is
    /// passed over; one whose signature has a type the backend has no machine
    /// type for is an error.
    pub fn declare_definition(&mut self, name: &str, signature: Option<bool>) -> (r: Result<(), String>)
        requires
            old(self).wf(),
        ensures
            final(self).wf(),
            signature == Some(false) <==> r is Err,
            r matches Err(m) ==> m@ == unrepresentable_definition(name@),
            signature == Some(true) ==> final(self).declared_names() == old(self).declared_names().insert(name@)
                && final(self).defined_names() == old(self).defined_names().insert(name@),
            signature != Some(true) ==> final(self).declared_names() == old(self).declared_names()
                && final(self).defined_names() == old(self).defined_names(),
    {
        match signature {
            None => Ok(()),
            Some(false) => Err(quoted(
                name,
                "` cannot be compiled: every parameter and the return type need a type the backend knows (`Int`, `Bool`, `String`, `()` or an ADT)",
            )),
            Some(true) => {
                let ghost declared = texts_of(self.declared@);
                let ghost defined = texts_of(self.defined@);
                self.declared.push(owned(name));
                self.defined.push(owned(name));
                proof {
                    assert(texts_of(self.declared@) =~= declared.push(name@));
                    assert(texts_of(self.defined@) =~= defined.push(name@));
                    declared.lemma_push_to_set_commute(name@);
                    defined.lemma_push_to_set_commute(name@);
                }
                Ok(())
            },
        }
    }

    /// The callee of a call to `name`.
    ///
    /// One already declared is found. Otherwise it is a C symbol: the call
    /// goes through `foreign`, the signature a name no body defines is
    /// called through, or `own` for a definition. A declaration with no body
    /// that is not `extern` is somebody's unwritten function, not a symbol to
    /// call; an `extern` one must have a signature that can cross the C ABI;
    /// every one needs machine types; and a name the runtime already provides
    /// (`existing`) must have the same machine type there, or the call would
    /// silently go somewhere else.
    pub fn callee(
        &mut self,
        name: &str,
        own: Option<&CalleeSignature>,
        foreign: Option<&CalleeSignature>,
        existing: Option<bool>,
    ) -> (r: Result<Callee, String>)
        requires
            old(self).wf(),
        ensures
            final(self).wf(),
            final(self).defined_names() == old(self).defined_names(),
            old(self).declared_names().contains(name@) ==> r == Ok::<Callee, String>(Callee::Known)
                && final(self).declared_names() == old(self).declared_names(),
            !old(self).declared_names().contains(name@) ==> match r {
                Ok(c) => callee_error(name@, old(self).defined_names().contains(name@), signature_text(own),
                    signature_text(foreign), existing) is None
                    && c == (if existing is Some { Callee::Runtime } else { Callee::Declared })
                    && final(self).declared_names() == old(self).declared_names().insert(name@),
                Err(m) => callee_error(name@, old(self).defined_names().contains(name@), signature_text(own),
                    signature_text(foreign), existing) == Some(m@)
                    && final(self).declared_names() == old(self).declared_names(),
            },
    {
        if self.is_declared(name) {
            return Ok(Callee::Known);
        }
        let defined = self.is_defined(name);
        let signature = if defined { own } else { foreign };
        let s = match signature {
            None => return Err(quoted(name, "` has no signature to call through")),
            Some(s) => s,
        };
        if !defined {
            if !s.is_extern {
                return Err(quoted(
                    name,
                    "` has no body, so there is nothing to call. Give it one, or write `extern fn` if it is a C symbol to be found at link time",
                ));
            }
            if let Some(why) = &s.obstacle {
                let mut message = quoted(name, "` is `extern`, so it crosses the C ABI, and ");
                message.append(why.as_str());
                message.append(". Only scalars and pointers cross \u{2014} `docs/design/ffi.md`");
                return Err(message);
            }
        }
        if !s.representable {
            return Err(quoted(
                name,
                "` has a parameter or return type the backend cannot represent yet; phase 2 handles `Int`, `Bool`, `String`, `()` and ADTs",
            ));
        }
        let found = match existing {
            Some(true) => Callee::Runtime,
            Some(false) => {
                return Err(quoted(
                    name,
                    "` is already provided by the runtime with a different signature; declaring it here would silently call something else",
                ));
            },
            None => Callee::Declared,
        };
        let ghost declared = texts_of(self.declared@);
        self.declared.push(owned(name));
        proof {
            assert(texts_of(self.declared@) =~= declared.push(name@));
            declared.lemma_push_to_set_commute(name@);
        }
        Ok(found)
    }

    /// Whether `name` has a definition to give a body to.
    pub fn definition(&self, name: &str) -> (found: bool)
        ensures
            found == self.defined_names().contains(name@),
    {
        self.is_defined(name)
    }
}

/// The value last registered under `name`, if any.
pub open spec fn last_value<S>(entries: Seq<(Seq<char>, S)>, name: Seq<char>) -> Option<S>
    decreases entries.len(),
{
    if entries.len() == 0 {
        None
    } else if entries.last().0 == name {
        Some(entries.last().1)
    } else {
        last_value(entries.drop_last(), name)
    }
}

/// What an optional reference refers to.
pub open spec fn referent<S>(r: Option<&S>) -> Option<S> {
    match r {
        Some(x) => Some(*x),
        None => None,
    }
}

/// The signatures calls are compiled against, by name.
///
/// A specialization is registered under its mangled symbol with its type
/// arguments already substituted; a plain function is declared under its own
/// name; and every `extern fn` is kept apart under the C symbol it names,
/// because a Khora `close` and POSIX's `close` never shared a namespace.
pub struct SignatureTable<S> {
    instances: Vec<(String, S)>,
    declared: Vec<(String, S)>,
    foreign: Vec<(String, S)>,
}

fn find_last<'a, S>(entries: &'a Vec<(String, S)>, name: &str) -> (r: Option<&'a S>)
    ensures
        referent(r) == last_value(entries@.map_values(|e: (String, S)| (e.0@, e.1)), name@),
{
    let ghost view = entries@.map_values(|e: (String, S)| (e.0@, e.1));
    let mut i: usize = entries.len();
    assert(view.subrange(0, i as int) =~= view);
    while i > 0
        invariant
            view == entries@.map_values(|e: (String, S)| (e.0@, e.1)),
            i <= entries.len(),
            last_value(view, name@) == last_value(view.subrange(0, i as int), name@),
        decreases i,
    {
        proof {
            assert(view.subrange(0, i as int).drop_last() =~= view.subrange(0, i - 1));
            assert(view.subrange(0, i as int).last() == view[i - 1]);
        }
        if same_text(entries[i - 1].0.as_str(), name) {
            return Some(&entries[i - 1].1);
        }
        i = i - 1;
    }
    None
}

impl<S> SignatureTable<S> {
    /// The signatures of specializations, by symbol, in registration order.
    pub closed spec fn instance_entries(&self) -> Seq<(Seq<char>, S)> {
        self.instances@.map_values(|e: (String, S)| (e.0@, e.1))
    }

    /// The signatures of plain functions, by name.
    pub closed spec fn declared_entries(&self) -> Seq<(Seq<char>, S)> {
        self.declared@.map_values(|e: (String, S)| (e.0@, e.1))
    }

    /// The signatures of `extern fn`s, by C symbol.
    pub closed spec fn foreign_entries(&self) -> Seq<(Seq<char>, S)> {
        self.foreign@.map_values(|e: (String, S)| (e.0@, e.1))
    }

    /// The signature a name is compiled against: a specialization's, else a
    /// plain function's.
    pub open spec fn spec_signature_of(&self, name: Seq<char>) -> Option<S> {
        match last_value(self.instance_entries(), name) {
            Some(s) => Some(s),
            None => last_value(self.declared_entries(), name),
        }
    }

    /// No signatures.
    pub fn new() -> (t: SignatureTable<S>)
        ensures
            t.instance_entries() == Seq::<(Seq<char>, S)>::empty(),
            t.declared_entries() == Seq::<(Seq<char>, S)>::empty(),
            t.foreign_entries() == Seq::<(Seq<char>, S)>::empty(),
    {
        let t = SignatureTable { instances: Vec::new(), declared: Vec::new(), foreign: Vec::new() };
        assert(t.instance_entries() =~= Seq::<(Seq<char>, S)>::empty());
        assert(t.declared_entries() =~= Seq::<(Seq<char>, S)>::empty());
        assert(t.foreign_entries() =~= Seq::<(Seq<char>, S)>::empty());
        t
    }

    /// Registers a specialization's signature under its symbol, replacing
    /// any earlier one.
    pub fn register_instance(&mut self, symbol: &str, signature: S)
        ensures
            final(self).instance_entries() == old(self).instance_entries().push((symbol@, signature)),
            final(self).declared_entries() == old(self).declared_entries(),
            final(self).foreign_entries() == old(self).foreign_entries(),
    {
        self.instances.push((owned(symbol), signature));
        assert(self.instance_entries() =~= old(self).instance_entries().push((symbol@, signature)));
    }

    /// Registers an `extern fn`'s signature under the C symbol it names,
    /// replacing any earlier one.
    pub fn register_foreign(&mut self, symbol: &str, signature: S)
        ensures
            final(self).foreign_entries() == old(self).foreign_entries().push((symbol@, signature)),
            final(self).instance_entries() == old(self).instance_entries(),
            final(self).declared_entries() == old(self).declared_entries(),
    {
        self.foreign.push((owned(symbol), signature));
        assert(self.foreign_entries() =~= old(self).foreign_entries().push((symbol@, signature)));
    }

    /// Declares a plain function's signature under its name. Each file's
    /// view repeats what it imported, so the first declaration of a name is
    /// kept and a later one is passed over.
    pub fn declare(&mut self, name: &str, signature: S)
        ensures
            final(self).declared_entries() == if last_value(old(self).declared_entries(), name@) is Some {
                old(self).declared_entries()
            } else {
                old(self).declared_entries().push((name@, signature))
            },
            final(self).instance_entries() == old(self).instance_entries(),
            final(self).foreign_entries() == old(self).foreign_entries(),
    {
        if find_last(&self.declared, name).is_none() {
            self.declared.push((owned(name), signature));
            assert(self.declared_entries() =~= old(self).declared_entries().push((name@, signature)));
        }
    }

    /// The signature to compile `name` against: a specialization's, with its
    /// type arguments substituted, and otherwise a plain function's under its
    /// own name.
    pub fn signature_of(&self, name: &str) -> (found: Option<&S>)
        ensures
            referent(found) == self.spec_signature_of(name@),
    {
        match find_last(&self.instances, name) {
            Some(s) => Some(s),
            None => find_last(&self.declared, name),
        }
    }

    /// The signature to call `name` through when nothing in Khora defines it:
    /// the C symbol's, even when a Khora function of the same spelling exists
    /// somewhere in the program, and otherwise the ordinary one.
    pub fn foreign_signature_of(&self, name: &str) -> (found: Option<&S>)
        ensures
            referent(found) == match last_value(self.foreign_entries(), name@) {
                Some(s) => Some(s),
                None => self.spec_signature_of(name@),
            },
    {
        match find_last(&self.foreign, name) {
            Some(s) => Some(s),
            None => self.signature_of(name),
        }
    }
}

/// What a registration gives back: the signature last registered under a
/// symbol is the one it is compiled against, and registering under one
/// symbol leaves every other symbol's signature as it was.
pub proof fn law_a_registered_signature_is_found<S>(
    entries: Seq<(Seq<char>, S)>,
    symbol: Seq<char>,
    signature: S,
    other: Seq<char>,
)
    ensures
        last_value(entries.push((symbol, signature)), symbol) == Some(signature),
        other != symbol ==> last_value(entries.push((symbol, signature)), other) == last_value(entries, other),
{
    assert(entries.push((symbol, signature)).drop_last() =~= entries);
}

} // verus!
