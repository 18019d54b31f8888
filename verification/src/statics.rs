//! Values that are one object for the whole program: a string literal, and a
//! constructor with no fields.
//!
//! Both are entirely described by their contents, so every occurrence can be
//! the same object; both carry a reference count so large that `dup` and
//! `drop` need not know a static from a heap object and can never take one
//! to zero.

use vstd::prelude::*;

use crate::text::{owned, same_text};

verus! {

broadcast use vstd::string::group_string_axioms;

/// The reference count a static object starts with: large enough that no
/// program takes it to zero, small enough to leave room above it for the
/// `dup`s a long-running one performs.
pub const IMMORTAL: u64 = 0x100_0000_0000;

/// What a field-less constructor's object is keyed by: its type and its
/// case, because a case name alone is not unique and two types' `None`s
/// sharing an object would make a tag comparison say they matched.
pub open spec fn variant_key(owner: Seq<char>, case: Seq<char>) -> Seq<char> {
    owner + "::"@ + case
}

/// The symbol of a field-less constructor's object.
pub open spec fn variant_symbol(owner: Seq<char>, case: Seq<char>) -> Seq<char> {
    "kh$case$"@ + variant_key(owner, case)
}

/// The key of a field-less constructor's object.
pub fn variant_key_of(owner: &str, case: &str) -> (key: String)
    ensures
        key@ == variant_key(owner@, case@),
{
    let mut key = owned(owner);
    key.append("::");
    key.append(case);
    key
}

/// The symbol of a field-less constructor's object.
pub fn variant_symbol_of(owner: &str, case: &str) -> (symbol: String)
    ensures
        symbol@ == variant_symbol(owner@, case@),
{
    let mut symbol = owned("kh$case$");
    symbol.append(owner);
    symbol.append("::");
    symbol.append(case);
    symbol
}

/// The position of `key` among `keys`, if it is there.
pub open spec fn position_in(keys: Seq<Seq<char>>, key: Seq<char>) -> Option<int>
    decreases keys.len(),
{
    if keys.len() == 0 {
        None
    } else {
        match position_in(keys.drop_last(), key) {
            Some(i) => Some(i),
            None => if keys.last() == key { Some(keys.len() - 1) } else { None },
        }
    }
}

/// The static objects made so far: one per key, in the order first asked for.
pub struct Statics {
    variants: Vec<String>,
    strings: Vec<String>,
}

proof fn lemma_position(keys: Seq<Seq<char>>, key: Seq<char>)
    ensures
        match position_in(keys, key) {
            Some(i) => 0 <= i < keys.len() && keys[i] == key && forall|j: int| 0 <= j < i ==> keys[j] != key,
            None => forall|j: int| 0 <= j < keys.len() ==> keys[j] != key,
        },
    decreases keys.len(),
{
    if keys.len() > 0 {
        let init = keys.drop_last();
        lemma_position(init, key);
        assert forall|j: int| 0 <= j < init.len() implies init[j] == keys[j] by {}
    }
}

/// The object for `key` among the objects made for `keys`: the one made
/// before, or a new one at the end.
fn intern(keys: &mut Vec<String>, key: String) -> (object: usize)
    requires
        old(keys)@.len() < usize::MAX,
    ensures
        position_in(old(keys)@.map_values(|s: String| s@), key@) matches Some(i) ==> (object == i
            && final(keys)@.map_values(|s: String| s@) == old(keys)@.map_values(|s: String| s@)),
        position_in(old(keys)@.map_values(|s: String| s@), key@) is None ==> (object == old(keys)@.len()
            && final(keys)@.map_values(|s: String| s@) == old(keys)@.map_values(|s: String| s@).push(key@)),
        position_in(final(keys)@.map_values(|s: String| s@), key@) == Some(object as int),
{
    let ghost before = keys@.map_values(|s: String| s@);
    proof {
        lemma_position(before, key@);
    }
    let mut i: usize = 0;
    while i < keys.len()
        invariant
            before == keys@.map_values(|s: String| s@),
            i <= keys.len(),
            forall|j: int| 0 <= j < i ==> before[j] != key@,
            match position_in(before, key@) {
                Some(p) => 0 <= p < before.len() && before[p] == key@ && forall|j: int| 0 <= j < p ==> before[j] != key@,
                None => forall|j: int| 0 <= j < before.len() ==> before[j] != key@,
            },
        decreases keys.len() - i,
    {
        if same_text(keys[i].as_str(), key.as_str()) {
            assert(before[i as int] == key@);
            return i;
        }
        i = i + 1;
    }
    let object = keys.len();
    keys.push(key);
    proof {
        let after = keys@.map_values(|s: String| s@);
        assert(after =~= before.push(key@));
        assert(after.drop_last() =~= before);
    }
    object
}

impl Statics {
    /// The keys of the field-less constructors' objects, in order.
    pub closed spec fn variant_keys(&self) -> Seq<Seq<char>> {
        self.variants@.map_values(|s: String| s@)
    }

    /// The texts of the string literals' objects, in order.
    pub closed spec fn string_texts(&self) -> Seq<Seq<char>> {
        self.strings@.map_values(|s: String| s@)
    }

    /// No static objects.
    pub fn new() -> (s: Statics)
        ensures
            s.variant_keys() == Seq::<Seq<char>>::empty(),
            s.string_texts() == Seq::<Seq<char>>::empty(),
    {
        let s = Statics { variants: Vec::new(), strings: Vec::new() };
        assert(s.variant_keys() =~= Seq::<Seq<char>>::empty());
        assert(s.string_texts() =~= Seq::<Seq<char>>::empty());
        s
    }

    /// The one object a field-less constructor ever produces, by its type and
    /// case: made on first use, the same one after.
    pub fn static_variant(&mut self, owner: &str, case: &str) -> (object: usize)
        requires
            old(self).variant_keys().len() < usize::MAX,
        ensures
            position_in(final(self).variant_keys(), variant_key(owner@, case@)) == Some(object as int),
            final(self).string_texts() == old(self).string_texts(),
            position_in(old(self).variant_keys(), variant_key(owner@, case@)) is Some
                ==> final(self).variant_keys() == old(self).variant_keys(),
            position_in(old(self).variant_keys(), variant_key(owner@, case@)) is None
                ==> final(self).variant_keys() == old(self).variant_keys().push(variant_key(owner@, case@)),
    {
        intern(&mut self.variants, variant_key_of(owner, case))
    }

    /// One object per distinct string literal, however many times it is
    /// written.
    pub fn static_string(&mut self, text: &str) -> (object: usize)
        requires
            old(self).string_texts().len() < usize::MAX,
        ensures
            position_in(final(self).string_texts(), text@) == Some(object as int),
            final(self).variant_keys() == old(self).variant_keys(),
            position_in(old(self).string_texts(), text@) is Some ==> final(self).string_texts() == old(self).string_texts(),
            position_in(old(self).string_texts(), text@) is None
                ==> final(self).string_texts() == old(self).string_texts().push(text@),
    {
        intern(&mut self.strings, owned(text))
    }
}

/// Whether a type name holds no colon, as no Khora type name does.
pub open spec fn plain_name(name: Seq<char>) -> bool {
    forall|i: int| 0 <= i < name.len() ==> name[i] != ':'
}

/// Two field-less constructors get one object exactly when they are the same
/// case of the same type: a `None` of one type never shares the object of a
/// `None` of another.
pub proof fn law_one_object_per_type_and_case(keys: Seq<Seq<char>>, a: (Seq<char>, Seq<char>), b: (Seq<char>, Seq<char>))
    requires
        plain_name(a.0),
        plain_name(b.0),
        position_in(keys, variant_key(a.0, a.1)) is Some,
        position_in(keys, variant_key(b.0, b.1)) is Some,
    ensures
        (position_in(keys, variant_key(a.0, a.1)) == position_in(keys, variant_key(b.0, b.1))) == (a == b),
{
    reveal_strlit("::");
    lemma_position(keys, variant_key(a.0, a.1));
    lemma_position(keys, variant_key(b.0, b.1));
    let ka = variant_key(a.0, a.1);
    let kb = variant_key(b.0, b.1);
    if ka == kb && a != b {
        // The first colon of each key ends its type name.
        if a.0.len() < b.0.len() {
            assert(ka[a.0.len() as int] == ':');
            assert(kb[a.0.len() as int] == b.0[a.0.len() as int]);
        } else if b.0.len() < a.0.len() {
            assert(kb[b.0.len() as int] == ':');
            assert(ka[b.0.len() as int] == a.0[b.0.len() as int]);
        } else {
            assert(a.0 =~= ka.subrange(0, a.0.len() as int));
            assert(b.0 =~= kb.subrange(0, b.0.len() as int));
            assert(a.1 =~= ka.subrange(a.0.len() as int + 2, ka.len() as int));
            assert(b.1 =~= kb.subrange(b.0.len() as int + 2, kb.len() as int));
        }
    }
}

} // verus!
