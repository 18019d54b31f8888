//! The program's enum variants, and the tags they are given.
//!
//! **A variant's tag is its index in its own type's variant list**, in
//! declaration order: it is what a `match` switches on and what a constructor
//! stores. So the list must hold each declaration once — counting
//! `Option::Some` twice would renumber `None` — and a lookup must answer with
//! one type's list, never two types that share a name.

use vstd::prelude::*;

use crate::text::same_text;

verus! {

broadcast use vstd::string::group_string_axioms;

/// One variant of one declared type.
#[derive(Debug)]
pub struct VariantInfo {
    /// The type it belongs to.
    pub owner: String,
    /// Its own name.
    pub name: String,
    /// The module that declared the type, when known.
    pub home: Option<String>,
}

/// The text of an optional string.
pub open spec fn opt_text(s: Option<String>) -> Option<Seq<char>> {
    match s {
        Some(t) => Some(t@),
        None => None,
    }
}

/// What identifies a variant's declaration: its type, its name, its home.
pub type VariantKey = (Seq<char>, Seq<char>, Option<Seq<char>>);

/// A variant's declaration, as text.
pub open spec fn key(v: VariantInfo) -> VariantKey {
    (v.owner@, v.name@, opt_text(v.home))
}

/// The declarations of a list of variants.
pub open spec fn keys(vs: Seq<VariantInfo>) -> Seq<VariantKey> {
    vs.map_values(|v: VariantInfo| key(v))
}

fn copy_text(s: &String) -> (c: String)
    ensures
        c@ == s@,
{
    s.clone()
}

fn same_home(a: &Option<String>, b: &Option<String>) -> (same: bool)
    ensures
        same == (opt_text(*a) == opt_text(*b)),
{
    match (a, b) {
        (Some(x), Some(y)) => same_text(x.as_str(), y.as_str()),
        (None, None) => true,
        _ => false,
    }
}

impl VariantInfo {
    /// A copy of this variant.
    pub fn duplicate(&self) -> (c: VariantInfo)
        ensures
            key(c) == key(*self),
    {
        VariantInfo {
            owner: copy_text(&self.owner),
            name: copy_text(&self.name),
            home: match &self.home {
                Some(h) => Some(copy_text(h)),
                None => None,
            },
        }
    }
}

// ---------------------------------------------------------------------------
// Merging every file's variants
// ---------------------------------------------------------------------------

/// Each declaration once, in order of first appearance.
pub open spec fn merged(s: Seq<VariantKey>) -> Seq<VariantKey>
    decreases s.len(),
{
    if s.len() == 0 {
        Seq::empty()
    } else {
        let m = merged(s.drop_last());
        if m.contains(s.last()) { m } else { m.push(s.last()) }
    }
}

/// Every file's declarations, one file after another.
pub open spec fn all_keys(files: Seq<Vec<VariantInfo>>) -> Seq<VariantKey>
    decreases files.len(),
{
    if files.len() == 0 {
        Seq::empty()
    } else {
        all_keys(files.drop_last()) + keys(files.last()@)
    }
}

/// Every file's variants in one list, each declaration once. Keyed by the
/// declaration rather than the spelling: two modules may each declare a
/// `Point`, and both are kept.
pub fn merge_variants(files: &Vec<Vec<VariantInfo>>) -> (out: Vec<VariantInfo>)
    ensures
        keys(out@) == merged(all_keys(files@)),
{
    let mut out: Vec<VariantInfo> = Vec::new();
    let mut f: usize = 0;
    while f < files.len()
        invariant
            f <= files.len(),
            keys(out@) == merged(all_keys(files@.subrange(0, f as int))),
        decreases files.len() - f,
    {
        let file = &files[f];
        let ghost done = all_keys(files@.subrange(0, f as int));
        proof {
            assert(files@.subrange(0, f as int + 1).drop_last() =~= files@.subrange(0, f as int));
            assert(all_keys(files@.subrange(0, f as int + 1)) == done + keys(file@));
        }
        let mut i: usize = 0;
        while i < file.len()
            invariant
                i <= file.len(),
                keys(out@) == merged(done + keys(file@.subrange(0, i as int))),
            decreases file.len() - i,
        {
            let v = &file[i];
            let ghost before = done + keys(file@.subrange(0, i as int));
            proof {
                assert((done + keys(file@.subrange(0, i as int + 1))).drop_last() =~= before);
                assert((done + keys(file@.subrange(0, i as int + 1))).last() == key(*v));
            }
            let mut seen = false;
            let mut j: usize = 0;
            while j < out.len()
                invariant
                    j <= out.len(),
                    !seen ==> forall|k: int| 0 <= k < j ==> key(#[trigger] out@[k]) != key(*v),
                    seen ==> keys(out@).contains(key(*v)),
                decreases out.len() - j,
            {
                let w = &out[j];
                if same_text(w.owner.as_str(), v.owner.as_str()) && same_text(w.name.as_str(), v.name.as_str())
                    && same_home(&w.home, &v.home) {
                    assert(keys(out@)[j as int] == key(*v));
                    seen = true;
                }
                j = j + 1;
            }
            if !seen {
                proof {
                    assert forall|k: int| 0 <= k < keys(out@).len() implies keys(out@)[k] != key(*v) by {
                        assert(keys(out@)[k] == key(out@[k]));
                    }
                }
                let ghost prev = out@;
                out.push(v.duplicate());
                assert(keys(out@) =~= keys(prev).push(key(*v)));
            }
            i = i + 1;
        }
        assert(file@.subrange(0, file.len() as int) =~= file@);
        f = f + 1;
    }
    assert(files@.subrange(0, files.len() as int) =~= files@);
    out
}

/// No declaration is listed twice.
pub open spec fn distinct(s: Seq<VariantKey>) -> bool {
    forall|i: int, j: int| 0 <= i < j < s.len() ==> s[i] != s[j]
}

/// Merging lists each declaration once, and lists exactly the declarations
/// it was given.
pub proof fn law_merged_lists_each_declaration_once(s: Seq<VariantKey>)
    ensures
        distinct(merged(s)),
        forall|k: VariantKey| merged(s).contains(k) <==> s.contains(k),
    decreases s.len(),
{
    if s.len() > 0 {
        let a = s.drop_last();
        law_merged_lists_each_declaration_once(a);
        assert forall|k: VariantKey| s.contains(k) <==> (a.contains(k) || k == s.last()) by {
            if s.contains(k) {
                let i = choose|i: int| 0 <= i < s.len() && s[i] == k;
                if i < a.len() {
                    assert(a[i] == k);
                }
            }
            if a.contains(k) {
                let i = choose|i: int| 0 <= i < a.len() && a[i] == k;
                assert(s[i] == k);
            }
            if k == s.last() {
                assert(s[s.len() - 1] == k);
            }
        }
        let m = merged(a);
        if !m.contains(s.last()) {
            let n = m.push(s.last());
            assert forall|i: int, j: int| 0 <= i < j < n.len() implies n[i] != n[j] by {
                if j == n.len() - 1 {
                    assert(n[i] == m[i]);
                }
            }
            assert forall|k: VariantKey| n.contains(k) <==> (m.contains(k) || k == s.last()) by {
                if n.contains(k) {
                    let i = choose|i: int| 0 <= i < n.len() && n[i] == k;
                    if i < m.len() {
                        assert(m[i] == k);
                    }
                }
                if m.contains(k) {
                    let i = choose|i: int| 0 <= i < m.len() && m[i] == k;
                    assert(n[i] == k);
                }
                if k == s.last() {
                    assert(n[n.len() - 1] == k);
                }
            }
        }
    }
}

/// Merging more declarations never moves one already merged: the list
/// merged so far is a prefix of the list merged after, so no tag changes.
pub proof fn law_merging_more_renumbers_nothing(s: Seq<VariantKey>, t: Seq<VariantKey>)
    ensures
        merged(s).len() <= merged(s + t).len(),
        merged(s + t).subrange(0, merged(s).len() as int) == merged(s),
    decreases t.len(),
{
    if t.len() == 0 {
        assert(s + t =~= s);
    } else {
        let u = t.drop_last();
        law_merging_more_renumbers_nothing(s, u);
        assert((s + t).drop_last() =~= s + u);
        let m = merged(s + u);
        assert(m.subrange(0, merged(s).len() as int) == merged(s));
        if !m.contains((s + t).last()) {
            assert(m.push((s + t).last()).subrange(0, merged(s).len() as int) =~= m.subrange(
                0,
                merged(s).len() as int,
            ));
        }
    }
}

// ---------------------------------------------------------------------------
// Looking variants up
// ---------------------------------------------------------------------------

/// The variants of every type spelled `owner`, in order.
pub open spec fn of_type(vs: Seq<VariantKey>, owner: Seq<char>) -> Seq<VariantKey> {
    vs.filter(|v: VariantKey| v.0 == owner)
}

/// The variants declared in `home`.
pub open spec fn at_home(vs: Seq<VariantKey>, home: Option<Seq<char>>) -> Seq<VariantKey> {
    vs.filter(|v: VariantKey| v.2 == home)
}

/// Whether the type declared in the home of `m[i]` has a variant `case`.
pub open spec fn home_has_case(m: Seq<VariantKey>, i: int, case: Seq<char>) -> bool {
    exists|j: int| 0 <= j < m.len() && m[j].2 == m[i].2 && m[j].1 == case
}

/// The first position, from `i` on, whose type has a variant `case`.
pub open spec fn first_with_case(m: Seq<VariantKey>, case: Seq<char>, i: int) -> Option<int>
    decreases m.len() - i,
{
    if i < 0 || i >= m.len() {
        None
    } else if home_has_case(m, i, case) {
        Some(i)
    } else {
        first_with_case(m, case, i + 1)
    }
}

/// The home whose type is meant, among types sharing a spelling, when no
/// home was given: the first type, in order of appearance, with a variant
/// `case`, and failing that the first type.
pub open spec fn chosen_home(m: Seq<VariantKey>, case: Option<Seq<char>>) -> Option<Seq<char>> {
    let first = match case {
        Some(c) => match first_with_case(m, c, 0) {
            Some(i) => i,
            None => 0,
        },
        None => 0,
    };
    m[first].2
}

/// The variants of one type, in declaration order: the type spelled
/// `owner` in `home`, or, with no home, the one [`chosen_home`] picks.
pub open spec fn variants_named_spec(
    vs: Seq<VariantKey>,
    home: Option<Seq<char>>,
    owner: Seq<char>,
    case: Option<Seq<char>>,
) -> Seq<VariantKey> {
    let m = of_type(vs, owner);
    match home {
        Some(h) => at_home(m, Some(h)),
        None => if m.len() == 0 { Seq::empty() } else { at_home(m, chosen_home(m, case)) },
    }
}

/// A lookup answers with one type's variants, never two types that share a
/// spelling: every variant it gives is of the type spelled `owner`, all were
/// declared in one home, and, when a home is given, in that one.
pub proof fn law_a_lookup_answers_with_one_type(
    vs: Seq<VariantKey>,
    home: Option<Seq<char>>,
    owner: Seq<char>,
    case: Option<Seq<char>>,
)
    ensures
        forall|i: int| 0 <= i < variants_named_spec(vs, home, owner, case).len()
            ==> (#[trigger] variants_named_spec(vs, home, owner, case)[i]).0 == owner,
        forall|i: int, j: int| 0 <= i < variants_named_spec(vs, home, owner, case).len()
            && 0 <= j < variants_named_spec(vs, home, owner, case).len()
            ==> (#[trigger] variants_named_spec(vs, home, owner, case)[i]).2
                == (#[trigger] variants_named_spec(vs, home, owner, case)[j]).2,
        home is Some ==> forall|i: int| 0 <= i < variants_named_spec(vs, home, owner, case).len()
            ==> (#[trigger] variants_named_spec(vs, home, owner, case)[i]).2 == home,
{
    broadcast use {vstd::seq_lib::group_filter_ensures, Seq::lemma_filter_contains_rev};

    let m = of_type(vs, owner);
    let r = variants_named_spec(vs, home, owner, case);
    let wanted = match home {
        Some(h) => Some(h),
        None => if m.len() == 0 { None } else { chosen_home(m, case) },
    };
    assert forall|i: int| 0 <= i < r.len() implies r[i].0 == owner && r[i].2 == wanted by {
        if home is Some || m.len() > 0 {
            assert(r == at_home(m, wanted));
            assert(r.contains(r[i]));
            let k: int = choose|k: int| 0 <= k < m.len() && m[k] == r[i];
            assert(m[k].0 == owner);
        }
    }
}

/// The variants the backend knows, merged from every file.
pub struct VariantTable {
    pub variants: Vec<VariantInfo>,
}

/// The text of an optional string slice.
pub open spec fn opt_str(s: Option<&str>) -> Option<Seq<char>> {
    match s {
        Some(t) => Some(t@),
        None => None,
    }
}

/// The first index, from `i` on, of a variant named `case`.
pub open spec fn position_from(vs: Seq<VariantKey>, case: Seq<char>, i: int) -> Option<int>
    decreases vs.len() - i,
{
    if i < 0 || i >= vs.len() {
        None
    } else if vs[i].1 == case {
        Some(i)
    } else {
        position_from(vs, case, i + 1)
    }
}

/// The first index of a variant named `case`, if any.
pub open spec fn position_of(vs: Seq<VariantKey>, case: Seq<char>) -> Option<int> {
    position_from(vs, case, 0)
}

/// `found` is what a lookup of `case` in `vs` gives: the first variant of
/// that name, with its index as its tag, or nothing when there is none.
pub open spec fn looked_up(vs: Seq<VariantKey>, case: Seq<char>, found: Option<(u32, VariantInfo)>) -> bool {
    match found {
        Some(f) => {
            &&& position_of(vs, case) is Some
            &&& f.0 == position_of(vs, case).unwrap() as u32
            &&& key(f.1) == vs[position_of(vs, case).unwrap()]
        },
        None => position_of(vs, case) is None,
    }
}

fn filter_home(m: &Vec<VariantInfo>, home: &Option<String>) -> (out: Vec<VariantInfo>)
    ensures
        keys(out@) == at_home(keys(m@), opt_text(*home)),
{
    let mut out: Vec<VariantInfo> = Vec::new();
    let mut i: usize = 0;
    while i < m.len()
        invariant
            i <= m.len(),
            keys(out@) == at_home(keys(m@.subrange(0, i as int)), opt_text(*home)),
        decreases m.len() - i,
    {
        let ghost prev = out@;
        proof {
            assert(keys(m@.subrange(0, i as int + 1)).drop_last() =~= keys(m@.subrange(0, i as int)));
            assert(keys(m@.subrange(0, i as int + 1)).last() == key(m@[i as int]));
            reveal_with_fuel(Seq::filter, 1);
        }
        if same_home(&m[i].home, home) {
            out.push(m[i].duplicate());
            assert(keys(out@) =~= keys(prev).push(key(m@[i as int])));
        }
        i = i + 1;
    }
    assert(m@.subrange(0, m.len() as int) =~= m@);
    out
}

fn make_home(home: Option<&str>) -> (h: Option<String>)
    ensures
        opt_text(h) == opt_str(home),
{
    match home {
        Some(t) => Some(String::from_str(t)),
        None => None,
    }
}

impl VariantTable {
    /// The declarations the table holds.
    pub open spec fn keys(&self) -> Seq<VariantKey> {
        keys(self.variants@)
    }

    /// The variants of every type spelled `owner`, in order.
    fn of_type(&self, owner: &str) -> (out: Vec<VariantInfo>)
        ensures
            keys(out@) == of_type(self.keys(), owner@),
    {
        let mut out: Vec<VariantInfo> = Vec::new();
        let mut i: usize = 0;
        while i < self.variants.len()
            invariant
                i <= self.variants.len(),
                keys(out@) == of_type(keys(self.variants@.subrange(0, i as int)), owner@),
            decreases self.variants.len() - i,
        {
            let ghost prev = out@;
            proof {
                assert(keys(self.variants@.subrange(0, i as int + 1)).drop_last() =~= keys(self.variants@.subrange(0, i as int)));
                assert(keys(self.variants@.subrange(0, i as int + 1)).last() == key(self.variants@[i as int]));
                reveal_with_fuel(Seq::filter, 1);
            }
            if same_text(self.variants[i].owner.as_str(), owner) {
                out.push(self.variants[i].duplicate());
                assert(keys(out@) =~= keys(prev).push(key(self.variants@[i as int])));
            }
            i = i + 1;
        }
        assert(self.variants@.subrange(0, self.variants.len() as int) =~= self.variants@);
        out
    }

    /// The variants of one type, never two: the type spelled `owner` in
    /// `home`; with no home, the first type of that spelling with a variant
    /// `case`, and failing that the first.
    pub fn variants_named(&self, home: Option<&str>, owner: &str, case: Option<&str>) -> (out: Vec<VariantInfo>)
        ensures
            keys(out@) == variants_named_spec(self.keys(), opt_str(home), owner@, opt_str(case)),
    {
        let m = self.of_type(owner);
        let ghost mk = keys(m@);
        if home.is_some() {
            return filter_home(&m, &make_home(home));
        }
        if m.len() == 0 {
            return Vec::new();
        }
        let mut first: usize = 0;
        if let Some(c) = case {
            // The first type, in order of appearance, with a variant `c`.
            let mut i: usize = 0;
            let mut found = false;
            while i < m.len() && !found
                invariant
                    mk == keys(m@),
                    i <= m.len(),
                    found ==> (i >= 1 && first == i - 1 && first_with_case(mk, c@, 0) == Some(first as int)),
                    !found ==> first_with_case(mk, c@, 0) == first_with_case(mk, c@, i as int),
                    !found ==> first == 0,
                decreases m.len() - i + if found { 0int } else { 1int },
            {
                let mut j: usize = 0;
                let mut holds_case = false;
                while j < m.len()
                    invariant
                        mk == keys(m@),
                        i < m.len(),
                        j <= m.len(),
                        holds_case ==> home_has_case(mk, i as int, c@),
                        !holds_case ==> forall|k: int| 0 <= k < j ==> !(mk[k].2 == mk[i as int].2 && mk[k].1 == c@),
                    decreases m.len() - j,
                {
                    if same_home(&m[j].home, &m[i].home) && same_text(m[j].name.as_str(), c) {
                        assert(mk[j as int].2 == mk[i as int].2 && mk[j as int].1 == c@);
                        holds_case = true;
                    }
                    j = j + 1;
                }
                if holds_case {
                    first = i;
                    found = true;
                }
                i = i + 1;
            }
            proof {
                if !found {
                    assert(first_with_case(mk, c@, i as int) == None::<int>);
                }
            }
        }
        let chosen = match &m[first].home {
            Some(h) => Some(copy_text(h)),
            None => None,
        };
        assert(opt_text(chosen) == chosen_home(mk, opt_str(case)));
        filter_home(&m, &chosen)
    }

    /// The variants of a type, in declaration order: one type's, even when
    /// no home is given.
    pub fn variants_in(&self, home: Option<&str>, owner: &str) -> (out: Vec<VariantInfo>)
        ensures
            keys(out@) == variants_named_spec(self.keys(), opt_str(home), owner@, None),
    {
        self.variants_named(home, owner, None)
    }

    /// A constructor's tag and declaration, found by its type's home and
    /// name and its own name. The tag is its index in that one type's list.
    pub fn variant_in(&self, home: Option<&str>, owner: &str, case: &str) -> (found: Option<(u32, VariantInfo)>)
        ensures
            looked_up(variants_named_spec(self.keys(), opt_str(home), owner@, Some(case@)), case@, found),
    {
        let variants = self.variants_named(home, owner, Some(case));
        let ghost vs = keys(variants@);
        assert(opt_str(Some(case)) == Some(case@));
        assert(vs == variants_named_spec(self.keys(), opt_str(home), owner@, Some(case@)));
        let mut i: usize = 0;
        while i < variants.len()
            invariant
                vs == keys(variants@),
                vs == variants_named_spec(self.keys(), opt_str(home), owner@, Some(case@)),
                i <= variants.len(),
                position_of(vs, case@) == position_from(vs, case@, i as int),
            decreases variants.len() - i,
        {
            if same_text(variants[i].name.as_str(), case) {
                assert(vs[i as int] == key(variants@[i as int]));
                let v = variants[i].duplicate();
                let tag = i as u32;
                return Some((tag, v));
            }
            proof {
                assert(vs[i as int] == key(variants@[i as int]));
            }
            i = i + 1;
        }
        None
    }

    /// The variants of a type, when it is an ADT (`adt` being its home and
    /// name), in declaration order; any other type has none.
    pub fn variants_for(&self, adt: Option<(Option<&str>, &str)>) -> (out: Vec<VariantInfo>)
        ensures
            keys(out@) == match adt {
                Some((home, owner)) => variants_named_spec(self.keys(), opt_str(home), owner@, None),
                None => Seq::<VariantKey>::empty(),
            },
    {
        match adt {
            Some((home, owner)) => self.variants_in(home, owner),
            None => {
                let out: Vec<VariantInfo> = Vec::new();
                assert(keys(out@) =~= Seq::<VariantKey>::empty());
                out
            },
        }
    }

    /// How many cases an ADT declares, which decides whether its unboxed
    /// form needs a tag.
    pub fn cases_of(&self, home: Option<&str>, owner: &str) -> (n: usize)
        ensures
            n == variants_named_spec(self.keys(), opt_str(home), owner@, None).len(),
    {
        self.variants_in(home, owner).len()
    }

    /// Where field `index` sits in an unboxed value of an ADT: after the tag,
    /// which only a type of more than one case has.
    pub fn unboxed_field_at(&self, home: Option<&str>, owner: &str, index: usize) -> (at: u32)
        requires
            index < usize::MAX,
        ensures
            at == (index + if variants_named_spec(self.keys(), opt_str(home), owner@, None).len() > 1 {
                1int
            } else {
                0int
            }) as u32,
    {
        let tagged: usize = if self.cases_of(home, owner) > 1 { 1 } else { 0 };
        (index + tagged) as u32
    }

    /// A constructor's tag and declaration, by its type's name and its own.
    pub fn variant_of(&self, owner: &str, case: &str) -> (found: Option<(u32, VariantInfo)>)
        ensures
            looked_up(variants_named_spec(self.keys(), None, owner@, Some(case@)), case@, found),
    {
        self.variant_in(None, owner, case)
    }
}

} // verus!
