//! Closure sites: every lambda in the program, lifted to a function of its
//! own. A closure's tag is its site's index, which is how one release routine
//! can release any closure: it switches on the tag to learn which captures
//! this one holds.

use vstd::prelude::*;

use crate::text::{decimal, owned, push_decimal, same_text};

verus! {

broadcast use vstd::string::group_string_axioms;

/// One lambda in the program.
#[derive(Debug)]
pub struct ClosureSite {
    /// The symbol of the emitted function the lambda was written inside. A
    /// lambda in a generic function appears once per specialization.
    pub owner: String,
    /// The lambda's expression within that function's body.
    pub expr: u32,
    /// The symbol the lifted function is emitted under.
    pub symbol: String,
}

/// What identifies a site, and what it is named.
pub type SiteKey = (Seq<char>, u32, Seq<char>);

/// A site, as text.
pub open spec fn site_key(s: ClosureSite) -> SiteKey {
    (s.owner@, s.expr, s.symbol@)
}

/// How many of `sites` were written inside `owner`.
pub open spec fn sites_of(sites: Seq<SiteKey>, owner: Seq<char>) -> nat
    decreases sites.len(),
{
    if sites.len() == 0 {
        0
    } else {
        sites_of(sites.drop_last(), owner) + if sites.last().0 == owner { 1nat } else { 0nat }
    }
}

/// The symbol the `n`-th lambda inside `owner` is lifted to.
pub open spec fn lifted_symbol(owner: Seq<char>, n: nat) -> Seq<char> {
    owner + "$$lambda"@ + decimal(n)
}

/// The first site, from `i` on, for the lambda `expr` inside `owner`.
pub open spec fn site_from(sites: Seq<SiteKey>, owner: Seq<char>, expr: u32, i: int) -> Option<int>
    decreases sites.len() - i,
{
    if i < 0 || i >= sites.len() {
        None
    } else if sites[i].0 == owner && sites[i].1 == expr {
        Some(i)
    } else {
        site_from(sites, owner, expr, i + 1)
    }
}

/// The site of the lambda `expr` inside `owner`: the first one recorded.
pub open spec fn site_of(sites: Seq<SiteKey>, owner: Seq<char>, expr: u32) -> Option<int> {
    site_from(sites, owner, expr, 0)
}

/// Every lambda site in the program, in the order they were recorded.
pub struct ClosureSites {
    sites: Vec<ClosureSite>,
}

impl ClosureSites {
    /// The recorded sites, as text.
    pub closed spec fn view_sites(&self) -> Seq<SiteKey> {
        self.sites@.map_values(|s: ClosureSite| site_key(s))
    }

    /// No sites.
    pub fn new() -> (r: ClosureSites)
        ensures
            r.view_sites() == Seq::<SiteKey>::empty(),
    {
        let r = ClosureSites { sites: Vec::new() };
        assert(r.view_sites() =~= Seq::<SiteKey>::empty());
        r
    }

    /// How many sites there are.
    pub fn len(&self) -> (n: usize)
        ensures
            n == self.view_sites().len(),
    {
        self.sites.len()
    }

    /// Records a lambda site and names the function it lifts to: the owner's
    /// symbol, `$$lambda`, and how many lambdas the owner had before this
    /// one. Its tag is its index.
    pub fn record(&mut self, owner: &str, expr: u32) -> (index: usize)
        requires
            old(self).view_sites().len() < usize::MAX,
        ensures
            index == old(self).view_sites().len(),
            final(self).view_sites() == old(self).view_sites().push(
                (owner@, expr, lifted_symbol(owner@, sites_of(old(self).view_sites(), owner@))),
            ),
    {
        let ghost before = self.view_sites();
        let index = self.sites.len();
        let mut n: usize = 0;
        let mut i: usize = 0;
        while i < self.sites.len()
            invariant
                before == self.view_sites(),
                index == self.sites.len(),
                i <= self.sites.len(),
                n <= i,
                n == sites_of(before.subrange(0, i as int), owner@),
            decreases self.sites.len() - i,
        {
            proof {
                assert(before.subrange(0, i as int + 1).drop_last() =~= before.subrange(0, i as int));
                assert(before[i as int] == site_key(self.sites@[i as int]));
            }
            if same_text(self.sites[i].owner.as_str(), owner) {
                n = n + 1;
            }
            i = i + 1;
        }
        assert(before.subrange(0, index as int) =~= before);
        let mut symbol = owned(owner);
        symbol.append("$$lambda");
        push_decimal(&mut symbol, n);
        self.sites.push(ClosureSite { owner: owned(owner), expr, symbol });
        assert(self.view_sites() =~= before.push((owner@, expr, lifted_symbol(owner@, n as nat))));
        index
    }

    fn find(&self, owner: &str, expr: u32) -> (found: Option<usize>)
        ensures
            found matches Some(i) ==> i < self.sites.len() && self.view_sites().len() == self.sites.len(),
            match found {
                Some(i) => site_of(self.view_sites(), owner@, expr) == Some(i as int),
                None => site_of(self.view_sites(), owner@, expr) is None,
            },
    {
        let ghost v = self.view_sites();
        let mut i: usize = 0;
        while i < self.sites.len()
            invariant
                v == self.view_sites(),
                i <= self.sites.len(),
                site_of(v, owner@, expr) == site_from(v, owner@, expr, i as int),
            decreases self.sites.len() - i,
        {
            assert(v[i as int] == site_key(self.sites@[i as int]));
            if self.sites[i].expr == expr && same_text(self.sites[i].owner.as_str(), owner) {
                return Some(i);
            }
            i = i + 1;
        }
        None
    }

    /// The closure site for a lambda expression inside `owner`.
    pub fn closure_at(&self, owner: &str, expr: u32) -> (site: Option<&ClosureSite>)
        ensures
            match site {
                Some(s) => site_of(self.view_sites(), owner@, expr) matches Some(i) && site_key(*s) == self.view_sites()[i],
                None => site_of(self.view_sites(), owner@, expr) is None,
            },
    {
        match self.find(owner, expr) {
            Some(i) => {
                assert(self.view_sites()[i as int] == site_key(self.sites@[i as int]));
                Some(&self.sites[i])
            },
            None => None,
        }
    }

    /// Every site, in the order they were recorded: the lifted bodies are
    /// emitted from this list once the functions that build them are done.
    pub fn closure_sites(&self) -> (all: Vec<ClosureSite>)
        ensures
            all@.map_values(|s: ClosureSite| site_key(s)) == self.view_sites(),
    {
        let mut all: Vec<ClosureSite> = Vec::new();
        let mut i: usize = 0;
        while i < self.sites.len()
            invariant
                i <= self.sites.len(),
                all@.map_values(|s: ClosureSite| site_key(s)) == self.view_sites().subrange(0, i as int),
            decreases self.sites.len() - i,
        {
            let site = &self.sites[i];
            let copy = ClosureSite { owner: site.owner.clone(), expr: site.expr, symbol: site.symbol.clone() };
            let ghost before = all@;
            all.push(copy);
            proof {
                assert(all@.map_values(|s: ClosureSite| site_key(s)) =~= before.map_values(|s: ClosureSite| site_key(s)).push(site_key(copy)));
                assert(self.view_sites().subrange(0, i as int + 1) =~= self.view_sites().subrange(0, i as int).push(self.view_sites()[i as int]));
            }
            i = i + 1;
        }
        assert(self.view_sites().subrange(0, self.sites.len() as int) =~= self.view_sites());
        all
    }

    /// The tag a closure site's objects carry: its index.
    pub fn closure_tag(&self, owner: &str, expr: u32) -> (tag: Option<u32>)
        ensures
            match tag {
                Some(t) => site_of(self.view_sites(), owner@, expr) matches Some(i) && t == i as u32,
                None => site_of(self.view_sites(), owner@, expr) is None,
            },
    {
        match self.find(owner, expr) {
            Some(i) => Some(i as u32),
            None => None,
        }
    }
}

/// Recording a new lambda leaves every other lambda's site where it was, and
/// the new one is found at the index recording returned: what a lookup gives
/// back is what was recorded.
pub proof fn law_a_recorded_site_is_found(sites: Seq<SiteKey>, owner: Seq<char>, expr: u32, symbol: Seq<char>, o: Seq<char>, e: u32)
    requires
        site_of(sites, owner, expr) is None,
    ensures
        site_of(sites.push((owner, expr, symbol)), owner, expr) == Some(sites.len() as int),
        !(o == owner && e == expr) ==> site_of(sites.push((owner, expr, symbol)), o, e) == site_of(sites, o, e),
{
    lemma_site_from_push(sites, (owner, expr, symbol), owner, expr, 0);
    lemma_site_from_push(sites, (owner, expr, symbol), o, e, 0);
}

proof fn lemma_site_from_push(sites: Seq<SiteKey>, new: SiteKey, o: Seq<char>, e: u32, i: int)
    requires
        0 <= i <= sites.len(),
    ensures
        site_from(sites, o, e, i) is Some ==> site_from(sites.push(new), o, e, i) == site_from(sites, o, e, i),
        site_from(sites, o, e, i) is None ==> site_from(sites.push(new), o, e, i) == (if new.0 == o && new.1 == e {
            Some(sites.len() as int)
        } else {
            None
        }),
    decreases sites.len() - i,
{
    let pushed = sites.push(new);
    if i < sites.len() {
        assert(pushed[i] == sites[i]);
        lemma_site_from_push(sites, new, o, e, i + 1);
    } else {
        assert(pushed[i] == new);
        assert(site_from(pushed, o, e, i + 1) is None);
    }
}

/// The `n`-th lambda recorded inside one owner is lifted to a different
/// symbol from every earlier one.
pub proof fn law_lifted_symbols_differ(owner: Seq<char>, m: nat, n: nat)
    requires
        m != n,
    ensures
        lifted_symbol(owner, m) != lifted_symbol(owner, n),
{
    lemma_decimal_injective(m, n);
    let a = lifted_symbol(owner, m);
    let b = lifted_symbol(owner, n);
    let p = owner + "$$lambda"@;
    if a == b {
        assert(a.subrange(p.len() as int, a.len() as int) =~= decimal(m));
        assert(b.subrange(p.len() as int, b.len() as int) =~= decimal(n));
    }
}

proof fn lemma_decimal_nonempty(n: nat)
    ensures
        decimal(n).len() >= 1,
    decreases n,
{
    if n >= 10 {
        lemma_decimal_nonempty(n / 10);
    }
}

proof fn lemma_decimal_injective(m: nat, n: nat)
    requires
        m != n,
    ensures
        decimal(m) != decimal(n),
    decreases m + n,
{
    lemma_decimal_nonempty(m);
    lemma_decimal_nonempty(n);
    if m < 10 && n < 10 {
        assert(decimal(m)[0] != decimal(n)[0]);
    } else if m < 10 || n < 10 {
        let (small, big) = if m < 10 { (m, n) } else { (n, m) };
        lemma_decimal_nonempty(big / 10);
        assert(decimal(big).len() >= 2);
        assert(decimal(small).len() == 1);
    } else {
        if decimal(m) == decimal(n) {
            let dm = decimal(m);
            let dn = decimal(n);
            assert(dm.last() == dn.last());
            assert(dm.drop_last() =~= decimal(m / 10));
            assert(dn.drop_last() =~= decimal(n / 10));
            if m / 10 != n / 10 {
                lemma_decimal_injective(m / 10, n / 10);
            } else {
                assert(m % 10 != n % 10);
                assert(dm.last() == crate::text::digit_char(m % 10));
                assert(dn.last() == crate::text::digit_char(n % 10));
            }
        }
    }
}

} // verus!
