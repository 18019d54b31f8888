//! `f()! catch { .. }`: which arms an arriving error goes to.
//!
//! The dispatch is two levels. `which` says which error type arrived, and a
//! type no arm names falls through to the ordinary propagate path; within a
//! named type the arms dispatch on the object's tag as a `match` does. A `_`
//! arm, or a binding, takes the fall-through instead — except for the two
//! things that travel the same channel without being errors, a cancellation
//! and a test failure, which always propagate.

use vstd::prelude::*;

use crate::text::same_text;

verus! {

broadcast use vstd::string::group_string_axioms;

/// One arm of a `catch`, as the dispatch sees it.
#[derive(Debug)]
pub struct CatchArm {
    /// The error type its pattern names, if it names one.
    pub owner: Option<String>,
    /// Its pattern is `_` or a binding, which takes every error.
    pub catch_all: bool,
}

/// An arm, as text.
pub type ArmKey = (Option<Seq<char>>, bool);

/// An arm's text.
pub open spec fn arm_key(a: CatchArm) -> ArmKey {
    (match a.owner {
        Some(o) => Some(o@),
        None => None,
    }, a.catch_all)
}

/// The arms, as text.
pub open spec fn arm_keys(arms: Seq<CatchArm>) -> Seq<ArmKey> {
    arms.map_values(|a: CatchArm| arm_key(a))
}

/// The position of the group for error type `owner`, if there is one.
pub open spec fn group_of(groups: Seq<(Seq<char>, Seq<usize>)>, owner: Seq<char>) -> Option<int>
    decreases groups.len(),
{
    if groups.len() == 0 {
        None
    } else if groups.last().0 == owner {
        Some(groups.len() - 1)
    } else {
        group_of(groups.drop_last(), owner)
    }
}

proof fn lemma_group_of(groups: Seq<(Seq<char>, Seq<usize>)>, owner: Seq<char>)
    ensures
        group_of(groups, owner) matches Some(g) ==> 0 <= g < groups.len() && groups[g].0 == owner,
    decreases groups.len(),
{
    if groups.len() > 0 && groups.last().0 != owner {
        lemma_group_of(groups.drop_last(), owner);
    }
}

/// The arms grouped by the error type they name, each group in written
/// order and the groups in the order their types are first named; and the
/// last arm that takes every error, if any. An arm that names no type and
/// takes nothing is left out.
pub open spec fn grouped(arms: Seq<ArmKey>) -> (Seq<(Seq<char>, Seq<usize>)>, Option<usize>)
    decreases arms.len(),
{
    if arms.len() == 0 {
        (Seq::empty(), None)
    } else {
        let (groups, everything) = grouped(arms.drop_last());
        let i = (arms.len() - 1) as usize;
        match arms.last().0 {
            Some(owner) => match group_of(groups, owner) {
                Some(g) => (groups.update(g, (owner, groups[g].1.push(i))), everything),
                None => (groups.push((owner, seq![i])), everything),
            },
            None => (groups, if arms.last().1 { Some(i) } else { everything }),
        }
    }
}

/// The arms of a `catch`, grouped.
pub struct CatchPlan {
    /// Each error type some arm names, with the arms that name it.
    pub groups: Vec<(String, Vec<usize>)>,
    /// The arm that takes every other error, if there is one.
    pub everything: Option<usize>,
}

/// A plan, as text.
pub open spec fn plan_key(p: CatchPlan) -> (Seq<(Seq<char>, Seq<usize>)>, Option<usize>) {
    (p.groups@.map_values(|g: (String, Vec<usize>)| (g.0@, g.1@)), p.everything)
}

/// Groups a `catch`'s arms by the error type they name, keeping written
/// order so the emitted blocks read in the order the source does.
pub fn plan_catch(arms: &Vec<CatchArm>) -> (plan: CatchPlan)
    requires
        arms.len() < usize::MAX,
    ensures
        plan_key(plan) == grouped(arm_keys(arms@)),
{
    let ghost a = arm_keys(arms@);
    let mut groups: Vec<(String, Vec<usize>)> = Vec::new();
    let mut everything: Option<usize> = None;
    let mut i: usize = 0;
    while i < arms.len()
        invariant
            a == arm_keys(arms@),
            arms.len() < usize::MAX,
            i <= arms.len(),
            (groups@.map_values(|g: (String, Vec<usize>)| (g.0@, g.1@)), everything) == grouped(a.subrange(0, i as int)),
        decreases arms.len() - i,
    {
        let ghost before = groups@.map_values(|g: (String, Vec<usize>)| (g.0@, g.1@));
        proof {
            assert(a.subrange(0, i as int + 1).drop_last() =~= a.subrange(0, i as int));
            assert(a.subrange(0, i as int + 1).last() == arm_key(arms@[i as int]));
        }
        match &arms[i].owner {
            Some(owner) => {
                // The group for this type, the last of that name, as the spec
                // finds it.
                let mut k: usize = groups.len();
                let mut found: Option<usize> = None;
                assert(before.subrange(0, k as int) =~= before);
                while k > 0 && found.is_none()
                    invariant
                        before == groups@.map_values(|g: (String, Vec<usize>)| (g.0@, g.1@)),
                        k <= groups.len(),
                        found is None ==> group_of(before, owner@) == group_of(before.subrange(0, k as int), owner@),
                        found matches Some(g) ==> g < groups.len() && group_of(before, owner@) == Some(g as int),
                    decreases k + if found is None { 1int } else { 0int },
                {
                    proof {
                        assert(before.subrange(0, k as int).drop_last() =~= before.subrange(0, k - 1));
                        assert(before.subrange(0, k as int).last() == before[k - 1]);
                        if k == groups.len() {
                            assert(before.subrange(0, k as int) =~= before);
                        }
                    }
                    if same_text(groups[k - 1].0.as_str(), owner.as_str()) {
                        found = Some(k - 1);
                    }
                    k = k - 1;
                }
                proof {
                    if found is None && groups.len() == 0 {
                        assert(before.subrange(0, 0) =~= before);
                    }
                }
                match found {
                    Some(g) => {
                        proof {
                            lemma_group_of(before, owner@);
                        }
                        let mut members: Vec<usize> = Vec::new();
                        let mut j: usize = 0;
                        while j < groups[g].1.len()
                            invariant
                                before == groups@.map_values(|x: (String, Vec<usize>)| (x.0@, x.1@)),
                                g < groups.len(),
                                before[g as int].0 == owner@,
                                j <= groups@[g as int].1.len(),
                                members@ =~= groups@[g as int].1@.subrange(0, j as int),
                            decreases groups@[g as int].1.len() - j,
                        {
                            members.push(groups[g].1[j]);
                            j = j + 1;
                        }
                        assert(members@ =~= before[g as int].1);
                        members.push(i);
                        let name = owner.clone();
                        assert(name@ == owner@);
                        let ghost old_groups = groups@;
                        groups.set(g, (name, members));
                        assert forall|x: int| 0 <= x < groups@.len() implies
                            (groups@[x].0@, groups@[x].1@) == before.update(g as int, (owner@, before[g as int].1.push(i)))[x] by {
                            if x != g {
                                assert(groups@[x] == old_groups[x]);
                            }
                        }
                        assert(groups@.map_values(|x: (String, Vec<usize>)| (x.0@, x.1@)) =~= before.update(
                            g as int,
                            (owner@, before[g as int].1.push(i)),
                        ));
                    },
                    None => {
                        let mut members: Vec<usize> = Vec::new();
                        members.push(i);
                        assert(members@ =~= seq![i]);
                        groups.push((owner.clone(), members));
                        assert(groups@.map_values(|x: (String, Vec<usize>)| (x.0@, x.1@)) =~= before.push(
                            (owner@, seq![i]),
                        ));
                    },
                }
            },
            None => {
                if arms[i].catch_all {
                    everything = Some(i);
                }
            },
        }
        i = i + 1;
    }
    assert(a.subrange(0, arms.len() as int) =~= a);
    CatchPlan { groups, everything }
}

/// Where an arriving error goes.
#[derive(Clone, Copy, PartialEq, Eq, Structural, Debug)]
pub enum Route {
    /// To the arms of group `0`, which dispatch on the object's tag.
    Arms(usize),
    /// To the arm that takes every error.
    CatchAll,
    /// Onward, as if there were no `catch`.
    Propagate,
}

/// The first position of `which` among the groups' error ids.
pub open spec fn first_id(ids: Seq<u32>, which: u32, from: int) -> Option<int>
    decreases ids.len() - from,
{
    if from < 0 || from >= ids.len() {
        None
    } else if ids[from] == which {
        Some(from)
    } else {
        first_id(ids, which, from + 1)
    }
}

/// Where the `switch` on `which` sends an error: to the group whose error
/// type has that id; otherwise, with a catch-all arm, to it — unless `which`
/// is the runtime's cancellation or a test failure, which propagate; and
/// without one, onward.
pub open spec fn routed(ids: Seq<u32>, has_catch_all: bool, which: u32, cancelled: u32, failed: u32) -> Route {
    match first_id(ids, which, 0) {
        Some(k) => Route::Arms(k as usize),
        None => if has_catch_all && which != cancelled && which != failed {
            Route::CatchAll
        } else {
            Route::Propagate
        },
    }
}

/// Where an arriving error goes: `ids` are the error ids of the plan's
/// groups in order, and `cancelled` and `failed` what the runtime sends a
/// cancellation and a failed test under.
pub fn route(ids: &Vec<u32>, has_catch_all: bool, which: u32, cancelled: u32, failed: u32) -> (r: Route)
    ensures
        r == routed(ids@, has_catch_all, which, cancelled, failed),
{
    let mut k: usize = 0;
    while k < ids.len()
        invariant
            k <= ids.len(),
            first_id(ids@, which, 0) == first_id(ids@, which, k as int),
        decreases ids.len() - k,
    {
        if ids[k] == which {
            return Route::Arms(k);
        }
        k = k + 1;
    }
    if has_catch_all && which != cancelled && which != failed {
        Route::CatchAll
    } else {
        Route::Propagate
    }
}

/// A `catch` never swallows what is not an error: when neither the
/// cancellation nor a test failure is an error type's id — they are outside
/// the range ids come from — both propagate past every `catch`, a `_` arm
/// included; and an error type an arm names goes to that type's arms.
pub proof fn law_a_catch_never_swallows_a_cancellation(
    ids: Seq<u32>,
    has_catch_all: bool,
    cancelled: u32,
    failed: u32,
    k: int,
)
    requires
        forall|i: int| 0 <= i < ids.len() ==> ids[i] != cancelled && ids[i] != failed,
        0 <= k < ids.len(),
        forall|i: int| 0 <= i < k ==> ids[i] != ids[k],
    ensures
        routed(ids, has_catch_all, cancelled, cancelled, failed) == Route::Propagate,
        routed(ids, has_catch_all, failed, cancelled, failed) == Route::Propagate,
        routed(ids, has_catch_all, ids[k], cancelled, failed) == Route::Arms(k as usize),
{
    lemma_first_id_absent(ids, cancelled, 0);
    lemma_first_id_absent(ids, failed, 0);
    lemma_first_id_at(ids, ids[k], 0, k);
}

proof fn lemma_first_id_absent(ids: Seq<u32>, which: u32, from: int)
    requires
        0 <= from,
        forall|i: int| 0 <= i < ids.len() ==> ids[i] != which,
    ensures
        first_id(ids, which, from) is None,
    decreases ids.len() - from,
{
    if from < ids.len() {
        lemma_first_id_absent(ids, which, from + 1);
    }
}

proof fn lemma_first_id_at(ids: Seq<u32>, which: u32, from: int, k: int)
    requires
        0 <= from <= k < ids.len(),
        ids[k] == which,
        forall|i: int| from <= i < k ==> ids[i] != which,
    ensures
        first_id(ids, which, from) == Some(k),
    decreases k - from,
{
    if from < k {
        lemma_first_id_at(ids, which, from + 1, k);
    }
}

/// An error no group names goes to the `_` arm when there is one, whatever
/// the groups are (none at all included), unless it is the cancellation or
/// a test failure; without a `_` arm it propagates. An error a group names
/// goes to the first group that names it.
pub proof fn law_an_unnamed_error_goes_to_the_catch_all(
    ids: Seq<u32>,
    has_catch_all: bool,
    which: u32,
    cancelled: u32,
    failed: u32,
)
    requires
        ids.len() <= usize::MAX,
    ensures
        (forall|i: int| 0 <= i < ids.len() ==> ids[i] != which) ==> routed(ids, has_catch_all, which, cancelled, failed)
            == if has_catch_all && which != cancelled && which != failed {
            Route::CatchAll
        } else {
            Route::Propagate
        },
        routed(ids, has_catch_all, which, cancelled, failed) matches Route::Arms(k) ==> k < ids.len() && ids[k as int]
            == which && forall|i: int| 0 <= i < k ==> ids[i] != which,
{
    if forall|i: int| 0 <= i < ids.len() ==> ids[i] != which {
        lemma_first_id_absent(ids, which, 0);
    }
    lemma_first_id_found(ids, which, 0);
}

proof fn lemma_first_id_found(ids: Seq<u32>, which: u32, from: int)
    requires
        0 <= from,
    ensures
        first_id(ids, which, from) matches Some(k) ==> from <= k < ids.len() && ids[k] == which && forall|i: int|
            from <= i < k ==> ids[i] != which,
    decreases ids.len() - from,
{
    if from < ids.len() {
        lemma_first_id_found(ids, which, from + 1);
    }
}

proof fn lemma_group_of_absent(groups: Seq<(Seq<char>, Seq<usize>)>, owner: Seq<char>)
    ensures
        group_of(groups, owner) is None ==> forall|g: int| 0 <= g < groups.len() ==> (#[trigger] groups[g]).0 != owner,
    decreases groups.len(),
{
    if groups.len() > 0 && groups.last().0 != owner {
        lemma_group_of_absent(groups.drop_last(), owner);
        if group_of(groups, owner) is None {
            assert forall|g: int| 0 <= g < groups.len() implies (#[trigger] groups[g]).0 != owner by {
                if g < groups.len() - 1 {
                    assert(groups[g] == groups.drop_last()[g]);
                }
            }
        }
    }
}

/// The groups of a plan, as a plan of `n` arms keeps them: each names a
/// different type, each is a non-empty run of arms in written order that
/// name its type, and the groups come in the order their types are first
/// named.
pub open spec fn well_grouped(arms: Seq<ArmKey>, groups: Seq<(Seq<char>, Seq<usize>)>) -> bool {
    &&& forall|g1: int, g2: int| 0 <= g1 < g2 < groups.len() ==> (#[trigger] groups[g1]).0 != (#[trigger] groups[g2]).0
    &&& forall|g: int| 0 <= g < groups.len() ==> (#[trigger] groups[g]).1.len() > 0
    &&& forall|g: int, m: int| #![trigger groups[g].1[m]] 0 <= g < groups.len() && 0 <= m < groups[g].1.len() ==> groups[g].1[m]
        < arms.len() && arms[groups[g].1[m] as int].0 == Some(groups[g].0)
    &&& forall|g: int, m1: int, m2: int| #![trigger groups[g].1[m1], groups[g].1[m2]] 0 <= g < groups.len() && 0 <= m1 < m2
        < groups[g].1.len() ==> groups[g].1[m1] < groups[g].1[m2]
    &&& forall|g1: int, g2: int| 0 <= g1 < g2 < groups.len() ==> (#[trigger] groups[g1]).1[0] < (#[trigger] groups[g2]).1[0]
}

/// Every arm that names a type is in that type's group.
pub open spec fn every_arm_grouped(arms: Seq<ArmKey>, groups: Seq<(Seq<char>, Seq<usize>)>) -> bool {
    forall|i: int| #![trigger arms[i]] 0 <= i < arms.len() && arms[i].0 is Some ==> exists|g: int, m: int|
        #![trigger groups[g].1[m]] 0 <= g < groups.len() && 0 <= m < groups[g].1.len() && groups[g].1[m] == i
}

/// The arm that takes every other error is the last `_` or binding arm.
pub open spec fn last_catch_all(arms: Seq<ArmKey>, everything: Option<usize>) -> bool {
    match everything {
        Some(e) => e < arms.len() && arms[e as int].0 is None && arms[e as int].1 && forall|i: int|
            #![trigger arms[i]] e < i < arms.len() ==> !(arms[i].0 is None && arms[i].1),
        None => forall|i: int| #![trigger arms[i]] 0 <= i < arms.len() ==> !(arms[i].0 is None && arms[i].1),
    }
}

/// A `catch`'s arms, grouped: every arm that names an error type is in the
/// one group for that type, the groups hold only such arms, each in written
/// order, and come in the order their types are first named; and the arm
/// that takes every other error is the last `_` or binding arm, or none when
/// there is no such arm.
pub proof fn law_a_plan_groups_every_arm(arms: Seq<ArmKey>)
    requires
        arms.len() < usize::MAX,
    ensures
        well_grouped(arms, grouped(arms).0),
        every_arm_grouped(arms, grouped(arms).0),
        last_catch_all(arms, grouped(arms).1),
    decreases arms.len(),
{
    if arms.len() > 0 {
        let init = arms.drop_last();
        law_a_plan_groups_every_arm(init);
        let (groups, everything) = grouped(init);
        let i = (arms.len() - 1) as usize;
        let l = arms.last();
        assert forall|k: int| 0 <= k < init.len() implies #[trigger] arms[k] == init[k] by {}
        let (ng, ne) = grouped(arms);
        match l.0 {
            Some(owner) => {
                assert(ne == everything);
                match group_of(groups, owner) {
                    Some(g) => {
                        lemma_group_of(groups, owner);
                        let grown = (owner, groups[g].1.push(i));
                        assert(ng == groups.update(g, grown));
                        assert forall|x: int| 0 <= x < ng.len() && x != g implies #[trigger] ng[x] == groups[x] by {}
                        assert(well_grouped(arms, ng)) by {
                            assert forall|x: int, m: int| #![trigger ng[x].1[m]] 0 <= x < ng.len() && 0 <= m < ng[x].1.len()
                                implies ng[x].1[m] < arms.len() && arms[ng[x].1[m] as int].0 == Some(ng[x].0) by {
                                if x == g && m == groups[g].1.len() {
                                } else if x == g {
                                    assert(ng[x].1[m] == groups[g].1[m]);
                                    assert(groups[g].1[m] < init.len());
                                    assert(arms[groups[g].1[m] as int] == init[groups[g].1[m] as int]);
                                } else {
                                    assert(arms[groups[x].1[m] as int] == init[groups[x].1[m] as int]);
                                }
                            }
                            assert forall|x: int, m1: int, m2: int| #![trigger ng[x].1[m1], ng[x].1[m2]] 0 <= x < ng.len()
                                && 0 <= m1 < m2 < ng[x].1.len() implies ng[x].1[m1] < ng[x].1[m2] by {
                                if x == g {
                                    assert(ng[x].1[m1] == groups[g].1[m1]);
                                    assert(groups[g].1[m1] < init.len());
                                    if m2 < groups[g].1.len() {
                                        assert(ng[x].1[m2] == groups[g].1[m2]);
                                    }
                                }
                            }
                            assert forall|x1: int, x2: int| 0 <= x1 < x2 < ng.len() implies (#[trigger] ng[x1]).1[0] < (#[trigger] ng[x2]).1[0] by {
                                assert(ng[x1].1[0] == groups[x1].1[0]);
                                assert(ng[x2].1[0] == groups[x2].1[0]);
                            }
                        }
                        assert(every_arm_grouped(arms, ng)) by {
                            assert forall|k: int| #![trigger arms[k]] 0 <= k < arms.len() && arms[k].0 is Some implies exists|x: int, m: int|
                                #![trigger ng[x].1[m]] 0 <= x < ng.len() && 0 <= m < ng[x].1.len() && ng[x].1[m] == k by {
                                if k == i {
                                    assert(ng[g].1[groups[g].1.len() as int] == i);
                                } else {
                                    assert(init[k] == arms[k]);
                                    let (x, m) = choose|x: int, m: int| #![trigger groups[x].1[m]] 0 <= x < groups.len() && 0 <= m
                                        < groups[x].1.len() && groups[x].1[m] == k;
                                    assert(ng[x].1[m] == groups[x].1[m]);
                                }
                            }
                        }
                    },
                    None => {
                        lemma_group_of_absent(groups, owner);
                        assert(ng == groups.push((owner, seq![i])));
                        assert forall|x: int| 0 <= x < groups.len() implies #[trigger] ng[x] == groups[x] by {}
                        assert(well_grouped(arms, ng)) by {
                            assert forall|x: int, m: int| #![trigger ng[x].1[m]] 0 <= x < ng.len() && 0 <= m < ng[x].1.len()
                                implies ng[x].1[m] < arms.len() && arms[ng[x].1[m] as int].0 == Some(ng[x].0) by {
                                if x < groups.len() {
                                    assert(arms[groups[x].1[m] as int] == init[groups[x].1[m] as int]);
                                }
                            }
                            assert forall|x1: int, x2: int| 0 <= x1 < x2 < ng.len() implies (#[trigger] ng[x1]).1[0] < (#[trigger] ng[x2]).1[0] by {
                                assert(groups[x1].1[0] < init.len());
                            }
                        }
                        assert(every_arm_grouped(arms, ng)) by {
                            assert forall|k: int| #![trigger arms[k]] 0 <= k < arms.len() && arms[k].0 is Some implies exists|x: int, m: int|
                                #![trigger ng[x].1[m]] 0 <= x < ng.len() && 0 <= m < ng[x].1.len() && ng[x].1[m] == k by {
                                if k == i {
                                    assert(ng[groups.len() as int].1[0] == i);
                                } else {
                                    assert(init[k] == arms[k]);
                                    let (x, m) = choose|x: int, m: int| #![trigger groups[x].1[m]] 0 <= x < groups.len() && 0 <= m
                                        < groups[x].1.len() && groups[x].1[m] == k;
                                    assert(ng[x].1[m] == groups[x].1[m]);
                                }
                            }
                        }
                    },
                }
            },
            None => {
                assert(ng == groups);
                assert(well_grouped(arms, ng)) by {
                    assert forall|x: int, m: int| #![trigger ng[x].1[m]] 0 <= x < ng.len() && 0 <= m < ng[x].1.len()
                        implies ng[x].1[m] < arms.len() && arms[ng[x].1[m] as int].0 == Some(ng[x].0) by {
                        assert(arms[groups[x].1[m] as int] == init[groups[x].1[m] as int]);
                    }
                }
                assert(every_arm_grouped(arms, ng)) by {
                    assert forall|k: int| #![trigger arms[k]] 0 <= k < arms.len() && arms[k].0 is Some implies exists|x: int, m: int|
                        #![trigger ng[x].1[m]] 0 <= x < ng.len() && 0 <= m < ng[x].1.len() && ng[x].1[m] == k by {
                        assert(k != i);
                        assert(init[k] == arms[k]);
                    }
                }
                assert(last_catch_all(arms, ne)) by {
                    if !l.1 {
                        assert(ne == everything);
                        match everything {
                            Some(e) => {
                                assert(arms[e as int] == init[e as int]);
                                assert forall|k: int| #![trigger arms[k]] e < k < arms.len() implies !(arms[k].0 is None && arms[k].1) by {
                                    if k < init.len() {
                                        assert(init[k] == arms[k]);
                                    }
                                }
                            },
                            None => {
                                assert forall|k: int| #![trigger arms[k]] 0 <= k < arms.len() implies !(arms[k].0 is None && arms[k].1) by {
                                    if k < init.len() {
                                        assert(init[k] == arms[k]);
                                    }
                                }
                            },
                        }
                    }
                }
            },
        }
        if l.0 is Some {
            assert(last_catch_all(arms, ne)) by {
                match everything {
                    Some(e) => {
                        assert(arms[e as int] == init[e as int]);
                        assert forall|k: int| #![trigger arms[k]] e < k < arms.len() implies !(arms[k].0 is None && arms[k].1) by {
                            if k < init.len() {
                                assert(init[k] == arms[k]);
                            }
                        }
                    },
                    None => {
                        assert forall|k: int| #![trigger arms[k]] 0 <= k < arms.len() implies !(arms[k].0 is None && arms[k].1) by {
                            if k < init.len() {
                                assert(init[k] == arms[k]);
                            }
                        }
                    },
                }
            }
        }
    }
}

} // verus!
