//! Planning a `match`: whether its arms can dispatch through one `switch`
//! on the scrutinee's tag.

use vstd::prelude::*;

verus! {

/// What the planner reads of a pattern.
#[derive(Debug)]
pub enum Pattern {
    /// `_`.
    Wildcard,
    /// A name.
    Bind,
    /// A pattern that did not parse; it matches anything.
    Missing,
    /// A tuple of patterns.
    Tuple(Vec<Pattern>),
    /// A variant with no fields, and its tag if it resolves to one.
    Path { tag: Option<u32> },
    /// A variant with fields, its tag if it resolves to one, and the field
    /// patterns.
    TupleStruct { tag: Option<u32>, fields: Vec<Pattern> },
    /// Anything else: a literal, a record, a range.
    Other,
}

/// One arm of a `match`.
#[derive(Debug)]
pub struct Arm {
    pub pattern: Pattern,
    /// Whether the arm has an `if` guard.
    pub guarded: bool,
}

/// Whether a pattern cannot fail to match, ignoring what it binds. A tuple
/// has one shape, so a tuple of names tests nothing.
pub open spec fn irrefutable(p: Pattern) -> bool
    decreases p,
{
    match p {
        Pattern::Wildcard | Pattern::Bind | Pattern::Missing => true,
        Pattern::Tuple(fields) => forall|i: int| 0 <= i < fields.len() ==> irrefutable(#[trigger] fields@[i]),
        _ => false,
    }
}

/// Every one of `fields` is irrefutable.
pub open spec fn all_irrefutable(fields: Seq<Pattern>) -> bool {
    forall|i: int| 0 <= i < fields.len() ==> irrefutable(#[trigger] fields[i])
}

/// Whether a pattern cannot fail to match, ignoring what it binds.
pub fn is_irrefutable(p: &Pattern) -> (b: bool)
    ensures
        b == irrefutable(*p),
    decreases p,
{
    match p {
        Pattern::Wildcard | Pattern::Bind | Pattern::Missing => true,
        Pattern::Tuple(fields) => are_irrefutable(fields),
        _ => false,
    }
}

/// Whether every pattern in `fields` is irrefutable.
pub fn are_irrefutable(fields: &Vec<Pattern>) -> (b: bool)
    ensures
        b == all_irrefutable(fields@),
    decreases fields,
{
    let mut i: usize = 0;
    while i < fields.len()
        invariant
            i <= fields.len(),
            forall|j: int| 0 <= j < i ==> irrefutable(#[trigger] fields@[j]),
        decreases fields.len() - i,
    {
        assert(decreases_to!(fields => fields@[i as int]));
        if !is_irrefutable(&fields[i]) {
            return false;
        }
        i = i + 1;
    }
    true
}

/// What an arm contributes to a switch: `Some(None)` for an arm that
/// matches anything, `Some(Some(tag))` for one variant, `None` for an arm a
/// switch has nowhere to put.
pub open spec fn arm_case(arm: Arm) -> Option<Option<u32>> {
    if arm.guarded {
        None
    } else {
        match arm.pattern {
            Pattern::Wildcard | Pattern::Bind => Some(None),
            Pattern::Path { tag: Some(t) } => Some(Some(t)),
            Pattern::TupleStruct { tag: Some(t), fields } => if all_irrefutable(fields@) {
                Some(Some(t))
            } else {
                None
            },
            _ => None,
        }
    }
}

/// Whether a whole `match` can dispatch through one switch: the scrutinee
/// is a data type, every arm has a case, a catch-all arm comes last, and no
/// tag is tested twice.
pub open spec fn switchable(arms: Seq<Arm>, on_data_type: bool) -> bool {
    &&& on_data_type
    &&& forall|i: int| 0 <= i < arms.len() ==> (#[trigger] arm_case(arms[i])) is Some
    &&& forall|i: int| 0 <= i < arms.len() - 1 ==> #[trigger] arm_case(arms[i]) != Some(None::<u32>)
    &&& forall|i: int, j: int|
        0 <= i < j < arms.len() && (#[trigger] arm_case(arms[i])) is Some && arm_case(arms[i]).unwrap() is Some
            ==> #[trigger] arm_case(arms[j]) != arm_case(arms[i])
}

/// What one arm contributes to a switch, if it can be in one.
pub fn arm_case_of(arm: &Arm) -> (case: Option<Option<u32>>)
    ensures
        case == arm_case(*arm),
{
    if arm.guarded {
        return None;
    }
    match &arm.pattern {
        Pattern::Wildcard | Pattern::Bind => Some(None),
        Pattern::Path { tag } => match tag {
            Some(t) => Some(Some(*t)),
            None => None,
        },
        Pattern::TupleStruct { tag, fields } => {
            // A refutable field pattern needs a test the switch has nowhere
            // to put.
            if !are_irrefutable(fields) {
                return None;
            }
            match tag {
                Some(t) => Some(Some(*t)),
                None => None,
            }
        },
        _ => None,
    }
}

/// A tag per arm, or `None` for an arm that matches anything, when the whole
/// `match` can dispatch through one `switch`.
pub fn switch_plan(arms: &Vec<Arm>, on_data_type: bool) -> (plan: Option<Vec<Option<u32>>>)
    ensures
        plan is Some <==> switchable(arms@, on_data_type),
        plan matches Some(p) ==> (p.len() == arms.len() && forall|i: int|
            0 <= i < arms.len() ==> arm_case(arms@[i]) == Some(#[trigger] p[i])),
{
    if !on_data_type {
        return None;
    }
    let mut plan: Vec<Option<u32>> = Vec::new();
    let mut seen: Vec<u32> = Vec::new();
    let mut catch_all = false;
    let mut i: usize = 0;
    while i < arms.len()
        invariant
            on_data_type,
            i <= arms.len(),
            plan.len() == i,
            forall|k: int| 0 <= k < i ==> arm_case(#[trigger] arms@[k]) == Some(plan[k]),
            catch_all == (i > 0 && plan[i - 1] is None),
            forall|k: int| 0 <= k < i - 1 ==> (#[trigger] plan[k]) is Some,
            forall|t: u32| seen@.contains(t) <==> exists|k: int| 0 <= k < i && #[trigger] plan[k] == Some(t),
            forall|k: int, m: int| 0 <= k < m < i && (#[trigger] plan[k]) is Some ==> #[trigger] plan[m] != plan[k],
        decreases arms.len() - i,
    {
        // Anything after a catch-all is unreachable, which the checker
        // rejects; refusing here too keeps this from having to model it.
        if catch_all {
            proof {
                assert(arm_case(arms@[i - 1]) == Some(None::<u32>));
            }
            return None;
        }
        match arm_case_of(&arms[i]) {
            None => {
                proof {
                    assert(arm_case(arms@[i as int]) is None);
                }
                return None;
            },
            Some(None) => {
                let ghost old_plan = plan@;
                catch_all = true;
                plan.push(None);
                proof {
                    assert forall|t: u32| seen@.contains(t) <==> exists|k: int| 0 <= k < i + 1 && #[trigger] plan[k] == Some(t) by {
                        if seen@.contains(t) {
                            let k = choose|k: int| 0 <= k < i && #[trigger] old_plan[k] == Some(t);
                            assert(plan[k] == Some(t));
                        }
                        if exists|k: int| 0 <= k < i + 1 && #[trigger] plan[k] == Some(t) {
                            let k = choose|k: int| 0 <= k < i + 1 && #[trigger] plan[k] == Some(t);
                            assert(k < i);
                            assert(old_plan[k] == Some(t));
                        }
                    }
                }
            },
            Some(Some(tag)) => {
                if contains_tag(&seen, tag) {
                    proof {
                        let k = choose|k: int| 0 <= k < i && #[trigger] plan[k] == Some(tag);
                        assert(arm_case(arms@[k]) == Some(Some(tag)));
                        assert(arm_case(arms@[i as int]) == Some(Some(tag)));
                    }
                    return None;
                }
                let ghost old_plan = plan@;
                let ghost old_seen = seen@;
                seen.push(tag);
                plan.push(Some(tag));
                proof {
                    assert forall|t: u32| seen@.contains(t) <==> exists|k: int| 0 <= k < i + 1 && #[trigger] plan[k] == Some(t) by {
                        if seen@.contains(t) && t != tag {
                            let m = choose|m: int| 0 <= m < seen.len() && seen@[m] == t;
                            assert(old_seen[m] == t);
                            assert(old_seen.contains(t));
                            let k = choose|k: int| 0 <= k < i && #[trigger] old_plan[k] == Some(t);
                            assert(plan[k] == Some(t));
                        }
                        if exists|k: int| 0 <= k < i + 1 && #[trigger] plan[k] == Some(t) {
                            let k = choose|k: int| 0 <= k < i + 1 && #[trigger] plan[k] == Some(t);
                            if k < i {
                                assert(old_plan[k] == Some(t));
                                assert(old_seen.contains(t));
                                let m = choose|m: int| 0 <= m < old_seen.len() && old_seen[m] == t;
                                assert(seen@[m] == t);
                            } else {
                                assert(seen@[seen.len() - 1] == tag);
                            }
                        }
                    }
                }
            },
        }
        i = i + 1;
    }
    Some(plan)
}

/// Whether `tag` is in `seen`.
fn contains_tag(seen: &Vec<u32>, tag: u32) -> (b: bool)
    ensures
        b == seen@.contains(tag),
{
    let mut i: usize = 0;
    while i < seen.len()
        invariant
            i <= seen.len(),
            forall|j: int| 0 <= j < i ==> seen@[j] != tag,
        decreases seen.len() - i,
    {
        if seen[i] == tag {
            assert(seen@[i as int] == tag);
            return true;
        }
        i = i + 1;
    }
    false
}

} // verus!
