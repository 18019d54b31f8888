//! Verified core of the native backend: which functions can reach a
//! cancellation point, what each operator and intrinsic is lowered to and
//! which checks guard it, source positions, integer literals, `match`
//! planning, variant tags, closure sites, the function and signature tables,
//! the entry points, and the decisions the build and the link make from
//! plain values.

pub mod arrays;
pub mod calls;
pub mod can_stop;
pub mod catches;
pub mod closures;
pub mod debug_info;
pub mod driver;
pub mod effects;
pub mod entry;
pub mod errors;
pub mod functions;
pub mod graph;
pub mod intrinsics;
pub mod ints;
pub mod lines;
pub mod names;
pub mod operators;
pub mod patterns;
pub mod runtime;
pub mod statics;
pub mod text;
pub mod timings;
pub mod toolchain;
pub mod variants;

use vstd::prelude::*;

verus! {

/// Whether small values are laid out flat rather than behind a header, given
/// `KHORA_UNBOXED`: on unless it is `0`, so a script that sets `1` keeps
/// working.
pub open spec fn unboxing_setting(setting: Option<Seq<char>>) -> bool {
    match setting {
        Some(v) => v != "0"@,
        None => true,
    }
}

/// Whether small values are laid out flat, given the value of
/// `KHORA_UNBOXED` (`None` when it is unset or not text).
pub fn unboxing_requested(setting: Option<&str>) -> (on: bool)
    ensures
        on == unboxing_setting(match setting {
            Some(v) => Some(v@),
            None => None,
        }),
{
    match setting {
        Some(v) => !text::same_text(v, "0"),
        None => true,
    }
}

} // verus!

