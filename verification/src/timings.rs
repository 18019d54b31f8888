//! Where a build's time went, when somebody asks: one line per phase and a
//! total. Wall clock, and reported when a phase ends, however it ends.

use vstd::prelude::*;

use crate::text::same_text;

verus! {

broadcast use vstd::string::group_string_axioms;

#[verifier::external_type_specification]
#[verifier::external_body]
pub struct ExInstant(std::time::Instant);

/// `std::time::Instant::now`: the current time. Nothing is claimed of it.
#[verifier::external_body]
fn now() -> (t: std::time::Instant) {
    std::time::Instant::now()
}

/// Whether this build was asked for timings, given `KHORA_TIMINGS`: set to
/// anything but `0`.
pub open spec fn timings_setting(setting: Option<Seq<char>>) -> bool {
    match setting {
        Some(v) => v != "0"@,
        None => false,
    }
}

/// Whether this build was asked for timings, given the value of
/// `KHORA_TIMINGS` (`None` when it is unset).
pub fn timings_requested(setting: Option<&str>) -> (wanted: bool)
    ensures
        wanted == timings_setting(match setting {
            Some(v) => Some(v@),
            None => None,
        }),
{
    match setting {
        Some(v) => !same_text(v, "0"),
        None => false,
    }
}

/// A phase of a build, timed from when it starts.
pub struct Phase {
    name: &'static str,
    began: std::time::Instant,
    live: bool,
}

impl Phase {
    /// The phase's name.
    pub closed spec fn spec_name(&self) -> Seq<char> {
        self.name@
    }

    /// Whether the phase reports.
    pub closed spec fn spec_live(&self) -> bool {
        self.live
    }

    /// The instant the phase recorded when it started.
    pub closed spec fn spec_began(&self) -> std::time::Instant {
        self.began
    }

    /// Starts timing a phase; `live` says whether anybody asked for timings.
    pub fn start(name: &'static str, live: bool) -> (phase: Phase)
        ensures
            phase.spec_name() == name@,
            phase.spec_live() == live,
    {
        Phase { name, began: now(), live }
    }

    /// The phase's name.
    pub fn name(&self) -> (n: &'static str)
        ensures
            n@ == self.spec_name(),
    {
        self.name
    }

    /// Whether the phase reports when it ends.
    pub fn live(&self) -> (b: bool)
        ensures
            b == self.spec_live(),
    {
        self.live
    }

    /// When the phase started: the instant it recorded then.
    pub fn began(&self) -> (t: std::time::Instant)
        ensures
            t == self.spec_began(),
    {
        self.began
    }
}

/// The whole build, reported last so it reads as a total under the parts.
pub struct Whole {
    began: std::time::Instant,
    live: bool,
}

impl Whole {
    /// Whether the total reports.
    pub closed spec fn spec_live(&self) -> bool {
        self.live
    }

    /// The instant the build recorded when it started.
    pub closed spec fn spec_began(&self) -> std::time::Instant {
        self.began
    }

    /// Starts timing the whole build; `live` says whether anybody asked.
    pub fn start(live: bool) -> (whole: Whole)
        ensures
            whole.spec_live() == live,
    {
        Whole { began: now(), live }
    }

    /// Whether the total reports when the build ends.
    pub fn live(&self) -> (b: bool)
        ensures
            b == self.spec_live(),
    {
        self.live
    }

    /// When the build started: the instant it recorded then.
    pub fn began(&self) -> (t: std::time::Instant)
        ensures
            t == self.spec_began(),
    {
        self.began
    }
}

} // verus!
