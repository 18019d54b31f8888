//! The runtime-owned handles — regions, shared cells, channels, fibers and
//! nurseries — and which runtime operation each of their intrinsics is.
//!
//! An intrinsic is named by its type, its name and how many arguments it is
//! given; any other combination is an operation the backend does not know,
//! and saying which is the whole of the error.

use vstd::prelude::*;

use crate::text::{owned, same_text};

verus! {

broadcast use vstd::string::group_string_axioms;

/// The text of a result whose error is a string.
pub open spec fn outcome_text<T>(r: Result<T, String>) -> Result<T, Seq<char>> {
    match r {
        Ok(v) => Ok(v),
        Err(e) => Err(e@),
    }
}

/// `` `Type::name` is not `` and what it is not.
pub open spec fn unknown(owner: Seq<char>, name: Seq<char>, what: Seq<char>) -> Seq<char> {
    "`"@ + owner + "::"@ + name + "` is not "@ + what
}

fn unknown_message(owner: &str, name: &str, what: &str) -> (message: String)
    ensures
        message@ == unknown(owner@, name@, what@),
{
    let mut message = owned("`");
    message.append(owner);
    message.append("::");
    message.append(name);
    message.append("` is not ");
    message.append(what);
    message
}

/// What a `Region` intrinsic is.
#[derive(Clone, Copy, PartialEq, Eq, Structural, Debug)]
pub enum RegionOperation {
    /// The region that lasts as long as the program.
    Root,
    Open,
    /// Runs a finalizer when the region closes.
    Defer,
}

/// The `Region` intrinsic `name` with `arity` arguments.
pub open spec fn region_operation_of(name: Seq<char>, arity: nat) -> Result<RegionOperation, Seq<char>> {
    if name == "root"@ && arity == 0 {
        Ok(RegionOperation::Root)
    } else if name == "open"@ && arity == 0 {
        Ok(RegionOperation::Open)
    } else if name == "defer"@ && arity == 2 {
        Ok(RegionOperation::Defer)
    } else {
        Err(unknown("Region"@, name, "a region operation the backend knows"@))
    }
}

/// The `Region` intrinsic `name` with `arity` arguments.
pub fn region_operation(name: &str, arity: usize) -> (op: Result<RegionOperation, String>)
    ensures
        outcome_text(op) == region_operation_of(name@, arity as nat),
{
    if arity == 0 && same_text(name, "root") {
        Ok(RegionOperation::Root)
    } else if arity == 0 && same_text(name, "open") {
        Ok(RegionOperation::Open)
    } else if arity == 2 && same_text(name, "defer") {
        Ok(RegionOperation::Defer)
    } else {
        proof {
            reveal_strlit("Region");
            reveal_strlit("a region operation the backend knows");
        }
        Err(unknown_message("Region", name, "a region operation the backend knows"))
    }
}

/// What a `Shared` intrinsic is: the synchronized cell.
#[derive(Clone, Copy, PartialEq, Eq, Structural, Debug)]
pub enum SharedOperation {
    Of,
    Get,
    /// `Shared::set`, which replaces the value.
    Put,
    /// Runs a change function on the value under the lock.
    Update,
    /// Runs a change function that also hands an answer back.
    Modify,
}

/// The `Shared` intrinsic `name` with `arity` arguments.
pub open spec fn shared_operation_of(name: Seq<char>, arity: nat) -> Result<SharedOperation, Seq<char>> {
    if name == "of"@ && arity == 1 {
        Ok(SharedOperation::Of)
    } else if name == "get"@ && arity == 1 {
        Ok(SharedOperation::Get)
    } else if name == "set"@ && arity == 2 {
        Ok(SharedOperation::Put)
    } else if name == "update"@ && arity == 2 {
        Ok(SharedOperation::Update)
    } else if name == "modify"@ && arity == 2 {
        Ok(SharedOperation::Modify)
    } else {
        Err(unknown("Shared"@, name, "an operation the backend knows"@))
    }
}

/// The `Shared` intrinsic `name` with `arity` arguments.
pub fn shared_operation(name: &str, arity: usize) -> (op: Result<SharedOperation, String>)
    ensures
        outcome_text(op) == shared_operation_of(name@, arity as nat),
{
    if arity == 1 && same_text(name, "of") {
        Ok(SharedOperation::Of)
    } else if arity == 1 && same_text(name, "get") {
        Ok(SharedOperation::Get)
    } else if arity == 2 && same_text(name, "set") {
        Ok(SharedOperation::Put)
    } else if arity == 2 && same_text(name, "update") {
        Ok(SharedOperation::Update)
    } else if arity == 2 && same_text(name, "modify") {
        Ok(SharedOperation::Modify)
    } else {
        proof {
            reveal_strlit("Shared");
            reveal_strlit("an operation the backend knows");
        }
        Err(unknown_message("Shared", name, "an operation the backend knows"))
    }
}

/// What a send does when a channel's queue is full.
#[derive(Clone, Copy, PartialEq, Eq, Structural, Debug)]
pub enum WhenFull {
    /// `Channel::bounded`: the sender waits.
    Wait,
    /// `Channel::dropping`: the new value is dropped.
    DropNewest,
    /// `Channel::sliding`: the oldest value is dropped.
    DropOldest,
}

/// The number the runtime is told a full-queue policy by.
pub open spec fn when_full_code(w: WhenFull) -> u64 {
    match w {
        WhenFull::Wait => 0,
        WhenFull::DropNewest => 1,
        WhenFull::DropOldest => 2,
    }
}

/// The number the runtime is told a full-queue policy by.
pub fn when_full_number(w: WhenFull) -> (n: u64)
    ensures
        n == when_full_code(w),
{
    match w {
        WhenFull::Wait => 0,
        WhenFull::DropNewest => 1,
        WhenFull::DropOldest => 2,
    }
}

/// What a `Channel` intrinsic is: the bounded channel.
#[derive(Clone, Copy, PartialEq, Eq, Structural, Debug)]
pub enum ChannelOperation {
    /// One of the three constructors, which differ only in what a send does
    /// when the queue is full.
    Open(WhenFull),
    Send,
    /// Waits for a value.
    Receive,
    /// Takes a value if there is one, without waiting.
    Poll,
    Close,
    Depth,
}

/// The `Channel` intrinsic `name` with `arity` arguments.
pub open spec fn channel_operation_of(name: Seq<char>, arity: nat) -> Result<ChannelOperation, Seq<char>> {
    if name == "bounded"@ && arity == 1 {
        Ok(ChannelOperation::Open(WhenFull::Wait))
    } else if name == "dropping"@ && arity == 1 {
        Ok(ChannelOperation::Open(WhenFull::DropNewest))
    } else if name == "sliding"@ && arity == 1 {
        Ok(ChannelOperation::Open(WhenFull::DropOldest))
    } else if name == "send"@ && arity == 2 {
        Ok(ChannelOperation::Send)
    } else if name == "receive"@ && arity == 1 {
        Ok(ChannelOperation::Receive)
    } else if name == "poll"@ && arity == 1 {
        Ok(ChannelOperation::Poll)
    } else if name == "close"@ && arity == 1 {
        Ok(ChannelOperation::Close)
    } else if name == "depth"@ && arity == 1 {
        Ok(ChannelOperation::Depth)
    } else {
        Err(unknown("Channel"@, name, "a channel operation the backend knows"@))
    }
}

/// The `Channel` intrinsic `name` with `arity` arguments.
pub fn channel_operation(name: &str, arity: usize) -> (op: Result<ChannelOperation, String>)
    ensures
        outcome_text(op) == channel_operation_of(name@, arity as nat),
{
    if arity == 1 && same_text(name, "bounded") {
        Ok(ChannelOperation::Open(WhenFull::Wait))
    } else if arity == 1 && same_text(name, "dropping") {
        Ok(ChannelOperation::Open(WhenFull::DropNewest))
    } else if arity == 1 && same_text(name, "sliding") {
        Ok(ChannelOperation::Open(WhenFull::DropOldest))
    } else if arity == 2 && same_text(name, "send") {
        Ok(ChannelOperation::Send)
    } else if arity == 1 && same_text(name, "receive") {
        Ok(ChannelOperation::Receive)
    } else if arity == 1 && same_text(name, "poll") {
        Ok(ChannelOperation::Poll)
    } else if arity == 1 && same_text(name, "close") {
        Ok(ChannelOperation::Close)
    } else if arity == 1 && same_text(name, "depth") {
        Ok(ChannelOperation::Depth)
    } else {
        proof {
            reveal_strlit("Channel");
            reveal_strlit("a channel operation the backend knows");
        }
        Err(unknown_message("Channel", name, "a channel operation the backend knows"))
    }
}

/// What a `SharedFn` intrinsic is: the certified-closure wrapper.
#[derive(Clone, Copy, PartialEq, Eq, Structural, Debug)]
pub enum SharedFnOperation {
    /// Wraps a closure; the wrapper is the closure itself.
    Of,
    Call,
}

/// The `SharedFn` intrinsic `name` with `arity` arguments.
pub open spec fn shared_fn_operation_of(name: Seq<char>, arity: nat) -> Result<SharedFnOperation, Seq<char>> {
    if name == "of"@ && arity == 1 {
        Ok(SharedFnOperation::Of)
    } else if name == "call"@ && arity == 2 {
        Ok(SharedFnOperation::Call)
    } else {
        Err(unknown("SharedFn"@, name, "an operation the backend knows"@))
    }
}

/// The `SharedFn` intrinsic `name` with `arity` arguments.
pub fn shared_fn_operation(name: &str, arity: usize) -> (op: Result<SharedFnOperation, String>)
    ensures
        outcome_text(op) == shared_fn_operation_of(name@, arity as nat),
{
    if arity == 1 && same_text(name, "of") {
        Ok(SharedFnOperation::Of)
    } else if arity == 2 && same_text(name, "call") {
        Ok(SharedFnOperation::Call)
    } else {
        proof {
            reveal_strlit("SharedFn");
            reveal_strlit("an operation the backend knows");
        }
        Err(unknown_message("SharedFn", name, "an operation the backend knows"))
    }
}

/// What a `Fiber` intrinsic is.
#[derive(Clone, Copy, PartialEq, Eq, Structural, Debug)]
pub enum FiberOperation {
    Spawn,
    /// Asks the fiber to stop at its next cancellation point.
    Cancel,
    /// Lets the fiber run on with nobody to join it.
    Detach,
    /// Stops the fiber without waiting for a cancellation point.
    Abort,
    /// Cancels the fiber, and forces it if it has not stopped in time.
    CancelWithin,
    /// Waits for the fiber to finish: a cancellation point for the waiter.
    Wait,
    Finished,
    Cancelled,
    /// The fiber's answer with a cancellation kept rather than raised.
    Outcome,
    Join,
}

/// The `Fiber` intrinsic `name` with `arity` arguments.
pub open spec fn fiber_operation_of(name: Seq<char>, arity: nat) -> Result<FiberOperation, Seq<char>> {
    if name == "spawn"@ && arity == 1 {
        Ok(FiberOperation::Spawn)
    } else if name == "cancel"@ && arity == 1 {
        Ok(FiberOperation::Cancel)
    } else if name == "detach"@ && arity == 1 {
        Ok(FiberOperation::Detach)
    } else if name == "abort"@ && arity == 1 {
        Ok(FiberOperation::Abort)
    } else if name == "cancel_within"@ && arity == 2 {
        Ok(FiberOperation::CancelWithin)
    } else if name == "wait"@ && arity == 1 {
        Ok(FiberOperation::Wait)
    } else if name == "finished"@ && arity == 1 {
        Ok(FiberOperation::Finished)
    } else if name == "cancelled"@ && arity == 1 {
        Ok(FiberOperation::Cancelled)
    } else if name == "outcome"@ && arity == 1 {
        Ok(FiberOperation::Outcome)
    } else if name == "join"@ && arity == 1 {
        Ok(FiberOperation::Join)
    } else {
        Err(unknown("Fiber"@, name, "a fiber operation the backend knows"@))
    }
}

/// The `Fiber` intrinsic `name` with `arity` arguments.
pub fn fiber_operation(name: &str, arity: usize) -> (op: Result<FiberOperation, String>)
    ensures
        outcome_text(op) == fiber_operation_of(name@, arity as nat),
{
    if arity == 1 && same_text(name, "spawn") {
        Ok(FiberOperation::Spawn)
    } else if arity == 1 && same_text(name, "cancel") {
        Ok(FiberOperation::Cancel)
    } else if arity == 1 && same_text(name, "detach") {
        Ok(FiberOperation::Detach)
    } else if arity == 1 && same_text(name, "abort") {
        Ok(FiberOperation::Abort)
    } else if arity == 2 && same_text(name, "cancel_within") {
        Ok(FiberOperation::CancelWithin)
    } else if arity == 1 && same_text(name, "wait") {
        Ok(FiberOperation::Wait)
    } else if arity == 1 && same_text(name, "finished") {
        Ok(FiberOperation::Finished)
    } else if arity == 1 && same_text(name, "cancelled") {
        Ok(FiberOperation::Cancelled)
    } else if arity == 1 && same_text(name, "outcome") {
        Ok(FiberOperation::Outcome)
    } else if arity == 1 && same_text(name, "join") {
        Ok(FiberOperation::Join)
    } else {
        proof {
            reveal_strlit("Fiber");
            reveal_strlit("a fiber operation the backend knows");
        }
        Err(unknown_message("Fiber", name, "a fiber operation the backend knows"))
    }
}

/// How a spawned fiber's body is called: one trampoline shape for every
/// body, so the runtime reads a stopped fiber the same way whatever its row.
#[derive(Clone, Copy, PartialEq, Eq, Structural, Debug)]
pub enum Trampoline {
    /// A body that can fail hands back its tag and writes its word.
    Tagged,
    /// A body that cannot fail hands back its answer, which this turns into
    /// the same two things; `word` is false when there is no answer to
    /// convert (`()`, a body that never returns, or a type with no machine
    /// type), and the word is then invented.
    Answered { word: bool },
}

/// The trampoline a spawned body is called through: `fallible` when its
/// row can raise, and `unit` when it has no answer to convert to a word.
pub open spec fn trampoline_of(fallible: bool, unit: bool) -> Trampoline {
    if fallible { Trampoline::Tagged } else { Trampoline::Answered { word: !unit } }
}

/// The trampoline a spawned body is called through.
pub fn trampoline(fallible: bool, unit: bool) -> (t: Trampoline)
    ensures
        t == trampoline_of(fallible, unit),
{
    if fallible {
        Trampoline::Tagged
    } else {
        Trampoline::Answered { word: !unit }
    }
}

/// What a `Fibers` intrinsic is: a nursery, the fibers a block is
/// responsible for.
#[derive(Clone, Copy, PartialEq, Eq, Structural, Debug)]
pub enum NurseryOperation {
    Open,
    /// A nursery that runs at most a given number of fibers at once.
    Bounded,
    /// Takes a fiber into the nursery.
    Adopt,
    Wait,
}

/// The `Fibers` intrinsic `name` with `arity` arguments.
pub open spec fn nursery_operation_of(name: Seq<char>, arity: nat) -> Result<NurseryOperation, Seq<char>> {
    if name == "open"@ && arity == 0 {
        Ok(NurseryOperation::Open)
    } else if name == "bounded"@ && arity == 1 {
        Ok(NurseryOperation::Bounded)
    } else if name == "adopt"@ && arity == 2 {
        Ok(NurseryOperation::Adopt)
    } else if name == "wait"@ && arity == 1 {
        Ok(NurseryOperation::Wait)
    } else {
        Err(unknown("Fibers"@, name, "a nursery operation the backend knows"@))
    }
}

/// The `Fibers` intrinsic `name` with `arity` arguments.
pub fn nursery_operation(name: &str, arity: usize) -> (op: Result<NurseryOperation, String>)
    ensures
        outcome_text(op) == nursery_operation_of(name@, arity as nat),
{
    if arity == 0 && same_text(name, "open") {
        Ok(NurseryOperation::Open)
    } else if arity == 1 && same_text(name, "bounded") {
        Ok(NurseryOperation::Bounded)
    } else if arity == 2 && same_text(name, "adopt") {
        Ok(NurseryOperation::Adopt)
    } else if arity == 1 && same_text(name, "wait") {
        Ok(NurseryOperation::Wait)
    } else {
        proof {
            reveal_strlit("Fibers");
            reveal_strlit("a nursery operation the backend knows");
        }
        Err(unknown_message("Fibers", name, "a nursery operation the backend knows"))
    }
}

} // verus!
