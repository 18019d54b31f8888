//! The runtime's interface as generated code sees it: each function's
//! symbol and machine signature, declared once per module.
//!
//! Every type at this boundary is fixed-width, so the interface has one
//! shape on every target; where the runtime takes a size it takes 64 bits
//! and narrows internally.

use vstd::prelude::*;

use crate::text::owned;

verus! {

/// A machine type at the runtime's boundary.
#[derive(Clone, Copy, PartialEq, Eq, Structural, Debug)]
pub enum Machine {
    /// No value: the return of a function that answers nothing.
    Void,
    /// A one-bit truth value.
    Bool,
    I8,
    I32,
    I64,
    /// A 64-bit IEEE double.
    Double,
    /// An opaque pointer.
    Ptr,
}

/// A function of the runtime that generated code can call.
#[derive(Clone, Copy, PartialEq, Eq, Structural, Debug)]
pub enum RuntimeFn {
    /// A fresh object: field bytes and tag.
    Alloc,
    /// One more reference to an object.
    Dup,
    /// One reference fewer, with the routine that releases the fields.
    Drop,
    /// Whether the host asked for a trap inside an exported call to be contained.
    ContainEnabled,
    /// One exported call under a landing point.
    ExportCall,
    /// Told by `main` when references were counted without atomics.
    SingleThreaded,
    /// The slow half of a drop that generated code decremented itself.
    DropLast,
    /// A drop whose last reference hands the memory back as a token.
    DropReuse,
    /// The safety net for a token nothing spent.
    FreeReuse,
    /// An allocation that spends a token when it fits.
    AllocReuse,
    /// Prints an `Int`.
    PrintInt,
    /// Prints a `Float`.
    PrintFloat,
    /// Prints a `Bool`, one byte holding 0 or 1.
    PrintBool,
    /// Prints a string's bytes.
    PrintStr,
    /// Whether two strings' bytes are equal.
    StrEq,
    /// Where one string first occurs in another.
    StrFind,
    /// A fresh region.
    RegionOpen,
    /// A finalizer for a region to run when it goes.
    RegionDefer,
    /// Releases a region: a `drop_fields` callback.
    RegionRelease,
    /// The program's root region.
    RegionRoot,
    /// Whether this computation was asked to stop.
    Cancelled,
    /// Stops a cancelled computation; does not return.
    CancelStop,
    /// A fresh synchronized cell.
    SharedOpen,
    /// A cell's value.
    SharedGet,
    /// Sets a cell's value.
    SharedSet,
    /// Updates a cell through a change.
    SharedUpdate,
    /// Modifies a cell and answers.
    SharedModify,
    /// Releases a cell: a `drop_fields` callback.
    SharedRelease,
    /// A fresh bounded channel: capacity, what a full send does, boxing, glue.
    ChannelOpen,
    /// Sends a value.
    ChannelSend,
    /// Receives a value, waiting for one.
    ChannelReceive,
    /// Receives a value without waiting.
    ChannelPoll,
    /// Closes a channel.
    ChannelClose,
    /// How many values wait in a channel.
    ChannelDepth,
    /// Releases a channel: a `drop_fields` callback.
    ChannelRelease,
    /// Starts a fiber.
    FiberSpawn,
    /// Joins a fiber: 0 when its answer is out, else an error to re-raise.
    FiberJoin,
    /// Lets a fiber run on alone.
    FiberDetach,
    /// Waits for a fiber without taking its answer.
    FiberWait,
    /// Asks a fiber to stop.
    FiberCancel,
    /// Releases a fiber: a `drop_fields` callback.
    FiberRelease,
    /// A fresh nursery.
    FibersOpen,
    /// A fresh nursery with a limit.
    FibersBounded,
    /// Gives a nursery a fiber.
    FibersAdopt,
    /// Waits for a nursery: how many children ended with an error.
    FibersWait,
    /// Releases a nursery: a `drop_fields` callback.
    FibersRelease,
    /// The program's arguments.
    ArgsSet,
    /// Whether bytes are UTF-8.
    Utf8Valid,
    /// A fresh array: length, fill, stride, boxing, glue.
    ArrayNew,
    /// Releases an array: a `drop_fields` callback.
    ArrayRelease,
    /// An index out of bounds; does not return.
    BoundsFail,
    /// An arithmetic overflow; does not return.
    Overflow,
    /// Says which error left `main`.
    Unhandled,
    /// Says which `assert` of a test did not hold, and where.
    AssertFailed,
    /// The first call of every entry point.
    Begin,
    /// Registers a test.
    TestRegister,
    /// Runs the registered tests.
    TestRun,
    /// At every loop back-edge.
    Safepoint,
    /// Registers a bench.
    BenchRegister,
    /// Runs the registered benches.
    BenchRun,
    /// Closes the root region.
    RegionCloseRoot,
    /// LLVM's trap, for a branch that cannot be taken.
    Trap,
}

/// A declaration of a runtime function: its symbol, its parameters' machine
/// types and its return type.
pub struct Declaration {
    pub name: String,
    pub params: Vec<Machine>,
    pub result: Machine,
}

impl View for Declaration {
    type V = (Seq<char>, Seq<Machine>, Machine);

    open spec fn view(&self) -> (Seq<char>, Seq<Machine>, Machine) {
        (self.name@, self.params@, self.result)
    }
}

/// Each runtime function's symbol and machine signature, as the runtime
/// exports it.
pub open spec fn signature(f: RuntimeFn) -> (Seq<char>, Seq<Machine>, Machine) {
    match f {
        RuntimeFn::Alloc => ("khora_alloc"@, seq![Machine::I64, Machine::I32], Machine::Ptr),
        RuntimeFn::Dup => ("khora_dup"@, seq![Machine::Ptr], Machine::Void),
        RuntimeFn::Drop => ("khora_drop"@, seq![Machine::Ptr, Machine::Ptr], Machine::Void),
        RuntimeFn::ContainEnabled => ("khora_contain_enabled"@, Seq::empty(), Machine::I32),
        RuntimeFn::ExportCall => ("khora_export_call"@, seq![Machine::Ptr, Machine::Ptr], Machine::I64),
        RuntimeFn::SingleThreaded => ("khora_single_threaded"@, Seq::empty(), Machine::Void),
        RuntimeFn::DropLast => ("khora_drop_last"@, seq![Machine::Ptr, Machine::Ptr, Machine::I64], Machine::Void),
        RuntimeFn::DropReuse => ("khora_drop_reuse"@, seq![Machine::Ptr, Machine::Ptr], Machine::Ptr),
        RuntimeFn::FreeReuse => ("khora_free_reuse"@, seq![Machine::Ptr], Machine::Void),
        RuntimeFn::AllocReuse => ("khora_alloc_reuse"@, seq![Machine::Ptr, Machine::I64, Machine::I32], Machine::Ptr),
        RuntimeFn::PrintInt => ("khora_print_int"@, seq![Machine::I64], Machine::Void),
        RuntimeFn::PrintFloat => ("khora_print_float"@, seq![Machine::Double], Machine::Void),
        RuntimeFn::PrintBool => ("khora_print_bool"@, seq![Machine::I8], Machine::Void),
        RuntimeFn::PrintStr => ("khora_print_str"@, seq![Machine::Ptr, Machine::I64], Machine::Void),
        RuntimeFn::StrEq => ("khora_str_eq"@, seq![Machine::Ptr, Machine::I64, Machine::Ptr, Machine::I64], Machine::I8),
        RuntimeFn::StrFind => ("khora_str_find"@, seq![Machine::Ptr, Machine::I64, Machine::Ptr, Machine::I64], Machine::I64),
        RuntimeFn::RegionOpen => ("khora_region_open"@, Seq::empty(), Machine::Ptr),
        RuntimeFn::RegionDefer => ("khora_region_defer"@, seq![Machine::Ptr, Machine::Ptr, Machine::Ptr], Machine::Void),
        RuntimeFn::RegionRelease => ("khora_region_release"@, seq![Machine::Ptr], Machine::Void),
        RuntimeFn::RegionRoot => ("khora_region_root"@, Seq::empty(), Machine::Ptr),
        RuntimeFn::Cancelled => ("khora_cancelled"@, Seq::empty(), Machine::I8),
        RuntimeFn::CancelStop => ("khora_cancel_stop"@, Seq::empty(), Machine::Void),
        RuntimeFn::SharedOpen => ("khora_shared_open"@, seq![Machine::I64, Machine::Bool, Machine::Ptr], Machine::Ptr),
        RuntimeFn::SharedGet => ("khora_shared_get"@, seq![Machine::Ptr], Machine::I64),
        RuntimeFn::SharedSet => ("khora_shared_set"@, seq![Machine::Ptr, Machine::I64], Machine::Void),
        RuntimeFn::SharedUpdate => ("khora_shared_update"@, seq![Machine::Ptr, Machine::Ptr, Machine::Ptr], Machine::I64),
        RuntimeFn::SharedModify => ("khora_shared_modify"@, seq![Machine::Ptr, Machine::Ptr, Machine::Ptr, Machine::Ptr], Machine::I64),
        RuntimeFn::SharedRelease => ("khora_shared_release"@, seq![Machine::Ptr], Machine::Void),
        RuntimeFn::ChannelOpen => ("khora_channel_open"@, seq![Machine::I64, Machine::I64, Machine::Bool, Machine::Ptr], Machine::Ptr),
        RuntimeFn::ChannelSend => ("khora_channel_send"@, seq![Machine::Ptr, Machine::I64], Machine::Bool),
        RuntimeFn::ChannelReceive => ("khora_channel_receive"@, seq![Machine::Ptr, Machine::Ptr], Machine::Bool),
        RuntimeFn::ChannelPoll => ("khora_channel_poll"@, seq![Machine::Ptr, Machine::Ptr], Machine::Bool),
        RuntimeFn::ChannelClose => ("khora_channel_close"@, seq![Machine::Ptr], Machine::Void),
        RuntimeFn::ChannelDepth => ("khora_channel_depth"@, seq![Machine::Ptr], Machine::I64),
        RuntimeFn::ChannelRelease => ("khora_channel_release"@, seq![Machine::Ptr], Machine::Void),
        RuntimeFn::FiberSpawn => ("khora_fiber_spawn"@, seq![Machine::Ptr, Machine::Ptr, Machine::Ptr, Machine::Ptr, Machine::Bool, Machine::Ptr], Machine::Ptr),
        RuntimeFn::FiberJoin => ("khora_fiber_join"@, seq![Machine::Ptr, Machine::Ptr], Machine::I32),
        RuntimeFn::FiberDetach => ("khora_fiber_detach"@, seq![Machine::Ptr], Machine::Void),
        RuntimeFn::FiberWait => ("khora_fiber_wait"@, seq![Machine::Ptr], Machine::Void),
        RuntimeFn::FiberCancel => ("khora_fiber_cancel"@, seq![Machine::Ptr], Machine::Void),
        RuntimeFn::FiberRelease => ("khora_fiber_release"@, seq![Machine::Ptr], Machine::Void),
        RuntimeFn::FibersOpen => ("khora_fibers_open"@, Seq::empty(), Machine::Ptr),
        RuntimeFn::FibersBounded => ("khora_fibers_open_bounded"@, seq![Machine::I64], Machine::Ptr),
        RuntimeFn::FibersAdopt => ("khora_fibers_adopt"@, seq![Machine::Ptr, Machine::Ptr], Machine::Void),
        RuntimeFn::FibersWait => ("khora_fibers_wait"@, seq![Machine::Ptr], Machine::I64),
        RuntimeFn::FibersRelease => ("khora_fibers_release"@, seq![Machine::Ptr], Machine::Void),
        RuntimeFn::ArgsSet => ("khora_args_set"@, seq![Machine::I32, Machine::Ptr], Machine::Void),
        RuntimeFn::Utf8Valid => ("khora_utf8_valid"@, seq![Machine::Ptr, Machine::I64], Machine::Bool),
        RuntimeFn::ArrayNew => ("khora_array_new"@, seq![Machine::I64, Machine::I64, Machine::I8, Machine::I8, Machine::Ptr], Machine::Ptr),
        RuntimeFn::ArrayRelease => ("khora_array_release"@, seq![Machine::Ptr], Machine::Void),
        RuntimeFn::BoundsFail => ("khora_bounds_fail"@, seq![Machine::I64, Machine::I64], Machine::Void),
        RuntimeFn::Overflow => ("khora_overflow"@, seq![Machine::Ptr, Machine::I64], Machine::Void),
        RuntimeFn::Unhandled => ("khora_unhandled"@, seq![Machine::Ptr, Machine::I64], Machine::Void),
        RuntimeFn::AssertFailed => ("khora_assert_failed"@, seq![Machine::I32, Machine::I32], Machine::Void),
        RuntimeFn::Begin => ("khora_begin"@, Seq::empty(), Machine::Void),
        RuntimeFn::TestRegister => ("khora_test_register"@, seq![Machine::Ptr, Machine::I64, Machine::Ptr, Machine::Ptr], Machine::Void),
        RuntimeFn::TestRun => ("khora_test_run"@, Seq::empty(), Machine::I32),
        RuntimeFn::Safepoint => ("khora_safepoint"@, Seq::empty(), Machine::Void),
        RuntimeFn::BenchRegister => ("khora_bench_register"@, seq![Machine::Ptr, Machine::I64, Machine::Ptr, Machine::Ptr], Machine::Void),
        RuntimeFn::BenchRun => ("khora_bench_run"@, Seq::empty(), Machine::I32),
        RuntimeFn::RegionCloseRoot => ("khora_region_close_root"@, Seq::empty(), Machine::Void),
        RuntimeFn::Trap => ("llvm.trap"@, Seq::empty(), Machine::Void),
    }
}

/// Every runtime function, in the order the interface declares them.
pub open spec fn all_runtime_fns() -> Seq<RuntimeFn> {
    seq![
        RuntimeFn::Alloc,
        RuntimeFn::Dup,
        RuntimeFn::Drop,
        RuntimeFn::ContainEnabled,
        RuntimeFn::ExportCall,
        RuntimeFn::SingleThreaded,
        RuntimeFn::DropLast,
        RuntimeFn::DropReuse,
        RuntimeFn::FreeReuse,
        RuntimeFn::AllocReuse,
        RuntimeFn::PrintInt,
        RuntimeFn::PrintFloat,
        RuntimeFn::PrintBool,
        RuntimeFn::PrintStr,
        RuntimeFn::StrEq,
        RuntimeFn::StrFind,
        RuntimeFn::RegionOpen,
        RuntimeFn::RegionDefer,
        RuntimeFn::RegionRelease,
        RuntimeFn::RegionRoot,
        RuntimeFn::Cancelled,
        RuntimeFn::CancelStop,
        RuntimeFn::SharedOpen,
        RuntimeFn::SharedGet,
        RuntimeFn::SharedSet,
        RuntimeFn::SharedUpdate,
        RuntimeFn::SharedModify,
        RuntimeFn::SharedRelease,
        RuntimeFn::ChannelOpen,
        RuntimeFn::ChannelSend,
        RuntimeFn::ChannelReceive,
        RuntimeFn::ChannelPoll,
        RuntimeFn::ChannelClose,
        RuntimeFn::ChannelDepth,
        RuntimeFn::ChannelRelease,
        RuntimeFn::FiberSpawn,
        RuntimeFn::FiberJoin,
        RuntimeFn::FiberDetach,
        RuntimeFn::FiberWait,
        RuntimeFn::FiberCancel,
        RuntimeFn::FiberRelease,
        RuntimeFn::FibersOpen,
        RuntimeFn::FibersBounded,
        RuntimeFn::FibersAdopt,
        RuntimeFn::FibersWait,
        RuntimeFn::FibersRelease,
        RuntimeFn::ArgsSet,
        RuntimeFn::Utf8Valid,
        RuntimeFn::ArrayNew,
        RuntimeFn::ArrayRelease,
        RuntimeFn::BoundsFail,
        RuntimeFn::Overflow,
        RuntimeFn::Unhandled,
        RuntimeFn::AssertFailed,
        RuntimeFn::Begin,
        RuntimeFn::TestRegister,
        RuntimeFn::TestRun,
        RuntimeFn::Safepoint,
        RuntimeFn::BenchRegister,
        RuntimeFn::BenchRun,
        RuntimeFn::RegionCloseRoot,
        RuntimeFn::Trap,
    ]
}

/// Where a function stands in the interface's order.
pub open spec fn position(f: RuntimeFn) -> int {
    match f {
        RuntimeFn::Alloc => 0,
        RuntimeFn::Dup => 1,
        RuntimeFn::Drop => 2,
        RuntimeFn::ContainEnabled => 3,
        RuntimeFn::ExportCall => 4,
        RuntimeFn::SingleThreaded => 5,
        RuntimeFn::DropLast => 6,
        RuntimeFn::DropReuse => 7,
        RuntimeFn::FreeReuse => 8,
        RuntimeFn::AllocReuse => 9,
        RuntimeFn::PrintInt => 10,
        RuntimeFn::PrintFloat => 11,
        RuntimeFn::PrintBool => 12,
        RuntimeFn::PrintStr => 13,
        RuntimeFn::StrEq => 14,
        RuntimeFn::StrFind => 15,
        RuntimeFn::RegionOpen => 16,
        RuntimeFn::RegionDefer => 17,
        RuntimeFn::RegionRelease => 18,
        RuntimeFn::RegionRoot => 19,
        RuntimeFn::Cancelled => 20,
        RuntimeFn::CancelStop => 21,
        RuntimeFn::SharedOpen => 22,
        RuntimeFn::SharedGet => 23,
        RuntimeFn::SharedSet => 24,
        RuntimeFn::SharedUpdate => 25,
        RuntimeFn::SharedModify => 26,
        RuntimeFn::SharedRelease => 27,
        RuntimeFn::ChannelOpen => 28,
        RuntimeFn::ChannelSend => 29,
        RuntimeFn::ChannelReceive => 30,
        RuntimeFn::ChannelPoll => 31,
        RuntimeFn::ChannelClose => 32,
        RuntimeFn::ChannelDepth => 33,
        RuntimeFn::ChannelRelease => 34,
        RuntimeFn::FiberSpawn => 35,
        RuntimeFn::FiberJoin => 36,
        RuntimeFn::FiberDetach => 37,
        RuntimeFn::FiberWait => 38,
        RuntimeFn::FiberCancel => 39,
        RuntimeFn::FiberRelease => 40,
        RuntimeFn::FibersOpen => 41,
        RuntimeFn::FibersBounded => 42,
        RuntimeFn::FibersAdopt => 43,
        RuntimeFn::FibersWait => 44,
        RuntimeFn::FibersRelease => 45,
        RuntimeFn::ArgsSet => 46,
        RuntimeFn::Utf8Valid => 47,
        RuntimeFn::ArrayNew => 48,
        RuntimeFn::ArrayRelease => 49,
        RuntimeFn::BoundsFail => 50,
        RuntimeFn::Overflow => 51,
        RuntimeFn::Unhandled => 52,
        RuntimeFn::AssertFailed => 53,
        RuntimeFn::Begin => 54,
        RuntimeFn::TestRegister => 55,
        RuntimeFn::TestRun => 56,
        RuntimeFn::Safepoint => 57,
        RuntimeFn::BenchRegister => 58,
        RuntimeFn::BenchRun => 59,
        RuntimeFn::RegionCloseRoot => 60,
        RuntimeFn::Trap => 61,
    }
}

/// Each function stands in the interface's list at its position: the
/// list names every function of the runtime.
pub proof fn law_every_function_is_listed(f: RuntimeFn)
    ensures
        0 <= position(f) < all_runtime_fns().len(),
        all_runtime_fns()[position(f)] == f,
{
}

/// A function's symbol.
fn symbol(f: RuntimeFn) -> (name: &'static str)
    ensures
        name@ == signature(f).0,
{
    match f {
        RuntimeFn::Alloc => "khora_alloc",
        RuntimeFn::Dup => "khora_dup",
        RuntimeFn::Drop => "khora_drop",
        RuntimeFn::ContainEnabled => "khora_contain_enabled",
        RuntimeFn::ExportCall => "khora_export_call",
        RuntimeFn::SingleThreaded => "khora_single_threaded",
        RuntimeFn::DropLast => "khora_drop_last",
        RuntimeFn::DropReuse => "khora_drop_reuse",
        RuntimeFn::FreeReuse => "khora_free_reuse",
        RuntimeFn::AllocReuse => "khora_alloc_reuse",
        RuntimeFn::PrintInt => "khora_print_int",
        RuntimeFn::PrintFloat => "khora_print_float",
        RuntimeFn::PrintBool => "khora_print_bool",
        RuntimeFn::PrintStr => "khora_print_str",
        RuntimeFn::StrEq => "khora_str_eq",
        RuntimeFn::StrFind => "khora_str_find",
        RuntimeFn::RegionOpen => "khora_region_open",
        RuntimeFn::RegionDefer => "khora_region_defer",
        RuntimeFn::RegionRelease => "khora_region_release",
        RuntimeFn::RegionRoot => "khora_region_root",
        RuntimeFn::Cancelled => "khora_cancelled",
        RuntimeFn::CancelStop => "khora_cancel_stop",
        RuntimeFn::SharedOpen => "khora_shared_open",
        RuntimeFn::SharedGet => "khora_shared_get",
        RuntimeFn::SharedSet => "khora_shared_set",
        RuntimeFn::SharedUpdate => "khora_shared_update",
        RuntimeFn::SharedModify => "khora_shared_modify",
        RuntimeFn::SharedRelease => "khora_shared_release",
        RuntimeFn::ChannelOpen => "khora_channel_open",
        RuntimeFn::ChannelSend => "khora_channel_send",
        RuntimeFn::ChannelReceive => "khora_channel_receive",
        RuntimeFn::ChannelPoll => "khora_channel_poll",
        RuntimeFn::ChannelClose => "khora_channel_close",
        RuntimeFn::ChannelDepth => "khora_channel_depth",
        RuntimeFn::ChannelRelease => "khora_channel_release",
        RuntimeFn::FiberSpawn => "khora_fiber_spawn",
        RuntimeFn::FiberJoin => "khora_fiber_join",
        RuntimeFn::FiberDetach => "khora_fiber_detach",
        RuntimeFn::FiberWait => "khora_fiber_wait",
        RuntimeFn::FiberCancel => "khora_fiber_cancel",
        RuntimeFn::FiberRelease => "khora_fiber_release",
        RuntimeFn::FibersOpen => "khora_fibers_open",
        RuntimeFn::FibersBounded => "khora_fibers_open_bounded",
        RuntimeFn::FibersAdopt => "khora_fibers_adopt",
        RuntimeFn::FibersWait => "khora_fibers_wait",
        RuntimeFn::FibersRelease => "khora_fibers_release",
        RuntimeFn::ArgsSet => "khora_args_set",
        RuntimeFn::Utf8Valid => "khora_utf8_valid",
        RuntimeFn::ArrayNew => "khora_array_new",
        RuntimeFn::ArrayRelease => "khora_array_release",
        RuntimeFn::BoundsFail => "khora_bounds_fail",
        RuntimeFn::Overflow => "khora_overflow",
        RuntimeFn::Unhandled => "khora_unhandled",
        RuntimeFn::AssertFailed => "khora_assert_failed",
        RuntimeFn::Begin => "khora_begin",
        RuntimeFn::TestRegister => "khora_test_register",
        RuntimeFn::TestRun => "khora_test_run",
        RuntimeFn::Safepoint => "khora_safepoint",
        RuntimeFn::BenchRegister => "khora_bench_register",
        RuntimeFn::BenchRun => "khora_bench_run",
        RuntimeFn::RegionCloseRoot => "khora_region_close_root",
        RuntimeFn::Trap => "llvm.trap",
    }
}

/// A function's parameters' machine types.
fn parameters(f: RuntimeFn) -> (params: Vec<Machine>)
    ensures
        params@ == signature(f).1,
{
    match f {
        RuntimeFn::Alloc => vec![Machine::I64, Machine::I32],
        RuntimeFn::Dup => vec![Machine::Ptr],
        RuntimeFn::Drop => vec![Machine::Ptr, Machine::Ptr],
        RuntimeFn::ContainEnabled => Vec::new(),
        RuntimeFn::ExportCall => vec![Machine::Ptr, Machine::Ptr],
        RuntimeFn::SingleThreaded => Vec::new(),
        RuntimeFn::DropLast => vec![Machine::Ptr, Machine::Ptr, Machine::I64],
        RuntimeFn::DropReuse => vec![Machine::Ptr, Machine::Ptr],
        RuntimeFn::FreeReuse => vec![Machine::Ptr],
        RuntimeFn::AllocReuse => vec![Machine::Ptr, Machine::I64, Machine::I32],
        RuntimeFn::PrintInt => vec![Machine::I64],
        RuntimeFn::PrintFloat => vec![Machine::Double],
        RuntimeFn::PrintBool => vec![Machine::I8],
        RuntimeFn::PrintStr => vec![Machine::Ptr, Machine::I64],
        RuntimeFn::StrEq => vec![Machine::Ptr, Machine::I64, Machine::Ptr, Machine::I64],
        RuntimeFn::StrFind => vec![Machine::Ptr, Machine::I64, Machine::Ptr, Machine::I64],
        RuntimeFn::RegionOpen => Vec::new(),
        RuntimeFn::RegionDefer => vec![Machine::Ptr, Machine::Ptr, Machine::Ptr],
        RuntimeFn::RegionRelease => vec![Machine::Ptr],
        RuntimeFn::RegionRoot => Vec::new(),
        RuntimeFn::Cancelled => Vec::new(),
        RuntimeFn::CancelStop => Vec::new(),
        RuntimeFn::SharedOpen => vec![Machine::I64, Machine::Bool, Machine::Ptr],
        RuntimeFn::SharedGet => vec![Machine::Ptr],
        RuntimeFn::SharedSet => vec![Machine::Ptr, Machine::I64],
        RuntimeFn::SharedUpdate => vec![Machine::Ptr, Machine::Ptr, Machine::Ptr],
        RuntimeFn::SharedModify => vec![Machine::Ptr, Machine::Ptr, Machine::Ptr, Machine::Ptr],
        RuntimeFn::SharedRelease => vec![Machine::Ptr],
        RuntimeFn::ChannelOpen => vec![Machine::I64, Machine::I64, Machine::Bool, Machine::Ptr],
        RuntimeFn::ChannelSend => vec![Machine::Ptr, Machine::I64],
        RuntimeFn::ChannelReceive => vec![Machine::Ptr, Machine::Ptr],
        RuntimeFn::ChannelPoll => vec![Machine::Ptr, Machine::Ptr],
        RuntimeFn::ChannelClose => vec![Machine::Ptr],
        RuntimeFn::ChannelDepth => vec![Machine::Ptr],
        RuntimeFn::ChannelRelease => vec![Machine::Ptr],
        RuntimeFn::FiberSpawn => vec![Machine::Ptr, Machine::Ptr, Machine::Ptr, Machine::Ptr, Machine::Bool, Machine::Ptr],
        RuntimeFn::FiberJoin => vec![Machine::Ptr, Machine::Ptr],
        RuntimeFn::FiberDetach => vec![Machine::Ptr],
        RuntimeFn::FiberWait => vec![Machine::Ptr],
        RuntimeFn::FiberCancel => vec![Machine::Ptr],
        RuntimeFn::FiberRelease => vec![Machine::Ptr],
        RuntimeFn::FibersOpen => Vec::new(),
        RuntimeFn::FibersBounded => vec![Machine::I64],
        RuntimeFn::FibersAdopt => vec![Machine::Ptr, Machine::Ptr],
        RuntimeFn::FibersWait => vec![Machine::Ptr],
        RuntimeFn::FibersRelease => vec![Machine::Ptr],
        RuntimeFn::ArgsSet => vec![Machine::I32, Machine::Ptr],
        RuntimeFn::Utf8Valid => vec![Machine::Ptr, Machine::I64],
        RuntimeFn::ArrayNew => vec![Machine::I64, Machine::I64, Machine::I8, Machine::I8, Machine::Ptr],
        RuntimeFn::ArrayRelease => vec![Machine::Ptr],
        RuntimeFn::BoundsFail => vec![Machine::I64, Machine::I64],
        RuntimeFn::Overflow => vec![Machine::Ptr, Machine::I64],
        RuntimeFn::Unhandled => vec![Machine::Ptr, Machine::I64],
        RuntimeFn::AssertFailed => vec![Machine::I32, Machine::I32],
        RuntimeFn::Begin => Vec::new(),
        RuntimeFn::TestRegister => vec![Machine::Ptr, Machine::I64, Machine::Ptr, Machine::Ptr],
        RuntimeFn::TestRun => Vec::new(),
        RuntimeFn::Safepoint => Vec::new(),
        RuntimeFn::BenchRegister => vec![Machine::Ptr, Machine::I64, Machine::Ptr, Machine::Ptr],
        RuntimeFn::BenchRun => Vec::new(),
        RuntimeFn::RegionCloseRoot => Vec::new(),
        RuntimeFn::Trap => Vec::new(),
    }
}

/// A function's return type.
fn result_type(f: RuntimeFn) -> (result: Machine)
    ensures
        result == signature(f).2,
{
    match f {
        RuntimeFn::Alloc => Machine::Ptr,
        RuntimeFn::Dup => Machine::Void,
        RuntimeFn::Drop => Machine::Void,
        RuntimeFn::ContainEnabled => Machine::I32,
        RuntimeFn::ExportCall => Machine::I64,
        RuntimeFn::SingleThreaded => Machine::Void,
        RuntimeFn::DropLast => Machine::Void,
        RuntimeFn::DropReuse => Machine::Ptr,
        RuntimeFn::FreeReuse => Machine::Void,
        RuntimeFn::AllocReuse => Machine::Ptr,
        RuntimeFn::PrintInt => Machine::Void,
        RuntimeFn::PrintFloat => Machine::Void,
        RuntimeFn::PrintBool => Machine::Void,
        RuntimeFn::PrintStr => Machine::Void,
        RuntimeFn::StrEq => Machine::I8,
        RuntimeFn::StrFind => Machine::I64,
        RuntimeFn::RegionOpen => Machine::Ptr,
        RuntimeFn::RegionDefer => Machine::Void,
        RuntimeFn::RegionRelease => Machine::Void,
        RuntimeFn::RegionRoot => Machine::Ptr,
        RuntimeFn::Cancelled => Machine::I8,
        RuntimeFn::CancelStop => Machine::Void,
        RuntimeFn::SharedOpen => Machine::Ptr,
        RuntimeFn::SharedGet => Machine::I64,
        RuntimeFn::SharedSet => Machine::Void,
        RuntimeFn::SharedUpdate => Machine::I64,
        RuntimeFn::SharedModify => Machine::I64,
        RuntimeFn::SharedRelease => Machine::Void,
        RuntimeFn::ChannelOpen => Machine::Ptr,
        RuntimeFn::ChannelSend => Machine::Bool,
        RuntimeFn::ChannelReceive => Machine::Bool,
        RuntimeFn::ChannelPoll => Machine::Bool,
        RuntimeFn::ChannelClose => Machine::Void,
        RuntimeFn::ChannelDepth => Machine::I64,
        RuntimeFn::ChannelRelease => Machine::Void,
        RuntimeFn::FiberSpawn => Machine::Ptr,
        RuntimeFn::FiberJoin => Machine::I32,
        RuntimeFn::FiberDetach => Machine::Void,
        RuntimeFn::FiberWait => Machine::Void,
        RuntimeFn::FiberCancel => Machine::Void,
        RuntimeFn::FiberRelease => Machine::Void,
        RuntimeFn::FibersOpen => Machine::Ptr,
        RuntimeFn::FibersBounded => Machine::Ptr,
        RuntimeFn::FibersAdopt => Machine::Void,
        RuntimeFn::FibersWait => Machine::I64,
        RuntimeFn::FibersRelease => Machine::Void,
        RuntimeFn::ArgsSet => Machine::Void,
        RuntimeFn::Utf8Valid => Machine::Bool,
        RuntimeFn::ArrayNew => Machine::Ptr,
        RuntimeFn::ArrayRelease => Machine::Void,
        RuntimeFn::BoundsFail => Machine::Void,
        RuntimeFn::Overflow => Machine::Void,
        RuntimeFn::Unhandled => Machine::Void,
        RuntimeFn::AssertFailed => Machine::Void,
        RuntimeFn::Begin => Machine::Void,
        RuntimeFn::TestRegister => Machine::Void,
        RuntimeFn::TestRun => Machine::I32,
        RuntimeFn::Safepoint => Machine::Void,
        RuntimeFn::BenchRegister => Machine::Void,
        RuntimeFn::BenchRun => Machine::I32,
        RuntimeFn::RegionCloseRoot => Machine::Void,
        RuntimeFn::Trap => Machine::Void,
    }
}

/// The declaration of one runtime function.
pub fn declaration(f: RuntimeFn) -> (d: Declaration)
    ensures
        d@ == signature(f),
{
    Declaration { name: owned(symbol(f)), params: parameters(f), result: result_type(f) }
}

/// Every runtime function, in the interface's order.
pub fn runtime_fns() -> (fns: Vec<RuntimeFn>)
    ensures
        fns@ == all_runtime_fns(),
{
    let fns = vec![
        RuntimeFn::Alloc,
        RuntimeFn::Dup,
        RuntimeFn::Drop,
        RuntimeFn::ContainEnabled,
        RuntimeFn::ExportCall,
        RuntimeFn::SingleThreaded,
        RuntimeFn::DropLast,
        RuntimeFn::DropReuse,
        RuntimeFn::FreeReuse,
        RuntimeFn::AllocReuse,
        RuntimeFn::PrintInt,
        RuntimeFn::PrintFloat,
        RuntimeFn::PrintBool,
        RuntimeFn::PrintStr,
        RuntimeFn::StrEq,
        RuntimeFn::StrFind,
        RuntimeFn::RegionOpen,
        RuntimeFn::RegionDefer,
        RuntimeFn::RegionRelease,
        RuntimeFn::RegionRoot,
        RuntimeFn::Cancelled,
        RuntimeFn::CancelStop,
        RuntimeFn::SharedOpen,
        RuntimeFn::SharedGet,
        RuntimeFn::SharedSet,
        RuntimeFn::SharedUpdate,
        RuntimeFn::SharedModify,
        RuntimeFn::SharedRelease,
        RuntimeFn::ChannelOpen,
        RuntimeFn::ChannelSend,
        RuntimeFn::ChannelReceive,
        RuntimeFn::ChannelPoll,
        RuntimeFn::ChannelClose,
        RuntimeFn::ChannelDepth,
        RuntimeFn::ChannelRelease,
        RuntimeFn::FiberSpawn,
        RuntimeFn::FiberJoin,
        RuntimeFn::FiberDetach,
        RuntimeFn::FiberWait,
        RuntimeFn::FiberCancel,
        RuntimeFn::FiberRelease,
        RuntimeFn::FibersOpen,
        RuntimeFn::FibersBounded,
        RuntimeFn::FibersAdopt,
        RuntimeFn::FibersWait,
        RuntimeFn::FibersRelease,
        RuntimeFn::ArgsSet,
        RuntimeFn::Utf8Valid,
        RuntimeFn::ArrayNew,
        RuntimeFn::ArrayRelease,
        RuntimeFn::BoundsFail,
        RuntimeFn::Overflow,
        RuntimeFn::Unhandled,
        RuntimeFn::AssertFailed,
        RuntimeFn::Begin,
        RuntimeFn::TestRegister,
        RuntimeFn::TestRun,
        RuntimeFn::Safepoint,
        RuntimeFn::BenchRegister,
        RuntimeFn::BenchRun,
        RuntimeFn::RegionCloseRoot,
        RuntimeFn::Trap,
    ];
    assert(fns@ =~= all_runtime_fns());
    fns
}

/// The runtime's interface declared into a module: one declaration per
/// function, found again by the function.
pub struct Runtime {
    declarations: Vec<Declaration>,
}

impl Runtime {
    /// Each function's declaration stands at its position.
    #[verifier::type_invariant]
    spec fn declared_in_order(self) -> bool {
        &&& self.declarations@.len() == all_runtime_fns().len()
        &&& forall|i: int| 0 <= i < self.declarations@.len() ==> #[trigger] self.declarations@[i]@ == signature(all_runtime_fns()[i])
    }

    /// The declarations, in the interface's order.
    pub closed spec fn declarations(self) -> Seq<(Seq<char>, Seq<Machine>, Machine)> {
        self.declarations@.map_values(|d: Declaration| d@)
    }

    /// Declares every function of the runtime, each once, in the
    /// interface's order.
    pub fn declare() -> (runtime: Runtime)
        ensures
            runtime.declarations() == all_runtime_fns().map_values(|f: RuntimeFn| signature(f)),
    {
        let fns = runtime_fns();
        let mut declarations: Vec<Declaration> = Vec::new();
        let mut i: usize = 0;
        while i < fns.len()
            invariant
                i <= fns.len(),
                fns@ == all_runtime_fns(),
                declarations@.len() == i,
                forall|j: int| 0 <= j < i ==> #[trigger] declarations@[j]@ == signature(all_runtime_fns()[j]),
            decreases fns.len() - i,
        {
            declarations.push(declaration(fns[i]));
            i = i + 1;
        }
        let runtime = Runtime { declarations };
        assert(runtime.declarations() =~= all_runtime_fns().map_values(|f: RuntimeFn| signature(f)));
        runtime
    }

    /// The declaration of one function.
    pub fn get(&self, f: RuntimeFn) -> (d: &Declaration)
        ensures
            d@ == signature(f),
    {
        proof {
            use_type_invariant(self);
            law_every_function_is_listed(f);
        }
        let k = self.index(f);
        &self.declarations[k]
    }

    fn index(&self, f: RuntimeFn) -> (k: usize)
        ensures
            k == position(f),
    {
        match f {
            RuntimeFn::Alloc => 0,
            RuntimeFn::Dup => 1,
            RuntimeFn::Drop => 2,
            RuntimeFn::ContainEnabled => 3,
            RuntimeFn::ExportCall => 4,
            RuntimeFn::SingleThreaded => 5,
            RuntimeFn::DropLast => 6,
            RuntimeFn::DropReuse => 7,
            RuntimeFn::FreeReuse => 8,
            RuntimeFn::AllocReuse => 9,
            RuntimeFn::PrintInt => 10,
            RuntimeFn::PrintFloat => 11,
            RuntimeFn::PrintBool => 12,
            RuntimeFn::PrintStr => 13,
            RuntimeFn::StrEq => 14,
            RuntimeFn::StrFind => 15,
            RuntimeFn::RegionOpen => 16,
            RuntimeFn::RegionDefer => 17,
            RuntimeFn::RegionRelease => 18,
            RuntimeFn::RegionRoot => 19,
            RuntimeFn::Cancelled => 20,
            RuntimeFn::CancelStop => 21,
            RuntimeFn::SharedOpen => 22,
            RuntimeFn::SharedGet => 23,
            RuntimeFn::SharedSet => 24,
            RuntimeFn::SharedUpdate => 25,
            RuntimeFn::SharedModify => 26,
            RuntimeFn::SharedRelease => 27,
            RuntimeFn::ChannelOpen => 28,
            RuntimeFn::ChannelSend => 29,
            RuntimeFn::ChannelReceive => 30,
            RuntimeFn::ChannelPoll => 31,
            RuntimeFn::ChannelClose => 32,
            RuntimeFn::ChannelDepth => 33,
            RuntimeFn::ChannelRelease => 34,
            RuntimeFn::FiberSpawn => 35,
            RuntimeFn::FiberJoin => 36,
            RuntimeFn::FiberDetach => 37,
            RuntimeFn::FiberWait => 38,
            RuntimeFn::FiberCancel => 39,
            RuntimeFn::FiberRelease => 40,
            RuntimeFn::FibersOpen => 41,
            RuntimeFn::FibersBounded => 42,
            RuntimeFn::FibersAdopt => 43,
            RuntimeFn::FibersWait => 44,
            RuntimeFn::FibersRelease => 45,
            RuntimeFn::ArgsSet => 46,
            RuntimeFn::Utf8Valid => 47,
            RuntimeFn::ArrayNew => 48,
            RuntimeFn::ArrayRelease => 49,
            RuntimeFn::BoundsFail => 50,
            RuntimeFn::Overflow => 51,
            RuntimeFn::Unhandled => 52,
            RuntimeFn::AssertFailed => 53,
            RuntimeFn::Begin => 54,
            RuntimeFn::TestRegister => 55,
            RuntimeFn::TestRun => 56,
            RuntimeFn::Safepoint => 57,
            RuntimeFn::BenchRegister => 58,
            RuntimeFn::BenchRun => 59,
            RuntimeFn::RegionCloseRoot => 60,
            RuntimeFn::Trap => 61,
        }
    }
}

} // verus!
