//! What a call is: a function somebody wrote, or an intrinsic the backend
//! fills in, decided once per call.
//!
//! An intrinsic is a declaration the backend implements, so the test is that
//! nothing else implemented it first: a method written in Khora wins over an
//! intrinsic of the same name, whatever type it is on.

use vstd::prelude::*;

use crate::ints::{int_owner, int_owner_spec};
use crate::text::{owned, same_text};

verus! {

broadcast use vstd::string::group_string_axioms;

/// Where a call of `Type::name` goes.
#[derive(Clone, Copy, PartialEq, Eq, Structural, Debug)]
pub enum MethodTarget {
    /// The function monomorphization resolved it to.
    Named,
    Region,
    Fiber,
    /// `Fibers`, the nursery.
    Nursery,
    SharedFn,
    Shared,
    Channel,
    Array,
    /// An operation on an integer type of this width and sign.
    Int(u32, bool),
    /// `String::with_data`.
    WithData,
    /// `String::with_c_string`.
    WithCString,
    /// `String::from_bytes`.
    FromBytes,
    /// `Float::to_int`.
    FloatToInt,
    /// One of `String`'s byte operations.
    StringOperation,
    /// `Ptr::null` or `Ptr::is_null`.
    PtrOperation,
    /// Nothing: a method no impl was found for, which the checker would have
    /// reported, so reaching it is a compiler bug.
    Unresolved,
}

/// Whether `name` is one of `String`'s byte operations.
pub open spec fn string_operation_name(name: Seq<char>) -> bool {
    name == "bytes"@ || name == "byte"@ || name == "byte_length"@ || name == "slice"@ || name == "find"@
}

/// Where a call of `owner::name` goes, `callee` being what monomorphization
/// resolved it to: `None` for nothing, else whether the program defines it.
pub open spec fn method_target_of(owner: Seq<char>, name: Seq<char>, callee: Option<bool>) -> MethodTarget {
    if callee == Some(true) {
        MethodTarget::Named
    } else if owner == "Region"@ {
        MethodTarget::Region
    } else if owner == "Fiber"@ {
        MethodTarget::Fiber
    } else if owner == "Fibers"@ {
        MethodTarget::Nursery
    } else if owner == "SharedFn"@ {
        MethodTarget::SharedFn
    } else if owner == "Shared"@ {
        MethodTarget::Shared
    } else if owner == "Channel"@ {
        MethodTarget::Channel
    } else if owner == "Array"@ {
        MethodTarget::Array
    } else if int_owner_spec(owner) is Some {
        MethodTarget::Int(int_owner_spec(owner).unwrap().0, int_owner_spec(owner).unwrap().1)
    } else if owner == "String"@ && name == "with_data"@ {
        MethodTarget::WithData
    } else if owner == "String"@ && name == "with_c_string"@ {
        MethodTarget::WithCString
    } else if owner == "String"@ && name == "from_bytes"@ {
        MethodTarget::FromBytes
    } else if owner == "Float"@ && name == "to_int"@ {
        MethodTarget::FloatToInt
    } else if owner == "String"@ && string_operation_name(name) {
        MethodTarget::StringOperation
    } else if owner == "Ptr"@ && (name == "null"@ || name == "is_null"@) {
        MethodTarget::PtrOperation
    } else if callee is Some {
        MethodTarget::Named
    } else {
        MethodTarget::Unresolved
    }
}

/// Where a call of `owner::name` goes: the method somebody wrote if there is
/// one, else the intrinsic family of the owner, else whatever
/// monomorphization resolved it to.
pub fn method_target(owner: &str, name: &str, callee: Option<bool>) -> (t: MethodTarget)
    ensures
        t == method_target_of(owner@, name@, callee),
{
    if callee == Some(true) {
        return MethodTarget::Named;
    }
    if same_text(owner, "Region") {
        return MethodTarget::Region;
    }
    if same_text(owner, "Fiber") {
        return MethodTarget::Fiber;
    }
    if same_text(owner, "Fibers") {
        return MethodTarget::Nursery;
    }
    if same_text(owner, "SharedFn") {
        return MethodTarget::SharedFn;
    }
    if same_text(owner, "Shared") {
        return MethodTarget::Shared;
    }
    if same_text(owner, "Channel") {
        return MethodTarget::Channel;
    }
    if same_text(owner, "Array") {
        return MethodTarget::Array;
    }
    if let Some(shape) = int_owner(owner) {
        return MethodTarget::Int(shape.0, shape.1);
    }
    let string = same_text(owner, "String");
    if string && same_text(name, "with_data") {
        return MethodTarget::WithData;
    }
    if string && same_text(name, "with_c_string") {
        return MethodTarget::WithCString;
    }
    if string && same_text(name, "from_bytes") {
        return MethodTarget::FromBytes;
    }
    if same_text(owner, "Float") && same_text(name, "to_int") {
        return MethodTarget::FloatToInt;
    }
    if string && (same_text(name, "bytes") || same_text(name, "byte") || same_text(name, "byte_length")
        || same_text(name, "slice") || same_text(name, "find")) {
        return MethodTarget::StringOperation;
    }
    if same_text(owner, "Ptr") && (same_text(name, "null") || same_text(name, "is_null")) {
        return MethodTarget::PtrOperation;
    }
    if callee.is_some() {
        MethodTarget::Named
    } else {
        MethodTarget::Unresolved
    }
}

/// What the compiler says of a method call no impl was found for.
pub fn unresolved_method_message(name: &str) -> (message: String)
    ensures
        message@ == "`"@ + name@ + "` was not resolved to an impl; that is a compiler bug"@,
{
    let mut message = owned("`");
    message.append(name);
    message.append("` was not resolved to an impl; that is a compiler bug");
    message
}

/// A method somebody wrote wins over one the backend implements: whatever
/// its type, a call monomorphization resolved to a definition goes to that
/// definition.
pub proof fn law_a_written_method_wins(owner: Seq<char>, name: Seq<char>)
    ensures
        method_target_of(owner, name, Some(true)) == MethodTarget::Named,
{
}

/// Where a call of a plain function `name` goes.
#[derive(Clone, Copy, PartialEq, Eq, Structural, Debug)]
pub enum FunctionTarget {
    Print,
    Assert,
    Attempt,
    /// The function itself, under its symbol.
    Named,
}

/// Where a call of the function `name` with `arity` arguments goes:
/// `print`, `assert` and `attempt` of one argument are intrinsics unless the
/// program defines its own (`defined`), in which case its own is called.
pub open spec fn function_target_of(name: Seq<char>, defined: bool, arity: nat) -> FunctionTarget {
    if !defined && arity == 1 && name == "print"@ {
        FunctionTarget::Print
    } else if !defined && arity == 1 && name == "assert"@ {
        FunctionTarget::Assert
    } else if !defined && arity == 1 && name == "attempt"@ {
        FunctionTarget::Attempt
    } else {
        FunctionTarget::Named
    }
}

/// Where a call of the function `name` with `arity` arguments goes.
pub fn function_target(name: &str, defined: bool, arity: usize) -> (t: FunctionTarget)
    ensures
        t == function_target_of(name@, defined, arity as nat),
{
    let intrinsic = !defined && arity == 1;
    if intrinsic && same_text(name, "print") {
        FunctionTarget::Print
    } else if intrinsic && same_text(name, "assert") {
        FunctionTarget::Assert
    } else if intrinsic && same_text(name, "attempt") {
        FunctionTarget::Attempt
    } else {
        FunctionTarget::Named
    }
}

} // verus!
