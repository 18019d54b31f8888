//! The small intrinsics whose lowering is a choice among runtime calls, and
//! the test that keeps a string cut on a character boundary.

use vstd::prelude::*;

use vstd::utf8::{
    is_char_boundary, is_char_boundary_iff_not_is_continuation_byte, is_char_boundary_start_end_of_seq,
    is_continuation_byte, valid_utf8, valid_utf8_split,
};

use crate::operators::Operand;
use crate::text::{owned, same_text};

verus! {

broadcast use vstd::string::group_string_axioms;

/// The runtime routine `print` hands its argument to.
#[derive(Clone, Copy, PartialEq, Eq, Structural, Debug)]
pub enum Printer {
    Int,
    Float,
    /// A `Bool`, widened to the byte C's `_Bool` is.
    Bool,
    /// A `String`, as its bytes and their length; the string is released
    /// after, `print` consuming its argument like any function.
    Str,
}

/// The printer for the argument's type, or what the compiler says of a type
/// with none.
pub open spec fn printer_of(argument: Operand, shown: Seq<char>) -> Result<Printer, Seq<char>> {
    match argument {
        Operand::Int => Ok(Printer::Int),
        Operand::Float => Ok(Printer::Float),
        Operand::Bool => Ok(Printer::Bool),
        Operand::Str => Ok(Printer::Str),
        _ => Err("`print` shows `Int`, `Bool` and `String`; showing a `"@ + shown
            + "` needs a typeclass, which arrives in phase 3"@),
    }
}

/// The text of a result whose error is a string.
pub open spec fn printer_text(r: Result<Printer, String>) -> Result<Printer, Seq<char>> {
    match r {
        Ok(p) => Ok(p),
        Err(e) => Err(e@),
    }
}

/// The printer `print` dispatches to, by the argument's type (`shown` is how
/// that type is written): there is no prelude yet in which differently typed
/// printers could be declared.
pub fn printer(argument: Operand, shown: &str) -> (p: Result<Printer, String>)
    ensures
        printer_text(p) == printer_of(argument, shown@),
{
    match argument {
        Operand::Int => Ok(Printer::Int),
        Operand::Float => Ok(Printer::Float),
        Operand::Bool => Ok(Printer::Bool),
        Operand::Str => Ok(Printer::Str),
        _ => {
            let mut message = owned("`print` shows `Int`, `Bool` and `String`; showing a `");
            message.append(shown);
            message.append("` needs a typeclass, which arrives in phase 3");
            Err(message)
        },
    }
}

/// The two things a `Ptr` can do.
#[derive(Clone, Copy, PartialEq, Eq, Structural, Debug)]
pub enum PtrOperation {
    /// `Ptr::null()`.
    Null,
    /// `p.is_null()`.
    IsNull,
}

/// What `Ptr::name` with `arity` arguments is, or what the compiler says.
pub open spec fn ptr_operation_of(name: Seq<char>, arity: nat) -> Result<PtrOperation, Seq<char>> {
    if name == "null"@ && arity == 0 {
        Ok(PtrOperation::Null)
    } else if name == "is_null"@ && arity == 1 {
        Ok(PtrOperation::IsNull)
    } else {
        Err("`Ptr::"@ + name + "` takes no arguments but `self`"@)
    }
}

/// What `Ptr::name` with `arity` arguments is: a pointer can be null and be
/// asked whether it is, and nothing else, which is what keeps a dangling one
/// impossible.
pub fn ptr_operation(name: &str, arity: usize) -> (op: Result<PtrOperation, String>)
    ensures
        match op {
            Ok(o) => ptr_operation_of(name@, arity as nat) == Ok::<PtrOperation, Seq<char>>(o),
            Err(m) => ptr_operation_of(name@, arity as nat) == Err::<PtrOperation, Seq<char>>(m@),
        },
{
    if arity == 0 && same_text(name, "null") {
        Ok(PtrOperation::Null)
    } else if arity == 1 && same_text(name, "is_null") {
        Ok(PtrOperation::IsNull)
    } else {
        let mut message = owned("`Ptr::");
        message.append(name);
        message.append("` takes no arguments but `self`");
        Err(message)
    }
}

/// The test generated code makes before cutting a string at byte `at`:
/// whether `at` is inside the bytes and the byte there has the form
/// `10xxxxxx` of a UTF-8 continuation byte. At the end of the string the
/// answer is no without a byte being read.
pub open spec fn cuts_a_character(bytes: Seq<u8>, at: int) -> bool {
    at < bytes.len() && bytes[at] & 0xC0 == 0x80
}

/// Cutting a valid string at `at` splits a character exactly when the test
/// says so; otherwise both parts are valid strings in their own right.
pub proof fn law_the_cut_test_finds_the_middle_of_a_character(bytes: Seq<u8>, at: int)
    requires
        valid_utf8(bytes),
        0 <= at <= bytes.len(),
    ensures
        cuts_a_character(bytes, at) == !is_char_boundary(bytes, at),
        !cuts_a_character(bytes, at) ==> valid_utf8(bytes.subrange(0, at)) && valid_utf8(
            bytes.subrange(at, bytes.len() as int),
        ),
{
    if at < bytes.len() {
        let b = bytes[at];
        assert((b & 0xC0 == 0x80) == (0x80 <= b && b <= 0xbf)) by (bit_vector);
        assert(is_continuation_byte(b) == (0x80 <= b && b <= 0xbf));
        is_char_boundary_iff_not_is_continuation_byte(bytes, at);
    } else {
        is_char_boundary_start_end_of_seq(bytes);
    }
    if !cuts_a_character(bytes, at) {
        valid_utf8_split(bytes, at);
    }
}

/// `value` brought inside `low ..= high`, both ends inclusive: raised to the
/// floor first, then lowered to the ceiling.
pub open spec fn clamped_into(value: int, low: int, high: int) -> int {
    let raised = if value < low { low } else { value };
    if raised > high { high } else { raised }
}

/// Where `String::slice(from, to)` starts and ends in a string of `length`
/// bytes: `from` clamped into `0 ..= length` and `to` into `start ..=
/// length`. Both ends are clamped rather than checked, so `slice(text, 0,
/// huge)` means the rest.
pub open spec fn slice_bounds(from: int, to: int, length: int) -> (int, int) {
    let start = clamped_into(from, 0, length);
    (start, clamped_into(to, start, length))
}

/// Where `String::slice(from, to)` starts and ends in a string of `length`
/// bytes, as the generated code clamps them.
pub fn slice_range(from: i64, to: i64, length: i64) -> (range: (i64, i64))
    requires
        length >= 0,
    ensures
        range.0 == slice_bounds(from as int, to as int, length as int).0,
        range.1 == slice_bounds(from as int, to as int, length as int).1,
{
    let raised = if from < 0 { 0 } else { from };
    let start = if raised > length { length } else { raised };
    let raised = if to < start { start } else { to };
    let end = if raised > length { length } else { raised };
    (start, end)
}

/// What `String::slice(from, to)` gives, as the generated code computes it:
/// the bytes between its bounds, or `None` when the program stops because a
/// nonempty slice would cut a character at either end.
pub open spec fn sliced(bytes: Seq<u8>, from: int, to: int) -> Option<Seq<u8>> {
    let (start, end) = slice_bounds(from, to, bytes.len() as int);
    if end - start > 0 && (cuts_a_character(bytes, start) || cuts_a_character(bytes, end)) {
        None
    } else {
        Some(bytes.subrange(start, end))
    }
}

/// A slice of a valid string is a valid string: its bounds lie inside the
/// string whatever the caller asked for, and the program stops only when a
/// nonempty slice would begin or end in the middle of a character.
pub proof fn law_a_slice_of_a_string_is_a_string(bytes: Seq<u8>, from: int, to: int)
    requires
        valid_utf8(bytes),
    ensures
        0 <= slice_bounds(from, to, bytes.len() as int).0 <= slice_bounds(from, to, bytes.len() as int).1 <= bytes.len(),
        sliced(bytes, from, to) is None <==> ({
            let (start, end) = slice_bounds(from, to, bytes.len() as int);
            start < end && !(is_char_boundary(bytes, start) && is_char_boundary(bytes, end))
        }),
        sliced(bytes, from, to) matches Some(part) ==> valid_utf8(part),
{
    let (start, end) = slice_bounds(from, to, bytes.len() as int);
    law_the_cut_test_finds_the_middle_of_a_character(bytes, start);
    law_the_cut_test_finds_the_middle_of_a_character(bytes, end);
    if start == end {
        assert(valid_utf8(bytes.subrange(start, end))) by {
            assert(bytes.subrange(start, end).len() == 0);
        }
    } else if !cuts_a_character(bytes, start) && !cuts_a_character(bytes, end) {
        let rest = bytes.subrange(start, bytes.len() as int);
        assert(valid_utf8(rest));
        let at = end - start;
        law_the_cut_test_finds_the_middle_of_a_character(rest, at);
        if at < rest.len() {
            assert(rest[at] == bytes[end]);
        }
        assert(!cuts_a_character(rest, at));
        assert(rest.subrange(0, at) =~= bytes.subrange(start, end));
    }
}

/// What an `Array` intrinsic is, by name and argument count.
#[derive(Clone, Copy, PartialEq, Eq, Structural, Debug)]
pub enum ArrayOperation {
    /// Lend the elements to a body as a pointer and a count.
    WithData,
    IsUtf8,
    Empty,
    New,
    Length,
    Get,
    /// Writes an element, releasing the one it replaces.
    Store,
}

/// The `Array` intrinsic `name` with `arity` arguments, or what the compiler
/// says.
pub open spec fn array_operation_of(name: Seq<char>, arity: nat) -> Result<ArrayOperation, Seq<char>> {
    if name == "with_data"@ {
        Ok(ArrayOperation::WithData)
    } else if name == "is_utf8"@ && arity == 1 {
        Ok(ArrayOperation::IsUtf8)
    } else if name == "empty"@ && arity == 0 {
        Ok(ArrayOperation::Empty)
    } else if name == "new"@ && arity == 2 {
        Ok(ArrayOperation::New)
    } else if name == "length"@ && arity == 1 {
        Ok(ArrayOperation::Length)
    } else if name == "get"@ && arity == 2 {
        Ok(ArrayOperation::Get)
    } else if name == "set"@ && arity == 3 {
        Ok(ArrayOperation::Store)
    } else {
        Err("`Array::"@ + name + "` is not an array operation the backend knows"@)
    }
}

/// The `Array` intrinsic `name` with `arity` arguments: allocation and
/// release are runtime calls, and reading and writing an element are a
/// bounds check and a load or store.
pub fn array_operation(name: &str, arity: usize) -> (op: Result<ArrayOperation, String>)
    ensures
        match op {
            Ok(o) => array_operation_of(name@, arity as nat) == Ok::<ArrayOperation, Seq<char>>(o),
            Err(m) => array_operation_of(name@, arity as nat) == Err::<ArrayOperation, Seq<char>>(m@),
        },
{
    if same_text(name, "with_data") {
        Ok(ArrayOperation::WithData)
    } else if arity == 1 && same_text(name, "is_utf8") {
        Ok(ArrayOperation::IsUtf8)
    } else if arity == 0 && same_text(name, "empty") {
        Ok(ArrayOperation::Empty)
    } else if arity == 2 && same_text(name, "new") {
        Ok(ArrayOperation::New)
    } else if arity == 1 && same_text(name, "length") {
        Ok(ArrayOperation::Length)
    } else if arity == 2 && same_text(name, "get") {
        Ok(ArrayOperation::Get)
    } else if arity == 3 && same_text(name, "set") {
        Ok(ArrayOperation::Store)
    } else {
        let mut message = owned("`Array::");
        message.append(name);
        message.append("` is not an array operation the backend knows");
        Err(message)
    }
}

/// What a `String` intrinsic is, by name and argument count, the string
/// itself counted.
#[derive(Clone, Copy, PartialEq, Eq, Structural, Debug)]
pub enum StringOperation {
    /// The length in bytes: a string's index is a byte index.
    ByteLength,
    /// One byte, the index checked like an array's.
    Byte,
    /// A copy of the bytes as an `Array<U8>`.
    Bytes,
    Slice,
    Find,
}

/// The `String` intrinsic `name` with `arity` arguments, or what the compiler
/// says.
pub open spec fn string_operation_of(name: Seq<char>, arity: nat) -> Result<StringOperation, Seq<char>> {
    if arity == 0 {
        Err("`String::"@ + name + "` takes a string"@)
    } else if name == "byte_length"@ && arity == 1 {
        Ok(StringOperation::ByteLength)
    } else if name == "byte"@ && arity == 2 {
        Ok(StringOperation::Byte)
    } else if name == "bytes"@ && arity == 1 {
        Ok(StringOperation::Bytes)
    } else if name == "slice"@ && arity == 3 {
        Ok(StringOperation::Slice)
    } else if name == "find"@ && arity == 3 {
        Ok(StringOperation::Find)
    } else {
        Err("`String::"@ + name + "` is not a string operation the backend knows"@)
    }
}

/// The `String` intrinsic `name` with `arity` arguments, the string itself
/// counted.
pub fn string_operation(name: &str, arity: usize) -> (op: Result<StringOperation, String>)
    ensures
        match op {
            Ok(o) => string_operation_of(name@, arity as nat) == Ok::<StringOperation, Seq<char>>(o),
            Err(m) => string_operation_of(name@, arity as nat) == Err::<StringOperation, Seq<char>>(m@),
        },
{
    if arity == 0 {
        let mut message = owned("`String::");
        message.append(name);
        message.append("` takes a string");
        return Err(message);
    }
    if arity == 1 && same_text(name, "byte_length") {
        Ok(StringOperation::ByteLength)
    } else if arity == 2 && same_text(name, "byte") {
        Ok(StringOperation::Byte)
    } else if arity == 1 && same_text(name, "bytes") {
        Ok(StringOperation::Bytes)
    } else if arity == 3 && same_text(name, "slice") {
        Ok(StringOperation::Slice)
    } else if arity == 3 && same_text(name, "find") {
        Ok(StringOperation::Find)
    } else {
        let mut message = owned("`String::");
        message.append(name);
        message.append("` is not a string operation the backend knows");
        Err(message)
    }
}

/// Whether `needle` occurs in `bytes` at `at`.
pub open spec fn occurs_at(bytes: Seq<u8>, needle: Seq<u8>, at: int) -> bool {
    0 <= at && at + needle.len() <= bytes.len() && bytes.subrange(at, at + needle.len()) == needle
}

/// The first position at or after `from` where `needle` occurs in `bytes`,
/// or -1.
pub open spec fn first_from(bytes: Seq<u8>, needle: Seq<u8>, from: int) -> int
    decreases bytes.len() + 1 - from,
{
    if from < 0 || from > bytes.len() {
        -1
    } else if occurs_at(bytes, needle, from) {
        from
    } else {
        first_from(bytes, needle, from + 1)
    }
}

/// What `String::find(needle, from)` gives, as the generated code computes it
/// from the runtime's answer `relative`, a position in the bytes searched
/// from the clamped start: a hit shifted back to an index into the whole
/// string, and a miss left at -1.
pub open spec fn found_at(relative: int, start: int) -> int {
    if relative < 0 { relative } else { relative + start }
}

proof fn lemma_first_from_shifted(bytes: Seq<u8>, needle: Seq<u8>, start: int, k: int)
    requires
        0 <= start <= bytes.len(),
        0 <= k,
    ensures
        found_at(first_from(bytes.subrange(start, bytes.len() as int), needle, k), start)
            == first_from(bytes, needle, start + k),
    decreases bytes.len() + 1 - start - k,
{
    let hay = bytes.subrange(start, bytes.len() as int);
    if k <= hay.len() {
        if occurs_at(hay, needle, k) {
            assert(bytes.subrange(start + k, start + k + needle.len()) =~= hay.subrange(k, k + needle.len()));
        } else {
            if start + k + needle.len() <= bytes.len() {
                assert(bytes.subrange(start + k, start + k + needle.len()) =~= hay.subrange(k, k + needle.len()));
            }
            lemma_first_from_shifted(bytes, needle, start, k + 1);
        }
    }
}

/// `String::find` answers where `needle` first occurs at or after `from`,
/// or -1: given that the runtime answers the first occurrence in the bytes
/// from the clamped start, shifting a hit back by that start and keeping a
/// miss at -1 gives the first occurrence in the whole string. A start past
/// the end finds nothing, which is the answer rather than a mistake.
pub proof fn law_find_answers_the_first_occurrence_from_the_cursor(bytes: Seq<u8>, needle: Seq<u8>, from: int, relative: int)
    requires
        relative == first_from(bytes.subrange(clamped_into(from, 0, bytes.len() as int), bytes.len() as int), needle, 0),
    ensures
        found_at(relative, clamped_into(from, 0, bytes.len() as int))
            == first_from(bytes, needle, clamped_into(from, 0, bytes.len() as int)),
{
    lemma_first_from_shifted(bytes, needle, clamped_into(from, 0, bytes.len() as int), 0);
}

} // verus!
