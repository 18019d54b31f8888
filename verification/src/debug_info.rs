//! What debug information says: which format a target's debuggers read, and
//! what a Khora type looks like to them.
//!
//! Scalars are described exactly; every counted heap value is a pointer with
//! the Khora type's name on it, so a frame lists it by name and address even
//! though a debugger cannot walk into the object.

use vstd::prelude::*;

use crate::ints::{int_kind_name, IntKind};
use crate::text::owned;

verus! {

broadcast use vstd::string::group_string_axioms;

/// The `len` characters of `text` from `at` on.
pub open spec fn window(text: Seq<char>, at: int, len: int) -> Seq<char> {
    text.subrange(at, at + len)
}

/// Whether `needle` occurs in `text`.
pub open spec fn occurs_in(text: Seq<char>, needle: Seq<char>) -> bool {
    exists|i: int| 0 <= i && i + needle.len() <= text.len() && #[trigger] window(text, i, needle.len() as int) == needle
}

/// Whether `needle` occurs in `text`.
pub fn contains_text(text: &str, needle: &str) -> (found: bool)
    ensures
        found == occurs_in(text@, needle@),
{
    let n: usize = text.unicode_len();
    let m: usize = needle.unicode_len();
    if m > n {
        return false;
    }
    let mut i: usize = 0;
    while i <= n - m
        invariant
            n == text@.len(),
            m == needle@.len(),
            m <= n,
            i <= n - m + 1,
            forall|k: int| 0 <= k < i ==> #[trigger] window(text@, k, m as int) != needle@,
        decreases n - m + 1 - i,
    {
        let mut j: usize = 0;
        let mut same = true;
        while j < m
            invariant
                n == text@.len(),
                m == needle@.len(),
                i + m <= n,
                j <= m,
                same == (forall|k: int| 0 <= k < j ==> text@[i + k] == needle@[k]),
            decreases m - j,
        {
            if text.get_char(i + j) != needle.get_char(j) {
                same = false;
            }
            j = j + 1;
        }
        if same {
            assert(window(text@, i as int, m as int) =~= needle@);
            return true;
        }
        assert(window(text@, i as int, m as int) != needle@) by {
            let k: int = choose|k: int| 0 <= k < m && text@[i + k] != needle@[k];
            assert(text@.subrange(i as int, i + m)[k] != needle@[k]);
        }
        i = i + 1;
    }
    assert forall|k: int| 0 <= k && k + needle@.len() <= text@.len() implies #[trigger] window(text@, k, needle@.len() as int) != needle@ by {
        assert(k < i);
    }
    false
}

/// The debug format a target's debuggers read.
#[derive(Clone, Copy, PartialEq, Eq, Structural, Debug)]
pub enum DebugFormat {
    /// Windows debuggers read CodeView.
    CodeView,
    /// Everything else reads DWARF, of this version.
    Dwarf(u32),
}

/// The debug format for a target triple: CodeView for an MSVC target, and
/// DWARF 4 otherwise.
pub open spec fn format_for(triple: Seq<char>) -> DebugFormat {
    if occurs_in(triple, "msvc"@) { DebugFormat::CodeView } else { DebugFormat::Dwarf(4) }
}

/// The debug format for a target triple.
pub fn debug_format(triple: &str) -> (format: DebugFormat)
    ensures
        format == format_for(triple@),
{
    if contains_text(triple, "msvc") {
        DebugFormat::CodeView
    } else {
        DebugFormat::Dwarf(4)
    }
}

/// A Khora type, as far as debug information describes it.
#[derive(Clone, Copy, PartialEq, Eq, Debug)]
pub enum Described {
    Int,
    Bool,
    Char,
    Float,
    Fixed(IntKind),
    /// An address the other side owns.
    Ptr,
    Unit,
    /// Any counted heap value: a string, a record, a closure.
    Boxed,
}

/// DWARF's `DW_ATE_signed`.
pub const SIGNED: u32 = 0x05;
/// DWARF's `DW_ATE_unsigned`.
pub const UNSIGNED: u32 = 0x07;
/// DWARF's `DW_ATE_float`.
pub const FLOAT: u32 = 0x04;
/// DWARF's `DW_ATE_boolean`.
pub const BOOLEAN: u32 = 0x02;
/// DWARF's `DW_ATE_UTF`.
pub const UTF: u32 = 0x10;

/// What a debugger is told a type is.
#[derive(Debug, PartialEq, Eq)]
pub enum DebugType {
    /// A scalar: its name, width in bits and DWARF encoding.
    Basic { name: String, bits: u64, encoding: u32 },
    /// A pointer named for the Khora type, to the opaque one-byte object
    /// every boxed value points at.
    Pointer { name: String },
}

/// What a debugger is told a type is, as text: `Ok` a scalar's name, width
/// and encoding, `Err` the name of a pointer.
pub open spec fn described_as(ty: Described, shown: Seq<char>) -> Result<(Seq<char>, u64, u32), Seq<char>> {
    match ty {
        Described::Int => Ok(("Int"@, 64, SIGNED)),
        Described::Bool => Ok(("Bool"@, 8, BOOLEAN)),
        Described::Char => Ok(("Char"@, 32, UTF)),
        Described::Float => Ok(("Float"@, 64, FLOAT)),
        Described::Fixed(kind) => Ok((int_kind_name(kind), kind.spec_bits() as u64, if kind.spec_signed() {
            SIGNED
        } else {
            UNSIGNED
        })),
        Described::Ptr | Described::Unit => Ok((shown, 64, UNSIGNED)),
        Described::Boxed => Err(shown),
    }
}

/// A debug type, as text.
pub open spec fn debug_type_text(t: DebugType) -> Result<(Seq<char>, u64, u32), Seq<char>> {
    match t {
        DebugType::Basic { name, bits, encoding } => Ok((name@, bits, encoding)),
        DebugType::Pointer { name } => Err(name@),
    }
}

/// What a debugger is told a type is: `shown` is how the type prints, which
/// names a word-sized `Ptr` or `()` and every pointer.
pub fn debug_type(ty: Described, shown: &str) -> (t: DebugType)
    ensures
        debug_type_text(t) == described_as(ty, shown@),
{
    match ty {
        Described::Int => DebugType::Basic { name: owned("Int"), bits: 64, encoding: SIGNED },
        Described::Bool => DebugType::Basic { name: owned("Bool"), bits: 8, encoding: BOOLEAN },
        Described::Char => DebugType::Basic { name: owned("Char"), bits: 32, encoding: UTF },
        Described::Float => DebugType::Basic { name: owned("Float"), bits: 64, encoding: FLOAT },
        Described::Fixed(kind) => DebugType::Basic {
            name: owned(kind.name()),
            bits: kind.bits() as u64,
            encoding: if kind.signed() { SIGNED } else { UNSIGNED },
        },
        Described::Ptr | Described::Unit => DebugType::Basic { name: owned(shown), bits: 64, encoding: UNSIGNED },
        Described::Boxed => DebugType::Pointer { name: owned(shown) },
    }
}

} // verus!
