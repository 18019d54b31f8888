//! Arrays as generated code reaches them: the width of an element, the one
//! comparison that checks an index, and where an element lies.
//!
//! Reading an element is a bounds check and a load with no call, because the
//! layout is a contract with the runtime rather than something it hides.

use vstd::prelude::*;

use vstd::arithmetic::div_mod::{
    lemma_fundamental_div_mod, lemma_mod_add_multiples_vanish, lemma_mod_multiples_basic, lemma_small_mod,
};
use vstd::arithmetic::power2::lemma2_to64_rest;

use crate::ints::IntKind;
use crate::operators::{bits_of, fits, predicate_holds, IntPredicate, Operand};

verus! {

/// Bytes of one field slot: a machine word, on the 64-bit hosts the backend
/// generates for.
pub const FIELD_WORD: u64 = 8;

/// How many bytes one element of the type occupies inside an array: a
/// fixed-width integer its own width, a `Bool` a byte, and anything else (an
/// `Int`, or a pointer) a word. The runtime is told the same number, and the
/// two have to agree exactly.
pub open spec fn stride_of(element: Operand) -> u64 {
    match element {
        Operand::Fixed(kind) => (kind.spec_bits() / 8) as u64,
        Operand::Bool => 1,
        _ => FIELD_WORD,
    }
}

/// How many bytes one element of the type occupies inside an array.
pub fn stride(element: Operand) -> (bytes: u64)
    ensures
        bytes == stride_of(element),
{
    match element {
        Operand::Fixed(kind) => match kind {
            IntKind::I8 | IntKind::U8 => 1,
            IntKind::I16 | IntKind::U16 => 2,
            IntKind::I32 | IntKind::U32 => 4,
            IntKind::I64 | IntKind::U64 => 8,
        },
        Operand::Bool => 1,
        _ => FIELD_WORD,
    }
}

/// The comparison an index is checked against an array's length with:
/// unsigned, so a negative index reads as an enormous one.
pub open spec fn bounds_predicate() -> IntPredicate {
    IntPredicate::Ult
}

/// The comparison an index is checked against an array's length with.
pub fn bounds_check() -> (p: IntPredicate)
    ensures
        p == bounds_predicate(),
{
    IntPredicate::Ult
}

/// One unsigned comparison checks both ends: for an `Int` index and a
/// length, it holds exactly when the index is at least zero and below the
/// length.
pub proof fn law_one_comparison_checks_both_ends(index: int, length: int)
    requires
        fits(index, 64, true),
        fits(length, 64, true),
        length >= 0,
    ensures
        predicate_holds(bounds_predicate(), 64, bits_of(index, 64), bits_of(length, 64)) == (0 <= index < length),
{
    lemma2_to64_rest();
    let m: int = 0x1_0000_0000_0000_0000int;
    if index >= 0 {
        lemma_small_mod(index as nat, m as nat);
    } else {
        lemma_mod_add_multiples_vanish(index, m);
        lemma_small_mod((m + index) as nat, m as nat);
    }
    lemma_small_mod(length as nat, m as nat);
}

/// The byte offset of element `index` from an array object's pointer: past
/// the object header, whose fields start at `field_offset`, past the array's
/// own header of `header_fields` words, and `index` strides in. The header is
/// counted in whole words and the elements in strides, so the two are added
/// as bytes rather than as indices.
pub open spec fn element_offset(field_offset: int, header_fields: int, index: int, stride: int) -> int {
    field_offset + header_fields * FIELD_WORD + index * stride
}

/// Every element is aligned to its own width: a stride is 1, 2, 4 or 8 bytes,
/// each of which divides a word, and the field area starts on a word.
pub proof fn law_every_element_is_aligned(element: Operand, field_offset: int, header_fields: int, index: int)
    requires
        field_offset % 8 == 0,
        header_fields >= 0,
        index >= 0,
    ensures
        element_offset(field_offset, header_fields, index, stride_of(element) as int) % (stride_of(element) as int) == 0,
{
    let s: int = stride_of(element) as int;
    assert(s == 1 || s == 2 || s == 4 || s == 8);
    let k: int = if s == 1 {
        8
    } else if s == 2 {
        4
    } else if s == 4 {
        2
    } else {
        1
    };
    assert(s * k == 8) by (nonlinear_arith)
        requires
            (s == 1 && k == 8) || (s == 2 && k == 4) || (s == 4 && k == 2) || (s == 8 && k == 1),
    ;
    let words: int = field_offset / 8 + header_fields;
    assert(field_offset + header_fields * 8 == 8 * words) by {
        lemma_fundamental_div_mod(field_offset, 8);
    }
    assert(element_offset(field_offset, header_fields, index, s) == (k * words + index) * s) by (nonlinear_arith)
        requires
            s * k == 8,
            field_offset + header_fields * 8 == 8 * words,
            element_offset(field_offset, header_fields, index, s) == field_offset + header_fields * 8 + index * s,
    ;
    lemma_mod_multiples_basic(k * words + index, s);
}

} // verus!
