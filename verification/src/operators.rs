//! What an operator becomes: which instruction, read with which sign, and
//! which check stops a program whose arithmetic does not fit its type.
//!
//! LLVM's integer types carry a width and no sign, so `U8` and `I8` are the
//! same `i8` and differ only in the division, shift, overflow intrinsic and
//! ordering predicate asked for. Everything that choice depends on is
//! decided here, from the operator and its operand's type.

use vstd::prelude::*;

use vstd::arithmetic::div_mod::{
    lemma_div_basics, lemma_div_is_ordered_by_denominator, lemma_div_pos_is_pos, lemma_mod_add_multiples_vanish,
    lemma_mod_mod, lemma_small_mod,
};
use vstd::arithmetic::power2::{lemma2_to64, lemma2_to64_rest, pow2};

use crate::ints::IntKind;
use crate::text::{decimal, owned, push_decimal, same_text};
use crate::variants::{position_of, variants_named_spec, VariantKey, VariantTable};

verus! {

broadcast use vstd::string::group_string_axioms;

/// The operators written between two operands.
#[derive(Clone, Copy, PartialEq, Eq, Debug)]
pub enum BinOp {
    Add,
    Sub,
    Mul,
    Div,
    Rem,
    Eq,
    Ne,
    Lt,
    Gt,
    Le,
    Ge,
    And,
    Or,
}

/// The operators written before one operand.
#[derive(Clone, Copy, PartialEq, Eq, Debug)]
pub enum UnOp {
    Neg,
    Not,
}

/// An operand's type, as far as an operator looks at it.
#[derive(Clone, Copy, PartialEq, Eq, Debug)]
pub enum Operand {
    /// `Int`, the 64-bit signed integer.
    Int,
    /// One of the fixed-width integer types.
    Fixed(IntKind),
    Bool,
    Unit,
    Float,
    Str,
    /// Any type that decides comparison for itself, in an `Eq` or `Ord` impl.
    Other,
}

/// An integer comparison, as LLVM's `icmp` names it.
#[derive(Clone, Copy, PartialEq, Eq, Debug)]
pub enum IntPredicate {
    Eq,
    Ne,
    Slt,
    Sgt,
    Sle,
    Sge,
    Ult,
    Ugt,
    Ule,
    Uge,
}

/// A floating-point comparison, as LLVM's `fcmp` names it: ordered, so a
/// `NaN` makes it false, except `Une`, which a `NaN` makes true.
#[derive(Clone, Copy, PartialEq, Eq, Debug)]
pub enum FloatPredicate {
    Oeq,
    Une,
    Olt,
    Ogt,
    Ole,
    Oge,
}

/// IEEE arithmetic, which reaches infinity rather than overflowing.
#[derive(Clone, Copy, PartialEq, Eq, Debug)]
pub enum FloatOp {
    Add,
    Sub,
    Mul,
    Div,
}

/// How a comparison is answered.
#[derive(Clone, Copy, PartialEq, Eq, Debug)]
pub enum Comparison {
    /// One `fcmp`.
    Float(FloatPredicate),
    /// The runtime compares the bytes; `equal` says whether the answer is
    /// that they are the same (`==`) or that they differ (`!=`).
    Strings { equal: bool },
    /// The operand's own `Eq` or `Ord` impl is called.
    ThroughImpl,
    /// One `icmp`.
    Int(IntPredicate),
}

/// What a binary operator is lowered to.
#[derive(Clone, Copy, PartialEq, Eq, Debug)]
pub enum Binary {
    /// `&&` and `||`: the right side is evaluated only when the left does not
    /// already decide, and the edge that skips it carries `shortcut`.
    ShortCircuit { shortcut: bool },
    /// `+` on two strings.
    Concat,
    /// Float arithmetic, unchecked.
    Float(FloatOp),
    /// Integer `+`, `-` or `*` through the `with.overflow` intrinsic of the
    /// operand's own width and sign, stopping the program on overflow.
    Checked { signed: bool, bits: u32 },
    /// Integer `/` or `%`: stopped on a zero divisor, and for a signed type on
    /// the minimum over minus one, then divided with the operand's sign.
    Divide { signed: bool, remainder: bool, bits: u32 },
    /// `==`, `!=`, `<`, `>`, `<=`, `>=`.
    Compare(Comparison),
}

/// What a unary operator is lowered to.
#[derive(Clone, Copy, PartialEq, Eq, Debug)]
pub enum Unary {
    FloatNeg,
    /// Unchecked: the one value that cannot be negated is a type's minimum,
    /// which can only be written as a negated literal, folded before this.
    IntNeg,
    /// `not`; on an `i1` it is logical negation.
    Not,
}

/// The width and signedness of an integer type, or `None` for any other.
pub open spec fn spec_int_shape(operand: Operand) -> Option<(u32, bool)> {
    match operand {
        Operand::Int => Some((64u32, true)),
        Operand::Fixed(kind) => Some((kind.spec_bits(), kind.spec_signed())),
        _ => None,
    }
}

/// The width and signedness of an integer type, or `None` for any other.
pub fn int_shape(operand: Operand) -> (shape: Option<(u32, bool)>)
    ensures
        shape == spec_int_shape(operand),
{
    match operand {
        Operand::Int => Some((64u32, true)),
        Operand::Fixed(kind) => Some((kind.bits(), kind.signed())),
        _ => None,
    }
}

/// `==`, `!=`, `<`, `>`, `<=` and `>=`.
pub open spec fn is_comparison(op: BinOp) -> bool {
    match op {
        BinOp::Eq | BinOp::Ne | BinOp::Lt | BinOp::Gt | BinOp::Le | BinOp::Ge => true,
        _ => false,
    }
}

/// Whether an ordering on the operand is read as signed: an integer type
/// by its own sign, `Bool` unsigned so that `false < true`, anything else
/// signed.
pub open spec fn ordered_signed(operand: Operand) -> bool {
    match spec_int_shape(operand) {
        Some(shape) => shape.1,
        None => !(operand is Bool),
    }
}

/// The `icmp` predicate for a comparison read with the given sign.
pub open spec fn int_predicate(op: BinOp, signed: bool) -> IntPredicate {
    match op {
        BinOp::Eq => IntPredicate::Eq,
        BinOp::Ne => IntPredicate::Ne,
        BinOp::Lt => if signed { IntPredicate::Slt } else { IntPredicate::Ult },
        BinOp::Gt => if signed { IntPredicate::Sgt } else { IntPredicate::Ugt },
        BinOp::Le => if signed { IntPredicate::Sle } else { IntPredicate::Ule },
        _ => if signed { IntPredicate::Sge } else { IntPredicate::Uge },
    }
}

/// The `fcmp` predicate for a comparison.
pub open spec fn float_predicate(op: BinOp) -> FloatPredicate {
    match op {
        BinOp::Eq => FloatPredicate::Oeq,
        BinOp::Ne => FloatPredicate::Une,
        BinOp::Lt => FloatPredicate::Olt,
        BinOp::Gt => FloatPredicate::Ogt,
        BinOp::Le => FloatPredicate::Ole,
        _ => FloatPredicate::Oge,
    }
}

/// Whether the operand is answered by a machine comparison rather than by
/// its own impl.
pub open spec fn is_machine_comparable(operand: Operand) -> bool {
    match operand {
        Operand::Int | Operand::Fixed(_) | Operand::Bool | Operand::Unit => true,
        _ => false,
    }
}

/// How a comparison on the operand is answered.
pub open spec fn comparison_of(op: BinOp, operand: Operand) -> Comparison {
    if operand is Float {
        Comparison::Float(float_predicate(op))
    } else if operand is Str && (op is Eq || op is Ne) {
        Comparison::Strings { equal: op is Eq }
    } else if !is_machine_comparable(operand) {
        Comparison::ThroughImpl
    } else {
        Comparison::Int(int_predicate(op, ordered_signed(operand)))
    }
}

/// Whether an arithmetic operator has an instruction for the operand: `+`
/// on strings, floats and integers; `-`, `*` and `/` on floats and integers;
/// `%` on integers. The type checker admits no other.
pub open spec fn arithmetic_applies(op: BinOp, operand: Operand) -> bool {
    match op {
        BinOp::Add => operand is Str || operand is Float || spec_int_shape(operand) is Some,
        BinOp::Sub | BinOp::Mul | BinOp::Div => operand is Float || spec_int_shape(operand) is Some,
        BinOp::Rem => spec_int_shape(operand) is Some,
        _ => true,
    }
}

/// The float instruction for an arithmetic operator.
pub open spec fn float_op(op: BinOp) -> FloatOp {
    match op {
        BinOp::Add => FloatOp::Add,
        BinOp::Sub => FloatOp::Sub,
        BinOp::Mul => FloatOp::Mul,
        _ => FloatOp::Div,
    }
}

/// What a binary operator on the operand is lowered to.
pub open spec fn binary_of(op: BinOp, operand: Operand) -> Binary {
    if op is And {
        Binary::ShortCircuit { shortcut: false }
    } else if op is Or {
        Binary::ShortCircuit { shortcut: true }
    } else if op is Add && operand is Str {
        Binary::Concat
    } else if (op is Add || op is Sub || op is Mul || op is Div) && operand is Float {
        Binary::Float(float_op(op))
    } else if op is Add || op is Sub || op is Mul {
        Binary::Checked {
            signed: spec_int_shape(operand).unwrap().1,
            bits: spec_int_shape(operand).unwrap().0,
        }
    } else if op is Div || op is Rem {
        Binary::Divide {
            signed: spec_int_shape(operand).unwrap().1,
            remainder: op is Rem,
            bits: spec_int_shape(operand).unwrap().0,
        }
    } else {
        Binary::Compare(comparison_of(op, operand))
    }
}

/// The `icmp` predicate that compares two values of the operand's type.
pub fn int_predicate_for(op: BinOp, operand: Operand) -> (p: IntPredicate)
    ensures
        p == int_predicate(op, ordered_signed(operand)),
{
    let signed = match int_shape(operand) {
        Some(shape) => shape.1,
        None => !matches!(operand, Operand::Bool),
    };
    match op {
        BinOp::Eq => IntPredicate::Eq,
        BinOp::Ne => IntPredicate::Ne,
        BinOp::Lt => if signed { IntPredicate::Slt } else { IntPredicate::Ult },
        BinOp::Gt => if signed { IntPredicate::Sgt } else { IntPredicate::Ugt },
        BinOp::Le => if signed { IntPredicate::Sle } else { IntPredicate::Ule },
        _ => if signed { IntPredicate::Sge } else { IntPredicate::Uge },
    }
}

/// The `fcmp` predicate for a comparison of two floats.
pub fn float_predicate_for(op: BinOp) -> (p: FloatPredicate)
    ensures
        p == float_predicate(op),
{
    match op {
        BinOp::Eq => FloatPredicate::Oeq,
        BinOp::Ne => FloatPredicate::Une,
        BinOp::Lt => FloatPredicate::Olt,
        BinOp::Gt => FloatPredicate::Ogt,
        BinOp::Le => FloatPredicate::Ole,
        _ => FloatPredicate::Oge,
    }
}

/// How a comparison of two values of the operand's type is answered:
/// floats by an ordered `fcmp`, strings by their bytes rather than their
/// addresses, a type with a shape by its own impl, and the rest by `icmp`.
pub fn comparison(op: BinOp, operand: Operand) -> (c: Comparison)
    ensures
        c == comparison_of(op, operand),
{
    let predicate = int_predicate_for(op, operand);
    match operand {
        Operand::Float => Comparison::Float(float_predicate_for(op)),
        Operand::Str if matches!(op, BinOp::Eq | BinOp::Ne) => Comparison::Strings {
            equal: matches!(op, BinOp::Eq),
        },
        Operand::Int | Operand::Fixed(_) | Operand::Bool | Operand::Unit => Comparison::Int(predicate),
        _ => Comparison::ThroughImpl,
    }
}

/// What a binary operator on two values of the operand's type is lowered to.
pub fn binary(op: BinOp, operand: Operand) -> (b: Binary)
    requires
        arithmetic_applies(op, operand),
    ensures
        b == binary_of(op, operand),
{
    let float = matches!(operand, Operand::Float);
    match op {
        BinOp::And => Binary::ShortCircuit { shortcut: false },
        BinOp::Or => Binary::ShortCircuit { shortcut: true },
        BinOp::Add if matches!(operand, Operand::Str) => Binary::Concat,
        BinOp::Add if float => Binary::Float(FloatOp::Add),
        BinOp::Sub if float => Binary::Float(FloatOp::Sub),
        BinOp::Mul if float => Binary::Float(FloatOp::Mul),
        BinOp::Div if float => Binary::Float(FloatOp::Div),
        BinOp::Add | BinOp::Sub | BinOp::Mul => {
            let shape = int_shape(operand).unwrap();
            Binary::Checked { signed: shape.1, bits: shape.0 }
        },
        BinOp::Div | BinOp::Rem => {
            let shape = int_shape(operand).unwrap();
            Binary::Divide { signed: shape.1, remainder: matches!(op, BinOp::Rem), bits: shape.0 }
        },
        _ => Binary::Compare(comparison(op, operand)),
    }
}

/// What a unary operator on the operand is lowered to.
pub open spec fn unary_of(op: UnOp, operand: Operand) -> Unary {
    match op {
        UnOp::Neg => if operand is Float { Unary::FloatNeg } else { Unary::IntNeg },
        UnOp::Not => Unary::Not,
    }
}

/// What a unary operator on the operand is lowered to.
pub fn unary(op: UnOp, operand: Operand) -> (u: Unary)
    ensures
        u == unary_of(op, operand),
{
    match op {
        UnOp::Neg => if matches!(operand, Operand::Float) { Unary::FloatNeg } else { Unary::IntNeg },
        UnOp::Not => Unary::Not,
    }
}


/// The verb of an overflow intrinsic: `add`, `sub` or `mul`.
pub open spec fn verb(op: BinOp) -> Seq<char> {
    match op {
        BinOp::Add => "add"@,
        BinOp::Sub => "sub"@,
        _ => "mul"@,
    }
}

/// The operation an overflow is reported as: `addition`, `subtraction` or
/// `multiplication`.
pub open spec fn operation_word(op: BinOp) -> Seq<char> {
    match op {
        BinOp::Add => "addition"@,
        BinOp::Sub => "subtraction"@,
        _ => "multiplication"@,
    }
}

/// The name of the `with.overflow` intrinsic for an operator at a width and
/// sign, `llvm.sadd.with.overflow.i64` for instance: the check is only worth
/// anything if it is the type's own range being checked.
pub open spec fn overflow_intrinsic_name(op: BinOp, bits: nat, signed: bool) -> Seq<char> {
    "llvm."@ + (if signed { "s"@ } else { "u"@ }) + verb(op) + ".with.overflow.i"@ + decimal(bits)
}

/// The name of the `with.overflow` intrinsic that checks `op` at the width
/// and sign.
pub fn overflow_intrinsic_for(op: BinOp, bits: u32, signed: bool) -> (name: String)
    requires
        op is Add || op is Sub || op is Mul,
    ensures
        name@ == overflow_intrinsic_name(op, bits as nat, signed),
{
    let mut name = owned("llvm.");
    if signed {
        name.append("s");
    } else {
        name.append("u");
    }
    match op {
        BinOp::Add => name.append("add"),
        BinOp::Sub => name.append("sub"),
        _ => name.append("mul"),
    }
    name.append(".with.overflow.i");
    push_decimal(&mut name, bits as usize);
    name
}

/// What the program says when checked arithmetic on a type overflows:
/// `U8 addition overflowed` for instance, `shown` being how the type is
/// written.
pub fn overflow_message(op: BinOp, shown: &str) -> (message: String)
    requires
        op is Add || op is Sub || op is Mul,
    ensures
        message@ == shown@ + " "@ + operation_word(op) + " overflowed"@,
{
    let mut message = owned(shown);
    message.append(" ");
    match op {
        BinOp::Add => message.append("addition"),
        BinOp::Sub => message.append("subtraction"),
        _ => message.append("multiplication"),
    }
    message.append(" overflowed");
    message
}

/// What the program says when a division on a type (written `shown`) is
/// stopped: by a zero divisor, or (`overflowed`) by the minimum over minus
/// one.
pub fn division_message(shown: &str, overflowed: bool) -> (message: String)
    ensures
        message@ == shown@ + if overflowed { " division overflowed"@ } else { " division by zero"@ },
{
    let mut message = owned(shown);
    if overflowed {
        message.append(" division overflowed");
    } else {
        message.append(" division by zero");
    }
    message
}

/// What the compiler says when two values of a type (written `shown`) with
/// no reachable `Eq` (for `==` and `!=`) or `Ord` (for the others) impl are
/// compared: the operator that was written, and the two reasons it may not
/// have resolved.
pub open spec fn unresolved_comparison(op: BinOp, shown: Seq<char>) -> Seq<char> {
    let needed = if op is Eq || op is Ne { "Eq"@ } else { "Ord"@ };
    let operators = if op is Eq || op is Ne { "`==` or `!=`"@ } else { "`<`, `>`, `<=` or `>=`"@ };
    "two `"@ + shown + "` values cannot be compared with "@ + operators + ": no `"@ + needed
        + "` impl was reachable here. Either there is no `impl "@ + needed + " for "@ + shown
        + "`, or `"@ + needed + "` is not imported in this module \u{2014} an operator only reaches an impl whose trait is in scope where the comparison is written"@
}

/// What the compiler says when a comparison reaches no impl.
pub fn unresolved_comparison_message(op: BinOp, shown: &str) -> (message: String)
    ensures
        message@ == unresolved_comparison(op, shown@),
{
    let equality = matches!(op, BinOp::Eq | BinOp::Ne);
    let needed = if equality { "Eq" } else { "Ord" };
    let mut message = owned("two `");
    message.append(shown);
    message.append("` values cannot be compared with ");
    if equality {
        message.append("`==` or `!=`");
    } else {
        message.append("`<`, `>`, `<=` or `>=`");
    }
    message.append(": no `");
    message.append(needed);
    message.append("` impl was reachable here. Either there is no `impl ");
    message.append(needed);
    message.append(" for ");
    message.append(shown);
    message.append("`, or `");
    message.append(needed);
    message.append("` is not imported in this module \u{2014} an operator only reaches an impl whose trait is in scope where the comparison is written");
    message
}

/// One of the four conversions between `Int` and a fixed-width type.
#[derive(Clone, Copy, PartialEq, Eq, Debug)]
pub enum Conversion {
    /// `wrapping`: the low bits of an `Int`, unchecked.
    Truncate,
    /// `wrapping_to_int`: widened to `Int` by the type's own sign, unchecked.
    Widen { signed: bool },
    /// `to_int`: widened by the type's own sign, and when `nonnegative` the
    /// result is also required to be at least zero. Only `U64` can hold a
    /// number `Int` cannot, and it does so exactly when the same bits read
    /// as signed are negative.
    WidenChecked { signed: bool, nonnegative: bool },
    /// `of`: narrowed, widened back by the type's own sign and required to be
    /// the same number, so one rule serves every type. When `nonnegative` the
    /// `Int` is also required to be at least zero: `U64` is as wide as `Int`,
    /// so its round trip gives back every number, negative ones included.
    Narrow { signed: bool, nonnegative: bool },
}

/// An operation on a fixed-width integer, called by name on its type.
#[derive(Clone, Copy, PartialEq, Eq, Debug)]
pub enum IntOperation {
    ToFloat,
    Convert(Conversion),
    WrappingAdd,
    WrappingSub,
    WrappingMul,
    Xor,
    And,
    Or,
    /// The count is masked to below the width, shifting by the width or more
    /// being undefined in LLVM.
    Shl { mask: u64 },
    /// Arithmetic for a signed type, so a negative number stays negative;
    /// logical for an unsigned one.
    Shr { mask: u64, arithmetic: bool },
}

/// Whether `name` is one of the conversions, which take one argument.
pub open spec fn is_conversion(name: Seq<char>) -> bool {
    name == "of"@ || name == "wrapping"@ || name == "to_int"@ || name == "wrapping_to_int"@
}

/// The conversion a name asks for, on a type of the width and sign.
pub open spec fn conversion_named(name: Seq<char>, bits: nat, signed: bool) -> Conversion {
    if name == "wrapping"@ {
        Conversion::Truncate
    } else if name == "wrapping_to_int"@ {
        Conversion::Widen { signed }
    } else if name == "to_int"@ {
        Conversion::WidenChecked { signed, nonnegative: !signed && bits == 64 }
    } else {
        Conversion::Narrow { signed, nonnegative: !signed && bits == 64 }
    }
}

/// `` `owner::name` `` followed by `rest`.
pub open spec fn about(owner: Seq<char>, name: Seq<char>, rest: Seq<char>) -> Seq<char> {
    "`"@ + owner + "::"@ + name + "`"@ + rest
}

/// The operation `owner::name` asks for with `arity` arguments, on a type of
/// the width and sign, or what the compiler says when there is none: the
/// conversions and `to_float` take one argument and the rest two, and the
/// count is checked before the name is.
pub open spec fn int_operation_named(bits: u32, signed: bool, owner: Seq<char>, name: Seq<char>, arity: nat)
    -> Result<IntOperation, Seq<char>>
{
    if name == "to_float"@ {
        if arity == 1 { Ok(IntOperation::ToFloat) } else { Err(about(owner, name, " takes one number"@)) }
    } else if is_conversion(name) {
        if arity == 1 {
            Ok(IntOperation::Convert(conversion_named(name, bits as nat, signed)))
        } else {
            Err(about(owner, name, " takes one argument"@))
        }
    } else if arity != 2 {
        Err(about(owner, name, " takes two arguments"@))
    } else if name == "wrapping_add"@ {
        Ok(IntOperation::WrappingAdd)
    } else if name == "wrapping_sub"@ {
        Ok(IntOperation::WrappingSub)
    } else if name == "wrapping_mul"@ {
        Ok(IntOperation::WrappingMul)
    } else if name == "xor"@ {
        Ok(IntOperation::Xor)
    } else if name == "and"@ {
        Ok(IntOperation::And)
    } else if name == "or"@ {
        Ok(IntOperation::Or)
    } else if name == "shl"@ {
        Ok(IntOperation::Shl { mask: (bits - 1) as u64 })
    } else if name == "shr"@ {
        Ok(IntOperation::Shr { mask: (bits - 1) as u64, arithmetic: signed })
    } else {
        Err(about(owner, name, " is not an integer operation the backend knows"@))
    }
}

/// The text of a result whose error is a string.
pub open spec fn result_text<T>(r: Result<T, String>) -> Result<T, Seq<char>> {
    match r {
        Ok(v) => Ok(v),
        Err(e) => Err(e@),
    }
}

fn complaint(owner: &str, name: &str, rest: &str) -> (message: String)
    ensures
        message@ == about(owner@, name@, rest@),
{
    let mut message = owned("`");
    message.append(owner);
    message.append("::");
    message.append(name);
    message.append("`");
    message.append(rest);
    message
}

/// The operation `owner::name` asks for with `arity` arguments, on an
/// integer type of the width and sign.
pub fn int_operation(bits: u32, signed: bool, owner: &str, name: &str, arity: usize)
    -> (op: Result<IntOperation, String>)
    requires
        1 <= bits,
    ensures
        result_text(op) == int_operation_named(bits, signed, owner@, name@, arity as nat),
{
    proof {
        reveal_strlit("to_float");
        reveal_strlit("of");
        reveal_strlit("wrapping");
        reveal_strlit("to_int");
        reveal_strlit("wrapping_to_int");
    }
    if same_text(name, "to_float") {
        return if arity == 1 { Ok(IntOperation::ToFloat) } else { Err(complaint(owner, name, " takes one number")) };
    }
    let conversion = if same_text(name, "wrapping") {
        Some(Conversion::Truncate)
    } else if same_text(name, "wrapping_to_int") {
        Some(Conversion::Widen { signed })
    } else if same_text(name, "to_int") {
        Some(Conversion::WidenChecked { signed, nonnegative: !signed && bits == 64 })
    } else if same_text(name, "of") {
        Some(Conversion::Narrow { signed, nonnegative: !signed && bits == 64 })
    } else {
        None
    };
    if let Some(c) = conversion {
        return if arity == 1 { Ok(IntOperation::Convert(c)) } else { Err(complaint(owner, name, " takes one argument")) };
    }
    if arity != 2 {
        return Err(complaint(owner, name, " takes two arguments"));
    }
    let mask = (bits - 1) as u64;
    if same_text(name, "wrapping_add") {
        Ok(IntOperation::WrappingAdd)
    } else if same_text(name, "wrapping_sub") {
        Ok(IntOperation::WrappingSub)
    } else if same_text(name, "wrapping_mul") {
        Ok(IntOperation::WrappingMul)
    } else if same_text(name, "xor") {
        Ok(IntOperation::Xor)
    } else if same_text(name, "and") {
        Ok(IntOperation::And)
    } else if same_text(name, "or") {
        Ok(IntOperation::Or)
    } else if same_text(name, "shl") {
        Ok(IntOperation::Shl { mask })
    } else if same_text(name, "shr") {
        Ok(IntOperation::Shr { mask, arithmetic: signed })
    } else {
        Err(complaint(owner, name, " is not an integer operation the backend knows"))
    }
}

/// What the program says when a checked conversion does not fit: into the
/// type (`into` true, for `of`) or out of it into `Int`.
pub fn conversion_message(owner: &str, into: bool) -> (message: String)
    ensures
        message@ == if into { "converting Int to "@ + owner@ } else { "converting "@ + owner@ + " to Int"@ },
{
    if into {
        let mut message = owned("converting Int to ");
        message.append(owner);
        message
    } else {
        let mut message = owned("converting ");
        message.append(owner);
        message.append(" to Int");
        message
    }
}

/// The three answers `Ord::cmp` gives.
#[derive(Clone, Copy, PartialEq, Eq, Debug)]
pub enum ThreeWay {
    Less,
    Equal,
    Greater,
}

/// The answer `Ord::cmp` gives for two integers.
pub open spec fn three_way(a: int, b: int) -> ThreeWay {
    if a < b {
        ThreeWay::Less
    } else if a == b {
        ThreeWay::Equal
    } else {
        ThreeWay::Greater
    }
}

/// Whether the comparison `op` holds of `a` and `b`.
pub open spec fn compares(op: BinOp, a: int, b: int) -> bool {
    match op {
        BinOp::Eq => a == b,
        BinOp::Ne => a != b,
        BinOp::Lt => a < b,
        BinOp::Gt => a > b,
        BinOp::Le => a <= b,
        _ => a >= b,
    }
}

/// The one test an ordering operator makes of an answer of `Ord::cmp`: the
/// answer it looks for, and whether the operator holds when the answer is
/// that one (`true`) or when it is any other. `<` is "is `Less`", `>=` "is
/// not `Less`", `>` "is `Greater`", and `<=` "is not `Greater`".
pub open spec fn ordering_test(op: BinOp) -> (ThreeWay, bool) {
    (if op is Lt || op is Ge { ThreeWay::Less } else { ThreeWay::Greater }, op is Lt || op is Gt)
}

/// One test of the answer decides each of `<`, `>`, `<=` and `>=` exactly as
/// the two values compare.
pub proof fn law_one_test_decides_each_ordering_operator(op: BinOp, a: int, b: int)
    requires
        op is Lt || op is Gt || op is Le || op is Ge,
    ensures
        ((three_way(a, b) == ordering_test(op).0) == ordering_test(op).1) == compares(op, a, b),
{
}

/// The tag of the constructor `case` of the type spelled `owner`, as a lookup
/// by type and constructor name finds it.
pub open spec fn tag_of(vs: Seq<VariantKey>, owner: Seq<char>, case: Seq<char>) -> Option<int> {
    position_of(variants_named_spec(vs, None, owner, Some(case)), case)
}

/// How the answer of a comparison impl is read.
#[derive(Clone, Copy, PartialEq, Eq, Debug)]
pub enum ImplReading {
    /// `==`: the impl's answer as it is.
    Direct,
    /// `!=`: the impl's answer negated.
    Negated,
    /// An ordering operator: whether the `Ord::cmp` answer's tag is `tag`
    /// (`equal`) or is not.
    Tag { tag: u32, equal: bool },
}

/// What the compiler says when the three-way type lacks `Less` or `Greater`.
pub open spec fn malformed_three_way() -> Seq<char> {
    "`Ord::cmp` produces an `Ordering`, which has `Less`, `Equal` and `Greater`"@
}

/// How the answer of `Ord::cmp` is read for an ordering operator: one tag
/// comparison, against the tag `ordering_test` names, of the three-way type
/// as the table declares it.
pub fn read_ordering(table: &VariantTable, op: BinOp) -> (reading: Result<ImplReading, String>)
    requires
        op is Lt || op is Gt || op is Le || op is Ge,
    ensures
        match reading {
            Ok(r) => {
                &&& tag_of(table.keys(), "Ordering"@, "Less"@) is Some
                &&& tag_of(table.keys(), "Ordering"@, "Greater"@) is Some
                &&& r == ImplReading::Tag {
                    tag: (if ordering_test(op).0 == ThreeWay::Less {
                        tag_of(table.keys(), "Ordering"@, "Less"@)
                    } else {
                        tag_of(table.keys(), "Ordering"@, "Greater"@)
                    }).unwrap() as u32,
                    equal: ordering_test(op).1,
                }
            },
            Err(message) => {
                &&& tag_of(table.keys(), "Ordering"@, "Less"@) is None
                    || tag_of(table.keys(), "Ordering"@, "Greater"@) is None
                &&& message@ == malformed_three_way()
            },
        },
{
    let less = table.variant_of("Ordering", "Less");
    let greater = table.variant_of("Ordering", "Greater");
    match (less, greater) {
        (Some((l, _)), Some((g, _))) => {
            let look_for_less = matches!(op, BinOp::Lt | BinOp::Ge);
            Ok(ImplReading::Tag {
                tag: if look_for_less { l } else { g },
                equal: matches!(op, BinOp::Lt | BinOp::Gt),
            })
        },
        _ => {
            proof {
                reveal_strlit("`Ord::cmp` produces an `Ordering`, which has `Less`, `Equal` and `Greater`");
            }
            Err(owned("`Ord::cmp` produces an `Ordering`, which has `Less`, `Equal` and `Greater`"))
        },
    }
}

/// How a comparison answered through the operand's own impl is read, or
/// what the compiler says: `found` is whether an impl was reached, and
/// `shown` how the operand's type is written.
pub fn through_impl(table: &VariantTable, op: BinOp, found: bool, shown: &str)
    -> (reading: Result<ImplReading, String>)
    requires
        is_comparison(op),
    ensures
        !found ==> (reading matches Err(m) && m@ == unresolved_comparison(op, shown@)),
        found && op is Eq ==> reading == Ok::<ImplReading, String>(ImplReading::Direct),
        found && op is Ne ==> reading == Ok::<ImplReading, String>(ImplReading::Negated),
        found && !(op is Eq || op is Ne) ==> match reading {
            Ok(r) => (r matches ImplReading::Tag { tag, equal } && equal == ordering_test(op).1
                && tag_of(table.keys(), "Ordering"@, "Less"@) is Some
                && tag_of(table.keys(), "Ordering"@, "Greater"@) is Some
                && tag == (if ordering_test(op).0 == ThreeWay::Less {
                    tag_of(table.keys(), "Ordering"@, "Less"@)
                } else {
                    tag_of(table.keys(), "Ordering"@, "Greater"@)
                }).unwrap() as u32),
            Err(m) => m@ == malformed_three_way()
                && (tag_of(table.keys(), "Ordering"@, "Less"@) is None
                    || tag_of(table.keys(), "Ordering"@, "Greater"@) is None),
        },
{
    if !found {
        return Err(unresolved_comparison_message(op, shown));
    }
    match op {
        BinOp::Eq => Ok(ImplReading::Direct),
        BinOp::Ne => Ok(ImplReading::Negated),
        _ => read_ordering(table, op),
    }
}

/// Whether `v` is a value of an integer type of the width and sign.
pub open spec fn fits(v: int, bits: nat, signed: bool) -> bool {
    if signed {
        -pow2((bits - 1) as nat) <= v < pow2((bits - 1) as nat)
    } else {
        0 <= v < pow2(bits)
    }
}

/// The bits of the width that hold `v`, read as an unsigned number.
pub open spec fn bits_of(v: int, bits: nat) -> int {
    v % (pow2(bits) as int)
}

/// Bits of the width read as a number, with or without a sign.
pub open spec fn read_bits(p: int, bits: nat, signed: bool) -> int {
    if signed && p >= pow2((bits - 1) as nat) {
        p - pow2(bits)
    } else {
        p
    }
}

/// Whether LLVM's `icmp` with the predicate holds of two bit patterns of the
/// width.
pub open spec fn predicate_holds(p: IntPredicate, bits: nat, x: int, y: int) -> bool {
    match p {
        IntPredicate::Eq => x == y,
        IntPredicate::Ne => x != y,
        IntPredicate::Slt => read_bits(x, bits, true) < read_bits(y, bits, true),
        IntPredicate::Sgt => read_bits(x, bits, true) > read_bits(y, bits, true),
        IntPredicate::Sle => read_bits(x, bits, true) <= read_bits(y, bits, true),
        IntPredicate::Sge => read_bits(x, bits, true) >= read_bits(y, bits, true),
        IntPredicate::Ult => x < y,
        IntPredicate::Ugt => x > y,
        IntPredicate::Ule => x <= y,
        IntPredicate::Uge => x >= y,
    }
}

/// The width of the machine integer a value of the operand is held in: its
/// type's own, and one bit for a `Bool`, `false` being 0 and `true` 1.
pub open spec fn held_width(operand: Operand) -> nat {
    match spec_int_shape(operand) {
        Some(shape) => shape.0 as nat,
        None => 1,
    }
}

/// The widths a machine integer is held in.
pub open spec fn machine_width(bits: nat) -> bool {
    bits == 1 || bits == 8 || bits == 16 || bits == 32 || bits == 64
}

proof fn lemma_widths()
    ensures
        pow2(0) == 1,
        pow2(1) == 2,
        pow2(7) == 0x80,
        pow2(8) == 0x100,
        pow2(15) == 0x8000,
        pow2(16) == 0x1_0000,
        pow2(31) == 0x8000_0000,
        pow2(32) == 0x1_0000_0000,
        pow2(63) == 0x8000_0000_0000_0000,
        pow2(64) == 0x1_0000_0000_0000_0000,
{
    lemma2_to64();
    lemma2_to64_rest();
}

/// A value of a type, held in the type's bits and read back with the type's
/// sign, is itself.
proof fn lemma_read_back(v: int, bits: nat, signed: bool)
    requires
        machine_width(bits),
        signed ==> bits >= 8,
        fits(v, bits, signed),
    ensures
        0 <= bits_of(v, bits) < pow2(bits),
        read_bits(bits_of(v, bits), bits, signed) == v,
{
    lemma_widths();
    let m: int = pow2(bits) as int;
    let h: int = pow2((bits - 1) as nat) as int;
    assert(m == 2 * h);
    if v >= 0 {
        lemma_small_mod(v as nat, m as nat);
    } else {
        lemma_mod_add_multiples_vanish(v, m);
        lemma_small_mod((m + v) as nat, m as nat);
    }
}

/// Comparing two integers, or two `Bool`s, gives the answer the values give:
/// the predicate's sign is the type's, so `255 < 0` is false of two `U8`s,
/// and `Bool` is unsigned, so `false < true`.
pub proof fn law_a_comparison_reads_the_values(op: BinOp, operand: Operand, a: int, b: int)
    requires
        is_comparison(op),
        spec_int_shape(operand) is Some || operand is Bool,
        fits(a, held_width(operand), ordered_signed(operand)),
        fits(b, held_width(operand), ordered_signed(operand)),
    ensures
        comparison_of(op, operand) == Comparison::Int(int_predicate(op, ordered_signed(operand))),
        predicate_holds(
            int_predicate(op, ordered_signed(operand)),
            held_width(operand),
            bits_of(a, held_width(operand)),
            bits_of(b, held_width(operand)),
        ) == compares(op, a, b),
{
    let w: nat = held_width(operand);
    let s: bool = ordered_signed(operand);
    lemma_read_back(a, w, s);
    lemma_read_back(b, w, s);
}

/// The magnitude of an integer.
pub open spec fn magnitude(a: int) -> int {
    if a < 0 { -a } else { a }
}

/// Division as the machine divides: rounding toward zero.
pub open spec fn truncated_quotient(a: int, b: int) -> int {
    let q = magnitude(a) / magnitude(b);
    if (a < 0) == (b < 0) { q } else { -q }
}

/// Whether the check before a division stops the program: a zero divisor,
/// or, for a signed type, the minimum divided by minus one.
pub open spec fn division_stopped(bits: nat, signed: bool, a: int, b: int) -> bool {
    b == 0 || (signed && a == -pow2((bits - 1) as nat) && b == -1)
}

/// A division of two values of a type that the check lets through gives a
/// value of the type, and the one it stops with a nonzero divisor, the
/// minimum over minus one, gives a value that is not: an unsigned division
/// cannot overflow, and a signed one overflows at that pair alone.
pub proof fn law_the_division_check_stops_exactly_what_overflows(bits: nat, signed: bool, a: int, b: int)
    requires
        bits == 8 || bits == 16 || bits == 32 || bits == 64,
        fits(a, bits, signed),
        fits(b, bits, signed),
        b != 0,
    ensures
        fits(truncated_quotient(a, b), bits, signed) == !division_stopped(bits, signed, a, b),
{
    lemma_widths();
    let x: int = magnitude(a);
    let y: int = magnitude(b);
    let h: int = pow2((bits - 1) as nat) as int;
    lemma_div_pos_is_pos(x, y);
    if y == 1 {
        lemma_div_basics(x);
    } else {
        lemma_div_is_ordered_by_denominator(x, 2, y);
        lemma_div_is_ordered_by_denominator(x, 1, 2);
        lemma_div_basics(x);
        assert(x / 2 < h);
    }
    assert(0 <= x / y <= x);
}

/// What `of` gives for the `Int` `v`, as the `Narrow` plan lowers it on a
/// type of the width and sign: the `Int`'s bits are cut to the width, read
/// with the type's sign and widened back, and the program stops (`None`)
/// unless that gives the same bits, and, when `nonnegative`, unless the
/// `Int` is at least zero.
pub open spec fn narrowed(v: int, bits: nat, signed: bool, nonnegative: bool) -> Option<int> {
    let held = bits_of(v, 64);
    let value = read_bits(bits_of(held, bits), bits, signed);
    if bits_of(value, 64) == held && (!nonnegative || read_bits(held, 64, true) >= 0) {
        Some(value)
    } else {
        None
    }
}

/// What `to_int` gives for the value `u` of a type of the width and sign, as
/// the `WidenChecked` plan lowers it: its bits widened by the type's sign and
/// read as an `Int`, and the program stops (`None`) when `nonnegative` and
/// that `Int` is negative.
pub open spec fn widened(u: int, bits: nat, signed: bool, nonnegative: bool) -> Option<int> {
    let wide = bits_of(read_bits(bits_of(u, bits), bits, signed), 64);
    if !nonnegative || read_bits(wide, 64, true) >= 0 {
        Some(read_bits(wide, 64, true))
    } else {
        None
    }
}

/// Bits of a width read with a sign give a value of a type of that width and
/// sign.
proof fn lemma_read_fits(n: int, bits: nat, signed: bool)
    requires
        machine_width(bits),
        signed ==> bits >= 8,
        0 <= n < pow2(bits),
    ensures
        fits(read_bits(n, bits, signed), bits, signed),
{
    lemma_widths();
}

/// The low bits of an `Int`'s bits are the low bits of the `Int`.
proof fn lemma_low_bits(v: int, bits: nat)
    requires
        bits == 8 || bits == 16 || bits == 32 || bits == 64,
    ensures
        bits_of(bits_of(v, 64), bits) == bits_of(v, bits),
{
    lemma_widths();
    let m: int = pow2(bits) as int;
    let k: int = if bits == 8 {
        0x100_0000_0000_0000
    } else if bits == 16 {
        0x1_0000_0000_0000
    } else if bits == 32 {
        0x1_0000_0000
    } else {
        1
    };
    assert(m * k == 0x1_0000_0000_0000_0000int);
    lemma_mod_mod(v, m, k);
}

/// `of` stops the program exactly when the `Int` is not a value of the type,
/// and otherwise gives that same number; one round trip serves every type,
/// `U64` with the further check that the `Int` is not negative.
pub proof fn law_of_accepts_exactly_what_fits(kind: IntKind, v: int)
    requires
        fits(v, 64, true),
    ensures
        conversion_named("of"@, kind.spec_bits() as nat, kind.spec_signed()) == (Conversion::Narrow {
            signed: kind.spec_signed(),
            nonnegative: !kind.spec_signed() && kind.spec_bits() == 64,
        }),
        narrowed(v, kind.spec_bits() as nat, kind.spec_signed(), !kind.spec_signed() && kind.spec_bits() == 64)
            == if fits(v, kind.spec_bits() as nat, kind.spec_signed()) { Some(v) } else { None::<int> },
{
    reveal_strlit("of");
    reveal_strlit("wrapping");
    reveal_strlit("wrapping_to_int");
    reveal_strlit("to_int");
    assert("of"@.len() == 2 && "wrapping"@.len() == 8 && "wrapping_to_int"@.len() == 15 && "to_int"@.len() == 6);
    lemma_widths();
    let bits: nat = kind.spec_bits() as nat;
    let signed: bool = kind.spec_signed();
    let held: int = bits_of(v, 64);
    let value: int = read_bits(bits_of(held, bits), bits, signed);
    lemma_read_back(v, 64, true);
    lemma_low_bits(v, bits);
    lemma_read_back(v, 64, true);
    assert(0 <= bits_of(v, bits) < pow2(bits)) by {
        assert(pow2(bits) > 0);
    }
    lemma_read_fits(bits_of(v, bits), bits, signed);
    if fits(v, bits, signed) {
        lemma_read_back(v, bits, signed);
    } else if signed || bits < 64 {
        assert(fits(value, 64, true));
        lemma_read_back(value, 64, true);
    }
}

/// `to_int` gives the number a value of the type is, and stops the program
/// exactly when `Int` cannot hold it, which only a `U64` of 2^63 or more is.
pub proof fn law_to_int_gives_the_number(kind: IntKind, u: int)
    requires
        fits(u, kind.spec_bits() as nat, kind.spec_signed()),
    ensures
        conversion_named("to_int"@, kind.spec_bits() as nat, kind.spec_signed()) == (Conversion::WidenChecked {
            signed: kind.spec_signed(),
            nonnegative: !kind.spec_signed() && kind.spec_bits() == 64,
        }),
        widened(u, kind.spec_bits() as nat, kind.spec_signed(), !kind.spec_signed() && kind.spec_bits() == 64)
            == if fits(u, 64, true) { Some(u) } else { None::<int> },
{
    reveal_strlit("wrapping");
    reveal_strlit("wrapping_to_int");
    reveal_strlit("to_int");
    assert("wrapping"@.len() == 8 && "wrapping_to_int"@.len() == 15 && "to_int"@.len() == 6);
    lemma_widths();
    let bits: nat = kind.spec_bits() as nat;
    let signed: bool = kind.spec_signed();
    lemma_read_back(u, bits, signed);
    if fits(u, 64, true) {
        lemma_read_back(u, 64, true);
    } else {
        lemma_small_mod(u as nat, 0x1_0000_0000_0000_0000nat);
    }
}

/// The width of the machine integer type asked for with `bits`: only four
/// exist, and any width but 8, 16 and 32 is held in 64 bits.
pub fn int_width(bits: u32) -> (width: u32)
    ensures
        width == if bits == 8 || bits == 16 || bits == 32 { bits } else { 64 },
{
    if bits == 8 || bits == 16 || bits == 32 {
        bits
    } else {
        64
    }
}

/// A shift count masked with the width less one is below the width, so a
/// masked shift is never one LLVM leaves undefined.
pub proof fn law_a_masked_shift_count_is_below_the_width(bits: u64, count: u64)
    requires
        bits == 8 || bits == 16 || bits == 32 || bits == 64,
    ensures
        (count & ((bits - 1) as u64)) < bits,
{
    assert(bits == 8 ==> count & 7 < 8) by (bit_vector);
    assert(bits == 16 ==> count & 15 < 16) by (bit_vector);
    assert(bits == 32 ==> count & 31 < 32) by (bit_vector);
    assert(bits == 64 ==> count & 63 < 64) by (bit_vector);
}

/// What an `fcmp` predicate answers of two ordered (not `NaN`) values,
/// as LLVM defines it: `oeq` equal, `une` unequal, `olt` less, `ogt`
/// greater, `ole` at most, `oge` at least.
pub open spec fn fcmp_ordered(p: FloatPredicate, x: int, y: int) -> bool {
    match p {
        FloatPredicate::Oeq => x == y,
        FloatPredicate::Une => x != y,
        FloatPredicate::Olt => x < y,
        FloatPredicate::Ogt => x > y,
        FloatPredicate::Ole => x <= y,
        FloatPredicate::Oge => x >= y,
    }
}

/// What an `fcmp` predicate answers when either value is `NaN`: the
/// ordered predicates are false and the unordered `une` is true.
pub open spec fn fcmp_unordered(p: FloatPredicate) -> bool {
    p is Une
}

/// Comparing two `Float`s gives the answer the values give: for ordered
/// values, with `x` and `y` standing for their places in the order, the
/// `fcmp` chosen holds exactly when the operator does (so `1.0 > 1.0` is
/// false); and with a `NaN`, only `!=` holds, as IEEE says.
pub proof fn law_a_float_comparison_reads_the_values(op: BinOp, x: int, y: int)
    requires
        is_comparison(op),
    ensures
        comparison_of(op, Operand::Float) matches Comparison::Float(p) && fcmp_ordered(p, x, y) == compares(op, x, y)
            && (fcmp_unordered(p) <==> op is Ne),
{
}

/// What an arithmetic operator computes of two numbers, before any limit.
pub open spec fn arithmetic_value(op: BinOp, x: int, y: int) -> int {
    match op {
        BinOp::Add => x + y,
        BinOp::Sub => x - y,
        BinOp::Mul => x * y,
        _ => x / y,
    }
}

/// What a float instruction computes of two numbers, before rounding.
pub open spec fn float_value(f: FloatOp, x: int, y: int) -> int {
    match f {
        FloatOp::Add => x + y,
        FloatOp::Sub => x - y,
        FloatOp::Mul => x * y,
        FloatOp::Div => x / y,
    }
}

/// The answer a short-circuit gives from its left and right sides: the
/// shortcut when the left side is it, else the right side.
pub open spec fn short_circuit_answer(b: Binary, l: bool, r: bool) -> Option<bool> {
    match b {
        Binary::ShortCircuit { shortcut } => Some(if l == shortcut { shortcut } else { r }),
        _ => None,
    }
}

/// What a float instruction gives of two numbers, if it is one.
pub open spec fn float_answer(b: Binary, x: int, y: int) -> Option<int> {
    match b {
        Binary::Float(f) => Some(float_value(f, x, y)),
        _ => None,
    }
}

/// The width and sign a checked operation works at, if it is one.
pub open spec fn checked_at(b: Binary) -> Option<(u32, bool)> {
    match b {
        Binary::Checked { signed, bits } => Some((bits, signed)),
        _ => None,
    }
}

/// The width, sign and remainder flag of a division, if it is one.
pub open spec fn divided_at(b: Binary) -> Option<(u32, bool, bool)> {
    match b {
        Binary::Divide { signed, remainder, bits } => Some((bits, signed, remainder)),
        _ => None,
    }
}

/// What a byte comparison of strings answers, given whether the bytes are
/// the same, if it is one.
pub open spec fn strings_answer(c: Comparison, same: bool) -> Option<bool> {
    match c {
        Comparison::Strings { equal } => Some(same == equal),
        _ => None,
    }
}

/// The operators do what they say. `&&` skips its right side when the left
/// is `false` and `||` when it is `true`, and either way the answer is the
/// operator's; `+`, `-`, `*` and `/` on floats are the float instruction of
/// the same operation; integer `+`, `-` and `*` are checked, and `/` and `%`
/// divided, at the operand's own width and sign, `%` as the remainder; `+`
/// on strings concatenates; a comparison is answered as `comparison_of`
/// says, strings by whether their bytes are the same; and `-` negates a
/// float as a float.
pub proof fn law_each_operator_means_what_it_says(op: BinOp, operand: Operand, l: bool, r: bool, x: int, y: int, same: bool)
    requires
        arithmetic_applies(op, operand),
    ensures
        op is And ==> short_circuit_answer(binary_of(op, operand), l, r) == Some(l && r),
        op is Or ==> short_circuit_answer(binary_of(op, operand), l, r) == Some(l || r),
        (op is Add || op is Sub || op is Mul || op is Div) && operand is Float ==> float_answer(binary_of(op, operand), x, y)
            == Some(arithmetic_value(op, x, y)),
        op is Add && operand is Str ==> binary_of(op, operand) is Concat,
        (op is Add || op is Sub || op is Mul) && spec_int_shape(operand) is Some ==> checked_at(binary_of(op, operand))
            == spec_int_shape(operand),
        (op is Div || op is Rem) && spec_int_shape(operand) is Some ==> divided_at(binary_of(op, operand)) == Some(
            (spec_int_shape(operand).unwrap().0, spec_int_shape(operand).unwrap().1, op is Rem),
        ),
        is_comparison(op) ==> binary_of(op, operand) == (Binary::Compare(comparison_of(op, operand))),
        (op is Eq || op is Ne) && operand is Str ==> strings_answer(comparison_of(op, operand), same) == Some(same == (op is Eq)),
        (unary_of(UnOp::Neg, operand) is FloatNeg) == (operand is Float),
{
}

} // verus!
