//! Integer types by name, and integer literals.

use vstd::prelude::*;

use crate::text::same_text;

verus! {

broadcast use vstd::string::group_string_axioms;

/// A fixed-width integer type: its width and whether it is signed.
#[derive(Clone, Copy, PartialEq, Eq, Debug, Hash)]
pub enum IntKind {
    I8,
    I16,
    I32,
    I64,
    U8,
    U16,
    U32,
    U64,
}

/// The name a fixed-width integer type is written with.
pub open spec fn int_kind_name(kind: IntKind) -> Seq<char> {
    match kind {
        IntKind::I8 => "I8"@,
        IntKind::I16 => "I16"@,
        IntKind::I32 => "I32"@,
        IntKind::I64 => "I64"@,
        IntKind::U8 => "U8"@,
        IntKind::U16 => "U16"@,
        IntKind::U32 => "U32"@,
        IntKind::U64 => "U64"@,
    }
}

/// The fixed-width integer type a name denotes, if it denotes one.
pub open spec fn int_kind_named(name: Seq<char>) -> Option<IntKind> {
    if name == "I8"@ {
        Some(IntKind::I8)
    } else if name == "I16"@ {
        Some(IntKind::I16)
    } else if name == "I32"@ {
        Some(IntKind::I32)
    } else if name == "I64"@ {
        Some(IntKind::I64)
    } else if name == "U8"@ {
        Some(IntKind::U8)
    } else if name == "U16"@ {
        Some(IntKind::U16)
    } else if name == "U32"@ {
        Some(IntKind::U32)
    } else if name == "U64"@ {
        Some(IntKind::U64)
    } else {
        None
    }
}

impl IntKind {
    /// Width in bits.
    pub open spec fn spec_bits(self) -> u32 {
        match self {
            IntKind::I8 | IntKind::U8 => 8,
            IntKind::I16 | IntKind::U16 => 16,
            IntKind::I32 | IntKind::U32 => 32,
            IntKind::I64 | IntKind::U64 => 64,
        }
    }

    /// Whether the type is signed.
    pub open spec fn spec_signed(self) -> bool {
        match self {
            IntKind::I8 | IntKind::I16 | IntKind::I32 | IntKind::I64 => true,
            _ => false,
        }
    }

    /// Width in bits.
    pub fn bits(&self) -> (b: u32)
        ensures
            b == self.spec_bits(),
    {
        match self {
            IntKind::I8 | IntKind::U8 => 8,
            IntKind::I16 | IntKind::U16 => 16,
            IntKind::I32 | IntKind::U32 => 32,
            IntKind::I64 | IntKind::U64 => 64,
        }
    }

    /// Whether the type is signed.
    pub fn signed(&self) -> (s: bool)
        ensures
            s == self.spec_signed(),
    {
        match self {
            IntKind::I8 | IntKind::I16 | IntKind::I32 | IntKind::I64 => true,
            _ => false,
        }
    }

    /// The name the type is written with, `U8` for instance.
    pub fn name(&self) -> (n: &'static str)
        ensures
            n@ == int_kind_name(*self),
    {
        match self {
            IntKind::I8 => "I8",
            IntKind::I16 => "I16",
            IntKind::I32 => "I32",
            IntKind::I64 => "I64",
            IntKind::U8 => "U8",
            IntKind::U16 => "U16",
            IntKind::U32 => "U32",
            IntKind::U64 => "U64",
        }
    }

    /// The type a name denotes, if it names a fixed-width integer type.
    pub fn parse(name: &str) -> (kind: Option<IntKind>)
        ensures
            kind == int_kind_named(name@),
    {
        if same_text(name, "I8") {
            Some(IntKind::I8)
        } else if same_text(name, "I16") {
            Some(IntKind::I16)
        } else if same_text(name, "I32") {
            Some(IntKind::I32)
        } else if same_text(name, "I64") {
            Some(IntKind::I64)
        } else if same_text(name, "U8") {
            Some(IntKind::U8)
        } else if same_text(name, "U16") {
            Some(IntKind::U16)
        } else if same_text(name, "U32") {
            Some(IntKind::U32)
        } else if same_text(name, "U64") {
            Some(IntKind::U64)
        } else {
            None
        }
    }
}

/// Each name denotes the type that is written with it.
pub proof fn law_each_name_denotes_its_type(kind: IntKind)
    ensures
        int_kind_named(int_kind_name(kind)) == Some(kind),
{
    reveal_strlit("I8");
    reveal_strlit("I16");
    reveal_strlit("I32");
    reveal_strlit("I64");
    reveal_strlit("U8");
    reveal_strlit("U16");
    reveal_strlit("U32");
    reveal_strlit("U64");
    assert("I8"@ =~= seq!['I', '8']);
    assert("U8"@ =~= seq!['U', '8']);
    assert("I16"@ =~= seq!['I', '1', '6']);
    assert("I32"@ =~= seq!['I', '3', '2']);
    assert("I64"@ =~= seq!['I', '6', '4']);
    assert("U16"@ =~= seq!['U', '1', '6']);
    assert("U32"@ =~= seq!['U', '3', '2']);
    assert("U64"@ =~= seq!['U', '6', '4']);
}

/// Width and signedness of an integer type named as a path owner: `Int` and
/// `I64` are the same 64-bit signed integer.
pub open spec fn int_owner_spec(owner: Seq<char>) -> Option<(u32, bool)> {
    if owner == "Int"@ || owner == "I64"@ {
        Some((64u32, true))
    } else {
        match int_kind_named(owner) {
            Some(kind) => Some((kind.spec_bits(), kind.spec_signed())),
            None => None,
        }
    }
}

/// The width and signedness of an integer type named as a path owner.
pub fn int_owner(owner: &str) -> (shape: Option<(u32, bool)>)
    ensures
        shape == int_owner_spec(owner@),
{
    if same_text(owner, "Int") || same_text(owner, "I64") {
        Some((64, true))
    } else {
        match IntKind::parse(owner) {
            Some(kind) => Some((kind.bits(), kind.signed())),
            None => None,
        }
    }
}

// ---------------------------------------------------------------------------
// Integer literals
// ---------------------------------------------------------------------------

/// The literal's text without its `_` separators.
pub open spec fn without_separators(text: Seq<char>) -> Seq<char> {
    text.filter(|c: char| c != '_')
}

/// The radix a literal's prefix selects, and the text after the prefix.
pub open spec fn radix_and_digits(c: Seq<char>) -> (u32, Seq<char>) {
    if c.len() >= 2 && c[0] == '0' && (c[1] == 'x' || c[1] == 'X') {
        (16, c.skip(2))
    } else if c.len() >= 2 && c[0] == '0' && (c[1] == 'b' || c[1] == 'B') {
        (2, c.skip(2))
    } else if c.len() >= 2 && c[0] == '0' && (c[1] == 'o' || c[1] == 'O') {
        (8, c.skip(2))
    } else {
        (10, c)
    }
}

/// The value of one digit in `radix`: `0`-`9`, then `a`-`z` or `A`-`Z` for
/// ten and up.
pub open spec fn digit_value(c: char, radix: u32) -> Option<nat> {
    let v: int = if '0' <= c && c <= '9' {
        c as int - '0' as int
    } else if 'a' <= c && c <= 'z' {
        c as int - 'a' as int + 10
    } else if 'A' <= c && c <= 'Z' {
        c as int - 'A' as int + 10
    } else {
        radix as int
    };
    if v < radix { Some(v as nat) } else { None }
}

/// Every character is a digit in `radix`.
pub open spec fn all_digits(s: Seq<char>, radix: u32) -> bool {
    forall|i: int| 0 <= i < s.len() ==> (#[trigger] digit_value(s[i], radix)) is Some
}

/// The number the digits spell, most significant first.
pub open spec fn digits_value(s: Seq<char>, radix: u32) -> nat
    decreases s.len(),
{
    if s.len() == 0 {
        0
    } else {
        digits_value(s.drop_last(), radix) * radix as nat + match digit_value(s.last(), radix) {
            Some(d) => d,
            None => 0,
        }
    }
}

/// A signed 64-bit integer in `radix`: an optional `+` or `-`, then at
/// least one digit, and a value that fits.
pub open spec fn signed_in_radix(s: Seq<char>, radix: u32) -> Option<i64> {
    if s.len() == 0 {
        None
    } else {
        let negative = s[0] == '-';
        let body = if s[0] == '+' || s[0] == '-' { s.skip(1) } else { s };
        if body.len() == 0 || !all_digits(body, radix) {
            None
        } else {
            let v: int = if negative { -(digits_value(body, radix) as int) } else { digits_value(body, radix) as int };
            if i64::MIN <= v <= i64::MAX { Some(v as i64) } else { None }
        }
    }
}

/// What an integer literal's text denotes: separators dropped, a `0x`,
/// `0b` or `0o` prefix (either case) selecting the radix, and `None` for
/// anything that is not a 64-bit signed integer.
pub open spec fn int_literal_value(text: Seq<char>) -> Option<i64> {
    let (radix, digits) = radix_and_digits(without_separators(text));
    signed_in_radix(digits, radix)
}

const SATURATED: u128 = 0x8000_0000_0000_0001;

proof fn lemma_digits_value_step(s: Seq<char>, c: char, radix: u32)
    ensures
        digits_value(s.push(c), radix) == digits_value(s, radix) * radix as nat + match digit_value(c, radix) {
            Some(d) => d,
            None => 0,
        },
{
    assert(s.push(c).drop_last() =~= s);
}

fn digit_of(c: char, radix: u32) -> (d: Option<u32>)
    requires
        radix <= 16,
    ensures
        d is Some <==> digit_value(c, radix) is Some,
        d matches Some(v) ==> digit_value(c, radix) == Some(v as nat),
{
    let v: u32 = if '0' <= c && c <= '9' {
        (c as u32) - ('0' as u32)
    } else if 'a' <= c && c <= 'z' {
        (c as u32) - ('a' as u32) + 10
    } else if 'A' <= c && c <= 'Z' {
        (c as u32) - ('A' as u32) + 10
    } else {
        radix
    };
    if v < radix { Some(v) } else { None }
}

/// Parses the text of an integer literal.
pub fn parse_int(text: &str) -> (value: Option<i64>)
    ensures
        value == int_literal_value(text@),
{
    // Drop the separators.
    let n = text.unicode_len();
    let mut cleaned: Vec<char> = Vec::new();
    let mut i: usize = 0;
    while i < n
        invariant
            n == text@.len(),
            i <= n,
            cleaned@ == without_separators(text@.subrange(0, i as int)),
        decreases n - i,
    {
        let c = text.get_char(i);
        proof {
            let t = text@.subrange(0, i as int + 1);
            assert(t.drop_last() =~= text@.subrange(0, i as int));
            assert(t.last() == c);
            reveal_with_fuel(Seq::filter, 1);
        }
        if c != '_' {
            cleaned.push(c);
        }
        i = i + 1;
    }
    assert(text@.subrange(0, n as int) =~= text@);
    let ghost c = cleaned@;
    // The radix prefix.
    let len = cleaned.len();
    let mut start: usize = 0;
    let mut radix: u32 = 10;
    if len >= 2 && cleaned[0] == '0' {
        let p = cleaned[1];
        if p == 'x' || p == 'X' {
            radix = 16;
            start = 2;
        } else if p == 'b' || p == 'B' {
            radix = 2;
            start = 2;
        } else if p == 'o' || p == 'O' {
            radix = 8;
            start = 2;
        }
    }
    let ghost digits = c.skip(start as int);
    assert(radix_and_digits(c) == (radix, digits));
    // The sign.
    if start == len {
        assert(digits.len() == 0);
        assert(int_literal_value(text@) == signed_in_radix(digits, radix));
        return None;
    }
    let negative = cleaned[start] == '-';
    let mut pos = start;
    if cleaned[start] == '+' || cleaned[start] == '-' {
        pos = start + 1;
    }
    let ghost body = if digits[0] == '+' || digits[0] == '-' { digits.skip(1) } else { digits };
    assert(body =~= c.skip(pos as int));
    if pos == len {
        assert(body.len() == 0);
        assert(digits[0] == cleaned[start as int]);
        assert(int_literal_value(text@) == signed_in_radix(digits, radix));
        return None;
    }
    // The digits, with the magnitude saturated just above what fits.
    let mut acc: u128 = 0;
    let mut k: usize = pos;
    while k < len
        invariant
            c == cleaned@,
            len == c.len(),
            pos <= k <= len,
            radix <= 16,
            radix >= 2,
            all_digits(c.subrange(pos as int, k as int), radix),
            body == c.skip(pos as int),
            start < len,
            start <= pos,
            digits == c.skip(start as int),
            c == without_separators(text@),
            radix_and_digits(c) == (radix, digits),
            body == (if digits[0] == '+' || digits[0] == '-' { digits.skip(1) } else { digits }),
            negative == (digits[0] == '-'),
            acc == if digits_value(c.subrange(pos as int, k as int), radix) < SATURATED as nat {
                digits_value(c.subrange(pos as int, k as int), radix) as u128
            } else {
                SATURATED
            },
        decreases len - k,
    {
        let ch = cleaned[k];
        let d = digit_of(ch, radix);
        let ghost prefix = c.subrange(pos as int, k as int);
        proof {
            assert(c.subrange(pos as int, k as int + 1) =~= prefix.push(ch));
            lemma_digits_value_step(prefix, ch, radix);
        }
        match d {
            None => {
                proof {
                    assert(body[k - pos] == ch);
                    assert(!all_digits(body, radix));
                    assert(digits[0] == cleaned[start as int]);
                    assert(int_literal_value(text@) == signed_in_radix(digits, radix));
                }
                return None;
            }
            Some(v) => {
                let ghost before = digits_value(prefix, radix);
                let next: u128 = if acc >= SATURATED {
                    proof {
                        assert(before * radix as nat >= before) by (nonlinear_arith)
                            requires radix >= 2;
                    }
                    SATURATED
                } else {
                    proof {
                        assert(acc * radix <= SATURATED * 16) by (nonlinear_arith)
                            requires acc < SATURATED, radix <= 16;
                    }
                    let candidate = acc * (radix as u128) + (v as u128);
                    if candidate >= SATURATED { SATURATED } else { candidate }
                };
                acc = next;
                proof {
                    let now = c.subrange(pos as int, k as int + 1);
                    assert forall|j: int| 0 <= j < now.len() implies (#[trigger] digit_value(now[j], radix)) is Some by {
                        if j < now.len() - 1 {
                            assert(now[j] == prefix[j]);
                        }
                    }
                }
                k = k + 1;
            }
        }
    }
    assert(c.subrange(pos as int, len as int) =~= body);
    assert(digits[0] == cleaned[start as int]);
    assert(int_literal_value(text@) == signed_in_radix(digits, radix));
    assert(all_digits(body, radix));
    assert(negative == (digits[0] == '-'));
    let ghost magnitude = digits_value(body, radix) as int;
    if negative {
        if acc > 0x8000_0000_0000_0000 {
            assert(-magnitude < i64::MIN);
            None
        } else if acc == 0x8000_0000_0000_0000 {
            assert(-magnitude == i64::MIN);
            Some(i64::MIN)
        } else {
            assert(-magnitude > i64::MIN);
            Some(-(acc as i64))
        }
    } else {
        if acc > 0x7fff_ffff_ffff_ffff {
            assert(magnitude > i64::MAX);
            None
        } else {
            Some(acc as i64)
        }
    }
}

} // verus!
