//! Atoms: the numbers and characters of the machine, and the rules by which
//! two atoms of different kinds are brought to one kind before an operator
//! is applied.
use vstd::prelude::*;
use crate::cell::float::{float_byte, float_to_byte};
use crate::text::{
    decimal, fragments, push_char, push_decimal, push_signed_decimal, Fragment, Piece,
};

verus! {

/// The four kinds of atom.
#[derive(Clone, Copy, Debug, PartialEq, Eq, Structural)]
pub enum Kind {
    /// An unsigned 64-bit integer.
    UInt,
    /// A signed 64-bit integer.
    SInt,
    /// A 64-bit float.
    Float,
    /// A character.
    Char,
}

/// An atom: a number or a character.
///
/// A float is held as its IEEE-754 double precision bit pattern. Two float
/// atoms are equal when their bit patterns are.
#[derive(Clone, Copy, Debug, PartialEq, Eq, Structural)]
pub enum Atom {
    /// Unsigned integer atom.
    UInt(u64),
    /// Signed integer atom.
    SInt(i64),
    /// Float atom, as its bit pattern.
    Float(u64),
    /// Character atom.
    Char(char),
}

/// The arithmetic operators.
#[derive(Clone, Copy, Debug, PartialEq, Eq, Structural)]
pub enum ArithOp {
    Add,
    Sub,
    Mul,
    Div,
    Rem,
}

/// The bitwise operators.
#[derive(Clone, Copy, Debug, PartialEq, Eq, Structural)]
pub enum BitOp {
    And,
    Or,
    Xor,
}

/// Why an operator has no result.
#[derive(Clone, Copy, Debug, PartialEq, Eq, Structural)]
pub enum Fault {
    /// The exact result does not fit the kind of the result.
    Overflow,
    /// Division, or remainder, by zero.
    DivisionByZero,
    /// A bitwise operator met a float.
    UnsupportedOperation,
}

/// An operand of a float operation that is left to the caller.
#[derive(Clone, Copy, Debug, PartialEq, Eq, Structural)]
pub enum FloatOperand {
    /// A float, as its bit pattern.
    Bits(u64),
    /// An unsigned integer, to be converted to the nearest float.
    UInt(u64),
    /// A signed integer, to be converted to the nearest float.
    SInt(i64),
}

/// What an arithmetic operator comes to.
#[derive(Clone, Copy, Debug, PartialEq, Eq, Structural)]
pub enum Arith {
    /// The resulting atom.
    Value(Atom),
    /// The result is the float that the operator gives on these two
    /// operands, left first. Floating-point arithmetic is not done here: the
    /// caller applies the operator and holds the result as a float atom.
    Float(FloatOperand, FloatOperand),
}

impl Kind {
    /// The place of a kind in the order in which kinds give way to one
    /// another: a kind gives way to every kind of higher rank.
    pub open spec fn rank(self) -> nat {
        match self {
            Kind::UInt => 0,
            Kind::SInt => 1,
            Kind::Float => 2,
            Kind::Char => 3,
        }
    }

    /// The kind of the result when an operator meets operands of these two
    /// kinds: that of higher rank.
    pub open spec fn spec_join(self, other: Kind) -> Kind {
        if self.rank() >= other.rank() {
            self
        } else {
            other
        }
    }

    /// The kind of the result when an operator meets operands of these two
    /// kinds.
    #[verifier::when_used_as_spec(spec_join)]
    pub fn join(self, other: Kind) -> (kind: Kind)
        ensures
            kind == self.spec_join(other),
    {
        match (self, other) {
            (Kind::Char, _) | (_, Kind::Char) => Kind::Char,
            (Kind::Float, _) | (_, Kind::Float) => Kind::Float,
            (Kind::SInt, _) | (_, Kind::SInt) => Kind::SInt,
            (Kind::UInt, Kind::UInt) => Kind::UInt,
        }
    }
}

/// The size of an integer, without its sign.
pub open spec fn magnitude(x: int) -> int {
    if x < 0 {
        -x
    } else {
        x
    }
}

/// The quotient of `x` by `y`, rounded toward zero.
pub open spec fn quotient(x: int, y: int) -> int
    recommends
        y != 0,
{
    let q = magnitude(x) / magnitude(y);
    if (x < 0) == (y < 0) {
        q
    } else {
        -q
    }
}

/// What is left of `x` after division by `y`, rounded toward zero: it has
/// the sign of `x`.
pub open spec fn remainder(x: int, y: int) -> int
    recommends
        y != 0,
{
    let r = magnitude(x) % magnitude(y);
    if x < 0 {
        -r
    } else {
        r
    }
}

/// The exact result of an arithmetic operator on two integers.
pub open spec fn exact(op: ArithOp, x: int, y: int) -> int {
    match op {
        ArithOp::Add => x + y,
        ArithOp::Sub => x - y,
        ArithOp::Mul => x * y,
        ArithOp::Div => quotient(x, y),
        ArithOp::Rem => remainder(x, y),
    }
}

/// The result of an arithmetic operator on two integers of a kind that
/// holds the integers from `low` to `high`.
///
/// Division and remainder by zero have no result. Otherwise the result is
/// the exact one, if it lies in the range. A remainder has no result where
/// the quotient lies outside the range.
pub open spec fn bounded(op: ArithOp, x: int, y: int, low: int, high: int) -> Result<int, Fault> {
    if (op is Div || op is Rem) && y == 0 {
        Err(Fault::DivisionByZero)
    } else if op is Rem && !(low <= quotient(x, y) <= high) {
        Err(Fault::Overflow)
    } else if low <= exact(op, x, y) <= high {
        Ok(exact(op, x, y))
    } else {
        Err(Fault::Overflow)
    }
}

/// The result of a bitwise operator on two unsigned integers.
pub open spec fn bits_u64(op: BitOp, x: u64, y: u64) -> u64 {
    match op {
        BitOp::And => x & y,
        BitOp::Or => x | y,
        BitOp::Xor => x ^ y,
    }
}

/// The result of a bitwise operator on two signed integers.
pub open spec fn bits_i64(op: BitOp, x: i64, y: i64) -> i64 {
    match op {
        BitOp::And => x & y,
        BitOp::Or => x | y,
        BitOp::Xor => x ^ y,
    }
}

/// The result of a bitwise operator on two bytes.
pub open spec fn bits_u8(op: BitOp, x: u8, y: u8) -> u8 {
    match op {
        BitOp::And => x & y,
        BitOp::Or => x | y,
        BitOp::Xor => x ^ y,
    }
}

/// Applies an arithmetic operator to two unsigned integers.
fn unsigned(op: ArithOp, x: u64, y: u64) -> (result: Result<Arith, Fault>)
    ensures
        result == wrap_unsigned(bounded(op, x as int, y as int, 0, u64::MAX as int)),
{
    if y == 0 && (matches!(op, ArithOp::Div) || matches!(op, ArithOp::Rem)) {
        return Err(Fault::DivisionByZero);
    }
    let found = match op {
        ArithOp::Add => x.checked_add(y),
        ArithOp::Sub => x.checked_sub(y),
        ArithOp::Mul => x.checked_mul(y),
        ArithOp::Div => {
            proof {
                lemma_division(x as int, y as int);
            }
            x.checked_div(y)
        },
        ArithOp::Rem => {
            proof {
                lemma_division(x as int, y as int);
            }
            x.checked_rem(y)
        },
    };
    match found {
        Some(v) => Ok(Arith::Value(Atom::UInt(v))),
        None => Err(Fault::Overflow),
    }
}

/// Applies an arithmetic operator to two signed integers.
fn signed(op: ArithOp, x: i64, y: i64) -> (result: Result<Arith, Fault>)
    ensures
        result == wrap_signed(bounded(op, x as int, y as int, i64::MIN as int, i64::MAX as int)),
{
    if y == 0 && (matches!(op, ArithOp::Div) || matches!(op, ArithOp::Rem)) {
        return Err(Fault::DivisionByZero);
    }
    let found = match op {
        ArithOp::Add => x.checked_add(y),
        ArithOp::Sub => x.checked_sub(y),
        ArithOp::Mul => x.checked_mul(y),
        ArithOp::Div => {
            let q = x.checked_div(y);
            proof {
                lemma_division(x as int, y as int);
                assert(q matches Some(v) ==> v == quotient(x as int, y as int));
                assert(q is None ==> !(i64::MIN <= quotient(x as int, y as int) <= i64::MAX));
            }
            q
        },
        ArithOp::Rem => {
            let r = x.checked_rem(y);
            proof {
                lemma_division(x as int, y as int);
                assert(r matches Some(v) ==> v == remainder(x as int, y as int));
                assert(r is Some ==> i64::MIN <= quotient(x as int, y as int) <= i64::MAX);
                assert(r is None ==> quotient(x as int, y as int) > i64::MAX);
            }
            r
        },
    };
    match found {
        Some(v) => Ok(Arith::Value(Atom::SInt(v))),
        None => Err(Fault::Overflow),
    }
}

/// Applies an arithmetic operator to two bytes, and makes a character of the
/// result.
fn bytes(op: ArithOp, x: u8, y: u8) -> (result: Result<Arith, Fault>)
    ensures
        result == wrap_byte(bounded(op, x as int, y as int, 0, 255)),
{
    if y == 0 && (matches!(op, ArithOp::Div) || matches!(op, ArithOp::Rem)) {
        return Err(Fault::DivisionByZero);
    }
    let found = match op {
        ArithOp::Add => x.checked_add(y),
        ArithOp::Sub => x.checked_sub(y),
        ArithOp::Mul => x.checked_mul(y),
        ArithOp::Div => {
            proof {
                lemma_division(x as int, y as int);
            }
            x.checked_div(y)
        },
        ArithOp::Rem => {
            proof {
                lemma_division(x as int, y as int);
            }
            x.checked_rem(y)
        },
    };
    match found {
        Some(v) => Ok(Arith::Value(Atom::Char(v as char))),
        None => Err(Fault::Overflow),
    }
}

/// Applies a bitwise operator to two bytes.
fn bits_of_u8(op: BitOp, x: u8, y: u8) -> (v: u8)
    ensures
        v == bits_u8(op, x, y),
{
    match op {
        BitOp::And => x & y,
        BitOp::Or => x | y,
        BitOp::Xor => x ^ y,
    }
}

/// Applies a bitwise operator to two signed integers.
fn bits_of_i64(op: BitOp, x: i64, y: i64) -> (v: i64)
    ensures
        v == bits_i64(op, x, y),
{
    match op {
        BitOp::And => x & y,
        BitOp::Or => x | y,
        BitOp::Xor => x ^ y,
    }
}

/// Applies a bitwise operator to two unsigned integers.
fn bits_of_u64(op: BitOp, x: u64, y: u64) -> (v: u64)
    ensures
        v == bits_u64(op, x, y),
{
    match op {
        BitOp::And => x & y,
        BitOp::Or => x | y,
        BitOp::Xor => x ^ y,
    }
}

/// A signed integer in decimal.
fn signed_text(a: i64) -> (text: String)
    ensures
        text@ == decimal(a as int),
{
    let mut text = String::new();
    push_signed_decimal(&mut text, a);
    assert(text@ =~= decimal(a as int));
    text
}

/// A character between single quotes.
fn quoted(c: char) -> (text: String)
    ensures
        text@ == seq!['\'', c, '\''],
{
    let mut text = String::new();
    push_char(&mut text, '\'');
    push_char(&mut text, c);
    push_char(&mut text, '\'');
    assert(text@ =~= seq!['\'', c, '\'']);
    text
}

/// The character whose code is `byte`.
pub open spec fn char_of(byte: u8) -> char {
    byte as char
}

/// An unsigned integer result as an atom.
pub open spec fn wrap_unsigned(found: Result<int, Fault>) -> Result<Arith, Fault> {
    match found {
        Ok(v) => Ok(Arith::Value(Atom::UInt(v as u64))),
        Err(fault) => Err(fault),
    }
}

/// A signed integer result as an atom.
pub open spec fn wrap_signed(found: Result<int, Fault>) -> Result<Arith, Fault> {
    match found {
        Ok(v) => Ok(Arith::Value(Atom::SInt(v as i64))),
        Err(fault) => Err(fault),
    }
}

/// A byte result as a character atom.
pub open spec fn wrap_byte(found: Result<int, Fault>) -> Result<Arith, Fault> {
    match found {
        Ok(v) => Ok(Arith::Value(Atom::Char(char_of(v as u8)))),
        Err(fault) => Err(fault),
    }
}

impl Atom {
    /// The kind of the atom.
    pub open spec fn spec_kind(self) -> Kind {
        match self {
            Atom::UInt(_) => Kind::UInt,
            Atom::SInt(_) => Kind::SInt,
            Atom::Float(_) => Kind::Float,
            Atom::Char(_) => Kind::Char,
        }
    }

    /// The kind of the atom.
    #[verifier::when_used_as_spec(spec_kind)]
    pub fn kind(self) -> (kind: Kind)
        ensures
            kind == self.spec_kind(),
    {
        match self {
            Atom::UInt(_) => Kind::UInt,
            Atom::SInt(_) => Kind::SInt,
            Atom::Float(_) => Kind::Float,
            Atom::Char(_) => Kind::Char,
        }
    }

    /// The atom cut down to a byte: the low eight bits of an integer in
    /// two's complement, of the code of a character, or of the integer part
    /// of a float. The higher bits are dropped.
    pub open spec fn spec_byte(self) -> u8 {
        match self {
            Atom::UInt(a) => a as u8,
            Atom::SInt(a) => a as u8,
            Atom::Float(bits) => float_byte(bits),
            Atom::Char(c) => c as u8,
        }
    }

    /// The atom cut down to a byte.
    #[verifier::when_used_as_spec(spec_byte)]
    pub fn byte(self) -> (byte: u8)
        ensures
            byte == self.spec_byte(),
    {
        match self {
            Atom::UInt(a) => a as u8,
            Atom::SInt(a) => a as u8,
            Atom::Float(bits) => float_to_byte(bits),
            Atom::Char(c) => c as u8,
        }
    }

    /// The atom as it is shown: an integer in decimal, a character between
    /// single quotes, a float as the place where its decimal form belongs.
    pub open spec fn spec_display(self) -> Seq<Fragment> {
        match self {
            Atom::UInt(a) => seq![Fragment::Text(decimal(a as int))],
            Atom::SInt(a) => seq![Fragment::Text(decimal(a as int))],
            Atom::Float(bits) => seq![Fragment::Float(bits)],
            Atom::Char(c) => seq![Fragment::Text(seq!['\'', c, '\''])],
        }
    }

    /// The atom as it is shown.
    pub fn display(self) -> (pieces: Vec<Piece>)
        ensures
            fragments(pieces@) == self.spec_display(),
    {
        let mut pieces: Vec<Piece> = Vec::new();
        match self {
            Atom::UInt(a) => {
                let mut text = String::new();
                push_decimal(&mut text, a);
                assert(text@ =~= decimal(a as int));
                pieces.push(Piece::Text(text));
            },
            Atom::SInt(a) => {
                pieces.push(Piece::Text(signed_text(a)));
            },
            Atom::Float(bits) => {
                pieces.push(Piece::Float(bits));
            },
            Atom::Char(c) => {
                pieces.push(Piece::Text(quoted(c)));
            },
        }
        proof {
            assert(fragments(pieces@) =~= self.spec_display());
        }
        pieces
    }

    /// The atom as it is shown to someone who must tell the kinds apart: as
    /// `spec_display` has it, with a `u` after an unsigned integer and an
    /// `f` after a float.
    pub open spec fn spec_debug(self) -> Seq<Fragment> {
        match self {
            Atom::UInt(a) => seq![Fragment::Text(decimal(a as int).push('u'))],
            Atom::SInt(a) => seq![Fragment::Text(decimal(a as int))],
            Atom::Float(bits) => seq![Fragment::Float(bits), Fragment::Text(seq!['f'])],
            Atom::Char(c) => seq![Fragment::Text(seq!['\'', c, '\''])],
        }
    }

    /// The atom as it is shown to someone who must tell the kinds apart.
    pub fn debug(self) -> (pieces: Vec<Piece>)
        ensures
            fragments(pieces@) == self.spec_debug(),
    {
        let mut pieces: Vec<Piece> = Vec::new();
        match self {
            Atom::UInt(a) => {
                let mut text = String::new();
                push_decimal(&mut text, a);
                push_char(&mut text, 'u');
                assert(text@ =~= decimal(a as int).push('u'));
                pieces.push(Piece::Text(text));
            },
            Atom::SInt(a) => {
                pieces.push(Piece::Text(signed_text(a)));
            },
            Atom::Float(bits) => {
                let mut text = String::new();
                push_char(&mut text, 'f');
                assert(text@ =~= seq!['f']);
                pieces.push(Piece::Float(bits));
                pieces.push(Piece::Text(text));
            },
            Atom::Char(c) => {
                pieces.push(Piece::Text(quoted(c)));
            },
        }
        proof {
            assert(fragments(pieces@) =~= self.spec_debug());
        }
        pieces
    }

    /// An integer atom as a signed integer: an unsigned one is read in two's
    /// complement, so that its bits stay as they are.
    pub open spec fn signed(self) -> i64
        recommends
            self is UInt || self is SInt,
    {
        match self {
            Atom::UInt(a) => a as i64,
            Atom::SInt(a) => a,
            _ => 0,
        }
    }

    /// An atom that is no character as the operand of a float operation.
    pub open spec fn float_operand(self) -> FloatOperand
        recommends
            !(self is Char),
    {
        match self {
            Atom::UInt(a) => FloatOperand::UInt(a),
            Atom::SInt(a) => FloatOperand::SInt(a),
            Atom::Float(bits) => FloatOperand::Bits(bits),
            Atom::Char(_) => FloatOperand::Bits(0),
        }
    }

    /// What an arithmetic operator comes to on two atoms.
    ///
    /// The operands are brought to the kind that `Kind::join` gives, and the
    /// operator is applied in that kind:
    /// - characters: both operands are cut down to a byte, and the result
    ///   is the character with the resulting code;
    /// - floats: the operation is handed back to the caller, an integer
    ///   operand marked for conversion;
    /// - signed integers: an unsigned operand is read in two's complement;
    /// - unsigned integers: as they are.
    ///
    /// A result that does not fit its kind is an `Overflow`, a zero divisor
    /// a `DivisionByZero`.
    pub open spec fn spec_arith(self, op: ArithOp, other: Atom) -> Result<Arith, Fault> {
        match self.spec_kind().spec_join(other.spec_kind()) {
            Kind::Char => wrap_byte(
                bounded(op, self.spec_byte() as int, other.spec_byte() as int, 0, 255),
            ),
            Kind::Float => Ok(Arith::Float(self.float_operand(), other.float_operand())),
            Kind::SInt => wrap_signed(
                bounded(
                    op,
                    self.signed() as int,
                    other.signed() as int,
                    i64::MIN as int,
                    i64::MAX as int,
                ),
            ),
            Kind::UInt => wrap_unsigned(
                bounded(op, self->UInt_0 as int, other->UInt_0 as int, 0, u64::MAX as int),
            ),
        }
    }

    /// Applies an arithmetic operator to two atoms, `self` on the left.
    #[verifier::when_used_as_spec(spec_arith)]
    pub fn arith(self, op: ArithOp, other: Atom) -> (result: Result<Arith, Fault>)
        ensures
            result == self.spec_arith(op, other),
            result matches Ok(Arith::Value(atom)) ==> atom.spec_kind() == self.spec_kind().spec_join(
                other.spec_kind(),
            ),
            result matches Ok(Arith::Float(_, _)) <==> self.spec_kind().spec_join(other.spec_kind())
                == Kind::Float,
    {
        match (self, other) {
            // The same kind on both sides: nothing is converted.
            (Atom::SInt(a), Atom::SInt(b)) => signed(op, a, b),
            (Atom::UInt(a), Atom::UInt(b)) => unsigned(op, a, b),
            (Atom::Float(a), Atom::Float(b)) => Ok(
                Arith::Float(FloatOperand::Bits(a), FloatOperand::Bits(b)),
            ),
            (Atom::Char(a), Atom::Char(b)) => bytes(op, a as u8, b as u8),
            // A float and an integer: the integer becomes a float.
            (Atom::Float(a), Atom::SInt(b)) => Ok(
                Arith::Float(FloatOperand::Bits(a), FloatOperand::SInt(b)),
            ),
            (Atom::Float(a), Atom::UInt(b)) => Ok(
                Arith::Float(FloatOperand::Bits(a), FloatOperand::UInt(b)),
            ),
            (Atom::SInt(a), Atom::Float(b)) => Ok(
                Arith::Float(FloatOperand::SInt(a), FloatOperand::Bits(b)),
            ),
            (Atom::UInt(a), Atom::Float(b)) => Ok(
                Arith::Float(FloatOperand::UInt(a), FloatOperand::Bits(b)),
            ),
            // An unsigned and a signed integer: both signed.
            (Atom::UInt(a), Atom::SInt(b)) => signed(op, a as i64, b),
            (Atom::SInt(a), Atom::UInt(b)) => signed(op, a, b as i64),
            // A character and anything else: both cut down to a byte.
            (Atom::Char(a), Atom::UInt(b)) => bytes(op, a as u8, b as u8),
            (Atom::Char(a), Atom::SInt(b)) => bytes(op, a as u8, b as u8),
            (Atom::Char(a), Atom::Float(b)) => bytes(op, a as u8, float_to_byte(b)),
            (Atom::UInt(a), Atom::Char(b)) => bytes(op, a as u8, b as u8),
            (Atom::SInt(a), Atom::Char(b)) => bytes(op, a as u8, b as u8),
            (Atom::Float(a), Atom::Char(b)) => bytes(op, float_to_byte(a), b as u8),
        }
    }

    /// The sum of two atoms.
    pub fn add(self, other: Atom) -> (result: Result<Arith, Fault>)
        ensures
            result == self.spec_arith(ArithOp::Add, other),
    {
        self.arith(ArithOp::Add, other)
    }

    /// The difference of two atoms.
    pub fn sub(self, other: Atom) -> (result: Result<Arith, Fault>)
        ensures
            result == self.spec_arith(ArithOp::Sub, other),
    {
        self.arith(ArithOp::Sub, other)
    }

    /// The product of two atoms.
    pub fn mul(self, other: Atom) -> (result: Result<Arith, Fault>)
        ensures
            result == self.spec_arith(ArithOp::Mul, other),
    {
        self.arith(ArithOp::Mul, other)
    }

    /// The quotient of two atoms; that of integers is rounded toward zero.
    pub fn div(self, other: Atom) -> (result: Result<Arith, Fault>)
        ensures
            result == self.spec_arith(ArithOp::Div, other),
    {
        self.arith(ArithOp::Div, other)
    }

    /// The remainder of the division of two atoms.
    pub fn rem(self, other: Atom) -> (result: Result<Arith, Fault>)
        ensures
            result == self.spec_arith(ArithOp::Rem, other),
    {
        self.arith(ArithOp::Rem, other)
    }

    /// What a bitwise operator comes to on two atoms.
    ///
    /// A float on either side is an `UnsupportedOperation`. Otherwise the
    /// operands are brought to the kind that `Kind::join` gives, as for the
    /// arithmetic operators, and the operator is applied to their bits.
    pub open spec fn spec_bitwise(self, op: BitOp, other: Atom) -> Result<Atom, Fault> {
        if self is Float || other is Float {
            Err(Fault::UnsupportedOperation)
        } else {
            match self.spec_kind().spec_join(other.spec_kind()) {
                Kind::Char => Ok(
                    Atom::Char(char_of(bits_u8(op, self.spec_byte(), other.spec_byte()))),
                ),
                Kind::SInt => Ok(Atom::SInt(bits_i64(op, self.signed(), other.signed()))),
                _ => Ok(Atom::UInt(bits_u64(op, self->UInt_0, other->UInt_0))),
            }
        }
    }

    /// Applies a bitwise operator to two atoms, `self` on the left.
    #[verifier::when_used_as_spec(spec_bitwise)]
    pub fn bitwise(self, op: BitOp, other: Atom) -> (result: Result<Atom, Fault>)
        ensures
            result == self.spec_bitwise(op, other),
            result is Err <==> self is Float || other is Float,
            result matches Err(fault) ==> fault == Fault::UnsupportedOperation,
            result matches Ok(atom) ==> atom.spec_kind() == self.spec_kind().spec_join(
                other.spec_kind(),
            ),
    {
        match (self, other) {
            (Atom::Float(_), _) => Err(Fault::UnsupportedOperation),
            (_, Atom::Float(_)) => Err(Fault::UnsupportedOperation),
            (Atom::SInt(a), Atom::SInt(b)) => Ok(Atom::SInt(bits_of_i64(op, a, b))),
            (Atom::UInt(a), Atom::UInt(b)) => Ok(Atom::UInt(bits_of_u64(op, a, b))),
            (Atom::UInt(a), Atom::SInt(b)) => Ok(Atom::SInt(bits_of_i64(op, a as i64, b))),
            (Atom::SInt(a), Atom::UInt(b)) => Ok(Atom::SInt(bits_of_i64(op, a, b as i64))),
            (Atom::Char(a), Atom::Char(b)) => Ok(
                Atom::Char(bits_of_u8(op, a as u8, b as u8) as char),
            ),
            (Atom::Char(a), Atom::UInt(b)) => Ok(
                Atom::Char(bits_of_u8(op, a as u8, b as u8) as char),
            ),
            (Atom::Char(a), Atom::SInt(b)) => Ok(
                Atom::Char(bits_of_u8(op, a as u8, b as u8) as char),
            ),
            (Atom::UInt(a), Atom::Char(b)) => Ok(
                Atom::Char(bits_of_u8(op, a as u8, b as u8) as char),
            ),
            (Atom::SInt(a), Atom::Char(b)) => Ok(
                Atom::Char(bits_of_u8(op, a as u8, b as u8) as char),
            ),
        }
    }

    /// The bitwise and of two atoms.
    pub fn bitand(self, other: Atom) -> (result: Result<Atom, Fault>)
        ensures
            result == self.spec_bitwise(BitOp::And, other),
    {
        self.bitwise(BitOp::And, other)
    }

    /// The bitwise or of two atoms.
    pub fn bitor(self, other: Atom) -> (result: Result<Atom, Fault>)
        ensures
            result == self.spec_bitwise(BitOp::Or, other),
    {
        self.bitwise(BitOp::Or, other)
    }

    /// The bitwise exclusive or of two atoms.
    pub fn bitxor(self, other: Atom) -> (result: Result<Atom, Fault>)
        ensures
            result == self.spec_bitwise(BitOp::Xor, other),
    {
        self.bitwise(BitOp::Xor, other)
    }
}

/// The table of kinds: an unsigned and a signed integer give a signed one, an
/// integer and a float give a float, and a character with anything gives a
/// character. The order of the operands makes no difference.
pub proof fn lemma_join_table(a: Kind, b: Kind)
    ensures
        a.spec_join(b) == b.spec_join(a),
        a.spec_join(a) == a,
        a is Char || b is Char ==> a.spec_join(b) is Char,
        !(a is Char || b is Char) && (a is Float || b is Float) ==> a.spec_join(b) is Float,
        (a is UInt && b is SInt) || (a is SInt && b is UInt) ==> a.spec_join(b) is SInt,
        a is UInt && b is UInt ==> a.spec_join(b) is UInt,
        a is SInt && b is SInt ==> a.spec_join(b) is SInt,
{
}

/// The kind of the result of an arithmetic operator is the one that the
/// table of kinds gives for the kinds of the operands: where there is a
/// result, it is of that kind, and it is left to the caller exactly when
/// that kind is the float.
pub proof fn lemma_arith_kind(a: Atom, op: ArithOp, b: Atom)
    ensures
        a.spec_arith(op, b) matches Ok(Arith::Value(atom)) ==> atom.spec_kind()
            == a.spec_kind().spec_join(b.spec_kind()),
        a.spec_arith(op, b) matches Ok(Arith::Float(_, _)) <==> a.spec_kind().spec_join(
            b.spec_kind(),
        ) is Float,
        a.spec_arith(op, b) matches Ok(Arith::Float(left, right)) ==> left == a.float_operand()
            && right == b.float_operand(),
{
}

/// A bitwise operator fails exactly when one of its operands is a float, and
/// then as an unsupported operation; otherwise its result is of the kind
/// that the table of kinds gives.
pub proof fn lemma_bitwise_float(a: Atom, op: BitOp, b: Atom)
    ensures
        a.spec_bitwise(op, b) is Err <==> a is Float || b is Float,
        a is Float || b is Float ==> a.spec_bitwise(op, b) == Err::<Atom, Fault>(
            Fault::UnsupportedOperation,
        ),
        a.spec_bitwise(op, b) matches Ok(atom) ==> atom.spec_kind() == a.spec_kind().spec_join(
            b.spec_kind(),
        ),
{
}

/// Division that rounds toward zero: the quotient and the remainder make up
/// the dividend, neither is larger in size than the dividend, and the
/// remainder is smaller in size than the divisor.
pub proof fn lemma_division(x: int, y: int)
    requires
        y != 0,
    ensures
        x == y * quotient(x, y) + remainder(x, y),
        magnitude(quotient(x, y)) <= magnitude(x),
        magnitude(y) >= 2 ==> 2 * magnitude(quotient(x, y)) <= magnitude(x),
        magnitude(remainder(x, y)) < magnitude(y),
        magnitude(remainder(x, y)) <= magnitude(x),
        quotient(x, y) == if (x < 0) == (y < 0) {
            magnitude(x) / magnitude(y)
        } else {
            -(magnitude(x) / magnitude(y))
        },
        x == 0 ==> quotient(x, y) == 0 && remainder(x, y) == 0,
        magnitude(y) == 1 ==> magnitude(quotient(x, y)) == magnitude(x),
{
    let a = magnitude(x);
    let b = magnitude(y);
    vstd::arithmetic::div_mod::lemma_fundamental_div_mod(a, b);
    vstd::arithmetic::div_mod::lemma_div_pos_is_pos(a, b);
    vstd::arithmetic::div_mod::lemma_mod_bound(a, b);
    let q = a / b;
    let r = a % b;
    assert(a == b * q + r);
    assert(q <= a && (b >= 2 ==> 2 * q <= a) && (a == 0 ==> q == 0) && (b == 1 ==> q == a))
        by (nonlinear_arith)
        requires
            a == b * q + r,
            b >= 1,
            q >= 0,
            0 <= r < b,
    ;
    assert(y * quotient(x, y) == if x < 0 {
        -(b * q)
    } else {
        b * q
    }) by (nonlinear_arith)
        requires
            b == (if y < 0 {
                -y
            } else {
                y
            }),
            quotient(x, y) == (if (x < 0) == (y < 0) {
                q
            } else {
                -q
            }),
    ;
}

} // verus!
