//! The instructions of the machine.
//!
//! The state of the machine is written `(s, e, c, d)`: the stack, the
//! environment, the control list and the dump. `(x.y)` is the list with the
//! head `x` and the tail `y`, and `[f e]` the closure of the function `f` in
//! the environment `e`. An instruction takes its operands from the control
//! list, where they follow it.
use vstd::prelude::*;

verus! {

/// An instruction. It carries nothing but its name.
///
/// Each instruction has a number of its own, the opcode, under which it is
/// written to bytecode. The opcodes run from `0x00` to `0x1D` and are never
/// given anew: `opcode` gives the opcode of an instruction, `from_opcode`
/// the instruction of an opcode.
#[derive(Clone, Copy, Debug, PartialEq, Eq, Structural)]
pub enum Inst {
    /// `nil`, opcode `0x00`. Pushes the empty list onto the stack.
    ///
    /// `(s, e, (NIL.c), d)` goes to `((nil.s), e, c, d)`.
    NIL,
    /// `ldc`, opcode `0x1C`. Load constant: pushes the atom that follows the
    /// instruction on the control list.
    ///
    /// `(s, e, (LDC v.c), d)` goes to `((v.s), e, c, d)`.
    LDC,
    /// `ld`, opcode `0x01`. Load: pushes the value of a variable. The operand is
    /// a pair: its first part is the level in the environment, its second the
    /// position within the level.
    ///
    /// `(s, e, (LD (i.j).c), d)` goes to `((v.s), e, c, d)`, where `v` is the
    /// value at the position `j` of the level `i` of `e`.
    LD,
    /// `ldf`, opcode `0x02`. Load function: takes the list that follows, which
    /// stands for a function, pairs it with the environment, and pushes that
    /// closure.
    ///
    /// `(s, e, (LDF f.c), d)` goes to `(([f e].s), e, c, d)`.
    LDF,
    /// `join`, opcode `0x05`. Ends a branch of `SEL`: the control list that was
    /// saved on the dump becomes the control list again.
    ///
    /// `(s, e, (JOIN.c), (c'.d))` goes to `(s, e, c', d)`.
    JOIN,
    /// `ap`, opcode `0x03`. Apply: pops a closure and a list of arguments. The
    /// environment of the closure, with the arguments put before it, becomes the
    /// environment, the stack is emptied, and the code of the closure becomes the
    /// control list. The old stack, environment and control list go to the dump.
    ///
    /// `(([f e'] v.s), e, (AP.c), d)` goes to `(nil, (v.e'), f, (s e c.d))`.
    AP,
    /// `ret`, opcode `0x07`. Return: pops the result, restores the stack, the
    /// environment and the control list from the dump, and pushes the result onto
    /// the restored stack.
    ///
    /// `((v.s'), e', (RET.c'), (s e c.d))` goes to `((v.s), e, c, d)`.
    RET,
    /// `dum`, opcode `0x08`. Dummy: puts an empty level before the environment,
    /// for `RAP` to fill in.
    ///
    /// `(s, e, (DUM.c), d)` goes to `(s, (nil.e), c, d)`.
    DUM,
    /// `rap`, opcode `0x06`. Recursive apply: as `AP`, but the arguments take the
    /// place of the empty level that `DUM` made, so that the functions among them
    /// can refer to one another.
    RAP,
    /// `sel`, opcode `0x09`. Select: pops a value and goes on with the first of
    /// the two lists that follow on the control list if the value is not nil,
    /// with the second otherwise. What follows the two lists is saved on the
    /// dump.
    ///
    /// `((v.s), e, (SEL t f.c), d)` goes to `(s, e, t, (c.d))` or to `(s, e, f,
    /// (c.d))`.
    SEL,
    /// `add`, opcode `0x0A`. Pops two numbers and pushes their sum.
    ADD,
    /// `sub`, opcode `0x0B`. Pops two numbers and pushes the first less the
    /// second.
    SUB,
    /// `mul`, opcode `0x0C`. Pops two numbers and pushes their product.
    MUL,
    /// `div`, opcode `0x0D`. Pops two numbers and pushes the quotient of the
    /// first by the second.
    DIV,
    /// `fdiv`, opcode `0x0F`. Pops two numbers and pushes the quotient of the
    /// first by the second, as a float.
    FDIV,
    /// `mod`, opcode `0x0E`. Pops two numbers and pushes what is left of the
    /// first after division by the second.
    MOD,
    /// `eq`, opcode `0x10`. Pops two atoms and pushes whether they are equal.
    EQ,
    /// `gt`, opcode `0x11`. Pops two atoms and pushes whether the first is
    /// greater than the second.
    GT,
    /// `gte`, opcode `0x12`. Pops two atoms and pushes whether the first is
    /// greater than or equal to the second.
    GTE,
    /// `lt`, opcode `0x13`. Pops two atoms and pushes whether the first is less
    /// than the second.
    LT,
    /// `lte`, opcode `0x14`. Pops two atoms and pushes whether the first is less
    /// than or equal to the second.
    LTE,
    /// `atom`, opcode `0x15`. Pops an item and pushes whether it is an atom.
    ATOM,
    /// `car`, opcode `0x1A`. Pops a list and pushes its head.
    CAR,
    /// `cdr`, opcode `0x1B`. Pops a list and pushes its tail.
    CDR,
    /// `cons`, opcode `0x19`. Pops an item and a list and pushes the list with
    /// the item put before its head.
    CONS,
    /// `null`, opcode `0x16`. Pops an item and pushes whether it is nil.
    NULL,
    /// `stop`, opcode `0x1D`. Ends the run of the program.
    STOP,
    /// `readc`, opcode `0x17`. Reads a character from the input of the machine
    /// and pushes it.
    READC,
    /// `writec`, opcode `0x18`. Pops a character and writes it to the output of
    /// the machine.
    WRITEC,
    /// `apcc`, opcode `0x04`. Apply with current continuation: applies a closure
    /// to the continuation of the call, which `AP` can apply later. Experimental.
    APCC,
}

impl Inst {
    /// The opcode of the instruction.
    pub open spec fn spec_opcode(self) -> u8 {
        match self {
            Inst::NIL => 0x00,
            Inst::LDC => 0x1C,
            Inst::LD => 0x01,
            Inst::LDF => 0x02,
            Inst::JOIN => 0x05,
            Inst::AP => 0x03,
            Inst::RET => 0x07,
            Inst::DUM => 0x08,
            Inst::RAP => 0x06,
            Inst::SEL => 0x09,
            Inst::ADD => 0x0A,
            Inst::SUB => 0x0B,
            Inst::MUL => 0x0C,
            Inst::DIV => 0x0D,
            Inst::FDIV => 0x0F,
            Inst::MOD => 0x0E,
            Inst::EQ => 0x10,
            Inst::GT => 0x11,
            Inst::GTE => 0x12,
            Inst::LT => 0x13,
            Inst::LTE => 0x14,
            Inst::ATOM => 0x15,
            Inst::CAR => 0x1A,
            Inst::CDR => 0x1B,
            Inst::CONS => 0x19,
            Inst::NULL => 0x16,
            Inst::STOP => 0x1D,
            Inst::READC => 0x17,
            Inst::WRITEC => 0x18,
            Inst::APCC => 0x04,
        }
    }

    /// The opcode of the instruction.
    #[verifier::when_used_as_spec(spec_opcode)]
    pub fn opcode(self) -> (code: u8)
        ensures
            code == self.spec_opcode(),
            code <= 0x1D,
    {
        match self {
            Inst::NIL => 0x00,
            Inst::LDC => 0x1C,
            Inst::LD => 0x01,
            Inst::LDF => 0x02,
            Inst::JOIN => 0x05,
            Inst::AP => 0x03,
            Inst::RET => 0x07,
            Inst::DUM => 0x08,
            Inst::RAP => 0x06,
            Inst::SEL => 0x09,
            Inst::ADD => 0x0A,
            Inst::SUB => 0x0B,
            Inst::MUL => 0x0C,
            Inst::DIV => 0x0D,
            Inst::FDIV => 0x0F,
            Inst::MOD => 0x0E,
            Inst::EQ => 0x10,
            Inst::GT => 0x11,
            Inst::GTE => 0x12,
            Inst::LT => 0x13,
            Inst::LTE => 0x14,
            Inst::ATOM => 0x15,
            Inst::CAR => 0x1A,
            Inst::CDR => 0x1B,
            Inst::CONS => 0x19,
            Inst::NULL => 0x16,
            Inst::STOP => 0x1D,
            Inst::READC => 0x17,
            Inst::WRITEC => 0x18,
            Inst::APCC => 0x04,
        }
    }

    /// The instruction with the opcode `code`, if there is one: the one
    /// instruction whose opcode is `code`.
    pub open spec fn spec_from_opcode(code: u8) -> Option<Inst> {
        if exists|inst: Inst| inst.spec_opcode() == code {
            Some(choose|inst: Inst| inst.spec_opcode() == code)
        } else {
            None
        }
    }

    /// The instruction with the opcode `code`. There is one exactly for the
    /// codes up to `0x1D`.
    #[verifier::when_used_as_spec(spec_from_opcode)]
    pub fn from_opcode(code: u8) -> (inst: Option<Inst>)
        ensures
            inst == Self::spec_from_opcode(code),
            inst is Some <==> code <= 0x1D,
            inst matches Some(found) ==> found.spec_opcode() == code,
    {
        let inst = match code {
            0x00 => Some(Inst::NIL),
            0x01 => Some(Inst::LD),
            0x02 => Some(Inst::LDF),
            0x03 => Some(Inst::AP),
            0x04 => Some(Inst::APCC),
            0x05 => Some(Inst::JOIN),
            0x06 => Some(Inst::RAP),
            0x07 => Some(Inst::RET),
            0x08 => Some(Inst::DUM),
            0x09 => Some(Inst::SEL),
            0x0A => Some(Inst::ADD),
            0x0B => Some(Inst::SUB),
            0x0C => Some(Inst::MUL),
            0x0D => Some(Inst::DIV),
            0x0E => Some(Inst::MOD),
            0x0F => Some(Inst::FDIV),
            0x10 => Some(Inst::EQ),
            0x11 => Some(Inst::GT),
            0x12 => Some(Inst::GTE),
            0x13 => Some(Inst::LT),
            0x14 => Some(Inst::LTE),
            0x15 => Some(Inst::ATOM),
            0x16 => Some(Inst::NULL),
            0x17 => Some(Inst::READC),
            0x18 => Some(Inst::WRITEC),
            0x19 => Some(Inst::CONS),
            0x1A => Some(Inst::CAR),
            0x1B => Some(Inst::CDR),
            0x1C => Some(Inst::LDC),
            0x1D => Some(Inst::STOP),
            _ => None,
        };
        proof {
            match inst {
                Some(found) => {
                    assert(found.spec_opcode() == code);
                    lemma_opcode_identifies(found, choose|other: Inst| other.spec_opcode() == code);
                },
                None => {
                    assert forall|other: Inst| other.spec_opcode() != code by {
                        lemma_opcode_in_range(other);
                    }
                },
            }
        }
        inst
    }

    /// The name of the instruction, in capitals.
    pub open spec fn spec_name(self) -> Seq<char> {
        match self {
            Inst::NIL => "NIL"@,
            Inst::LDC => "LDC"@,
            Inst::LD => "LD"@,
            Inst::LDF => "LDF"@,
            Inst::JOIN => "JOIN"@,
            Inst::AP => "AP"@,
            Inst::RET => "RET"@,
            Inst::DUM => "DUM"@,
            Inst::RAP => "RAP"@,
            Inst::SEL => "SEL"@,
            Inst::ADD => "ADD"@,
            Inst::SUB => "SUB"@,
            Inst::MUL => "MUL"@,
            Inst::DIV => "DIV"@,
            Inst::FDIV => "FDIV"@,
            Inst::MOD => "MOD"@,
            Inst::EQ => "EQ"@,
            Inst::GT => "GT"@,
            Inst::GTE => "GTE"@,
            Inst::LT => "LT"@,
            Inst::LTE => "LTE"@,
            Inst::ATOM => "ATOM"@,
            Inst::CAR => "CAR"@,
            Inst::CDR => "CDR"@,
            Inst::CONS => "CONS"@,
            Inst::NULL => "NULL"@,
            Inst::STOP => "STOP"@,
            Inst::READC => "READC"@,
            Inst::WRITEC => "WRITEC"@,
            Inst::APCC => "APCC"@,
        }
    }

    /// The name of the instruction, in capitals.
    pub fn name(self) -> (name: &'static str)
        ensures
            name@ == self.spec_name(),
    {
        match self {
            Inst::NIL => "NIL",
            Inst::LDC => "LDC",
            Inst::LD => "LD",
            Inst::LDF => "LDF",
            Inst::JOIN => "JOIN",
            Inst::AP => "AP",
            Inst::RET => "RET",
            Inst::DUM => "DUM",
            Inst::RAP => "RAP",
            Inst::SEL => "SEL",
            Inst::ADD => "ADD",
            Inst::SUB => "SUB",
            Inst::MUL => "MUL",
            Inst::DIV => "DIV",
            Inst::FDIV => "FDIV",
            Inst::MOD => "MOD",
            Inst::EQ => "EQ",
            Inst::GT => "GT",
            Inst::GTE => "GTE",
            Inst::LT => "LT",
            Inst::LTE => "LTE",
            Inst::ATOM => "ATOM",
            Inst::CAR => "CAR",
            Inst::CDR => "CDR",
            Inst::CONS => "CONS",
            Inst::NULL => "NULL",
            Inst::STOP => "STOP",
            Inst::READC => "READC",
            Inst::WRITEC => "WRITEC",
            Inst::APCC => "APCC",
        }
    }
}

/// Every opcode lies in the range from `0x00` to `0x1D`.
pub proof fn lemma_opcode_in_range(inst: Inst)
    ensures
        inst.spec_opcode() <= 0x1D,
{
}

/// No two instructions share an opcode.
pub proof fn lemma_opcode_identifies(a: Inst, b: Inst)
    requires
        a.spec_opcode() == b.spec_opcode(),
    ensures
        a == b,
{
}

/// Reading back the opcode of an instruction gives the instruction.
pub proof fn lemma_opcode_round_trip(inst: Inst)
    ensures
        Inst::spec_from_opcode(inst.spec_opcode()) == Some(inst),
{
    lemma_opcode_identifies(inst, choose|other: Inst| other.spec_opcode() == inst.spec_opcode());
}

} // verus!
