//! One decoded instruction: the fields of a 16-bit word and the line of
//! assembly text that they stand for.
//!
//! Bit 15 is the most significant bit of a word:
//!
//! | bits  | field     |
//! |-------|-----------|
//! | 15-10 | opcode    |
//! | 9     | direction |
//! | 8     | wide      |
//! | 7-6   | mode      |
//! | 5-3   | register1 |
//! | 2-0   | register2 |

use vstd::prelude::*;
use vstd::string::StringExecFns;
use crate::error::{text_of, Error};
use crate::registers::{register_name, register_to_string};

verus! {

/// The six-bit pattern of the register-to-register move.
pub const MOV_PATTERN: u8 = 0b100010;

/// Bits 15 to 10 of `word`.
pub open spec fn opcode_bits(word: u16) -> int {
    word as int / 1024
}

/// Bit 9 of `word`.
pub open spec fn direction_bit(word: u16) -> int {
    (word as int / 512) % 2
}

/// Bit 8 of `word`.
pub open spec fn wide_bit(word: u16) -> int {
    (word as int / 256) % 2
}

/// Bits 7 and 6 of `word`.
pub open spec fn mode_bits(word: u16) -> int {
    (word as int / 64) % 4
}

/// Bits 5 to 3 of `word`.
pub open spec fn reg_bits(word: u16) -> int {
    (word as int / 8) % 8
}

/// Bits 2 to 0 of `word`.
pub open spec fn rm_bits(word: u16) -> int {
    word as int % 8
}

/// The operation that an instruction performs.
#[derive(Clone, Copy, Debug, PartialEq, Eq, Structural)]
pub enum Opcode {
    /// Copy one register into another.
    MOV,
}

/// Which of the two register fields is written to.
#[derive(Clone, Copy, Debug, PartialEq, Eq, Structural)]
pub enum Direction {
    /// `register1` is the destination.
    ToRegister,
    /// `register1` is the source.
    FromRegister,
}

/// How the second operand is addressed.
#[derive(Clone, Copy, Debug, PartialEq, Eq, Structural)]
pub enum Mode {
    /// The operand lies in memory.
    Memory,
    /// The operand is a register.
    Register,
}

/// The decoded form of one 16-bit word.
#[derive(Clone, Copy, Debug, PartialEq, Eq, Structural)]
pub struct Instruction {
    pub opcode: Opcode,
    pub direction: Direction,
    /// Operands are 16 bits wide when set, 8 bits otherwise.
    pub wide: bool,
    pub mode: Mode,
    /// The REG field.
    pub register1: u8,
    /// The R/M field.
    pub register2: u8,
}

impl Opcode {
    /// The operation that a six-bit pattern stands for, if any.
    pub open spec fn of_bits(bits: int) -> Option<Opcode> {
        if bits == MOV_PATTERN as int {
            Some(Opcode::MOV)
        } else {
            None
        }
    }

    /// The lower-case name of the operation in assembly text.
    pub open spec fn mnemonic(self) -> Seq<char> {
        match self {
            Opcode::MOV => seq!['m', 'o', 'v'],
        }
    }

    /// The operation with the given mnemonic, if any.
    pub open spec fn of_mnemonic(name: Seq<char>) -> Option<Opcode> {
        if name == Opcode::MOV.mnemonic() {
            Some(Opcode::MOV)
        } else {
            None
        }
    }

    /// Recognises an operation by its name in assembly text.
    pub fn from_string(name: &str) -> (result: Result<Opcode, Error>)
        ensures
            result == match Opcode::of_mnemonic(name@) {
                Some(opcode) => Ok::<Opcode, Error>(opcode),
                None => Err(Error::UnknownOpcode),
            },
            result is Ok <==> name@ == seq!['m', 'o', 'v'],
    {
        let is_mov = name.unicode_len() == 3 && name.get_char(0) == 'm' && name.get_char(1) == 'o'
            && name.get_char(2) == 'v';
        if is_mov {
            assert(name@ =~= seq!['m', 'o', 'v']);
            Ok(Opcode::MOV)
        } else {
            Err(Error::UnknownOpcode)
        }
    }

    /// Recognises an operation from the high byte of a word. The two low
    /// bits of that byte, direction and width, play no part.
    pub fn from_binary(binary: u8) -> (result: Result<Opcode, Error>)
        ensures
            result == match Opcode::of_bits(binary as int / 4) {
                Some(opcode) => Ok::<Opcode, Error>(opcode),
                None => Err(Error::UnknownOpcode),
            },
            result is Ok <==> binary as int / 4 == 0b100010,
    {
        assert(binary >> 2u8 == binary / 4u8) by (bit_vector);
        if binary >> 2 == MOV_PATTERN {
            Ok(Opcode::MOV)
        } else {
            Err(Error::UnknownOpcode)
        }
    }

    /// The name of the operation in assembly text.
    pub fn to_string(&self) -> (name: &'static str)
        ensures
            name@ == self.mnemonic(),
    {
        match self {
            Opcode::MOV => {
                proof {
                    reveal_strlit("mov");
                }
                assert("mov"@ =~= seq!['m', 'o', 'v']);
                "mov"
            },
        }
    }
}

impl Direction {
    /// The direction that the direction bit stands for.
    pub open spec fn of_bit(bit: int) -> Direction {
        if bit == 0 {
            Direction::ToRegister
        } else {
            Direction::FromRegister
        }
    }

    /// Reads the direction from the value of the direction bit.
    pub fn from_u16(value: u16) -> (direction: Direction)
        requires
            value == 0 || value == 1,
        ensures
            direction == Direction::of_bit(value as int),
            direction == Direction::ToRegister <==> value == 0,
    {
        if value == 0 {
            Direction::ToRegister
        } else {
            Direction::FromRegister
        }
    }
}

impl Mode {
    /// The addressing mode that the two mode bits stand for.
    pub open spec fn of_bits(bits: int) -> Mode {
        if bits == 0b11 {
            Mode::Register
        } else {
            Mode::Memory
        }
    }

    /// Reads the addressing mode from the value of the mode field.
    pub fn from_u16(value: u16) -> (mode: Mode)
        ensures
            mode == Mode::of_bits(value as int),
            mode == Mode::Register <==> value == 3,
    {
        if value == 0b11 {
            Mode::Register
        } else {
            Mode::Memory
        }
    }
}

impl Instruction {
    /// Both register selectors fit in three bits.
    pub open spec fn is_valid(self) -> bool {
        self.register1 <= 7 && self.register2 <= 7
    }

    /// What decoding `word` yields: the fields read off at their fixed
    /// positions, or `UnknownOpcode` where the top six bits name no
    /// operation.
    pub open spec fn decoded(word: u16) -> Result<Instruction, Error> {
        match Opcode::of_bits(opcode_bits(word)) {
            Some(opcode) => Ok(
                Instruction {
                    opcode,
                    direction: Direction::of_bit(direction_bit(word)),
                    wide: wide_bit(word) == 1,
                    mode: Mode::of_bits(mode_bits(word)),
                    register1: reg_bits(word) as u8,
                    register2: rm_bits(word) as u8,
                },
            ),
            None => Err(Error::UnknownOpcode),
        }
    }

    /// The selector of the operand that is written to.
    pub open spec fn destination(self) -> u8 {
        match self.direction {
            Direction::ToRegister => self.register1,
            Direction::FromRegister => self.register2,
        }
    }

    /// The selector of the operand that is read.
    pub open spec fn source(self) -> u8 {
        match self.direction {
            Direction::ToRegister => self.register2,
            Direction::FromRegister => self.register1,
        }
    }

    /// The line of assembly text for the instruction: the mnemonic, a
    /// space, the destination, a comma and a space, the source. Both
    /// operands have the width of the instruction. An instruction that
    /// addresses memory has no text; in register mode a selector beyond 7
    /// has no name.
    pub open spec fn rendered(self) -> Result<Seq<char>, Error> {
        if self.mode != Mode::Register {
            Err(Error::UnsupportedMode)
        } else if self.register1 > 7 || self.register2 > 7 {
            Err(Error::InvalidRegisterIndex)
        } else {
            Ok(
                self.opcode.mnemonic() + seq![' '] + register_name(
                    self.destination() as int,
                    self.wide,
                ) + seq![',', ' '] + register_name(self.source() as int, self.wide),
            )
        }
    }

    /// Decodes one 16-bit word.
    pub fn from_u16(instruction: u16) -> (result: Result<Instruction, Error>)
        ensures
            result == Instruction::decoded(instruction),
            result is Ok <==> opcode_bits(instruction) == 0b100010,
            result is Err <==> result == Err::<Instruction, Error>(Error::UnknownOpcode),
            result matches Ok(decoded) ==> decoded.is_valid(),
    {
        let word: u16 = instruction;
        assert((word >> 8u16) < 256 && (word >> 8u16) / 4u16 == word / 1024u16) by (bit_vector);
        assert((word >> 9u16) & 1u16 == (word / 512u16) % 2u16) by (bit_vector);
        assert((word >> 8u16) & 1u16 == (word / 256u16) % 2u16) by (bit_vector);
        assert((word >> 6u16) & 0b11u16 == (word / 64u16) % 4u16) by (bit_vector);
        assert((word >> 3u16) & 0b111u16 == (word / 8u16) % 8u16) by (bit_vector);
        assert(word & 0b111u16 == word % 8u16) by (bit_vector);
        let opcode = match Opcode::from_binary((word >> 8) as u8) {
            Ok(opcode) => opcode,
            Err(error) => {
                return Err(error);
            },
        };
        let direction = Direction::from_u16((word >> 9) & 1);
        let wide: bool = (word >> 8) & 1 != 0;
        let mode = Mode::from_u16((word >> 6) & 0b11);
        let register1: u8 = ((word >> 3) & 0b111) as u8;
        let register2: u8 = (word & 0b111) as u8;
        Ok(Instruction { opcode, direction, wide, mode, register1, register2 })
    }

    /// Renders the instruction as one line of assembly text.
    pub fn to_string(&self) -> (result: Result<String, Error>)
        ensures
            text_of(result) == self.rendered(),
            result is Ok <==> self.mode == Mode::Register && self.is_valid(),
    {
        if self.mode != Mode::Register {
            return Err(Error::UnsupportedMode);
        }
        let (first, second) = if self.direction == Direction::ToRegister {
            (self.register1, self.register2)
        } else {
            (self.register2, self.register1)
        };
        let destination = match register_to_string(first, self.wide) {
            Ok(name) => name,
            Err(error) => {
                return Err(error);
            },
        };
        let source = match register_to_string(second, self.wide) {
            Ok(name) => name,
            Err(error) => {
                return Err(error);
            },
        };
        proof {
            reveal_strlit(" ");
            reveal_strlit(", ");
            assert(" "@ =~= seq![' ']);
            assert(", "@ =~= seq![',', ' ']);
        }
        let mut line = String::from_str(self.opcode.to_string());
        line.append(" ");
        line.append(destination.as_str());
        line.append(", ");
        line.append(source.as_str());
        Ok(line)
    }
}

/// Every word whose top six bits are `100010` decodes, and its register
/// selectors lie in `0..=7`. Where its mode bits are `11` besides, the
/// decoded mode is `Register`.
pub proof fn lemma_mov_words_decode(word: u16)
    requires
        opcode_bits(word) == 0b100010,
    ensures
        Instruction::decoded(word) is Ok,
        Instruction::decoded(word)->Ok_0.opcode == Opcode::MOV,
        Instruction::decoded(word)->Ok_0.is_valid(),
        mode_bits(word) == 0b11 <==> Instruction::decoded(word)->Ok_0.mode == Mode::Register,
{
}

/// Every word whose top six bits are not `100010` fails to decode, with
/// `UnknownOpcode`.
pub proof fn lemma_other_words_fail(word: u16)
    requires
        opcode_bits(word) != 0b100010,
    ensures
        Instruction::decoded(word) == Err::<Instruction, Error>(Error::UnknownOpcode),
{
}

/// The text of an instruction depends on its fields alone: two
/// instructions that agree in every field have the same text, or fail in
/// the same way.
pub proof fn lemma_equal_instructions_render_alike(first: Instruction, second: Instruction)
    requires
        first.opcode == second.opcode,
        first.direction == second.direction,
        first.wide == second.wide,
        first.mode == second.mode,
        first.register1 == second.register1,
        first.register2 == second.register2,
    ensures
        first.rendered() == second.rendered(),
{
}

} // verus!
