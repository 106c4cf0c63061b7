//! From a buffer of bytes to instructions and to lines of assembly text.
//!
//! Two consecutive bytes make one word, the first being the more
//! significant. A last byte without a partner belongs to no word.

use vstd::prelude::*;
use crate::error::{text_of, Error};
use crate::instruction::{mode_bits, opcode_bits, Instruction};

verus! {

/// The word with the given index among the words of `bytes`.
pub open spec fn word_at(bytes: Seq<u8>, index: int) -> u16
    recommends
        0 <= index < bytes.len() / 2,
{
    (256 * bytes[2 * index] + bytes[2 * index + 1]) as u16
}

/// The line of assembly text for one word, or the reason why it has none:
/// that of the decoder where the word does not decode, else that of the
/// renderer.
pub open spec fn line_of_word(word: u16) -> Result<Seq<char>, Error> {
    match Instruction::decoded(word) {
        Ok(instruction) => instruction.rendered(),
        Err(error) => Err(error),
    }
}

/// The first word of a buffer that has no line of text.
#[derive(Clone, Copy, Debug, PartialEq, Eq, Structural)]
pub struct Failure {
    /// The index of the word among the words of the buffer.
    pub index: usize,
    /// The word itself.
    pub word: u16,
    /// Why it has no text.
    pub error: Error,
}

/// The text of a buffer, as far as it could be produced.
#[derive(Debug)]
pub struct Listing {
    /// One line for each word before the first failure, in input order.
    pub lines: Vec<String>,
    /// The first failure, if there was one.
    pub failure: Option<Failure>,
}

/// Reads the word with the given index.
fn read_word(binary: &[u8], index: usize) -> (word: u16)
    requires
        index < binary@.len() / 2,
    ensures
        word == word_at(binary@, index as int),
{
    let length: usize = binary.len();
    assert(index * 2 + 1 < length);
    let high: u8 = binary[index * 2];
    let low: u8 = binary[index * 2 + 1];
    assert(((high as u16) << 8u16) | (low as u16) == 256u16 * (high as u16) + (low as u16))
        by (bit_vector);
    ((high as u16) << 8) | (low as u16)
}

/// Decodes every word of `binary`, in order. The first word that does not
/// decode ends the run.
pub fn bytes_to_instructions(binary: &[u8]) -> (result: Result<Vec<Instruction>, Error>)
    ensures
        match result {
            Ok(instructions) => {
                &&& instructions@.len() == binary@.len() / 2
                &&& binary@.len() % 2 == 1 ==> instructions@.len() == (binary@.len() - 1) / 2
                &&& forall|i: int|
                    0 <= i < instructions@.len() ==> Instruction::decoded(word_at(binary@, i))
                        == Ok::<Instruction, Error>(#[trigger] instructions@[i])
            },
            Err(error) => {
                &&& error == Error::UnknownOpcode
                &&& exists|i: int|
                    0 <= i < binary@.len() / 2 && #[trigger] Instruction::decoded(
                        word_at(binary@, i),
                    ) is Err
            },
        },
{
    let count: usize = binary.len() / 2;
    let mut instructions: Vec<Instruction> = Vec::new();
    let mut i: usize = 0;
    while i < count
        invariant
            count == binary@.len() / 2,
            i <= count,
            instructions@.len() == i,
            forall|k: int|
                0 <= k < i ==> Instruction::decoded(word_at(binary@, k)) == Ok::<
                    Instruction,
                    Error,
                >(#[trigger] instructions@[k]),
        decreases count - i,
    {
        let word: u16 = read_word(binary, i);
        match Instruction::from_u16(word) {
            Ok(instruction) => {
                instructions.push(instruction);
            },
            Err(error) => {
                assert(Instruction::decoded(word_at(binary@, i as int)) is Err);
                return Err(error);
            },
        }
        i = i + 1;
    }
    Ok(instructions)
}

/// Decodes and renders the words of `binary`, in order, up to the first
/// word that has no text. The lines before that word are kept.
pub fn disassemble(binary: &[u8]) -> (listing: Listing)
    ensures
        listing.lines@.len() <= binary@.len() / 2,
        forall|i: int|
            0 <= i < listing.lines@.len() ==> line_of_word(word_at(binary@, i)) == Ok::<
                Seq<char>,
                Error,
            >(#[trigger] listing.lines@[i]@),
        match listing.failure {
            None => {
                &&& listing.lines@.len() == binary@.len() / 2
                &&& binary@.len() % 2 == 1 ==> listing.lines@.len() == (binary@.len() - 1) / 2
            },
            Some(failure) => {
                &&& failure.index == listing.lines@.len()
                &&& failure.index < binary@.len() / 2
                &&& failure.word == word_at(binary@, failure.index as int)
                &&& line_of_word(failure.word) == Err::<Seq<char>, Error>(failure.error)
            },
        },
{
    let count: usize = binary.len() / 2;
    let mut lines: Vec<String> = Vec::new();
    let mut i: usize = 0;
    while i < count
        invariant
            count == binary@.len() / 2,
            i <= count,
            lines@.len() == i,
            forall|k: int|
                0 <= k < i ==> line_of_word(word_at(binary@, k)) == Ok::<Seq<char>, Error>(
                    #[trigger] lines@[k]@,
                ),
        decreases count - i,
    {
        let word: u16 = read_word(binary, i);
        let outcome = match Instruction::from_u16(word) {
            Ok(instruction) => instruction.to_string(),
            Err(error) => Err(error),
        };
        assert(text_of(outcome) == line_of_word(word));
        match outcome {
            Ok(line) => {
                lines.push(line);
            },
            Err(error) => {
                return Listing { lines, failure: Some(Failure { index: i, word, error }) };
            },
        }
        i = i + 1;
    }
    Listing { lines, failure: None }
}

/// Which words have a line of text: those whose top six bits are `100010`
/// and whose mode bits are `11`. A word with other top bits fails with
/// `UnknownOpcode`, a move with other mode bits with `UnsupportedMode`. No
/// word fails for its register selectors.
pub proof fn lemma_line_of_word(word: u16)
    ensures
        line_of_word(word) is Ok <==> opcode_bits(word) == 0b100010 && mode_bits(word) == 0b11,
        opcode_bits(word) != 0b100010 ==> line_of_word(word) == Err::<Seq<char>, Error>(
            Error::UnknownOpcode,
        ),
        opcode_bits(word) == 0b100010 && mode_bits(word) != 0b11 ==> line_of_word(word) == Err::<
            Seq<char>,
            Error,
        >(Error::UnsupportedMode),
{
}

} // verus!
