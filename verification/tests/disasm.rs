use disasm8086::bitpack::utf8_to_bytes;
use disasm8086::disasm::{bytes_to_instructions, disassemble, Failure};
use disasm8086::error::Error;
use disasm8086::instruction::{Direction, Instruction, Mode, Opcode};

#[test]
fn words_are_read_high_byte_first() {
    let instructions = bytes_to_instructions(&[0x88, 0xC8]).unwrap();
    assert_eq!(instructions.len(), 1);
    assert_eq!(instructions[0], Instruction::from_u16(0x88C8).unwrap());
    // The other byte order is no move.
    assert_eq!(bytes_to_instructions(&[0xC8, 0x88]), Err(Error::UnknownOpcode));
}

#[test]
fn instructions_come_out_in_input_order() {
    let instructions = bytes_to_instructions(&[0x88, 0xC8, 0x8B, 0xD8, 0x89, 0x0A]).unwrap();
    assert_eq!(
        instructions,
        vec![
            Instruction {
                opcode: Opcode::MOV,
                direction: Direction::ToRegister,
                wide: false,
                mode: Mode::Register,
                register1: 1,
                register2: 0,
            },
            Instruction {
                opcode: Opcode::MOV,
                direction: Direction::FromRegister,
                wide: true,
                mode: Mode::Register,
                register1: 3,
                register2: 0,
            },
            Instruction {
                opcode: Opcode::MOV,
                direction: Direction::ToRegister,
                wide: true,
                mode: Mode::Memory,
                register1: 1,
                register2: 2,
            },
        ]
    );
}

#[test]
fn an_unpaired_last_byte_is_ignored() {
    for length in [1usize, 3, 5, 7, 9, 101] {
        let mut buffer: Vec<u8> = Vec::new();
        while buffer.len() + 1 < length {
            buffer.push(0x88);
            buffer.push(0xC8);
        }
        buffer.push(0xFF);
        assert_eq!(buffer.len(), length);
        let instructions = bytes_to_instructions(&buffer).unwrap();
        assert_eq!(instructions.len(), (length - 1) / 2);
        let listing = disassemble(&buffer);
        assert_eq!(listing.lines.len(), (length - 1) / 2);
        assert_eq!(listing.failure, None);
    }
}

#[test]
fn an_even_length_gives_half_as_many_words() {
    for words in 0usize..20 {
        let buffer: Vec<u8> = [0x8Bu8, 0xD8u8].repeat(words);
        assert_eq!(bytes_to_instructions(&buffer).unwrap().len(), words);
        assert_eq!(disassemble(&buffer).lines.len(), words);
    }
}

#[test]
fn short_buffers_hold_no_word() {
    assert_eq!(bytes_to_instructions(&[]), Ok(Vec::new()));
    assert_eq!(bytes_to_instructions(&[0x00]), Ok(Vec::new()));
    let listing = disassemble(&[0x00]);
    assert!(listing.lines.is_empty());
    assert_eq!(listing.failure, None);
}

#[test]
fn a_word_that_does_not_decode_ends_the_run() {
    assert_eq!(bytes_to_instructions(&[0x88, 0xC8, 0x00, 0x00]), Err(Error::UnknownOpcode));
    assert_eq!(bytes_to_instructions(&[0x00, 0x00, 0x88, 0xC8]), Err(Error::UnknownOpcode));
    // The unpaired byte is never looked at.
    assert!(bytes_to_instructions(&[0x88, 0xC8, 0x00]).is_ok());
}

#[test]
fn lines_are_rendered_in_input_order() {
    let listing = disassemble(&[0x88, 0xC8, 0x8B, 0xD8, 0x89, 0xD8]);
    assert_eq!(listing.lines, vec!["mov cl, al", "mov ax, bx", "mov bx, ax"]);
    assert_eq!(listing.failure, None);
}

#[test]
fn lines_before_an_unknown_opcode_are_kept() {
    let listing = disassemble(&[0x88, 0xC8, 0x8B, 0xD8, 0x12, 0x34, 0x88, 0xC8]);
    assert_eq!(listing.lines, vec!["mov cl, al", "mov ax, bx"]);
    assert_eq!(
        listing.failure,
        Some(Failure { index: 2, word: 0x1234, error: Error::UnknownOpcode })
    );
}

#[test]
fn a_memory_operand_ends_the_listing() {
    let listing = disassemble(&[0x88, 0xC8, 0x89, 0x0A, 0x88, 0xC8]);
    assert_eq!(listing.lines, vec!["mov cl, al"]);
    assert_eq!(
        listing.failure,
        Some(Failure { index: 1, word: 0x890A, error: Error::UnsupportedMode })
    );
}

#[test]
fn a_failure_at_the_first_word_leaves_no_line() {
    let listing = disassemble(&[0xFF, 0xFF, 0x88, 0xC8]);
    assert!(listing.lines.is_empty());
    assert_eq!(
        listing.failure,
        Some(Failure { index: 0, word: 0xFFFF, error: Error::UnknownOpcode })
    );
}

#[test]
fn each_line_is_the_text_of_its_instruction() {
    let buffer: Vec<u8> = vec![0x88, 0xC1, 0x89, 0xE5, 0x8A, 0xF7, 0x8B, 0xFE, 0x07];
    let instructions = bytes_to_instructions(&buffer).unwrap();
    let listing = disassemble(&buffer);
    assert_eq!(listing.failure, None);
    assert_eq!(listing.lines.len(), instructions.len());
    for (instruction, line) in instructions.iter().zip(listing.lines.iter()) {
        assert_eq!(instruction.to_string().as_ref(), Ok(line));
    }
    assert_eq!(listing.lines, vec!["mov al, cl", "mov sp, bp", "mov bh, dh", "mov si, di"]);
}

#[test]
fn packed_text_can_be_disassembled() {
    let bytes = utf8_to_bytes("1000 1011 1101 1000\n1000 1000 1100 1000\n".to_string());
    let listing = disassemble(&bytes);
    assert_eq!(listing.lines, vec!["mov ax, bx", "mov cl, al"]);
    assert_eq!(listing.failure, None);
}
