use reading_asm::cursor::{ByteCursor, Truncated};
use reading_asm::decoder::{decode, disassemble, disassemble_text, to_signed16, to_signed8, DecodeError};
use reading_asm::instruction::{
    hex_byte, render_line, Displacement, Immediate, Instruction, Line, Mnemonic, Operand,
};
use reading_asm::modrm::{Mode, ModRM};
use reading_asm::tables::{base_expr, digit, reg16_name, reg8_name, Width};

fn text(bytes: &[u8]) -> Vec<String> {
    let (lines, error) = disassemble_text(bytes);
    assert_eq!(error, None);
    lines
}

fn in_table(b: u8) -> bool {
    (0x88..=0x8B).contains(&b) || (0xB0..=0xBF).contains(&b)
}

#[test]
fn register_direct_word_move() {
    assert_eq!(text(&[0x89, 0xD8]), vec!["mov ax, bx"]);
}

#[test]
fn register_direct_byte_move() {
    assert_eq!(text(&[0x88, 0xD8]), vec!["mov al, bl"]);
    assert_eq!(text(&[0x88, 0xE5]), vec!["mov ch, ah"]);
}

#[test]
fn register_direct_decoded_as_instruction() {
    let listing = disassemble(&[0x89, 0xD8]);
    assert_eq!(listing.error, None);
    assert_eq!(
        listing.lines,
        vec![Line::Instruction(Instruction {
            mnemonic: Mnemonic::Mov,
            dst: Operand::Register { index: 0, width: Width::Word },
            src: Operand::Register { index: 3, width: Width::Word },
        })]
    );
}

#[test]
fn immediate_byte() {
    assert_eq!(text(&[0xB0, 0x05]), vec!["mov al, 5"]);
    assert_eq!(text(&[0xB7, 0x7F]), vec!["mov bh, 127"]);
}

#[test]
fn immediate_word() {
    assert_eq!(text(&[0xB8, 0x00, 0x01]), vec!["mov ax, 256"]);
    assert_eq!(text(&[0xBF, 0x34, 0x12]), vec!["mov di, 4660"]);
}

#[test]
fn immediate_byte_is_signed() {
    assert_eq!(text(&[0xB0, 0xFF]), vec!["mov al, -1"]);
    assert_eq!(text(&[0xB1, 0x80]), vec!["mov cl, -128"]);
}

#[test]
fn immediate_word_is_signed() {
    assert_eq!(text(&[0xB9, 0xFF, 0xFF]), vec!["mov cx, -1"]);
    assert_eq!(text(&[0xBA, 0x00, 0x80]), vec!["mov dx, -32768"]);
}

#[test]
fn memory_with_byte_displacement() {
    assert_eq!(text(&[0x8A, 0x46, 0x04]), vec!["mov al, [bp + 4]"]);
    assert_eq!(text(&[0x8A, 0x40, 0xFC]), vec!["mov al, [bx + si + -4]"]);
}

#[test]
fn memory_displacement_register_from_reg_field() {
    assert_eq!(text(&[0x8A, 0x56, 0x04]), vec!["mov dl, [bp + 4]"]);
}

#[test]
fn memory_with_word_displacement() {
    assert_eq!(text(&[0x8A, 0x96, 0x00, 0x80]), vec!["mov dl, [bp + -32768]"]);
    assert_eq!(text(&[0x8A, 0x87, 0x10, 0x27]), vec!["mov al, [bx + 10000]"]);
}

#[test]
fn memory_without_displacement() {
    assert_eq!(text(&[0x8A, 0x00]), vec!["mov al, [bx + si]"]);
    assert_eq!(text(&[0x8A, 0x1B]), vec!["mov bl, [bp + di]"]);
    assert_eq!(text(&[0x8A, 0x36]), vec!["mov dh, [bp]"]);
}

#[test]
fn load_byte_register_direct() {
    assert_eq!(text(&[0x8A, 0xC1]), vec!["mov al, cl"]);
}

#[test]
fn load_word_reads_memory_without_displacement_only() {
    assert_eq!(text(&[0x8B, 0x0C]), vec!["mov cx, [si]"]);
    assert_eq!(
        text(&[0x8B, 0x5E, 0x04]),
        vec!["mov bx, [bp]", "Unknown instruction: 04"]
    );
}

#[test]
fn store_to_memory() {
    assert_eq!(text(&[0x88, 0x00]), vec!["mov [bx + si], al"]);
    assert_eq!(text(&[0x89, 0x47, 0xFC]), vec!["mov [bx + -4], ax"]);
    assert_eq!(text(&[0x89, 0x95, 0x00, 0x01]), vec!["mov [di + 256], dx"]);
}

#[test]
fn unknown_opcode_diagnostic() {
    assert_eq!(text(&[0x90]), vec!["Unknown instruction: 90"]);
    assert_eq!(text(&[0x0F]), vec!["Unknown instruction: 0F"]);
    assert_eq!(text(&[0xAB]), vec!["Unknown instruction: AB"]);
}

#[test]
fn unknown_opcode_as_line() {
    let listing = disassemble(&[0xC3]);
    assert_eq!(listing.lines, vec![Line::UnknownOpcode(0xC3)]);
    assert_eq!(listing.error, None);
}

#[test]
fn every_opcode_outside_table_gives_one_diagnostic_and_one_byte() {
    for b in 1..=255u8 {
        if in_table(b) {
            continue;
        }
        let expected = format!("Unknown instruction: {:02X}", b);
        assert_eq!(text(&[b]), vec![expected.clone()]);
        assert_eq!(text(&[b, 0xB0, 0x05]), vec![expected, "mov al, 5".to_string()]);
    }
}

#[test]
fn every_opcode_in_table_decodes() {
    for b in 0..=255u8 {
        if !in_table(b) {
            continue;
        }
        let listing = disassemble(&[b, 0x00, 0x00]);
        assert_eq!(listing.error, None);
        assert!(!listing.lines.is_empty());
        assert!(matches!(listing.lines[0], Line::Instruction(_)));
        assert!(listing.lines.iter().all(|l| !matches!(l, Line::UnknownOpcode(_))));
    }
}

#[test]
fn truncated_immediate() {
    let (lines, error) = disassemble_text(&[0xB8, 0x01]);
    assert!(lines.is_empty());
    assert_eq!(error, Some(DecodeError::Truncated { start: 0, offset: 2 }));
}

#[test]
fn truncated_after_lines() {
    let (lines, error) = disassemble_text(&[0x90, 0xB0, 0x01, 0x89]);
    assert_eq!(lines, vec!["Unknown instruction: 90", "mov al, 1"]);
    assert_eq!(error, Some(DecodeError::Truncated { start: 3, offset: 4 }));
}

#[test]
fn truncated_displacement() {
    let (lines, error) = disassemble_text(&[0x8A, 0x96, 0x00]);
    assert!(lines.is_empty());
    assert_eq!(error, Some(DecodeError::Truncated { start: 0, offset: 3 }));
}

#[test]
fn truncated_stops_decoding() {
    let (lines, error) = disassemble_text(&[0x89, 0x80, 0x01]);
    assert!(lines.is_empty());
    assert_eq!(error, Some(DecodeError::Truncated { start: 0, offset: 3 }));
}

#[test]
fn empty_buffer() {
    let listing = disassemble(&[]);
    assert!(listing.lines.is_empty());
    assert_eq!(listing.error, None);
}

#[test]
fn padding_is_skipped() {
    assert!(text(&[0x00, 0x00, 0x00]).is_empty());
    assert_eq!(
        text(&[0x00, 0x00, 0xB0, 0x05, 0x00, 0x89, 0xD8, 0x00]),
        vec!["mov al, 5", "mov ax, bx"]
    );
}

#[test]
fn zero_inside_an_instruction_is_not_padding() {
    assert_eq!(text(&[0xB8, 0x00, 0x00]), vec!["mov ax, 0"]);
    assert_eq!(text(&[0x88, 0x00, 0x00]), vec!["mov [bx + si], al"]);
}

#[test]
fn decoding_twice_gives_the_same_output() {
    let bytes = [0x00, 0x89, 0xD8, 0x90, 0x8A, 0x46, 0x04, 0xB8, 0x00, 0x01, 0xB0];
    let first = disassemble_text(&bytes);
    let second = disassemble_text(&bytes);
    assert_eq!(first, second);
    assert_eq!(
        first.0,
        vec!["mov ax, bx", "Unknown instruction: 90", "mov al, [bp + 4]", "mov ax, 256"]
    );
    assert_eq!(first.1, Some(DecodeError::Truncated { start: 10, offset: 11 }));
}

#[test]
fn modrm_fields_for_every_byte() {
    for b in 0..=255u8 {
        let m = ModRM::from_byte(b);
        let mode = match b >> 6 {
            0 => Mode::MemoryNoDisp,
            1 => Mode::MemoryDisp8,
            2 => Mode::MemoryDisp16,
            _ => Mode::RegisterDirect,
        };
        assert_eq!(m, ModRM { mode, reg: (b >> 3) & 7, rm: b & 7 });
        assert_eq!(m.is_register_direct(), b >> 6 == 3);
    }
}

#[test]
fn modrm_of_register_direct_byte() {
    assert_eq!(ModRM::from_byte(0xD8), ModRM { mode: Mode::RegisterDirect, reg: 3, rm: 0 });
    assert_eq!(ModRM::from_byte(0x56), ModRM { mode: Mode::MemoryDisp8, reg: 2, rm: 6 });
}

#[test]
fn register_and_base_tables() {
    let r8: Vec<&str> = (0..8).map(reg8_name).collect();
    let r16: Vec<&str> = (0..8).map(reg16_name).collect();
    let bases: Vec<&str> = (0..8).map(base_expr).collect();
    assert_eq!(r8, vec!["al", "cl", "dl", "bl", "ah", "ch", "dh", "bh"]);
    assert_eq!(r16, vec!["ax", "cx", "dx", "bx", "sp", "bp", "si", "di"]);
    assert_eq!(bases, vec!["bx + si", "bx + di", "bp + si", "bp + di", "si", "di", "bp", "bx"]);
    assert_eq!(digit(9), "9");
    assert_eq!(digit(15), "F");
}

#[test]
fn hex_rendering() {
    assert_eq!(hex_byte(0x0A), "0A");
    assert_eq!(hex_byte(0xFF), "FF");
    assert_eq!(hex_byte(0x01), "01");
}

#[test]
fn signed_conversions() {
    assert_eq!(to_signed8(0x7F), 127);
    assert_eq!(to_signed8(0x80), -128);
    assert_eq!(to_signed8(0xFF), -1);
    assert_eq!(to_signed16(0x00, 0x01), 256);
    assert_eq!(to_signed16(0xFF, 0x7F), 32767);
    assert_eq!(to_signed16(0x00, 0x80), -32768);
    assert_eq!(to_signed16(0xFE, 0xFF), -2);
}

#[test]
fn render_built_lines() {
    let line = Line::Instruction(Instruction {
        mnemonic: Mnemonic::Mov,
        dst: Operand::Memory { rm: 2, disp: Displacement::Disp16(-300) },
        src: Operand::Immediate(Immediate::Imm8(-7)),
    });
    assert_eq!(render_line(&line), "mov [bp + si + -300], -7");
    assert_eq!(render_line(&Line::UnknownOpcode(0x0C)), "Unknown instruction: 0C");
}

#[test]
fn cursor_reads_in_order_then_fails() {
    let bytes = [0x11u8, 0x22];
    let mut c = ByteCursor::new(&bytes);
    assert!(c.has_next());
    assert_eq!(c.next_byte(), Ok(0x11));
    assert_eq!(c.position(), 1);
    assert_eq!(c.next_byte(), Ok(0x22));
    assert!(!c.has_next());
    assert_eq!(c.next_byte(), Err(Truncated { offset: 2 }));
    assert_eq!(c.position(), 2);
}

#[test]
fn decode_after_opcode() {
    let bytes = [0xB8u8, 0x05, 0x00, 0x90];
    let mut c = ByteCursor::new(&bytes);
    let op = c.next_byte().unwrap();
    let i = decode(op, &mut c).unwrap();
    assert_eq!(i.src, Operand::Immediate(Immediate::Imm16(5)));
    assert_eq!(c.position(), 3);
    let op = c.next_byte().unwrap();
    assert_eq!(decode(op, &mut c), Err(DecodeError::UnknownOpcode { opcode: 0x90 }));
    assert_eq!(c.position(), 4);
}
