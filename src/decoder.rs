use vstd::prelude::*;
use crate::cursor::{ByteCursor, Truncated};
use crate::instruction::{
    line_text, render_line, Displacement, Immediate, Instruction, Line, Mnemonic, Operand,
};
use crate::modrm::{disp_len, modrm_of, Mode, ModRM};
use crate::tables::Width;

verus! {

/// Why the instruction starting at some offset could not be decoded.
#[derive(Clone, Copy, Debug, PartialEq, Eq, Structural)]
pub enum DecodeError {
    /// The byte `opcode` starts no instruction that this decoder knows.
    UnknownOpcode { opcode: u8 },
    /// The instruction starting at `start` needs a byte at `offset`, past
    /// the end of the stream.
    Truncated { start: usize, offset: usize },
}

/// `mov` between a register or memory operand and a register (`0x88..=0x8B`).
pub open spec fn is_modrm_opcode(op: u8) -> bool {
    0x88 <= op <= 0x8B
}

/// `mov` of an 8-bit immediate into a register (`0xB0..=0xB7`).
pub open spec fn is_imm8_opcode(op: u8) -> bool {
    0xB0 <= op <= 0xB7
}

/// `mov` of a 16-bit immediate into a register (`0xB8..=0xBF`).
pub open spec fn is_imm16_opcode(op: u8) -> bool {
    0xB8 <= op <= 0xBF
}

pub open spec fn in_dispatch_table(op: u8) -> bool {
    is_modrm_opcode(op) || is_imm8_opcode(op) || is_imm16_opcode(op)
}

/// The byte `b` read as a two's-complement 8-bit value.
pub open spec fn signed8(b: u8) -> int {
    if b < 128 {
        b as int
    } else {
        b - 256
    }
}

/// The bytes `lo`, `hi` read as a little-endian two's-complement 16-bit value.
pub open spec fn signed16(lo: u8, hi: u8) -> int {
    let u = lo + 256 * hi;
    if u < 32768 {
        u
    } else {
        u - 65536
    }
}

/// The operand width of a `0x88..=0x8B` opcode.
pub open spec fn modrm_width(op: u8) -> Width {
    if op == 0x88 || op == 0x8A {
        Width::Byte
    } else {
        Width::Word
    }
}

/// How many bytes the instruction that starts at `p` occupies, as far as
/// the bytes present tell. Opcode `0x8B` is only decoded in its memory form
/// without displacement, whatever its ModRM byte says.
pub open spec fn encoded_len(s: Seq<u8>, p: int) -> nat {
    let op = s[p];
    if is_modrm_opcode(op) {
        if op != 0x8B && p + 1 < s.len() {
            2 + disp_len(modrm_of(s[p + 1]).mode)
        } else {
            2
        }
    } else if is_imm8_opcode(op) {
        2
    } else if is_imm16_opcode(op) {
        3
    } else {
        1
    }
}

pub open spec fn reg_operand(index: u8, width: Width) -> Operand {
    Operand::Register { index, width }
}

pub open spec fn mov(dst: Operand, src: Operand) -> Instruction {
    Instruction { mnemonic: Mnemonic::Mov, dst, src }
}

/// The displacement of mode `m` whose bytes start at `q`.
pub open spec fn disp_at(m: Mode, s: Seq<u8>, q: int) -> Displacement {
    match m {
        Mode::MemoryDisp8 => Displacement::Disp8(signed8(s[q]) as i8),
        Mode::MemoryDisp16 => Displacement::Disp16(signed16(s[q], s[q + 1]) as i16),
        _ => Displacement::Absent,
    }
}

/// The instruction encoded at `p`, for a known opcode whose bytes are all
/// present.
pub open spec fn instruction_at(s: Seq<u8>, p: int) -> Instruction {
    let op = s[p];
    if is_modrm_opcode(op) {
        let m = modrm_of(s[p + 1]);
        let w = modrm_width(op);
        let reg = reg_operand(m.reg, w);
        if op == 0x8B {
            mov(reg, Operand::Memory { rm: m.rm, disp: Displacement::Absent })
        } else if m.mode == Mode::RegisterDirect {
            if op == 0x8A {
                mov(reg, reg_operand(m.rm, w))
            } else {
                mov(reg_operand(m.rm, w), reg)
            }
        } else {
            let mem = Operand::Memory { rm: m.rm, disp: disp_at(m.mode, s, p + 2) };
            if op == 0x8A {
                mov(reg, mem)
            } else {
                mov(mem, reg)
            }
        }
    } else if is_imm8_opcode(op) {
        mov(
            reg_operand((op - 0xB0) as u8, Width::Byte),
            Operand::Immediate(Immediate::Imm8(signed8(s[p + 1]) as i8)),
        )
    } else {
        mov(
            reg_operand((op - 0xB8) as u8, Width::Word),
            Operand::Immediate(Immediate::Imm16(signed16(s[p + 1], s[p + 2]) as i16)),
        )
    }
}

/// Decoding the instruction that starts at `p`: the instruction and its
/// length, or why there is none.
pub open spec fn decode_at(s: Seq<u8>, p: int) -> Result<(Instruction, nat), DecodeError> {
    if !in_dispatch_table(s[p]) {
        Err(DecodeError::UnknownOpcode { opcode: s[p] })
    } else if p + encoded_len(s, p) > s.len() {
        Err(DecodeError::Truncated { start: p as usize, offset: s.len() as usize })
    } else {
        Ok((instruction_at(s, p), encoded_len(s, p)))
    }
}

/// The lines that decoding `s` from `p` on gives, and the error that ended
/// it early, if any. A zero byte where an instruction would start is
/// padding; an unknown opcode gives a diagnostic line and decoding goes on
/// at the next byte; a truncated instruction ends decoding.
pub open spec fn listing_from(s: Seq<u8>, p: int) -> (Seq<Line>, Option<DecodeError>)
    decreases s.len() - p,
{
    if p < 0 || p >= s.len() {
        (Seq::empty(), None)
    } else if s[p] == 0 {
        listing_from(s, p + 1)
    } else if !in_dispatch_table(s[p]) {
        let rest = listing_from(s, p + 1);
        (seq![Line::UnknownOpcode(s[p])] + rest.0, rest.1)
    } else if p + encoded_len(s, p) > s.len() {
        (Seq::empty(), Some(DecodeError::Truncated { start: p as usize, offset: s.len() as usize }))
    } else {
        let rest = listing_from(s, p + encoded_len(s, p));
        (seq![Line::Instruction(instruction_at(s, p))] + rest.0, rest.1)
    }
}

/// What decoding all of `s` gives.
pub open spec fn listing_of(s: Seq<u8>) -> (Seq<Line>, Option<DecodeError>) {
    listing_from(s, 0)
}

/// Reads a byte that the instruction starting at `start` needs.
fn read_byte(cursor: &mut ByteCursor, start: usize) -> (r: Result<u8, DecodeError>)
    requires
        old(cursor).wf(),
    ensures
        final(cursor).wf(),
        final(cursor).data() == old(cursor).data(),
        old(cursor).pos() < old(cursor).data().len() ==> r == Ok::<u8, DecodeError>(
            old(cursor).data()[old(cursor).pos()],
        ) && final(cursor).pos() == old(cursor).pos() + 1,
        old(cursor).pos() >= old(cursor).data().len() ==> r == Err::<u8, DecodeError>(
            DecodeError::Truncated { start, offset: old(cursor).data().len() as usize },
        ),
{
    match cursor.next_byte() {
        Ok(b) => Ok(b),
        Err(Truncated { offset }) => Err(DecodeError::Truncated { start, offset }),
    }
}

/// `b` read as a two's-complement 8-bit value.
pub fn to_signed8(b: u8) -> (r: i8)
    ensures
        r as int == signed8(b),
{
    if b < 128 {
        b as i8
    } else {
        (b as i16 - 256) as i8
    }
}

/// `lo`, `hi` read as a little-endian two's-complement 16-bit value.
pub fn to_signed16(lo: u8, hi: u8) -> (r: i16)
    ensures
        r as int == signed16(lo, hi),
{
    let u: u32 = lo as u32 + 256 * hi as u32;
    if u < 32768 {
        u as i16
    } else {
        (u as i32 - 65536) as i16
    }
}

/// `r` is what decoding the instruction at `p` gives, and `end` is where
/// the next one starts when it succeeds.
pub open spec fn decodes_as(s: Seq<u8>, p: int, r: Result<Instruction, DecodeError>, end: int) -> bool {
    match decode_at(s, p) {
        Ok((i, n)) => r == Ok::<Instruction, DecodeError>(i) && end == p + n,
        Err(e) => r == Err::<Instruction, DecodeError>(e),
    }
}

/// Reads the displacement that follows a ModRM byte of mode `m`.
fn read_displacement(cursor: &mut ByteCursor, m: Mode, start: usize) -> (r: Result<
    Displacement,
    DecodeError,
>)
    requires
        old(cursor).wf(),
    ensures
        final(cursor).wf(),
        final(cursor).data() == old(cursor).data(),
        old(cursor).pos() + disp_len(m) <= old(cursor).data().len() ==> r == Ok::<
            Displacement,
            DecodeError,
        >(disp_at(m, old(cursor).data(), old(cursor).pos())) && final(cursor).pos() == old(
            cursor,
        ).pos() + disp_len(m),
        old(cursor).pos() + disp_len(m) > old(cursor).data().len() ==> r == Err::<
            Displacement,
            DecodeError,
        >(DecodeError::Truncated { start, offset: old(cursor).data().len() as usize }),
{
    match m {
        Mode::MemoryDisp8 => match read_byte(cursor, start) {
            Ok(b) => Ok(Displacement::Disp8(to_signed8(b))),
            Err(e) => Err(e),
        },
        Mode::MemoryDisp16 => {
            let lo = match read_byte(cursor, start) {
                Ok(b) => b,
                Err(e) => {
                    return Err(e);
                },
            };
            let hi = match read_byte(cursor, start) {
                Ok(b) => b,
                Err(e) => {
                    return Err(e);
                },
            };
            Ok(Displacement::Disp16(to_signed16(lo, hi)))
        },
        _ => Ok(Displacement::Absent),
    }
}

/// Decodes the `mov` forms with a ModRM byte, opcodes `0x88..=0x8B`.
fn decode_modrm_form(opcode: u8, cursor: &mut ByteCursor, start: usize) -> (r: Result<
    Instruction,
    DecodeError,
>)
    requires
        old(cursor).wf(),
        is_modrm_opcode(opcode),
        old(cursor).pos() == start + 1,
        old(cursor).data()[start as int] == opcode,
    ensures
        final(cursor).wf(),
        final(cursor).data() == old(cursor).data(),
        decodes_as(old(cursor).data(), start as int, r, final(cursor).pos()),
{
    let b = match read_byte(cursor, start) {
        Ok(b) => b,
        Err(e) => {
            return Err(e);
        },
    };
    let m = ModRM::from_byte(b);
    let width = if opcode == 0x88 || opcode == 0x8A {
        Width::Byte
    } else {
        Width::Word
    };
    let reg = Operand::Register { index: m.reg, width };
    if opcode == 0x8B {
        Ok(Instruction {
            mnemonic: Mnemonic::Mov,
            dst: reg,
            src: Operand::Memory { rm: m.rm, disp: Displacement::Absent },
        })
    } else if m.is_register_direct() {
        let other = Operand::Register { index: m.rm, width };
        if opcode == 0x8A {
            Ok(Instruction { mnemonic: Mnemonic::Mov, dst: reg, src: other })
        } else {
            Ok(Instruction { mnemonic: Mnemonic::Mov, dst: other, src: reg })
        }
    } else {
        let disp = match read_displacement(cursor, m.mode, start) {
            Ok(d) => d,
            Err(e) => {
                return Err(e);
            },
        };
        let mem = Operand::Memory { rm: m.rm, disp };
        if opcode == 0x8A {
            Ok(Instruction { mnemonic: Mnemonic::Mov, dst: reg, src: mem })
        } else {
            Ok(Instruction { mnemonic: Mnemonic::Mov, dst: mem, src: reg })
        }
    }
}

/// Decodes `mov` of an 8-bit immediate into a register, opcodes `0xB0..=0xB7`.
fn decode_imm8_to_reg(opcode: u8, cursor: &mut ByteCursor, start: usize) -> (r: Result<
    Instruction,
    DecodeError,
>)
    requires
        old(cursor).wf(),
        is_imm8_opcode(opcode),
        old(cursor).pos() == start + 1,
        old(cursor).data()[start as int] == opcode,
    ensures
        final(cursor).wf(),
        final(cursor).data() == old(cursor).data(),
        decodes_as(old(cursor).data(), start as int, r, final(cursor).pos()),
{
    match read_byte(cursor, start) {
        Ok(b) => Ok(
            Instruction {
                mnemonic: Mnemonic::Mov,
                dst: Operand::Register { index: opcode - 0xB0, width: Width::Byte },
                src: Operand::Immediate(Immediate::Imm8(to_signed8(b))),
            },
        ),
        Err(e) => Err(e),
    }
}

/// Decodes `mov` of a 16-bit immediate into a register, opcodes `0xB8..=0xBF`.
fn decode_imm16_to_reg(opcode: u8, cursor: &mut ByteCursor, start: usize) -> (r: Result<
    Instruction,
    DecodeError,
>)
    requires
        old(cursor).wf(),
        is_imm16_opcode(opcode),
        old(cursor).pos() == start + 1,
        old(cursor).data()[start as int] == opcode,
    ensures
        final(cursor).wf(),
        final(cursor).data() == old(cursor).data(),
        decodes_as(old(cursor).data(), start as int, r, final(cursor).pos()),
{
    let lo = match read_byte(cursor, start) {
        Ok(b) => b,
        Err(e) => {
            return Err(e);
        },
    };
    let hi = match read_byte(cursor, start) {
        Ok(b) => b,
        Err(e) => {
            return Err(e);
        },
    };
    Ok(
        Instruction {
            mnemonic: Mnemonic::Mov,
            dst: Operand::Register { index: opcode - 0xB8, width: Width::Word },
            src: Operand::Immediate(Immediate::Imm16(to_signed16(lo, hi))),
        },
    )
}

/// Decodes the instruction whose opcode `opcode` was just read from
/// `cursor`, reading the ModRM, displacement and immediate bytes it needs.
/// An unknown opcode reads nothing more.
pub fn decode(opcode: u8, cursor: &mut ByteCursor) -> (r: Result<Instruction, DecodeError>)
    requires
        old(cursor).wf(),
        old(cursor).pos() >= 1,
        old(cursor).data()[old(cursor).pos() - 1] == opcode,
    ensures
        final(cursor).wf(),
        final(cursor).data() == old(cursor).data(),
        decodes_as(old(cursor).data(), old(cursor).pos() - 1, r, final(cursor).pos()),
        !in_dispatch_table(opcode) ==> final(cursor).pos() == old(cursor).pos(),
{
    let start = cursor.position() - 1;
    if 0x88 <= opcode && opcode <= 0x8B {
        decode_modrm_form(opcode, cursor, start)
    } else if 0xB0 <= opcode && opcode <= 0xB7 {
        decode_imm8_to_reg(opcode, cursor, start)
    } else if 0xB8 <= opcode && opcode <= 0xBF {
        decode_imm16_to_reg(opcode, cursor, start)
    } else {
        Err(DecodeError::UnknownOpcode { opcode })
    }
}

/// The outcome of decoding a whole buffer: the lines in stream order, and
/// the truncation that stopped decoding early, if any.
#[derive(Debug)]
pub struct Listing {
    pub lines: Vec<Line>,
    pub error: Option<DecodeError>,
}

/// The instruction decoded at any offset has register numbers and `rm`
/// fields in range.
pub proof fn lemma_instruction_at_wf(s: Seq<u8>, p: int)
    requires
        0 <= p < s.len(),
        in_dispatch_table(s[p]),
        p + encoded_len(s, p) <= s.len(),
    ensures
        instruction_at(s, p).wf(),
{
    if is_modrm_opcode(s[p]) {
        let b = s[p + 1];
        assert((b >> 3) & 7 < 8 && b & 7 < 8) by (bit_vector);
    }
}

/// Every line of a listing has register numbers and `rm` fields in range.
pub proof fn lemma_listing_wf(s: Seq<u8>, p: int)
    ensures
        forall|k: int| 0 <= k < listing_from(s, p).0.len() ==> (#[trigger] listing_from(s, p).0[k]).wf(),
    decreases s.len() - p,
{
    if p < 0 || p >= s.len() {
    } else if s[p] == 0 {
        lemma_listing_wf(s, p + 1);
    } else if !in_dispatch_table(s[p]) {
        lemma_listing_wf(s, p + 1);
        let rest = listing_from(s, p + 1);
        assert forall|k: int| 0 <= k < listing_from(s, p).0.len() implies (#[trigger] listing_from(s, p).0[k]).wf() by {
            if k > 0 {
                assert(listing_from(s, p).0[k] == rest.0[k - 1]);
            }
        }
    } else if p + encoded_len(s, p) > s.len() {
    } else {
        lemma_instruction_at_wf(s, p);
        lemma_listing_wf(s, p + encoded_len(s, p));
        let rest = listing_from(s, p + encoded_len(s, p));
        assert forall|k: int| 0 <= k < listing_from(s, p).0.len() implies (#[trigger] listing_from(s, p).0[k]).wf() by {
            if k > 0 {
                assert(listing_from(s, p).0[k] == rest.0[k - 1]);
            }
        }
    }
}

/// Decodes the whole of `bytes`, front to back. Zero bytes where an
/// instruction would start are skipped; each unknown opcode gives one
/// diagnostic line; a truncated instruction stops decoding and is reported.
pub fn disassemble(bytes: &[u8]) -> (r: Listing)
    ensures
        r.lines@ == listing_of(bytes@).0,
        r.error == listing_of(bytes@).1,
        forall|k: int| 0 <= k < r.lines@.len() ==> (#[trigger] r.lines@[k]).wf(),
{
    let mut cursor = ByteCursor::new(bytes);
    let mut lines: Vec<Line> = Vec::new();
    proof {
        lemma_listing_wf(bytes@, 0);
    }
    loop
        invariant
            cursor.wf(),
            cursor.data() == bytes@,
            listing_of(bytes@).0 == lines@ + listing_from(bytes@, cursor.pos()).0,
            listing_of(bytes@).1 == listing_from(bytes@, cursor.pos()).1,
            forall|k: int| 0 <= k < listing_of(bytes@).0.len() ==> (#[trigger] listing_of(bytes@).0[k]).wf(),
        decreases bytes@.len() - cursor.pos(),
    {
        let ghost s = bytes@;
        let opcode = match cursor.next_byte() {
            Ok(b) => b,
            Err(_) => {
                assert(listing_of(s).0 =~= lines@);
                return Listing { lines, error: None };
            },
        };
        if opcode == 0 {
            continue;
        }
        match decode(opcode, &mut cursor) {
            Ok(i) => {
                lines.push(Line::Instruction(i));
                assert(listing_of(s).0 =~= lines@ + listing_from(s, cursor.pos()).0);
            },
            Err(DecodeError::UnknownOpcode { opcode }) => {
                lines.push(Line::UnknownOpcode(opcode));
                assert(listing_of(s).0 =~= lines@ + listing_from(s, cursor.pos()).0);
            },
            Err(e) => {
                assert(listing_of(s).0 =~= lines@);
                return Listing { lines, error: Some(e) };
            },
        }
    }
}

/// The text of each line of a listing.
pub open spec fn listing_text(lines: Seq<Line>) -> Seq<Seq<char>> {
    lines.map_values(|l: Line| line_text(l))
}

impl Listing {
    /// Renders each line of the listing as text, in order.
    pub fn render(&self) -> (r: Vec<String>)
        requires
            forall|k: int| 0 <= k < self.lines@.len() ==> (#[trigger] self.lines@[k]).wf(),
        ensures
            r@.len() == self.lines@.len(),
            forall|k: int| 0 <= k < r@.len() ==> (#[trigger] r@[k])@ == line_text(self.lines@[k]),
    {
        let mut out: Vec<String> = Vec::new();
        let mut k: usize = 0;
        while k < self.lines.len()
            invariant
                k <= self.lines@.len(),
                out@.len() == k,
                forall|j: int| 0 <= j < self.lines@.len() ==> (#[trigger] self.lines@[j]).wf(),
                forall|j: int| 0 <= j < k ==> (#[trigger] out@[j])@ == line_text(self.lines@[j]),
            decreases self.lines@.len() - k,
        {
            out.push(render_line(&self.lines[k]));
            k = k + 1;
        }
        out
    }
}

/// Decodes `bytes` and renders the lines as text: the lines, and the
/// truncation that stopped decoding early, if any.
pub fn disassemble_text(bytes: &[u8]) -> (r: (Vec<String>, Option<DecodeError>))
    ensures
        r.0@.len() == listing_of(bytes@).0.len(),
        forall|k: int| 0 <= k < r.0@.len() ==> (#[trigger] r.0@[k])@ == line_text(listing_of(bytes@).0[k]),
        r.1 == listing_of(bytes@).1,
{
    let listing = disassemble(bytes);
    let text = listing.render();
    (text, listing.error)
}

} // verus!
