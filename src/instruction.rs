use vstd::prelude::*;
use crate::tables::{base_expr, base_text, digit, digit_text, reg_name, reg_text, Width};

verus! {

/// The signed offset that a memory operand adds to its base expression.
#[derive(Clone, Copy, Debug, PartialEq, Eq, Structural)]
pub enum Displacement {
    Absent,
    Disp8(i8),
    Disp16(i16),
}

/// A literal value carried in the instruction bytes.
#[derive(Clone, Copy, Debug, PartialEq, Eq, Structural)]
pub enum Immediate {
    Imm8(i8),
    Imm16(i16),
}

/// One operand of an instruction.
#[derive(Clone, Copy, Debug, PartialEq, Eq, Structural)]
pub enum Operand {
    /// The register with number `index` in the table of `width`.
    Register { index: u8, width: Width },
    /// The memory at the base expression selected by `rm`, plus `disp`.
    Memory { rm: u8, disp: Displacement },
    Immediate(Immediate),
}

/// The operation an instruction performs.
#[derive(Clone, Copy, Debug, PartialEq, Eq, Structural)]
pub enum Mnemonic {
    Mov,
}

/// A decoded instruction: an operation, its destination and its source.
#[derive(Clone, Copy, Debug, PartialEq, Eq, Structural)]
pub struct Instruction {
    pub mnemonic: Mnemonic,
    pub dst: Operand,
    pub src: Operand,
}

/// One line of output: an instruction, or the diagnostic for a byte that
/// starts no known instruction.
#[derive(Clone, Copy, Debug, PartialEq, Eq, Structural)]
pub enum Line {
    Instruction(Instruction),
    UnknownOpcode(u8),
}

impl Operand {
    /// Register numbers and `rm` fields are three-bit values.
    pub open spec fn wf(self) -> bool {
        match self {
            Operand::Register { index, .. } => index < 8,
            Operand::Memory { rm, .. } => rm < 8,
            Operand::Immediate(_) => true,
        }
    }
}

impl Instruction {
    pub open spec fn wf(self) -> bool {
        self.dst.wf() && self.src.wf()
    }
}

impl Line {
    pub open spec fn wf(self) -> bool {
        match self {
            Line::Instruction(i) => i.wf(),
            Line::UnknownOpcode(_) => true,
        }
    }
}

/// The decimal digits of `n`, most significant first.
pub open spec fn decimal_text(n: nat) -> Seq<char>
    decreases n,
{
    if n < 10 {
        digit_text(n)
    } else {
        decimal_text(n / 10) + digit_text(n % 10)
    }
}

/// `v` in decimal, with a leading `-` when negative.
pub open spec fn signed_text(v: int) -> Seq<char> {
    if v < 0 {
        "-"@ + decimal_text((-v) as nat)
    } else {
        decimal_text(v as nat)
    }
}

/// `b` as two upper-case hexadecimal digits.
pub open spec fn hex_byte_text(b: u8) -> Seq<char> {
    digit_text((b / 16) as nat) + digit_text((b % 16) as nat)
}

/// What a displacement adds after the base expression: nothing, or
/// ` + ` and its signed value.
pub open spec fn disp_text(d: Displacement) -> Seq<char> {
    match d {
        Displacement::Absent => Seq::empty(),
        Displacement::Disp8(v) => " + "@ + signed_text(v as int),
        Displacement::Disp16(v) => " + "@ + signed_text(v as int),
    }
}

pub open spec fn immediate_value(i: Immediate) -> int {
    match i {
        Immediate::Imm8(v) => v as int,
        Immediate::Imm16(v) => v as int,
    }
}

pub open spec fn operand_text(o: Operand) -> Seq<char> {
    match o {
        Operand::Register { index, width } => reg_text(index, width),
        Operand::Memory { rm, disp } => "["@ + base_text(rm) + disp_text(disp) + "]"@,
        Operand::Immediate(i) => signed_text(immediate_value(i)),
    }
}

pub open spec fn mnemonic_text(m: Mnemonic) -> Seq<char> {
    match m {
        Mnemonic::Mov => "mov"@,
    }
}

/// `<mnemonic> <dst>, <src>`
pub open spec fn instruction_text(i: Instruction) -> Seq<char> {
    mnemonic_text(i.mnemonic) + " "@ + operand_text(i.dst) + ", "@ + operand_text(i.src)
}

pub open spec fn line_text(l: Line) -> Seq<char> {
    match l {
        Line::Instruction(i) => instruction_text(i),
        Line::UnknownOpcode(b) => "Unknown instruction: "@ + hex_byte_text(b),
    }
}

/// Appends the decimal digits of `n`.
pub fn push_decimal(s: &mut String, n: u16)
    ensures
        final(s)@ == old(s)@ + decimal_text(n as nat),
    decreases n,
{
    if n >= 10 {
        push_decimal(s, n / 10);
    }
    let d = digit((n % 10) as u8);
    s.append(d);
    assert(final(s)@ =~= old(s)@ + decimal_text(n as nat));
}

/// Appends `v` in signed decimal.
pub fn push_signed(s: &mut String, v: i16)
    ensures
        final(s)@ == old(s)@ + signed_text(v as int),
{
    if v < 0 {
        s.append("-");
        let m: u16 = (0 - (v as i32)) as u16;
        push_decimal(s, m);
        assert(final(s)@ =~= old(s)@ + signed_text(v as int));
    } else {
        push_decimal(s, v as u16);
    }
}

/// Appends the text of operand `o`.
pub fn push_operand(s: &mut String, o: &Operand)
    requires
        o.wf(),
    ensures
        final(s)@ == old(s)@ + operand_text(*o),
{
    match o {
        Operand::Register { index, width } => {
            s.append(reg_name(*index, *width));
        },
        Operand::Memory { rm, disp } => {
            s.append("[");
            s.append(base_expr(*rm));
            match disp {
                Displacement::Absent => {},
                Displacement::Disp8(v) => {
                    s.append(" + ");
                    push_signed(s, *v as i16);
                },
                Displacement::Disp16(v) => {
                    s.append(" + ");
                    push_signed(s, *v);
                },
            }
            s.append("]");
            assert(final(s)@ =~= old(s)@ + operand_text(*o));
        },
        Operand::Immediate(i) => match i {
            Immediate::Imm8(v) => push_signed(s, *v as i16),
            Immediate::Imm16(v) => push_signed(s, *v),
        },
    }
}

/// Renders an instruction as one line of assembly text.
pub fn render_instruction(i: &Instruction) -> (r: String)
    requires
        i.wf(),
    ensures
        r@ == instruction_text(*i),
{
    let mut s = String::new();
    match i.mnemonic {
        Mnemonic::Mov => s.append("mov"),
    }
    s.append(" ");
    push_operand(&mut s, &i.dst);
    s.append(", ");
    push_operand(&mut s, &i.src);
    assert(s@ =~= instruction_text(*i));
    s
}

/// Renders `b` as two upper-case hexadecimal digits.
pub fn hex_byte(b: u8) -> (r: String)
    ensures
        r@ == hex_byte_text(b),
{
    let mut s = String::new();
    s.append(digit(b / 16));
    s.append(digit(b % 16));
    assert(s@ =~= hex_byte_text(b));
    s
}

/// Renders one line of output.
pub fn render_line(l: &Line) -> (r: String)
    requires
        l.wf(),
    ensures
        r@ == line_text(*l),
{
    match l {
        Line::Instruction(i) => render_instruction(i),
        Line::UnknownOpcode(b) => {
            let mut s = String::new();
            s.append("Unknown instruction: ");
            let h = hex_byte(*b);
            s.append(h.as_str());
            assert(s@ =~= line_text(*l));
            s
        },
    }
}

} // verus!
