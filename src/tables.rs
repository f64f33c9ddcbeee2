use vstd::prelude::*;

verus! {

/// The width of a register operand, which selects its name table.
#[derive(Clone, Copy, Debug, PartialEq, Eq, Structural)]
pub enum Width {
    /// `al, cl, dl, bl, ah, ch, dh, bh`
    Byte,
    /// `ax, cx, dx, bx, sp, bp, si, di`
    Word,
}

/// The name of 8-bit register `i`.
pub open spec fn reg8_text(i: u8) -> Seq<char> {
    if i == 0 {
        "al"@
    } else if i == 1 {
        "cl"@
    } else if i == 2 {
        "dl"@
    } else if i == 3 {
        "bl"@
    } else if i == 4 {
        "ah"@
    } else if i == 5 {
        "ch"@
    } else if i == 6 {
        "dh"@
    } else {
        "bh"@
    }
}

/// The name of 16-bit register `i`.
pub open spec fn reg16_text(i: u8) -> Seq<char> {
    if i == 0 {
        "ax"@
    } else if i == 1 {
        "cx"@
    } else if i == 2 {
        "dx"@
    } else if i == 3 {
        "bx"@
    } else if i == 4 {
        "sp"@
    } else if i == 5 {
        "bp"@
    } else if i == 6 {
        "si"@
    } else {
        "di"@
    }
}

/// The name of register `i` of width `w`.
pub open spec fn reg_text(i: u8, w: Width) -> Seq<char> {
    match w {
        Width::Byte => reg8_text(i),
        Width::Word => reg16_text(i),
    }
}

/// The base expression of a memory operand whose `rm` field is `rm`.
/// `rm = 6` reads as `bp` in every memory mode, also where no displacement
/// follows.
pub open spec fn base_text(rm: u8) -> Seq<char> {
    if rm == 0 {
        "bx + si"@
    } else if rm == 1 {
        "bx + di"@
    } else if rm == 2 {
        "bp + si"@
    } else if rm == 3 {
        "bp + di"@
    } else if rm == 4 {
        "si"@
    } else if rm == 5 {
        "di"@
    } else if rm == 6 {
        "bp"@
    } else {
        "bx"@
    }
}

/// The digit `d` (below sixteen), in upper case.
pub open spec fn digit_text(d: nat) -> Seq<char> {
    if d == 0 {
        "0"@
    } else if d == 1 {
        "1"@
    } else if d == 2 {
        "2"@
    } else if d == 3 {
        "3"@
    } else if d == 4 {
        "4"@
    } else if d == 5 {
        "5"@
    } else if d == 6 {
        "6"@
    } else if d == 7 {
        "7"@
    } else if d == 8 {
        "8"@
    } else if d == 9 {
        "9"@
    } else if d == 10 {
        "A"@
    } else if d == 11 {
        "B"@
    } else if d == 12 {
        "C"@
    } else if d == 13 {
        "D"@
    } else if d == 14 {
        "E"@
    } else {
        "F"@
    }
}

/// Looks up the name of 8-bit register `i`.
pub fn reg8_name(i: u8) -> (r: &'static str)
    requires
        i < 8,
    ensures
        r@ == reg8_text(i),
{
    if i == 0 {
        "al"
    } else if i == 1 {
        "cl"
    } else if i == 2 {
        "dl"
    } else if i == 3 {
        "bl"
    } else if i == 4 {
        "ah"
    } else if i == 5 {
        "ch"
    } else if i == 6 {
        "dh"
    } else {
        "bh"
    }
}

/// Looks up the name of 16-bit register `i`.
pub fn reg16_name(i: u8) -> (r: &'static str)
    requires
        i < 8,
    ensures
        r@ == reg16_text(i),
{
    if i == 0 {
        "ax"
    } else if i == 1 {
        "cx"
    } else if i == 2 {
        "dx"
    } else if i == 3 {
        "bx"
    } else if i == 4 {
        "sp"
    } else if i == 5 {
        "bp"
    } else if i == 6 {
        "si"
    } else {
        "di"
    }
}

/// Looks up the name of register `i` of width `w`.
pub fn reg_name(i: u8, w: Width) -> (r: &'static str)
    requires
        i < 8,
    ensures
        r@ == reg_text(i, w),
{
    match w {
        Width::Byte => reg8_name(i),
        Width::Word => reg16_name(i),
    }
}

/// Looks up the base expression for the `rm` field `rm`.
pub fn base_expr(rm: u8) -> (r: &'static str)
    requires
        rm < 8,
    ensures
        r@ == base_text(rm),
{
    if rm == 0 {
        "bx + si"
    } else if rm == 1 {
        "bx + di"
    } else if rm == 2 {
        "bp + si"
    } else if rm == 3 {
        "bp + di"
    } else if rm == 4 {
        "si"
    } else if rm == 5 {
        "di"
    } else if rm == 6 {
        "bp"
    } else {
        "bx"
    }
}

/// Looks up the upper-case digit `d`.
pub fn digit(d: u8) -> (r: &'static str)
    requires
        d < 16,
    ensures
        r@ == digit_text(d as nat),
{
    if d == 0 {
        "0"
    } else if d == 1 {
        "1"
    } else if d == 2 {
        "2"
    } else if d == 3 {
        "3"
    } else if d == 4 {
        "4"
    } else if d == 5 {
        "5"
    } else if d == 6 {
        "6"
    } else if d == 7 {
        "7"
    } else if d == 8 {
        "8"
    } else if d == 9 {
        "9"
    } else if d == 10 {
        "A"
    } else if d == 11 {
        "B"
    } else if d == 12 {
        "C"
    } else if d == 13 {
        "D"
    } else if d == 14 {
        "E"
    } else {
        "F"
    }
}

} // verus!
