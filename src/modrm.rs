use vstd::prelude::*;

verus! {

/// How the `rm` field of a ModRM byte is to be read.
#[derive(Clone, Copy, Debug, PartialEq, Eq, Structural)]
pub enum Mode {
    /// `mod = 00`: memory, with no displacement.
    MemoryNoDisp,
    /// `mod = 01`: memory, with a one-byte displacement.
    MemoryDisp8,
    /// `mod = 10`: memory, with a two-byte displacement.
    MemoryDisp16,
    /// `mod = 11`: `rm` names a register.
    RegisterDirect,
}

/// The three fields of a ModRM byte.
#[derive(Clone, Copy, Debug, PartialEq, Eq, Structural)]
pub struct ModRM {
    pub mode: Mode,
    pub reg: u8,
    pub rm: u8,
}

/// The addressing mode that the two top bits `bits` of a ModRM byte select.
pub open spec fn mode_of_bits(bits: u8) -> Mode {
    if bits == 0 {
        Mode::MemoryNoDisp
    } else if bits == 1 {
        Mode::MemoryDisp8
    } else if bits == 2 {
        Mode::MemoryDisp16
    } else {
        Mode::RegisterDirect
    }
}

/// The ModRM triple that the byte `b` encodes.
pub open spec fn modrm_of(b: u8) -> ModRM {
    ModRM { mode: mode_of_bits(b >> 6), reg: (b >> 3) & 7, rm: b & 7 }
}

/// How many displacement bytes follow a ModRM byte in mode `m`.
pub open spec fn disp_len(m: Mode) -> nat {
    match m {
        Mode::MemoryDisp8 => 1,
        Mode::MemoryDisp16 => 2,
        _ => 0,
    }
}

impl ModRM {
    /// The fields are in range: `reg` and `rm` are three-bit values.
    pub open spec fn wf(self) -> bool {
        self.reg < 8 && self.rm < 8
    }

    /// Splits a ModRM byte into `mode`, `reg` and `rm`. Total over all bytes.
    pub fn from_byte(b: u8) -> (r: ModRM)
        ensures
            r == modrm_of(b),
            r.mode == mode_of_bits(b >> 6),
            r.reg == (b >> 3) & 7,
            r.rm == b & 7,
            r.wf(),
    {
        let bits: u8 = b >> 6;
        let mode = if bits == 0 {
            Mode::MemoryNoDisp
        } else if bits == 1 {
            Mode::MemoryDisp8
        } else if bits == 2 {
            Mode::MemoryDisp16
        } else {
            Mode::RegisterDirect
        };
        let reg: u8 = (b >> 3) & 7;
        let rm: u8 = b & 7;
        assert(reg < 8 && rm < 8) by (bit_vector)
            requires
                reg == (b >> 3) & 7,
                rm == b & 7,
        ;
        ModRM { mode, reg, rm }
    }

    /// Whether both operands of the instruction are registers.
    pub fn is_register_direct(&self) -> (r: bool)
        ensures
            r == (self.mode == Mode::RegisterDirect),
    {
        match self.mode {
            Mode::RegisterDirect => true,
            _ => false,
        }
    }
}

} // verus!
