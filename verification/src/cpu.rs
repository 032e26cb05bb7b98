//! The SM83-family CPU: the register file, the four condition flags,
//! and the instruction interpreter with its interrupt dispatch and
//! HALT handling.
//!
//! DI and EI toggle the interrupt master enable immediately; the
//! one-instruction delay real hardware gives EI is deliberately not
//! modeled, and the interrupt poll at the start of the next step sees
//! the new value.
//!
//! The accumulator-only rotates (RLCA, RLA, RRCA, RRA) leave the Z
//! flag untouched, per the flag table this crate implements.  SM83
//! silicon instead forces Z to zero on these four instructions, and a
//! single-step conformance corpus recorded from hardware will expect
//! that; holding this crate to such a corpus needs that one rule
//! changed, in the flag table and here together.

use vstd::prelude::*;
use crate::memory::{Memory, MemV, mem_read, mem_read_16, mem_write, mem_write_16, mem_wf};
use crate::state::{InitialState, FinalState, CpuMismatch, RegName};

verus! {

/// The four condition flags, each held as 0 or 1.  They form the high
/// nibble of the virtual F register; the low nibble of F always reads
/// as zero.
#[derive(Clone, Copy, Debug, PartialEq, Eq, Structural)]
pub struct Flags {
    pub z: u8,
    pub n: u8,
    pub h: u8,
    pub cy: u8,
}

impl Flags {
    /// Each flag is a single bit.
    pub open spec fn wf(self) -> bool {
        self.z <= 1 && self.n <= 1 && self.h <= 1 && self.cy <= 1
    }

    /// The packed F register: Z in bit 7, N in bit 6, H in bit 5, C in
    /// bit 4, low nibble zero.
    pub open spec fn spec_f(self) -> u8 {
        (self.z * 128 + self.n * 64 + self.h * 32 + self.cy * 16) as u8
    }
}

/// A 16-bit register pair addressable as two 8-bit halves.
#[derive(Clone, Copy, Debug, PartialEq, Eq, Structural)]
pub struct Register {
    pub low: u8,
    pub high: u8,
}

impl Register {
    /// The combined 16-bit value.
    pub open spec fn spec_full(self) -> u16 {
        (self.high * 256 + self.low) as u16
    }

    pub fn new() -> (r: Register)
        ensures
            r.low == 0,
            r.high == 0,
    {
        Register { low: 0, high: 0 }
    }

    pub fn full(&self) -> (v: u16)
        ensures
            v == self.spec_full(),
    {
        (self.high as u16) * 256 + (self.low as u16)
    }

    pub fn set_full(&mut self, v: u16)
        ensures
            final(self).low == v % 256,
            final(self).high == v / 256,
            final(self).spec_full() == v,
    {
        self.low = (v % 256) as u8;
        self.high = (v / 256) as u8;
    }
}

/// A name for one 8-bit register.
#[derive(Clone, Copy, Debug, PartialEq, Eq, Structural)]
pub enum Register8 {
    A,
    B,
    C,
    D,
    E,
    H,
    L,
    F,
}

/// A name for one 16-bit register.
#[derive(Clone, Copy, Debug, PartialEq, Eq, Structural)]
pub enum Register16 {
    BC,
    DE,
    HL,
    SP,
    PC,
}

/// A fatal fetch of an opcode outside the implemented set: the opcode
/// and the address it was fetched from.
#[derive(Clone, Copy, Debug, PartialEq, Eq, Structural)]
pub struct Fault {
    pub opcode: u8,
    pub addr: u16,
}

pub struct CPU {
    pub a: u8,
    pub flags: Flags,
    pub bc: Register,
    pub de: Register,
    pub hl: Register,
    pub sp: u16,
    pub pc: u16,
    pub ime: bool,
    pub halt: bool,
}

pub open spec fn cpu_wf(c: CPU) -> bool {
    c.flags.wf()
}

// ---------------------------------------------------------------------
// Scalar helpers.
// ---------------------------------------------------------------------

/// 1 for true, 0 for false.
pub open spec fn b2u(b: bool) -> u8 {
    if b {
        1
    } else {
        0
    }
}

/// A 16-bit address or counter reduced modulo 0x10000.
pub open spec fn wrap16(v: int) -> u16 {
    (v % 0x10000) as u16
}

/// An 8-bit increment, wrapping at 0xff.
pub open spec fn inc8(v: u8) -> u8 {
    if v == 0xff {
        0
    } else {
        (v + 1) as u8
    }
}

/// An 8-bit decrement, wrapping at 0.
pub open spec fn dec8(v: u8) -> u8 {
    if v == 0 {
        0xff
    } else {
        (v - 1) as u8
    }
}

/// A 16-bit increment, wrapping at 0xffff.
pub open spec fn inc16(v: u16) -> u16 {
    if v == 0xffff {
        0
    } else {
        (v + 1) as u16
    }
}

/// A 16-bit decrement, wrapping at 0.
pub open spec fn dec16(v: u16) -> u16 {
    if v == 0 {
        0xffff
    } else {
        (v - 1) as u16
    }
}

broadcast use crate::bits::lemma_low_nibble_bound, crate::bits::lemma_low_bit_bound, crate::bits::lemma_high_bit_bound;

/// The half-carry of an 8-bit addition: carry out of bit 3.
pub open spec fn h_add(a: u8, b: u8) -> bool {
    (a & 0x0f) + (b & 0x0f) > 0x0f
}

/// The half-borrow of an 8-bit subtraction: borrow into bit 4.
pub open spec fn h_sub(a: u8, b: u8) -> bool {
    (b & 0x0f) > (a & 0x0f)
}

/// The half-carry of a 16-bit addition: carry out of bit 11, tested by
/// the XOR of the operands and the truncated sum against 0x1000.
pub open spec fn h_add16(a: u16, b: u16) -> bool {
    (a ^ b ^ (((a + b) % 0x10000) as u16)) & 0x1000 != 0
}

/// The three-operand half-carry test used by ADC and SBC: the XOR of
/// both operands and the result against bit 4 folds the carry in.
pub open spec fn h_carry3(a: u8, b: u8, r: u8) -> bool {
    (a ^ b ^ r) & 0x10 != 0
}

// ---------------------------------------------------------------------
// Register file access.
// ---------------------------------------------------------------------

/// The value of an 8-bit register; F reads as the packed flags.
pub open spec fn spec_reg8(c: CPU, r: Register8) -> u8 {
    match r {
        Register8::A => c.a,
        Register8::B => c.bc.high,
        Register8::C => c.bc.low,
        Register8::D => c.de.high,
        Register8::E => c.de.low,
        Register8::H => c.hl.high,
        Register8::L => c.hl.low,
        Register8::F => c.flags.spec_f(),
    }
}

/// The CPU with one 8-bit register replaced (F is not writable this
/// way and is left unchanged).
pub open spec fn with_reg8(c: CPU, r: Register8, v: u8) -> CPU
    recommends
        r != Register8::F,
{
    match r {
        Register8::A => CPU { a: v, ..c },
        Register8::B => CPU { bc: Register { high: v, ..c.bc }, ..c },
        Register8::C => CPU { bc: Register { low: v, ..c.bc }, ..c },
        Register8::D => CPU { de: Register { high: v, ..c.de }, ..c },
        Register8::E => CPU { de: Register { low: v, ..c.de }, ..c },
        Register8::H => CPU { hl: Register { high: v, ..c.hl }, ..c },
        Register8::L => CPU { hl: Register { low: v, ..c.hl }, ..c },
        Register8::F => c,
    }
}

/// The value of a 16-bit register.
pub open spec fn spec_reg16(c: CPU, r: Register16) -> u16 {
    match r {
        Register16::BC => c.bc.spec_full(),
        Register16::DE => c.de.spec_full(),
        Register16::HL => c.hl.spec_full(),
        Register16::SP => c.sp,
        Register16::PC => c.pc,
    }
}

/// The CPU with one 16-bit register replaced.
pub open spec fn with_reg16(c: CPU, r: Register16, v: u16) -> CPU {
    match r {
        Register16::BC => CPU { bc: Register { low: (v % 256) as u8, high: (v / 256) as u8 }, ..c },
        Register16::DE => CPU { de: Register { low: (v % 256) as u8, high: (v / 256) as u8 }, ..c },
        Register16::HL => CPU { hl: Register { low: (v % 256) as u8, high: (v / 256) as u8 }, ..c },
        Register16::SP => CPU { sp: v, ..c },
        Register16::PC => CPU { pc: v, ..c },
    }
}

/// The CPU with the flags replaced.
pub open spec fn with_flags(c: CPU, f: Flags) -> CPU {
    CPU { flags: f, ..c }
}

impl CPU {
    pub fn new() -> (c: CPU)
        ensures
            c == spec_cpu_init(),
    {
        CPU {
            a: 0,
            flags: Flags { z: 0, n: 0, h: 0, cy: 0 },
            bc: Register::new(),
            de: Register::new(),
            hl: Register::new(),
            sp: 0,
            pc: 0,
            ime: false,
            halt: false,
        }
    }

    /// Sets the register and flag values the boot ROM leaves behind.
    pub fn simulate_bootloader(&mut self)
        ensures
            *final(self) == spec_cpu_boot(*old(self)),
            cpu_wf(*final(self)),
    {
        self.a = 0x01;
        self.bc.high = 0;
        self.bc.low = 0x13;
        self.de.high = 0;
        self.de.low = 0xd8;
        self.hl.high = 0x01;
        self.hl.low = 0x4d;
        self.flags.z = 1;
        self.flags.n = 0;
        self.flags.h = 1;
        self.flags.cy = 1;
        self.sp = 0xfffe;
        self.pc = 0x100;
    }

    pub fn get_register_8(&self, reg: &Register8) -> (v: u8)
        requires
            cpu_wf(*self),
        ensures
            v == spec_reg8(*self, *reg),
    {
        match reg {
            Register8::A => self.a,
            Register8::B => self.bc.high,
            Register8::C => self.bc.low,
            Register8::D => self.de.high,
            Register8::E => self.de.low,
            Register8::H => self.hl.high,
            Register8::L => self.hl.low,
            Register8::F => self.flags.z * 128 + self.flags.n * 64 + self.flags.h * 32
                + self.flags.cy * 16,
        }
    }

    pub fn get_register_16(&self, reg: &Register16) -> (v: u16)
        ensures
            v == spec_reg16(*self, *reg),
    {
        match reg {
            Register16::BC => self.bc.full(),
            Register16::DE => self.de.full(),
            Register16::HL => self.hl.full(),
            Register16::SP => self.sp,
            Register16::PC => self.pc,
        }
    }

    /// F is not writable as a plain register.
    pub fn set_register_8(&mut self, reg: &Register8, val: u8)
        requires
            *reg != Register8::F,
        ensures
            *final(self) == with_reg8(*old(self), *reg, val),
    {
        match reg {
            Register8::A => self.a = val,
            Register8::B => self.bc.high = val,
            Register8::C => self.bc.low = val,
            Register8::D => self.de.high = val,
            Register8::E => self.de.low = val,
            Register8::H => self.hl.high = val,
            Register8::L => self.hl.low = val,
            Register8::F => (),
        }
    }

    pub fn set_register_16(&mut self, reg: &Register16, val: u16)
        ensures
            *final(self) == with_reg16(*old(self), *reg, val),
    {
        match reg {
            Register16::BC => self.bc.set_full(val),
            Register16::DE => self.de.set_full(val),
            Register16::HL => self.hl.set_full(val),
            Register16::SP => self.sp = val,
            Register16::PC => self.pc = val,
        }
    }
}

// ---------------------------------------------------------------------
// Arithmetic and logic results.
// ---------------------------------------------------------------------

/// 8-bit addition, truncated.
pub open spec fn add8(a: u8, b: u8) -> u8 {
    ((a + b) % 256) as u8
}

/// 8-bit subtraction, wrapping.
pub open spec fn sub8(a: u8, b: u8) -> u8 {
    (((a + 0x100) - b) % 256) as u8
}

/// 8-bit add with carry in, truncated.
pub open spec fn adc8(a: u8, b: u8, cy: u8) -> u8 {
    ((a + b + cy) % 256) as u8
}

/// 8-bit subtract with borrow in, wrapping.
pub open spec fn sbc8(a: u8, b: u8, cy: u8) -> u8 {
    (((a + 0x200) - b - cy) % 256) as u8
}

/// ADD to A: full Z/N/H/C.
pub open spec fn alu_add(c: CPU, val: u8) -> CPU {
    let r = add8(c.a, val);
    CPU {
        a: r,
        flags: Flags {
            z: b2u(r == 0),
            n: 0,
            h: b2u(h_add(c.a, val)),
            cy: b2u(c.a + val > 0xff),
        },
        ..c
    }
}

/// SUB from A: full Z/N/H/C.
pub open spec fn alu_sub(c: CPU, val: u8) -> CPU {
    let r = sub8(c.a, val);
    CPU {
        a: r,
        flags: Flags { z: b2u(r == 0), n: 1, h: b2u(h_sub(c.a, val)), cy: b2u(c.a < val) },
        ..c
    }
}

/// ADC to A: the carry folds into both the value and the half-carry
/// test.
pub open spec fn alu_adc(c: CPU, val: u8) -> CPU {
    let r = adc8(c.a, val, c.flags.cy);
    CPU {
        a: r,
        flags: Flags {
            z: b2u(r == 0),
            n: 0,
            h: b2u(h_carry3(c.a, val, r)),
            cy: b2u(c.a + val + c.flags.cy > 0xff),
        },
        ..c
    }
}

/// SBC from A: the borrow folds into both the value and the half-carry
/// test.
pub open spec fn alu_sbc(c: CPU, val: u8) -> CPU {
    let r = sbc8(c.a, val, c.flags.cy);
    CPU {
        a: r,
        flags: Flags {
            z: b2u(r == 0),
            n: 1,
            h: b2u(h_carry3(c.a, val, r)),
            cy: b2u((c.a as int) < val + c.flags.cy),
        },
        ..c
    }
}

/// AND with A: H set, C clear.
pub open spec fn alu_and(c: CPU, val: u8) -> CPU {
    let r = c.a & val;
    CPU { a: r, flags: Flags { z: b2u(r == 0), n: 0, h: 1, cy: 0 }, ..c }
}

/// XOR with A: H and C clear.
pub open spec fn alu_xor(c: CPU, val: u8) -> CPU {
    let r = c.a ^ val;
    CPU { a: r, flags: Flags { z: b2u(r == 0), n: 0, h: 0, cy: 0 }, ..c }
}

/// OR with A: H and C clear.
pub open spec fn alu_or(c: CPU, val: u8) -> CPU {
    let r = c.a | val;
    CPU { a: r, flags: Flags { z: b2u(r == 0), n: 0, h: 0, cy: 0 }, ..c }
}

/// CP: the flags of a subtraction, A unchanged.
pub open spec fn alu_cp(c: CPU, val: u8) -> CPU {
    CPU {
        flags: Flags { z: b2u(c.a == val), n: 1, h: b2u(h_sub(c.a, val)), cy: b2u(c.a < val) },
        ..c
    }
}

/// The flags INC leaves: Z and H from the increment, N clear, C
/// untouched.
pub open spec fn flags_inc8(f: Flags, o: u8) -> Flags {
    Flags { z: b2u(inc8(o) == 0), n: 0, h: b2u(h_add(o, 1)), cy: f.cy }
}

/// The flags DEC leaves: Z and H from the decrement, N set, C
/// untouched.
pub open spec fn flags_dec8(f: Flags, o: u8) -> Flags {
    Flags { z: b2u(dec8(o) == 0), n: 1, h: b2u(h_sub(o, 1)), cy: f.cy }
}

/// ADD HL,rr: H from bit 11, C from bit 15, N clear, Z untouched.
pub open spec fn add_hl16(c: CPU, v: u16) -> CPU {
    let hl = c.hl.spec_full();
    let r = wrap16(hl + v);
    CPU {
        hl: Register { low: (r % 256) as u8, high: (r / 256) as u8 },
        flags: Flags { z: c.flags.z, n: 0, h: b2u(h_add16(hl, v)), cy: b2u(hl + v > 0xffff) },
        ..c
    }
}

// ---------------------------------------------------------------------
// Rotates, shifts and bit operations.
// ---------------------------------------------------------------------

/// Rotate left by one.
pub open spec fn rlc8(v: u8) -> u8 {
    (v << 1) | (v >> 7)
}

/// Rotate left through carry.
pub open spec fn rl8(v: u8, cy: u8) -> u8 {
    (v << 1) | cy
}

/// Rotate right by one.
pub open spec fn rrc8(v: u8) -> u8 {
    (v >> 1) | (v << 7)
}

/// Rotate right through carry.
pub open spec fn rr8(v: u8, cy: u8) -> u8 {
    ((v >> 1) & 0x7f) | (cy << 7)
}

/// Shift left arithmetic.
pub open spec fn sla8(v: u8) -> u8 {
    v << 1
}

/// Shift right arithmetic: bit 7 is kept.
pub open spec fn sra8(v: u8) -> u8 {
    (v >> 1) | (v & 0x80)
}

/// Shift right logical.
pub open spec fn srl8(v: u8) -> u8 {
    v >> 1
}

/// Swap the nibbles.
pub open spec fn swap8(v: u8) -> u8 {
    (v << 4) | (v >> 4)
}

/// The flags every rotate and shift leaves: H and N clear, the carry
/// out in C, and Z from the result for the CB-prefixed forms
/// (`check_z`) or carried through untouched for the accumulator-only
/// forms.
pub open spec fn flags_rot(f: Flags, res: u8, cy: u8, check_z: bool) -> Flags {
    Flags {
        z: if check_z {
            b2u(res == 0)
        } else {
            f.z
        },
        n: 0,
        h: 0,
        cy,
    }
}

/// The DAA correction: the value A is adjusted to and the carry flag
/// it leaves, decided by N, H, C.
pub open spec fn daa8(a: u8, f: Flags) -> (u8, u8) {
    if f.n == 0 {
        let a1 = if f.h > 0 || a & 0x0f > 0x09 {
            add8(a, 0x06)
        } else {
            a
        };
        if f.cy > 0 || a1 > 0x9f {
            (add8(a1, 0x60), 1u8)
        } else {
            (a1, f.cy)
        }
    } else {
        let a1 = if f.h > 0 {
            sub8(a, 0x06)
        } else {
            a
        };
        let a2 = if f.cy > 0 {
            sub8(a1, 0x60)
        } else {
            a1
        };
        (a2, f.cy)
    }
}

/// The relative-jump target: the signed 8-bit displacement added to
/// the program counter, wrapping modulo 0x10000.
pub open spec fn rel_target(pc: u16, s8: u8) -> u16 {
    if s8 & 0x80 != 0 {
        wrap16(pc - (0x100 - s8))
    } else {
        wrap16(pc + s8)
    }
}

/// The SP+s8 result used by ADD SP,s8 and LD HL,SP+s8.
pub open spec fn sp_offset(sp: u16, s8: u8) -> u16 {
    if s8 & 0x80 != 0 {
        wrap16(sp - (0x100 - s8))
    } else {
        wrap16(sp + s8)
    }
}

/// The H and C flags of SP+s8: the XOR of the operands and the result
/// over 32-bit arithmetic, tested against bits 4 and 8.
pub open spec fn sp_offset_flags(sp: u16, s8: u8) -> Flags {
    if s8 & 0x80 != 0 {
        let abs = (0x100 - s8) as u16;
        let result = ((sp as i32) - (abs as i32)) as i32;
        let neg = (-(abs as i32)) as i32;
        let fx = (sp as i32) ^ neg ^ result;
        Flags { z: 0, n: 0, h: b2u(fx & 0x10 != 0), cy: b2u(fx & 0x100 != 0) }
    } else {
        let abs = s8 as u16;
        let result = ((sp as i32) + (abs as i32)) as i32;
        let fx = (sp as i32) ^ (abs as i32) ^ result;
        Flags { z: 0, n: 0, h: b2u(fx & 0x10 != 0), cy: b2u(fx & 0x100 != 0) }
    }
}

impl CPU {
    fn inc_register_8(&mut self, reg: Register8)
        requires
            reg != Register8::F,
        ensures
            *final(self) == with_flags(
                with_reg8(*old(self), reg, inc8(spec_reg8(*old(self), reg))),
                flags_inc8(old(self).flags, spec_reg8(*old(self), reg)),
            ),
    {
        let orig = self.get_register_8_raw(reg);
        let value = if orig == 0xff {
            0
        } else {
            orig + 1
        };
        self.flags.z = if value == 0 {
            1
        } else {
            0
        };
        self.flags.n = 0;
        self.flags.h = if (orig & 0x0f) + (1u8 & 0x0f) > 0x0f {
            1
        } else {
            0
        };
        self.set_register_8(&reg, value);
    }

    fn dec_register_8(&mut self, reg: Register8)
        requires
            reg != Register8::F,
        ensures
            *final(self) == with_flags(
                with_reg8(*old(self), reg, dec8(spec_reg8(*old(self), reg))),
                flags_dec8(old(self).flags, spec_reg8(*old(self), reg)),
            ),
    {
        let orig = self.get_register_8_raw(reg);
        let value = if orig == 0 {
            0xff
        } else {
            orig - 1
        };
        self.flags.z = if value == 0 {
            1
        } else {
            0
        };
        self.flags.n = 1;
        self.flags.h = if (1u8 & 0x0f) > (orig & 0x0f) {
            1
        } else {
            0
        };
        self.set_register_8(&reg, value);
    }

    /// Register read for non-F registers, without a well-formedness
    /// obligation on the flags.
    fn get_register_8_raw(&self, reg: Register8) -> (v: u8)
        requires
            reg != Register8::F,
        ensures
            v == spec_reg8(*self, reg),
    {
        match reg {
            Register8::A => self.a,
            Register8::B => self.bc.high,
            Register8::C => self.bc.low,
            Register8::D => self.de.high,
            Register8::E => self.de.low,
            Register8::H => self.hl.high,
            Register8::L => self.hl.low,
            Register8::F => 0,
        }
    }

    fn inc_register_16(&mut self, reg: Register16)
        ensures
            *final(self) == with_reg16(*old(self), reg, inc16(spec_reg16(*old(self), reg))),
    {
        let orig = self.get_register_16(&reg);
        let value = if orig == 0xffff {
            0
        } else {
            orig + 1
        };
        self.set_register_16(&reg, value);
    }

    fn dec_register_16(&mut self, reg: Register16)
        ensures
            *final(self) == with_reg16(*old(self), reg, dec16(spec_reg16(*old(self), reg))),
    {
        let orig = self.get_register_16(&reg);
        let value = if orig == 0 {
            0xffff
        } else {
            orig - 1
        };
        self.set_register_16(&reg, value);
    }

    fn inc_mem(&mut self, mem: &mut Memory, addr: u16)
        requires
            mem_wf(old(mem)@),
        ensures
            ({
                let o = mem_read(old(mem)@, addr);
                &&& final(mem)@ == mem_write(old(mem)@, addr, inc8(o))
                &&& *final(self) == with_flags(*old(self), flags_inc8(old(self).flags, o))
            }),
            mem_wf(final(mem)@),
    {
        let orig = mem.read(addr);
        let value = if orig == 0xff {
            0
        } else {
            orig + 1
        };
        self.flags.z = if value == 0 {
            1
        } else {
            0
        };
        self.flags.n = 0;
        self.flags.h = if (orig & 0x0f) + (1u8 & 0x0f) > 0x0f {
            1
        } else {
            0
        };
        mem.write(addr, value);
    }

    fn dec_mem(&mut self, mem: &mut Memory, addr: u16)
        requires
            mem_wf(old(mem)@),
        ensures
            ({
                let o = mem_read(old(mem)@, addr);
                &&& final(mem)@ == mem_write(old(mem)@, addr, dec8(o))
                &&& *final(self) == with_flags(*old(self), flags_dec8(old(self).flags, o))
            }),
            mem_wf(final(mem)@),
    {
        let orig = mem.read(addr);
        let value = if orig == 0 {
            0xff
        } else {
            orig - 1
        };
        self.flags.z = if value == 0 {
            1
        } else {
            0
        };
        self.flags.n = 1;
        self.flags.h = if (1u8 & 0x0f) > (orig & 0x0f) {
            1
        } else {
            0
        };
        mem.write(addr, value);
    }

    fn add_hl(&mut self, reg: Register16)
        ensures
            *final(self) == add_hl16(*old(self), spec_reg16(*old(self), reg)),
    {
        let reg_val = self.get_register_16(&reg);
        let hl = self.hl.full();
        let sum: u32 = (hl as u32) + (reg_val as u32);
        let value = (sum % 0x10000) as u16;
        let h = (hl ^ reg_val ^ value) & 0x1000 != 0;
        self.hl.set_full(value);
        self.flags.n = 0;
        self.flags.cy = if sum > 0xffff {
            1
        } else {
            0
        };
        self.flags.h = if h {
            1
        } else {
            0
        };
    }

    fn jump_relative(&mut self, s8: u8)
        ensures
            *final(self) == (CPU { pc: rel_target(old(self).pc, s8), ..*old(self) }),
    {
        if s8 & 0x80 != 0 {
            let d: u16 = 0x100 - (s8 as u16);
            self.pc = self.pc.wrapping_sub(d);
        } else {
            self.pc = self.pc.wrapping_add(s8 as u16);
        }
    }

    fn add_to_a(&mut self, val: u8)
        ensures
            *final(self) == alu_add(*old(self), val),
    {
        let sum: u16 = (self.a as u16) + (val as u16);
        let value = (sum % 256) as u8;
        self.flags.h = if (self.a & 0x0f) + (val & 0x0f) > 0x0f {
            1
        } else {
            0
        };
        self.flags.n = 0;
        self.flags.cy = if sum > 0xff {
            1
        } else {
            0
        };
        self.flags.z = if value == 0 {
            1
        } else {
            0
        };
        self.a = value;
    }

    fn sub_from_a(&mut self, val: u8)
        ensures
            *final(self) == alu_sub(*old(self), val),
    {
        let diff: u16 = ((self.a as u16) + 0x100) - (val as u16);
        let value = (diff % 256) as u8;
        self.flags.h = if (val & 0x0f) > (self.a & 0x0f) {
            1
        } else {
            0
        };
        self.flags.n = 1;
        self.flags.cy = if self.a < val {
            1
        } else {
            0
        };
        self.flags.z = if value == 0 {
            1
        } else {
            0
        };
        self.a = value;
    }

    fn adc_to_a(&mut self, val: u8)
        requires
            cpu_wf(*old(self)),
        ensures
            *final(self) == alu_adc(*old(self), val),
    {
        let cy = self.flags.cy;
        let sum: u16 = (self.a as u16) + (val as u16) + (cy as u16);
        let value = (sum % 256) as u8;
        self.flags.h = if (self.a ^ val ^ value) & 0x10 != 0 {
            1
        } else {
            0
        };
        self.flags.n = 0;
        self.flags.cy = if sum > 0xff {
            1
        } else {
            0
        };
        self.flags.z = if value == 0 {
            1
        } else {
            0
        };
        self.a = value;
    }

    fn sbc_from_a(&mut self, val: u8)
        requires
            cpu_wf(*old(self)),
        ensures
            *final(self) == alu_sbc(*old(self), val),
    {
        let cy = self.flags.cy;
        let diff: u16 = ((self.a as u16) + 0x200) - (val as u16) - (cy as u16);
        let value = (diff % 256) as u8;
        self.flags.h = if (self.a ^ val ^ value) & 0x10 != 0 {
            1
        } else {
            0
        };
        self.flags.n = 1;
        self.flags.cy = if (self.a as u16) < (val as u16) + (cy as u16) {
            1
        } else {
            0
        };
        self.flags.z = if value == 0 {
            1
        } else {
            0
        };
        self.a = value;
    }

    fn and_a(&mut self, val: u8)
        ensures
            *final(self) == alu_and(*old(self), val),
    {
        let value = self.a & val;
        self.flags.h = 1;
        self.flags.cy = 0;
        self.flags.n = 0;
        self.flags.z = if value == 0 {
            1
        } else {
            0
        };
        self.a = value;
    }

    fn xor_a(&mut self, val: u8)
        ensures
            *final(self) == alu_xor(*old(self), val),
    {
        let value = self.a ^ val;
        self.flags.h = 0;
        self.flags.cy = 0;
        self.flags.n = 0;
        self.flags.z = if value == 0 {
            1
        } else {
            0
        };
        self.a = value;
    }

    fn or_a(&mut self, val: u8)
        ensures
            *final(self) == alu_or(*old(self), val),
    {
        let value = self.a | val;
        self.flags.h = 0;
        self.flags.cy = 0;
        self.flags.n = 0;
        self.flags.z = if value == 0 {
            1
        } else {
            0
        };
        self.a = value;
    }

    fn cp(&mut self, a: u8, b: u8)
        ensures
            *final(self) == (CPU {
                flags: Flags { z: b2u(a == b), n: 1, h: b2u(h_sub(a, b)), cy: b2u(a < b) },
                ..*old(self)
            }),
    {
        self.flags.z = if a == b {
            1
        } else {
            0
        };
        self.flags.n = 1;
        self.flags.h = if (b & 0x0f) > (a & 0x0f) {
            1
        } else {
            0
        };
        self.flags.cy = if a < b {
            1
        } else {
            0
        };
    }

    fn pop(&mut self, mem: &Memory) -> (value: u16)
        requires
            mem_wf(mem@),
        ensures
            value == mem_read_16(mem@, old(self).sp),
            *final(self) == (CPU { sp: wrap16(old(self).sp + 2), ..*old(self) }),
    {
        let addr = self.sp;
        let value = mem.read_16(addr);
        self.sp = addr.wrapping_add(2);
        value
    }

    fn push(&mut self, mem: &mut Memory, value: u16)
        requires
            mem_wf(old(mem)@),
        ensures
            final(mem)@ == mem_write_16(old(mem)@, wrap16(old(self).sp - 2), value),
            mem_wf(final(mem)@),
            *final(self) == (CPU { sp: wrap16(old(self).sp - 2), ..*old(self) }),
            final(mem).test_mode == old(mem).test_mode,
            final(mem).new_graphics == old(mem).new_graphics,
    {
        let addr = self.sp.wrapping_sub(2);
        mem.write_16(addr, value);
        self.sp = addr;
    }

    fn set_interrupt(&mut self, value: bool)
        ensures
            *final(self) == (CPU { ime: value, ..*old(self) }),
    {
        self.ime = value;
    }

    fn rlc(&mut self, reg: Register8, check_z: bool)
        requires
            reg != Register8::F,
        ensures
            ({
                let o = spec_reg8(*old(self), reg);
                *final(self) == with_flags(
                    with_reg8(*old(self), reg, rlc8(o)),
                    flags_rot(old(self).flags, rlc8(o), rlc8(o) & 0x01, check_z),
                )
            }),
    {
        let orig = self.get_register_8_raw(reg);
        let value = (orig << 1) | (orig >> 7);
        self.set_register_8(&reg, value);
        self.flags.cy = value & 0x01;
        self.flags.h = 0;
        if check_z {
            self.flags.z = if value == 0 {
                1
            } else {
                0
            };
        }
        self.flags.n = 0;
    }

    fn rl(&mut self, reg: Register8, check_z: bool)
        requires
            reg != Register8::F,
            cpu_wf(*old(self)),
        ensures
            ({
                let o = spec_reg8(*old(self), reg);
                *final(self) == with_flags(
                    with_reg8(*old(self), reg, rl8(o, old(self).flags.cy)),
                    flags_rot(old(self).flags, rl8(o, old(self).flags.cy), o >> 7, check_z),
                )
            }),
    {
        let orig = self.get_register_8_raw(reg);
        let value = (orig << 1) | self.flags.cy;
        self.flags.cy = orig >> 7;
        self.set_register_8(&reg, value);
        self.flags.h = 0;
        if check_z {
            self.flags.z = if value == 0 {
                1
            } else {
                0
            };
        }
        self.flags.n = 0;
    }

    fn rrc(&mut self, reg: Register8, check_z: bool)
        requires
            reg != Register8::F,
        ensures
            ({
                let o = spec_reg8(*old(self), reg);
                *final(self) == with_flags(
                    with_reg8(*old(self), reg, rrc8(o)),
                    flags_rot(old(self).flags, rrc8(o), (rrc8(o) >> 7) & 0x01, check_z),
                )
            }),
    {
        let orig = self.get_register_8_raw(reg);
        let value = (orig >> 1) | (orig << 7);
        self.set_register_8(&reg, value);
        self.flags.cy = (value >> 7) & 0x01;
        self.flags.h = 0;
        if check_z {
            self.flags.z = if value == 0 {
                1
            } else {
                0
            };
        }
        self.flags.n = 0;
    }

    fn rr(&mut self, reg: Register8, check_z: bool)
        requires
            reg != Register8::F,
            cpu_wf(*old(self)),
        ensures
            ({
                let o = spec_reg8(*old(self), reg);
                *final(self) == with_flags(
                    with_reg8(*old(self), reg, rr8(o, old(self).flags.cy)),
                    flags_rot(old(self).flags, rr8(o, old(self).flags.cy), o & 0x01, check_z),
                )
            }),
    {
        let orig = self.get_register_8_raw(reg);
        let value = ((orig >> 1) & 0x7f) | (self.flags.cy << 7);
        self.flags.cy = orig & 0x01;
        self.set_register_8(&reg, value);
        self.flags.h = 0;
        if check_z {
            self.flags.z = if value == 0 {
                1
            } else {
                0
            };
        }
        self.flags.n = 0;
    }

    fn sl(&mut self, reg: Register8)
        requires
            reg != Register8::F,
        ensures
            ({
                let o = spec_reg8(*old(self), reg);
                *final(self) == with_flags(
                    with_reg8(*old(self), reg, sla8(o)),
                    flags_rot(old(self).flags, sla8(o), b2u(o & 0x80 == 0x80), true),
                )
            }),
    {
        let orig = self.get_register_8_raw(reg);
        let val = orig << 1;
        self.set_register_8(&reg, val);
        self.flags.cy = if (orig & 0x80) == 0x80 {
            1
        } else {
            0
        };
        self.flags.z = if val == 0 {
            1
        } else {
            0
        };
        self.flags.n = 0;
        self.flags.h = 0;
    }

    fn sra(&mut self, reg: Register8)
        requires
            reg != Register8::F,
        ensures
            ({
                let o = spec_reg8(*old(self), reg);
                *final(self) == with_flags(
                    with_reg8(*old(self), reg, sra8(o)),
                    flags_rot(old(self).flags, sra8(o), b2u(o & 0x01 == 0x01), true),
                )
            }),
    {
        let orig = self.get_register_8_raw(reg);
        let val = (orig >> 1) | (orig & 0x80);
        self.set_register_8(&reg, val);
        self.flags.cy = if (orig & 0x01) == 0x01 {
            1
        } else {
            0
        };
        self.flags.z = if val == 0 {
            1
        } else {
            0
        };
        self.flags.n = 0;
        self.flags.h = 0;
    }

    fn srl(&mut self, reg: Register8)
        requires
            reg != Register8::F,
        ensures
            ({
                let o = spec_reg8(*old(self), reg);
                *final(self) == with_flags(
                    with_reg8(*old(self), reg, srl8(o)),
                    flags_rot(old(self).flags, srl8(o), b2u(o & 0x01 == 0x01), true),
                )
            }),
    {
        let orig = self.get_register_8_raw(reg);
        let val = orig >> 1;
        self.set_register_8(&reg, val);
        self.flags.cy = if (orig & 0x01) == 0x01 {
            1
        } else {
            0
        };
        self.flags.z = if val == 0 {
            1
        } else {
            0
        };
        self.flags.n = 0;
        self.flags.h = 0;
    }

    /// BIT b,r: Z tells whether the bit is clear; H set, N clear, C
    /// untouched.
    fn bit(&mut self, reg: Register8, bit: u8)
        requires
            reg != Register8::F,
            bit < 8,
        ensures
            *final(self) == with_flags(
                *old(self),
                Flags {
                    z: b2u(spec_reg8(*old(self), reg) & ((1u8 << bit) as u8) == 0),
                    n: 0,
                    h: 1,
                    cy: old(self).flags.cy,
                },
            ),
    {
        let val = self.get_register_8_raw(reg);
        let test = 1u8 << bit;
        self.flags.z = if val & test == 0 {
            1
        } else {
            0
        };
        self.flags.n = 0;
        self.flags.h = 1;
    }

    fn res(&mut self, reg: Register8, bit: u8)
        requires
            reg != Register8::F,
            bit < 8,
        ensures
            *final(self) == with_reg8(
                *old(self),
                reg,
                spec_reg8(*old(self), reg) & (!((1u8 << bit) as u8)),
            ),
    {
        let orig = self.get_register_8_raw(reg);
        let val = orig & !(1u8 << bit);
        self.set_register_8(&reg, val);
    }

    fn set(&mut self, reg: Register8, bit: u8)
        requires
            reg != Register8::F,
            bit < 8,
        ensures
            *final(self) == with_reg8(
                *old(self),
                reg,
                spec_reg8(*old(self), reg) | ((1u8 << bit) as u8),
            ),
    {
        let orig = self.get_register_8_raw(reg);
        let val = orig | (1u8 << bit);
        self.set_register_8(&reg, val);
    }

    fn swap(&mut self, reg: Register8)
        requires
            reg != Register8::F,
        ensures
            ({
                let o = spec_reg8(*old(self), reg);
                *final(self) == with_flags(
                    with_reg8(*old(self), reg, swap8(o)),
                    flags_rot(old(self).flags, swap8(o), 0, true),
                )
            }),
    {
        let orig = self.get_register_8_raw(reg);
        let value = (orig << 4) | (orig >> 4);
        self.set_register_8(&reg, value);
        self.flags.z = if value == 0 {
            1
        } else {
            0
        };
        self.flags.cy = 0;
        self.flags.n = 0;
        self.flags.h = 0;
    }

    /// DAA: BCD-adjusts A using N, H and C; sets Z from the result,
    /// clears H, and sets or keeps C per the correction.
    fn daa(&mut self)
        requires
            cpu_wf(*old(self)),
        ensures
            ({
                let (v, cy) = daa8(old(self).a, old(self).flags);
                *final(self) == (CPU {
                    a: v,
                    flags: Flags { z: b2u(v == 0), n: old(self).flags.n, h: 0, cy },
                    ..*old(self)
                })
            }),
    {
        let mut a: u16 = self.a as u16;
        if self.flags.n == 0 {
            if self.flags.h > 0 || (self.a & 0x0f) > 0x09 {
                a = (a + 0x06) % 256;
            }
            if self.flags.cy > 0 || a > 0x9f {
                a = (a + 0x60) % 256;
                self.flags.cy = 1;
            }
        } else {
            if self.flags.h > 0 {
                a = (a + 0x100 - 0x06) % 256;
            }
            if self.flags.cy > 0 {
                a = (a + 0x100 - 0x60) % 256;
            }
        }
        let value = a as u8;
        self.flags.z = if value == 0 {
            1
        } else {
            0
        };
        self.flags.h = 0;
        self.a = value;
    }
}

/// The executable side of `idx_reg8`.
fn reg_for_idx(i: u8) -> (r: Register8)
    requires
        i < 8,
        i != 6,
    ensures
        r == idx_reg8(i as int),
        r != Register8::F,
{
    if i == 0 {
        Register8::B
    } else if i == 1 {
        Register8::C
    } else if i == 2 {
        Register8::D
    } else if i == 3 {
        Register8::E
    } else if i == 4 {
        Register8::H
    } else if i == 5 {
        Register8::L
    } else {
        Register8::A
    }
}

/// The executable side of `idx_reg16`.
fn reg16_for_idx(i: u8) -> (r: Register16)
    requires
        i < 4,
    ensures
        r == idx_reg16(i as int),
{
    if i == 0 {
        Register16::BC
    } else if i == 1 {
        Register16::DE
    } else if i == 2 {
        Register16::HL
    } else {
        Register16::SP
    }
}

impl CPU {
    /// The executable side of `cond_holds`.
    fn cond_check(&self, cc: u8) -> (b: bool)
        requires
            cc < 4,
        ensures
            b == cond_holds(self.flags, cc as int),
    {
        if cc == 0 {
            self.flags.z == 0
        } else if cc == 1 {
            self.flags.z == 1
        } else if cc == 2 {
            self.flags.cy == 0
        } else {
            self.flags.cy == 1
        }
    }

    /// Reads the operand a three-bit field names: a register, or the
    /// byte at (HL) for index 6.
    fn read_operand(&self, mem: &Memory, src: u8) -> (v: u8)
        requires
            src < 8,
            mem_wf(mem@),
        ensures
            v == if src == 6 {
                mem_read(mem@, self.hl.spec_full())
            } else {
                spec_reg8(*self, idx_reg8(src as int))
            },
    {
        if src == 6 {
            mem.read(self.hl.full())
        } else {
            self.get_register_8_raw(reg_for_idx(src))
        }
    }

    /// The LD quarter of the primary table.
    fn op_ld(&mut self, mem: &mut Memory, op: u8) -> (cycles: u8)
        requires
            0x40 <= op < 0x80,
            cpu_wf(*old(self)),
            mem_wf(old(mem)@),
        ensures
            ({
                let s = step_ld(*old(self), old(mem)@, op);
                &&& *final(self) == s.0
                &&& final(mem)@ == s.1
                &&& cycles == s.2
            }),
            1 <= cycles <= 6,
            cpu_wf(*final(self)),
            mem_wf(final(mem)@),
    {
        proof {
            reveal(step_ld);
        }
        if op == 0x76 {
            self.halt = true;
            return 1;
        }
        let dst = (op - 0x40) / 8;
        let src = op % 8;
        let v = self.read_operand(mem, src);
        if dst == 6 {
            let addr = self.hl.full();
            mem.write(addr, v);
            2
        } else {
            self.set_register_8(&reg_for_idx(dst), v);
            if src == 6 {
                2
            } else {
                1
            }
        }
    }

    /// The ALU quarter of the primary table.
    fn op_alu(&mut self, mem: &mut Memory, op: u8) -> (cycles: u8)
        requires
            0x80 <= op < 0xc0,
            cpu_wf(*old(self)),
            mem_wf(old(mem)@),
        ensures
            ({
                let s = step_alu(*old(self), old(mem)@, op);
                &&& *final(self) == s.0
                &&& final(mem)@ == s.1
                &&& cycles == s.2
            }),
            1 <= cycles <= 6,
            cpu_wf(*final(self)),
            mem_wf(final(mem)@),
    {
        proof {
            reveal(step_alu);
        }
        let k = (op - 0x80) / 8;
        let src = op % 8;
        let v = self.read_operand(mem, src);
        self.alu_dispatch(k, v);
        if src == 6 {
            2
        } else {
            1
        }
    }

    /// The executable side of `alu_apply`.
    fn alu_dispatch(&mut self, k: u8, v: u8)
        requires
            k < 8,
            cpu_wf(*old(self)),
        ensures
            *final(self) == alu_apply(*old(self), k as int, v),
            cpu_wf(*final(self)),
    {
        if k == 0 {
            self.add_to_a(v);
        } else if k == 1 {
            self.adc_to_a(v);
        } else if k == 2 {
            self.sub_from_a(v);
        } else if k == 3 {
            self.sbc_from_a(v);
        } else if k == 4 {
            self.and_a(v);
        } else if k == 5 {
            self.xor_a(v);
        } else if k == 6 {
            self.or_a(v);
        } else {
            let a = self.a;
            self.cp(a, v);
        }
    }

    /// The CB-prefixed secondary table, decoded by a nested fetch.
    fn op_16(&mut self, mem: &mut Memory) -> (cycles: u8)
        requires
            cpu_wf(*old(self)),
            mem_wf(old(mem)@),
        ensures
            ({
                let s = cb_step(*old(self), old(mem)@);
                &&& *final(self) == s.0
                &&& final(mem)@ == s.1
                &&& cycles == s.2
            }),
            1 <= cycles <= 6,
            cpu_wf(*final(self)),
            mem_wf(final(mem)@),
    {
        let op = mem.read(self.pc);
        self.pc = self.pc.wrapping_add(1);
        if op < 0x40 {
            if op % 8 == 6 {
                self.cb_rot_hl(mem, op)
            } else {
                self.cb_rot_reg(mem, op)
            }
        } else if op < 0x80 {
            self.cb_bit(mem, op)
        } else if op < 0xc0 {
            self.cb_res(mem, op)
        } else {
            self.cb_set(mem, op)
        }
    }

    /// A CB-prefixed rotate or shift of the (HL) byte.
    #[verifier::spinoff_prover]
    #[verifier::rlimit(50)]
    fn cb_rot_hl(&mut self, mem: &mut Memory, op: u8) -> (cycles: u8)
        requires
            cpu_wf(*old(self)),
            mem_wf(old(mem)@),
            op < 0x40,
            op % 8 == 6,
        ensures
            ({
                let s = cb_dispatch(*old(self), old(mem)@, op);
                &&& *final(self) == s.0
                &&& final(mem)@ == s.1
                &&& cycles == s.2
            }),
            1 <= cycles <= 6,
            cpu_wf(*final(self)),
            mem_wf(final(mem)@),
    {
        proof {
            reveal(cb_dispatch);
        }
        let g = op / 8;
        let addr = self.hl.full();
        let v = mem.read(addr);
        let cy_in = self.flags.cy;
        let r: u8;
        let cy_out: u8;
        if g == 0 {
            r = (v << 1) | (v >> 7);
            cy_out = r & 0x01;
        } else if g == 1 {
            r = (v >> 1) | (v << 7);
            cy_out = (r >> 7) & 0x01;
        } else if g == 2 {
            r = (v << 1) | cy_in;
            cy_out = v >> 7;
        } else if g == 3 {
            r = ((v >> 1) & 0x7f) | (cy_in << 7);
            cy_out = v & 0x01;
        } else if g == 4 {
            r = v << 1;
            cy_out = if v & 0x80 == 0x80 {
                1
            } else {
                0
            };
        } else if g == 5 {
            r = (v >> 1) | (v & 0x80);
            cy_out = if v & 0x01 == 0x01 {
                1
            } else {
                0
            };
        } else if g == 6 {
            r = (v << 4) | (v >> 4);
            cy_out = 0;
        } else {
            r = v >> 1;
            cy_out = if v & 0x01 == 0x01 {
                1
            } else {
                0
            };
        }
        mem.write(addr, r);
        self.flags.z = if r == 0 {
            1
        } else {
            0
        };
        self.flags.n = 0;
        self.flags.h = 0;
        self.flags.cy = cy_out;
        4
    }

    /// A CB-prefixed rotate or shift of a register.
    #[verifier::spinoff_prover]
    #[verifier::rlimit(50)]
    fn cb_rot_reg(&mut self, mem: &mut Memory, op: u8) -> (cycles: u8)
        requires
            cpu_wf(*old(self)),
            mem_wf(old(mem)@),
            op < 0x40,
            op % 8 != 6,
        ensures
            ({
                let s = cb_dispatch(*old(self), old(mem)@, op);
                &&& *final(self) == s.0
                &&& final(mem)@ == s.1
                &&& cycles == s.2
            }),
            1 <= cycles <= 6,
            cpu_wf(*final(self)),
            mem_wf(final(mem)@),
    {
        proof {
            reveal(cb_dispatch);
        }
        let g = op / 8;
        let reg = reg_for_idx(op % 8);
        if g == 0 {
            self.rlc(reg, true);
        } else if g == 1 {
            self.rrc(reg, true);
        } else if g == 2 {
            self.rl(reg, true);
        } else if g == 3 {
            self.rr(reg, true);
        } else if g == 4 {
            self.sl(reg);
        } else if g == 5 {
            self.sra(reg);
        } else if g == 6 {
            self.swap(reg);
        } else {
            self.srl(reg);
        }
        2
    }

    /// CB-prefixed BIT over a register or (HL).
    #[verifier::spinoff_prover]
    #[verifier::rlimit(50)]
    fn cb_bit(&mut self, mem: &mut Memory, op: u8) -> (cycles: u8)
        requires
            cpu_wf(*old(self)),
            mem_wf(old(mem)@),
            0x40 <= op < 0x80,
        ensures
            ({
                let s = cb_dispatch(*old(self), old(mem)@, op);
                &&& *final(self) == s.0
                &&& final(mem)@ == s.1
                &&& cycles == s.2
            }),
            1 <= cycles <= 6,
            cpu_wf(*final(self)),
            mem_wf(final(mem)@),
    {
        proof {
            reveal(cb_dispatch);
        }
        let src = op % 8;
        let b = (op - 0x40) / 8;
        if src == 6 {
            let v = mem.read(self.hl.full());
            self.flags.z = if v & (1u8 << b) == 0 {
                1
            } else {
                0
            };
            self.flags.n = 0;
            self.flags.h = 1;
            4
        } else {
            self.bit(reg_for_idx(src), b);
            2
        }
    }

    /// CB-prefixed RES over a register or (HL).
    #[verifier::spinoff_prover]
    #[verifier::rlimit(50)]
    fn cb_res(&mut self, mem: &mut Memory, op: u8) -> (cycles: u8)
        requires
            cpu_wf(*old(self)),
            mem_wf(old(mem)@),
            0x80 <= op < 0xc0,
        ensures
            ({
                let s = cb_dispatch(*old(self), old(mem)@, op);
                &&& *final(self) == s.0
                &&& final(mem)@ == s.1
                &&& cycles == s.2
            }),
            1 <= cycles <= 6,
            cpu_wf(*final(self)),
            mem_wf(final(mem)@),
    {
        proof {
            reveal(cb_dispatch);
        }
        let src = op % 8;
        let b = (op - 0x80) / 8;
        if src == 6 {
            let addr = self.hl.full();
            let v = mem.read(addr);
            mem.write(addr, v & !(1u8 << b));
            4
        } else {
            self.res(reg_for_idx(src), b);
            2
        }
    }

    /// CB-prefixed SET over a register or (HL).
    #[verifier::spinoff_prover]
    #[verifier::rlimit(50)]
    fn cb_set(&mut self, mem: &mut Memory, op: u8) -> (cycles: u8)
        requires
            cpu_wf(*old(self)),
            mem_wf(old(mem)@),
            0xc0 <= op,
        ensures
            ({
                let s = cb_dispatch(*old(self), old(mem)@, op);
                &&& *final(self) == s.0
                &&& final(mem)@ == s.1
                &&& cycles == s.2
            }),
            1 <= cycles <= 6,
            cpu_wf(*final(self)),
            mem_wf(final(mem)@),
    {
        proof {
            reveal(cb_dispatch);
        }
        let src = op % 8;
        let b = (op - 0xc0) / 8;
        if src == 6 {
            let addr = self.hl.full();
            let v = mem.read(addr);
            mem.write(addr, v | (1u8 << b));
            4
        } else {
            self.set(reg_for_idx(src), b);
            2
        }
    }
}

impl CPU {
    /// The first quarter of the primary table.
    fn op_0x(&mut self, mem: &mut Memory, op: u8) -> (cycles: u8)
        requires
            op < 0x40,
            op != 0x10,
            cpu_wf(*old(self)),
            mem_wf(old(mem)@),
        ensures
            ({
                let s = step_0x(*old(self), old(mem)@, op);
                &&& *final(self) == s.0
                &&& final(mem)@ == s.1
                &&& cycles == s.2
            }),
            1 <= cycles <= 6,
            cpu_wf(*final(self)),
            mem_wf(final(mem)@),
    {
        proof {
            reveal(step_0x);
        }
        let col = op % 8;
        if col == 0 {
            self.op_0x_jr(mem, op)
        } else if col == 1 {
            self.op_0x_ld16(mem, op)
        } else if col == 2 {
            self.op_0x_ldmem(mem, op)
        } else if col == 3 {
            let row = op / 8;
            let rr = reg16_for_idx(row / 2);
            if row % 2 == 0 {
                self.inc_register_16(rr);
            } else {
                self.dec_register_16(rr);
            }
            2
        } else if col == 4 || col == 5 {
            self.op_0x_incdec(mem, op)
        } else if col == 6 {
            self.op_0x_ld8(mem, op)
        } else {
            self.op_0x_acc(mem, op)
        }
    }

    /// NOP, LD (a16),SP and the relative jumps.
    #[verifier::spinoff_prover]
    #[verifier::rlimit(100)]
    fn op_0x_jr(&mut self, mem: &mut Memory, op: u8) -> (cycles: u8)
        requires
            op < 0x40,
            op != 0x10,
            op % 8 == 0,
            cpu_wf(*old(self)),
            mem_wf(old(mem)@),
        ensures
            ({
                let s = step_0x(*old(self), old(mem)@, op);
                &&& *final(self) == s.0
                &&& final(mem)@ == s.1
                &&& cycles == s.2
            }),
            1 <= cycles <= 6,
            cpu_wf(*final(self)),
            mem_wf(final(mem)@),
    {
        proof {
            reveal(step_0x);
        }
        if op == 0x00 {
            return 1;
        }
        if op == 0x08 {
            let a16 = mem.read_16(self.pc);
            let sp = self.sp;
            self.pc = self.pc.wrapping_add(2);
            mem.write_16(a16, sp);
            return 5;
        }
        let s8 = mem.read(self.pc);
        self.pc = self.pc.wrapping_add(1);
        if op == 0x18 {
            self.jump_relative(s8);
            return 3;
        }
        let cc = (op - 0x20) / 8;
        if self.cond_check(cc) {
            self.jump_relative(s8);
            3
        } else {
            2
        }
    }

    /// LD rr,d16 and ADD HL,rr.
    #[verifier::spinoff_prover]
    #[verifier::rlimit(100)]
    fn op_0x_ld16(&mut self, mem: &mut Memory, op: u8) -> (cycles: u8)
        requires
            op < 0x40,
            op % 8 == 1,
            cpu_wf(*old(self)),
            mem_wf(old(mem)@),
        ensures
            ({
                let s = step_0x(*old(self), old(mem)@, op);
                &&& *final(self) == s.0
                &&& final(mem)@ == s.1
                &&& cycles == s.2
            }),
            1 <= cycles <= 6,
            cpu_wf(*final(self)),
            mem_wf(final(mem)@),
    {
        proof {
            reveal(step_0x);
        }
        let row = op / 8;
        let rr = reg16_for_idx(row / 2);
        if row % 2 == 0 {
            let v = mem.read_16(self.pc);
            self.pc = self.pc.wrapping_add(2);
            self.set_register_16(&rr, v);
            3
        } else {
            self.add_hl(rr);
            2
        }
    }

    /// The indirect accumulator loads and stores through BC, DE and
    /// the post-incrementing and post-decrementing HL forms.
    #[verifier::spinoff_prover]
    #[verifier::rlimit(100)]
    fn op_0x_ldmem(&mut self, mem: &mut Memory, op: u8) -> (cycles: u8)
        requires
            op < 0x40,
            op % 8 == 2,
            cpu_wf(*old(self)),
            mem_wf(old(mem)@),
        ensures
            ({
                let s = step_0x(*old(self), old(mem)@, op);
                &&& *final(self) == s.0
                &&& final(mem)@ == s.1
                &&& cycles == s.2
            }),
            1 <= cycles <= 6,
            cpu_wf(*final(self)),
            mem_wf(final(mem)@),
    {
        proof {
            reveal(step_0x);
        }
        let row = op / 8;
        let hl = self.hl.full();
        let addr = if row < 2 {
            self.bc.full()
        } else if row < 4 {
            self.de.full()
        } else {
            hl
        };
        if row == 4 || row == 5 {
            let nhl = if hl == 0xffff {
                0
            } else {
                hl + 1
            };
            self.hl.set_full(nhl);
        }
        if row == 6 || row == 7 {
            let nhl = if hl == 0 {
                0xffff
            } else {
                hl - 1
            };
            self.hl.set_full(nhl);
        }
        if row % 2 == 0 {
            let a = self.a;
            mem.write(addr, a);
        } else {
            let v = mem.read(addr);
            self.a = v;
        }
        2
    }

    /// INC r and DEC r, register or (HL).
    #[verifier::spinoff_prover]
    #[verifier::rlimit(100)]
    fn op_0x_incdec(&mut self, mem: &mut Memory, op: u8) -> (cycles: u8)
        requires
            op < 0x40,
            op % 8 == 4 || op % 8 == 5,
            cpu_wf(*old(self)),
            mem_wf(old(mem)@),
        ensures
            ({
                let s = step_0x(*old(self), old(mem)@, op);
                &&& *final(self) == s.0
                &&& final(mem)@ == s.1
                &&& cycles == s.2
            }),
            1 <= cycles <= 6,
            cpu_wf(*final(self)),
            mem_wf(final(mem)@),
    {
        proof {
            reveal(step_0x);
        }
        let col = op % 8;
        let row = op / 8;
        if row == 6 {
            let addr = self.hl.full();
            if col == 4 {
                self.inc_mem(mem, addr);
            } else {
                self.dec_mem(mem, addr);
            }
            3
        } else {
            let r = reg_for_idx(row);
            if col == 4 {
                self.inc_register_8(r);
            } else {
                self.dec_register_8(r);
            }
            1
        }
    }

    /// LD r,d8 and LD (HL),d8.
    #[verifier::spinoff_prover]
    #[verifier::rlimit(100)]
    fn op_0x_ld8(&mut self, mem: &mut Memory, op: u8) -> (cycles: u8)
        requires
            op < 0x40,
            op % 8 == 6,
            cpu_wf(*old(self)),
            mem_wf(old(mem)@),
        ensures
            ({
                let s = step_0x(*old(self), old(mem)@, op);
                &&& *final(self) == s.0
                &&& final(mem)@ == s.1
                &&& cycles == s.2
            }),
            1 <= cycles <= 6,
            cpu_wf(*final(self)),
            mem_wf(final(mem)@),
    {
        proof {
            reveal(step_0x);
        }
        let row = op / 8;
        let d8 = mem.read(self.pc);
        self.pc = self.pc.wrapping_add(1);
        if row == 6 {
            let addr = self.hl.full();
            mem.write(addr, d8);
            3
        } else {
            self.set_register_8(&reg_for_idx(row), d8);
            2
        }
    }

    /// The accumulator rotates, DAA, CPL, SCF and CCF.
    #[verifier::spinoff_prover]
    #[verifier::rlimit(100)]
    fn op_0x_acc(&mut self, mem: &mut Memory, op: u8) -> (cycles: u8)
        requires
            op < 0x40,
            op % 8 == 7,
            cpu_wf(*old(self)),
            mem_wf(old(mem)@),
        ensures
            ({
                let s = step_0x(*old(self), old(mem)@, op);
                &&& *final(self) == s.0
                &&& final(mem)@ == s.1
                &&& cycles == s.2
            }),
            1 <= cycles <= 6,
            cpu_wf(*final(self)),
            mem_wf(final(mem)@),
    {
        proof {
            reveal(step_0x);
        }
        if op == 0x07 {
            self.rlc(Register8::A, false);
        } else if op == 0x0f {
            self.rrc(Register8::A, false);
        } else if op == 0x17 {
            self.rl(Register8::A, false);
        } else if op == 0x1f {
            self.rr(Register8::A, false);
        } else if op == 0x27 {
            self.daa();
        } else if op == 0x2f {
            let v = !self.a;
            self.a = v;
            self.flags.n = 1;
            self.flags.h = 1;
        } else if op == 0x37 {
            self.flags.cy = 1;
            self.flags.h = 0;
            self.flags.n = 0;
        } else {
            self.flags.cy = if self.flags.cy > 0 {
                0
            } else {
                1
            };
            self.flags.n = 0;
            self.flags.h = 0;
        }
        1
    }

    /// The last quarter of the primary table.
    fn op_ctrl(&mut self, mem: &mut Memory, op: u8) -> (cycles: u8)
        requires
            0xc0 <= op,
            !spec_unimplemented(op),
            cpu_wf(*old(self)),
            mem_wf(old(mem)@),
        ensures
            ({
                let s = step_ctrl(*old(self), old(mem)@, op);
                &&& *final(self) == s.0
                &&& final(mem)@ == s.1
                &&& cycles == s.2
            }),
            1 <= cycles <= 6,
            cpu_wf(*final(self)),
            mem_wf(final(mem)@),
    {
        proof {
            reveal(step_ctrl);
        }
        if op == 0xcb {
            return self.op_16(mem);
        }
        let col = op % 8;
        let row = (op - 0xc0) / 8;
        if col == 0 && row < 4 {
            self.ctrl_ret_cc(mem, op)
        } else if col == 7 {
            self.ctrl_rst(mem, op)
        } else if col == 6 {
            self.ctrl_alu_d8(mem, op)
        } else if col == 1 && row % 2 == 0 {
            self.ctrl_pop(mem, op)
        } else if col == 5 && row % 2 == 0 {
            self.ctrl_push(mem, op)
        } else if col == 2 && row < 4 {
            self.ctrl_jp_cc(mem, op)
        } else if col == 4 && row < 4 {
            self.ctrl_call_cc(mem, op)
        } else {
            self.ctrl_misc(mem, op)
        }
    }

    /// The conditional returns.
    #[verifier::spinoff_prover]
    #[verifier::rlimit(100)]
    fn ctrl_ret_cc(&mut self, mem: &mut Memory, op: u8) -> (cycles: u8)
        requires
            0xc0 <= op,
            op % 8 == 0,
            (op - 0xc0) / 8 < 4,
            cpu_wf(*old(self)),
            mem_wf(old(mem)@),
        ensures
            ({
                let s = step_ctrl(*old(self), old(mem)@, op);
                &&& *final(self) == s.0
                &&& final(mem)@ == s.1
                &&& cycles == s.2
            }),
            1 <= cycles <= 6,
            cpu_wf(*final(self)),
            mem_wf(final(mem)@),
    {
        proof {
            reveal(step_ctrl);
        }
        let row = (op - 0xc0) / 8;
        if self.cond_check(row) {
            let v = self.pop(mem);
            self.pc = v;
            5
        } else {
            2
        }
    }

    /// The RST column: push PC and enter a fixed low vector.
    #[verifier::spinoff_prover]
    #[verifier::rlimit(100)]
    fn ctrl_rst(&mut self, mem: &mut Memory, op: u8) -> (cycles: u8)
        requires
            0xc0 <= op,
            op % 8 == 7,
            cpu_wf(*old(self)),
            mem_wf(old(mem)@),
        ensures
            ({
                let s = step_ctrl(*old(self), old(mem)@, op);
                &&& *final(self) == s.0
                &&& final(mem)@ == s.1
                &&& cycles == s.2
            }),
            1 <= cycles <= 6,
            cpu_wf(*final(self)),
            mem_wf(final(mem)@),
    {
        proof {
            reveal(step_ctrl);
        }
        let row = (op - 0xc0) / 8;
        let pc = self.pc;
        self.push(mem, pc);
        self.pc = 8 * (row as u16);
        4
    }

    /// The immediate ALU column.
    #[verifier::spinoff_prover]
    #[verifier::rlimit(100)]
    fn ctrl_alu_d8(&mut self, mem: &mut Memory, op: u8) -> (cycles: u8)
        requires
            0xc0 <= op,
            op % 8 == 6,
            cpu_wf(*old(self)),
            mem_wf(old(mem)@),
        ensures
            ({
                let s = step_ctrl(*old(self), old(mem)@, op);
                &&& *final(self) == s.0
                &&& final(mem)@ == s.1
                &&& cycles == s.2
            }),
            1 <= cycles <= 6,
            cpu_wf(*final(self)),
            mem_wf(final(mem)@),
    {
        proof {
            reveal(step_ctrl);
        }
        let row = (op - 0xc0) / 8;
        let d8 = mem.read(self.pc);
        self.pc = self.pc.wrapping_add(1);
        self.alu_dispatch(row, d8);
        2
    }

    /// POP rr, including POP AF which rebuilds the flags from the high
    /// nibble of the popped low byte.
    #[verifier::spinoff_prover]
    #[verifier::rlimit(100)]
    fn ctrl_pop(&mut self, mem: &mut Memory, op: u8) -> (cycles: u8)
        requires
            0xc0 <= op,
            op % 8 == 1,
            ((op - 0xc0) / 8) % 2 == 0,
            cpu_wf(*old(self)),
            mem_wf(old(mem)@),
        ensures
            ({
                let s = step_ctrl(*old(self), old(mem)@, op);
                &&& *final(self) == s.0
                &&& final(mem)@ == s.1
                &&& cycles == s.2
            }),
            1 <= cycles <= 6,
            cpu_wf(*final(self)),
            mem_wf(final(mem)@),
    {
        proof {
            reveal(step_ctrl);
        }
        let row = (op - 0xc0) / 8;
        let v = self.pop(mem);
        if row == 6 {
            self.a = (v / 256) as u8;
            let low = (v % 256) as u8;
            self.flags.z = if low & 0x80 != 0 {
                1
            } else {
                0
            };
            self.flags.n = if low & 0x40 != 0 {
                1
            } else {
                0
            };
            self.flags.h = if low & 0x20 != 0 {
                1
            } else {
                0
            };
            self.flags.cy = if low & 0x10 != 0 {
                1
            } else {
                0
            };
        } else {
            self.set_register_16(&reg16_for_idx(row / 2), v);
        }
        3
    }

    /// PUSH rr, including PUSH AF with the packed flags in the low
    /// byte.
    #[verifier::spinoff_prover]
    #[verifier::rlimit(100)]
    fn ctrl_push(&mut self, mem: &mut Memory, op: u8) -> (cycles: u8)
        requires
            0xc0 <= op,
            op % 8 == 5,
            ((op - 0xc0) / 8) % 2 == 0,
            cpu_wf(*old(self)),
            mem_wf(old(mem)@),
        ensures
            ({
                let s = step_ctrl(*old(self), old(mem)@, op);
                &&& *final(self) == s.0
                &&& final(mem)@ == s.1
                &&& cycles == s.2
            }),
            1 <= cycles <= 6,
            cpu_wf(*final(self)),
            mem_wf(final(mem)@),
    {
        proof {
            reveal(step_ctrl);
        }
        let row = (op - 0xc0) / 8;
        let v: u16 = if row == 6 {
            let f = self.flags.z * 128 + self.flags.n * 64 + self.flags.h * 32 + self.flags.cy
                * 16;
            (self.a as u16) * 256 + (f as u16)
        } else {
            self.get_register_16(&reg16_for_idx(row / 2))
        };
        self.push(mem, v);
        4
    }

    /// The conditional absolute jumps.
    #[verifier::spinoff_prover]
    #[verifier::rlimit(100)]
    fn ctrl_jp_cc(&mut self, mem: &mut Memory, op: u8) -> (cycles: u8)
        requires
            0xc0 <= op,
            op % 8 == 2,
            (op - 0xc0) / 8 < 4,
            cpu_wf(*old(self)),
            mem_wf(old(mem)@),
        ensures
            ({
                let s = step_ctrl(*old(self), old(mem)@, op);
                &&& *final(self) == s.0
                &&& final(mem)@ == s.1
                &&& cycles == s.2
            }),
            1 <= cycles <= 6,
            cpu_wf(*final(self)),
            mem_wf(final(mem)@),
    {
        proof {
            reveal(step_ctrl);
        }
        let row = (op - 0xc0) / 8;
        if self.cond_check(row) {
            let a16 = mem.read_16(self.pc);
            self.pc = a16;
            4
        } else {
            self.pc = self.pc.wrapping_add(2);
            3
        }
    }

    /// The conditional calls.
    #[verifier::spinoff_prover]
    #[verifier::rlimit(100)]
    fn ctrl_call_cc(&mut self, mem: &mut Memory, op: u8) -> (cycles: u8)
        requires
            0xc0 <= op,
            op % 8 == 4,
            (op - 0xc0) / 8 < 4,
            cpu_wf(*old(self)),
            mem_wf(old(mem)@),
        ensures
            ({
                let s = step_ctrl(*old(self), old(mem)@, op);
                &&& *final(self) == s.0
                &&& final(mem)@ == s.1
                &&& cycles == s.2
            }),
            1 <= cycles <= 6,
            cpu_wf(*final(self)),
            mem_wf(final(mem)@),
    {
        proof {
            reveal(step_ctrl);
        }
        let row = (op - 0xc0) / 8;
        if self.cond_check(row) {
            let next = self.pc.wrapping_add(2);
            let target = mem.read_16(self.pc);
            self.push(mem, next);
            self.pc = target;
            6
        } else {
            self.pc = self.pc.wrapping_add(2);
            3
        }
    }

    /// The remaining control opcodes: JP, RET, RETI, CALL, the
    /// high-page loads, the SP arithmetic, DI and EI.
    #[verifier::spinoff_prover]
    #[verifier::rlimit(100)]
    fn ctrl_misc(&mut self, mem: &mut Memory, op: u8) -> (cycles: u8)
        requires
            0xc0 <= op,
            !spec_unimplemented(op),
            op != 0xcb,
            !(op % 8 == 0 && (op - 0xc0) / 8 < 4),
            op % 8 != 7,
            op % 8 != 6,
            !(op % 8 == 1 && ((op - 0xc0) / 8) % 2 == 0),
            !(op % 8 == 5 && ((op - 0xc0) / 8) % 2 == 0),
            !(op % 8 == 2 && (op - 0xc0) / 8 < 4),
            !(op % 8 == 4 && (op - 0xc0) / 8 < 4),
            cpu_wf(*old(self)),
            mem_wf(old(mem)@),
        ensures
            ({
                let s = step_ctrl(*old(self), old(mem)@, op);
                &&& *final(self) == s.0
                &&& final(mem)@ == s.1
                &&& cycles == s.2
            }),
            1 <= cycles <= 6,
            cpu_wf(*final(self)),
            mem_wf(final(mem)@),
    {
        proof {
            reveal(step_ctrl);
        }
        if op == 0xc3 {
            let a16 = mem.read_16(self.pc);
            self.pc = a16;
            4
        } else if op == 0xc9 {
            let v = self.pop(mem);
            self.pc = v;
            4
        } else if op == 0xcd {
            let next = self.pc.wrapping_add(2);
            let target = mem.read_16(self.pc);
            self.push(mem, next);
            self.pc = target;
            6
        } else if op == 0xd9 {
            self.ime = true;
            let v = self.pop(mem);
            self.pc = v;
            4
        } else if op == 0xe0 {
            let a8 = mem.read(self.pc);
            self.pc = self.pc.wrapping_add(1);
            let a = self.a;
            mem.write(0xff00 + (a8 as u16), a);
            3
        } else if op == 0xe2 {
            let a = self.a;
            let addr = 0xff00 + (self.bc.low as u16);
            mem.write(addr, a);
            2
        } else if op == 0xe8 {
            let s8 = mem.read(self.pc);
            self.pc = self.pc.wrapping_add(1);
            let nf = self.sp_plus_flags(s8);
            let nsp = self.sp_plus(s8);
            self.sp = nsp;
            self.flags = nf;
            4
        } else if op == 0xe9 {
            self.pc = self.hl.full();
            1
        } else if op == 0xea {
            let a16 = mem.read_16(self.pc);
            self.pc = self.pc.wrapping_add(2);
            let a = self.a;
            mem.write(a16, a);
            4
        } else if op == 0xf0 {
            let a8 = mem.read(self.pc);
            self.pc = self.pc.wrapping_add(1);
            let v = mem.read(0xff00 + (a8 as u16));
            self.a = v;
            3
        } else if op == 0xf2 {
            let v = mem.read(0xff00 + (self.bc.low as u16));
            self.a = v;
            2
        } else if op == 0xf3 {
            self.ime = false;
            1
        } else if op == 0xf8 {
            let s8 = mem.read(self.pc);
            self.pc = self.pc.wrapping_add(1);
            let nf = self.sp_plus_flags(s8);
            let v = self.sp_plus(s8);
            self.hl.set_full(v);
            self.flags = nf;
            3
        } else if op == 0xf9 {
            let v = self.hl.full();
            self.sp = v;
            2
        } else if op == 0xfa {
            let a16 = mem.read_16(self.pc);
            self.pc = self.pc.wrapping_add(2);
            let v = mem.read(a16);
            self.a = v;
            4
        } else {
            self.ime = true;
            1
        }
    }

    /// The executable side of `sp_offset`.
    fn sp_plus(&self, s8: u8) -> (v: u16)
        ensures
            v == sp_offset(self.sp, s8),
    {
        if s8 & 0x80 != 0 {
            let d: u16 = 0x100 - (s8 as u16);
            self.sp.wrapping_sub(d)
        } else {
            self.sp.wrapping_add(s8 as u16)
        }
    }

    /// The executable side of `sp_offset_flags`.
    fn sp_plus_flags(&self, s8: u8) -> (f: Flags)
        ensures
            f == sp_offset_flags(self.sp, s8),
            f.wf(),
    {
        if s8 & 0x80 != 0 {
            let abs: u16 = 0x100 - (s8 as u16);
            let result = (self.sp as i32) - (abs as i32);
            let neg = -(abs as i32);
            let fx = (self.sp as i32) ^ neg ^ result;
            Flags {
                z: 0,
                n: 0,
                h: if fx & 0x10 != 0 {
                    1
                } else {
                    0
                },
                cy: if fx & 0x100 != 0 {
                    1
                } else {
                    0
                },
            }
        } else {
            let abs: u16 = s8 as u16;
            let result = (self.sp as i32) + (abs as i32);
            let fx = (self.sp as i32) ^ (abs as i32) ^ result;
            Flags {
                z: 0,
                n: 0,
                h: if fx & 0x10 != 0 {
                    1
                } else {
                    0
                },
                cy: if fx & 0x100 != 0 {
                    1
                } else {
                    0
                },
            }
        }
    }

    /// The TAC-selected TIMA rate the scheduler drains the timer at.
    pub fn get_timer_rate(timer_control: u8) -> (r: u16)
        ensures
            r == crate::timer_rate(timer_control),
    {
        let sel = timer_control & 0b11;
        if sel == 0 {
            1024
        } else if sel == 1 {
            16
        } else if sel == 2 {
            64
        } else {
            256
        }
    }

    /// One CPU step: polls interrupts (servicing at most one), returns
    /// at once while halted, and otherwise fetches, decodes and
    /// executes the instruction at PC, returning its cycle count.  An
    /// opcode outside the implemented set is the fatal error: the
    /// opcode and its fetch address come back as the fault.
    #[verifier::spinoff_prover]
    #[verifier::rlimit(100)]
    pub fn run(&mut self, mem: &mut Memory) -> (r: Result<u8, Fault>)
        requires
            cpu_wf(*old(self)),
            mem_wf(old(mem)@),
        ensures
            cpu_wf(*final(self)),
            mem_wf(final(mem)@),
            r is Ok ==> r->Ok_0 <= 6,
            r == Result::<u8, Fault>::Ok(0) ==> ({
                let s = int_step(*old(self), old(mem)@);
                s.2 == 0 && s.0.halt
            }),
            ({
                let s = int_step(*old(self), old(mem)@);
                &&& (s.2 != 0 || s.0.halt) ==> (r == Result::<u8, Fault>::Ok(s.2) && *final(self)
                    == s.0 && final(mem)@ == s.1)
                &&& (s.2 == 0 && !s.0.halt) ==> ({
                    let op = mem_read(s.1, s.0.pc);
                    if spec_unimplemented(op) {
                        &&& r == Result::<u8, Fault>::Err(Fault { opcode: op, addr: s.0.pc })
                        &&& *final(self) == (CPU { pc: wrap16(s.0.pc + 1), ..s.0 })
                        &&& final(mem)@ == s.1
                    } else {
                        let e = exec_step(s.0, s.1);
                        &&& r == Result::<u8, Fault>::Ok(e.2)
                        &&& *final(self) == e.0
                        &&& final(mem)@ == e.1
                    }
                })
            }),
    {
        let v = self.handle_interrupt(mem);
        if v != 0 || self.halt {
            return Result::Ok(v);
        }
        let instruction = mem.read(self.pc);
        if is_unimplemented(instruction) {
            let f = Fault { opcode: instruction, addr: self.pc };
            self.pc = self.pc.wrapping_add(1);
            return Result::Err(f);
        }
        self.pc = self.pc.wrapping_add(1);
        let cycles = if instruction < 0x40 {
            self.op_0x(mem, instruction)
        } else if instruction < 0x80 {
            self.op_ld(mem, instruction)
        } else if instruction < 0xc0 {
            self.op_alu(mem, instruction)
        } else {
            self.op_ctrl(mem, instruction)
        };
        Result::Ok(cycles)
    }
}

impl CPU {
    /// Loads the register half of a single-step test's initial state.
    pub fn load_state(&mut self, state: &InitialState)
        ensures
            final(self).pc == state.pc,
            final(self).sp == state.sp,
            final(self).a == state.a,
            final(self).bc == (Register { high: state.b, low: state.c }),
            final(self).de == (Register { high: state.d, low: state.e }),
            final(self).hl == (Register { high: state.h, low: state.l }),
            final(self).flags == unpack_flags(state.f),
            final(self).ime == (state.ime > 0),
            final(self).halt == old(self).halt,
            cpu_wf(*final(self)),
    {
        self.pc = state.pc;
        self.sp = state.sp;
        self.a = state.a;
        self.bc.high = state.b;
        self.bc.low = state.c;
        self.de.high = state.d;
        self.de.low = state.e;
        self.hl.high = state.h;
        self.hl.low = state.l;
        self.flags.z = if state.f & 0x80 != 0 {
            1
        } else {
            0
        };
        self.flags.n = if state.f & 0x40 != 0 {
            1
        } else {
            0
        };
        self.flags.h = if state.f & 0x20 != 0 {
            1
        } else {
            0
        };
        self.flags.cy = if state.f & 0x10 != 0 {
            1
        } else {
            0
        };
        self.ime = state.ime > 0;
    }

    /// Compares the register half of a single-step test's expected
    /// state, reporting the first mismatching register with the
    /// expected and actual values.
    pub fn compare_state(&self, state: &FinalState) -> (r: Result<(), CpuMismatch>)
        requires
            cpu_wf(*self),
        ensures
            r == cpu_cmp(*self, *state),
    {
        if self.pc != state.pc {
            return Result::Err(CpuMismatch { reg: RegName::Pc, expected: state.pc, actual: self.pc });
        }
        if self.sp != state.sp {
            return Result::Err(CpuMismatch { reg: RegName::Sp, expected: state.sp, actual: self.sp });
        }
        if self.a != state.a {
            return Result::Err(CpuMismatch {
                reg: RegName::A,
                expected: state.a as u16,
                actual: self.a as u16,
            });
        }
        if self.bc.high != state.b {
            return Result::Err(CpuMismatch {
                reg: RegName::B,
                expected: state.b as u16,
                actual: self.bc.high as u16,
            });
        }
        if self.bc.low != state.c {
            return Result::Err(CpuMismatch {
                reg: RegName::C,
                expected: state.c as u16,
                actual: self.bc.low as u16,
            });
        }
        if self.de.high != state.d {
            return Result::Err(CpuMismatch {
                reg: RegName::D,
                expected: state.d as u16,
                actual: self.de.high as u16,
            });
        }
        if self.de.low != state.e {
            return Result::Err(CpuMismatch {
                reg: RegName::E,
                expected: state.e as u16,
                actual: self.de.low as u16,
            });
        }
        let f = self.get_register_8(&Register8::F);
        if f != state.f {
            return Result::Err(CpuMismatch {
                reg: RegName::F,
                expected: state.f as u16,
                actual: f as u16,
            });
        }
        if self.hl.high != state.h {
            return Result::Err(CpuMismatch {
                reg: RegName::H,
                expected: state.h as u16,
                actual: self.hl.high as u16,
            });
        }
        if self.hl.low != state.l {
            return Result::Err(CpuMismatch {
                reg: RegName::L,
                expected: state.l as u16,
                actual: self.hl.low as u16,
            });
        }
        let ime = if self.ime {
            1u8
        } else {
            0u8
        };
        if ime != state.ime {
            return Result::Err(CpuMismatch {
                reg: RegName::Ime,
                expected: state.ime as u16,
                actual: ime as u16,
            });
        }
        Result::Ok(())
    }
}

/// What a register comparison reports: the first mismatching register
/// in the order PC, SP, A, B, C, D, E, F, H, L, IME, or success.
pub open spec fn cpu_cmp(c: CPU, s: FinalState) -> Result<(), CpuMismatch> {
    if c.pc != s.pc {
        Result::Err(CpuMismatch { reg: RegName::Pc, expected: s.pc, actual: c.pc })
    } else if c.sp != s.sp {
        Result::Err(CpuMismatch { reg: RegName::Sp, expected: s.sp, actual: c.sp })
    } else if c.a != s.a {
        Result::Err(CpuMismatch { reg: RegName::A, expected: s.a as u16, actual: c.a as u16 })
    } else if c.bc.high != s.b {
        Result::Err(CpuMismatch { reg: RegName::B, expected: s.b as u16, actual: c.bc.high as u16 })
    } else if c.bc.low != s.c {
        Result::Err(CpuMismatch { reg: RegName::C, expected: s.c as u16, actual: c.bc.low as u16 })
    } else if c.de.high != s.d {
        Result::Err(CpuMismatch { reg: RegName::D, expected: s.d as u16, actual: c.de.high as u16 })
    } else if c.de.low != s.e {
        Result::Err(CpuMismatch { reg: RegName::E, expected: s.e as u16, actual: c.de.low as u16 })
    } else if c.flags.spec_f() != s.f {
        Result::Err(CpuMismatch {
            reg: RegName::F,
            expected: s.f as u16,
            actual: c.flags.spec_f() as u16,
        })
    } else if c.hl.high != s.h {
        Result::Err(CpuMismatch { reg: RegName::H, expected: s.h as u16, actual: c.hl.high as u16 })
    } else if c.hl.low != s.l {
        Result::Err(CpuMismatch { reg: RegName::L, expected: s.l as u16, actual: c.hl.low as u16 })
    } else if b2u(c.ime) != s.ime {
        Result::Err(CpuMismatch { reg: RegName::Ime, expected: s.ime as u16, actual: b2u(c.ime) as u16 })
    } else {
        Result::Ok(())
    }
}

/// Law: for every 8-bit value, INC then DEC (or DEC then INC) restores
/// the value.
pub proof fn lemma_inc_dec_roundtrip(a: u8)
    ensures
        dec8(inc8(a)) == a,
        inc8(dec8(a)) == a,
{
}

/// Law: INC r followed by DEC r restores the register and leaves the
/// carry flag untouched; only Z, N and H may differ, as the two
/// instructions' flag rules say.
pub proof fn lemma_inc_dec_register(c: CPU, r: Register8)
    requires
        r != Register8::F,
    ensures
        ({
            let c1 = with_flags(
                with_reg8(c, r, inc8(spec_reg8(c, r))),
                flags_inc8(c.flags, spec_reg8(c, r)),
            );
            let c2 = with_flags(
                with_reg8(c1, r, dec8(spec_reg8(c1, r))),
                flags_dec8(c1.flags, spec_reg8(c1, r)),
            );
            &&& spec_reg8(c2, r) == spec_reg8(c, r)
            &&& c2.flags.cy == c.flags.cy
        }),
{
}

/// A poll that returns zero cycles with HALT still set changed
/// nothing: no enabled interrupt was pending, and the CPU and memory
/// are exactly as before.
pub proof fn lemma_halted_poll_means_idle(c: CPU, m: MemV)
    requires
        int_step(c, m).2 == 0,
        int_step(c, m).0.halt,
    ensures
        int_pending(m) == 0,
        int_step(c, m).0 == c,
        int_step(c, m).1 == m,
{
}

/// Law: pushing a 16-bit value and reading it back through the stack
/// returns the value with SP restored, whenever both stack bytes lie
/// in work RAM.  This is the round trip the `push` and `pop` helpers
/// realize: `push` stores through `mem_write_16` at SP-2, and `pop`
/// reads `mem_read_16` there and moves SP back up by two.
#[verifier::spinoff_prover]
#[verifier::rlimit(100)]
pub proof fn lemma_push_pop_roundtrip(c: CPU, m: MemV, v: u16)
    requires
        mem_wf(m),
        0xc002 <= c.sp,
        c.sp <= 0xdfff,
    ensures
        ({
            let sp2 = wrap16(c.sp - 2);
            let m2 = mem_write_16(m, sp2, v);
            &&& mem_read_16(m2, sp2) == v
            &&& wrap16(sp2 + 2) == c.sp
        }),
{
    reveal(crate::memory::mem_read);
    reveal(crate::memory::mem_write);
    let sp2 = wrap16(c.sp - 2);
    assert(sp2 == c.sp - 2);
    let lo = (v % 256) as u8;
    let hi = (v / 256) as u8;
    let ma = mem_write(m, sp2, lo);
    assert(ma == (MemV { mem: m.mem.update(sp2 as int, lo), ..m }));
    let mb = mem_write(ma, ((sp2 + 1) % 0x10000) as u16, hi);
    assert(mb == (MemV { mem: ma.mem.update(sp2 + 1, hi), ..ma }));
    assert(mem_read(mb, sp2) == lo);
    assert(mem_read(mb, ((sp2 + 1) % 0x10000) as u16) == hi);
    assert(mem_read_16(mb, sp2) == v);
}

/// Law: PUSH BC then POP DE leaves DE holding the original BC and SP
/// back at its pre-push value, whenever both stack bytes lie in work
/// RAM.
#[verifier::spinoff_prover]
#[verifier::rlimit(100)]
pub proof fn lemma_push_pop_instructions(c: CPU, m: MemV)
    requires
        cpu_wf(c),
        mem_wf(m),
        0xc002 <= c.sp,
        c.sp <= 0xdfff,
    ensures
        ({
            let s1 = step_ctrl(c, m, 0xc5);
            let s2 = step_ctrl(s1.0, s1.1, 0xd1);
            &&& s2.0.de == c.bc
            &&& s2.0.sp == c.sp
        }),
{
    reveal(step_ctrl);
    reveal(crate::memory::mem_read);
    reveal(crate::memory::mem_write);
    let v = c.bc.spec_full();
    let lo = (v % 256) as u8;
    let hi = (v / 256) as u8;
    let sp2 = wrap16(c.sp - 2);
    assert(sp2 == c.sp - 2);
    let ma = mem_write(m, sp2, lo);
    assert(ma == (MemV { mem: m.mem.update(sp2 as int, lo), ..m }));
    let mb = mem_write(ma, ((sp2 + 1) % 0x10000) as u16, hi);
    assert(mb == (MemV { mem: ma.mem.update(sp2 + 1, hi), ..ma }));
    let s1 = step_ctrl(c, m, 0xc5);
    assert(s1.1 == mb);
    assert(s1.0.sp == sp2);
    let s2 = step_ctrl(s1.0, s1.1, 0xd1);
    assert(mem_read(mb, sp2) == lo);
    assert(mem_read(mb, ((sp2 + 1) % 0x10000) as u16) == hi);
    assert(mem_read_16(mb, sp2) == v);
    assert(s2.0.de =~= c.bc);
    assert(s2.0.sp == c.sp);
}

/// Law: with the VBlank and Timer interrupt flags both pending and
/// both enabled and IME set, one poll services VBlank alone: the
/// 0x40 handler is entered for 5 cycles, the VBlank flag clears, and
/// the Timer flag remains pending.  The stack must lie in work RAM so
/// the pushed return address cannot land on the interrupt registers.
pub proof fn lemma_interrupt_priority(c: CPU, m: MemV)
    requires
        mem_wf(m),
        c.ime,
        mem_read(m, 0xff0f) & 0b1 != 0,
        mem_read(m, 0xff0f) & 0b100 != 0,
        mem_read(m, 0xffff) & 0b1 != 0,
        mem_read(m, 0xffff) & 0b100 != 0,
        0xc002 <= c.sp,
        c.sp <= 0xdfff,
    ensures
        ({
            let s = int_step(c, m);
            &&& s.2 == 5
            &&& s.0.pc == 0x40
            &&& !s.0.ime
            &&& mem_read(s.1, 0xff0f) & 0b100 != 0
            &&& mem_read(s.1, 0xff0f) & 0b1 == 0
        }),
{
    reveal(crate::memory::mem_read);
    reveal(crate::memory::mem_write);
    let i_flags = mem_read(m, 0xff0f);
    let ie = mem_read(m, 0xffff);
    let p = int_pending(m);
    assert(p & 0x01 != 0 && p != 0) by (bit_vector)
        requires
            p == (i_flags & ie) & 0x1f,
            i_flags & 0b1 != 0,
            ie & 0b1 != 0,
    ;
    assert(int_bit_index(p) == 0);
    let sp2 = wrap16(c.sp - 2);
    assert(sp2 == c.sp - 2);
    let c1 = int_clear_halt(c, m);
    let m2 = mem_write_16(m, sp2, c1.pc);
    assert(mem_read(m2, 0xff0f) == i_flags);
    let if2 = mem_read(m2, 0xff0f);
    let cleared = if2 & (!((1u8 << 0u8) as u8));
    assert(cleared & 0b100 != 0 && cleared & 0b1 == 0) by (bit_vector)
        requires
            cleared == if2 & (!((1u8 << 0u8) as u8)),
            if2 & 0b100 != 0,
    ;
    let m3 = mem_write(m2, 0xff0f, cleared);
    assert(mem_read(m3, 0xff0f) == cleared);
}

/// The executable side of `spec_unimplemented`.
fn is_unimplemented(op: u8) -> (b: bool)
    ensures
        b == spec_unimplemented(op),
{
    op == 0x10 || op == 0xd3 || op == 0xdb || op == 0xdd || op == 0xe3 || op == 0xe4 || op == 0xeb
        || op == 0xec || op == 0xed || op == 0xf4 || op == 0xfc || op == 0xfd
}

// ---------------------------------------------------------------------
// Interrupt dispatch.
// ---------------------------------------------------------------------

/// The pending, enabled interrupts: IF and IE masked to the five
/// interrupt bits.
pub open spec fn int_pending(m: MemV) -> u8 {
    (mem_read(m, 0xff0f) & mem_read(m, 0xffff)) & 0x1f
}

/// HALT clears when any enabled interrupt becomes pending, with or
/// without IME.
pub open spec fn int_clear_halt(c: CPU, m: MemV) -> CPU {
    if c.halt && int_pending(m) != 0 {
        CPU { halt: false, ..c }
    } else {
        c
    }
}

/// The highest-priority pending interrupt: VBlank (bit 0) before STAT
/// (1) before Timer (2) before Serial (3) before Joypad (4).
pub open spec fn int_bit_index(p: u8) -> u8
    recommends
        p & 0x1f != 0,
{
    if p & 0x01 != 0 {
        0
    } else if p & 0x02 != 0 {
        1
    } else if p & 0x04 != 0 {
        2
    } else if p & 0x08 != 0 {
        3
    } else {
        4
    }
}

/// Servicing one interrupt: IME cleared, PC pushed, the fixed vector
/// 0x40 + 8k entered, and the serviced IF bit cleared (reading IF back
/// after the push, which may have landed on it).
pub open spec fn int_dispatch(c: CPU, m: MemV, k: u8) -> (CPU, MemV)
    recommends
        k < 5,
{
    let sp2 = wrap16(c.sp - 2);
    let m2 = mem_write_16(m, sp2, c.pc);
    let if2 = mem_read(m2, 0xff0f);
    let m3 = mem_write(m2, 0xff0f, if2 & (!((1u8 << k) as u8)));
    (CPU { ime: false, sp: sp2, pc: (0x40 + 8 * k) as u16, ..c }, m3)
}

/// What one interrupt poll does, at the start of every CPU step: HALT
/// clears on any pending enabled interrupt; then, only with IME set
/// and something pending, the highest-priority interrupt is serviced
/// for 5 cycles.
pub open spec fn int_step(c: CPU, m: MemV) -> (CPU, MemV, u8) {
    let c1 = int_clear_halt(c, m);
    let p = int_pending(m);
    if c1.ime && p != 0 {
        let d = int_dispatch(c1, m, int_bit_index(p));
        (d.0, d.1, 5)
    } else {
        (c1, m, 0)
    }
}

impl CPU {
    /// Polls the interrupt lines once: clears HALT when an enabled
    /// interrupt is pending, and with IME set services the
    /// highest-priority one (5 cycles); otherwise returns 0.
    fn handle_interrupt(&mut self, mem: &mut Memory) -> (v: u8)
        requires
            mem_wf(old(mem)@),
        ensures
            ({
                let s = int_step(*old(self), old(mem)@);
                &&& *final(self) == s.0
                &&& final(mem)@ == s.1
                &&& v == s.2
            }),
            mem_wf(final(mem)@),
    {
        let i_flags = mem.read(0xff0f);
        let ie = mem.read(0xffff);
        let pending = (i_flags & ie) & 0x1f;
        if self.halt && pending != 0 {
            self.halt = false;
        }
        if !self.ime || pending == 0 {
            return 0;
        }
        let k: u8 = if pending & 0x01 != 0 {
            0
        } else if pending & 0x02 != 0 {
            1
        } else if pending & 0x04 != 0 {
            2
        } else if pending & 0x08 != 0 {
            3
        } else {
            4
        };
        self.ime = false;
        let pc = self.pc;
        self.push(mem, pc);
        self.pc = 0x40 + 8 * (k as u16);
        let cur = mem.read(0xff0f);
        mem.write(0xff0f, cur & !(1u8 << k));
        5
    }
}

// ---------------------------------------------------------------------
// Opcode decoding tables.
// ---------------------------------------------------------------------

/// The 8-bit register an operand index names (6 is the (HL) memory
/// operand and is handled by the callers, never through this table).
pub open spec fn idx_reg8(i: int) -> Register8
    recommends
        0 <= i < 8,
        i != 6,
{
    if i == 0 {
        Register8::B
    } else if i == 1 {
        Register8::C
    } else if i == 2 {
        Register8::D
    } else if i == 3 {
        Register8::E
    } else if i == 4 {
        Register8::H
    } else if i == 5 {
        Register8::L
    } else if i == 7 {
        Register8::A
    } else {
        Register8::F
    }
}

/// The 16-bit register pair a two-bit field names.
pub open spec fn idx_reg16(i: int) -> Register16
    recommends
        0 <= i < 4,
{
    if i == 0 {
        Register16::BC
    } else if i == 1 {
        Register16::DE
    } else if i == 2 {
        Register16::HL
    } else {
        Register16::SP
    }
}

/// The branch condition a two-bit field names: NZ, Z, NC, C.
pub open spec fn cond_holds(f: Flags, cc: int) -> bool
    recommends
        0 <= cc < 4,
{
    if cc == 0 {
        f.z == 0
    } else if cc == 1 {
        f.z == 1
    } else if cc == 2 {
        f.cy == 0
    } else {
        f.cy == 1
    }
}

/// The flags POP AF restores: the high nibble of the popped low byte;
/// the low nibble is discarded, so F's low bits stay zero.
pub open spec fn unpack_flags(v: u8) -> Flags {
    Flags {
        z: b2u(v & 0x80 != 0),
        n: b2u(v & 0x40 != 0),
        h: b2u(v & 0x20 != 0),
        cy: b2u(v & 0x10 != 0),
    }
}

/// The opcodes the interpreter does not implement: STOP and the
/// undefined entries of the primary table.
pub open spec fn spec_unimplemented(op: u8) -> bool {
    ||| op == 0x10
    ||| op == 0xd3
    ||| op == 0xdb
    ||| op == 0xdd
    ||| op == 0xe3
    ||| op == 0xe4
    ||| op == 0xeb
    ||| op == 0xec
    ||| op == 0xed
    ||| op == 0xf4
    ||| op == 0xfc
    ||| op == 0xfd
}

// ---------------------------------------------------------------------
// The instruction step, by opcode quarter.
// ---------------------------------------------------------------------

/// One ALU operation against A, selected by a three-bit field: ADD,
/// ADC, SUB, SBC, AND, XOR, OR, CP.
pub open spec fn alu_apply(c: CPU, k: int, v: u8) -> CPU
    recommends
        0 <= k < 8,
{
    if k == 0 {
        alu_add(c, v)
    } else if k == 1 {
        alu_adc(c, v)
    } else if k == 2 {
        alu_sub(c, v)
    } else if k == 3 {
        alu_sbc(c, v)
    } else if k == 4 {
        alu_and(c, v)
    } else if k == 5 {
        alu_xor(c, v)
    } else if k == 6 {
        alu_or(c, v)
    } else {
        alu_cp(c, v)
    }
}

/// One rotate or shift, selected by a three-bit field (RLC, RRC, RL,
/// RR, SLA, SRA, SWAP, SRL): the result and the carry out.
pub open spec fn rot_apply(v: u8, cy_in: u8, g: int) -> (u8, u8)
    recommends
        0 <= g < 8,
{
    if g == 0 {
        (rlc8(v), rlc8(v) & 0x01)
    } else if g == 1 {
        (rrc8(v), (rrc8(v) >> 7) & 0x01)
    } else if g == 2 {
        (rl8(v, cy_in), v >> 7)
    } else if g == 3 {
        (rr8(v, cy_in), v & 0x01)
    } else if g == 4 {
        (sla8(v), b2u(v & 0x80 == 0x80))
    } else if g == 5 {
        (sra8(v), b2u(v & 0x01 == 0x01))
    } else if g == 6 {
        (swap8(v), 0)
    } else {
        (srl8(v), b2u(v & 0x01 == 0x01))
    }
}

/// The cycle count of a CB-prefixed rotate or shift: two machine
/// cycles on a register, four on the (HL) memory operand.
pub open spec fn cb_cycles(g: int, mem_operand: bool) -> u8 {
    if !mem_operand {
        2
    } else {
        4
    }
}

/// One CB-prefixed instruction, with the prefix byte already fetched:
/// a second fetch selects a rotate/shift (0x00-0x3f), BIT (0x40-0x7f),
/// RES (0x80-0xbf) or SET (0xc0-0xff), each over a register or the
/// (HL) memory operand.
pub open spec fn cb_step(c: CPU, m: MemV) -> (CPU, MemV, u8)
    recommends
        cpu_wf(c),
        mem_wf(m),
{
    let op = mem_read(m, c.pc);
    cb_dispatch(CPU { pc: wrap16(c.pc + 1), ..c }, m, op)
}

/// A CB-prefixed instruction after its second fetch.
#[verifier::opaque]
pub open spec fn cb_dispatch(c1: CPU, m: MemV, op: u8) -> (CPU, MemV, u8)
    recommends
        cpu_wf(c1),
        mem_wf(m),
{
    let src = (op % 8) as int;
    let hl = c1.hl.spec_full();
    let v = if src == 6 {
        mem_read(m, hl)
    } else {
        spec_reg8(c1, idx_reg8(src))
    };
    if op < 0x40 {
        let g = (op / 8) as int;
        let r = rot_apply(v, c1.flags.cy, g);
        let f = flags_rot(c1.flags, r.0, r.1, true);
        if src == 6 {
            (with_flags(c1, f), mem_write(m, hl, r.0), cb_cycles(g, true))
        } else {
            (with_flags(with_reg8(c1, idx_reg8(src), r.0), f), m, cb_cycles(g, false))
        }
    } else if op < 0x80 {
        let b = ((op - 0x40) / 8) as u8;
        let f = Flags { z: b2u(v & ((1u8 << b) as u8) == 0), n: 0, h: 1, cy: c1.flags.cy };
        (with_flags(c1, f), m, if src == 6 {
            4
        } else {
            2
        })
    } else if op < 0xc0 {
        let b = ((op - 0x80) / 8) as u8;
        let r = v & (!((1u8 << b) as u8));
        if src == 6 {
            (c1, mem_write(m, hl, r), 4)
        } else {
            (with_reg8(c1, idx_reg8(src), r), m, 2)
        }
    } else {
        let b = ((op - 0xc0) / 8) as u8;
        let r = v | ((1u8 << b) as u8);
        if src == 6 {
            (c1, mem_write(m, hl, r), 4)
        } else {
            (with_reg8(c1, idx_reg8(src), r), m, 2)
        }
    }
}

/// The LD quarter (0x40-0x7f): register-to-register moves, the (HL)
/// loads and stores, and HALT at 0x76.
#[verifier::opaque]
pub open spec fn step_ld(c: CPU, m: MemV, op: u8) -> (CPU, MemV, u8)
    recommends
        0x40 <= op < 0x80,
{
    if op == 0x76 {
        (CPU { halt: true, ..c }, m, 1)
    } else {
        let dst = ((op - 0x40) / 8) as int;
        let src = (op % 8) as int;
        let v = if src == 6 {
            mem_read(m, c.hl.spec_full())
        } else {
            spec_reg8(c, idx_reg8(src))
        };
        if dst == 6 {
            (c, mem_write(m, c.hl.spec_full(), v), 2)
        } else {
            (with_reg8(c, idx_reg8(dst), v), m, if src == 6 {
                2
            } else {
                1
            })
        }
    }
}

/// The ALU quarter (0x80-0xbf): the eight A-register operations over a
/// register or (HL) operand.
#[verifier::opaque]
pub open spec fn step_alu(c: CPU, m: MemV, op: u8) -> (CPU, MemV, u8)
    recommends
        0x80 <= op < 0xc0,
{
    let k = ((op - 0x80) / 8) as int;
    let src = (op % 8) as int;
    let v = if src == 6 {
        mem_read(m, c.hl.spec_full())
    } else {
        spec_reg8(c, idx_reg8(src))
    };
    (alu_apply(c, k, v), m, if src == 6 {
        2
    } else {
        1
    })
}

/// The first quarter of the primary table (0x00-0x3f): 16-bit loads
/// and arithmetic, INC/DEC, immediate loads, relative jumps, the
/// accumulator rotates, DAA, CPL, SCF and CCF.
#[verifier::opaque]
pub open spec fn step_0x(c: CPU, m: MemV, op: u8) -> (CPU, MemV, u8)
    recommends
        op < 0x40,
        op != 0x10,
        cpu_wf(c),
        mem_wf(m),
{
    let col = (op % 8) as int;
    let row = (op / 8) as int;
    if col == 0 {
        if op == 0x00 {
            (c, m, 1)
        } else if op == 0x08 {
            let a16 = mem_read_16(m, c.pc);
            (CPU { pc: wrap16(c.pc + 2), ..c }, mem_write_16(m, a16, c.sp), 5)
        } else {
            let s8 = mem_read(m, c.pc);
            let c1 = CPU { pc: wrap16(c.pc + 1), ..c };
            if op == 0x18 {
                (CPU { pc: rel_target(c1.pc, s8), ..c1 }, m, 3)
            } else {
                let cc = ((op - 0x20) / 8) as int;
                if cond_holds(c.flags, cc) {
                    (CPU { pc: rel_target(c1.pc, s8), ..c1 }, m, 3)
                } else {
                    (c1, m, 2)
                }
            }
        }
    } else if col == 1 {
        let rr = idx_reg16(row / 2);
        if row % 2 == 0 {
            let v = mem_read_16(m, c.pc);
            (with_reg16(CPU { pc: wrap16(c.pc + 2), ..c }, rr, v), m, 3)
        } else {
            (add_hl16(c, spec_reg16(c, rr)), m, 2)
        }
    } else if col == 2 {
        let hl = c.hl.spec_full();
        let addr = if row < 2 {
            c.bc.spec_full()
        } else if row < 4 {
            c.de.spec_full()
        } else {
            hl
        };
        let c_hl = if row == 4 || row == 5 {
            with_reg16(c, Register16::HL, inc16(hl))
        } else if row == 6 || row == 7 {
            with_reg16(c, Register16::HL, dec16(hl))
        } else {
            c
        };
        if row % 2 == 0 {
            (c_hl, mem_write(m, addr, c.a), 2)
        } else {
            (CPU { a: mem_read(m, addr), ..c_hl }, m, 2)
        }
    } else if col == 3 {
        let rr = idx_reg16(row / 2);
        if row % 2 == 0 {
            (with_reg16(c, rr, inc16(spec_reg16(c, rr))), m, 2)
        } else {
            (with_reg16(c, rr, dec16(spec_reg16(c, rr))), m, 2)
        }
    } else if col == 4 || col == 5 {
        if row == 6 {
            let addr = c.hl.spec_full();
            let o = mem_read(m, addr);
            if col == 4 {
                (with_flags(c, flags_inc8(c.flags, o)), mem_write(m, addr, inc8(o)), 3)
            } else {
                (with_flags(c, flags_dec8(c.flags, o)), mem_write(m, addr, dec8(o)), 3)
            }
        } else {
            let r = idx_reg8(row);
            let o = spec_reg8(c, r);
            if col == 4 {
                (with_flags(with_reg8(c, r, inc8(o)), flags_inc8(c.flags, o)), m, 1)
            } else {
                (with_flags(with_reg8(c, r, dec8(o)), flags_dec8(c.flags, o)), m, 1)
            }
        }
    } else if col == 6 {
        let d8 = mem_read(m, c.pc);
        let c1 = CPU { pc: wrap16(c.pc + 1), ..c };
        if row == 6 {
            (c1, mem_write(m, c.hl.spec_full(), d8), 3)
        } else {
            (with_reg8(c1, idx_reg8(row), d8), m, 2)
        }
    } else {
        if op == 0x07 {
            (with_flags(with_reg8(c, Register8::A, rlc8(c.a)), flags_rot(c.flags, rlc8(c.a), rlc8(c.a) & 0x01, false)), m, 1)
        } else if op == 0x0f {
            (with_flags(with_reg8(c, Register8::A, rrc8(c.a)), flags_rot(c.flags, rrc8(c.a), (rrc8(c.a) >> 7) & 0x01, false)), m, 1)
        } else if op == 0x17 {
            (with_flags(with_reg8(c, Register8::A, rl8(c.a, c.flags.cy)), flags_rot(c.flags, rl8(c.a, c.flags.cy), c.a >> 7, false)), m, 1)
        } else if op == 0x1f {
            (with_flags(with_reg8(c, Register8::A, rr8(c.a, c.flags.cy)), flags_rot(c.flags, rr8(c.a, c.flags.cy), c.a & 0x01, false)), m, 1)
        } else if op == 0x27 {
            let r = daa8(c.a, c.flags);
            (CPU { a: r.0, flags: Flags { z: b2u(r.0 == 0), n: c.flags.n, h: 0, cy: r.1 }, ..c }, m, 1)
        } else if op == 0x2f {
            (CPU { a: !c.a, flags: Flags { n: 1, h: 1, z: c.flags.z, cy: c.flags.cy }, ..c }, m, 1)
        } else if op == 0x37 {
            (with_flags(c, Flags { cy: 1, h: 0, n: 0, z: c.flags.z }), m, 1)
        } else {
            (with_flags(c, Flags { cy: if c.flags.cy > 0 { 0 } else { 1 }, n: 0, h: 0, z: c.flags.z }), m, 1)
        }
    }
}

/// The last quarter of the primary table (0xc0-0xff): stack
/// operations, calls, returns, jumps, the d8 ALU forms, the high-page
/// loads, the SP arithmetic forms, RST, DI/EI and the CB prefix.
#[verifier::opaque]
pub open spec fn step_ctrl(c: CPU, m: MemV, op: u8) -> (CPU, MemV, u8)
    recommends
        0xc0 <= op,
        !spec_unimplemented(op),
        cpu_wf(c),
        mem_wf(m),
{
    let col = (op % 8) as int;
    let row = ((op - 0xc0) / 8) as int;
    if col == 0 && row < 4 {
        if cond_holds(c.flags, row) {
            (CPU { pc: mem_read_16(m, c.sp), sp: wrap16(c.sp + 2), ..c }, m, 5)
        } else {
            (c, m, 2)
        }
    } else if col == 7 {
        let sp2 = wrap16(c.sp - 2);
        (CPU { sp: sp2, pc: (8 * row) as u16, ..c }, mem_write_16(m, sp2, c.pc), 4)
    } else if col == 6 {
        let d8 = mem_read(m, c.pc);
        let c1 = CPU { pc: wrap16(c.pc + 1), ..c };
        (alu_apply(c1, row, d8), m, 2)
    } else if col == 1 && row % 2 == 0 {
        let v = mem_read_16(m, c.sp);
        let c1 = CPU { sp: wrap16(c.sp + 2), ..c };
        if row == 6 {
            (CPU { a: (v / 256) as u8, flags: unpack_flags((v % 256) as u8), ..c1 }, m, 3)
        } else {
            (with_reg16(c1, idx_reg16(row / 2), v), m, 3)
        }
    } else if col == 5 && row % 2 == 0 {
        let v: u16 = if row == 6 {
            (c.a * 256 + c.flags.spec_f()) as u16
        } else {
            spec_reg16(c, idx_reg16(row / 2))
        };
        let sp2 = wrap16(c.sp - 2);
        (CPU { sp: sp2, ..c }, mem_write_16(m, sp2, v), 4)
    } else if col == 2 && row < 4 {
        if cond_holds(c.flags, row) {
            (CPU { pc: mem_read_16(m, c.pc), ..c }, m, 4)
        } else {
            (CPU { pc: wrap16(c.pc + 2), ..c }, m, 3)
        }
    } else if col == 4 && row < 4 {
        if cond_holds(c.flags, row) {
            let sp2 = wrap16(c.sp - 2);
            (
                CPU { sp: sp2, pc: mem_read_16(m, c.pc), ..c },
                mem_write_16(m, sp2, wrap16(c.pc + 2)),
                6,
            )
        } else {
            (CPU { pc: wrap16(c.pc + 2), ..c }, m, 3)
        }
    } else if op == 0xc3 {
        (CPU { pc: mem_read_16(m, c.pc), ..c }, m, 4)
    } else if op == 0xc9 {
        (CPU { pc: mem_read_16(m, c.sp), sp: wrap16(c.sp + 2), ..c }, m, 4)
    } else if op == 0xcb {
        cb_step(c, m)
    } else if op == 0xcd {
        let sp2 = wrap16(c.sp - 2);
        (CPU { sp: sp2, pc: mem_read_16(m, c.pc), ..c }, mem_write_16(m, sp2, wrap16(c.pc + 2)), 6)
    } else if op == 0xd9 {
        (CPU { ime: true, pc: mem_read_16(m, c.sp), sp: wrap16(c.sp + 2), ..c }, m, 4)
    } else if op == 0xe0 {
        let a8 = mem_read(m, c.pc);
        (CPU { pc: wrap16(c.pc + 1), ..c }, mem_write(m, (0xff00 + a8) as u16, c.a), 3)
    } else if op == 0xe2 {
        (c, mem_write(m, (0xff00 + c.bc.low) as u16, c.a), 2)
    } else if op == 0xe8 {
        let s8 = mem_read(m, c.pc);
        (
            CPU {
                pc: wrap16(c.pc + 1),
                sp: sp_offset(c.sp, s8),
                flags: sp_offset_flags(c.sp, s8),
                ..c
            },
            m,
            4,
        )
    } else if op == 0xe9 {
        (CPU { pc: c.hl.spec_full(), ..c }, m, 1)
    } else if op == 0xea {
        let a16 = mem_read_16(m, c.pc);
        (CPU { pc: wrap16(c.pc + 2), ..c }, mem_write(m, a16, c.a), 4)
    } else if op == 0xf0 {
        let a8 = mem_read(m, c.pc);
        (CPU { pc: wrap16(c.pc + 1), a: mem_read(m, (0xff00 + a8) as u16), ..c }, m, 3)
    } else if op == 0xf2 {
        (CPU { a: mem_read(m, (0xff00 + c.bc.low) as u16), ..c }, m, 2)
    } else if op == 0xf3 {
        (CPU { ime: false, ..c }, m, 1)
    } else if op == 0xf8 {
        let s8 = mem_read(m, c.pc);
        let v = sp_offset(c.sp, s8);
        (
            CPU {
                pc: wrap16(c.pc + 1),
                hl: Register { low: (v % 256) as u8, high: (v / 256) as u8 },
                flags: sp_offset_flags(c.sp, s8),
                ..c
            },
            m,
            3,
        )
    } else if op == 0xf9 {
        (CPU { sp: c.hl.spec_full(), ..c }, m, 2)
    } else if op == 0xfa {
        let a16 = mem_read_16(m, c.pc);
        (CPU { pc: wrap16(c.pc + 2), a: mem_read(m, a16), ..c }, m, 4)
    } else {
        (CPU { ime: true, ..c }, m, 1)
    }
}

/// One fetched and executed instruction: the opcode at PC selects its
/// quarter of the primary table, with PC already advanced past it.
pub open spec fn exec_step(c: CPU, m: MemV) -> (CPU, MemV, u8)
    recommends
        !spec_unimplemented(mem_read(m, c.pc)),
        cpu_wf(c),
        mem_wf(m),
{
    let op = mem_read(m, c.pc);
    let c1 = CPU { pc: wrap16(c.pc + 1), ..c };
    if op < 0x40 {
        step_0x(c1, m, op)
    } else if op < 0x80 {
        step_ld(c1, m, op)
    } else if op < 0xc0 {
        step_alu(c1, m, op)
    } else {
        step_ctrl(c1, m, op)
    }
}

/// The power-on CPU state.
pub open spec fn spec_cpu_init() -> CPU {
    CPU {
        a: 0,
        flags: Flags { z: 0, n: 0, h: 0, cy: 0 },
        bc: Register { low: 0, high: 0 },
        de: Register { low: 0, high: 0 },
        hl: Register { low: 0, high: 0 },
        sp: 0,
        pc: 0,
        ime: false,
        halt: false,
    }
}

/// The register file the boot ROM leaves behind: AF=0x01b0, BC=0x0013,
/// DE=0x00d8, HL=0x014d, SP=0xfffe, PC=0x100.
pub open spec fn spec_cpu_boot(c: CPU) -> CPU {
    CPU {
        a: 0x01,
        flags: Flags { z: 1, n: 0, h: 1, cy: 1 },
        bc: Register { low: 0x13, high: 0 },
        de: Register { low: 0xd8, high: 0 },
        hl: Register { low: 0x4d, high: 0x01 },
        sp: 0xfffe,
        pc: 0x100,
        ..c
    }
}

} // verus!
