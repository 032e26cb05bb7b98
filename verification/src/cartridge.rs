//! The cartridge: ROM bytes, banked RAM, header decoding and the
//! memory-bank-controller address translation.
//!
//! Persistence of battery-backed RAM is a collaborator of the embedder:
//! a disabling write to the RAM-enable latch marks the RAM as due for
//! saving (`save_pending`); the embedder reads the RAM out and clears
//! the mark.

use vstd::prelude::*;

verus! {

/// The memory-bank-controller variant, from header byte 0x147.  The
/// MBC3 timer/RTC sub-variants are treated identically and the
/// real-time clock is not modeled: reads of its registers see plain
/// banked RAM.
#[derive(Clone, Copy, Debug, PartialEq, Eq, Structural)]
pub enum CType {
    Rom,
    Mbc1,
    Mbc3,
}

pub struct Cartridge {
    pub name: String,
    pub data: Vec<u8>,
    pub ram: Vec<u8>,
    pub c_type: CType,
    /// ROM size in KiB.
    pub rom_size: u16,
    /// RAM size in KiB.
    pub ram_size: u16,
    pub ram_enable: bool,
    pub ram_bank: u8,
    pub rom_bank: u8,
    pub num_banks: u8,
    pub banking_mode: u8,
    /// Set on every disabling write to the RAM-enable latch; the
    /// embedder persists `ram` and clears it via `take_save_request`.
    pub save_pending: bool,
}

/// The mathematical state of a cartridge.
pub ghost struct CartV {
    pub rom: Seq<u8>,
    pub ram: Seq<u8>,
    pub c_type: CType,
    pub rom_bank: u8,
    pub ram_bank: u8,
    pub ram_enable: bool,
    pub banking_mode: u8,
    pub num_banks: u8,
    pub save_pending: bool,
}

impl View for Cartridge {
    type V = CartV;

    open spec fn view(&self) -> CartV {
        CartV {
            rom: self.data@,
            ram: self.ram@,
            c_type: self.c_type,
            rom_bank: self.rom_bank,
            ram_bank: self.ram_bank,
            ram_enable: self.ram_enable,
            banking_mode: self.banking_mode,
            num_banks: self.num_banks,
            save_pending: self.save_pending,
        }
    }
}

/// A cartridge always holds at least a full header, and its ROM-size
/// header value is one of the defined codes (0 through 8).
pub open spec fn cart_wf(c: CartV) -> bool {
    &&& c.rom.len() >= 0x150
    &&& 1 <= c.num_banks <= 9
}

/// Whether a header type byte names a supported controller.
pub open spec fn supported_ctype(b: u8) -> bool {
    b == 0x00 || b == 0x01 || b == 0x02 || b == 0x03 || b == 0x11 || b == 0x12 || b == 0x13
}

/// The controller variant a header type byte names.
pub open spec fn spec_ctype(b: u8) -> CType {
    if b == 0x00 {
        CType::Rom
    } else if b == 0x01 || b == 0x02 || b == 0x03 {
        CType::Mbc1
    } else {
        CType::Mbc3
    }
}

/// RAM size in KiB from the header code at 0x149.
pub open spec fn spec_ram_size(b: u8) -> u16 {
    if b == 0x02 {
        8
    } else if b == 0x03 {
        32
    } else if b == 0x04 {
        128
    } else if b == 0x05 {
        64
    } else {
        0
    }
}

/// The ROM bank an MBC1 write selects: zero maps to one, then the value
/// is masked to the number of banks present.
pub open spec fn mbc1_bank(val: u8, num_banks: u8) -> u8
    recommends
        num_banks <= 9,
{
    let b: u8 = if val == 0 { 1 } else { val };
    ((b as u16) & (((1u16 << num_banks) - 1) as u16)) as u8
}

/// What a read returns, for every address the MMU routes to the
/// cartridge: 0x4000-0x7fff through the selected ROM bank,
/// 0xa000-0xbfff through the selected RAM bank, anything else from the
/// fixed ROM bank 0.  Addressing wraps modulo the backing store's
/// length; a read of absent RAM returns 0xff.
pub open spec fn cart_read(c: CartV, loc: u16) -> u8
    recommends
        cart_wf(c),
{
    if 0x4000 <= loc <= 0x7fff {
        c.rom[((loc - 0x4000) + c.rom_bank * 0x4000) as int % (c.rom.len() as int)]
    } else if 0xa000 <= loc <= 0xbfff {
        if c.ram.len() == 0 {
            0xff
        } else {
            c.ram[((loc - 0xa000) + c.ram_bank * 0x2000) as int % (c.ram.len() as int)]
        }
    } else {
        c.rom[(loc as int) % (c.rom.len() as int)]
    }
}

/// What a write does: 0x0000-0x1fff drives the RAM-enable latch (low
/// nibble 0xA enables; anything else disables and requests a save),
/// 0x2000-0x3fff selects the ROM bank, 0x4000-0x5fff the RAM bank
/// (2 bits), 0x6000-0x7fff the banking mode (1 bit); 0xa000-0xbfff
/// stores into banked RAM when enabled, and is silently dropped when
/// disabled or absent.
pub open spec fn cart_write(c: CartV, loc: u16, val: u8) -> CartV
    recommends
        cart_wf(c),
{
    if loc < 0x2000 {
        if val & 0x0f == 0x0a {
            CartV { ram_enable: true, ..c }
        } else {
            CartV { ram_enable: false, save_pending: true, ..c }
        }
    } else if loc < 0x4000 {
        match c.c_type {
            CType::Rom => CartV { rom_bank: mbc1_bank(val, c.num_banks), ..c },
            CType::Mbc1 => CartV { rom_bank: mbc1_bank(val, c.num_banks), ..c },
            CType::Mbc3 => CartV { rom_bank: val, ..c },
        }
    } else if loc < 0x6000 {
        CartV { ram_bank: val & 0x03, ..c }
    } else if loc < 0x8000 {
        CartV { banking_mode: val & 0x01, ..c }
    } else if 0xa000 <= loc <= 0xbfff && c.ram_enable && c.ram.len() > 0 {
        CartV {
            ram: c.ram.update(
                ((loc - 0xa000) + c.ram_bank * 0x2000) as int % (c.ram.len() as int),
                val,
            ),
            ..c
        }
    } else {
        c
    }
}

/// The executable side of `supported_ctype`, for embedders to test a
/// header before construction.
pub fn supported_ctype_byte(b: u8) -> (r: bool)
    ensures
        r == supported_ctype(b),
{
    b == 0x00 || b == 0x01 || b == 0x02 || b == 0x03 || b == 0x11 || b == 0x12 || b == 0x13
}

impl Cartridge {
    /// Decodes the header of `data` and attaches the persisted RAM blob
    /// if the embedder found one under the save key `name`; otherwise
    /// the RAM starts zeroed at the size the header declares.
    pub fn new(data: Vec<u8>, name: String, saved_ram: Option<Vec<u8>>) -> (c: Cartridge)
        requires
            data@.len() >= 0x150,
            supported_ctype(data@[0x147]),
            data@[0x148] <= 8,
        ensures
            cart_wf(c@),
            c@.rom == data@,
            c.name@ == name@,
            c.c_type == spec_ctype(data@[0x147]),
            c.rom_size == 32u16 << data@[0x148],
            c.num_banks == data@[0x148] + 1,
            c.ram_size == spec_ram_size(data@[0x149]),
            c@.ram == (match saved_ram {
                Option::Some(v) => v@,
                Option::None => Seq::new(spec_ram_size(data@[0x149]) as nat * 1024, |i: int| 0u8),
            }),
            !c.ram_enable,
            c.rom_bank == 1,
            c.ram_bank == 0,
            c.banking_mode == 0,
            !c.save_pending,
    {
        let t = data[0x147];
        let c_type = if t == 0x00 {
            CType::Rom
        } else if t == 0x01 || t == 0x02 || t == 0x03 {
            CType::Mbc1
        } else {
            CType::Mbc3
        };
        let size_code = data[0x148];
        let rom_size: u16 = 32u16 << size_code;
        let num_banks: u8 = size_code + 1;
        let rs = data[0x149];
        let ram_size: u16 = if rs == 0x02 {
            8
        } else if rs == 0x03 {
            32
        } else if rs == 0x04 {
            128
        } else if rs == 0x05 {
            64
        } else {
            0
        };
        let ram = match saved_ram {
            Option::Some(v) => v,
            Option::None => {
                let mut z: Vec<u8> = Vec::new();
                let n: usize = (ram_size as usize) * 1024;
                let mut i: usize = 0;
                while i < n
                    invariant
                        i <= n,
                        z@ =~= Seq::new(i as nat, |j: int| 0u8),
                    decreases n - i,
                {
                    z.push(0);
                    i = i + 1;
                }
                proof {
                    assert(z@ =~= Seq::new(ram_size as nat * 1024, |j: int| 0u8));
                }
                z
            },
        };
        Cartridge {
            name,
            data,
            ram,
            c_type,
            rom_size,
            ram_size,
            ram_enable: false,
            rom_bank: 1,
            num_banks,
            ram_bank: 0,
            banking_mode: 0,
            save_pending: false,
        }
    }

    pub fn read(&self, loc: u16) -> (v: u8)
        requires
            cart_wf(self@),
        ensures
            v == cart_read(self@, loc),
    {
        if loc >= 0x4000 && loc <= 0x7fff {
            let new_address = (loc as usize) - 0x4000;
            let idx = (new_address + (self.rom_bank as usize) * 0x4000) % self.data.len();
            return self.data[idx];
        }
        if loc >= 0xa000 && loc <= 0xbfff {
            if self.ram.len() == 0 {
                return 0xff;
            }
            let new_address = (loc as usize) - 0xa000;
            let idx = (new_address + (self.ram_bank as usize) * 0x2000) % self.ram.len();
            return self.ram[idx];
        }
        let idx = (loc as usize) % self.data.len();
        self.data[idx]
    }

    /// A 16-bit read is two 8-bit reads, low byte first; the high
    /// byte's address wraps modulo 0x10000.
    pub fn read_16(&self, loc: u16) -> (v: u16)
        requires
            cart_wf(self@),
        ensures
            v == cart_read(self@, loc) + cart_read(self@, (((loc + 1) % 0x10000) as u16)) * 256,
    {
        let low = self.read(loc);
        let high = self.read(loc.wrapping_add(1));
        (low as u16) + (high as u16) * 256
    }

    pub fn write(&mut self, loc: u16, val: u8)
        requires
            cart_wf(old(self)@),
        ensures
            final(self)@ == cart_write(old(self)@, loc, val),
            cart_wf(final(self)@),
            final(self).name@ == old(self).name@,
            final(self).rom_size == old(self).rom_size,
            final(self).ram_size == old(self).ram_size,
    {
        if loc < 0x2000 {
            if val & 0x0f == 0x0a {
                self.ram_enable = true;
            } else {
                self.ram_enable = false;
                self.save_pending = true;
            }
        } else if loc < 0x4000 {
            match self.c_type {
                CType::Rom | CType::Mbc1 => {
                    let b: u8 = if val == 0 { 1 } else { val };
                    let nb: u16 = self.num_banks as u16;
                    proof {
                        assert(1u16 << nb >= 1) by (bit_vector)
                            requires
                                nb <= 9,
                        ;
                    }
                    let mask: u16 = (1u16 << nb) - 1;
                    self.rom_bank = #[verifier::truncate] (((b as u16) & mask) as u8);
                },
                CType::Mbc3 => {
                    self.rom_bank = val;
                },
            }
        } else if loc < 0x6000 {
            self.ram_bank = val & 0x03;
        } else if loc < 0x8000 {
            self.banking_mode = val & 0x01;
        } else if loc >= 0xa000 && loc <= 0xbfff {
            if self.ram_enable && self.ram.len() > 0 {
                let new_address = (loc as usize) - 0xa000;
                let idx = (new_address + (self.ram_bank as usize) * 0x2000) % self.ram.len();
                self.ram[idx] = val;
            }
        }
    }

    /// A 16-bit write is two 8-bit writes, low byte first; the high
    /// byte's address wraps modulo 0x10000.
    pub fn write_16(&mut self, loc: u16, val: u16)
        requires
            cart_wf(old(self)@),
        ensures
            final(self)@ == cart_write(
                cart_write(old(self)@, loc, (val % 256) as u8),
                (((loc + 1) % 0x10000) as u16),
                (val / 256) as u8,
            ),
            cart_wf(final(self)@),
            final(self).name@ == old(self).name@,
    {
        let low = (val % 256) as u8;
        let high = (val / 256) as u8;
        self.write(loc, low);
        self.write(loc.wrapping_add(1), high);
    }

    /// Whether a disabling write has requested a save since the last
    /// time the embedder collected one; collecting clears the mark.
    pub fn take_save_request(&mut self) -> (r: bool)
        ensures
            r == old(self).save_pending,
            *final(self) == (Cartridge { save_pending: false, ..*old(self) }),
    {
        let r = self.save_pending;
        self.save_pending = false;
        r
    }
}

/// Law: on an MBC1 cartridge whose ROM holds all its banks, writing a
/// bank index k (1 <= k < bank count) to 0x2000 and then reading
/// 0x4000 returns rom[k * 0x4000]; writing 0 selects bank 1.
pub proof fn lemma_mbc1_bank_select(c: CartV, k: u8)
    requires
        cart_wf(c),
        c.c_type == CType::Mbc1,
        (k as u16) < (1u16 << c.num_banks),
        c.rom.len() == 0x4000 * (1u16 << c.num_banks),
    ensures
        1 <= k ==> cart_read(cart_write(c, 0x2000, k), 0x4000) == c.rom[k as int * 0x4000],
        cart_read(cart_write(c, 0x2000, 0), 0x4000) == c.rom[0x4000],
{
    let nb = c.num_banks;
    let banks = 1u16 << nb;
    assert(1 <= k ==> mbc1_bank(k, nb) == k) by (bit_vector)
        requires
            (k as u16) < (1u16 << nb),
            nb <= 9,
    ;
    assert(mbc1_bank(0, nb) == 1 && banks >= 2) by (bit_vector)
        requires
            1 <= nb <= 9,
            banks == (1u16 << nb),
    ;
    let len = c.rom.len() as int;
    assert forall|b: u8| 1 <= b && (b as u16) < banks implies cart_read(
        CartV { rom_bank: b, ..c },
        0x4000,
    ) == c.rom[b as int * 0x4000] by {
        assert(b as int * 0x4000 < banks as int * 0x4000) by (nonlinear_arith)
            requires
                (b as int) < (banks as int),
        ;
        assert((b as int * 0x4000) % len == b as int * 0x4000) by (nonlinear_arith)
            requires
                0 <= b as int * 0x4000 < len,
        ;
    }
}

} // verus!
