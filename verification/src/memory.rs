//! The MMU: the 64 KiB address space, routed between the cartridge,
//! plain RAM regions and the specialized I/O registers (joypad, DMA,
//! LY-coincidence, VRAM tile-cache invalidation).

use vstd::prelude::*;
use crate::cartridge::{Cartridge, CartV, cart_read, cart_write, cart_wf};
use crate::joypad::{Joypad, joy_state, joy_update, joy_set_all};
use crate::ppu::{Tile, tile_decode, lemma_tile_decode_frame};
use crate::state::{InitialState, FinalState, MemMismatch};

verus! {

pub struct Memory {
    pub mem: Vec<u8>,
    pub cart: Cartridge,
    pub new_graphics: bool,
    pub joypad: Joypad,
    /// In test mode the whole address space is one flat RAM with no
    /// routing, for the single-step conformance harness.
    pub test_mode: bool,
    pub tile_cache: Vec<Option<Tile>>,
}

/// The mathematical state of the MMU.
#[verifier::ext_equal]
pub ghost struct MemV {
    pub mem: Seq<u8>,
    pub cart: CartV,
    pub joy: Joypad,
    pub test_mode: bool,
    pub tiles: Seq<Option<Seq<u8>>>,
}

impl View for Memory {
    type V = MemV;

    open spec fn view(&self) -> MemV {
        MemV {
            mem: self.mem@,
            cart: self.cart@,
            joy: self.joypad,
            test_mode: self.test_mode,
            tiles: Seq::new(
                self.tile_cache@.len(),
                |i: int|
                    match self.tile_cache@[i] {
                        Option::Some(t) => Option::Some(t.data@),
                        Option::None => Option::None,
                    },
            ),
        }
    }
}

/// Well-formed MMU state: full address space, 384 tile-cache entries,
/// a well-formed cartridge, and every cached tile agreeing with the
/// decoding of its current VRAM bytes.
pub open spec fn mem_wf(m: MemV) -> bool {
    &&& m.mem.len() == 0x10000
    &&& m.tiles.len() == 384
    &&& cart_wf(m.cart)
    &&& forall|t: int|
        0 <= t < 384 && m.tiles[t] is Some ==> (#[trigger] m.tiles[t])->0 == tile_decode(m.mem, t)
}

/// What a read returns.  Routing: test mode reads the flat array;
/// otherwise addresses below 0x8000 and 0xa000-0xbfff go to the
/// cartridge, 0xff00 composes the joypad register, and everything else
/// reads the plain array.
#[verifier::opaque]
pub open spec fn mem_read(m: MemV, loc: u16) -> u8
    recommends
        mem_wf(m),
{
    if m.test_mode {
        m.mem[loc as int]
    } else if loc < 0x8000 || (0xa000 <= loc && loc <= 0xbfff) {
        cart_read(m.cart, loc)
    } else if loc == 0xff00 {
        joy_state(m.joy)
    } else {
        m.mem[loc as int]
    }
}

/// A 16-bit read: two 8-bit reads, low byte first, the second address
/// wrapping modulo 0x10000.
pub open spec fn mem_read_16(m: MemV, loc: u16) -> u16 {
    (mem_read(m, loc) + mem_read(m, ((loc + 1) % 0x10000) as u16) * 256) as u16
}

/// The DMA transfer a write to 0xff46 performs: a full 256-byte page
/// from `val << 8` is copied into 0xfe00-0xfeff.  OAM proper ends at
/// 0xfe9f; the page's tail lands in the unused area behind it, a
/// deliberate choice of the full page over a copy cut at the OAM end.
pub open spec fn dma_copy(mem: Seq<u8>, val: u8) -> Seq<u8>
    recommends
        mem.len() == 0x10000,
{
    Seq::new(
        mem.len(),
        |i: int|
            if 0xfe00 <= i < 0xff00 {
                mem[val * 256 + (i - 0xfe00)]
            } else {
                mem[i]
            },
    )
}

/// The LY/LYC comparison a write of `val` to 0xff44 performs: STAT bit
/// 2 is set on coincidence with LYC (raising the STAT interrupt flag
/// if STAT bit 6 enables it) and cleared otherwise.
pub open spec fn ly_compare(m: MemV, val: u8) -> MemV
    recommends
        mem_wf(m),
{
    if val == m.mem[0xff45] {
        let stat = m.mem[0xff41] | 0x4;
        let m1 = MemV { mem: m.mem.update(0xff41, stat), ..m };
        if stat & 0b01000000 > 0 {
            MemV { mem: m1.mem.update(0xff0f, (m1.mem[0xff0f] | 0x2)), ..m1 }
        } else {
            m1
        }
    } else {
        MemV { mem: m.mem.update(0xff41, (m.mem[0xff41] & 0xfb)), ..m }
    }
}

/// What a write does.  A VRAM write at 0x8000-0x97ff first invalidates
/// the cached tile whose 16 bytes it touches; then test mode stores
/// into the flat array; otherwise cartridge addresses go to the
/// cartridge, and the remaining addresses store into the array after
/// the joypad (0xff00), DMA (0xff46) and LY-coincidence (0xff44) side
/// effects.
#[verifier::opaque]
pub open spec fn mem_write(m: MemV, loc: u16, val: u8) -> MemV
    recommends
        mem_wf(m),
{
    let m0 = if 0x8000 <= loc <= 0x97ff {
        MemV { tiles: m.tiles.update(((loc - 0x8000) / 16) as int, Option::None), ..m }
    } else {
        m
    };
    if m0.test_mode {
        MemV { mem: m0.mem.update(loc as int, val), ..m0 }
    } else if loc < 0x8000 || (0xa000 <= loc && loc <= 0xbfff) {
        MemV { cart: cart_write(m0.cart, loc, val), ..m0 }
    } else {
        let m1 = if loc == 0xff00 {
            MemV { joy: joy_update(m0.joy, val), ..m0 }
        } else {
            m0
        };
        let m2 = if loc == 0xff46 {
            MemV { mem: dma_copy(m1.mem, val), ..m1 }
        } else {
            m1
        };
        let m3 = if loc == 0xff44 {
            ly_compare(m2, val)
        } else {
            m2
        };
        MemV { mem: m3.mem.update(loc as int, val), ..m3 }
    }
}

/// A 16-bit write: two 8-bit writes, low byte first, the second
/// address wrapping modulo 0x10000.
pub open spec fn mem_write_16(m: MemV, loc: u16, val: u16) -> MemV {
    mem_write(mem_write(m, loc, (val % 256) as u8), ((loc + 1) % 0x10000) as u16, (val / 256) as u8)
}

impl Memory {
    /// A fresh MMU around `cart`; with no cartridge, a flat test-mode
    /// memory for the conformance harness.
    pub fn new(cart: Option<Cartridge>) -> (m: Memory)
        requires
            cart is Some ==> cart_wf(cart->0@),
        ensures
            mem_wf(m@),
            m@.mem =~= Seq::new(0x10000, |i: int| 0u8),
            m@.tiles =~= Seq::new(384, |i: int| Option::<Seq<u8>>::None),
            m.test_mode == (cart is None),
            cart is Some ==> m@.cart == cart->0@,
            m.joypad == crate::joypad::joy_init(),
            m.new_graphics,
    {
        let mut test_mode = false;
        let c: Cartridge = match cart {
            Option::None => {
                test_mode = true;
                let mut zeros: Vec<u8> = Vec::new();
                let mut i: usize = 0;
                while i < 0x8000
                    invariant
                        i <= 0x8000,
                        zeros@.len() == i,
                        forall|j: int| 0 <= j < i ==> zeros@[j] == 0u8,
                    decreases 0x8000 - i,
                {
                    zeros.push(0);
                    i = i + 1;
                }
                Cartridge::new(zeros, String::new(), Option::None)
            },
            Option::Some(x) => x,
        };
        let mut mem: Vec<u8> = Vec::new();
        let mut i: usize = 0;
        while i < 0x10000
            invariant
                i <= 0x10000,
                mem@ =~= Seq::new(i as nat, |j: int| 0u8),
            decreases 0x10000 - i,
        {
            mem.push(0);
            i = i + 1;
        }
        let mut tile_cache: Vec<Option<Tile>> = Vec::new();
        let mut i: usize = 0;
        while i < 384
            invariant
                i <= 384,
                tile_cache@.len() == i,
                forall|j: int| 0 <= j < i ==> tile_cache@[j] is None,
            decreases 384 - i,
        {
            tile_cache.push(Option::None);
            i = i + 1;
        }
        let m = Memory { mem, cart: c, new_graphics: true, joypad: Joypad::new(), test_mode, tile_cache };
        proof {
            assert(m@.tiles =~= Seq::new(384, |i: int| Option::<Seq<u8>>::None));
        }
        m
    }

    pub fn read(&self, loc: u16) -> (v: u8)
        requires
            mem_wf(self@),
        ensures
            v == mem_read(self@, loc),
    {
        proof {
            reveal(mem_read);
        }
        if self.test_mode {
            return self.mem[loc as usize];
        }
        if loc < 0x8000 || (0xa000 <= loc && loc <= 0xbfff) {
            return self.cart.read(loc);
        }
        if loc == 0xff00 {
            return self.joypad.get_joypad_state();
        }
        self.mem[loc as usize]
    }

    pub fn read_16(&self, loc: u16) -> (v: u16)
        requires
            mem_wf(self@),
        ensures
            v == mem_read_16(self@, loc),
    {
        let low = self.read(loc);
        let high = self.read(loc.wrapping_add(1));
        (low as u16) + (high as u16) * 256
    }

    pub fn write(&mut self, loc: u16, val: u8)
        requires
            mem_wf(old(self)@),
        ensures
            final(self)@ == mem_write(old(self)@, loc, val),
            mem_wf(final(self)@),
            final(self).test_mode == old(self).test_mode,
            final(self).new_graphics == old(self).new_graphics,
            final(self).cart.name@ == old(self).cart.name@,
    {
        proof {
            reveal(mem_write);
        }
        let ghost pre = self@;
        if loc >= 0x8000 && loc <= 0x97ff {
            let t = ((loc - 0x8000) / 16) as usize;
            self.tile_cache[t] = Option::None;
            proof {
                assert(self@.tiles =~= pre.tiles.update(((loc - 0x8000) / 16) as int, Option::None));
                assert(self@ =~= (MemV {
                    tiles: pre.tiles.update(((loc - 0x8000) / 16) as int, Option::None),
                    ..pre
                }));
            }
        }
        let ghost m0 = self@;
        proof {
            lemma_invalidation_wf(pre, m0, loc);
        }
        if self.test_mode {
            self.mem[loc as usize] = val;
            proof {
                assert(self@ =~= (MemV { mem: m0.mem.update(loc as int, val), ..m0 }));
                lemma_plain_update_wf(m0, self@, loc, val);
            }
            return;
        }
        if loc < 0x8000 || (0xa000 <= loc && loc <= 0xbfff) {
            self.cart.write(loc, val);
            proof {
                assert(self@ =~= (MemV { cart: cart_write(m0.cart, loc, val), ..m0 }));
            }
            return;
        }
        if loc == 0xff00 {
            self.joypad.update_joypad(val);
        }
        let ghost m1 = self@;
        if loc == 0xff46 {
            let source: usize = (val as usize) * 256;
            let ghost base = self.mem@;
            let ghost pre_loop = *self;
            let mut i: usize = 0;
            while i < 0x100
                invariant
                    i <= 0x100,
                    self.mem@.len() == 0x10000,
                    base.len() == 0x10000,
                    source == val * 256,
                    self.cart == pre_loop.cart,
                    self.joypad == pre_loop.joypad,
                    self.tile_cache == pre_loop.tile_cache,
                    self.test_mode == pre_loop.test_mode,
                    self.new_graphics == pre_loop.new_graphics,
                    forall|k: int|
                        0xfe00 <= k < 0xfe00 + i ==> self.mem@[k] == base[source + (k - 0xfe00)],
                    forall|k: int|
                        0 <= k < 0x10000 && !(0xfe00 <= k < 0xfe00 + i) ==> self.mem@[k] == base[k],
                decreases 0x100 - i,
            {
                proof {
                    assert(source + i < 0xfe00 || source + i >= 0xfe00 + i);
                }
                let b = self.mem[source + i];
                self.mem[0xfe00 + i] = b;
                i = i + 1;
            }
            proof {
                assert(self.mem@ =~= dma_copy(base, val));
                assert(self@ =~= (MemV { mem: dma_copy(m1.mem, val), ..m1 }));
            }
        }
        let ghost m2 = self@;
        if loc == 0xff44 {
            if val == self.mem[0xff45] {
                let stat = self.mem[0xff41] | 0x4;
                self.mem[0xff41] = stat;
                if stat & 0b01000000 > 0 {
                    let f = self.mem[0xff0f] | 0x2;
                    self.mem[0xff0f] = f;
                }
            } else {
                let s = self.mem[0xff41] & 0xfb;
                self.mem[0xff41] = s;
            }
            proof {
                assert(self@ =~= ly_compare(m2, val));
            }
        }
        let ghost m3 = self@;
        self.mem[loc as usize] = val;
        proof {
            assert(self@ =~= (MemV { mem: m3.mem.update(loc as int, val), ..m3 }));
            assert(self@ =~= mem_write(pre, loc, val));
            lemma_io_update_wf(m0, self@, loc, val);
        }
    }

    pub fn write_16(&mut self, loc: u16, val: u16)
        requires
            mem_wf(old(self)@),
        ensures
            final(self)@ == mem_write_16(old(self)@, loc, val),
            mem_wf(final(self)@),
            final(self).test_mode == old(self).test_mode,
            final(self).new_graphics == old(self).new_graphics,
            final(self).cart.name@ == old(self).cart.name@,
    {
        let low = (val % 256) as u8;
        let high = (val / 256) as u8;
        self.write(loc, low);
        self.write(loc.wrapping_add(1), high);
    }

    /// Applies every `[address, value]` pair of a test's initial RAM
    /// image, in order.
    pub fn load_state(&mut self, state: &InitialState)
        requires
            mem_wf(old(self)@),
            forall|i: int| 0 <= i < state.ram@.len() ==> (#[trigger] state.ram@[i])@.len() >= 2,
        ensures
            final(self)@ == load_fold(old(self)@, state.ram@, state.ram@.len() as int),
            mem_wf(final(self)@),
            final(self).test_mode == old(self).test_mode,
    {
        let n = state.ram.len();
        let mut i: usize = 0;
        while i < n
            invariant
                i <= n,
                n == state.ram@.len(),
                forall|k: int| 0 <= k < state.ram@.len() ==> (#[trigger] state.ram@[k])@.len() >= 2,
                mem_wf(self@),
                self@ == load_fold(old(self)@, state.ram@, i as int),
                self.test_mode == old(self).test_mode,
            decreases n - i,
        {
            let pair = &state.ram[i];
            let addr = pair[0];
            let v = (pair[1] % 256) as u8;
            self.write(addr, v);
            i = i + 1;
        }
    }

    /// Checks every `[address, value]` pair of a test's expected RAM
    /// image, reporting the first mismatching address.
    pub fn compare_state(&self, state: &FinalState) -> (r: Result<(), MemMismatch>)
        requires
            mem_wf(self@),
            forall|i: int| 0 <= i < state.ram@.len() ==> (#[trigger] state.ram@[i])@.len() >= 2,
        ensures
            r is Ok <==> (forall|i: int|
                0 <= i < state.ram@.len() ==> ram_pair_matches(self@, #[trigger] state.ram@[i])),
            r is Err ==> exists|i: int|
                {
                    &&& 0 <= i < state.ram@.len()
                    &&& !ram_pair_matches(self@, #[trigger] state.ram@[i])
                    &&& forall|j: int| 0 <= j < i ==> ram_pair_matches(self@, #[trigger] state.ram@[j])
                    &&& r->Err_0 == (MemMismatch {
                        addr: state.ram@[i]@[0],
                        expected: (state.ram@[i]@[1] % 256) as u8,
                        actual: mem_read(self@, state.ram@[i]@[0]),
                    })
                },
    {
        let n = state.ram.len();
        let mut i: usize = 0;
        while i < n
            invariant
                i <= n,
                n == state.ram@.len(),
                mem_wf(self@),
                forall|k: int| 0 <= k < state.ram@.len() ==> (#[trigger] state.ram@[k])@.len() >= 2,
                forall|j: int| 0 <= j < i ==> ram_pair_matches(self@, #[trigger] state.ram@[j]),
            decreases n - i,
        {
            let pair = &state.ram[i];
            let addr = pair[0];
            let expected = (pair[1] % 256) as u8;
            let actual = self.read(addr);
            if expected != actual {
                return Result::Err(MemMismatch { addr, expected, actual });
            }
            i = i + 1;
        }
        Result::Ok(())
    }

    /// Writes the post-boot-ROM I/O register defaults: the fixed table
    /// the boot ROM leaves behind, through the routed writes.
    pub fn simulate_bootloader(&mut self)
        requires
            mem_wf(old(self)@),
        ensures
            final(self)@ == boot_io_writes(old(self)@),
            mem_wf(final(self)@),
            final(self).test_mode == old(self).test_mode,
    {
        self.write(0xff00, 0xcf);
        self.write(0xff01, 0x00);
        self.write(0xff02, 0x7e);
        self.write(0xff04, 0xab);
        self.write(0xff05, 0x00);
        self.write(0xff06, 0x00);
        self.write(0xff07, 0xf8);
        self.write(0xff0f, 0xe1);
        self.write(0xff10, 0x80);
        self.write(0xff11, 0xbf);
        self.write(0xff12, 0xf3);
        self.write(0xff13, 0xff);
        self.write(0xff14, 0xbf);
        self.write(0xff16, 0x3f);
        self.write(0xff17, 0x00);
        self.write(0xff18, 0xff);
        self.write(0xff19, 0xbf);
        self.write(0xff1a, 0x7f);
        self.write(0xff1b, 0xff);
        self.write(0xff1c, 0x9f);
        self.write(0xff1d, 0xff);
        self.write(0xff1e, 0xbf);
        self.write(0xff20, 0xff);
        self.write(0xff21, 0x00);
        self.write(0xff22, 0x00);
        self.write(0xff23, 0xbf);
        self.write(0xff24, 0x77);
        self.write(0xff25, 0xf3);
        self.write(0xff26, 0xf1);
        self.write(0xff40, 0x91);
        self.write(0xff41, 0x86);
        self.write(0xff42, 0x00);
        self.write(0xff43, 0x00);
        self.write(0xff44, 0x00);
        self.write(0xff45, 0x00);
        self.write(0xff46, 0xff);
        self.write(0xff47, 0xfc);
        self.write(0xff4a, 0x00);
        self.write(0xff4b, 0x00);
        self.write(0xff4d, 0xff);
        self.write(0xff4f, 0xff);
        self.write(0xff51, 0xff);
        self.write(0xff52, 0xff);
        self.write(0xff53, 0xff);
        self.write(0xff54, 0xff);
        self.write(0xff55, 0xff);
        self.write(0xff56, 0xff);
        self.write(0xff68, 0xff);
        self.write(0xff69, 0xff);
        self.write(0xff6a, 0xff);
        self.write(0xff6b, 0xff);
        self.write(0xff70, 0xff);
        self.write(0xffff, 0x00);
    }

    /// Latches the joypad buttons and raises the joypad interrupt flag
    /// when a newly pressed button's group is selected for polling.
    pub fn set_joypad_state(
        &mut self,
        up: bool,
        right: bool,
        down: bool,
        left: bool,
        a: bool,
        b: bool,
        select: bool,
        start: bool,
    )
        requires
            mem_wf(old(self)@),
        ensures
            mem_wf(final(self)@),
            ({
                let s = joy_set_all(old(self)@.joy, up, right, down, left, a, b, select, start);
                &&& final(self)@.joy == s.0
                &&& final(self)@.mem == if s.1 {
                    old(self)@.mem.update(0xff0f, (old(self)@.mem[0xff0f] | 0b10000))
                } else {
                    old(self)@.mem
                }
                &&& final(self)@.cart == old(self)@.cart
                &&& final(self)@.tiles == old(self)@.tiles
                &&& final(self)@.test_mode == old(self)@.test_mode
            }),
    {
        let ghost pre = self@;
        let request_interrupt = self.joypad.set_joypad_state(up, right, down, left, a, b, select, start);
        if request_interrupt {
            let f = self.mem[0xff0f] | 0b10000;
            self.mem[0xff0f] = f;
        }
        proof {
            assert forall|t: int| 0 <= t < 384 && self@.tiles[t] is Some implies (#[trigger] self@.tiles[t])->0
                == tile_decode(self@.mem, t) by {
                lemma_tile_decode_frame(self@.mem, pre.mem, t);
            }
        }
    }
}

/// The initial RAM image applied pair by pair: the state after the
/// first `n` writes.
pub open spec fn load_fold(m: MemV, rams: Seq<Vec<u16>>, n: int) -> MemV
    decreases n,
{
    if n <= 0 {
        m
    } else {
        mem_write(load_fold(m, rams, n - 1), rams[n - 1]@[0], (rams[n - 1]@[1] % 256) as u8)
    }
}

/// Whether one `[address, value]` pair of an expected RAM image holds.
pub open spec fn ram_pair_matches(m: MemV, pair: Vec<u16>) -> bool
    recommends
        pair@.len() >= 2,
{
    mem_read(m, pair@[0]) == (pair@[1] % 256) as u8
}

/// Invalidating one tile-cache entry preserves coherence.
proof fn lemma_invalidation_wf(pre: MemV, post: MemV, loc: u16)
    requires
        mem_wf(pre),
        post == if 0x8000 <= loc <= 0x97ff {
            MemV { tiles: pre.tiles.update(((loc - 0x8000) / 16) as int, Option::None), ..pre }
        } else {
            pre
        },
    ensures
        mem_wf(post),
{
}

/// A plain store that either lies outside all tile ranges or whose
/// tile was just invalidated preserves coherence.
proof fn lemma_plain_update_wf(m0: MemV, post: MemV, loc: u16, val: u8)
    requires
        mem_wf(m0),
        0x8000 <= loc <= 0x97ff ==> m0.tiles[((loc - 0x8000) / 16) as int] is None,
        post == (MemV { mem: m0.mem.update(loc as int, val), ..m0 }),
    ensures
        mem_wf(post),
{
    assert forall|t: int| 0 <= t < 384 && post.tiles[t] is Some implies (#[trigger] post.tiles[t])->0
        == tile_decode(post.mem, t) by {
        assert(m0.tiles[t]->0 == tile_decode(m0.mem, t));
        assert forall|a: int| 0x8000 + t * 16 <= a < 0x8000 + t * 16 + 16 implies post.mem[a]
            == m0.mem[a] by {
            if a == loc {
                assert(0x8000 <= loc <= 0x97ff ==> ((loc - 0x8000) / 16) as int == t);
            }
        }
        lemma_tile_decode_frame(post.mem, m0.mem, t);
    }
}

/// The I/O-register path (joypad select, DMA, LY-coincidence, then the
/// plain store) touches no tile bytes, so coherence is preserved.
proof fn lemma_io_update_wf(m0: MemV, post: MemV, loc: u16, val: u8)
    requires
        mem_wf(m0),
        !(loc < 0x8000 || (0xa000 <= loc && loc <= 0xbfff)),
        0x8000 <= loc <= 0x97ff ==> m0.tiles[((loc - 0x8000) / 16) as int] is None,
        post.tiles == m0.tiles,
        post.cart == m0.cart,
        post.mem.len() == 0x10000,
        forall|a: int| 0 <= a < 0x9800 && a != loc ==> post.mem[a] == m0.mem[a],
    ensures
        mem_wf(post),
{
    assert forall|t: int| 0 <= t < 384 && post.tiles[t] is Some implies (#[trigger] post.tiles[t])->0
        == tile_decode(post.mem, t) by {
        assert(m0.tiles[t]->0 == tile_decode(m0.mem, t));
        assert forall|a: int| 0x8000 + t * 16 <= a < 0x8000 + t * 16 + 16 implies post.mem[a]
            == m0.mem[a] by {
            assert(a < 0x9800);
            if a == loc {
                assert(0x8000 <= loc <= 0x97ff ==> ((loc - 0x8000) / 16) as int == t);
            }
        }
        lemma_tile_decode_frame(post.mem, m0.mem, t);
    }
}

/// The post-boot-ROM I/O register image: the fixed table of values
/// the boot ROM leaves in the I/O registers, applied through the
/// routed writes in a fixed order.
pub open spec fn boot_io_writes(m: MemV) -> MemV {
    let m = mem_write(m, 0xff00, 0xcf);
    let m = mem_write(m, 0xff01, 0x00);
    let m = mem_write(m, 0xff02, 0x7e);
    let m = mem_write(m, 0xff04, 0xab);
    let m = mem_write(m, 0xff05, 0x00);
    let m = mem_write(m, 0xff06, 0x00);
    let m = mem_write(m, 0xff07, 0xf8);
    let m = mem_write(m, 0xff0f, 0xe1);
    let m = mem_write(m, 0xff10, 0x80);
    let m = mem_write(m, 0xff11, 0xbf);
    let m = mem_write(m, 0xff12, 0xf3);
    let m = mem_write(m, 0xff13, 0xff);
    let m = mem_write(m, 0xff14, 0xbf);
    let m = mem_write(m, 0xff16, 0x3f);
    let m = mem_write(m, 0xff17, 0x00);
    let m = mem_write(m, 0xff18, 0xff);
    let m = mem_write(m, 0xff19, 0xbf);
    let m = mem_write(m, 0xff1a, 0x7f);
    let m = mem_write(m, 0xff1b, 0xff);
    let m = mem_write(m, 0xff1c, 0x9f);
    let m = mem_write(m, 0xff1d, 0xff);
    let m = mem_write(m, 0xff1e, 0xbf);
    let m = mem_write(m, 0xff20, 0xff);
    let m = mem_write(m, 0xff21, 0x00);
    let m = mem_write(m, 0xff22, 0x00);
    let m = mem_write(m, 0xff23, 0xbf);
    let m = mem_write(m, 0xff24, 0x77);
    let m = mem_write(m, 0xff25, 0xf3);
    let m = mem_write(m, 0xff26, 0xf1);
    let m = mem_write(m, 0xff40, 0x91);
    let m = mem_write(m, 0xff41, 0x86);
    let m = mem_write(m, 0xff42, 0x00);
    let m = mem_write(m, 0xff43, 0x00);
    let m = mem_write(m, 0xff44, 0x00);
    let m = mem_write(m, 0xff45, 0x00);
    let m = mem_write(m, 0xff46, 0xff);
    let m = mem_write(m, 0xff47, 0xfc);
    let m = mem_write(m, 0xff4a, 0x00);
    let m = mem_write(m, 0xff4b, 0x00);
    let m = mem_write(m, 0xff4d, 0xff);
    let m = mem_write(m, 0xff4f, 0xff);
    let m = mem_write(m, 0xff51, 0xff);
    let m = mem_write(m, 0xff52, 0xff);
    let m = mem_write(m, 0xff53, 0xff);
    let m = mem_write(m, 0xff54, 0xff);
    let m = mem_write(m, 0xff55, 0xff);
    let m = mem_write(m, 0xff56, 0xff);
    let m = mem_write(m, 0xff68, 0xff);
    let m = mem_write(m, 0xff69, 0xff);
    let m = mem_write(m, 0xff6a, 0xff);
    let m = mem_write(m, 0xff6b, 0xff);
    let m = mem_write(m, 0xff70, 0xff);
    let m = mem_write(m, 0xffff, 0x00);
    m
}

/// Law: a VRAM write within tile t's 16-byte range invalidates cached
/// tile t and no other cache entry.
pub proof fn lemma_vram_write_invalidates_one_tile(m: MemV, loc: u16, val: u8)
    requires
        mem_wf(m),
        0x8000 <= loc <= 0x97ff,
    ensures
        ({
            let t = ((loc - 0x8000) / 16) as int;
            let m2 = mem_write(m, loc, val);
            &&& m2.tiles[t] is None
            &&& forall|u: int| 0 <= u < 384 && u != t ==> m2.tiles[u] == m.tiles[u]
        }),
{
    reveal(mem_write);
}

} // verus!
