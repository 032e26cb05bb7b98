//! A cycle-level emulator core for an 8-bit handheld game console: an
//! SM83-family CPU interpreter, a banked cartridge/memory controller, a
//! scanline picture processor, and the timer/interrupt logic that drives
//! them together.

use vstd::prelude::*;

pub mod bits;
pub mod cartridge;
pub mod cpu;
pub mod joypad;
pub mod memory;
pub mod ppu;
pub mod state;

verus! {

use crate::cartridge::Cartridge;
use crate::cpu::{CPU, Fault, cpu_wf, spec_cpu_init, spec_cpu_boot, int_step, int_pending, exec_step, inc8, spec_unimplemented, wrap16, lemma_halted_poll_means_idle};
use crate::memory::{Memory, MemV, mem_read, mem_write, mem_wf, boot_io_writes};
use crate::ppu::{PPU, ppu_wf};

/// The LCD control register's address.
pub const LCDC: u16 = 0xff40;

/// The TAC-selected TIMA rate, in cycles per tick: bits 0-1 choose
/// among 1024, 16, 64 and 256.
pub open spec fn timer_rate(tac: u8) -> u16 {
    if tac & 0b11 == 0 {
        1024
    } else if tac & 0b11 == 1 {
        16
    } else if tac & 0b11 == 2 {
        64
    } else {
        256
    }
}

/// The free-running divider drained: while at least 64 cycles are
/// banked, 64 are consumed and the 8-bit DIV register at 0xff04
/// increments, wrapping.
pub open spec fn div_steps(m: MemV, dc: int) -> (MemV, int)
    recommends
        mem_wf(m),
    decreases dc,
{
    if dc >= 64 {
        let d = mem_read(m, 0xff04);
        div_steps(mem_write(m, 0xff04, inc8(d)), dc - 64)
    } else {
        (m, dc)
    }
}

/// One TIMA tick: an increment, except that at 0xff the counter
/// reloads from TMA (0xff06) and the Timer interrupt flag (bit 2 of
/// 0xff0f) is raised.
pub open spec fn tima_step(m: MemV) -> MemV
    recommends
        mem_wf(m),
{
    let tima = mem_read(m, 0xff05);
    if tima == 0xff {
        let i_flags = mem_read(m, 0xff0f);
        let m2 = mem_write(m, 0xff05, mem_read(m, 0xff06));
        mem_write(m2, 0xff0f, i_flags | 0b100)
    } else {
        mem_write(m, 0xff05, (tima + 1) as u8)
    }
}

/// The timer drained: while at least one rate's worth of cycles is
/// banked, that many are consumed and TIMA ticks once.
pub open spec fn tima_steps(m: MemV, tc: int, r: int) -> (MemV, int)
    recommends
        mem_wf(m),
    decreases tc,
{
    if r > 0 && tc >= r {
        tima_steps(tima_step(m), tc - r, r)
    } else {
        (m, tc)
    }
}

/// Law: with TIMA at 0xff, the next timer tick reloads it from TMA
/// and raises interrupt-flag bit 2.
pub proof fn lemma_tima_overflow_reload(m: MemV)
    requires
        mem_wf(m),
        mem_read(m, 0xff05) == 0xff,
    ensures
        ({
            let m2 = tima_step(m);
            &&& mem_read(m2, 0xff05) == mem_read(m, 0xff06)
            &&& mem_read(m2, 0xff0f) & 0b100 != 0
        }),
{
    reveal(crate::memory::mem_read);
    reveal(crate::memory::mem_write);
    let i_flags = mem_read(m, 0xff0f);
    let raised = i_flags | 0b100;
    assert(raised & 0b100 != 0) by (bit_vector)
        requires
            raised == i_flags | 0b100,
    ;
}

/// The whole emulator: CPU, MMU with cartridge and joypad, picture
/// processor, and the frame scheduler's cycle bookkeeping.
pub struct GameBoy {
    pub mem: Memory,
    pub cpu: CPU,
    pub ppu: PPU,
    /// The cycle budget of the current STAT mode, counted down by
    /// executed instructions.
    pub cnt: i32,
    /// Cycles banked towards the next DIV increment (64 each).
    pub div_counter: u16,
    /// Cycles banked towards the next TIMA tick.
    pub timer_counter: u16,
    /// Set at the transition into the vertical blank, once per frame;
    /// the embedder presents the framebuffer and clears it.
    pub frame_ready: bool,
    /// Set when the frame loop's step watchdog cut off a guest program
    /// that never reached a frame boundary; cleared at the start of
    /// every `run` call.
    pub starved: bool,
}

pub open spec fn gb_wf(g: GameBoy) -> bool {
    &&& mem_wf(g.mem@)
    &&& cpu_wf(g.cpu)
    &&& ppu_wf(g.ppu)
    &&& g.div_counter < 64
    &&& g.timer_counter < 1280
    &&& -6 <= g.cnt <= 4800
}

impl GameBoy {
    /// A fresh emulator around a cartridge image, with the RAM blob
    /// the embedder found persisted under the save key, if any.
    pub fn new(data: Vec<u8>, name: String, saved_ram: Option<Vec<u8>>) -> (g: GameBoy)
        requires
            data@.len() >= 0x150,
            crate::cartridge::supported_ctype(data@[0x147]),
            data@[0x148] <= 8,
        ensures
            gb_wf(g),
            g.cpu == spec_cpu_init(),
            g.cnt == 0,
            g.div_counter == 0,
            g.timer_counter == 0,
            !g.frame_ready,
            !g.starved,
            !g.mem.test_mode,
    {
        let cart = Cartridge::new(data, name, saved_ram);
        let mem = Memory::new(Option::Some(cart));
        GameBoy {
            mem,
            cpu: CPU::new(),
            ppu: PPU::new(),
            cnt: 0,
            timer_counter: 0,
            div_counter: 0,
            frame_ready: false,
            starved: false,
        }
    }

    /// Sets the post-boot-ROM register and I/O defaults and opens the
    /// first mode budget.
    pub fn start(&mut self)
        requires
            gb_wf(*old(self)),
        ensures
            gb_wf(*final(self)),
            final(self).cpu == spec_cpu_boot(old(self).cpu),
            final(self).mem@ == boot_io_writes(old(self).mem@),
            final(self).cnt == 80,
    {
        self.cpu.simulate_bootloader();
        self.mem.simulate_bootloader();
        self.cnt = 80;
    }

    /// One CPU step against the MMU: exactly `CPU::run`.
    pub fn step(&mut self) -> (r: Result<u8, Fault>)
        requires
            gb_wf(*old(self)),
        ensures
            mem_wf(final(self).mem@),
            cpu_wf(final(self).cpu),
            final(self).ppu == old(self).ppu,
            final(self).cnt == old(self).cnt,
            final(self).div_counter == old(self).div_counter,
            final(self).timer_counter == old(self).timer_counter,
            final(self).frame_ready == old(self).frame_ready,
            final(self).starved == old(self).starved,
            r is Ok ==> r->Ok_0 <= 6,
            r == Result::<u8, Fault>::Ok(0) ==> ({
                let s = int_step(old(self).cpu, old(self).mem@);
                s.2 == 0 && s.0.halt
            }),
            ({
                let s = int_step(old(self).cpu, old(self).mem@);
                &&& (s.2 != 0 || s.0.halt) ==> (r == Result::<u8, Fault>::Ok(s.2) && final(self).cpu == s.0
                    && final(self).mem@ == s.1)
                &&& (s.2 == 0 && !s.0.halt) ==> ({
                    let op = mem_read(s.1, s.0.pc);
                    if spec_unimplemented(op) {
                        &&& r == Result::<u8, Fault>::Err(Fault { opcode: op, addr: s.0.pc })
                        &&& final(self).cpu == (CPU { pc: wrap16(s.0.pc + 1), ..s.0 })
                        &&& final(self).mem@ == s.1
                    } else {
                        let e = exec_step(s.0, s.1);
                        &&& r == Result::<u8, Fault>::Ok(e.2)
                        &&& final(self).cpu == e.0
                        &&& final(self).mem@ == e.1
                    }
                })
            }),
    {
        self.cpu.run(&mut self.mem)
    }

    /// Renders one scanline into the framebuffer when LY names a
    /// visible line (the composed background and sprite picture, with
    /// the window line counter advancing only when the window is
    /// drawn), resets the window counter in the vertical blank, and
    /// advances LY by one modulo 154 through the routed LY write.
    pub fn advance_line(&mut self)
        requires
            gb_wf(*old(self)),
        ensures
            gb_wf(*final(self)),
            final(self).cpu == old(self).cpu,
            final(self).cnt == old(self).cnt,
            final(self).div_counter == old(self).div_counter,
            final(self).timer_counter == old(self).timer_counter,
            final(self).frame_ready == old(self).frame_ready,
            final(self).starved == old(self).starved,
            ({
                let ly = mem_read(old(self).mem@, 0xff44);
                let ly2 = ((ly + 1) % 154) as u8;
                let lcdc = mem_read(old(self).mem@, 0xff40);
                &&& final(self).mem@.mem == mem_write(old(self).mem@, 0xff44, ly2).mem
                &&& final(self).mem@.cart == old(self).mem@.cart
                &&& final(self).mem@.joy == old(self).mem@.joy
                &&& (ly < 144 ==> forall|i: int|
                    0 <= i < 160 * 144 * 4 && crate::ppu::outside_row(i, ly as int)
                        ==> final(self).ppu.screen@[i] == old(self).ppu.screen@[i])
                &&& (ly >= 144 ==> final(self).ppu.screen == old(self).ppu.screen
                    && final(self).ppu.window_counter == 0)
                &&& (ly < 144 ==> final(self).ppu.window_counter == (if lcdc & 0x1 != 0
                    && crate::ppu::spec_window_drawn(old(self).mem@, lcdc, ly) {
                    ((old(self).ppu.window_counter + 1) % 256) as u8
                } else {
                    old(self).ppu.window_counter
                }))
                &&& ((ly < 144 && lcdc & 0x1 != 0) ==> forall|j: int|
                    0 <= j < 160 ==> crate::ppu::line_pixel_ok(
                        final(self).ppu.screen@,
                        old(self).mem@,
                        lcdc,
                        old(self).ppu.window_counter,
                        ly,
                        j,
                    ))
            }),
    {
        self.ppu.advance_line(&mut self.mem);
    }

    /// Latches the joypad buttons; a newly pressed button whose group
    /// is selected raises the joypad interrupt flag.
    pub fn set_joypad_state(
        &mut self,
        up: bool,
        right: bool,
        down: bool,
        left: bool,
        a: bool,
        b: bool,
        select: bool,
        start: bool,
    )
        requires
            gb_wf(*old(self)),
        ensures
            gb_wf(*final(self)),
            ({
                let s = crate::joypad::joy_set_all(
                    old(self).mem@.joy,
                    up,
                    right,
                    down,
                    left,
                    a,
                    b,
                    select,
                    start,
                );
                &&& final(self).mem@.joy == s.0
                &&& final(self).mem@.mem == if s.1 {
                    old(self).mem@.mem.update(0xff0f, (old(self).mem@.mem[0xff0f] | 0b10000))
                } else {
                    old(self).mem@.mem
                }
            }),
    {
        self.mem.set_joypad_state(up, right, down, left, a, b, select, start)
    }

    /// The current frame's RGBA pixels.
    pub fn frame(&self) -> (s: &Vec<u8>)
        ensures
            s == &self.ppu.screen,
    {
        &self.ppu.screen
    }

    /// Banks `cycles` into the DIV and TIMA counters and drains them:
    /// DIV increments every 64 cycles; with TAC bit 2 set, TIMA ticks
    /// at the TAC-selected rate, reloading from TMA and raising the
    /// Timer interrupt on overflow.
    pub fn tick_timers(&mut self, cycles: u8)
        requires
            mem_wf(old(self).mem@),
            old(self).div_counter < 64,
            old(self).timer_counter < 1280,
        ensures
            mem_wf(final(self).mem@),
            final(self).cpu == old(self).cpu,
            final(self).ppu == old(self).ppu,
            final(self).cnt == old(self).cnt,
            final(self).frame_ready == old(self).frame_ready,
            final(self).starved == old(self).starved,
            final(self).div_counter < 64,
            final(self).timer_counter < 1280,
            ({
                let d = div_steps(old(self).mem@, old(self).div_counter + cycles);
                let m1 = d.0;
                let tac = mem_read(m1, 0xff07);
                &&& final(self).div_counter == d.1
                &&& if tac & 0b100 > 0 {
                    let t = tima_steps(
                        m1,
                        old(self).timer_counter + cycles,
                        timer_rate(tac) as int,
                    );
                    final(self).mem@ == t.0 && final(self).timer_counter == t.1
                } else {
                    final(self).mem@ == m1 && final(self).timer_counter == old(self).timer_counter
                }
            }),
    {
        let ghost m0 = self.mem@;
        let ghost dc0 = old(self).div_counter + cycles;
        self.div_counter = self.div_counter + (cycles as u16);
        while self.div_counter >= 64
            invariant
                mem_wf(self.mem@),
                div_steps(m0, dc0 as int) == div_steps(self.mem@, self.div_counter as int),
                self.cpu == old(self).cpu,
                self.ppu == old(self).ppu,
                self.cnt == old(self).cnt,
                self.frame_ready == old(self).frame_ready,
                self.starved == old(self).starved,
                self.timer_counter == old(self).timer_counter,
            decreases self.div_counter,
        {
            self.div_counter = self.div_counter - 64;
            let div = self.mem.read(0xff04);
            let nd = if div == 0xff {
                0
            } else {
                div + 1
            };
            self.mem.write(0xff04, nd);
        }
        let ghost m1 = self.mem@;
        let tac = self.mem.read(0xff07);
        if tac & 0b100 > 0 {
            let rate = CPU::get_timer_rate(tac);
            let ghost tc0 = old(self).timer_counter + cycles;
            let ghost dfin = self.div_counter;
            self.timer_counter = self.timer_counter + (cycles as u16);
            while self.timer_counter >= rate
                invariant
                    mem_wf(self.mem@),
                    rate == timer_rate(tac),
                    16 <= rate <= 1024,
                    tima_steps(m1, tc0 as int, rate as int) == tima_steps(
                        self.mem@,
                        self.timer_counter as int,
                        rate as int,
                    ),
                    self.cpu == old(self).cpu,
                    self.ppu == old(self).ppu,
                    self.cnt == old(self).cnt,
                    self.frame_ready == old(self).frame_ready,
                    self.starved == old(self).starved,
                    self.div_counter == dfin,
                    self.div_counter < 64,
                decreases self.timer_counter,
            {
                self.timer_counter = self.timer_counter - rate;
                let tima = self.mem.read(0xff05);
                if tima == 0xff {
                    let i_flags = self.mem.read(0xff0f);
                    let tma = self.mem.read(0xff06);
                    self.mem.write(0xff05, tma);
                    self.mem.write(0xff0f, i_flags | 0b100);
                } else {
                    self.mem.write(0xff05, tima + 1);
                }
            }
        }
    }

    /// Drives one full video frame: CPU steps accumulate cycles into
    /// the timers and the STAT mode state machine (OAM scan, pixel
    /// transfer, HBlank, VBlank), each visible line is rendered at its
    /// HBlank, the frame-ready mark is set at the transition into the
    /// vertical blank, and the call returns at the frame's end with LY
    /// back at zero and the mode bits stepped into the next OAM scan.
    /// `Ok(true)` says a full frame completed.  `Ok(false)` says it did
    /// not, and the contract pins why: the guest stalled (HALT with
    /// nothing pending and cycles still budgeted — detected and
    /// returned at once, since that state can never change), or a
    /// frame boundary was crossed without the vertical-blank mark (the
    /// guest rewrote the STAT mode bits), or the step watchdog expired
    /// (`starved` is then set).  A fatal opcode fetch surfaces as the
    /// fault.
    pub fn run(&mut self) -> (r: Result<bool, Fault>)
        requires
            gb_wf(*old(self)),
        ensures
            gb_wf(*final(self)),
            old(self).frame_ready ==> final(self).frame_ready,
            final(self).starved ==> r == Result::<bool, Fault>::Ok(false),
            r == Result::<bool, Fault>::Ok(true) ==> final(self).frame_ready && mem_read(
                final(self).mem@,
                0xff44,
            ) == 0 && (mem_read(final(self).mem@, 0xff41) & 0b11) == 2,
            r == Result::<bool, Fault>::Ok(false) ==> ({
                ||| (final(self).cpu.halt && int_pending(final(self).mem@) == 0
                    && final(self).cnt > 0)
                ||| (mem_read(final(self).mem@, 0xff44) == 0 && (mem_read(
                    final(self).mem@,
                    0xff41,
                ) & 0b11) == 2 && !final(self).frame_ready)
                ||| final(self).starved
            }),
    {
        self.starved = false;
        let mut count_1: u32 = 0;
        let mut watchdog: u32 = 0;
        loop
            invariant
                gb_wf(*self),
                watchdog <= 100000000,
                old(self).frame_ready ==> self.frame_ready,
                !self.starved,
            decreases 100000000 - watchdog,
        {
            if watchdog >= 100000000 {
                self.starved = true;
                return Result::Ok(false);
            }
            watchdog = watchdog + 1;
            let cycle = match self.step() {
                Result::Ok(c) => c,
                Result::Err(f) => {
                    return Result::Err(f);
                },
            };
            self.cnt = self.cnt - (cycle as i32);
            self.tick_timers(cycle);
            let mut stat = self.mem.read(0xff41);
            if cycle == 0 && self.cnt > 0 && (stat & 0b11) != 1 {
                let pend = (self.mem.read(0xff0f) & self.mem.read(0xffff)) & 0x1f;
                if pend == 0 {
                    proof {
                        assert(self.cpu.halt);
                        assert(int_pending(self.mem@) == pend);
                    }
                    return Result::Ok(false);
                }
            }
            if self.cnt <= 0 {
                let mode = stat & 0b11;
                proof {
                    assert(mode == 0 ==> stat <= 0xfc) by (bit_vector)
                        requires
                            mode == (stat & 0b11),
                    ;
                    assert(mode == 1 ==> stat <= 0xfd) by (bit_vector)
                        requires
                            mode == (stat & 0b11),
                    ;
                    assert(mode == 2 ==> stat <= 0xfe) by (bit_vector)
                        requires
                            mode == (stat & 0b11),
                    ;
                    assert(!(mode == 0 || mode == 1 || mode == 2) ==> stat >= 3) by (bit_vector)
                        requires
                            mode == (stat & 0b11),
                    ;
                }
                if mode == 0 {
                    if self.mem.read(0xff44) >= 144 {
                        stat = stat + 1;
                        self.cnt = self.cnt + 4560;
                        if stat & 0b10000 > 0 {
                            let f = self.mem.read(0xff0f);
                            self.mem.write(0xff0f, f | 0b10);
                        }
                        let f2 = self.mem.read(0xff0f);
                        self.mem.write(0xff0f, f2 | 0b1);
                        self.frame_ready = true;
                    } else {
                        stat = stat + 2;
                        self.cnt = self.cnt + 80;
                        if stat & 0b100000 > 0 {
                            let f = self.mem.read(0xff0f);
                            self.mem.write(0xff0f, f | 0b10);
                        }
                    }
                } else if mode == 1 {
                    let ghost stat0 = stat;
                    stat = stat + 1;
                    proof {
                        assert(stat & 0b11 == 2) by (bit_vector)
                            requires
                                stat0 & 0b11 == 1,
                                stat0 <= 0xfd,
                                stat == (stat0 + 1) as u8,
                        ;
                    }
                    self.cnt = self.cnt + 80;
                    if stat & 0b100000 > 0 {
                        let f = self.mem.read(0xff0f);
                        self.mem.write(0xff0f, f | 0b10);
                    }
                    self.mem.write(0xff41, stat);
                    let mut lyv = self.mem.read(0xff44);
                    proof {
                        reveal(crate::memory::mem_read);
                        reveal(crate::memory::mem_write);
                        assert((mem_read(self.mem@, 0xff41) & 0b11) == 2);
                    }
                    while lyv != 0
                        invariant
                            gb_wf(*self),
                            lyv == mem_read(self.mem@, 0xff44),
                            (mem_read(self.mem@, 0xff41) & 0b11) == 2,
                            old(self).frame_ready ==> self.frame_ready,
                            !self.starved,
                        decreases (if lyv == 0 {
                            0int
                        } else if lyv >= 154 {
                            200int
                        } else {
                            154 - lyv
                        }),
                    {
                        let ghost pre = self.mem@;
                        self.ppu.advance_line(&mut self.mem);
                        lyv = self.mem.read(0xff44);
                        proof {
                            reveal(crate::memory::mem_read);
                            reveal(crate::memory::mem_write);
                            assert(lyv == ((mem_read(pre, 0xff44) + 1) % 154));
                            let s0 = mem_read(pre, 0xff41);
                            assert(((s0 | 0x4) & 0b11) == (s0 & 0b11) && ((s0 & 0xfb) & 0b11) == (
                            s0 & 0b11)) by (bit_vector);
                            assert((mem_read(self.mem@, 0xff41) & 0b11) == 2);
                        }
                    }
                    return Result::Ok(self.frame_ready);
                } else if mode == 2 {
                    stat = stat + 1;
                    self.cnt = self.cnt + 168;
                } else {
                    self.ppu.advance_line(&mut self.mem);
                    stat = stat - 3;
                    self.cnt = self.cnt + 208;
                    if stat & 0b1000 > 0 {
                        let f = self.mem.read(0xff0f);
                        self.mem.write(0xff0f, f | 0b10);
                    }
                }
            } else if stat & 0b11 == 1 {
                if count_1 % 456 == 0 {
                    self.ppu.advance_line(&mut self.mem);
                }
                if count_1 < 0xffffffff {
                    count_1 = count_1 + 1;
                }
            }
            self.mem.write(0xff41, stat);
        }
    }
}

} // verus!
