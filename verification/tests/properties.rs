use gameboy::cartridge::Cartridge;
use gameboy::cpu::CPU;
use gameboy::memory::Memory;
use gameboy::ppu::PPU;
use gameboy::GameBoy;

fn rom_image(ctype: u8, size_code: u8) -> Vec<u8> {
    let banks: usize = 2usize << size_code;
    let mut data = vec![0u8; banks * 0x4000];
    data[0x147] = ctype;
    data[0x148] = size_code;
    data
}

/// INC then DEC restores every 8-bit value; C is untouched, Z/H/N are
/// the DEC results.
#[test]
fn inc_dec_restores_value() {
    for v in 0..=255u8 {
        let mut mem = Memory::new(None);
        let mut cpu = CPU::new();
        cpu.a = v;
        cpu.flags.cy = 1;
        mem.write(0, 0x3c); // INC A
        mem.write(1, 0x3d); // DEC A
        cpu.run(&mut mem).unwrap();
        cpu.run(&mut mem).unwrap();
        assert_eq!(cpu.a, v);
        assert_eq!(cpu.flags.cy, 1);
        assert_eq!(cpu.flags.n, 1);
    }
}

/// LD A,0xFF; INC A wraps to zero with Z and H set, N clear, C
/// untouched.
#[test]
fn inc_a_wraps_with_flags() {
    let mut mem = Memory::new(None);
    let mut cpu = CPU::new();
    cpu.flags.cy = 1;
    mem.write(0, 0x3e); // LD A, d8
    mem.write(1, 0xff);
    mem.write(2, 0x3c); // INC A
    cpu.run(&mut mem).unwrap();
    cpu.run(&mut mem).unwrap();
    assert_eq!(cpu.a, 0x00);
    assert_eq!(cpu.flags.z, 1);
    assert_eq!(cpu.flags.h, 1);
    assert_eq!(cpu.flags.n, 0);
    assert_eq!(cpu.flags.cy, 1);
}

/// ADD HL,BC carries out of bit 11: 0x0fff + 0x0001 = 0x1000 with H
/// set and C clear.
#[test]
fn add_hl_half_carry() {
    let mut mem = Memory::new(None);
    let mut cpu = CPU::new();
    mem.write(0, 0x21); // LD HL, d16
    mem.write(1, 0xff);
    mem.write(2, 0x0f);
    mem.write(3, 0x01); // LD BC, d16
    mem.write(4, 0x01);
    mem.write(5, 0x00);
    mem.write(6, 0x09); // ADD HL, BC
    cpu.run(&mut mem).unwrap();
    cpu.run(&mut mem).unwrap();
    cpu.run(&mut mem).unwrap();
    assert_eq!(cpu.hl.full(), 0x1000);
    assert_eq!(cpu.flags.h, 1);
    assert_eq!(cpu.flags.cy, 0);
}

/// PUSH BC; POP DE moves BC into DE and restores SP.
#[test]
fn push_pop_roundtrip() {
    let mut mem = Memory::new(None);
    let mut cpu = CPU::new();
    cpu.sp = 0xdffe;
    cpu.bc.set_full(0x1234);
    mem.write(0, 0xc5); // PUSH BC
    mem.write(1, 0xd1); // POP DE
    cpu.run(&mut mem).unwrap();
    cpu.run(&mut mem).unwrap();
    assert_eq!(cpu.de.full(), 0x1234);
    assert_eq!(cpu.sp, 0xdffe);
}

/// Writing bank k to 0x2000 on MBC1 maps bank k at 0x4000; writing 0
/// selects bank 1.
#[test]
fn mbc1_bank_select() {
    let mut data = rom_image(0x01, 1); // 4 banks of 16 KiB
    data[0x4000] = 0x24;
    data[0x8000] = 0x42;
    data[0xc000] = 0x99;
    let mut cart = Cartridge::new(data, String::new(), None);
    for k in 1..4u8 {
        cart.write(0x2000, k);
        let expected = [0u8, 0x24, 0x42, 0x99][k as usize];
        assert_eq!(cart.read(0x4000), expected);
    }
    cart.write(0x2000, 0);
    assert_eq!(cart.read(0x4000), 0x24);
}

/// With VBlank and Timer both pending and enabled, one poll services
/// VBlank alone; the Timer flag stays pending.
#[test]
fn interrupt_priority_vblank_first() {
    let mut mem = Memory::new(None);
    let mut cpu = CPU::new();
    cpu.sp = 0xdffe;
    cpu.ime = true;
    mem.write(0xff0f, 0b101);
    mem.write(0xffff, 0b101);
    let cycles = cpu.run(&mut mem).unwrap();
    assert_eq!(cycles, 5);
    assert_eq!(cpu.pc, 0x40);
    assert!(!cpu.ime);
    assert_eq!(mem.read(0xff0f), 0b100);
}

/// A VRAM write invalidates exactly the tile it touches; the next
/// fetch decodes the new bytes.
#[test]
fn vram_write_invalidates_tile() {
    let mut mem = Memory::new(None);
    let mut ppu = PPU::new();
    mem.write(0x8010, 0xff); // tile 1, row 0, low plane
    let t1 = ppu.get_tile(&mut mem, 1);
    assert_eq!(t1.data[0], 1);
    let _t2 = ppu.get_tile(&mut mem, 2);
    assert!(mem.tile_cache[1].is_some());
    assert!(mem.tile_cache[2].is_some());
    mem.write(0x8011, 0xff); // tile 1, row 0, high plane
    assert!(mem.tile_cache[1].is_none());
    assert!(mem.tile_cache[2].is_some());
    let t1b = ppu.get_tile(&mut mem, 1);
    assert_eq!(t1b.data[0], 3);
}

/// TIMA at 0xFF with TAC enabled reloads from TMA at the next tick
/// boundary and raises interrupt-flag bit 2.
#[test]
fn tima_overflow_reloads_tma() {
    let mut gb = GameBoy::new(rom_image(0x00, 0), String::new(), None);
    gb.mem.write(0xff05, 0xff);
    gb.mem.write(0xff06, 0x42);
    gb.mem.write(0xff07, 0b101); // enabled, 16 cycles per tick
    gb.tick_timers(16);
    assert_eq!(gb.mem.read(0xff05), 0x42);
    assert_eq!(gb.mem.read(0xff0f) & 0b100, 0b100);
}

/// DAA after a BCD-valid addition corrects A; C is untouched and Z
/// clear.
#[test]
fn daa_corrects_bcd_addition() {
    let mut mem = Memory::new(None);
    let mut cpu = CPU::new();
    mem.write(0, 0x3e); // LD A, 0x09
    mem.write(1, 0x09);
    mem.write(2, 0xc6); // ADD A, 0x01
    mem.write(3, 0x01);
    mem.write(4, 0x27); // DAA
    cpu.run(&mut mem).unwrap();
    cpu.run(&mut mem).unwrap();
    cpu.run(&mut mem).unwrap();
    assert_eq!(cpu.a, 0x10);
    assert_eq!(cpu.flags.cy, 0);
    assert_eq!(cpu.flags.z, 0);
}

/// The free-running divider increments once per 64 cycles.
#[test]
fn div_increments_every_64_cycles() {
    let mut gb = GameBoy::new(rom_image(0x00, 0), String::new(), None);
    gb.tick_timers(63);
    assert_eq!(gb.mem.read(0xff04), 0);
    gb.tick_timers(1);
    assert_eq!(gb.mem.read(0xff04), 1);
    gb.tick_timers(128);
    assert_eq!(gb.mem.read(0xff04), 3);
}
