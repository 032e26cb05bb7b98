use gameboy::cpu::{CPU, Register, Register16, Register8};
use gameboy::memory::Memory;

#[test]
fn register_union_works() {
    let mut reg = Register::new();
    reg.low = 8;
    assert_eq!(8, reg.full());
    reg.set_full(0x0100);
    assert_eq!(0, reg.low);
    assert_eq!(1, reg.high);
}

#[test]
fn cpu_noop() {
    let mut mem = Memory::new(None);
    let mut cpu = CPU::new();
    cpu.run(&mut mem).unwrap();
}

#[test]
fn cpu_inc_b() {
    let mut mem = Memory::new(None);
    let mut cpu = CPU::new();
    cpu.bc.high = 0xff;
    mem.write(0, 0x04);
    cpu.run(&mut mem).unwrap();

    assert_eq!(cpu.bc.high, 0);
    assert_eq!(cpu.flags.h, 1);
}

#[test]
fn cpu_rlca() {
    let mut mem = Memory::new(None);
    let mut cpu = CPU::new();
    cpu.a = 0x01 << 7;
    mem.write(0, 0x07);
    cpu.run(&mut mem).unwrap();

    assert_eq!(cpu.flags.cy, 1);
    assert_eq!(cpu.a, 0x01);
}

#[test]
fn cpu_rrca() {
    let mut mem = Memory::new(None);
    let mut cpu = CPU::new();
    cpu.a = 0x01;
    mem.write(0, 0x0f);
    cpu.run(&mut mem).unwrap();

    assert_eq!(cpu.flags.cy, 1);
    assert_eq!(cpu.a, 0x01 << 7);
}

#[test]
fn cpu_rla() {
    let mut mem = Memory::new(None);
    let mut cpu = CPU::new();
    cpu.a = 0x01 << 7;
    mem.write(0, 0x17);
    cpu.run(&mut mem).unwrap();

    assert_eq!(cpu.flags.cy, 1);
    assert_eq!(cpu.a, 0x00);
}

#[test]
fn cpu_rra() {
    let mut mem = Memory::new(None);
    let mut cpu = CPU::new();
    cpu.a = 0x01;
    mem.write(0, 0x1f);
    cpu.run(&mut mem).unwrap();

    assert_eq!(cpu.flags.cy, 1);
    assert_eq!(cpu.a, 0x00);
}

#[test]
fn cpu_jr() {
    let mut mem = Memory::new(None);
    let mut cpu = CPU::new();
    mem.write(0, 0x18);
    mem.write(1, 0b11111110);
    cpu.run(&mut mem).unwrap();

    assert_eq!(cpu.pc, 0);

    mem.write(1, 0x01);
    cpu.run(&mut mem).unwrap();

    assert_eq!(cpu.pc, 3);
}

#[test]
fn cpu_push_pop() {
    let mut mem = Memory::new(None);
    let mut cpu = CPU::new();
    cpu.simulate_bootloader();
    mem.simulate_bootloader();
    cpu.set_register_16(&Register16::BC, 0xabcd);
    let pc = cpu.get_register_16(&Register16::PC);
    mem.write(pc, 0xc5);
    mem.write(pc + 1, 0xc1);
    cpu.run(&mut mem).unwrap();
    cpu.set_register_16(&Register16::BC, 5);
    assert_eq!(cpu.get_register_16(&Register16::BC), 5);
    cpu.run(&mut mem).unwrap();
    assert_eq!(cpu.get_register_16(&Register16::BC), 0xabcd);
}

#[test]
fn pop_af() {
    let mut mem = Memory::new(None);
    let mut cpu = CPU::new();
    cpu.simulate_bootloader();
    mem.simulate_bootloader();

    cpu.set_register_16(&Register16::BC, 0xabcd);
    let pc = cpu.get_register_16(&Register16::PC);
    mem.write(pc, 0xc5);
    mem.write(pc + 1, 0xf1);
    mem.write(pc + 2, 0xf5);
    mem.write(pc + 3, 0xc1);
    cpu.run(&mut mem).unwrap(); // Push BC
    cpu.run(&mut mem).unwrap(); // Pop AF
    println!("A: {:#x} F: {:#x}", cpu.get_register_8(&Register8::A), cpu.get_register_8(&Register8::F));
    assert_eq!(cpu.get_register_8(&Register8::A), 0xab);
    // The low nibble of F always reads as zero, so only the high
    // nibble of the popped 0xcd survives.
    assert_eq!(cpu.get_register_8(&Register8::F), 0xc0);
    cpu.set_register_8(&Register8::A, 0xac);
    cpu.run(&mut mem).unwrap();
    cpu.run(&mut mem).unwrap();
    assert_eq!(cpu.get_register_16(&Register16::BC), 0xacc0);
}

#[test]
fn pop_af_blargg() {
    let mut mem = Memory::new(None);
    let mut cpu = CPU::new();
    cpu.simulate_bootloader();
    mem.simulate_bootloader();

    let pc = cpu.get_register_16(&Register16::PC);
    mem.write(pc, 0x01); // LD BC 0x1200
    mem.write(pc + 1, 0x00);
    mem.write(pc + 2, 0x12);
    mem.write(pc + 3, 0xc5); // PUSH BC
    mem.write(pc + 4, 0xf1); // POP AF
    mem.write(pc + 5, 0xf5); // PUSH AF
    mem.write(pc + 6, 0xd1); // POP DE
    mem.write(pc + 7, 0x79); // LD A C
    mem.write(pc + 8, 0xe6); // AND 0xF0
    mem.write(pc + 9, 0xf0);
    mem.write(pc + 10, 0xbb); // CP E

    for _ in 0..8 {
        cpu.run(&mut mem).unwrap();
    }

    assert_eq!(cpu.flags.z, 1);
}

#[test]
fn cpu_res() {
    let mut mem = Memory::new(None);
    let mut cpu = CPU::new();
    cpu.set_register_8(&Register8::B, 0b00100000);
    cpu.set_register_8(&Register8::C, 0b00100000);
    cpu.set_register_8(&Register8::D, 0b00100000);
    cpu.set_register_8(&Register8::E, 0b00100000);
    cpu.set_register_8(&Register8::H, 0b00100000);
    cpu.set_register_8(&Register8::L, 0b00100000);
    cpu.set_register_8(&Register8::A, 0b00100000);
    mem.write(0, 0xcb);
    mem.write(1, 0xa8);
    mem.write(2, 0xcb);
    mem.write(3, 0xa9);
    mem.write(4, 0xcb);
    mem.write(5, 0xaa);
    mem.write(6, 0xcb);
    mem.write(7, 0xab);
    mem.write(8, 0xcb);
    mem.write(9, 0xac);
    mem.write(10, 0xcb);
    mem.write(11, 0xad);
    mem.write(12, 0xcb);
    mem.write(13, 0xaf);
    for _ in 0..=6 {
        cpu.run(&mut mem).unwrap();
    }

    assert_eq!(cpu.get_register_8(&Register8::B), 0);
    assert_eq!(cpu.get_register_8(&Register8::C), 0);
    assert_eq!(cpu.get_register_8(&Register8::D), 0);
    assert_eq!(cpu.get_register_8(&Register8::E), 0);
    assert_eq!(cpu.get_register_8(&Register8::H), 0);
    assert_eq!(cpu.get_register_8(&Register8::L), 0);
    assert_eq!(cpu.get_register_8(&Register8::A), 0);
}

#[test]
fn cpu_set() {
    let mut mem = Memory::new(None);
    let mut cpu = CPU::new();
    mem.write(0, 0xcb);
    mem.write(1, 0xf8);
    mem.write(2, 0xcb);
    mem.write(3, 0xf9);
    mem.write(4, 0xcb);
    mem.write(5, 0xfa);
    mem.write(6, 0xcb);
    mem.write(7, 0xfb);
    mem.write(8, 0xcb);
    mem.write(9, 0xfc);
    mem.write(10, 0xcb);
    mem.write(11, 0xfd);
    mem.write(12, 0xcb);
    mem.write(13, 0xff);
    for _ in 0..=6 {
        cpu.run(&mut mem).unwrap();
    }

    assert_eq!(cpu.get_register_8(&Register8::B), 0x80);
    assert_eq!(cpu.get_register_8(&Register8::C), 0x80);
    assert_eq!(cpu.get_register_8(&Register8::D), 0x80);
    assert_eq!(cpu.get_register_8(&Register8::E), 0x80);
    assert_eq!(cpu.get_register_8(&Register8::H), 0x80);
    assert_eq!(cpu.get_register_8(&Register8::L), 0x80);
    assert_eq!(cpu.get_register_8(&Register8::A), 0x80);
}
