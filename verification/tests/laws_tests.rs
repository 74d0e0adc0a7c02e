use nekodroid::cpu::{Cpu, RegisterFile, MODE_IRQ, MODE_SVC};
use nekodroid::memory::{Mmu, VRAM_BASE};

#[test]
fn ram_byte_reads_back_and_others_stay() {
    let mut mmu = Mmu::new(4096);
    mmu.write_u8(0x100, 7);
    mmu.write_u8(0x101, 9);
    assert_eq!(mmu.read_u8(0x100), 7);
    assert_eq!(mmu.read_u8(0x101), 9);
    assert_eq!(mmu.read_u8(0x102), 0);
}

#[test]
fn vram_byte_reads_back() {
    let mut mmu = Mmu::new(4096);
    mmu.write_u8(VRAM_BASE + 5, 0x5A);
    assert_eq!(mmu.read_u8(VRAM_BASE + 5), 0x5A);
}

#[test]
fn load_past_ram_is_zero() {
    let mut mmu = Mmu::new(1024);
    assert_eq!(mmu.read_u8(5000), 0);
    mmu.write_u8(5000, 3);
    assert_eq!(mmu.read_u8(5000), 0);
}

#[test]
fn word_reads_back_little_endian() {
    let mut mmu = Mmu::new(4096);
    mmu.write_u32(0x200, 0xDEAD_BEEF);
    assert_eq!(mmu.read_u32(0x200), 0xDEAD_BEEF);
    assert_eq!(mmu.read_u8(0x200), 0xEF);
    assert_eq!(mmu.read_u8(0x203), 0xDE);
}

#[test]
fn vic_line_follows_status_and_enable() {
    let mut mmu = Mmu::new(1024);
    mmu.vic_int_status = 0x10;
    mmu.vic_int_enable = 0x01;
    mmu.update_vic();
    assert!(!mmu.irq_pending);
    mmu.vic_int_enable = 0x11;
    mmu.update_vic();
    assert!(mmu.irq_pending);
}

#[test]
fn mode_round_trip_keeps_banked_registers() {
    let mut r = RegisterFile::new();
    r.set_cpu_mode(MODE_SVC);
    r.set_sp(0x1000);
    r.set_lr(0x2000);
    r.set_cpu_mode(MODE_IRQ);
    r.set_sp(0x3000);
    r.set_cpu_mode(MODE_SVC);
    assert_eq!(r.sp(), 0x1000);
    assert_eq!(r.lr(), 0x2000);
    assert_eq!(r.cpu_mode(), MODE_SVC);
}

#[test]
fn exception_entry_saves_cpsr() {
    let mut cpu = Cpu::new(1024 * 1024);
    cpu.regs.set_cpu_mode(MODE_SVC);
    let before = cpu.regs.cpsr();
    cpu.trigger_exception("IRQ", MODE_IRQ, 0x18, 4);
    assert_eq!(cpu.regs.spsr(MODE_IRQ), before);
    assert_eq!(cpu.regs.cpu_mode(), MODE_IRQ);
    assert!(cpu.regs.irq_disabled());
}

#[test]
fn user_mode_registers_survive_a_mode_round_trip() {
    let mut rf = RegisterFile::new();
    rf.set_sp(0x1000);
    rf.set_lr(0x2000);
    rf.set_cpsr(0x13);
    rf.set_sp(0x5000);
    rf.set_cpsr(0x10);
    assert_eq!(rf.cpu_mode(), 0x10);
    assert_eq!(rf.sp(), 0x1000);
    assert_eq!(rf.lr(), 0x2000);
    rf.set_cpsr(0x1F);
    assert_eq!(rf.sp(), 0x1000);
    rf.set_cpsr(0x13);
    assert_eq!(rf.sp(), 0x5000);
}

#[test]
fn register_reads_last_write() {
    let mut rf = RegisterFile::new();
    rf.write(3, 77);
    rf.write(19, 5); // register 3 again (index taken mod 16)
    assert_eq!(rf.read(3), 5);
    assert_eq!(rf.read(4), 0);
}

#[test]
fn disassembly_leaves_cpu_unchanged() {
    let mut cpu = Cpu::new(1024 * 1024);
    cpu.mmu.write_u32(0x100, 0xE3A0_0005);
    let pc = cpu.regs.pc();
    assert_eq!(cpu.disassemble_at(0x100), "MOV R0, #5");
    assert_eq!(cpu.mmu.read_u32(0x100), 0xE3A0_0005);
    assert_eq!(cpu.regs.pc(), pc);
}
