use nekodroid::cpu::Cpu;
use nekodroid::host::{
    get_android_logs, send_key_event, send_touch_event, boot_android, boot_linux_kernel, get_cpu_state, demo_program,
    draw_text_vram, effective_ram_mb, emulator_ram_bytes, load_custom_hex, load_demo_program, load_rom,
    mount_system_image, new_emulator_cpu, parse_hex_program, run_batch, VirtualCPU, FRAMEBUFFER_SIZE,
};
use nekodroid::memory::{LogEntry, Mmu, VRAM_BASE};

const MB16: usize = 16 * 1024 * 1024;

fn vram_pixel(mmu: &mut Mmu, x: u32, y: u32) -> [u8; 4] {
    let a = VRAM_BASE + (y * 800 + x) * 4;
    [mmu.read_u8(a), mmu.read_u8(a + 1), mmu.read_u8(a + 2), mmu.read_u8(a + 3)]
}

#[test]
fn test_boot_linux_kernel_wrapper_uses_machine_id_00e2() {
    let mut cpu = Cpu::new(16 * 1024 * 1024);
    let kernel = [0x00, 0x00, 0xA0, 0xE3]; // MOV R0, #0
    boot_linux_kernel(&mut cpu, &kernel, &[]);
    assert_eq!(cpu.regs.read(1), 0x00E2);
}

#[test]
fn ram_request_defaults_and_caps() {
    assert_eq!(effective_ram_mb(0), 512);
    assert_eq!(effective_ram_mb(100), 100);
    assert_eq!(effective_ram_mb(4096), 4096);
    assert_eq!(effective_ram_mb(5000), 4096);
    assert_eq!(emulator_ram_bytes(0), 512 * 1024 * 1024);
    assert_eq!(emulator_ram_bytes(16), MB16 as u64);
}

#[test]
fn emulator_cpu_starts_at_boot_address() {
    let cpu = new_emulator_cpu(MB16);
    assert_eq!(cpu.regs.pc(), 0x8000);
    assert_eq!(cpu.regs.sp(), 0x00FF_0000);
    assert!(!cpu.halted);
}

#[test]
fn demo_program_bytes() {
    let p = demo_program();
    assert_eq!(p.len(), 40);
    assert_eq!(&p[0..4], &[0x05, 0x00, 0xA0, 0xE3]);
    assert_eq!(&p[36..40], &[0x00, 0x00, 0xA0, 0xE1]);
}

#[test]
fn demo_program_runs() {
    let mut cpu = new_emulator_cpu(MB16);
    load_demo_program(&mut cpu);
    assert_eq!(cpu.regs.pc(), 0x8000);
    assert_eq!(run_batch(&mut cpu, 7, 0), 7);
    assert_eq!(cpu.regs.read(0), 5);
    assert_eq!(cpu.regs.read(1), 10);
    assert_eq!(cpu.regs.read(2), 15);
    assert_eq!(cpu.regs.read(3), 14);
    assert!(cpu.regs.flag_z());
    assert_eq!(cpu.regs.pc(), 0x8024);
}

#[test]
fn batch_ticks_system_timer() {
    let mut cpu = new_emulator_cpu(MB16);
    load_demo_program(&mut cpu);
    assert_eq!(run_batch(&mut cpu, 4, 2), 4);
    assert_eq!(cpu.mmu.sys_timer, 2);
    assert_eq!(run_batch(&mut cpu, 3, 0), 3);
    assert_eq!(cpu.mmu.sys_timer, 2);
}

#[test]
fn halted_cpu_runs_nothing() {
    let mut cpu = new_emulator_cpu(MB16);
    load_demo_program(&mut cpu);
    cpu.halted = true;
    assert_eq!(run_batch(&mut cpu, 10, 0), 0);
    assert_eq!(cpu.regs.pc(), 0x8000);
}

#[test]
fn hex_program_with_separators() {
    let expected = vec![0x05u8, 0x00, 0xA0, 0xE3, 0x0A, 0x10, 0xA0, 0xE3];
    assert_eq!(parse_hex_program("e3a00005 e3a0100a"), Ok(expected.clone()));
    assert_eq!(parse_hex_program("E3A00005\ne3a0100A\n"), Ok(expected.clone()));
    assert_eq!(parse_hex_program("e3a00005e3a0100a"), Ok(expected));
    assert_eq!(parse_hex_program("zz, --"), Ok(vec![]));
}

#[test]
fn hex_program_bad_length() {
    assert_eq!(parse_hex_program("e3a0000"), Err(7));
    assert_eq!(parse_hex_program("e3a00005 e3"), Err(10));
}

#[test]
fn custom_hex_loads_at_boot_address() {
    let mut cpu = new_emulator_cpu(MB16);
    assert_eq!(load_custom_hex(&mut cpu, "e3a00005\ne3a0100a"), Ok(2));
    assert_eq!(cpu.regs.pc(), 0x8000);
    assert_eq!(cpu.mmu.read_u32(0x8004), 0xE3A0_100A);
    assert_eq!(run_batch(&mut cpu, 2, 0), 2);
    assert_eq!(cpu.regs.read(1), 10);

    let mut other = new_emulator_cpu(MB16);
    other.regs.set_pc(0x1234);
    assert_eq!(load_custom_hex(&mut other, "abc"), Err(3));
    assert_eq!(other.regs.pc(), 0x1234);
}

#[test]
fn rom_image_resets_and_loads() {
    let mut cpu = new_emulator_cpu(MB16);
    cpu.regs.write(0, 77);
    load_rom(&mut cpu, &[0x05, 0x00, 0xA0, 0xE3]);
    assert_eq!(cpu.regs.read(0), 0);
    assert_eq!(cpu.regs.pc(), 0x8000);
    assert_eq!(cpu.mmu.read_u32(0x8000), 0xE3A0_0005);
}

#[test]
fn android_boot_mounts_system_image() {
    let mut cpu = new_emulator_cpu(MB16);
    boot_android(&mut cpu, &[0x00, 0x00, 0xA0, 0xE3], &[1, 2, 3], &[]);
    assert_eq!(cpu.regs.read(1), 0x046F);
    assert_eq!(cpu.regs.pc(), 0x8000);
    assert_eq!(cpu.mmu.mmc_card_data, Some(vec![1, 2, 3]));

    let mut bare = new_emulator_cpu(MB16);
    boot_android(&mut bare, &[0x00, 0x00, 0xA0, 0xE3], &[], &[]);
    assert_eq!(bare.mmu.mmc_card_data, None);
}

#[test]
fn mounting_replaces_card() {
    let mut mmu = Mmu::new(1024);
    mount_system_image(&mut mmu, &[9]);
    mount_system_image(&mut mmu, &[4, 5]);
    assert_eq!(mmu.mmc_card_data, Some(vec![4, 5]));
}

#[test]
fn touch_and_key_events() {
    let mut mmu = Mmu::new(1024);
    send_touch_event(&mut mmu, 10, 20, true);
    assert!(mmu.touch_down);
    assert_eq!((mmu.touch_x, mmu.touch_y), (10, 20));
    send_touch_event(&mut mmu, -1, 5, false);
    assert!(!mmu.touch_down);
    assert_eq!((mmu.touch_x, mmu.touch_y), (10, 20));
    send_touch_event(&mut mmu, 70000, 1, true);
    assert_eq!(mmu.touch_x, (70000u32 & 0xFFFF) as u16);
    send_key_event(&mut mmu, 65, true);
    assert_eq!(mmu.key_state, 65);
    send_key_event(&mut mmu, 65, false);
    assert_eq!(mmu.key_state, 0);
}

#[test]
fn logger_text_lines() {
    let mut mmu = Mmu::new(1024);
    assert_eq!(get_android_logs(&mmu), "");
    mmu.logger_buffer.push(LogEntry { priority: 4, tag: "App".to_string(), message: "hi".to_string() });
    mmu.logger_buffer.push(LogEntry { priority: 6, tag: "Sys".to_string(), message: "boom".to_string() });
    mmu.logger_buffer.push(LogEntry { priority: 9, tag: "x".to_string(), message: "y".to_string() });
    assert_eq!(get_android_logs(&mmu), "I [App] hi\nE [Sys] boom\n? [x] y\n");
}

#[test]
fn cpu_state_json_of_demo() {
    let mut cpu = new_emulator_cpu(MB16);
    load_demo_program(&mut cpu);
    let json = get_cpu_state(&mut cpu, 7);
    assert!(json.starts_with("{\"regs\":[0,0,0,0,0,0,0,0,0,0,0,0,0,16711680,0,32768],\"cpsr\":"), "{json}");
    assert!(json.contains(",\"cycles\":7,\"halted\":false,"), "{json}");
    assert!(json.contains(",\"n\":false,\"z\":false,\"c\":false,\"v\":false,\"t\":false,"), "{json}");
    assert!(
        json.ends_with(
            "\"disasm\":[\"0x00008000: MOV R0, #5\",\"0x00008004: MOV R1, #10\",\"0x00008008: ADD R2, R0, R1\",\"0x0000800C: SUB R3, R2, #1\",\"0x00008010: CMP R3, #14\"]}"
        ),
        "{json}"
    );
}

#[test]
fn text_drawn_into_vram() {
    let mut mmu = Mmu::new(1024);
    draw_text_vram(&mut mmu, "A\nB");
    // Background.
    assert_eq!(vram_pixel(&mut mmu, 0, 0), [12, 14, 22, 255]);
    assert_eq!(vram_pixel(&mut mmu, 799, 599), [12, 14, 22, 255]);
    // 'A' at (16, 24): border lit, an inner cell off, another on.
    assert_eq!(vram_pixel(&mut mmu, 16, 24), [240, 240, 245, 255]);
    assert_eq!(vram_pixel(&mut mmu, 23, 31), [240, 240, 245, 255]);
    assert_eq!(vram_pixel(&mut mmu, 17, 25), [12, 14, 22, 255]);
    assert_eq!(vram_pixel(&mut mmu, 19, 25), [240, 240, 245, 255]);
    // Its bar: 8 pixels on row 34.
    assert_eq!(vram_pixel(&mut mmu, 16, 34), [80, 200, 120, 255]);
    assert_eq!(vram_pixel(&mut mmu, 23, 34), [80, 200, 120, 255]);
    assert_eq!(vram_pixel(&mut mmu, 24, 34), [12, 14, 22, 255]);
    // 'B' on the next line at (16, 40).
    assert_eq!(vram_pixel(&mut mmu, 16, 40), [240, 240, 245, 255]);
    assert_eq!(vram_pixel(&mut mmu, 26, 24), [12, 14, 22, 255]);
}

#[test]
fn short_glyph_bar() {
    let mut mmu = Mmu::new(1024);
    // '(' is 40: bar length 40 % 40 + 1 = 1.
    draw_text_vram(&mut mmu, "(");
    assert_eq!(vram_pixel(&mut mmu, 16, 34), [80, 200, 120, 255]);
    assert_eq!(vram_pixel(&mut mmu, 17, 34), [12, 14, 22, 255]);
}

#[test]
fn virtual_cpu_frames() {
    let mut v = VirtualCPU::new();
    assert_eq!(v.framebuffer_len(), FRAMEBUFFER_SIZE);
    assert_eq!((v.width(), v.height()), (800, 600));
    assert_eq!(&v.framebuffer[0..4], &[0, 0, 0, 255]);
    v.render_gradient(0);
    let idx = (2 * 800 + 1) * 4;
    assert_eq!(&v.framebuffer[idx..idx + 4], &[1, 2, 3, 255]);
    v.render_gradient(10);
    assert_eq!(&v.framebuffer[idx..idx + 4], &[11, 22, 33, 255]);
    v.render_noise();
    assert_eq!(&v.framebuffer[0..4], &[40, 69, 173, 255]);
    let mut w = VirtualCPU::new();
    assert_eq!(w.next_random(), 11355432);
    assert_eq!(w.seed, 11355432);
    assert_eq!(w.next_random(), 2836018348);
}
