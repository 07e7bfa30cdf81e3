use chip8::cpu::Cpu;
use chip8::machine::Fault;
use std::time::Duration;
use std::time::Instant;

fn run(cpu: &mut Cpu, inst: u16) {
    assert_eq!(cpu.execute(inst, 0, 0, Instant::now()), Ok(()));
}

fn with_registers(vx: u8, vy: u8) -> Cpu {
    let mut cpu = Cpu::new();
    run(&mut cpu, 0x6100 | vx as u16);
    run(&mut cpu, 0x6200 | vy as u16);
    cpu
}

fn lit(cpu: &Cpu) -> Vec<usize> {
    let mut on = Vec::new();
    for i in 0..cpu.display.screen.len() {
        if cpu.display.screen[i] != 0 {
            on.push(i);
        }
    }
    on
}

#[test]
fn new_cpu_starts_at_load_address() {
    let cpu = Cpu::new();
    assert_eq!(cpu.pc, 0x200);
    assert_eq!(cpu.i, 0);
    assert_eq!(cpu.stack.len(), 0);
    for x in 0..16usize {
        assert_eq!(cpu.vx[x], 0);
    }
    assert_eq!(cpu.keyboard.pressed_key, None);
    assert_eq!(cpu.ram.read_byte(0), 0xF0);
    assert_eq!(cpu.get_timer(), 0);
    assert_eq!(cpu.sound_timer(), 0);
    assert!(cpu.display.screen.iter().all(|p| *p == 0));
}

#[test]
fn load_rom_copies_program_verbatim() {
    let mut cpu = Cpu::new();
    let data: Vec<u8> = vec![0x12, 0x34, 0x56, 0x78, 0x9A];
    cpu.load_rom(&data);
    for i in 0..data.len() {
        assert_eq!(cpu.ram.read_byte(0x200 + i as u16), data[i]);
    }
    assert_eq!(cpu.ram.read_byte(0x1FF), 0);
    assert_eq!(cpu.ram.read_byte(0x205), 0);
    assert_eq!(cpu.ram.read_byte(0), 0xF0);
    assert_eq!(cpu.pc, 0x200);
    assert_eq!(cpu.fetch(), 0x1234);
}

#[test]
fn load_rom_fills_memory_to_the_end() {
    let mut cpu = Cpu::new();
    let data: Vec<u8> = vec![0xEE; 4096 - 0x200];
    cpu.load_rom(&data);
    assert_eq!(cpu.ram.read_byte(0xFFF), 0xEE);
    assert_eq!(cpu.ram.read_byte(0x200), 0xEE);
    assert_eq!(cpu.ram.read_byte(0x1FF), 0);
    assert_eq!(cpu.ram.read_byte(79), 0x80);
}

#[test]
fn run_instruction_fetches_big_endian() {
    let mut cpu = Cpu::new();
    cpu.load_rom(&vec![0x6A, 0x42, 0x7A, 0x01]);
    assert_eq!(cpu.run_instruction(), Ok(()));
    assert_eq!(cpu.vx[0xA], 0x42);
    assert_eq!(cpu.pc, 0x202);
    assert_eq!(cpu.run_instruction(), Ok(()));
    assert_eq!(cpu.vx[0xA], 0x43);
    assert_eq!(cpu.pc, 0x204);
}

#[test]
fn load_immediate_stores_every_byte() {
    for x in 0..16u16 {
        for nn in 0..=255u16 {
            let mut cpu = Cpu::new();
            run(&mut cpu, 0x6000 | (x << 8) | nn);
            assert_eq!(cpu.vx[x as usize], nn as u8);
            assert_eq!(cpu.pc, 0x202);
        }
    }
}

#[test]
fn add_immediate_wraps_without_flag() {
    let mut cpu = with_registers(0xFF, 0);
    run(&mut cpu, 0x7102);
    assert_eq!(cpu.vx[1], 0x01);
    assert_eq!(cpu.vx[0xF], 0);
}

#[test]
fn add_with_carry() {
    let mut cpu = with_registers(0xFF, 0x01);
    run(&mut cpu, 0x8124);
    assert_eq!(cpu.vx[1], 0x00);
    assert_eq!(cpu.vx[0xF], 1);
    let mut cpu = with_registers(0x01, 0x01);
    run(&mut cpu, 0x8124);
    assert_eq!(cpu.vx[1], 0x02);
    assert_eq!(cpu.vx[0xF], 0);
    assert_eq!(cpu.pc, 0x206);
}

#[test]
fn subtract_sets_flag_when_no_borrow() {
    let mut cpu = with_registers(0x01, 0x02);
    run(&mut cpu, 0x8125);
    assert_eq!(cpu.vx[1], 0xFF);
    assert_eq!(cpu.vx[0xF], 0);
    let mut cpu = with_registers(0x02, 0x01);
    run(&mut cpu, 0x8125);
    assert_eq!(cpu.vx[1], 0x01);
    assert_eq!(cpu.vx[0xF], 1);
    let mut cpu = with_registers(0x05, 0x05);
    run(&mut cpu, 0x8125);
    assert_eq!(cpu.vx[1], 0x00);
    assert_eq!(cpu.vx[0xF], 1);
    let mut cpu = with_registers(0xF0, 0x10);
    run(&mut cpu, 0x8125);
    assert_eq!(cpu.vx[1], 0xE0);
    assert_eq!(cpu.vx[0xF], 1);
}

#[test]
fn reverse_subtract_sets_flag_when_no_borrow() {
    let mut cpu = with_registers(0x01, 0x03);
    run(&mut cpu, 0x8127);
    assert_eq!(cpu.vx[1], 0x02);
    assert_eq!(cpu.vx[0xF], 1);
    let mut cpu = with_registers(0x03, 0x01);
    run(&mut cpu, 0x8127);
    assert_eq!(cpu.vx[1], 0xFE);
    assert_eq!(cpu.vx[0xF], 0);
}

#[test]
fn assign_and_bitwise_operations() {
    let mut cpu = with_registers(0b1100, 0b1010);
    run(&mut cpu, 0x8120);
    assert_eq!(cpu.vx[1], 0b1010);
    let mut cpu = with_registers(0b1100, 0b1010);
    run(&mut cpu, 0x8121);
    assert_eq!(cpu.vx[1], 0b1110);
    let mut cpu = with_registers(0b1100, 0b1010);
    run(&mut cpu, 0x8122);
    assert_eq!(cpu.vx[1], 0b1000);
    let mut cpu = with_registers(0b1100, 0b1010);
    run(&mut cpu, 0x8123);
    assert_eq!(cpu.vx[1], 0b0110);
    assert_eq!(cpu.vx[2], 0b1010);
    assert_eq!(cpu.vx[0xF], 0);
}

#[test]
fn shifts_push_a_bit_into_the_flag() {
    let mut cpu = with_registers(0b0000_0101, 0);
    run(&mut cpu, 0x8126);
    assert_eq!(cpu.vx[1], 0b0000_0010);
    assert_eq!(cpu.vx[0xF], 1);
    let mut cpu = with_registers(0b0000_0100, 0);
    run(&mut cpu, 0x8126);
    assert_eq!(cpu.vx[1], 0b0000_0010);
    assert_eq!(cpu.vx[0xF], 0);
    let mut cpu = with_registers(0b1000_0001, 0);
    run(&mut cpu, 0x812E);
    assert_eq!(cpu.vx[1], 0b0000_0010);
    assert_eq!(cpu.vx[0xF], 1);
    let mut cpu = with_registers(0b0100_0001, 0);
    run(&mut cpu, 0x812E);
    assert_eq!(cpu.vx[1], 0b1000_0010);
    assert_eq!(cpu.vx[0xF], 0);
}

#[test]
fn skips_compare_register_with_byte() {
    let mut cpu = with_registers(0x33, 0);
    run(&mut cpu, 0x3133);
    assert_eq!(cpu.pc, 0x208);
    run(&mut cpu, 0x3134);
    assert_eq!(cpu.pc, 0x20A);
    run(&mut cpu, 0x4133);
    assert_eq!(cpu.pc, 0x20C);
    run(&mut cpu, 0x4134);
    assert_eq!(cpu.pc, 0x210);
}

#[test]
fn skips_compare_two_registers() {
    let mut cpu = with_registers(0x33, 0x33);
    run(&mut cpu, 0x5120);
    assert_eq!(cpu.pc, 0x208);
    run(&mut cpu, 0x9120);
    assert_eq!(cpu.pc, 0x20A);
    let mut cpu = with_registers(0x33, 0x34);
    run(&mut cpu, 0x5120);
    assert_eq!(cpu.pc, 0x206);
    run(&mut cpu, 0x9120);
    assert_eq!(cpu.pc, 0x20A);
}

#[test]
fn jumps_set_the_program_counter() {
    let mut cpu = Cpu::new();
    run(&mut cpu, 0x1ABC);
    assert_eq!(cpu.pc, 0xABC);
    run(&mut cpu, 0x6005);
    run(&mut cpu, 0xB300);
    assert_eq!(cpu.pc, 0x305);
    run(&mut cpu, 0x60FF);
    run(&mut cpu, 0xBFFF);
    assert_eq!(cpu.pc, 0x0FE);
}

#[test]
fn program_counter_wraps_at_the_end_of_memory() {
    let mut cpu = Cpu::new();
    run(&mut cpu, 0x1FFE);
    run(&mut cpu, 0x6000);
    assert_eq!(cpu.pc, 0x000);
    run(&mut cpu, 0x1FFE);
    run(&mut cpu, 0x3000);
    assert_eq!(cpu.pc, 0x002);
}

#[test]
fn call_then_return_comes_back_after_the_call() {
    let mut cpu = Cpu::new();
    cpu.load_rom(&vec![0x22, 0x06, 0x61, 0x07, 0x00, 0x00, 0x00, 0xEE]);
    assert_eq!(cpu.run_instruction(), Ok(()));
    assert_eq!(cpu.pc, 0x206);
    assert_eq!(cpu.stack.len(), 1);
    assert_eq!(cpu.run_instruction(), Ok(()));
    assert_eq!(cpu.pc, 0x202);
    assert_eq!(cpu.stack.len(), 0);
    assert_eq!(cpu.run_instruction(), Ok(()));
    assert_eq!(cpu.vx[1], 7);
}

#[test]
fn nested_calls_return_in_reverse_order() {
    let mut cpu = Cpu::new();
    run(&mut cpu, 0x2300);
    run(&mut cpu, 0x2400);
    assert_eq!(cpu.stack.len(), 2);
    run(&mut cpu, 0x00EE);
    assert_eq!(cpu.pc, 0x302);
    run(&mut cpu, 0x00EE);
    assert_eq!(cpu.pc, 0x202);
}

#[test]
fn return_with_empty_stack_is_a_fault() {
    let mut cpu = Cpu::new();
    assert_eq!(cpu.execute(0x00EE, 0, 0, Instant::now()), Err(Fault::StackUnderflow { pc: 0x200 }));
    assert_eq!(cpu.pc, 0x200);
    cpu.load_rom(&vec![0x00, 0xEE]);
    assert_eq!(cpu.run_instruction(), Err(Fault::StackUnderflow { pc: 0x200 }));
}

#[test]
fn unknown_instructions_are_faults() {
    let words: Vec<u16> = vec![0x0000, 0x00E1, 0x8128, 0x812F, 0xE19F, 0xE100, 0xF1FF, 0xF100, 0xF154];
    for inst in words {
        let mut cpu = with_registers(1, 2);
        assert_eq!(
            cpu.execute(inst, 0, 0, Instant::now()),
            Err(Fault::UnknownInstruction { inst, pc: 0x204 })
        );
        assert_eq!(cpu.pc, 0x204);
        assert_eq!(cpu.vx[1], 1);
        assert_eq!(cpu.vx[0xF], 0);
    }
    let mut cpu = Cpu::new();
    assert_eq!(
        cpu.run_instruction(),
        Err(Fault::UnknownInstruction { inst: 0x0000, pc: 0x200 })
    );
}

#[test]
fn clear_screen_blanks_the_display() {
    let mut cpu = Cpu::new();
    cpu.display.draw(3, 3, 0xFF);
    run(&mut cpu, 0x00E0);
    assert!(lit(&cpu).is_empty());
    assert_eq!(cpu.pc, 0x202);
}

#[test]
fn set_index_and_add_to_index() {
    let mut cpu = with_registers(0x10, 0);
    run(&mut cpu, 0xA123);
    assert_eq!(cpu.i, 0x123);
    run(&mut cpu, 0xF11E);
    assert_eq!(cpu.i, 0x133);
    assert_eq!(cpu.pc, 0x208);
}

#[test]
fn random_is_masked_by_the_immediate() {
    let mut cpu = Cpu::new();
    assert_eq!(cpu.execute(0xC30F, 0xAB, 0, Instant::now()), Ok(()));
    assert_eq!(cpu.vx[3], 0x0B);
    assert_eq!(cpu.execute(0xC3F0, 0xAB, 0, Instant::now()), Ok(()));
    assert_eq!(cpu.vx[3], 0xA0);
    assert_eq!(cpu.execute(0xC3FF, 0xFF, 0, Instant::now()), Ok(()));
    assert_eq!(cpu.vx[3], 0xFF);
    assert_eq!(cpu.pc, 0x206);
}

#[test]
fn run_instruction_draws_varying_random_bytes() {
    let mut cpu = Cpu::new();
    cpu.load_rom(&vec![0xC1, 0xFF, 0xC2, 0x0F, 0xC3, 0x00, 0x12, 0x00]);
    let mut seen: Vec<u8> = Vec::new();
    for _ in 0..64 {
        assert_eq!(cpu.run_instruction(), Ok(()));
        assert_eq!(cpu.run_instruction(), Ok(()));
        assert_eq!(cpu.run_instruction(), Ok(()));
        assert_eq!(cpu.run_instruction(), Ok(()));
        assert_eq!(cpu.pc, 0x200);
        assert!(cpu.vx[2] < 16);
        assert_eq!(cpu.vx[3], 0);
        seen.push(cpu.vx[1]);
    }
    assert!(seen.iter().any(|b| *b != seen[0]));
}

#[test]
fn draw_sprite_of_font_glyph() {
    let mut cpu = with_registers(2, 1);
    run(&mut cpu, 0x6300);
    run(&mut cpu, 0xF329);
    assert_eq!(cpu.i, 0);
    run(&mut cpu, 0xD125);
    assert_eq!(cpu.vx[0xF], 0);
    assert_eq!(
        lit(&cpu),
        vec![
            64 + 2, 64 + 3, 64 + 4, 64 + 5,
            128 + 2, 128 + 5,
            192 + 2, 192 + 5,
            256 + 2, 256 + 5,
            320 + 2, 320 + 3, 320 + 4, 320 + 5,
        ]
    );
    run(&mut cpu, 0xD125);
    assert_eq!(cpu.vx[0xF], 1);
    assert!(lit(&cpu).is_empty());
    run(&mut cpu, 0xD125);
    assert_eq!(cpu.vx[0xF], 0);
    assert_eq!(cpu.pc, 0x20E);
}

#[test]
fn draw_wraps_rows_past_the_bottom() {
    let mut cpu = Cpu::new();
    run(&mut cpu, 0xA005);
    cpu.draw(62, 31, 2);
    assert_eq!(lit(&cpu), vec![0, 63, 31 * 64]);
    assert_eq!(cpu.vx[0xF], 0);
    let mut cpu = Cpu::new();
    cpu.draw(0, 255, 2);
    assert_eq!(lit(&cpu), vec![0, 3, 31 * 64, 31 * 64 + 1, 31 * 64 + 2, 31 * 64 + 3]);
}

#[test]
fn draw_of_no_rows_clears_the_flag() {
    let mut cpu = Cpu::new();
    run(&mut cpu, 0x6F09);
    cpu.draw(0, 0, 0);
    assert_eq!(cpu.vx[0xF], 0);
    assert!(lit(&cpu).is_empty());
}

#[test]
fn font_address_is_five_times_the_digit() {
    let mut cpu = with_registers(0xA, 0);
    run(&mut cpu, 0xF129);
    assert_eq!(cpu.i, 50);
    let mut cpu = with_registers(0xFF, 0);
    run(&mut cpu, 0xF129);
    assert_eq!(cpu.i, 1275);
}

#[test]
fn key_skips_follow_the_pressed_key() {
    let mut cpu = with_registers(0x7, 0);
    run(&mut cpu, 0xE19E);
    assert_eq!(cpu.pc, 0x206);
    run(&mut cpu, 0xE1A1);
    assert_eq!(cpu.pc, 0x20A);
    cpu.keyboard.set_pressed_key(Some(0x7));
    run(&mut cpu, 0xE19E);
    assert_eq!(cpu.pc, 0x20E);
    run(&mut cpu, 0xE1A1);
    assert_eq!(cpu.pc, 0x210);
    cpu.keyboard.set_pressed_key(Some(0x8));
    run(&mut cpu, 0xE19E);
    assert_eq!(cpu.pc, 0x212);
    run(&mut cpu, 0xE1A1);
    assert_eq!(cpu.pc, 0x216);
}

#[test]
fn key_wait_spins_until_a_key_is_pressed() {
    let mut cpu = Cpu::new();
    cpu.load_rom(&vec![0xF5, 0x0A, 0x65, 0x01]);
    for _ in 0..10 {
        assert_eq!(cpu.run_instruction(), Ok(()));
        assert_eq!(cpu.pc, 0x200);
        assert_eq!(cpu.vx[5], 0);
    }
    cpu.keyboard.set_pressed_key(Some(0xC));
    assert_eq!(cpu.run_instruction(), Ok(()));
    assert_eq!(cpu.vx[5], 0xC);
    assert_eq!(cpu.pc, 0x202);
}

#[test]
fn delay_timer_is_set_and_read() {
    let mut cpu = with_registers(200, 0);
    run(&mut cpu, 0xF115);
    let left = cpu.get_timer();
    assert!(left <= 200);
    assert!(left >= 190);
    assert_eq!(cpu.execute(0xF207, 0, 77, Instant::now()), Ok(()));
    assert_eq!(cpu.vx[2], 77);
    cpu.load_rom(&vec![0xF3, 0x07]);
    run(&mut cpu, 0x1200);
    assert_eq!(cpu.run_instruction(), Ok(()));
    assert!(cpu.vx[3] <= 200);
    assert!(cpu.vx[3] >= 190);
    assert_eq!(cpu.pc, 0x202);
}

#[test]
fn set_timer_then_get_timer() {
    let mut cpu = Cpu::new();
    cpu.set_timer(10);
    let start = Instant::now();
    let left = cpu.get_timer();
    assert!(left <= 10);
    assert!(left >= 5);
    while start.elapsed() < Duration::from_millis(170) {
        std::hint::spin_loop();
    }
    assert_eq!(cpu.get_timer(), 0);
}

#[test]
fn sound_timer_is_set_from_register() {
    let mut cpu = with_registers(250, 0);
    run(&mut cpu, 0xF118);
    let left = cpu.sound_timer();
    assert!(left <= 250);
    assert!(left >= 240);
    assert_eq!(cpu.get_timer(), 0);
    assert_eq!(cpu.pc, 0x206);
}

#[test]
fn bcd_stores_hundreds_tens_ones() {
    let mut cpu = with_registers(254, 0);
    run(&mut cpu, 0xA300);
    run(&mut cpu, 0xF133);
    assert_eq!(cpu.ram.read_byte(0x300), 2);
    assert_eq!(cpu.ram.read_byte(0x301), 5);
    assert_eq!(cpu.ram.read_byte(0x302), 4);
    assert_eq!(cpu.i, 0x300);
    let mut cpu = with_registers(7, 0);
    run(&mut cpu, 0xA300);
    run(&mut cpu, 0xF133);
    assert_eq!(cpu.ram.read_byte(0x300), 0);
    assert_eq!(cpu.ram.read_byte(0x301), 0);
    assert_eq!(cpu.ram.read_byte(0x302), 7);
}

#[test]
fn store_registers_writes_v0_to_vx() {
    let mut cpu = Cpu::new();
    run(&mut cpu, 0x6011);
    run(&mut cpu, 0x6122);
    run(&mut cpu, 0x6233);
    run(&mut cpu, 0x6344);
    run(&mut cpu, 0xA400);
    run(&mut cpu, 0xF255);
    assert_eq!(cpu.ram.read_byte(0x400), 0x11);
    assert_eq!(cpu.ram.read_byte(0x401), 0x22);
    assert_eq!(cpu.ram.read_byte(0x402), 0x33);
    assert_eq!(cpu.ram.read_byte(0x403), 0);
    assert_eq!(cpu.i, 0x403);
    assert_eq!(cpu.pc, 0x20C);
}

#[test]
fn load_registers_reads_v0_to_vx() {
    let mut cpu = Cpu::new();
    cpu.ram.write_byte(0x400, 0xAA);
    cpu.ram.write_byte(0x401, 0xBB);
    cpu.ram.write_byte(0x402, 0xCC);
    run(&mut cpu, 0x6209);
    run(&mut cpu, 0xA400);
    run(&mut cpu, 0xF165);
    assert_eq!(cpu.vx[0], 0xAA);
    assert_eq!(cpu.vx[1], 0xBB);
    assert_eq!(cpu.vx[2], 0x09);
    assert_eq!(cpu.i, 0x402);
    assert_eq!(cpu.pc, 0x206);
}

#[test]
fn store_and_load_wrap_at_the_end_of_memory() {
    let mut cpu = Cpu::new();
    run(&mut cpu, 0x6001);
    run(&mut cpu, 0x6102);
    run(&mut cpu, 0xAFFF);
    run(&mut cpu, 0xF155);
    assert_eq!(cpu.ram.read_byte(0xFFF), 1);
    assert_eq!(cpu.ram.read_byte(0x000), 2);
    assert_eq!(cpu.i, 0x1001);
}

#[test]
fn set_timer_at_takes_over_value_and_instant() {
    let mut cpu = Cpu::new();
    let early = Instant::now();
    while early.elapsed() < Duration::from_millis(170) {
        std::hint::spin_loop();
    }
    cpu.set_timer(10);
    assert!(cpu.get_timer() >= 5);
    cpu.set_timer_at(10, early);
    assert_eq!(cpu.delay.value, 10);
    assert_eq!(cpu.delay.since, early);
    assert_eq!(cpu.get_timer(), 0);
    cpu.set_timer(10);
    assert!(cpu.delay.since > early);
    assert!(cpu.get_timer() >= 5);
}

#[test]
fn timer_instructions_restart_the_clock_at_the_given_instant() {
    let mut cpu = with_registers(10, 20);
    let delay_at = cpu.delay.since;
    let sound_at = cpu.sound.since;
    let early = Instant::now();
    while early.elapsed() < Duration::from_millis(5) {
        std::hint::spin_loop();
    }
    let late = Instant::now();
    assert_eq!(cpu.execute(0xF115, 0, 0, early), Ok(()));
    assert_eq!(cpu.delay.value, 10);
    assert_eq!(cpu.delay.since, early);
    assert_eq!(cpu.sound.value, 0);
    assert_eq!(cpu.sound.since, sound_at);
    assert_eq!(cpu.execute(0xF218, 0, 0, late), Ok(()));
    assert_eq!(cpu.sound.value, 20);
    assert_eq!(cpu.sound.since, late);
    assert_eq!(cpu.delay.since, early);
    assert!(delay_at <= early);
}

#[test]
fn other_instructions_leave_the_timers_alone() {
    let mut cpu = Cpu::new();
    cpu.set_timer(99);
    let delay_at = cpu.delay.since;
    let sound_at = cpu.sound.since;
    cpu.load_rom(&vec![0x61, 0x05, 0xA0, 0x00, 0xD1, 0x15, 0xC2, 0xFF, 0xF3, 0x07, 0x00, 0xE0]);
    for _ in 0..6 {
        assert_eq!(cpu.run_instruction(), Ok(()));
        assert_eq!(cpu.delay.value, 99);
        assert_eq!(cpu.delay.since, delay_at);
        assert_eq!(cpu.sound.value, 0);
        assert_eq!(cpu.sound.since, sound_at);
    }
    cpu.draw(1, 2, 5);
    assert_eq!(cpu.delay.since, delay_at);
    assert_eq!(cpu.sound.since, sound_at);
}

#[test]
fn run_instruction_restarts_the_delay_timer_on_its_instruction() {
    let mut cpu = Cpu::new();
    let born = cpu.delay.since;
    let sound_at = cpu.sound.since;
    while born.elapsed() < Duration::from_millis(5) {
        std::hint::spin_loop();
    }
    cpu.load_rom(&vec![0x61, 0x64, 0xF1, 0x15]);
    assert_eq!(cpu.run_instruction(), Ok(()));
    assert_eq!(cpu.run_instruction(), Ok(()));
    assert_eq!(cpu.delay.value, 100);
    assert!(cpu.delay.since > born);
    assert_eq!(cpu.sound.since, sound_at);
    assert!(cpu.get_timer() >= 90);
}
