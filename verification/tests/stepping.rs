use chip8::{Chip8Error, Cpu};

fn loaded(program: &[u8]) -> Cpu {
    let mut cpu = Cpu::new();
    cpu.load_rom(program).unwrap();
    cpu
}

#[test]
fn clear_load_add_program() {
    let mut cpu = loaded(&[0x00, 0xE0, 0x60, 0x05, 0x70, 0x03, 0x00, 0x00]);
    assert_eq!(cpu.run_loop(), Ok(()));
    assert_eq!(cpu.run_loop(), Ok(()));
    assert_eq!(cpu.run_loop(), Ok(()));
    assert_eq!(cpu.register(0), Some(8));
    assert!(cpu.read_display().iter().all(|on| !on));
    assert_eq!(cpu.program_counter(), 0x206);
}

#[test]
fn wait_for_key_with_key_four_down() {
    let mut cpu = loaded(&[0xF7, 0x0A]);
    cpu.set_key(4, true).unwrap();
    assert_eq!(cpu.run_loop(), Ok(()));
    assert_eq!(cpu.register(7), Some(4));
    assert_eq!(cpu.program_counter(), 0x202);
}

#[test]
fn wait_for_key_blocks_until_a_key_goes_down() {
    let mut cpu = loaded(&[0x60, 0x03, 0xF0, 0x15, 0xF7, 0x0A, 0x61, 0x01]);
    assert_eq!(cpu.run_loop(), Ok(()));
    assert_eq!(cpu.run_loop(), Ok(()));
    assert_eq!(cpu.delay_timer_value(), 3);
    assert_eq!(cpu.run_loop(), Ok(()));
    assert_eq!(cpu.program_counter(), 0x204);
    assert_eq!(cpu.delay_timer_value(), 2);
    assert_eq!(cpu.run_loop(), Ok(()));
    assert_eq!(cpu.program_counter(), 0x204);
    assert_eq!(cpu.delay_timer_value(), 1);
    assert_eq!(cpu.register(7), Some(0));
    cpu.set_key(0xB, true).unwrap();
    assert_eq!(cpu.run_loop(), Ok(()));
    assert_eq!(cpu.program_counter(), 0x206);
    assert_eq!(cpu.register(7), Some(0xB));
    assert_eq!(cpu.run_loop(), Ok(()));
    assert_eq!(cpu.register(1), Some(1));
}

#[test]
fn bare_return_is_a_reported_error() {
    let mut cpu = loaded(&[0x00, 0xEE]);
    assert_eq!(cpu.stack_depth(), 0);
    assert_eq!(cpu.run_loop(), Err(Chip8Error::StackUnderflow));
    assert_eq!(cpu.program_counter(), 0x200);
    assert_eq!(cpu.stack_depth(), 0);
}

#[test]
fn failed_step_fails_again() {
    let mut cpu = loaded(&[0x6A, 0x20, 0xEA, 0x9E]);
    assert_eq!(cpu.run_loop(), Ok(()));
    assert_eq!(cpu.run_loop(), Err(Chip8Error::InvalidKey));
    assert_eq!(cpu.run_loop(), Err(Chip8Error::InvalidKey));
    assert_eq!(cpu.program_counter(), 0x202);
}

#[test]
fn failed_step_still_ticks_the_timers() {
    let mut cpu = loaded(&[0x60, 0x09, 0xF0, 0x15, 0xF0, 0x18, 0x00, 0xEE]);
    assert_eq!(cpu.run_loop(), Ok(()));
    assert_eq!(cpu.run_loop(), Ok(()));
    assert_eq!(cpu.run_loop(), Ok(()));
    assert_eq!(cpu.delay_timer_value(), 8);
    assert_eq!(cpu.sound_timer_value(), 9);
    assert_eq!(cpu.run_loop(), Err(Chip8Error::StackUnderflow));
    assert_eq!(cpu.delay_timer_value(), 7);
    assert_eq!(cpu.sound_timer_value(), 8);
    assert_eq!(cpu.program_counter(), 0x206);
}

#[test]
fn call_and_return_through_steps() {
    let mut cpu = loaded(&[0x22, 0x06, 0x61, 0x07, 0x00, 0x00, 0x00, 0xEE]);
    assert_eq!(cpu.run_loop(), Ok(()));
    assert_eq!(cpu.program_counter(), 0x206);
    assert_eq!(cpu.stack_depth(), 1);
    assert_eq!(cpu.run_loop(), Ok(()));
    assert_eq!(cpu.program_counter(), 0x202);
    assert_eq!(cpu.stack_depth(), 0);
    assert_eq!(cpu.run_loop(), Ok(()));
    assert_eq!(cpu.register(1), Some(7));
}

#[test]
fn endless_recursion_overflows_the_stack() {
    let mut cpu = loaded(&[0x22, 0x00]);
    let mut calls: usize = 0;
    while calls < 16 {
        assert_eq!(cpu.run_loop(), Ok(()));
        calls += 1;
    }
    assert_eq!(cpu.stack_depth(), 16);
    assert_eq!(cpu.run_loop(), Err(Chip8Error::StackOverflow));
    assert_eq!(cpu.stack_depth(), 16);
    assert_eq!(cpu.program_counter(), 0x200);
}

#[test]
fn skip_passes_over_one_instruction() {
    let mut cpu = loaded(&[0x60, 0x05, 0x30, 0x05, 0x61, 0x01, 0x62, 0x02]);
    assert_eq!(cpu.run_loop(), Ok(()));
    assert_eq!(cpu.run_loop(), Ok(()));
    assert_eq!(cpu.program_counter(), 0x206);
    assert_eq!(cpu.run_loop(), Ok(()));
    assert_eq!(cpu.register(1), Some(0));
    assert_eq!(cpu.register(2), Some(2));
}

#[test]
fn inequality_skip_differs_from_equality_skip() {
    let mut cpu = loaded(&[0x60, 0x05, 0x61, 0x05, 0x90, 0x10, 0x50, 0x10]);
    assert_eq!(cpu.run_loop(), Ok(()));
    assert_eq!(cpu.run_loop(), Ok(()));
    assert_eq!(cpu.run_loop(), Ok(()));
    assert_eq!(cpu.program_counter(), 0x206);
    assert_eq!(cpu.run_loop(), Ok(()));
    assert_eq!(cpu.program_counter(), 0x20A);
}

#[test]
fn fetch_reads_both_bytes_high_byte_first() {
    let mut cpu = loaded(&[0x12, 0x34]);
    assert_eq!(cpu.fetch(), Ok(0x1234));
    assert_eq!(cpu.program_counter(), 0x202);
}

#[test]
fn running_off_the_end_of_memory_is_an_error() {
    let mut cpu = loaded(&[0x1F, 0xFE]);
    assert_eq!(cpu.run_loop(), Ok(()));
    assert_eq!(cpu.program_counter(), 0xFFE);
    assert_eq!(cpu.run_loop(), Ok(()));
    assert_eq!(cpu.program_counter(), 0x1000);
    assert_eq!(cpu.run_loop(), Err(Chip8Error::ProgramCounterOutOfBounds));
    assert_eq!(cpu.program_counter(), 0x1000);
    assert_eq!(cpu.fetch(), Err(Chip8Error::ProgramCounterOutOfBounds));
}

#[test]
fn instruction_across_the_end_of_memory_is_an_error() {
    let mut cpu = loaded(&[0x1F, 0xFF]);
    assert_eq!(cpu.run_loop(), Ok(()));
    assert_eq!(cpu.program_counter(), 0xFFF);
    assert_eq!(cpu.run_loop(), Err(Chip8Error::ProgramCounterOutOfBounds));
}

#[test]
fn jump_with_offset_past_memory_fails_at_the_next_fetch() {
    let mut cpu = loaded(&[0x60, 0xFF, 0xBF, 0xFF]);
    assert_eq!(cpu.run_loop(), Ok(()));
    assert_eq!(cpu.run_loop(), Ok(()));
    assert_eq!(cpu.program_counter(), 0x10FE);
    assert_eq!(cpu.run_loop(), Err(Chip8Error::ProgramCounterOutOfBounds));
}

#[test]
fn step_with_feeds_the_random_instruction() {
    let mut cpu = loaded(&[0xC3, 0x3C, 0xC4, 0xFF]);
    assert_eq!(cpu.step_with(0xFF), Ok(()));
    assert_eq!(cpu.register(3), Some(0x3C));
    assert_eq!(cpu.step_with(0x5A), Ok(()));
    assert_eq!(cpu.register(4), Some(0x5A));
}

#[test]
fn step_with_is_repeatable() {
    let program = [0xC0, 0xFF, 0x80, 0x04, 0xF0, 0x1E, 0xF0, 0x33];
    let mut first = loaded(&program);
    let mut second = loaded(&program);
    let mut k: u8 = 0;
    while k < 4 {
        assert_eq!(first.step_with(0x77), second.step_with(0x77));
        k += 1;
    }
    assert_eq!(first.register(0), second.register(0));
    assert_eq!(first.register(0), Some(0xEE));
    assert_eq!(first.index_register(), 0xEE);
    assert_eq!(first.read_memory(0xEE), Ok(2));
    assert_eq!(first.read_memory(0xEF), Ok(3));
    assert_eq!(first.read_memory(0xF0), Ok(8));
}

#[test]
fn run_loop_masks_its_random_byte() {
    let mut cpu = loaded(&[0xC1, 0x07, 0x12, 0x00]);
    let mut k: u32 = 0;
    while k < 50 {
        assert_eq!(cpu.run_loop(), Ok(()));
        assert!(cpu.register(1).unwrap() < 8);
        assert_eq!(cpu.run_loop(), Ok(()));
        k += 1;
    }
}

#[test]
fn load_rom_copies_to_the_start_address() {
    let mut cpu = Cpu::new();
    assert_eq!(cpu.load_rom(&[1, 2, 3]), Ok(()));
    assert_eq!(cpu.read_memory(0x1FF), Ok(0));
    assert_eq!(cpu.read_memory(0x200), Ok(1));
    assert_eq!(cpu.read_memory(0x201), Ok(2));
    assert_eq!(cpu.read_memory(0x202), Ok(3));
    assert_eq!(cpu.read_memory(0x203), Ok(0));
    assert_eq!(cpu.read_memory(80), Ok(0xF0));
}

#[test]
fn load_rom_accepts_a_program_that_just_fits() {
    let mut cpu = Cpu::new();
    let program = vec![0xAB; 4096 - 0x200];
    assert_eq!(cpu.load_rom(&program), Ok(()));
    assert_eq!(cpu.read_memory(0x200), Ok(0xAB));
    assert_eq!(cpu.read_memory(4095), Ok(0xAB));
    assert_eq!(cpu.read_memory(0x1FF), Ok(0));
}

#[test]
fn load_rom_refuses_a_program_that_is_too_large() {
    let mut cpu = Cpu::new();
    let program = vec![0xAB; 4096 - 0x200 + 1];
    assert_eq!(cpu.load_rom(&program), Err(Chip8Error::ProgramTooLarge));
    assert_eq!(cpu.read_memory(0x200), Ok(0));
    assert_eq!(cpu.read_memory(4095), Ok(0));
}

#[test]
fn load_rom_of_nothing_changes_nothing() {
    let mut cpu = Cpu::new();
    assert_eq!(cpu.load_rom(&[]), Ok(()));
    assert_eq!(cpu.read_memory(0x200), Ok(0));
}

#[test]
fn machines_are_independent() {
    let mut first = loaded(&[0x60, 0x01]);
    let mut second = loaded(&[0x60, 0x02]);
    assert_eq!(first.run_loop(), Ok(()));
    assert_eq!(second.run_loop(), Ok(()));
    assert_eq!(first.register(0), Some(1));
    assert_eq!(second.register(0), Some(2));
}

#[test]
fn unknown_word_is_skipped() {
    let mut cpu = loaded(&[0x00, 0x00, 0xFF, 0xFF, 0x61, 0x09]);
    assert_eq!(cpu.run_loop(), Ok(()));
    assert_eq!(cpu.run_loop(), Ok(()));
    assert_eq!(cpu.program_counter(), 0x204);
    assert_eq!(cpu.run_loop(), Ok(()));
    assert_eq!(cpu.register(1), Some(9));
}
