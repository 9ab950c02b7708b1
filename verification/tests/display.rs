use chip8::machine::{DISPLAY_HEIGHT, DISPLAY_SIZE, DISPLAY_WIDTH};
use chip8::{Chip8Error, Cpu, Instruction};

fn lit(cpu: &Cpu) -> Vec<(usize, usize)> {
    let pixels = cpu.read_display();
    let mut on = Vec::new();
    let mut k: usize = 0;
    while k < DISPLAY_SIZE {
        if pixels[k] {
            on.push((k % DISPLAY_WIDTH, k / DISPLAY_WIDTH));
        }
        k += 1;
    }
    on
}

fn with_sprite(rows: &[u8], x: u8, y: u8) -> Cpu {
    let mut cpu = Cpu::new();
    let mut k: usize = 0;
    while k < rows.len() {
        cpu.write_memory(0x300 + k, rows[k]).unwrap();
        k += 1;
    }
    cpu.execute(Instruction::LoadIndex { addr: 0x300 }, 0).unwrap();
    cpu.execute(Instruction::LoadImm { x: 1, nn: x }, 0).unwrap();
    cpu.execute(Instruction::LoadImm { x: 2, nn: y }, 0).unwrap();
    cpu
}

#[test]
fn display_has_width_times_height_pixels() {
    let cpu = Cpu::new();
    assert_eq!(cpu.read_display().len(), 64 * 32);
    assert_eq!(DISPLAY_SIZE, DISPLAY_WIDTH * DISPLAY_HEIGHT);
}

#[test]
fn draw_puts_the_most_significant_bit_leftmost() {
    let mut cpu = with_sprite(&[0b1010_0001, 0b1000_0000], 3, 5);
    cpu.execute(Instruction::Draw { x: 1, y: 2, n: 2 }, 0).unwrap();
    assert_eq!(lit(&cpu), vec![(3, 5), (5, 5), (10, 5), (3, 6)]);
    assert_eq!(cpu.register(0xF), Some(0));
}

#[test]
fn draw_is_row_major() {
    let mut cpu = with_sprite(&[0x80], 7, 2);
    cpu.execute(Instruction::Draw { x: 1, y: 2, n: 1 }, 0).unwrap();
    assert!(cpu.read_display()[2 * 64 + 7]);
    assert_eq!(lit(&cpu).len(), 1);
}

#[test]
fn draw_twice_restores_display_and_reports_collision() {
    let mut cpu = with_sprite(&[0xFF, 0x81, 0xFF], 10, 10);
    cpu.execute(Instruction::Draw { x: 1, y: 2, n: 3 }, 0).unwrap();
    assert_eq!(lit(&cpu).len(), 18);
    assert_eq!(cpu.register(0xF), Some(0));
    cpu.execute(Instruction::Draw { x: 1, y: 2, n: 3 }, 0).unwrap();
    assert!(cpu.read_display().iter().all(|on| !on));
    assert_eq!(cpu.register(0xF), Some(1));
}

#[test]
fn draw_twice_over_a_background_restores_it() {
    let mut cpu = with_sprite(&[0xF0, 0x0F], 0, 0);
    cpu.execute(Instruction::Draw { x: 1, y: 2, n: 1 }, 0).unwrap();
    let background = lit(&cpu);
    cpu.execute(Instruction::LoadImm { x: 1, nn: 2 }, 0).unwrap();
    cpu.execute(Instruction::Draw { x: 1, y: 2, n: 2 }, 0).unwrap();
    assert_eq!(cpu.register(0xF), Some(1));
    assert_eq!(lit(&cpu), vec![(0, 0), (1, 0), (4, 0), (5, 0), (6, 1), (7, 1), (8, 1), (9, 1)]);
    cpu.execute(Instruction::Draw { x: 1, y: 2, n: 2 }, 0).unwrap();
    assert_eq!(lit(&cpu), background);
    assert_eq!(cpu.register(0xF), Some(1));
}

#[test]
fn empty_sprite_drawn_twice_never_collides() {
    let mut cpu = with_sprite(&[0xFF], 0, 0);
    cpu.execute(Instruction::Draw { x: 1, y: 2, n: 1 }, 0).unwrap();
    cpu.execute(Instruction::LoadIndex { addr: 0x400 }, 0).unwrap();
    cpu.execute(Instruction::Draw { x: 1, y: 2, n: 1 }, 0).unwrap();
    assert_eq!(cpu.register(0xF), Some(0));
    cpu.execute(Instruction::Draw { x: 1, y: 2, n: 1 }, 0).unwrap();
    assert_eq!(cpu.register(0xF), Some(0));
    assert_eq!(lit(&cpu).len(), 8);
}

#[test]
fn draw_clips_at_the_right_edge() {
    let mut cpu = with_sprite(&[0xFF], 60, 0);
    cpu.execute(Instruction::Draw { x: 1, y: 2, n: 1 }, 0).unwrap();
    assert_eq!(lit(&cpu), vec![(60, 0), (61, 0), (62, 0), (63, 0)]);
}

#[test]
fn draw_clips_at_the_bottom_edge() {
    let mut cpu = with_sprite(&[0x80, 0x80, 0x80], 0, 30);
    cpu.execute(Instruction::Draw { x: 1, y: 2, n: 3 }, 0).unwrap();
    assert_eq!(lit(&cpu), vec![(0, 30), (0, 31)]);
}

#[test]
fn draw_wraps_the_starting_position() {
    let mut cpu = with_sprite(&[0xC0], 64 + 3, 32 + 4);
    cpu.execute(Instruction::Draw { x: 1, y: 2, n: 1 }, 0).unwrap();
    assert_eq!(lit(&cpu), vec![(3, 4), (4, 4)]);
    let mut cpu = with_sprite(&[0xC0], 255, 255);
    cpu.execute(Instruction::Draw { x: 1, y: 2, n: 1 }, 0).unwrap();
    assert_eq!(lit(&cpu), vec![(63, 31)]);
}

#[test]
fn draw_resets_the_flag_without_collision() {
    let mut cpu = with_sprite(&[0x80], 0, 0);
    cpu.execute(Instruction::LoadImm { x: 0xF, nn: 1 }, 0).unwrap();
    cpu.execute(Instruction::Draw { x: 1, y: 2, n: 1 }, 0).unwrap();
    assert_eq!(cpu.register(0xF), Some(0));
}

#[test]
fn draw_of_no_rows_draws_nothing() {
    let mut cpu = with_sprite(&[0xFF], 0, 0);
    cpu.execute(Instruction::LoadImm { x: 0xF, nn: 1 }, 0).unwrap();
    cpu.execute(Instruction::Draw { x: 1, y: 2, n: 0 }, 0).unwrap();
    assert!(lit(&cpu).is_empty());
    assert_eq!(cpu.register(0xF), Some(0));
}

#[test]
fn draw_of_a_sprite_past_the_end_of_memory_is_refused() {
    let mut cpu = with_sprite(&[0xFF], 0, 0);
    cpu.execute(Instruction::LoadIndex { addr: 0xFFE }, 0).unwrap();
    cpu.write_memory(0xFFE, 0xFF).unwrap();
    assert_eq!(
        cpu.execute(Instruction::Draw { x: 1, y: 2, n: 3 }, 0),
        Err(Chip8Error::MemoryOutOfBounds)
    );
    assert!(lit(&cpu).is_empty());
    assert_eq!(cpu.execute(Instruction::Draw { x: 1, y: 2, n: 2 }, 0), Ok(()));
    assert_eq!(lit(&cpu).len(), 8);
}

#[test]
fn draw_a_font_glyph() {
    let mut cpu = Cpu::new();
    cpu.execute(Instruction::LoadImm { x: 0, nn: 1 }, 0).unwrap();
    cpu.execute(Instruction::FontAddress { x: 0 }, 0).unwrap();
    cpu.execute(Instruction::LoadImm { x: 1, nn: 0 }, 0).unwrap();
    cpu.execute(Instruction::Draw { x: 1, y: 1, n: 5 }, 0).unwrap();
    assert_eq!(
        lit(&cpu),
        vec![(2, 0), (1, 1), (2, 1), (2, 2), (2, 3), (1, 4), (2, 4), (3, 4)]
    );
}

#[test]
fn clear_screen_blanks_the_display() {
    let mut cpu = with_sprite(&[0xFF, 0xFF], 20, 20);
    cpu.execute(Instruction::Draw { x: 1, y: 2, n: 2 }, 0).unwrap();
    assert_eq!(lit(&cpu).len(), 16);
    cpu.execute(Instruction::ClearScreen, 0).unwrap();
    let pixels = cpu.read_display();
    assert_eq!(pixels.len(), 2048);
    assert!(pixels.iter().all(|on| !on));
}
