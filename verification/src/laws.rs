use crate::error::Chip8Error;
use crate::instruction::{decode_spec, Instruction};
use crate::machine::{
    any_pressed, blank_display, is_lowest_pressed, lowest_pressed, ticked, Machine,
    DISPLAY_HEIGHT, DISPLAY_SIZE, DISPLAY_WIDTH, FLAG_REGISTER, MEMORY_SIZE, NUM_REGISTERS,
    STACK_CAPACITY,
};
use vstd::prelude::*;

verus! {

/// A timer after `n` ticks.
pub open spec fn ticked_by(timer: u8, n: nat) -> u8
    decreases n,
{
    if n == 0 {
        timer
    } else {
        ticked_by(ticked(timer), (n - 1) as nat)
    }
}

/// Every instruction keeps the invariant of the machine.
pub proof fn execute_keeps_invariant(m: Machine, ins: Instruction, random: u8)
    requires
        m.wf(),
        ins.wf(),
    ensures
        m.execute(ins, random) is Ok ==> m.execute(ins, random).unwrap().wf(),
{
}

/// Every step keeps the invariant of the machine, whether it fails or not.
pub proof fn step_keeps_invariant(m: Machine, random: u8)
    requires
        m.wf(),
    ensures
        m.step(random).0.wf(),
{
    let t = m.tick();
    if t.can_fetch() {
        let ins = decode_spec(t.word_at_pc());
        decode_is_well_formed(t.word_at_pc());
        execute_keeps_invariant(t.advanced(), ins, random);
    }
}

/// Every word decodes to an instruction whose fields are in range.
pub proof fn decode_is_well_formed(word: u16)
    ensures
        decode_spec(word).wf(),
{
}

/// Only a random instruction reads the random byte.
pub proof fn only_random_reads_the_byte(m: Machine, ins: Instruction, first: u8, second: u8)
    requires
        !(ins is Random),
    ensures
        m.execute(ins, first) == m.execute(ins, second),
{
}

/// A step whose instruction is not a random instruction does the same
/// whatever the random byte.
pub proof fn step_without_random_is_determined(m: Machine, first: u8, second: u8)
    requires
        !m.tick().fetches_random(),
    ensures
        m.step(first) == m.step(second),
{
    let t = m.tick();
    if t.can_fetch() {
        only_random_reads_the_byte(t.advanced(), decode_spec(t.word_at_pc()), first, second);
    }
}

/// Addition of two registers: the flag is 1 exactly if the sum passes 255,
/// and `Vx`, unless it is the flag register itself, holds the sum modulo
/// 256, which is the sum where there is no carry.
pub proof fn add_reports_carry(m: Machine, x: u8, y: u8, random: u8)
    requires
        m.wf(),
        x < NUM_REGISTERS,
        y < NUM_REGISTERS,
    ensures
        m.execute(Instruction::Add { x, y }, random) is Ok,
        ({
            let sum = m.v(x) + m.v(y);
            let next = m.execute(Instruction::Add { x, y }, random).unwrap();
            &&& sum > 255 ==> next.v(FLAG_REGISTER) == 1
            &&& sum <= 255 ==> next.v(FLAG_REGISTER) == 0
            &&& x != FLAG_REGISTER && sum > 255 ==> next.v(x) == sum - 256
            &&& x != FLAG_REGISTER && sum <= 255 ==> next.v(x) == sum
            &&& forall|r: int|
                0 <= r < NUM_REGISTERS && r != x && r != FLAG_REGISTER ==> next.registers[r]
                    == m.registers[r]
        }),
{
}

/// After a clear-screen instruction the display has width times height
/// pixels and all of them are off.
pub proof fn clear_screen_blanks_display(m: Machine, random: u8)
    requires
        m.wf(),
    ensures
        m.execute(Instruction::ClearScreen, random) is Ok,
        ({
            let next = m.execute(Instruction::ClearScreen, random).unwrap();
            &&& next.display.len() == DISPLAY_WIDTH * DISPLAY_HEIGHT
            &&& forall|k: int| 0 <= k < next.display.len() ==> !next.display[k]
        }),
{
}

/// A call that is followed at once by a return gives back the machine as it
/// was before the call: the program counter is again past the call and the
/// stack has its old depth and contents.
pub proof fn call_then_return_restores(m: Machine, target: u16, random: u8)
    requires
        m.wf(),
        m.stack.len() < STACK_CAPACITY,
    ensures
        m.execute(Instruction::Call { addr: target }, random) is Ok,
        m.execute(Instruction::Call { addr: target }, random).unwrap().execute(
            Instruction::Return,
            random,
        ) == Ok::<Machine, Chip8Error>(m),
{
    let called = m.execute(Instruction::Call { addr: target }, random).unwrap();
    assert(called.stack.drop_last() =~= m.stack);
    assert(called.execute(Instruction::Return, random).unwrap() =~= m);
}

/// The same through two steps: where the program counter points at a call
/// and the call's target holds a return, two steps leave the program
/// counter on the instruction after the call and the stack as it was.
pub proof fn call_and_return_steps_restore(m: Machine, first: u8, second: u8)
    requires
        m.wf(),
        m.can_fetch(),
        decode_spec(m.word_at_pc()) is Call,
        m.stack.len() < STACK_CAPACITY,
        ({
            let target = decode_spec(m.word_at_pc())->Call_addr;
            &&& target + 1 < MEMORY_SIZE
            &&& m.memory[target as int] == 0x00
            &&& m.memory[target + 1] == 0xEE
        }),
    ensures
        m.step(first).1 is Ok,
        m.step(first).0.step(second).1 is Ok,
        m.step(first).0.step(second).0.pc == m.pc + 2,
        m.step(first).0.step(second).0.stack == m.stack,
        m.step(first).0.stack.len() == m.stack.len() + 1,
{
    let t = m.tick();
    let target = decode_spec(m.word_at_pc())->Call_addr;
    let called = m.step(first).0;
    assert(called.pc == target);
    let t2 = called.tick();
    assert(t2.word_at_pc() == 0x00EE);
    assert(decode_spec(0x00EE) == Instruction::Return);
    assert(t2.advanced().stack.drop_last() =~= m.stack);
}

/// A sprite drawn twice at the same place, with nothing drawn in between,
/// leaves the display as it was before the first draw. The flag after the
/// second draw is 1 exactly if a pixel under a set bit of the sprite was on
/// after the first draw; on a display that was blank before the first draw
/// that is so as soon as any pixel is on after it.
///
/// The place is `(Vx, Vy)`, so neither may be the flag register, which the
/// first draw writes.
pub proof fn draw_twice_restores_display(m: Machine, x: u8, y: u8, n: u8, random: u8)
    requires
        m.wf(),
        x < NUM_REGISTERS,
        y < NUM_REGISTERS,
        n < 16,
        x != FLAG_REGISTER,
        y != FLAG_REGISTER,
        m.execute(Instruction::Draw { x, y, n }, random) is Ok,
    ensures
        ({
            let once = m.execute(Instruction::Draw { x, y, n }, random).unwrap();
            let twice = once.execute(Instruction::Draw { x, y, n }, random);
            let x0 = m.v(x) as int % (DISPLAY_WIDTH as int);
            let y0 = m.v(y) as int % (DISPLAY_HEIGHT as int);
            &&& twice is Ok
            &&& twice.unwrap().display == m.display
            &&& twice.unwrap().v(FLAG_REGISTER) == 1 <==> exists|k: int|
                0 <= k < DISPLAY_SIZE && once.display[k] && #[trigger] m.sprite_hits(
                    x0,
                    y0,
                    n as int,
                    k,
                )
            &&& twice.unwrap().v(FLAG_REGISTER) == 1 || twice.unwrap().v(FLAG_REGISTER) == 0
            &&& m.display == blank_display() && (exists|k: int|
                0 <= k < DISPLAY_SIZE && #[trigger] once.display[k]) ==> twice.unwrap().v(
                FLAG_REGISTER,
            ) == 1
        }),
{
    let once = m.execute(Instruction::Draw { x, y, n }, random).unwrap();
    let twice = once.execute(Instruction::Draw { x, y, n }, random);
    let x0 = m.v(x) as int % (DISPLAY_WIDTH as int);
    let y0 = m.v(y) as int % (DISPLAY_HEIGHT as int);
    let rows = n as int;
    assert(once.v(x) == m.v(x) && once.v(y) == m.v(y));
    assert forall|k: int| 0 <= k < DISPLAY_SIZE implies #[trigger] once.sprite_hits(
        x0,
        y0,
        rows,
        k,
    ) == m.sprite_hits(x0, y0, rows, k) by {}
    assert(twice.unwrap().display =~= m.display);
    if once.collides(x0, y0, rows) {
        let k = choose|k: int|
            0 <= k < DISPLAY_SIZE && once.display[k] && #[trigger] once.sprite_hits(
                x0,
                y0,
                rows,
                k,
            );
        assert(m.sprite_hits(x0, y0, rows, k));
    }
    if exists|k: int|
        0 <= k < DISPLAY_SIZE && once.display[k] && #[trigger] m.sprite_hits(x0, y0, rows, k) {
        let k = choose|k: int|
            0 <= k < DISPLAY_SIZE && once.display[k] && #[trigger] m.sprite_hits(x0, y0, rows, k);
        assert(once.sprite_hits(x0, y0, rows, k));
    }
    if m.display == blank_display() && (exists|k: int|
        0 <= k < DISPLAY_SIZE && #[trigger] once.display[k]) {
        let k = choose|k: int| 0 <= k < DISPLAY_SIZE && #[trigger] once.display[k];
        assert(!m.display[k]);
        assert(m.sprite_hits(x0, y0, rows, k));
        assert(once.sprite_hits(x0, y0, rows, k));
    }
}

/// A timer counts down by one a tick and stays at zero: after `n` ticks it
/// holds what is left of it, and never less than zero.
pub proof fn timer_counts_down_to_zero(timer: u8, n: nat)
    ensures
        ticked_by(timer, n) == if n >= timer {
            0
        } else {
            timer - n
        },
    decreases n,
{
    if n > 0 {
        timer_counts_down_to_zero(ticked(timer), (n - 1) as nat);
    }
}

/// A tick touches the two timers and nothing else.
pub proof fn tick_touches_only_timers(m: Machine)
    ensures
        m.tick().delay_timer == ticked_by(m.delay_timer, 1),
        m.tick().sound_timer == ticked_by(m.sound_timer, 1),
        m.tick() == (Machine {
            delay_timer: m.tick().delay_timer,
            sound_timer: m.tick().sound_timer,
            ..m
        }),
{
    reveal_with_fuel(ticked_by, 2);
}

/// A machine that failed a step is halted: unless the host changes it,
/// every further step fails in the same way, whatever the random byte, and
/// again changes nothing but the timers.
pub proof fn failed_step_repeats(m: Machine, first: u8, second: u8)
    requires
        m.wf(),
        m.step(first).1 is Err,
    ensures
        m.step(first).0.step(second).1 == m.step(first).1,
        m.step(first).0.step(second).0 == m.step(first).0.tick(),
        m.step(first).0 == m.tick(),
{
    let t = m.tick();
    let t2 = t.tick();
    if t.can_fetch() {
        let ins = decode_spec(t.word_at_pc());
        decode_is_well_formed(t.word_at_pc());
        assert(t2.word_at_pc() == t.word_at_pc());
        assert(t2.advanced().execute(ins, second) is Err);
    }
}

/// A wait for a key with no key down leaves a machine that waits: the step
/// succeeds, the program counter stays on the instruction, and nothing but
/// the timers has changed.
pub proof fn wait_for_key_blocks(m: Machine, random: u8)
    requires
        m.wf(),
        m.can_fetch(),
        decode_spec(m.word_at_pc()) is WaitKey,
        !any_pressed(m.keys),
    ensures
        m.step(random) == (m.tick(), Ok::<(), Chip8Error>(())),
{
    let t = m.tick();
    assert(t.advanced().jumped((t.advanced().pc - 2) as u16) =~= t);
}

/// The lowest key that is down is the one that is down with no lower key
/// down.
pub proof fn lowest_pressed_is_unique(keys: Seq<bool>, k: int)
    requires
        is_lowest_pressed(keys, k),
    ensures
        any_pressed(keys),
        lowest_pressed(keys) == k,
{
    assert(is_lowest_pressed(keys, lowest_pressed(keys)));
}

/// The three bytes that the decimal instruction stores are the decimal
/// digits of `Vx`.
pub proof fn bcd_stores_decimal_digits(m: Machine, x: u8, random: u8)
    requires
        m.wf(),
        x < NUM_REGISTERS,
        m.index + 2 < MEMORY_SIZE,
    ensures
        m.execute(Instruction::StoreBcd { x }, random) is Ok,
        ({
            let next = m.execute(Instruction::StoreBcd { x }, random).unwrap();
            let hundreds = next.memory[m.index as int];
            let tens = next.memory[m.index + 1];
            let units = next.memory[m.index + 2];
            &&& hundreds < 10 && tens < 10 && units < 10
            &&& 100 * hundreds + 10 * tens + units == m.v(x)
        }),
{
}

} // verus!
