use crate::error::Chip8Error;
use crate::instruction::{decode, decode_spec, Instruction};
use crate::machine::{
    is_lowest_pressed, lowest_pressed, sprite_bit, Machine, DISPLAY_HEIGHT, DISPLAY_SIZE,
    DISPLAY_WIDTH, FLAG_REGISTER, FONT, FONT_ADDRESS, FONT_SIZE, GLYPH_SIZE, MEMORY_SIZE, NUM_KEYS,
    NUM_REGISTERS, STACK_CAPACITY, STARTING_ADDRESS,
};
use crate::random::random_byte;
use vstd::prelude::*;

verus! {

/// The machine itself. Its mathematical state is its view, a [`Machine`].
pub struct Cpu {
    memory: [u8; MEMORY_SIZE],
    display: [bool; DISPLAY_SIZE],
    pc: u16,
    i: u16,
    stack: Vec<u16>,
    delay_timer: u8,
    sound_timer: u8,
    registers: [u8; NUM_REGISTERS],
    keys: [bool; NUM_KEYS],
}

impl View for Cpu {
    type V = Machine;

    closed spec fn view(&self) -> Machine {
        Machine {
            memory: self.memory@,
            display: self.display@,
            pc: self.pc,
            index: self.i,
            stack: self.stack@,
            delay_timer: self.delay_timer,
            sound_timer: self.sound_timer,
            registers: self.registers@,
            keys: self.keys@,
        }
    }
}

impl Cpu {
    /// The invariant of the machine: that of its state.
    pub open spec fn wf(&self) -> bool {
        self@.wf()
    }

    /// A new machine: the font in memory, everything else zero, empty or
    /// off, and the program counter at the start address.
    pub fn new() -> (cpu: Cpu)
        ensures
            cpu.wf(),
            cpu@ == Machine::initial(),
    {
        let mut memory: [u8; MEMORY_SIZE] = [0; MEMORY_SIZE];
        let mut k: usize = 0;
        while k < FONT_SIZE
            invariant
                k <= FONT_SIZE,
                forall|a: int|
                    0 <= a < MEMORY_SIZE ==> memory@[a] == if FONT_ADDRESS <= a < FONT_ADDRESS + k {
                        FONT@[a - FONT_ADDRESS]
                    } else {
                        0u8
                    },
            decreases FONT_SIZE - k,
        {
            memory[FONT_ADDRESS + k] = FONT[k];
            k += 1;
        }
        let cpu = Cpu {
            memory,
            display: [false; DISPLAY_SIZE],
            pc: STARTING_ADDRESS,
            i: 0,
            stack: Vec::new(),
            delay_timer: 0,
            sound_timer: 0,
            registers: [0; NUM_REGISTERS],
            keys: [false; NUM_KEYS],
        };
        assert(cpu@ =~= Machine::initial());
        cpu
    }

    /// Copies a program into memory at the start address. A program that
    /// does not fit before the end of memory is refused and nothing is
    /// written.
    pub fn load_rom(&mut self, rom: &[u8]) -> (res: Result<(), Chip8Error>)
        requires
            old(self).wf(),
        ensures
            final(self).wf(),
            Machine::fits(rom@.len()) ==> res is Ok && final(self)@ == old(self)@.loaded(rom@),
            !Machine::fits(rom@.len()) ==> res == Err::<(), Chip8Error>(
                Chip8Error::ProgramTooLarge,
            ) && final(self)@ == old(self)@,
    {
        let start: usize = STARTING_ADDRESS as usize;
        if rom.len() > MEMORY_SIZE - start {
            return Err(Chip8Error::ProgramTooLarge);
        }
        let ghost before = self@;
        let mut k: usize = 0;
        while k < rom.len()
            invariant
                k <= rom.len(),
                start == STARTING_ADDRESS,
                start + rom.len() <= MEMORY_SIZE,
                self.wf(),
                self@ == (Machine { memory: self@.memory, ..before }),
                forall|a: int|
                    0 <= a < MEMORY_SIZE ==> self@.memory[a] == if start <= a < start + k {
                        rom@[a - start]
                    } else {
                        before.memory[a]
                    },
            decreases rom.len() - k,
        {
            self.memory[start + k] = rom[k];
            k += 1;
        }
        assert(self@ =~= before.loaded(rom@));
        Ok(())
    }

    /// Counts both timers down by one; a timer at zero stays there.
    pub fn decrement_timers(&mut self)
        requires
            old(self).wf(),
        ensures
            final(self).wf(),
            final(self)@ == old(self)@.tick(),
    {
        if self.delay_timer > 0 {
            self.delay_timer -= 1;
        }
        if self.sound_timer > 0 {
            self.sound_timer -= 1;
        }
    }

    /// Reads the instruction word at the program counter, high byte first,
    /// and moves the program counter past it. Fails, and changes nothing,
    /// if the two bytes do not both lie in memory.
    pub fn fetch(&mut self) -> (res: Result<u16, Chip8Error>)
        requires
            old(self).wf(),
        ensures
            final(self).wf(),
            old(self)@.can_fetch() ==> res == Ok::<u16, Chip8Error>(old(self)@.word_at_pc())
                && final(self)@ == old(self)@.advanced(),
            !old(self)@.can_fetch() ==> res == Err::<u16, Chip8Error>(
                Chip8Error::ProgramCounterOutOfBounds,
            ) && final(self)@ == old(self)@,
    {
        let at: usize = self.pc as usize;
        if at >= MEMORY_SIZE - 1 {
            return Err(Chip8Error::ProgramCounterOutOfBounds);
        }
        let first_byte: u8 = self.memory[at];
        let second_byte: u8 = self.memory[at + 1];
        self.pc += 2;
        let word: u16 = (first_byte as u16) << 8 | second_byte as u16;
        assert(word == first_byte * 256 + second_byte) by (bit_vector)
            requires
                word == (first_byte as u16) << 8 | second_byte as u16,
        ;
        Ok(word)
    }

    /// Sets a key of the keypad down or up. An index outside `0..16` is
    /// refused and nothing changes.
    pub fn set_key(&mut self, index: usize, pressed: bool) -> (res: Result<(), Chip8Error>)
        requires
            old(self).wf(),
        ensures
            final(self).wf(),
            index < NUM_KEYS ==> res is Ok && final(self)@ == old(self)@.with_key(
                index as int,
                pressed,
            ),
            index >= NUM_KEYS ==> res == Err::<(), Chip8Error>(Chip8Error::InvalidKey)
                && final(self)@ == old(self)@,
    {
        if index >= NUM_KEYS {
            return Err(Chip8Error::InvalidKey);
        }
        self.keys[index] = pressed;
        Ok(())
    }

    /// Whether a key is down; `None` for an index outside `0..16`.
    pub fn is_pressed(&self, index: usize) -> (res: Option<bool>)
        ensures
            index < NUM_KEYS ==> res == Some(self@.keys[index as int]),
            index >= NUM_KEYS ==> res is None,
    {
        if index < NUM_KEYS {
            Some(self.keys[index])
        } else {
            None
        }
    }

    /// The display, row by row: pixel `(px, py)` is entry `py * 64 + px`.
    pub fn read_display(&self) -> (pixels: &[bool; DISPLAY_SIZE])
        ensures
            pixels@ == self@.display,
    {
        &self.display
    }

    /// The delay timer.
    pub fn delay_timer_value(&self) -> (value: u8)
        ensures
            value == self@.delay_timer,
    {
        self.delay_timer
    }

    /// The sound timer; the host sounds its tone while this is not zero.
    pub fn sound_timer_value(&self) -> (value: u8)
        ensures
            value == self@.sound_timer,
    {
        self.sound_timer
    }

    /// The program counter.
    pub fn program_counter(&self) -> (value: u16)
        ensures
            value == self@.pc,
    {
        self.pc
    }

    /// The index register `I`.
    pub fn index_register(&self) -> (value: u16)
        ensures
            value == self@.index,
    {
        self.i
    }

    /// How many return addresses the call stack holds.
    pub fn stack_depth(&self) -> (depth: usize)
        ensures
            depth == self@.stack.len(),
    {
        self.stack.len()
    }

    /// Register `Vx`; `None` for a number outside `0..16`.
    pub fn register(&self, x: usize) -> (res: Option<u8>)
        ensures
            x < NUM_REGISTERS ==> res == Some(self@.registers[x as int]),
            x >= NUM_REGISTERS ==> res is None,
    {
        if x < NUM_REGISTERS {
            Some(self.registers[x])
        } else {
            None
        }
    }

    /// The byte at an address; an address past the end of memory is
    /// refused.
    pub fn read_memory(&self, address: usize) -> (res: Result<u8, Chip8Error>)
        ensures
            address < MEMORY_SIZE ==> res == Ok::<u8, Chip8Error>(self@.memory[address as int]),
            address >= MEMORY_SIZE ==> res == Err::<u8, Chip8Error>(
                Chip8Error::MemoryOutOfBounds,
            ),
    {
        if address < MEMORY_SIZE {
            Ok(self.memory[address])
        } else {
            Err(Chip8Error::MemoryOutOfBounds)
        }
    }

    /// Writes the byte at an address; an address past the end of memory is
    /// refused and nothing changes.
    pub fn write_memory(&mut self, address: usize, value: u8) -> (res: Result<(), Chip8Error>)
        requires
            old(self).wf(),
        ensures
            final(self).wf(),
            address < MEMORY_SIZE ==> res is Ok && final(self)@ == old(self)@.with_byte(
                address as int,
                value,
            ),
            address >= MEMORY_SIZE ==> res == Err::<(), Chip8Error>(
                Chip8Error::MemoryOutOfBounds,
            ) && final(self)@ == old(self)@,
    {
        if address >= MEMORY_SIZE {
            return Err(Chip8Error::MemoryOutOfBounds);
        }
        self.memory[address] = value;
        Ok(())
    }

    /// One step with the generator of the `rand` crate as the source of
    /// random bytes: the timers tick, then the instruction at the program
    /// counter is fetched, decoded and executed. A byte is drawn only for a
    /// random instruction. A step that fails has ticked the timers and
    /// changed nothing else.
    pub fn run_loop(&mut self) -> (res: Result<(), Chip8Error>)
        requires
            old(self).wf(),
        ensures
            final(self).wf(),
            exists|random: u8| (final(self)@, res) == #[trigger] old(self)@.step(random),
            !old(self)@.tick().fetches_random() ==> (final(self)@, res) == old(self)@.step(0),
    {
        self.decrement_timers();
        let ghost ticked = self@;
        let ins: u16 = match self.fetch() {
            Ok(word) => word,
            Err(e) => {
                assert((self@, Err::<(), Chip8Error>(e)) == old(self)@.step(0));
                return Err(e);
            },
        };
        let ghost fetched = self@;
        match self.decode_and_execute(ins) {
            Ok(()) => {
                proof {
                    let random = choose|random: u8|
                        fetched.execute(decode_spec(ins), random) == Ok::<Machine, Chip8Error>(
                            self@,
                        );
                    assert((self@, Ok::<(), Chip8Error>(())) == old(self)@.step(random));
                }
                Ok(())
            },
            Err(e) => {
                self.pc -= 2;
                proof {
                    assert(self@ =~= ticked);
                    let random = choose|random: u8|
                        fetched.execute(decode_spec(ins), random) == Err::<Machine, Chip8Error>(e);
                    assert((self@, Err::<(), Chip8Error>(e)) == old(self)@.step(random));
                }
                Err(e)
            },
        }
    }

    /// One step with a given byte as the source of randomness: the same as
    /// [`Cpu::run_loop`], but a random instruction takes `random`.
    pub fn step_with(&mut self, random: u8) -> (res: Result<(), Chip8Error>)
        requires
            old(self).wf(),
        ensures
            final(self).wf(),
            (final(self)@, res) == old(self)@.step(random),
    {
        self.decrement_timers();
        let ghost ticked = self@;
        let ins: u16 = match self.fetch() {
            Ok(word) => word,
            Err(e) => {
                return Err(e);
            },
        };
        match self.execute(decode(ins), random) {
            Ok(()) => Ok(()),
            Err(e) => {
                self.pc -= 2;
                assert(self@ =~= ticked);
                Err(e)
            },
        }
    }

    /// Decodes an instruction word and executes it on a machine whose
    /// program counter is already past it. A random instruction takes a
    /// byte from the generator of the `rand` crate; for every other
    /// instruction the outcome is that of [`Cpu::execute`] whatever the
    /// byte.
    pub fn decode_and_execute(&mut self, ins: u16) -> (res: Result<(), Chip8Error>)
        requires
            old(self).wf(),
            2 <= old(self)@.pc <= 0xFFFD,
        ensures
            final(self).wf(),
            exists|random: u8|
                match #[trigger] old(self)@.execute(decode_spec(ins), random) {
                    Ok(next) => res is Ok && final(self)@ == next,
                    Err(e) => res == Err::<(), Chip8Error>(e) && final(self)@ == old(self)@,
                },
            !(decode_spec(ins) is Random) ==> match old(self)@.execute(decode_spec(ins), 0) {
                Ok(next) => res is Ok && final(self)@ == next,
                Err(e) => res == Err::<(), Chip8Error>(e) && final(self)@ == old(self)@,
            },
    {
        let instruction = decode(ins);
        let random: u8 = match instruction {
            Instruction::Random { .. } => random_byte(),
            _ => 0,
        };
        let res = self.execute(instruction, random);
        assert(match old(self)@.execute(decode_spec(ins), random) {
            Ok(next) => res is Ok && self@ == next,
            Err(e) => res == Err::<(), Chip8Error>(e) && self@ == old(self)@,
        });
        res
    }

    /// Executes one instruction on a machine whose program counter is
    /// already past it, as after [`Cpu::fetch`]. `random` is the byte that a
    /// random instruction takes; no other instruction reads it. A failed
    /// instruction changes nothing.
    ///
    /// The program counter must leave room for a skip forward and for the
    /// step back with which a wait for a key stays on its instruction.
    pub fn execute(&mut self, ins: Instruction, random: u8) -> (res: Result<(), Chip8Error>)
        requires
            old(self).wf(),
            ins.wf(),
            2 <= old(self)@.pc <= 0xFFFD,
        ensures
            final(self).wf(),
            match old(self)@.execute(ins, random) {
                Ok(next) => res is Ok && final(self)@ == next,
                Err(e) => res == Err::<(), Chip8Error>(e) && final(self)@ == old(self)@,
            },
    {
        match ins {
            Instruction::ClearScreen => self.clear_screen(),
            Instruction::Return => {
                return self.return_from_subroutine();
            },
            Instruction::Jump { addr } => self.jump(addr),
            Instruction::Call { addr } => {
                return self.call_subroutine(addr);
            },
            Instruction::SkipEqImm { x, nn } => self.skip_if(self.registers[x as usize] == nn),
            Instruction::SkipNeImm { x, nn } => self.skip_if(self.registers[x as usize] != nn),
            Instruction::SkipEqReg { x, y } => self.skip_if(
                self.registers[x as usize] == self.registers[y as usize],
            ),
            Instruction::SkipNeReg { x, y } => self.skip_if(
                self.registers[x as usize] != self.registers[y as usize],
            ),
            Instruction::LoadImm { x, nn } => self.set_register(x, nn),
            Instruction::AddImm { x, nn } => self.set_register(
                x,
                self.registers[x as usize].wrapping_add(nn),
            ),
            Instruction::Move { x, y } => self.set_register(x, self.registers[y as usize]),
            Instruction::Or { x, y } => self.set_register(
                x,
                self.registers[x as usize] | self.registers[y as usize],
            ),
            Instruction::And { x, y } => self.set_register(
                x,
                self.registers[x as usize] & self.registers[y as usize],
            ),
            Instruction::Xor { x, y } => self.set_register(
                x,
                self.registers[x as usize] ^ self.registers[y as usize],
            ),
            Instruction::Add { x, y } => self.add_registers(x, y),
            Instruction::Sub { x, y } => self.subtract(
                x,
                self.registers[x as usize],
                self.registers[y as usize],
            ),
            Instruction::ShiftRight { x } => self.shift_right(x),
            Instruction::SubReversed { x, y } => self.subtract(
                x,
                self.registers[y as usize],
                self.registers[x as usize],
            ),
            Instruction::ShiftLeft { x } => self.shift_left(x),
            Instruction::LoadIndex { addr } => self.set_index(addr),
            Instruction::JumpOffset { addr } => self.jump(addr + self.registers[0] as u16),
            Instruction::Random { x, nn } => self.set_register(x, random & nn),
            Instruction::Draw { x, y, n } => {
                return self.draw(x, y, n);
            },
            Instruction::SkipIfKey { x } => {
                return self.skip_on_key(x, true);
            },
            Instruction::SkipIfNotKey { x } => {
                return self.skip_on_key(x, false);
            },
            Instruction::ReadDelay { x } => self.set_register(x, self.delay_timer),
            Instruction::WaitKey { x } => self.wait_for_key(x),
            Instruction::SetDelay { x } => {
                self.delay_timer = self.registers[x as usize];
            },
            Instruction::SetSound { x } => {
                self.sound_timer = self.registers[x as usize];
            },
            Instruction::AddIndex { x } => self.add_to_index(x),
            Instruction::FontAddress { x } => {
                let digit: u16 = (self.registers[x as usize] % 16) as u16;
                self.set_index(FONT_ADDRESS as u16 + GLYPH_SIZE as u16 * digit);
            },
            Instruction::StoreBcd { x } => {
                return self.store_bcd(x);
            },
            Instruction::StoreRegisters { x } => {
                return self.store_registers(x);
            },
            Instruction::LoadRegisters { x } => {
                return self.load_registers(x);
            },
            Instruction::Unknown => {},
        }
        Ok(())
    }

    /// Turns every pixel off.
    fn clear_screen(&mut self)
        requires
            old(self).wf(),
        ensures
            final(self).wf(),
            final(self)@ == old(self)@.cleared(),
    {
        self.display = [false; DISPLAY_SIZE];
    }

    /// Pops the most recent return address into the program counter.
    fn return_from_subroutine(&mut self) -> (res: Result<(), Chip8Error>)
        requires
            old(self).wf(),
        ensures
            final(self).wf(),
            match old(self)@.returned() {
                Ok(next) => res is Ok && final(self)@ == next,
                Err(e) => res == Err::<(), Chip8Error>(e) && final(self)@ == old(self)@,
            },
    {
        match self.stack.pop() {
            Some(return_address) => {
                self.pc = return_address;
                Ok(())
            },
            None => Err(Chip8Error::StackUnderflow),
        }
    }

    /// Sets the program counter.
    fn jump(&mut self, target: u16)
        requires
            old(self).wf(),
        ensures
            final(self).wf(),
            final(self)@ == old(self)@.jumped(target),
    {
        self.pc = target;
    }

    /// Pushes the program counter and jumps.
    fn call_subroutine(&mut self, target: u16) -> (res: Result<(), Chip8Error>)
        requires
            old(self).wf(),
        ensures
            final(self).wf(),
            match old(self)@.called(target) {
                Ok(next) => res is Ok && final(self)@ == next,
                Err(e) => res == Err::<(), Chip8Error>(e) && final(self)@ == old(self)@,
            },
    {
        if self.stack.len() >= STACK_CAPACITY {
            return Err(Chip8Error::StackOverflow);
        }
        self.stack.push(self.pc);
        self.pc = target;
        Ok(())
    }

    /// Moves the program counter one instruction further if the condition
    /// holds.
    fn skip_if(&mut self, condition: bool)
        requires
            old(self).wf(),
            old(self)@.pc <= 0xFFFD,
        ensures
            final(self).wf(),
            final(self)@ == old(self)@.skip_if(condition),
    {
        if condition {
            self.pc += 2;
        }
    }

    /// Skips the next instruction if key `Vx` is down, or up, as `wanted`
    /// says.
    fn skip_on_key(&mut self, x: u8, wanted: bool) -> (res: Result<(), Chip8Error>)
        requires
            old(self).wf(),
            x < NUM_REGISTERS,
            old(self)@.pc <= 0xFFFD,
        ensures
            final(self).wf(),
            match old(self)@.key_skipped(x, wanted) {
                Ok(next) => res is Ok && final(self)@ == next,
                Err(e) => res == Err::<(), Chip8Error>(e) && final(self)@ == old(self)@,
            },
    {
        let key: usize = self.registers[x as usize] as usize;
        if key >= NUM_KEYS {
            return Err(Chip8Error::InvalidKey);
        }
        self.skip_if(self.keys[key] == wanted);
        Ok(())
    }

    /// Sets `Vx`.
    fn set_register(&mut self, x: u8, value: u8)
        requires
            old(self).wf(),
            x < NUM_REGISTERS,
        ensures
            final(self).wf(),
            final(self)@ == old(self)@.with_v(x, value),
    {
        self.registers[x as usize] = value;
    }

    /// Sets `VF` to 1 or 0.
    fn set_flag(&mut self, flag: bool)
        requires
            old(self).wf(),
        ensures
            final(self).wf(),
            final(self)@ == old(self)@.with_flag(flag),
    {
        self.registers[FLAG_REGISTER as usize] = if flag {
            1
        } else {
            0
        };
    }

    /// Adds `Vy` to `Vx` and sets the carry.
    fn add_registers(&mut self, x: u8, y: u8)
        requires
            old(self).wf(),
            x < NUM_REGISTERS,
            y < NUM_REGISTERS,
        ensures
            final(self).wf(),
            final(self)@ == old(self)@.added(x, y),
    {
        let vx: u8 = self.registers[x as usize];
        let vy: u8 = self.registers[y as usize];
        self.set_register(x, vx.wrapping_add(vy));
        self.set_flag(vx as u16 + vy as u16 > 255);
    }

    /// Puts `minuend - subtrahend` into `Vx` and sets the flag if nothing
    /// was borrowed.
    fn subtract(&mut self, x: u8, minuend: u8, subtrahend: u8)
        requires
            old(self).wf(),
            x < NUM_REGISTERS,
        ensures
            final(self).wf(),
            final(self)@ == old(self)@.subtracted(x, minuend, subtrahend),
    {
        self.set_register(x, minuend.wrapping_sub(subtrahend));
        self.set_flag(minuend >= subtrahend);
    }

    /// Shifts `Vx` right by one bit; the flag takes the bit that fell off.
    fn shift_right(&mut self, x: u8)
        requires
            old(self).wf(),
            x < NUM_REGISTERS,
        ensures
            final(self).wf(),
            final(self)@ == old(self)@.shifted_right(x),
    {
        let vx: u8 = self.registers[x as usize];
        assert(vx >> 1 == vx / 2 && (vx & 1 == 1) == (vx % 2 == 1)) by (bit_vector);
        self.set_register(x, vx >> 1);
        self.set_flag(vx & 1 == 1);
    }

    /// Shifts `Vx` left by one bit; the flag takes the bit that fell off.
    fn shift_left(&mut self, x: u8)
        requires
            old(self).wf(),
            x < NUM_REGISTERS,
        ensures
            final(self).wf(),
            final(self)@ == old(self)@.shifted_left(x),
    {
        let vx: u8 = self.registers[x as usize];
        assert(vx << 1 == (vx * 2) % 256 && (vx >> 7 == 1) == (vx >= 128)) by (bit_vector);
        self.set_register(x, vx << 1);
        self.set_flag(vx >> 7 == 1);
    }

    /// Sets the index register.
    fn set_index(&mut self, address: u16)
        requires
            old(self).wf(),
            address < MEMORY_SIZE,
        ensures
            final(self).wf(),
            final(self)@ == old(self)@.indexed(address),
    {
        self.i = address;
    }

    /// Adds `Vx` to the index register, which wraps at the end of memory,
    /// and sets the flag if it did.
    fn add_to_index(&mut self, x: u8)
        requires
            old(self).wf(),
            x < NUM_REGISTERS,
        ensures
            final(self).wf(),
            final(self)@ == old(self)@.index_added(x),
    {
        let sum: u16 = self.i + self.registers[x as usize] as u16;
        self.set_index(sum % (MEMORY_SIZE as u16));
        self.set_flag(sum >= MEMORY_SIZE as u16);
    }

    /// Stores the decimal digits of `Vx` at the index register.
    fn store_bcd(&mut self, x: u8) -> (res: Result<(), Chip8Error>)
        requires
            old(self).wf(),
            x < NUM_REGISTERS,
        ensures
            final(self).wf(),
            match old(self)@.bcd_stored(x) {
                Ok(next) => res is Ok && final(self)@ == next,
                Err(e) => res == Err::<(), Chip8Error>(e) && final(self)@ == old(self)@,
            },
    {
        let at: usize = self.i as usize;
        if at + 2 >= MEMORY_SIZE {
            return Err(Chip8Error::MemoryOutOfBounds);
        }
        let vx: u8 = self.registers[x as usize];
        self.memory[at] = vx / 100;
        self.memory[at + 1] = (vx / 10) % 10;
        self.memory[at + 2] = vx % 10;
        Ok(())
    }

    /// The wait for a key: with a key down, `Vx` takes the lowest such key;
    /// with none, the program counter steps back onto the instruction.
    fn wait_for_key(&mut self, x: u8)
        requires
            old(self).wf(),
            x < NUM_REGISTERS,
            2 <= old(self)@.pc,
        ensures
            final(self).wf(),
            final(self)@ == old(self)@.key_awaited(x),
    {
        let mut k: usize = 0;
        while k < NUM_KEYS
            invariant
                k <= NUM_KEYS,
                x < NUM_REGISTERS,
                self.wf(),
                self@ == old(self)@,
                forall|j: int| 0 <= j < k ==> !self@.keys[j],
            decreases NUM_KEYS - k,
        {
            if self.keys[k] {
                self.registers[x as usize] = k as u8;
                proof {
                    let keys = old(self)@.keys;
                    assert(is_lowest_pressed(keys, k as int));
                    assert(is_lowest_pressed(keys, lowest_pressed(keys)));
                    assert(self@ =~= old(self)@.with_v(x, lowest_pressed(keys) as u8));
                }
                return ;
            }
            k += 1;
        }
        self.pc -= 2;
        assert(self@ =~= old(self)@.jumped((old(self)@.pc - 2) as u16));
    }

    /// Stores `V0..=Vx` at the index register and after it.
    fn store_registers(&mut self, x: u8) -> (res: Result<(), Chip8Error>)
        requires
            old(self).wf(),
            x < NUM_REGISTERS,
        ensures
            final(self).wf(),
            match old(self)@.registers_stored(x) {
                Ok(next) => res is Ok && final(self)@ == next,
                Err(e) => res == Err::<(), Chip8Error>(e) && final(self)@ == old(self)@,
            },
    {
        let base: usize = self.i as usize;
        if base + x as usize >= MEMORY_SIZE {
            return Err(Chip8Error::MemoryOutOfBounds);
        }
        let ghost before = self@;
        let mut j: usize = 0;
        while j <= x as usize
            invariant
                j <= x + 1,
                x < NUM_REGISTERS,
                base == before.index,
                base + x < MEMORY_SIZE,
                before.wf(),
                self@ == (Machine { memory: self@.memory, ..before }),
                forall|a: int|
                    0 <= a < MEMORY_SIZE ==> self@.memory[a] == if base <= a < base + j {
                        before.registers[a - base]
                    } else {
                        before.memory[a]
                    },
            decreases x + 1 - j,
        {
            self.memory[base + j] = self.registers[j];
            j += 1;
        }
        assert(self@ =~= before.registers_stored(x).unwrap());
        Ok(())
    }

    /// Loads `V0..=Vx` from the index register and after it.
    fn load_registers(&mut self, x: u8) -> (res: Result<(), Chip8Error>)
        requires
            old(self).wf(),
            x < NUM_REGISTERS,
        ensures
            final(self).wf(),
            match old(self)@.registers_loaded(x) {
                Ok(next) => res is Ok && final(self)@ == next,
                Err(e) => res == Err::<(), Chip8Error>(e) && final(self)@ == old(self)@,
            },
    {
        let base: usize = self.i as usize;
        if base + x as usize >= MEMORY_SIZE {
            return Err(Chip8Error::MemoryOutOfBounds);
        }
        let ghost before = self@;
        let mut j: usize = 0;
        while j <= x as usize
            invariant
                j <= x + 1,
                x < NUM_REGISTERS,
                base == before.index,
                base + x < MEMORY_SIZE,
                before.wf(),
                self@ == (Machine { registers: self@.registers, ..before }),
                forall|r: int|
                    0 <= r < NUM_REGISTERS ==> self@.registers[r] == if r < j {
                        before.memory[base + r]
                    } else {
                        before.registers[r]
                    },
            decreases x + 1 - j,
        {
            self.registers[j] = self.memory[base + j];
            j += 1;
        }
        assert(self@ =~= before.registers_loaded(x).unwrap());
        Ok(())
    }

    /// Draws the sprite of `n` rows at the index register with its top-left
    /// corner at `(Vx mod 64, Vy mod 32)`: each pixel under a set bit is
    /// toggled, pixels past the right or bottom edge are left out, and `VF`
    /// tells whether a pixel went off.
    fn draw(&mut self, x: u8, y: u8, n: u8) -> (res: Result<(), Chip8Error>)
        requires
            old(self).wf(),
            x < NUM_REGISTERS,
            y < NUM_REGISTERS,
            n < 16,
        ensures
            final(self).wf(),
            match old(self)@.sprite_drawn(x, y, n) {
                Ok(next) => res is Ok && final(self)@ == next,
                Err(e) => res == Err::<(), Chip8Error>(e) && final(self)@ == old(self)@,
            },
    {
        let base: usize = self.i as usize;
        let rows: usize = n as usize;
        if base + rows > MEMORY_SIZE {
            return Err(Chip8Error::MemoryOutOfBounds);
        }
        let x0: usize = self.registers[x as usize] as usize % DISPLAY_WIDTH;
        let y0: usize = self.registers[y as usize] as usize % DISPLAY_HEIGHT;
        let ghost before = self@;
        let ghost (bx, by, br) = (x0 as int, y0 as int, rows as int);
        let mut collision: bool = false;
        let mut row: usize = 0;
        while row < rows
            invariant
                row <= rows < 16,
                x0 < DISPLAY_WIDTH,
                y0 < DISPLAY_HEIGHT,
                (bx, by, br) == (x0 as int, y0 as int, rows as int),
                base == before.index,
                base + rows <= MEMORY_SIZE,
                before.wf(),
                self@ == (Machine { display: self@.display, ..before }),
                forall|k: int|
                    0 <= k < DISPLAY_SIZE ==> self@.display[k] == (before.display[k]
                        != hits_before(before, bx, by, br, row as int, 0, k)),
                collision == collides_before(before, bx, by, br, row as int, 0),
            decreases rows - row,
        {
            let sprite: u8 = self.memory[base + row];
            let mut col: u8 = 0;
            while col < 8
                invariant
                    col <= 8,
                    row < rows < 16,
                    x0 < DISPLAY_WIDTH,
                    y0 < DISPLAY_HEIGHT,
                    (bx, by, br) == (x0 as int, y0 as int, rows as int),
                    base == before.index,
                    base + rows <= MEMORY_SIZE,
                    sprite == before.memory[base + row],
                    before.wf(),
                    self@ == (Machine { display: self@.display, ..before }),
                    forall|k: int|
                        0 <= k < DISPLAY_SIZE ==> self@.display[k] == (before.display[k]
                            != hits_before(before, bx, by, br, row as int, col as int, k)),
                    collision == collides_before(before, bx, by, br, row as int, col as int),
                decreases 8 - col,
            {
                let px: usize = x0 + col as usize;
                let py: usize = y0 + row;
                let ghost (r, c) = (row as int, col as int);
                let ghost collided = collision;
                let ghost lit = px < DISPLAY_WIDTH && py < DISPLAY_HEIGHT && sprite_bit(
                    sprite,
                    col,
                );
                let ghost at = py * DISPLAY_WIDTH + px;
                if px < DISPLAY_WIDTH && py < DISPLAY_HEIGHT && sprite & (0x80u8 >> col) != 0 {
                    let at: usize = py * DISPLAY_WIDTH + px;
                    if self.display[at] {
                        collision = true;
                    }
                    self.display[at] = !self.display[at];
                }
                proof {
                    // One more bit of the sprite is done: it hits entry `at`, if any.
                    assert forall|k: int| 0 <= k < DISPLAY_SIZE implies #[trigger] hits_before(
                        before,
                        bx,
                        by,
                        br,
                        r,
                        c + 1,
                        k,
                    ) == (hits_before(before, bx, by, br, r, c, k) || (lit && k == at)) by {}
                    if lit {
                        assert(hits_before(before, bx, by, br, r, c + 1, at));
                    }
                    if collided {
                        let w = collision_witness(before, bx, by, br, r, c);
                        assert(hits_before(before, bx, by, br, r, c + 1, w));
                    }
                }
                col += 1;
            }
            proof {
                // The end of a row is the start of the next.
                let r = row as int;
                assert forall|k: int| 0 <= k < DISPLAY_SIZE implies #[trigger] hits_before(
                    before,
                    bx,
                    by,
                    br,
                    r + 1,
                    0,
                    k,
                ) == hits_before(before, bx, by, br, r, 8, k) by {}
                if collision {
                    let w = collision_witness(before, bx, by, br, r, 8);
                    assert(hits_before(before, bx, by, br, r + 1, 0, w));
                }
            }
            row += 1;
        }
        proof {
            // After the last row every bit of the sprite is done.
            assert forall|k: int| 0 <= k < DISPLAY_SIZE implies #[trigger] hits_before(
                before,
                bx,
                by,
                br,
                br,
                0,
                k,
            ) == before.sprite_hits(bx, by, br, k) by {}
            if collision {
                let w = collision_witness(before, bx, by, br, br, 0);
                assert(before.sprite_hits(bx, by, br, w));
            }
            if before.collides(bx, by, br) {
                let w = choose|k: int|
                    0 <= k < DISPLAY_SIZE && before.display[k] && #[trigger] before.sprite_hits(
                        bx,
                        by,
                        br,
                        k,
                    );
                assert(hits_before(before, bx, by, br, br, 0, w));
            }
            assert(self@.display =~= before.drawn(bx, by, br));
        }
        self.set_flag(collision);
        Ok(())
    }
}

/// Whether the sprite hits entry `k` of the display with a bit that comes
/// before bit `col` of row `row`, going through the sprite row by row.
spec fn hits_before(m: Machine, x0: int, y0: int, rows: int, row: int, col: int, k: int) -> bool {
    let r = k / (DISPLAY_WIDTH as int) - y0;
    let c = k % (DISPLAY_WIDTH as int) - x0;
    m.sprite_hits(x0, y0, rows, k) && (r < row || (r == row && c < col))
}

/// Whether one of those bits hits a pixel that is on.
spec fn collides_before(m: Machine, x0: int, y0: int, rows: int, row: int, col: int) -> bool {
    exists|k: int|
        0 <= k < DISPLAY_SIZE && m.display[k] && #[trigger] hits_before(
            m,
            x0,
            y0,
            rows,
            row,
            col,
            k,
        )
}

/// An entry of the display at which they do, where there is one.
spec fn collision_witness(m: Machine, x0: int, y0: int, rows: int, row: int, col: int) -> int {
    choose|k: int|
        0 <= k < DISPLAY_SIZE && m.display[k] && #[trigger] hits_before(
            m,
            x0,
            y0,
            rows,
            row,
            col,
            k,
        )
}

} // verus!
