use crate::error::Chip8Error;
use crate::instruction::{decode_spec, Instruction};
use vstd::prelude::*;

verus! {

/// Bytes of memory.
pub const MEMORY_SIZE: usize = 4096;

/// General-purpose registers `V0` to `VF`.
pub const NUM_REGISTERS: usize = 16;

/// Pixels in a row of the display.
pub const DISPLAY_WIDTH: usize = 64;

/// Rows of the display.
pub const DISPLAY_HEIGHT: usize = 32;

/// Pixels of the display: width times height.
pub const DISPLAY_SIZE: usize = 2048;

/// Keys of the keypad.
pub const NUM_KEYS: usize = 16;

/// Return addresses that the call stack can hold.
pub const STACK_CAPACITY: usize = 16;

/// Where a program is loaded and where execution starts.
pub const STARTING_ADDRESS: u16 = 0x200;

/// Where the font glyphs start.
pub const FONT_ADDRESS: usize = 80;

/// Bytes of the font: sixteen glyphs.
pub const FONT_SIZE: usize = 80;

/// Bytes of one glyph.
pub const GLYPH_SIZE: usize = 5;

/// The register that doubles as the flag, `VF`.
pub const FLAG_REGISTER: u8 = 0xF;

/// The glyphs for the hexadecimal digits, five rows each.
pub const FONT: [u8; 80] = [
    0xF0, 0x90, 0x90, 0x90, 0xF0,
    0x20, 0x60, 0x20, 0x20, 0x70,
    0xF0, 0x10, 0xF0, 0x80, 0xF0,
    0xF0, 0x10, 0xF0, 0x10, 0xF0,
    0x90, 0x90, 0xF0, 0x10, 0x10,
    0xF0, 0x80, 0xF0, 0x10, 0xF0,
    0xF0, 0x80, 0xF0, 0x90, 0xF0,
    0xF0, 0x10, 0x20, 0x40, 0x40,
    0xF0, 0x90, 0xF0, 0x90, 0xF0,
    0xF0, 0x90, 0xF0, 0x10, 0xF0,
    0xF0, 0x90, 0xF0, 0x90, 0x90,
    0xE0, 0x90, 0xE0, 0x90, 0xE0,
    0xF0, 0x80, 0x80, 0x80, 0xF0,
    0xE0, 0x90, 0x90, 0x90, 0xE0,
    0xF0, 0x80, 0xF0, 0x80, 0xF0,
    0xF0, 0x80, 0xF0, 0x80, 0x80,
];

/// The mathematical state of the machine: what every contract speaks of.
#[verifier::ext_equal]
pub struct Machine {
    pub memory: Seq<u8>,
    /// Row-major: pixel `(px, py)` is entry `py * 64 + px`.
    pub display: Seq<bool>,
    pub pc: u16,
    pub index: u16,
    /// The most recent return address is last.
    pub stack: Seq<u16>,
    pub delay_timer: u8,
    pub sound_timer: u8,
    pub registers: Seq<u8>,
    pub keys: Seq<bool>,
}

/// A timer one tick later: it counts down and stays at zero.
pub open spec fn ticked(timer: u8) -> u8 {
    if timer > 0 {
        (timer - 1) as u8
    } else {
        0
    }
}

/// A display with every pixel off.
pub open spec fn blank_display() -> Seq<bool> {
    Seq::new(DISPLAY_SIZE as nat, |k: int| false)
}

/// Whether bit `col` of a sprite row is set, counted from the most
/// significant bit, which is the leftmost pixel.
pub open spec fn sprite_bit(row: u8, col: u8) -> bool {
    row & (0x80u8 >> col) != 0
}

/// Whether some key is down.
pub open spec fn any_pressed(keys: Seq<bool>) -> bool {
    exists|k: int| 0 <= k < keys.len() && keys[k]
}

/// Whether `k` is the lowest key that is down.
pub open spec fn is_lowest_pressed(keys: Seq<bool>, k: int) -> bool {
    &&& 0 <= k < keys.len()
    &&& keys[k]
    &&& forall|j: int| 0 <= j < k ==> !keys[j]
}

/// The lowest key that is down, where one is.
pub open spec fn lowest_pressed(keys: Seq<bool>) -> int {
    choose|k: int| is_lowest_pressed(keys, k)
}

impl Machine {
    /// The sizes are fixed, the stack is within its capacity and the index
    /// register holds an address.
    pub open spec fn wf(self) -> bool {
        &&& self.memory.len() == MEMORY_SIZE
        &&& self.display.len() == DISPLAY_SIZE
        &&& self.registers.len() == NUM_REGISTERS
        &&& self.keys.len() == NUM_KEYS
        &&& self.stack.len() <= STACK_CAPACITY
        &&& self.index < MEMORY_SIZE
    }

    /// A new machine: the font in memory, everything else zero, empty or
    /// off, and the program counter at the start address.
    pub open spec fn initial() -> Machine {
        Machine {
            memory: Seq::new(
                MEMORY_SIZE as nat,
                |a: int|
                    if FONT_ADDRESS <= a < FONT_ADDRESS + FONT_SIZE {
                        FONT@[a - FONT_ADDRESS]
                    } else {
                        0u8
                    },
            ),
            display: blank_display(),
            pc: STARTING_ADDRESS,
            index: 0,
            stack: Seq::empty(),
            delay_timer: 0,
            sound_timer: 0,
            registers: Seq::new(NUM_REGISTERS as nat, |r: int| 0u8),
            keys: Seq::new(NUM_KEYS as nat, |k: int| false),
        }
    }

    /// Whether a program of this length fits between the start address and
    /// the end of memory.
    pub open spec fn fits(len: nat) -> bool {
        STARTING_ADDRESS + len <= MEMORY_SIZE
    }

    /// The machine with a program copied in at the start address.
    pub open spec fn loaded(self, program: Seq<u8>) -> Machine {
        Machine {
            memory: Seq::new(
                MEMORY_SIZE as nat,
                |a: int|
                    if STARTING_ADDRESS <= a < STARTING_ADDRESS + program.len() {
                        program[a - STARTING_ADDRESS]
                    } else {
                        self.memory[a]
                    },
            ),
            ..self
        }
    }

    /// The machine with one key set down or up.
    pub open spec fn with_key(self, index: int, pressed: bool) -> Machine {
        Machine { keys: self.keys.update(index, pressed), ..self }
    }

    /// The machine with one byte of memory written.
    pub open spec fn with_byte(self, address: int, value: u8) -> Machine {
        Machine { memory: self.memory.update(address, value), ..self }
    }

    /// Both timers one tick later.
    pub open spec fn tick(self) -> Machine {
        Machine {
            delay_timer: ticked(self.delay_timer),
            sound_timer: ticked(self.sound_timer),
            ..self
        }
    }

    /// Whether both bytes of the instruction at the program counter lie in
    /// memory.
    pub open spec fn can_fetch(self) -> bool {
        self.pc + 1 < MEMORY_SIZE
    }

    /// The instruction word at the program counter, high byte first.
    pub open spec fn word_at_pc(self) -> u16 {
        (self.memory[self.pc as int] * 256 + self.memory[self.pc + 1]) as u16
    }

    /// The machine with the program counter past the instruction it pointed
    /// at.
    pub open spec fn advanced(self) -> Machine {
        Machine { pc: (self.pc + 2) as u16, ..self }
    }

    /// Register `Vx`.
    pub open spec fn v(self, x: u8) -> u8 {
        self.registers[x as int]
    }

    /// The machine with `Vx` set.
    pub open spec fn with_v(self, x: u8, value: u8) -> Machine {
        Machine { registers: self.registers.update(x as int, value), ..self }
    }

    /// The machine with `VF` set to 1 or 0.
    pub open spec fn with_flag(self, flag: bool) -> Machine {
        self.with_v(FLAG_REGISTER, if flag { 1u8 } else { 0u8 })
    }

    /// The machine with the program counter moved one instruction further
    /// if the condition holds.
    pub open spec fn skip_if(self, condition: bool) -> Machine {
        if condition {
            self.advanced()
        } else {
            self
        }
    }

    /// Whether the sprite of `rows` rows that starts at the index register,
    /// put with its top-left corner at `(x0, y0)`, has a set bit on pixel
    /// `(px, py)`.
    pub open spec fn sprite_covers(self, x0: int, y0: int, rows: int, px: int, py: int) -> bool {
        &&& x0 <= px < x0 + 8
        &&& y0 <= py < y0 + rows
        &&& sprite_bit(self.memory[self.index + (py - y0)], (px - x0) as u8)
    }

    /// Whether that sprite has a set bit on the pixel at entry `k` of the
    /// display. A pixel past the right or bottom edge is no entry, so the
    /// sprite is clipped there.
    pub open spec fn sprite_hits(self, x0: int, y0: int, rows: int, k: int) -> bool {
        self.sprite_covers(
            x0,
            y0,
            rows,
            k % (DISPLAY_WIDTH as int),
            k / (DISPLAY_WIDTH as int),
        )
    }

    /// The display after that sprite was drawn: each pixel it hits is
    /// toggled.
    pub open spec fn drawn(self, x0: int, y0: int, rows: int) -> Seq<bool> {
        Seq::new(
            DISPLAY_SIZE as nat,
            |k: int| self.display[k] != self.sprite_hits(x0, y0, rows, k),
        )
    }

    /// Whether drawing that sprite turns some pixel off.
    pub open spec fn collides(self, x0: int, y0: int, rows: int) -> bool {
        exists|k: int|
            0 <= k < DISPLAY_SIZE && self.display[k] && #[trigger] self.sprite_hits(
                x0,
                y0,
                rows,
                k,
            )
    }

    /// `00E0`: every pixel off.
    pub open spec fn cleared(self) -> Machine {
        Machine { display: blank_display(), ..self }
    }

    /// `00EE`: the program counter takes the most recent return address,
    /// which leaves the stack. With an empty stack this fails.
    pub open spec fn returned(self) -> Result<Machine, Chip8Error> {
        if self.stack.len() == 0 {
            Err(Chip8Error::StackUnderflow)
        } else {
            Ok(Machine { pc: self.stack.last(), stack: self.stack.drop_last(), ..self })
        }
    }

    /// `1nnn` and `Bnnn`: the program counter takes the target.
    pub open spec fn jumped(self, target: u16) -> Machine {
        Machine { pc: target, ..self }
    }

    /// `2nnn`: the program counter, which is past the call, goes onto the
    /// stack, and the program counter takes the target. With a full stack
    /// this fails.
    pub open spec fn called(self, target: u16) -> Result<Machine, Chip8Error> {
        if self.stack.len() >= STACK_CAPACITY {
            Err(Chip8Error::StackOverflow)
        } else {
            Ok(Machine { pc: target, stack: self.stack.push(self.pc), ..self })
        }
    }

    /// `8xy4`: `Vx` takes `Vx + Vy` modulo 256, then `VF` tells whether the
    /// sum passed 255.
    pub open spec fn added(self, x: u8, y: u8) -> Machine {
        self.with_v(x, ((self.v(x) + self.v(y)) % 256) as u8).with_flag(
            self.v(x) + self.v(y) > 255,
        )
    }

    /// `8xy5` and `8xy7`: `Vx` takes `minuend - subtrahend` modulo 256, then
    /// `VF` tells whether nothing was borrowed.
    pub open spec fn subtracted(self, x: u8, minuend: u8, subtrahend: u8) -> Machine {
        self.with_v(x, ((minuend - subtrahend) % 256) as u8).with_flag(minuend >= subtrahend)
    }

    /// `8xy6`: `Vx` is halved, then `VF` takes the bit that fell off.
    pub open spec fn shifted_right(self, x: u8) -> Machine {
        self.with_v(x, self.v(x) / 2).with_flag(self.v(x) % 2 == 1)
    }

    /// `8xyE`: `Vx` is doubled modulo 256, then `VF` takes the bit that
    /// fell off.
    pub open spec fn shifted_left(self, x: u8) -> Machine {
        self.with_v(x, ((self.v(x) * 2) % 256) as u8).with_flag(self.v(x) >= 128)
    }

    /// `Annn`: the index register takes the address.
    pub open spec fn indexed(self, address: u16) -> Machine {
        Machine { index: address, ..self }
    }

    /// `Fx1E`: the index register takes `I + Vx` modulo 4096, then `VF`
    /// tells whether the sum passed the last address.
    pub open spec fn index_added(self, x: u8) -> Machine {
        self.indexed(((self.index + self.v(x)) % (MEMORY_SIZE as int)) as u16).with_flag(
            self.index + self.v(x) >= MEMORY_SIZE,
        )
    }

    /// Where the glyph of a hexadecimal digit starts.
    pub open spec fn glyph_address(digit: int) -> int {
        FONT_ADDRESS + GLYPH_SIZE * digit
    }

    /// `Dxyn`: the sprite of `n` rows at the index register is drawn with
    /// its top-left corner at `(Vx mod 64, Vy mod 32)`, then `VF` tells
    /// whether a pixel went off. Fails if the sprite does not lie in memory.
    pub open spec fn sprite_drawn(self, x: u8, y: u8, n: u8) -> Result<Machine, Chip8Error> {
        let x0 = self.v(x) as int % (DISPLAY_WIDTH as int);
        let y0 = self.v(y) as int % (DISPLAY_HEIGHT as int);
        if self.index + n > MEMORY_SIZE {
            Err(Chip8Error::MemoryOutOfBounds)
        } else {
            Ok(
                Machine { display: self.drawn(x0, y0, n as int), ..self }.with_flag(
                    self.collides(x0, y0, n as int),
                ),
            )
        }
    }

    /// `Ex9E` and `ExA1`: the next instruction is skipped if key `Vx` is
    /// down, or up, as `wanted` says. Fails if `Vx` is no key.
    pub open spec fn key_skipped(self, x: u8, wanted: bool) -> Result<Machine, Chip8Error> {
        if self.v(x) >= NUM_KEYS {
            Err(Chip8Error::InvalidKey)
        } else {
            Ok(self.skip_if(self.keys[self.v(x) as int] == wanted))
        }
    }

    /// `Fx0A`: with a key down, `Vx` takes the lowest such key; with none,
    /// the program counter goes back onto the instruction, which is then
    /// executed again.
    pub open spec fn key_awaited(self, x: u8) -> Machine {
        if any_pressed(self.keys) {
            self.with_v(x, lowest_pressed(self.keys) as u8)
        } else {
            self.jumped((self.pc - 2) as u16)
        }
    }

    /// `Fx33`: the hundreds, tens and units of `Vx` go to `I`, `I + 1` and
    /// `I + 2`. Fails if those do not lie in memory.
    pub open spec fn bcd_stored(self, x: u8) -> Result<Machine, Chip8Error> {
        if self.index + 2 >= MEMORY_SIZE {
            Err(Chip8Error::MemoryOutOfBounds)
        } else {
            Ok(
                self.with_byte(self.index as int, self.v(x) / 100).with_byte(
                    self.index + 1,
                    (self.v(x) / 10) % 10,
                ).with_byte(self.index + 2, self.v(x) % 10),
            )
        }
    }

    /// `Fx55`: `V0..=Vx` go to `I..=I + x`. Fails if those do not lie in
    /// memory.
    pub open spec fn registers_stored(self, x: u8) -> Result<Machine, Chip8Error> {
        if self.index + x >= MEMORY_SIZE {
            Err(Chip8Error::MemoryOutOfBounds)
        } else {
            Ok(
                Machine {
                    memory: Seq::new(
                        MEMORY_SIZE as nat,
                        |a: int|
                            if self.index <= a <= self.index + x {
                                self.registers[a - self.index]
                            } else {
                                self.memory[a]
                            },
                    ),
                    ..self
                },
            )
        }
    }

    /// `Fx65`: `V0..=Vx` come from `I..=I + x`. Fails if those do not lie
    /// in memory.
    pub open spec fn registers_loaded(self, x: u8) -> Result<Machine, Chip8Error> {
        if self.index + x >= MEMORY_SIZE {
            Err(Chip8Error::MemoryOutOfBounds)
        } else {
            Ok(
                Machine {
                    registers: Seq::new(
                        NUM_REGISTERS as nat,
                        |r: int|
                            if r <= x {
                                self.memory[self.index + r]
                            } else {
                                self.registers[r]
                            },
                    ),
                    ..self
                },
            )
        }
    }

    /// The effect of one instruction on a machine whose program counter is
    /// already past it. `random` is the byte that a random instruction
    /// takes; no other instruction reads it.
    pub open spec fn execute(self, ins: Instruction, random: u8) -> Result<Machine, Chip8Error> {
        match ins {
            Instruction::ClearScreen => Ok(self.cleared()),
            Instruction::Return => self.returned(),
            Instruction::Jump { addr } => Ok(self.jumped(addr)),
            Instruction::Call { addr } => self.called(addr),
            Instruction::SkipEqImm { x, nn } => Ok(self.skip_if(self.v(x) == nn)),
            Instruction::SkipNeImm { x, nn } => Ok(self.skip_if(self.v(x) != nn)),
            Instruction::SkipEqReg { x, y } => Ok(self.skip_if(self.v(x) == self.v(y))),
            Instruction::SkipNeReg { x, y } => Ok(self.skip_if(self.v(x) != self.v(y))),
            Instruction::LoadImm { x, nn } => Ok(self.with_v(x, nn)),
            Instruction::AddImm { x, nn } => Ok(self.with_v(x, ((self.v(x) + nn) % 256) as u8)),
            Instruction::Move { x, y } => Ok(self.with_v(x, self.v(y))),
            Instruction::Or { x, y } => Ok(self.with_v(x, self.v(x) | self.v(y))),
            Instruction::And { x, y } => Ok(self.with_v(x, self.v(x) & self.v(y))),
            Instruction::Xor { x, y } => Ok(self.with_v(x, self.v(x) ^ self.v(y))),
            Instruction::Add { x, y } => Ok(self.added(x, y)),
            Instruction::Sub { x, y } => Ok(self.subtracted(x, self.v(x), self.v(y))),
            Instruction::ShiftRight { x } => Ok(self.shifted_right(x)),
            Instruction::SubReversed { x, y } => Ok(self.subtracted(x, self.v(y), self.v(x))),
            Instruction::ShiftLeft { x } => Ok(self.shifted_left(x)),
            Instruction::LoadIndex { addr } => Ok(self.indexed(addr)),
            Instruction::JumpOffset { addr } => Ok(self.jumped((addr + self.v(0)) as u16)),
            Instruction::Random { x, nn } => Ok(self.with_v(x, random & nn)),
            Instruction::Draw { x, y, n } => self.sprite_drawn(x, y, n),
            Instruction::SkipIfKey { x } => self.key_skipped(x, true),
            Instruction::SkipIfNotKey { x } => self.key_skipped(x, false),
            Instruction::ReadDelay { x } => Ok(self.with_v(x, self.delay_timer)),
            Instruction::WaitKey { x } => Ok(self.key_awaited(x)),
            Instruction::SetDelay { x } => Ok(Machine { delay_timer: self.v(x), ..self }),
            Instruction::SetSound { x } => Ok(Machine { sound_timer: self.v(x), ..self }),
            Instruction::AddIndex { x } => Ok(self.index_added(x)),
            Instruction::FontAddress { x } => Ok(
                self.indexed(Self::glyph_address(self.v(x) as int % 16) as u16),
            ),
            Instruction::StoreBcd { x } => self.bcd_stored(x),
            Instruction::StoreRegisters { x } => self.registers_stored(x),
            Instruction::LoadRegisters { x } => self.registers_loaded(x),
            Instruction::Unknown => Ok(self),
        }
    }

    /// Whether the instruction at the program counter can be fetched and
    /// is a random instruction.
    pub open spec fn fetches_random(self) -> bool {
        self.can_fetch() && decode_spec(self.word_at_pc()) is Random
    }

    /// One step: the timers tick, then the instruction at the program
    /// counter is fetched, decoded and executed. A step that fails has
    /// ticked the timers and changed nothing else, so the program counter
    /// still points at the instruction that failed.
    pub open spec fn step(self, random: u8) -> (Machine, Result<(), Chip8Error>) {
        let t = self.tick();
        if !t.can_fetch() {
            (t, Err(Chip8Error::ProgramCounterOutOfBounds))
        } else {
            match t.advanced().execute(decode_spec(t.word_at_pc()), random) {
                Ok(next) => (next, Ok(())),
                Err(e) => (t, Err(e)),
            }
        }
    }
}

} // verus!
