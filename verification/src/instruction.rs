use vstd::prelude::*;

verus! {

/// One decoded instruction. Register numbers are `x` and `y`, immediates are
/// `nn` (a byte), `n` (a nibble) and `addr` (twelve bits).
#[derive(Clone, Copy, Debug, PartialEq, Eq, Structural)]
pub enum Instruction {
    /// `00E0`: blank the display.
    ClearScreen,
    /// `00EE`: return from a subroutine.
    Return,
    /// `1nnn`: jump to `addr`.
    Jump { addr: u16 },
    /// `2nnn`: call the subroutine at `addr`.
    Call { addr: u16 },
    /// `3xnn`: skip the next instruction if `Vx == nn`.
    SkipEqImm { x: u8, nn: u8 },
    /// `4xnn`: skip the next instruction if `Vx != nn`.
    SkipNeImm { x: u8, nn: u8 },
    /// `5xy0`: skip the next instruction if `Vx == Vy`.
    SkipEqReg { x: u8, y: u8 },
    /// `9xy0`: skip the next instruction if `Vx != Vy`.
    SkipNeReg { x: u8, y: u8 },
    /// `6xnn`: `Vx = nn`.
    LoadImm { x: u8, nn: u8 },
    /// `7xnn`: `Vx = Vx + nn` modulo 256, flag untouched.
    AddImm { x: u8, nn: u8 },
    /// `8xy0`: `Vx = Vy`.
    Move { x: u8, y: u8 },
    /// `8xy1`: `Vx = Vx | Vy`.
    Or { x: u8, y: u8 },
    /// `8xy2`: `Vx = Vx & Vy`.
    And { x: u8, y: u8 },
    /// `8xy3`: `Vx = Vx ^ Vy`.
    Xor { x: u8, y: u8 },
    /// `8xy4`: `Vx = Vx + Vy` modulo 256, `VF` = carry.
    Add { x: u8, y: u8 },
    /// `8xy5`: `Vx = Vx - Vy` modulo 256, `VF` = no borrow.
    Sub { x: u8, y: u8 },
    /// `8xy6`: `Vx = Vx >> 1`, `VF` = the bit shifted out.
    ShiftRight { x: u8 },
    /// `8xy7`: `Vx = Vy - Vx` modulo 256, `VF` = no borrow.
    SubReversed { x: u8, y: u8 },
    /// `8xyE`: `Vx = Vx << 1` modulo 256, `VF` = the bit shifted out.
    ShiftLeft { x: u8 },
    /// `Annn`: `I = addr`.
    LoadIndex { addr: u16 },
    /// `Bnnn`: jump to `addr + V0`.
    JumpOffset { addr: u16 },
    /// `Cxnn`: `Vx = random byte & nn`.
    Random { x: u8, nn: u8 },
    /// `Dxyn`: draw the `n`-row sprite at `I` at position `(Vx, Vy)`.
    Draw { x: u8, y: u8, n: u8 },
    /// `Ex9E`: skip the next instruction if key `Vx` is pressed.
    SkipIfKey { x: u8 },
    /// `ExA1`: skip the next instruction if key `Vx` is not pressed.
    SkipIfNotKey { x: u8 },
    /// `Fx07`: `Vx = delay timer`.
    ReadDelay { x: u8 },
    /// `Fx0A`: wait until a key is pressed, then `Vx = key`.
    WaitKey { x: u8 },
    /// `Fx15`: `delay timer = Vx`.
    SetDelay { x: u8 },
    /// `Fx18`: `sound timer = Vx`.
    SetSound { x: u8 },
    /// `Fx1E`: `I = I + Vx` modulo 4096, `VF` = overflow.
    AddIndex { x: u8 },
    /// `Fx29`: `I` = address of the glyph for the low nibble of `Vx`.
    FontAddress { x: u8 },
    /// `Fx33`: store the three decimal digits of `Vx` at `I`, `I+1`, `I+2`.
    StoreBcd { x: u8 },
    /// `Fx55`: store `V0..=Vx` at `I..`.
    StoreRegisters { x: u8 },
    /// `Fx65`: load `V0..=Vx` from `I..`.
    LoadRegisters { x: u8 },
    /// Any other bit pattern: does nothing.
    Unknown,
}

/// Bits 12 to 15 of an instruction word.
pub open spec fn opcode_of(word: u16) -> u16 {
    word / 0x1000
}

/// Bits 8 to 11 of an instruction word: the first register number.
pub open spec fn x_of(word: u16) -> u8 {
    ((word / 0x100) % 0x10) as u8
}

/// Bits 4 to 7 of an instruction word: the second register number.
pub open spec fn y_of(word: u16) -> u8 {
    ((word / 0x10) % 0x10) as u8
}

/// Bits 0 to 3 of an instruction word.
pub open spec fn n_of(word: u16) -> u8 {
    (word % 0x10) as u8
}

/// Bits 0 to 7 of an instruction word.
pub open spec fn nn_of(word: u16) -> u8 {
    (word % 0x100) as u8
}

/// Bits 0 to 11 of an instruction word.
pub open spec fn nnn_of(word: u16) -> u16 {
    word % 0x1000
}

/// The instruction that a word encodes.
pub open spec fn decode_spec(word: u16) -> Instruction {
    let x = x_of(word);
    let y = y_of(word);
    let n = n_of(word);
    let nn = nn_of(word);
    let addr = nnn_of(word);
    let op = opcode_of(word);
    if word == 0x00E0 {
        Instruction::ClearScreen
    } else if word == 0x00EE {
        Instruction::Return
    } else if op == 0x1 {
        Instruction::Jump { addr }
    } else if op == 0x2 {
        Instruction::Call { addr }
    } else if op == 0x3 {
        Instruction::SkipEqImm { x, nn }
    } else if op == 0x4 {
        Instruction::SkipNeImm { x, nn }
    } else if op == 0x5 && n == 0 {
        Instruction::SkipEqReg { x, y }
    } else if op == 0x9 && n == 0 {
        Instruction::SkipNeReg { x, y }
    } else if op == 0x6 {
        Instruction::LoadImm { x, nn }
    } else if op == 0x7 {
        Instruction::AddImm { x, nn }
    } else if op == 0x8 && n == 0x0 {
        Instruction::Move { x, y }
    } else if op == 0x8 && n == 0x1 {
        Instruction::Or { x, y }
    } else if op == 0x8 && n == 0x2 {
        Instruction::And { x, y }
    } else if op == 0x8 && n == 0x3 {
        Instruction::Xor { x, y }
    } else if op == 0x8 && n == 0x4 {
        Instruction::Add { x, y }
    } else if op == 0x8 && n == 0x5 {
        Instruction::Sub { x, y }
    } else if op == 0x8 && n == 0x6 {
        Instruction::ShiftRight { x }
    } else if op == 0x8 && n == 0x7 {
        Instruction::SubReversed { x, y }
    } else if op == 0x8 && n == 0xE {
        Instruction::ShiftLeft { x }
    } else if op == 0xA {
        Instruction::LoadIndex { addr }
    } else if op == 0xB {
        Instruction::JumpOffset { addr }
    } else if op == 0xC {
        Instruction::Random { x, nn }
    } else if op == 0xD {
        Instruction::Draw { x, y, n }
    } else if op == 0xE && nn == 0x9E {
        Instruction::SkipIfKey { x }
    } else if op == 0xE && nn == 0xA1 {
        Instruction::SkipIfNotKey { x }
    } else if op == 0xF && nn == 0x07 {
        Instruction::ReadDelay { x }
    } else if op == 0xF && nn == 0x0A {
        Instruction::WaitKey { x }
    } else if op == 0xF && nn == 0x15 {
        Instruction::SetDelay { x }
    } else if op == 0xF && nn == 0x18 {
        Instruction::SetSound { x }
    } else if op == 0xF && nn == 0x1E {
        Instruction::AddIndex { x }
    } else if op == 0xF && nn == 0x29 {
        Instruction::FontAddress { x }
    } else if op == 0xF && nn == 0x33 {
        Instruction::StoreBcd { x }
    } else if op == 0xF && nn == 0x55 {
        Instruction::StoreRegisters { x }
    } else if op == 0xF && nn == 0x65 {
        Instruction::LoadRegisters { x }
    } else {
        Instruction::Unknown
    }
}

impl Instruction {
    /// Register numbers and the sprite height are nibbles, addresses have
    /// twelve bits.
    pub open spec fn wf(self) -> bool {
        match self {
            Instruction::ClearScreen | Instruction::Return | Instruction::Unknown => true,
            Instruction::Jump { addr }
            | Instruction::Call { addr }
            | Instruction::LoadIndex { addr }
            | Instruction::JumpOffset { addr } => addr < 0x1000,
            Instruction::SkipEqImm { x, nn }
            | Instruction::SkipNeImm { x, nn }
            | Instruction::LoadImm { x, nn }
            | Instruction::AddImm { x, nn }
            | Instruction::Random { x, nn } => x < 16,
            Instruction::SkipEqReg { x, y }
            | Instruction::SkipNeReg { x, y }
            | Instruction::Move { x, y }
            | Instruction::Or { x, y }
            | Instruction::And { x, y }
            | Instruction::Xor { x, y }
            | Instruction::Add { x, y }
            | Instruction::Sub { x, y }
            | Instruction::SubReversed { x, y } => x < 16 && y < 16,
            Instruction::Draw { x, y, n } => x < 16 && y < 16 && n < 16,
            Instruction::ShiftRight { x }
            | Instruction::ShiftLeft { x }
            | Instruction::SkipIfKey { x }
            | Instruction::SkipIfNotKey { x }
            | Instruction::ReadDelay { x }
            | Instruction::WaitKey { x }
            | Instruction::SetDelay { x }
            | Instruction::SetSound { x }
            | Instruction::AddIndex { x }
            | Instruction::FontAddress { x }
            | Instruction::StoreBcd { x }
            | Instruction::StoreRegisters { x }
            | Instruction::LoadRegisters { x } => x < 16,
        }
    }
}

/// Splits an instruction word into its fields and classifies it. Patterns
/// that stand for no instruction decode to [`Instruction::Unknown`].
pub fn decode(word: u16) -> (ins: Instruction)
    ensures
        ins == decode_spec(word),
        ins.wf(),
{
    let opcode: u16 = (word & 0xF000) >> 12;
    let x: u8 = ((word & 0x0F00) >> 8) as u8;
    let y: u8 = ((word & 0x00F0) >> 4) as u8;
    let n: u8 = (word & 0x000F) as u8;
    let nn: u8 = (word & 0x00FF) as u8;
    let addr: u16 = word & 0x0FFF;
    proof {
        assert((word & 0xF000) >> 12 == word / 0x1000) by (bit_vector);
        assert((word & 0x0F00) >> 8 == (word / 0x100) % 0x10) by (bit_vector);
        assert((word & 0x00F0) >> 4 == (word / 0x10) % 0x10) by (bit_vector);
        assert(word & 0x000F == word % 0x10) by (bit_vector);
        assert(word & 0x00FF == word % 0x100) by (bit_vector);
        assert(word & 0x0FFF == word % 0x1000) by (bit_vector);
    }
    match (opcode, x, y, n) {
        (0, 0, 0xE, 0) => Instruction::ClearScreen,
        (0, 0, 0xE, 0xE) => Instruction::Return,
        (1, _, _, _) => Instruction::Jump { addr },
        (2, _, _, _) => Instruction::Call { addr },
        (3, _, _, _) => Instruction::SkipEqImm { x, nn },
        (4, _, _, _) => Instruction::SkipNeImm { x, nn },
        (5, _, _, 0) => Instruction::SkipEqReg { x, y },
        (9, _, _, 0) => Instruction::SkipNeReg { x, y },
        (6, _, _, _) => Instruction::LoadImm { x, nn },
        (7, _, _, _) => Instruction::AddImm { x, nn },
        (8, _, _, 0) => Instruction::Move { x, y },
        (8, _, _, 1) => Instruction::Or { x, y },
        (8, _, _, 2) => Instruction::And { x, y },
        (8, _, _, 3) => Instruction::Xor { x, y },
        (8, _, _, 4) => Instruction::Add { x, y },
        (8, _, _, 5) => Instruction::Sub { x, y },
        (8, _, _, 6) => Instruction::ShiftRight { x },
        (8, _, _, 7) => Instruction::SubReversed { x, y },
        (8, _, _, 0xE) => Instruction::ShiftLeft { x },
        (0xA, _, _, _) => Instruction::LoadIndex { addr },
        (0xB, _, _, _) => Instruction::JumpOffset { addr },
        (0xC, _, _, _) => Instruction::Random { x, nn },
        (0xD, _, _, _) => Instruction::Draw { x, y, n },
        (0xE, _, 9, 0xE) => Instruction::SkipIfKey { x },
        (0xE, _, 0xA, 1) => Instruction::SkipIfNotKey { x },
        (0xF, _, 0, 7) => Instruction::ReadDelay { x },
        (0xF, _, 0, 0xA) => Instruction::WaitKey { x },
        (0xF, _, 1, 5) => Instruction::SetDelay { x },
        (0xF, _, 1, 8) => Instruction::SetSound { x },
        (0xF, _, 1, 0xE) => Instruction::AddIndex { x },
        (0xF, _, 2, 9) => Instruction::FontAddress { x },
        (0xF, _, 3, 3) => Instruction::StoreBcd { x },
        (0xF, _, 5, 5) => Instruction::StoreRegisters { x },
        (0xF, _, 6, 5) => Instruction::LoadRegisters { x },
        _ => Instruction::Unknown,
    }
}

} // verus!
