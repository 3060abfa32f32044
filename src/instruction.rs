use vstd::prelude::*;

verus! {

/// The first (most significant) nibble of an instruction word.
pub open spec fn op_class(op: u16) -> int {
    op as int / 4096
}

/// The second nibble: the `x` register field.
pub open spec fn op_x(op: u16) -> int {
    (op as int / 256) % 16
}

/// The third nibble: the `y` register field.
pub open spec fn op_y(op: u16) -> int {
    (op as int / 16) % 16
}

/// The fourth (least significant) nibble: the `n` immediate.
pub open spec fn op_n(op: u16) -> int {
    op as int % 16
}

/// The low eight bits: the `nn` immediate.
pub open spec fn op_nn(op: u16) -> int {
    op as int % 256
}

/// The low twelve bits: the `nnn` address.
pub open spec fn op_nnn(op: u16) -> int {
    op as int % 4096
}

/// One decoded instruction. Register operands are indices below 16,
/// addresses are below 4096 and sprite heights below 16.
#[derive(Clone, Copy, Debug, PartialEq, Eq, Structural)]
pub enum Instruction {
    /// Turn every pixel off.
    ClearScreen,
    /// Pop a return address into the program counter.
    Return,
    /// Set the program counter to the address.
    Jump(u16),
    /// Push the program counter, then jump to the address.
    Call(u16),
    /// Skip the next instruction when `Vx == nn`.
    SkipEqImm(usize, u8),
    /// Skip the next instruction when `Vx != nn`.
    SkipNeImm(usize, u8),
    /// Skip the next instruction when `Vx == Vy`.
    SkipEqReg(usize, usize),
    /// `Vx := nn`.
    SetImm(usize, u8),
    /// `Vx := Vx + nn`, wrapping, flag untouched.
    AddImm(usize, u8),
    /// `Vx := Vy`.
    SetReg(usize, usize),
    /// `Vx := Vx | Vy`.
    Or(usize, usize),
    /// `Vx := Vx & Vy`.
    And(usize, usize),
    /// `Vx := Vx ^ Vy`.
    Xor(usize, usize),
    /// `Vx := Vx + Vy`, wrapping; the flag tells whether the sum passed 255.
    AddReg(usize, usize),
    /// `Vx := Vx - Vy`, wrapping; the flag tells whether no borrow was needed.
    SubReg(usize, usize),
    /// `Vx := Vx >> 1`; the flag receives the bit shifted out.
    ShiftRight(usize),
    /// `Vx := Vy - Vx`, wrapping; the flag tells whether no borrow was needed.
    SubNeg(usize, usize),
    /// `Vx := Vx << 1`; the flag receives the high nibble of the old value.
    ShiftLeft(usize),
    /// Skip the next instruction when `Vx != Vy`.
    SkipNeReg(usize, usize),
    /// `I := nnn`.
    SetIndex(u16),
    /// Jump to `V0 + nnn`.
    JumpOffset(u16),
    /// `Vx := random & nn`.
    Random(usize, u8),
    /// Draw an `n`-row sprite read at `I` at the position (`Vx`, `Vy`).
    Draw(usize, usize, u16),
    /// Skip the next instruction when the key numbered `Vx` is down.
    SkipKey(usize),
    /// Skip the next instruction when the key numbered `Vx` is up.
    SkipNoKey(usize),
    /// `Vx := delay timer`.
    GetDelay(usize),
    /// Execute this instruction again until the key numbered `Vx` is down.
    WaitKey(usize),
    /// `delay timer := Vx`.
    SetDelay(usize),
    /// `sound timer := Vx`.
    SetSound(usize),
    /// `I := I + Vx`.
    AddIndex(usize),
    /// `I := Vx * 5`, the address of the glyph for digit `Vx`.
    FontChar(usize),
    /// Store the three decimal digits of `Vx` at `I`, `I + 1`, `I + 2`.
    Bcd(usize),
    /// Store `V0 ..= Vx` in memory from `I` on.
    DumpRegs(usize),
    /// Load `V0 ..= Vx` from memory from `I` on.
    LoadRegs(usize),
    /// A word that is no instruction; it stalls the program.
    Unknown,
}

/// The instruction that the word `op` encodes.
pub open spec fn decode_spec(op: u16) -> Instruction {
    let a = op_class(op);
    let x = op_x(op);
    let y = op_y(op);
    let n = op_n(op);
    let xr = x as usize;
    let yr = y as usize;
    let nn = op_nn(op) as u8;
    let nnn = op_nnn(op) as u16;
    if a == 0 && x == 0 && y == 0xE && n == 0 {
        Instruction::ClearScreen
    } else if a == 0 && x == 0 && y == 0xE && n == 0xE {
        Instruction::Return
    } else if a == 1 {
        Instruction::Jump(nnn)
    } else if a == 2 {
        Instruction::Call(nnn)
    } else if a == 3 {
        Instruction::SkipEqImm(xr, nn)
    } else if a == 4 {
        Instruction::SkipNeImm(xr, nn)
    } else if a == 5 && n == 0 {
        Instruction::SkipEqReg(xr, yr)
    } else if a == 6 {
        Instruction::SetImm(xr, nn)
    } else if a == 7 {
        Instruction::AddImm(xr, nn)
    } else if a == 8 && n == 0 {
        Instruction::SetReg(xr, yr)
    } else if a == 8 && n == 1 {
        Instruction::Or(xr, yr)
    } else if a == 8 && n == 2 {
        Instruction::And(xr, yr)
    } else if a == 8 && n == 3 {
        Instruction::Xor(xr, yr)
    } else if a == 8 && n == 4 {
        Instruction::AddReg(xr, yr)
    } else if a == 8 && n == 5 {
        Instruction::SubReg(xr, yr)
    } else if a == 8 && n == 6 {
        Instruction::ShiftRight(xr)
    } else if a == 8 && n == 7 {
        Instruction::SubNeg(xr, yr)
    } else if a == 8 && n == 0xE {
        Instruction::ShiftLeft(xr)
    } else if a == 9 && n == 0 {
        Instruction::SkipNeReg(xr, yr)
    } else if a == 0xA {
        Instruction::SetIndex(nnn)
    } else if a == 0xB {
        Instruction::JumpOffset(nnn)
    } else if a == 0xC {
        Instruction::Random(xr, nn)
    } else if a == 0xD {
        Instruction::Draw(xr, yr, n as u16)
    } else if a == 0xE && y == 9 && n == 0xE {
        Instruction::SkipKey(xr)
    } else if a == 0xE && y == 0xA && n == 1 {
        Instruction::SkipNoKey(xr)
    } else if a == 0xF && y == 0 && n == 7 {
        Instruction::GetDelay(xr)
    } else if a == 0xF && y == 0 && n == 0xA {
        Instruction::WaitKey(xr)
    } else if a == 0xF && y == 1 && n == 5 {
        Instruction::SetDelay(xr)
    } else if a == 0xF && y == 1 && n == 8 {
        Instruction::SetSound(xr)
    } else if a == 0xF && y == 1 && n == 0xE {
        Instruction::AddIndex(xr)
    } else if a == 0xF && y == 2 && n == 9 {
        Instruction::FontChar(xr)
    } else if a == 0xF && y == 3 && n == 3 {
        Instruction::Bcd(xr)
    } else if a == 0xF && y == 5 && n == 5 {
        Instruction::DumpRegs(xr)
    } else if a == 0xF && y == 6 && n == 5 {
        Instruction::LoadRegs(xr)
    } else {
        Instruction::Unknown
    }
}

/// Every operand of a decoded instruction is within its field's range.
pub open spec fn operands_in_range(ins: Instruction) -> bool {
    match ins {
        Instruction::Jump(a) | Instruction::Call(a) | Instruction::SetIndex(a)
        | Instruction::JumpOffset(a) => a < 4096,
        Instruction::SkipEqImm(x, _) | Instruction::SkipNeImm(x, _) | Instruction::SetImm(x, _)
        | Instruction::AddImm(x, _) | Instruction::Random(x, _) | Instruction::ShiftRight(x)
        | Instruction::ShiftLeft(x) | Instruction::SkipKey(x) | Instruction::SkipNoKey(x)
        | Instruction::GetDelay(x) | Instruction::WaitKey(x) | Instruction::SetDelay(x)
        | Instruction::SetSound(x) | Instruction::AddIndex(x) | Instruction::FontChar(x)
        | Instruction::Bcd(x) | Instruction::DumpRegs(x) | Instruction::LoadRegs(x) => x < 16,
        Instruction::SkipEqReg(x, y) | Instruction::SetReg(x, y) | Instruction::Or(x, y)
        | Instruction::And(x, y) | Instruction::Xor(x, y) | Instruction::AddReg(x, y)
        | Instruction::SubReg(x, y) | Instruction::SubNeg(x, y) | Instruction::SkipNeReg(x, y) => {
            x < 16 && y < 16
        },
        Instruction::Draw(x, y, n) => x < 16 && y < 16 && n < 16,
        _ => true,
    }
}

/// Splits `op` into its four nibbles and selects the instruction they encode.
pub fn decode(op: u16) -> (r: Instruction)
    ensures
        r == decode_spec(op),
        operands_in_range(r),
{
    let d1 = (op & 0xF000) >> 12;
    let d2 = (op & 0x0F00) >> 8;
    let d3 = (op & 0x00F0) >> 4;
    let d4 = op & 0x000F;
    let nn = (op & 0x00FF) as u8;
    let nnn = op & 0x0FFF;
    assert(d1 == op / 4096 && d2 == (op / 256) % 16 && d3 == (op / 16) % 16 && d4 == op % 16)
        by (bit_vector)
        requires
            d1 == (op & 0xF000) >> 12,
            d2 == (op & 0x0F00) >> 8,
            d3 == (op & 0x00F0) >> 4,
            d4 == op & 0x000F,
    ;
    assert(nn == op % 256 && nnn == op % 4096) by (bit_vector)
        requires
            nn == (op & 0x00FF) as u8,
            nnn == op & 0x0FFF,
    ;
    let x = d2 as usize;
    let y = d3 as usize;
    match (d1, d2, d3, d4) {
        (0, 0, 0xE, 0) => Instruction::ClearScreen,
        (0, 0, 0xE, 0xE) => Instruction::Return,
        (1, _, _, _) => Instruction::Jump(nnn),
        (2, _, _, _) => Instruction::Call(nnn),
        (3, _, _, _) => Instruction::SkipEqImm(x, nn),
        (4, _, _, _) => Instruction::SkipNeImm(x, nn),
        (5, _, _, 0) => Instruction::SkipEqReg(x, y),
        (6, _, _, _) => Instruction::SetImm(x, nn),
        (7, _, _, _) => Instruction::AddImm(x, nn),
        (8, _, _, 0) => Instruction::SetReg(x, y),
        (8, _, _, 1) => Instruction::Or(x, y),
        (8, _, _, 2) => Instruction::And(x, y),
        (8, _, _, 3) => Instruction::Xor(x, y),
        (8, _, _, 4) => Instruction::AddReg(x, y),
        (8, _, _, 5) => Instruction::SubReg(x, y),
        (8, _, _, 6) => Instruction::ShiftRight(x),
        (8, _, _, 7) => Instruction::SubNeg(x, y),
        (8, _, _, 0xE) => Instruction::ShiftLeft(x),
        (9, _, _, 0) => Instruction::SkipNeReg(x, y),
        (0xA, _, _, _) => Instruction::SetIndex(nnn),
        (0xB, _, _, _) => Instruction::JumpOffset(nnn),
        (0xC, _, _, _) => Instruction::Random(x, nn),
        (0xD, _, _, _) => Instruction::Draw(x, y, d4),
        (0xE, _, 0x9, 0xE) => Instruction::SkipKey(x),
        (0xE, _, 0xA, 0x1) => Instruction::SkipNoKey(x),
        (0xF, _, 0x0, 0x7) => Instruction::GetDelay(x),
        (0xF, _, 0x0, 0xA) => Instruction::WaitKey(x),
        (0xF, _, 0x1, 0x5) => Instruction::SetDelay(x),
        (0xF, _, 0x1, 0x8) => Instruction::SetSound(x),
        (0xF, _, 0x1, 0xE) => Instruction::AddIndex(x),
        (0xF, _, 0x2, 0x9) => Instruction::FontChar(x),
        (0xF, _, 0x3, 0x3) => Instruction::Bcd(x),
        (0xF, _, 0x5, 0x5) => Instruction::DumpRegs(x),
        (0xF, _, 0x6, 0x5) => Instruction::LoadRegs(x),
        _ => Instruction::Unknown,
    }
}

/// Arithmetic and logic on registers.
pub open spec fn is_register_op(ins: Instruction) -> bool {
    match ins {
        Instruction::SetImm(..) | Instruction::AddImm(..) | Instruction::SetReg(..) | Instruction::Or(..) | Instruction::And(..) | Instruction::Xor(..) | Instruction::AddReg(..) | Instruction::SubReg(..) | Instruction::ShiftRight(..) | Instruction::SubNeg(..) | Instruction::ShiftLeft(..) => true,
        _ => false,
    }
}

/// Instructions that clear the display or steer the program counter.
pub open spec fn is_control_op(ins: Instruction) -> bool {
    match ins {
        Instruction::ClearScreen | Instruction::Return | Instruction::Jump(..) | Instruction::Call(..) | Instruction::SkipEqImm(..) | Instruction::SkipNeImm(..) | Instruction::SkipEqReg(..) | Instruction::SkipNeReg(..) | Instruction::JumpOffset(..) | Instruction::SkipKey(..) | Instruction::SkipNoKey(..) | Instruction::WaitKey(..) | Instruction::Unknown => true,
        _ => false,
    }
}

} // verus!
