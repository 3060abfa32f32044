use vstd::prelude::*;

use crate::instruction::{decode_spec, Instruction};
use crate::screen::{blank, cell_index, SCREEN_CELLS, SCREEN_HEIGHT, SCREEN_WIDTH};

verus! {

/// Bytes of addressable memory.
pub const MEMORY_SIZE: usize = 4096;

/// Entries of the return-address stack.
pub const STACK_DEPTH: usize = 16;

/// General-purpose registers `V0` to `VF`.
pub const REGISTER_COUNT: usize = 16;

/// Keys of the keypad.
pub const KEY_COUNT: usize = 16;

/// Address at which programs are loaded and execution starts.
pub const PROGRAM_START: u16 = 0x200;

/// Largest program that fits between `PROGRAM_START` and the end of memory.
pub const PROGRAM_CAPACITY: usize = 3584;

/// Bytes of the built-in font: sixteen glyphs of five rows each.
pub const FONT_SIZE: usize = 80;

/// Index of the flag register `VF`.
pub const FLAG: usize = 15;

/// Whether the interpreter moved on or will run the same instruction again.
#[derive(Clone, Copy, Debug, PartialEq, Eq, Structural)]
pub enum Step {
    /// The instruction took effect; the next one follows.
    Advance,
    /// The program counter was rewound onto the same instruction: a key is
    /// awaited, or the word is no instruction.
    Stall,
}

/// A capacity violation: the operation was refused.
#[derive(Clone, Copy, Debug, PartialEq, Eq, Structural)]
pub enum Fault {
    /// A call with all stack entries in use.
    StackOverflow,
    /// A return with an empty stack.
    StackUnderflow,
    /// An address at or past the end of memory, or a 16-bit address register
    /// that would leave its range.
    AddressOutOfRange,
    /// A program longer than `PROGRAM_CAPACITY` bytes.
    ProgramTooLarge,
    /// A key instruction whose register holds no key number (16 or more).
    KeyOutOfRange,
    /// The operating system could not supply a random byte.
    RandomnessUnavailable,
}

/// The glyphs of the hexadecimal digits 0 to F, five rows of one byte each.
pub open spec fn font_glyphs() -> Seq<u8> {
    seq![
        0xF0u8, 0x90, 0x90, 0x90, 0xF0, 0x20, 0x60, 0x20, 0x20, 0x70,
        0xF0, 0x10, 0xF0, 0x80, 0xF0, 0xF0, 0x10, 0xF0, 0x10, 0xF0,
        0x90, 0x90, 0xF0, 0x10, 0x10, 0xF0, 0x80, 0xF0, 0x10, 0xF0,
        0xF0, 0x80, 0xF0, 0x90, 0xF0, 0xF0, 0x10, 0x20, 0x40, 0x40,
        0xF0, 0x90, 0xF0, 0x90, 0xF0, 0xF0, 0x90, 0xF0, 0x10, 0xF0,
        0xF0, 0x90, 0xF0, 0x90, 0x90, 0xE0, 0x90, 0xE0, 0x90, 0xE0,
        0xF0, 0x80, 0x80, 0x80, 0xF0, 0xE0, 0x90, 0x90, 0x90, 0xE0,
        0xF0, 0x80, 0xF0, 0x80, 0xF0, 0xF0, 0x80, 0xF0, 0x80, 0x80,
    ]
}

/// The whole observable state of the interpreter.
pub ghost struct Machine {
    /// Address of the next instruction.
    pub pc: u16,
    /// The `MEMORY_SIZE` bytes of memory.
    pub memory: Seq<u8>,
    /// The display cells, row-major.
    pub screen: Seq<bool>,
    /// `V0` to `VF`.
    pub registers: Seq<u8>,
    /// The address register `I`.
    pub index: u16,
    /// Number of return addresses on the stack.
    pub sp: u16,
    /// The stack entries; those at `sp` and above are stale.
    pub stack: Seq<u16>,
    /// Which keys are down.
    pub keys: Seq<bool>,
    /// The delay timer.
    pub delay: u8,
    /// The sound timer.
    pub sound: u8,
}

/// Memory as it is after power-on: the font at the bottom, zero elsewhere.
pub open spec fn initial_memory() -> Seq<u8> {
    Seq::new(MEMORY_SIZE as nat, |a: int| if a < FONT_SIZE { font_glyphs()[a] } else { 0u8 })
}

/// The state of a fresh interpreter, and of one that was reset.
pub open spec fn power_on() -> Machine {
    Machine {
        pc: PROGRAM_START,
        memory: initial_memory(),
        screen: blank(),
        registers: Seq::new(REGISTER_COUNT as nat, |i: int| 0u8),
        index: 0,
        sp: 0,
        stack: Seq::new(STACK_DEPTH as nat, |i: int| 0u16),
        keys: Seq::new(KEY_COUNT as nat, |i: int| false),
        delay: 0,
        sound: 0,
    }
}

/// The shapes that every reachable state has.
pub open spec fn well_formed(m: Machine) -> bool {
    &&& m.memory.len() == MEMORY_SIZE
    &&& m.screen.len() == SCREEN_CELLS
    &&& m.registers.len() == REGISTER_COUNT
    &&& m.stack.len() == STACK_DEPTH
    &&& m.keys.len() == KEY_COUNT
    &&& m.sp <= STACK_DEPTH
}

/// `m` with `program` copied into memory from `PROGRAM_START` on.
pub open spec fn loaded(m: Machine, program: Seq<u8>) -> Machine {
    Machine {
        memory: Seq::new(
            MEMORY_SIZE as nat,
            |a: int|
                if PROGRAM_START <= a < PROGRAM_START + program.len() {
                    program[a - PROGRAM_START]
                } else {
                    m.memory[a]
                },
        ),
        ..m
    }
}

/// A countdown one frame later: one less, but never below zero.
pub open spec fn count_down(t: u8) -> u8 {
    if t > 0 {
        (t - 1) as u8
    } else {
        0
    }
}

/// `m` after one frame of both timers.
pub open spec fn timers_ticked(m: Machine) -> Machine {
    Machine { delay: count_down(m.delay), sound: count_down(m.sound), ..m }
}

/// The big-endian word at `pc`, and `m` with the program counter past it;
/// a fault where the word does not lie inside the program area, from
/// `PROGRAM_START` to the end of memory.
pub open spec fn fetched(m: Machine) -> Result<(Machine, u16), Fault> {
    if m.pc < PROGRAM_START || m.pc + 1 >= MEMORY_SIZE {
        Err(Fault::AddressOutOfRange)
    } else {
        Ok(
            (
                Machine { pc: (m.pc + 2) as u16, ..m },
                (m.memory[m.pc as int] * 256 + m.memory[m.pc + 1]) as u16,
            ),
        )
    }
}

/// `m` with register `x` set to `v`.
pub open spec fn with_register(m: Machine, x: int, v: u8) -> Machine {
    Machine { registers: m.registers.update(x, v), ..m }
}

/// `m` with register `x` set to `v`, then the flag register set to `flag`.
pub open spec fn with_flagged(m: Machine, x: int, v: u8, flag: u8) -> Machine {
    Machine { registers: m.registers.update(x, v).update(FLAG as int, flag), ..m }
}

/// The program counter moves past the next instruction when `cond` holds.
pub open spec fn skip_if(m: Machine, cond: bool) -> Result<(Machine, Step), Fault> {
    if !cond {
        Ok((m, Step::Advance))
    } else if m.pc + 2 > u16::MAX {
        Err(Fault::AddressOutOfRange)
    } else {
        Ok((Machine { pc: (m.pc + 2) as u16, ..m }, Step::Advance))
    }
}

/// The program counter goes back onto the instruction just fetched.
pub open spec fn stall(m: Machine) -> Result<(Machine, Step), Fault> {
    if m.pc < 2 {
        Err(Fault::AddressOutOfRange)
    } else {
        Ok((Machine { pc: (m.pc - 2) as u16, ..m }, Step::Stall))
    }
}

/// Whether column `col` (0 leftmost) of a sprite row is set.
pub open spec fn sprite_bit(row: u8, col: int) -> bool {
    row & (0x80u8 >> col as u8) != 0
}

/// Whether a set bit of the `rows`-row sprite stored at `i`, placed at
/// (`vx`, `vy`) with wrap-around, falls on display cell `cell`.
pub open spec fn sprite_covers(mem: Seq<u8>, i: int, vx: int, vy: int, rows: int, cell: int) -> bool {
    exists|r: int, c: int|
        0 <= r < rows && 0 <= c < 8 && #[trigger] sprite_bit(mem[i + r], c) && cell == cell_index(
            (vx + c) % SCREEN_WIDTH as int,
            (vy + r) % SCREEN_HEIGHT as int,
        )
}

/// The display after a sprite is drawn: a covered cell is lit, others keep
/// their value.
pub open spec fn drawn(screen: Seq<bool>, mem: Seq<u8>, i: int, vx: int, vy: int, rows: int) -> Seq<bool> {
    Seq::new(screen.len(), |k: int| screen[k] || sprite_covers(mem, i, vx, vy, rows, k))
}

/// Whether the sprite covers a cell that is already lit.
pub open spec fn collides(screen: Seq<bool>, mem: Seq<u8>, i: int, vx: int, vy: int, rows: int) -> bool {
    exists|k: int| 0 <= k < screen.len() && #[trigger] screen[k] && sprite_covers(mem, i, vx, vy, rows, k)
}

/// `m` after drawing the sprite of instruction `Draw(x, y, n)`.
pub open spec fn draw_sprite(m: Machine, x: int, y: int, n: int) -> Machine {
    let vx = m.registers[x] as int;
    let vy = m.registers[y] as int;
    let i = m.index as int;
    Machine {
        screen: drawn(m.screen, m.memory, i, vx, vy, n),
        registers: m.registers.update(
            FLAG as int,
            if collides(m.screen, m.memory, i, vx, vy, n) { 1u8 } else { 0u8 },
        ),
        ..m
    }
}

/// Memory with the decimal digits of `v` (hundreds, tens, ones) at `i`, `i + 1`, `i + 2`.
pub open spec fn bcd_stored(mem: Seq<u8>, i: int, v: u8) -> Seq<u8> {
    mem.update(i, v / 100).update(i + 1, (v / 10) % 10).update(i + 2, v % 10)
}

/// Memory with registers `0 ..= x` copied to addresses `i ..= i + x`.
pub open spec fn registers_dumped(mem: Seq<u8>, regs: Seq<u8>, i: int, x: int) -> Seq<u8> {
    Seq::new(mem.len(), |a: int| if i <= a <= i + x { regs[a - i] } else { mem[a] })
}

/// Registers with `0 ..= x` read from addresses `i ..= i + x`.
pub open spec fn registers_loaded(regs: Seq<u8>, mem: Seq<u8>, i: int, x: int) -> Seq<u8> {
    Seq::new(regs.len(), |k: int| if k <= x { mem[i + k] } else { regs[k] })
}

/// What executing `ins` does to `m`, with `rnd` the byte drawn for `Random`:
/// the next state and whether the program moved on, or the fault that refuses it.
pub open spec fn step(m: Machine, ins: Instruction, rnd: u8) -> Result<(Machine, Step), Fault> {
    let go = |s: Machine| Ok::<(Machine, Step), Fault>((s, Step::Advance));
    let v = |x: usize| m.registers[x as int] as int;
    match ins {
        Instruction::ClearScreen => go(Machine { screen: blank(), ..m }),
        Instruction::Return => if m.sp == 0 {
            Err(Fault::StackUnderflow)
        } else {
            go(Machine { pc: m.stack[m.sp - 1], sp: (m.sp - 1) as u16, ..m })
        },
        Instruction::Jump(a) => go(Machine { pc: a, ..m }),
        Instruction::Call(a) => if m.sp >= STACK_DEPTH {
            Err(Fault::StackOverflow)
        } else {
            go(Machine { pc: a, stack: m.stack.update(m.sp as int, m.pc), sp: (m.sp + 1) as u16, ..m })
        },
        Instruction::SkipEqImm(x, nn) => skip_if(m, v(x) == nn),
        Instruction::SkipNeImm(x, nn) => skip_if(m, v(x) != nn),
        Instruction::SkipEqReg(x, y) => skip_if(m, v(x) == v(y)),
        Instruction::SetImm(x, nn) => go(with_register(m, x as int, nn)),
        Instruction::AddImm(x, nn) => go(with_register(m, x as int, ((v(x) + nn) % 256) as u8)),
        Instruction::SetReg(x, y) => go(with_register(m, x as int, v(y) as u8)),
        Instruction::Or(x, y) => go(with_register(m, x as int, m.registers[x as int] | m.registers[y as int])),
        Instruction::And(x, y) => go(with_register(m, x as int, m.registers[x as int] & m.registers[y as int])),
        Instruction::Xor(x, y) => go(with_register(m, x as int, m.registers[x as int] ^ m.registers[y as int])),
        Instruction::AddReg(x, y) => go(
            with_flagged(m, x as int, ((v(x) + v(y)) % 256) as u8, if v(x) + v(y) > 255 { 1 } else { 0 }),
        ),
        Instruction::SubReg(x, y) => go(
            with_flagged(m, x as int, ((v(x) - v(y)) % 256) as u8, if v(x) >= v(y) { 1 } else { 0 }),
        ),
        Instruction::ShiftRight(x) => go(with_flagged(m, x as int, (v(x) / 2) as u8, (v(x) % 2) as u8)),
        Instruction::SubNeg(x, y) => go(
            with_flagged(m, x as int, ((v(y) - v(x)) % 256) as u8, if v(y) >= v(x) { 1 } else { 0 }),
        ),
        Instruction::ShiftLeft(x) => go(
            with_flagged(m, x as int, ((v(x) * 2) % 256) as u8, m.registers[x as int] & 0xF0),
        ),
        Instruction::SkipNeReg(x, y) => skip_if(m, v(x) != v(y)),
        Instruction::SetIndex(a) => go(Machine { index: a, ..m }),
        Instruction::JumpOffset(a) => go(Machine { pc: (v(0) + a) as u16, ..m }),
        Instruction::Random(x, nn) => go(with_register(m, x as int, rnd & nn)),
        Instruction::Draw(x, y, n) => if n > 0 && m.index + n > MEMORY_SIZE {
            Err(Fault::AddressOutOfRange)
        } else {
            go(draw_sprite(m, x as int, y as int, n as int))
        },
        Instruction::SkipKey(x) => if v(x) >= KEY_COUNT {
            Err(Fault::KeyOutOfRange)
        } else {
            skip_if(m, m.keys[v(x)])
        },
        Instruction::SkipNoKey(x) => if v(x) >= KEY_COUNT {
            Err(Fault::KeyOutOfRange)
        } else {
            skip_if(m, !m.keys[v(x)])
        },
        Instruction::GetDelay(x) => go(with_register(m, x as int, m.delay)),
        Instruction::WaitKey(x) => if v(x) >= KEY_COUNT {
            Err(Fault::KeyOutOfRange)
        } else if m.keys[v(x)] {
            go(m)
        } else {
            stall(m)
        },
        Instruction::SetDelay(x) => go(Machine { delay: v(x) as u8, ..m }),
        Instruction::SetSound(x) => go(Machine { sound: v(x) as u8, ..m }),
        Instruction::AddIndex(x) => if m.index + v(x) > u16::MAX {
            Err(Fault::AddressOutOfRange)
        } else {
            go(Machine { index: (m.index + v(x)) as u16, ..m })
        },
        Instruction::FontChar(x) => go(Machine { index: (v(x) * 5) as u16, ..m }),
        Instruction::Bcd(x) => if m.index + 3 > MEMORY_SIZE {
            Err(Fault::AddressOutOfRange)
        } else {
            go(Machine { memory: bcd_stored(m.memory, m.index as int, v(x) as u8), ..m })
        },
        Instruction::DumpRegs(x) => if m.index + x + 1 > MEMORY_SIZE {
            Err(Fault::AddressOutOfRange)
        } else {
            go(Machine { memory: registers_dumped(m.memory, m.registers, m.index as int, x as int), ..m })
        },
        Instruction::LoadRegs(x) => if m.index + x + 1 > MEMORY_SIZE {
            Err(Fault::AddressOutOfRange)
        } else {
            go(Machine { registers: registers_loaded(m.registers, m.memory, m.index as int, x as int), ..m })
        },
        Instruction::Unknown => stall(m),
    }
}

/// `after` and the result `r` are what `expected` describes: its state and
/// step on success; on a fault, that fault with the state left as `before`.
pub open spec fn follows(
    before: Machine,
    after: Machine,
    r: Result<Step, Fault>,
    expected: Result<(Machine, Step), Fault>,
) -> bool {
    match expected {
        Ok(p) => r == Ok::<Step, Fault>(p.1) && after == p.0,
        Err(f) => r == Err::<Step, Fault>(f) && after == before,
    }
}

/// `after` and `r` come from executing the word `op` in `before`: as `step`
/// gives them for some drawn byte, and for the byte 0 where the instruction
/// draws none (the byte then makes no difference). Where it draws one and
/// none can be had, the fault says so and nothing changes.
pub open spec fn executes(before: Machine, after: Machine, r: Result<Step, Fault>, op: u16) -> bool {
    &&& (exists|b: u8| follows(before, after, r, #[trigger] step(before, decode_spec(op), b)))
        || (decode_spec(op) is Random && r == Err::<Step, Fault>(Fault::RandomnessUnavailable)
        && after == before)
    &&& !(decode_spec(op) is Random) ==> follows(before, after, r, step(before, decode_spec(op), 0))
}

} // verus!
