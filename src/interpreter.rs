use rand::RngCore;
use vstd::prelude::*;

use crate::instruction::{decode, is_control_op, is_register_op, operands_in_range, Instruction};
use crate::model::{
    bcd_stored, draw_sprite, drawn, executes, fetched, follows, font_glyphs, initial_memory, loaded,
    power_on, registers_dumped, registers_loaded, skip_if, sprite_bit, sprite_covers, stall, step,
    timers_ticked, well_formed, Fault, Machine, Step, FLAG, FONT_SIZE, KEY_COUNT, MEMORY_SIZE,
    PROGRAM_CAPACITY, PROGRAM_START, REGISTER_COUNT, STACK_DEPTH,
};
use crate::screen::{cell_index, Screen, SCREEN_CELLS, SCREEN_HEIGHT, SCREEN_WIDTH};
use crate::sprite::{
    covers_before, hits_before, lemma_cell_index, lemma_covers_ends, lemma_covers_row, lemma_hits_next,
    lemma_hits_rows, lemma_paint_next, lemma_target_fresh, target,
};

verus! {

/// The built-in font, one byte per glyph row.
fn font() -> (r: [u8; FONT_SIZE])
    ensures
        r@ == font_glyphs(),
{
    let f: [u8; FONT_SIZE] = [
        0xF0, 0x90, 0x90, 0x90, 0xF0, 0x20, 0x60, 0x20, 0x20, 0x70,
        0xF0, 0x10, 0xF0, 0x80, 0xF0, 0xF0, 0x10, 0xF0, 0x10, 0xF0,
        0x90, 0x90, 0xF0, 0x10, 0x10, 0xF0, 0x80, 0xF0, 0x10, 0xF0,
        0xF0, 0x80, 0xF0, 0x90, 0xF0, 0xF0, 0x10, 0x20, 0x40, 0x40,
        0xF0, 0x90, 0xF0, 0x90, 0xF0, 0xF0, 0x90, 0xF0, 0x10, 0xF0,
        0xF0, 0x90, 0xF0, 0x90, 0x90, 0xE0, 0x90, 0xE0, 0x90, 0xE0,
        0xF0, 0x80, 0x80, 0x80, 0xF0, 0xE0, 0x90, 0x90, 0x90, 0xE0,
        0xF0, 0x80, 0xF0, 0x80, 0xF0, 0xF0, 0x80, 0xF0, 0x80, 0x80,
    ];
    assert(f@ =~= font_glyphs());
    f
}

/// Memory holding the font at the bottom and zero elsewhere.
fn initial_memory_image() -> (r: [u8; MEMORY_SIZE])
    ensures
        r@ == initial_memory(),
{
    let glyphs = font();
    let mut mem = [0u8; MEMORY_SIZE];
    let mut i: usize = 0;
    while i < FONT_SIZE
        invariant
            i <= FONT_SIZE,
            glyphs@ == font_glyphs(),
            mem@.len() == MEMORY_SIZE,
            forall|a: int| 0 <= a < MEMORY_SIZE ==> mem@[a] == (if a < i { font_glyphs()[a] } else { 0u8 }),
        decreases FONT_SIZE - i,
    {
        mem[i] = glyphs[i];
        i += 1;
    }
    assert(mem@ =~= initial_memory());
    mem
}

/// Relies on `rand::rngs::OsRng::try_fill_bytes`: one byte from the operating
/// system's generator, or `None` where it reports an error. Any of the 256
/// values may come.
#[verifier::external_body]
fn random_byte() -> (r: Option<u8>) {
    let mut buf = [0u8; 1];
    match rand::rngs::OsRng.try_fill_bytes(&mut buf) {
        Ok(()) => Some(buf[0]),
        Err(_) => None,
    }
}

/// The interpreter: memory, registers, stack, timers, keys and display.
pub struct Chip8 {
    pc: u16,
    memory: [u8; MEMORY_SIZE],
    screen: Screen,
    registers: [u8; REGISTER_COUNT],
    i_register: u16,
    sp: u16,
    stack: [u16; STACK_DEPTH],
    keys: [bool; KEY_COUNT],
    delay_timer: u8,
    sound_timer: u8,
}

impl View for Chip8 {
    type V = Machine;

    closed spec fn view(&self) -> Machine {
        Machine {
            pc: self.pc,
            memory: self.memory@,
            screen: self.screen@,
            registers: self.registers@,
            index: self.i_register,
            sp: self.sp,
            stack: self.stack@,
            keys: self.keys@,
            delay: self.delay_timer,
            sound: self.sound_timer,
        }
    }
}

impl Chip8 {
    /// The display has its fixed size and the stack pointer stays within the stack.
    pub closed spec fn wf(&self) -> bool {
        &&& self.screen.wf()
        &&& self.sp <= STACK_DEPTH
    }

    /// The state of the interpreter is always well formed.
    pub proof fn lemma_wf(&self)
        requires
            self.wf(),
        ensures
            well_formed(self@),
    {
        self.screen.lemma_len();
    }

    /// A fresh interpreter: font installed, everything else zero, PC at `PROGRAM_START`.
    pub fn new() -> (r: Chip8)
        ensures
            r.wf(),
            r@ == power_on(),
    {
        let r = Chip8 {
            pc: PROGRAM_START,
            memory: initial_memory_image(),
            screen: Screen::new(),
            registers: [0u8; REGISTER_COUNT],
            i_register: 0,
            sp: 0,
            stack: [0u16; STACK_DEPTH],
            keys: [false; KEY_COUNT],
            delay_timer: 0,
            sound_timer: 0,
        };
        assert(r.registers@ =~= power_on().registers);
        assert(r.stack@ =~= power_on().stack);
        assert(r.keys@ =~= power_on().keys);
        r
    }

    /// Returns every part of the state to what `new` gives, whatever ran before.
    pub fn reset(&mut self)
        requires
            old(self).wf(),
        ensures
            final(self).wf(),
            final(self)@ == power_on(),
    {
        self.pc = PROGRAM_START;
        self.memory = initial_memory_image();
        self.screen.clear();
        self.registers = [0u8; REGISTER_COUNT];
        self.i_register = 0;
        self.sp = 0;
        self.stack = [0u16; STACK_DEPTH];
        self.keys = [false; KEY_COUNT];
        self.delay_timer = 0;
        self.sound_timer = 0;
        assert(self.registers@ =~= power_on().registers);
        assert(self.stack@ =~= power_on().stack);
        assert(self.keys@ =~= power_on().keys);
    }

    /// Copies `program` into memory from `PROGRAM_START` on. A program longer
    /// than `PROGRAM_CAPACITY` is refused and nothing changes.
    pub fn load(&mut self, program: &[u8]) -> (r: Result<(), Fault>)
        requires
            old(self).wf(),
        ensures
            final(self).wf(),
            program@.len() > PROGRAM_CAPACITY ==> r == Err::<(), Fault>(Fault::ProgramTooLarge)
                && final(self)@ == old(self)@,
            program@.len() <= PROGRAM_CAPACITY ==> r == Ok::<(), Fault>(())
                && final(self)@ == loaded(old(self)@, program@),
    {
        if program.len() > PROGRAM_CAPACITY {
            return Err(Fault::ProgramTooLarge);
        }
        let start = PROGRAM_START as usize;
        let mut i: usize = 0;
        while i < program.len()
            invariant
                self.wf(),
                program@.len() <= PROGRAM_CAPACITY,
                start == PROGRAM_START,
                i <= program@.len(),
                self@ == (Machine { memory: self@.memory, ..old(self)@ }),
                self@.memory.len() == MEMORY_SIZE,
                forall|a: int|
                    0 <= a < MEMORY_SIZE ==> self@.memory[a] == (if start <= a < start + i {
                        program@[a - start]
                    } else {
                        old(self)@.memory[a]
                    }),
            decreases program@.len() - i,
        {
            self.memory[start + i] = program[i];
            i += 1;
        }
        assert(self@.memory =~= loaded(old(self)@, program@).memory);
        Ok(())
    }

    /// One frame of both timers: each that is above zero goes down by one.
    pub fn tick_timers(&mut self)
        requires
            old(self).wf(),
        ensures
            final(self).wf(),
            final(self)@ == timers_ticked(old(self)@),
    {
        if self.delay_timer > 0 {
            self.delay_timer -= 1;
        }
        if self.sound_timer > 0 {
            self.sound_timer -= 1;
        }
    }

    /// Reads the big-endian instruction word at the program counter and moves
    /// the counter past it. A word outside the program area (below
    /// `PROGRAM_START`, where the font lives, or past the end of memory) is
    /// refused and nothing changes.
    pub fn fetch(&mut self) -> (r: Result<u16, Fault>)
        requires
            old(self).wf(),
        ensures
            final(self).wf(),
            match fetched(old(self)@) {
                Ok(p) => r == Ok::<u16, Fault>(p.1) && final(self)@ == p.0,
                Err(f) => r == Err::<u16, Fault>(f) && final(self)@ == old(self)@,
            },
    {
        if self.pc < PROGRAM_START || self.pc as usize + 1 >= MEMORY_SIZE {
            return Err(Fault::AddressOutOfRange);
        }
        let hi = self.memory[self.pc as usize] as u16;
        let lo = self.memory[self.pc as usize + 1] as u16;
        let opcode: u16 = hi << 8 | lo;
        assert(opcode == hi * 256 + lo) by (bit_vector)
            requires
                hi < 256,
                lo < 256,
                opcode == hi << 8 | lo,
        ;
        self.pc += 2;
        Ok(opcode)
    }

    /// Moves the program counter past the next instruction when `cond` holds.
    fn skip_when(&mut self, cond: bool) -> (r: Result<Step, Fault>)
        requires
            old(self).wf(),
        ensures
            final(self).wf(),
            follows(old(self)@, final(self)@, r, skip_if(old(self)@, cond)),
    {
        if !cond {
            Ok(Step::Advance)
        } else if self.pc > u16::MAX - 2 {
            Err(Fault::AddressOutOfRange)
        } else {
            self.pc += 2;
            Ok(Step::Advance)
        }
    }

    /// Moves the program counter back onto the instruction just fetched.
    fn rewind(&mut self) -> (r: Result<Step, Fault>)
        requires
            old(self).wf(),
        ensures
            final(self).wf(),
            follows(old(self)@, final(self)@, r, stall(old(self)@)),
    {
        if self.pc < 2 {
            Err(Fault::AddressOutOfRange)
        } else {
            self.pc -= 2;
            Ok(Step::Stall)
        }
    }

    /// Stores the hundreds, tens and ones digits of `Vx` at `I`, `I + 1`, `I + 2`.
    fn store_bcd(&mut self, x: usize)
        requires
            old(self).wf(),
            x < REGISTER_COUNT,
            old(self).i_register + 3 <= MEMORY_SIZE,
        ensures
            final(self).wf(),
            final(self)@ == (Machine {
                memory: bcd_stored(old(self)@.memory, old(self)@.index as int, old(self)@.registers[x as int]),
                ..old(self)@
            }),
    {
        let vx = self.registers[x];
        let i = self.i_register as usize;
        self.memory[i] = vx / 100;
        self.memory[i + 1] = vx / 10 % 10;
        self.memory[i + 2] = vx % 10;
    }

    /// Copies `V0 ..= Vx` to memory from `I` on.
    fn dump_registers(&mut self, x: usize)
        requires
            old(self).wf(),
            x < REGISTER_COUNT,
            old(self).i_register + x + 1 <= MEMORY_SIZE,
        ensures
            final(self).wf(),
            final(self)@ == (Machine {
                memory: registers_dumped(
                    old(self)@.memory,
                    old(self)@.registers,
                    old(self)@.index as int,
                    x as int,
                ),
                ..old(self)@
            }),
    {
        let base = self.i_register as usize;
        let mut k: usize = 0;
        while k <= x
            invariant
                self.wf(),
                x < REGISTER_COUNT,
                k <= x + 1,
                base == old(self)@.index,
                base + x + 1 <= MEMORY_SIZE,
                self@ == (Machine { memory: self@.memory, ..old(self)@ }),
                self@.memory.len() == MEMORY_SIZE,
                forall|a: int|
                    0 <= a < MEMORY_SIZE ==> self@.memory[a] == (if base <= a < base + k {
                        old(self)@.registers[a - base]
                    } else {
                        old(self)@.memory[a]
                    }),
            decreases x + 1 - k,
        {
            self.memory[base + k] = self.registers[k];
            k += 1;
        }
        assert(self@.memory =~= registers_dumped(
            old(self)@.memory,
            old(self)@.registers,
            old(self)@.index as int,
            x as int,
        ));
    }

    /// Reads `V0 ..= Vx` from memory from `I` on.
    fn load_registers(&mut self, x: usize)
        requires
            old(self).wf(),
            x < REGISTER_COUNT,
            old(self).i_register + x + 1 <= MEMORY_SIZE,
        ensures
            final(self).wf(),
            final(self)@ == (Machine {
                registers: registers_loaded(
                    old(self)@.registers,
                    old(self)@.memory,
                    old(self)@.index as int,
                    x as int,
                ),
                ..old(self)@
            }),
    {
        let base = self.i_register as usize;
        let mut k: usize = 0;
        while k <= x
            invariant
                self.wf(),
                x < REGISTER_COUNT,
                k <= x + 1,
                base == old(self)@.index,
                base + x + 1 <= MEMORY_SIZE,
                self@ == (Machine { registers: self@.registers, ..old(self)@ }),
                self@.registers.len() == REGISTER_COUNT,
                forall|j: int|
                    0 <= j < REGISTER_COUNT ==> self@.registers[j] == (if j < k {
                        old(self)@.memory[base + j]
                    } else {
                        old(self)@.registers[j]
                    }),
            decreases x + 1 - k,
        {
            self.registers[k] = self.memory[base + k];
            k += 1;
        }
        assert(self@.registers =~= registers_loaded(
            old(self)@.registers,
            old(self)@.memory,
            old(self)@.index as int,
            x as int,
        ));
    }

    /// Decodes and executes the word `opcode`. Only the `Random` instruction
    /// draws a byte, and it faults with nothing changed where the operating
    /// system has none to give; for every other instruction the outcome is
    /// that of `step`.
    pub fn execute(&mut self, opcode: u16) -> (r: Result<Step, Fault>)
        requires
            old(self).wf(),
        ensures
            final(self).wf(),
            executes(old(self)@, final(self)@, r, opcode),
    {
        let ins = decode(opcode);
        let random = match ins {
            Instruction::Random(..) => match random_byte() {
                Some(b) => b,
                None => return Err(Fault::RandomnessUnavailable),
            },
            _ => 0,
        };
        self.apply(ins, random)
    }

    /// One processor cycle: fetches the instruction at the program counter and
    /// executes it. A failed fetch changes nothing; a fault in the instruction
    /// leaves the program counter past it and nothing else changed.
    pub fn tick(&mut self) -> (r: Result<Step, Fault>)
        requires
            old(self).wf(),
        ensures
            final(self).wf(),
            match fetched(old(self)@) {
                Ok(p) => executes(p.0, final(self)@, r, p.1),
                Err(f) => r == Err::<Step, Fault>(f) && final(self)@ == old(self)@,
            },
    {
        let opcode = match self.fetch() {
            Ok(op) => op,
            Err(f) => return Err(f),
        };
        self.execute(opcode)
    }

    /// Executes one decoded instruction, with `random` as the byte that the
    /// `Random` instruction draws. The result and the new state are those of
    /// `step`; a fault leaves the state as it was.
    pub fn apply(&mut self, ins: Instruction, random: u8) -> (r: Result<Step, Fault>)
        requires
            old(self).wf(),
            operands_in_range(ins),
        ensures
            final(self).wf(),
            follows(old(self)@, final(self)@, r, step(old(self)@, ins, random)),
    {
        match ins {
            Instruction::SetImm(..) | Instruction::AddImm(..) | Instruction::SetReg(..) | Instruction::Or(..) | Instruction::And(..) | Instruction::Xor(..) | Instruction::AddReg(..) | Instruction::SubReg(..) | Instruction::ShiftRight(..) | Instruction::SubNeg(..) | Instruction::ShiftLeft(..) => self.apply_register_op(ins),
            Instruction::ClearScreen | Instruction::Return | Instruction::Jump(..) | Instruction::Call(..) | Instruction::SkipEqImm(..) | Instruction::SkipNeImm(..) | Instruction::SkipEqReg(..) | Instruction::SkipNeReg(..) | Instruction::JumpOffset(..) | Instruction::SkipKey(..) | Instruction::SkipNoKey(..) | Instruction::WaitKey(..) | Instruction::Unknown => self.apply_control_op(ins),
            _ => self.apply_state_op(ins, random),
        }
    }

    /// Arithmetic and logic on registers; each moves on.
    #[verifier::spinoff_prover]
    #[verifier::rlimit(60)]
    fn apply_register_op(&mut self, ins: Instruction) -> (r: Result<Step, Fault>)
        requires
            old(self).wf(),
            operands_in_range(ins),
            is_register_op(ins),
        ensures
            final(self).wf(),
            follows(old(self)@, final(self)@, r, step(old(self)@, ins, 0)),
    {
        match ins {
            Instruction::SetImm(x, nn) => {
                self.registers[x] = nn;
                Ok(Step::Advance)
            },
            Instruction::AddImm(x, nn) => {
                self.registers[x] = self.registers[x].wrapping_add(nn);
                Ok(Step::Advance)
            },
            Instruction::SetReg(x, y) => {
                self.registers[x] = self.registers[y];
                Ok(Step::Advance)
            },
            Instruction::Or(x, y) => {
                self.registers[x] = self.registers[x] | self.registers[y];
                Ok(Step::Advance)
            },
            Instruction::And(x, y) => {
                self.registers[x] = self.registers[x] & self.registers[y];
                Ok(Step::Advance)
            },
            Instruction::Xor(x, y) => {
                self.registers[x] = self.registers[x] ^ self.registers[y];
                Ok(Step::Advance)
            },
            Instruction::AddReg(x, y) => {
                let vx = self.registers[x];
                let vy = self.registers[y];
                let carry = vx as u16 + vy as u16 > 255;
                self.registers[x] = vx.wrapping_add(vy);
                self.registers[FLAG] = if carry {
                    1
                } else {
                    0
                };
                Ok(Step::Advance)
            },
            Instruction::SubReg(x, y) => {
                let vx = self.registers[x];
                let vy = self.registers[y];
                self.registers[x] = vx.wrapping_sub(vy);
                self.registers[FLAG] = if vx >= vy {
                    1
                } else {
                    0
                };
                Ok(Step::Advance)
            },
            Instruction::ShiftRight(x) => {
                let vx = self.registers[x];
                let lsb = vx & 1;
                let shifted = vx >> 1;
                assert(lsb == vx % 2 && shifted == vx / 2) by (bit_vector)
                    requires
                        lsb == vx & 1,
                        shifted == vx >> 1,
                ;
                self.registers[x] = shifted;
                self.registers[FLAG] = lsb;
                Ok(Step::Advance)
            },
            Instruction::SubNeg(x, y) => {
                let vx = self.registers[x];
                let vy = self.registers[y];
                self.registers[x] = vy.wrapping_sub(vx);
                self.registers[FLAG] = if vy >= vx {
                    1
                } else {
                    0
                };
                Ok(Step::Advance)
            },
            Instruction::ShiftLeft(x) => {
                let vx = self.registers[x];
                let high = vx & 0xF0;
                let shifted = vx << 1;
                assert(shifted == (vx * 2) % 256) by (bit_vector)
                    requires
                        shifted == vx << 1,
                ;
                self.registers[x] = shifted;
                self.registers[FLAG] = high;
                Ok(Step::Advance)
            },
            // the precondition rules out every other instruction
            _ => Err(Fault::AddressOutOfRange),
        }
    }

    /// Instructions that clear the display or steer the program counter.
    #[verifier::spinoff_prover]
    #[verifier::rlimit(60)]
    fn apply_control_op(&mut self, ins: Instruction) -> (r: Result<Step, Fault>)
        requires
            old(self).wf(),
            operands_in_range(ins),
            is_control_op(ins),
        ensures
            final(self).wf(),
            follows(old(self)@, final(self)@, r, step(old(self)@, ins, 0)),
    {
        match ins {
            Instruction::ClearScreen => {
                self.screen.clear();
                Ok(Step::Advance)
            },
            Instruction::Return => {
                if self.sp == 0 {
                    return Err(Fault::StackUnderflow);
                }
                self.sp -= 1;
                self.pc = self.stack[self.sp as usize];
                Ok(Step::Advance)
            },
            Instruction::Jump(a) => {
                self.pc = a;
                Ok(Step::Advance)
            },
            Instruction::Call(a) => {
                if self.sp as usize >= STACK_DEPTH {
                    return Err(Fault::StackOverflow);
                }
                self.stack[self.sp as usize] = self.pc;
                self.sp += 1;
                self.pc = a;
                Ok(Step::Advance)
            },
            Instruction::SkipEqImm(x, nn) => {
                let c = self.registers[x] == nn;
                self.skip_when(c)
            },
            Instruction::SkipNeImm(x, nn) => {
                let c = self.registers[x] != nn;
                self.skip_when(c)
            },
            Instruction::SkipEqReg(x, y) => {
                let c = self.registers[x] == self.registers[y];
                self.skip_when(c)
            },
            Instruction::SkipNeReg(x, y) => {
                let c = self.registers[x] != self.registers[y];
                self.skip_when(c)
            },
            Instruction::JumpOffset(a) => {
                self.pc = self.registers[0] as u16 + a;
                Ok(Step::Advance)
            },
            Instruction::SkipKey(x) => {
                let k = self.registers[x] as usize;
                if k >= KEY_COUNT {
                    return Err(Fault::KeyOutOfRange);
                }
                let c = self.keys[k];
                self.skip_when(c)
            },
            Instruction::SkipNoKey(x) => {
                let k = self.registers[x] as usize;
                if k >= KEY_COUNT {
                    return Err(Fault::KeyOutOfRange);
                }
                let c = !self.keys[k];
                self.skip_when(c)
            },
            Instruction::WaitKey(x) => {
                let k = self.registers[x] as usize;
                if k >= KEY_COUNT {
                    return Err(Fault::KeyOutOfRange);
                }
                if self.keys[k] {
                    Ok(Step::Advance)
                } else {
                    self.rewind()
                }
            },
            Instruction::Unknown => self.rewind(),
            // the precondition rules out every other instruction
            _ => Err(Fault::AddressOutOfRange),
        }
    }

    /// Instructions on the index register, memory, timers and display.
    #[verifier::spinoff_prover]
    #[verifier::rlimit(60)]
    fn apply_state_op(&mut self, ins: Instruction, random: u8) -> (r: Result<Step, Fault>)
        requires
            old(self).wf(),
            operands_in_range(ins),
            !is_register_op(ins) && !is_control_op(ins),
        ensures
            final(self).wf(),
            follows(old(self)@, final(self)@, r, step(old(self)@, ins, random)),
    {
        match ins {
            Instruction::SetIndex(a) => {
                self.i_register = a;
                Ok(Step::Advance)
            },
            Instruction::Random(x, nn) => {
                self.registers[x] = random & nn;
                Ok(Step::Advance)
            },
            Instruction::Draw(x, y, n) => {
                if n > 0 && self.i_register as usize + n as usize > MEMORY_SIZE {
                    return Err(Fault::AddressOutOfRange);
                }
                self.draw(x, y, n);
                Ok(Step::Advance)
            },
            Instruction::GetDelay(x) => {
                self.registers[x] = self.delay_timer;
                Ok(Step::Advance)
            },
            Instruction::SetDelay(x) => {
                self.delay_timer = self.registers[x];
                Ok(Step::Advance)
            },
            Instruction::SetSound(x) => {
                self.sound_timer = self.registers[x];
                Ok(Step::Advance)
            },
            Instruction::AddIndex(x) => {
                let vx = self.registers[x] as u16;
                if self.i_register > u16::MAX - vx {
                    return Err(Fault::AddressOutOfRange);
                }
                self.i_register += vx;
                Ok(Step::Advance)
            },
            Instruction::FontChar(x) => {
                self.i_register = self.registers[x] as u16 * 5;
                Ok(Step::Advance)
            },
            Instruction::Bcd(x) => {
                if self.i_register as usize + 3 > MEMORY_SIZE {
                    return Err(Fault::AddressOutOfRange);
                }
                self.store_bcd(x);
                Ok(Step::Advance)
            },
            Instruction::DumpRegs(x) => {
                if self.i_register as usize + x + 1 > MEMORY_SIZE {
                    return Err(Fault::AddressOutOfRange);
                }
                self.dump_registers(x);
                Ok(Step::Advance)
            },
            Instruction::LoadRegs(x) => {
                if self.i_register as usize + x + 1 > MEMORY_SIZE {
                    return Err(Fault::AddressOutOfRange);
                }
                self.load_registers(x);
                Ok(Step::Advance)
            },
            // the precondition rules out every other instruction
            _ => Err(Fault::AddressOutOfRange),
        }
    }

    /// Draws the `n`-row sprite stored at `I` with its top left corner at
    /// (`Vx`, `Vy`), wrapping around the display edges. Each set bit lights its
    /// cell; the flag register tells whether any of those cells was lit already.
    #[verifier::spinoff_prover]
    fn draw(&mut self, x: usize, y: usize, n: u16)
        requires
            old(self).wf(),
            x < REGISTER_COUNT,
            y < REGISTER_COUNT,
            n < 16,
            n == 0 || old(self).i_register + n <= MEMORY_SIZE,
        ensures
            final(self).wf(),
            final(self)@ == draw_sprite(old(self)@, x as int, y as int, n as int),
    {
        let ghost m = self@;
        let ghost mem = m.memory;
        let ghost i = m.index as int;
        let ghost before = m.screen;
        let vx = self.registers[x] as u16;
        let vy = self.registers[y] as u16;
        proof {
            self.screen.lemma_len();
            lemma_covers_ends(mem, i, vx as int, vy as int, n as int);
            lemma_hits_rows(before, mem, i, vx as int, vy as int, n as int);
        }
        let mut flipped = false;
        let mut h: u16 = 0;
        while h < n
            invariant
                self.wf(),
                h <= n,
                n < 16,
                n == 0 || i + n <= MEMORY_SIZE,
                mem.len() == MEMORY_SIZE,
                i == self.i_register,
                mem == self@.memory,
                vx < 256,
                vy < 256,
                self@ == (Machine { screen: self@.screen, ..m }),
                self@.screen.len() == SCREEN_CELLS,
                before.len() == SCREEN_CELLS,
                forall|k: int|
                    0 <= k < SCREEN_CELLS ==> self@.screen[k] == (before[k] || covers_before(
                        mem,
                        i,
                        vx as int,
                        vy as int,
                        h as int,
                        0,
                        k,
                    )),
                flipped == hits_before(before, mem, i, vx as int, vy as int, h as int, 0),
                forall|hh: int|
                    0 <= hh ==> #[trigger] hits_before(before, mem, i, vx as int, vy as int, hh + 1, 0)
                        == hits_before(before, mem, i, vx as int, vy as int, hh, 8),
            decreases n - h,
        {
            let addr = self.i_register + h;
            let pixels = self.memory[addr as usize];
            let mut w: u16 = 0;
            while w < 8
                invariant
                    self.wf(),
                    h < n,
                    n < 16,
                    w <= 8,
                    i + n <= MEMORY_SIZE,
                    mem.len() == MEMORY_SIZE,
                    pixels == mem[i + h],
                    vx < 256,
                    vy < 256,
                    self@ == (Machine { screen: self@.screen, ..m }),
                    self@.screen.len() == SCREEN_CELLS,
                    before.len() == SCREEN_CELLS,
                    forall|k: int|
                        0 <= k < SCREEN_CELLS ==> self@.screen[k] == (before[k] || covers_before(
                            mem,
                            i,
                            vx as int,
                            vy as int,
                            h as int,
                            w as int,
                            k,
                        )),
                    flipped == hits_before(before, mem, i, vx as int, vy as int, h as int, w as int),
                decreases 8 - w,
            {
                proof {
                    lemma_hits_next(before, mem, i, vx as int, vy as int, h as int, w as int);
                    lemma_target_fresh(mem, i, vx as int, vy as int, h as int, w as int);
                }
                let ghost current = self@.screen;
                if pixels & (0x80u8 >> (w as u8)) != 0 {
                    assert(sprite_bit(mem[i + h], w as int));
                    let px = (vx + w) as usize % SCREEN_WIDTH;
                    let py = (vy + h) as usize % SCREEN_HEIGHT;
                    proof {
                        lemma_cell_index(px as int, py as int, px as int, py as int);
                    }
                    assert(target(vx as int, vy as int, h as int, w as int) == cell_index(
                        px as int,
                        py as int,
                    ));
                    let hit = self.screen.get_pixel(px, py);
                    flipped = flipped || hit;
                    self.screen.set_pixel(px, py, true);
                } else {
                    assert(!sprite_bit(mem[i + h], w as int));
                }
                proof {
                    lemma_paint_next(before, current, self@.screen, mem, i, vx as int, vy as int, h as int, w as int);
                }
                let ghost w0 = w as int;
                w += 1;
                assert forall|k: int| 0 <= k < SCREEN_CELLS implies self@.screen[k] == (before[k]
                    || covers_before(mem, i, vx as int, vy as int, h as int, w as int, k)) by {
                    assert(w as int == w0 + 1);
                    assert(self@.screen[k] == (before[k] || covers_before(mem, i, vx as int, vy as int, h as int, w0 + 1, k)));
                }
            }
            proof {
                lemma_covers_row(mem, i, vx as int, vy as int, h as int);
            }
            let ghost h0 = h as int;
            h += 1;
            assert forall|k: int| 0 <= k < SCREEN_CELLS implies self@.screen[k] == (before[k]
                || covers_before(mem, i, vx as int, vy as int, h as int, 0, k)) by {
                assert(h as int == h0 + 1);
                assert(self@.screen[k] == (before[k] || covers_before(mem, i, vx as int, vy as int, h0, 8, k)));
                assert(covers_before(mem, i, vx as int, vy as int, h0 + 1, 0, k)
                    == covers_before(mem, i, vx as int, vy as int, h0, 8, k));
            }
        }
        self.registers[FLAG] = if flipped {
            1
        } else {
            0
        };
        proof {
            lemma_covers_ends(mem, i, vx as int, vy as int, n as int);
            lemma_hits_rows(before, mem, i, vx as int, vy as int, n as int);
        }
        assert forall|k: int| 0 <= k < SCREEN_CELLS implies self@.screen[k] == drawn(
            before,
            mem,
            i,
            vx as int,
            vy as int,
            n as int,
        )[k] by {
            assert(h == n);
            assert(self@.screen[k] == (before[k] || covers_before(mem, i, vx as int, vy as int, h as int, 0, k)));
            assert(covers_before(mem, i, vx as int, vy as int, n as int, 0, k)
                == sprite_covers(mem, i, vx as int, vy as int, n as int, k));
        }
        assert(self@.screen =~= drawn(before, mem, i, vx as int, vy as int, n as int));
    }

    /// The address of the next instruction.
    pub fn pc(&self) -> (r: u16)
        ensures
            r == self@.pc,
    {
        self.pc
    }

    /// The value of register `x`.
    pub fn register(&self, x: usize) -> (r: u8)
        requires
            x < REGISTER_COUNT,
        ensures
            r == self@.registers[x as int],
    {
        self.registers[x]
    }

    /// The address register `I`.
    pub fn index_register(&self) -> (r: u16)
        ensures
            r == self@.index,
    {
        self.i_register
    }

    /// Number of return addresses on the stack.
    pub fn stack_pointer(&self) -> (r: u16)
        ensures
            r == self@.sp,
    {
        self.sp
    }

    /// The delay timer.
    pub fn delay_timer(&self) -> (r: u8)
        ensures
            r == self@.delay,
    {
        self.delay_timer
    }

    /// The sound timer.
    pub fn sound_timer(&self) -> (r: u8)
        ensures
            r == self@.sound,
    {
        self.sound_timer
    }

    /// The byte at memory address `addr`.
    pub fn memory_byte(&self, addr: usize) -> (r: u8)
        requires
            addr < MEMORY_SIZE,
        ensures
            r == self@.memory[addr as int],
    {
        self.memory[addr]
    }

    /// Whether key `k` is down.
    pub fn key(&self, k: usize) -> (r: bool)
        requires
            k < KEY_COUNT,
        ensures
            r == self@.keys[k as int],
    {
        self.keys[k]
    }

    /// Records key `k` as down or up; nothing else changes.
    pub fn set_key(&mut self, k: usize, pressed: bool)
        requires
            old(self).wf(),
            k < KEY_COUNT,
        ensures
            final(self).wf(),
            final(self)@ == (Machine { keys: old(self)@.keys.update(k as int, pressed), ..old(self)@ }),
    {
        self.keys[k] = pressed;
    }

    /// Number of display columns.
    pub fn width(&self) -> (r: usize)
        requires
            self.wf(),
        ensures
            r == SCREEN_WIDTH,
    {
        self.screen.width()
    }

    /// Number of display rows.
    pub fn height(&self) -> (r: usize)
        requires
            self.wf(),
        ensures
            r == SCREEN_HEIGHT,
    {
        self.screen.height()
    }

    /// The display cells, row-major, for a renderer to read.
    pub fn pixels(&self) -> (r: &[bool])
        ensures
            r@ == self@.screen,
    {
        self.screen.pixels()
    }

    /// The display.
    pub fn screen(&self) -> (r: &Screen)
        requires
            self.wf(),
        ensures
            r.wf(),
            r@ == self@.screen,
    {
        &self.screen
    }
}

impl Default for Chip8 {
    fn default() -> (r: Chip8)
        ensures
            r.wf(),
            r@ == power_on(),
    {
        Chip8::new()
    }
}

} // verus!
