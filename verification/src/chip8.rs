//! The processor: fetch, decode, execute.
//!
//! The executable code here is proved to compute exactly what
//! `semantics` says an instruction does. A fault leaves the machine as it
//! was before the faulting instruction.
use crate::decoder::{decode, decode_spec, Operation};
use crate::display::{Display, DrawRequest, MAX_SPRITE_ROWS};
use crate::event::Event;
use crate::fault::Fault;
use crate::keyboard::Keyboard;
use crate::memory::{Memory, GLYPH_SIZE, MEMORY_SIZE, RESERVED_MEMORY_SIZE};
use crate::registers::{
    Registers, RegistersView, FLAG_REGISTER, INSTRUCTION_WIDTH, REGISTER_COUNT,
};
use crate::semantics::{
    agrees, bcd_digits, execute_spec, fetch, load_block, skip_when, step_spec, store_block,
    with_low_registers, wrapping_difference, wrapping_offset, wrapping_sum, Effect,
};
use vstd::prelude::*;

verus! {

/// A byte from the thread-local random number generator, through
/// `rand::random::<u8>()`.
///
/// Nothing is claimed of the byte: every value may come back, and two calls
/// need not agree.
#[verifier::external_body]
fn random_byte() -> u8 {
    rand::random::<u8>()
}

/// Two bytes put together to a word, the first one in the upper half.
proof fn lemma_word_of_bytes(high: u8, low: u8)
    by (bit_vector)
    ensures
        (high as u16) << 8 | (low as u16) == high * 256 + low,
{
}

/// Adds two bytes, wrapping.
fn add_wrapping(a: u8, b: u8) -> (sum: u8)
    ensures
        sum == wrapping_sum(a, b),
{
    a.wrapping_add(b)
}

/// Subtracts one byte from another, wrapping.
fn sub_wrapping(a: u8, b: u8) -> (difference: u8)
    ensures
        difference == wrapping_difference(a, b),
{
    a.wrapping_sub(b)
}

/// Adds a byte to an address, wrapping.
fn offset_wrapping(address: u16, offset: u8) -> (sum: u16)
    ensures
        sum == wrapping_offset(address, offset),
{
    address.wrapping_add(offset as u16)
}

/// Stores `bytes` into memory from `start` on, all of them or none.
fn store_bytes(memory: &mut Memory, start: u16, bytes: &Vec<u8>) -> (r: Result<(), Fault>)
    requires
        bytes@.len() <= REGISTER_COUNT,
    ensures
        final(memory).wf() == old(memory).wf(),
        r is Err ==> *final(memory) == *old(memory),
        match store_block(old(memory)@, start, bytes@) {
            Ok(stored) => r is Ok && final(memory)@ == stored,
            Err(fault) => r == Err::<(), Fault>(fault) && final(memory)@ == old(memory)@,
        },
{
    if bytes.len() == 0 {
        return Ok(());
    }
    if (start as usize) < RESERVED_MEMORY_SIZE {
        return Err(Fault::ProtectedRegionFault);
    }
    if start as usize + bytes.len() > MEMORY_SIZE {
        return Err(Fault::OutOfBounds);
    }
    let mut k: usize = 0;
    while k < bytes.len()
        invariant
            k <= bytes@.len() <= REGISTER_COUNT,
            RESERVED_MEMORY_SIZE <= start,
            start + bytes@.len() <= MEMORY_SIZE,
            memory.wf() == old(memory).wf(),
            forall|a: int|
                0 <= a < MEMORY_SIZE ==> memory@[a] == if start <= a < start + k {
                    bytes@[a - start]
                } else {
                    old(memory)@[a]
                },
        decreases bytes@.len() - k,
    {
        memory.write(start + k as u16, bytes[k])?;
        k += 1;
    }
    assert(memory@ =~= store_block(old(memory)@, start, bytes@)->Ok_0);
    Ok(())
}

/// Reads `count` bytes of memory from `start` on.
fn load_bytes(memory: &Memory, start: u16, count: usize) -> (r: Result<Vec<u8>, Fault>)
    requires
        count <= REGISTER_COUNT,
    ensures
        match load_block(memory@, start, count as nat) {
            Ok(bytes) => r matches Ok(read) && read@ == bytes,
            Err(fault) => r matches Err(f) && f == fault,
        },
{
    if count > 0 && start as usize + count > MEMORY_SIZE {
        return Err(Fault::OutOfBounds);
    }
    let mut bytes: Vec<u8> = Vec::new();
    let mut k: usize = 0;
    while k < count
        invariant
            k <= count <= REGISTER_COUNT,
            count > 0 ==> start + count <= MEMORY_SIZE,
            bytes@.len() == k,
            forall|j: int| 0 <= j < k ==> bytes@[j] == memory@[start + j],
        decreases count - k,
    {
        bytes.push(memory.read(start + k as u16)?);
        k += 1;
    }
    assert(bytes@ =~= load_block(memory@, start, count as nat)->Ok_0);
    Ok(bytes)
}

/// The processor.
#[derive(Clone, Copy, Debug, PartialEq, Eq)]
pub struct Chip8 {
    pub registers: Registers,
}

impl View for Chip8 {
    type V = RegistersView;

    open spec fn view(&self) -> RegistersView {
        self.registers@
    }
}

impl Chip8 {
    /// The register file is well formed.
    pub open spec fn wf(&self) -> bool {
        self.registers.wf()
    }

    /// Builds a processor in its power-on state.
    pub fn new() -> (cpu: Self)
        ensures
            cpu.registers == Registers::power_on(),
            cpu.registers.is_power_on(),
            cpu.wf(),
            cpu@ == RegistersView::power_on(),
    {
        Chip8 { registers: Registers::new() }
    }

    /// Puts the processor back into its power-on state.
    pub fn reset(&mut self)
        ensures
            final(self).registers == Registers::power_on(),
            final(self).registers.is_power_on(),
            final(self).wf(),
            final(self)@ == RegistersView::power_on(),
    {
        self.registers = Registers::new();
    }

    /// Executes a jump, a call or a return.
    fn execute_flow(&mut self, op: Operation, Ghost(mem): Ghost<Seq<u8>>) -> (r: Result<
        Event,
        Fault,
    >)
        requires
            op.wf(),
            op is Return || op is Jump || op is Call || op is JumpOffset,
        ensures
            old(self).wf() ==> final(self).wf(),
            final(self).registers.keeps_rest_of(&old(self).registers),
            r is Err ==> *final(self) == *old(self),
            forall|pixels: Seq<bool>, keys: Seq<bool>, random: u8|
                agrees(
                    #[trigger] execute_spec(op, old(self)@, mem, pixels, keys, random),
                    r,
                    old(self)@,
                    mem,
                    final(self)@,
                    mem,
                ),
    {
        match op {
            Operation::Return => {
                let mut popped = self.registers;
                let address = popped.pop_return()?;
                if address as usize > MEMORY_SIZE {
                    return Err(Fault::OutOfBounds);
                }
                popped.pc = address;
                self.registers = popped;
                Ok(Event::Nothing)
            },
            Operation::Jump { addr } => {
                self.registers.pc = addr;
                Ok(Event::Nothing)
            },
            Operation::Call { addr } => {
                let return_to = self.registers.pc;
                self.registers.push_return(return_to)?;
                self.registers.pc = addr;
                Ok(Event::Nothing)
            },
            Operation::JumpOffset { addr } => {
                let target = addr + self.registers.v[0] as u16;
                if target as usize > MEMORY_SIZE {
                    return Err(Fault::OutOfBounds);
                }
                self.registers.pc = target;
                Ok(Event::Nothing)
            },
            _ => Ok(Event::Nothing),
        }
    }

    /// Moves the program counter over the next instruction where
    /// `condition` holds.
    fn skip_next_when(&mut self, condition: bool) -> (r: Result<Event, Fault>)
        ensures
            old(self).wf() ==> final(self).wf(),
            final(self).registers.keeps_rest_of(&old(self).registers),
            r is Err ==> *final(self) == *old(self),
            forall|mem: Seq<u8>|
                agrees(
                    #[trigger] skip_when(condition, old(self)@, mem),
                    r,
                    old(self)@,
                    mem,
                    final(self)@,
                    mem,
                ),
    {
        if condition {
            self.registers.increment_pc()?;
        }
        Ok(Event::Nothing)
    }

    /// Executes a conditional skip.
    fn execute_skip(&mut self, op: Operation, keyboard: &Keyboard, Ghost(mem): Ghost<Seq<u8>>) -> (r:
        Result<Event, Fault>)
        requires
            op.wf(),
            op is SkipEqualByte || op is SkipNotEqualByte || op is SkipEqual || op is SkipNotEqual
                || op is SkipKeyDown || op is SkipKeyUp,
        ensures
            old(self).wf() ==> final(self).wf(),
            final(self).registers.keeps_rest_of(&old(self).registers),
            r is Err ==> *final(self) == *old(self),
            forall|pixels: Seq<bool>, random: u8|
                agrees(
                    #[trigger] execute_spec(op, old(self)@, mem, pixels, keyboard@, random),
                    r,
                    old(self)@,
                    mem,
                    final(self)@,
                    mem,
                ),
    {
        let condition = match op {
            Operation::SkipEqualByte { x, kk } => self.registers.v[x as usize] == kk,
            Operation::SkipNotEqualByte { x, kk } => self.registers.v[x as usize] != kk,
            Operation::SkipEqual { x, y } => self.registers.v[x as usize]
                == self.registers.v[y as usize],
            Operation::SkipNotEqual { x, y } => self.registers.v[x as usize]
                != self.registers.v[y as usize],
            Operation::SkipKeyDown { x } => keyboard.is_key_down(self.registers.v[x as usize]),
            Operation::SkipKeyUp { x } => !keyboard.is_key_down(self.registers.v[x as usize]),
            _ => false,
        };
        self.skip_next_when(condition)
    }

    /// Executes an instruction that writes one register or timer and sets
    /// no flag.
    fn execute_assign(&mut self, op: Operation, random: u8, Ghost(mem): Ghost<Seq<u8>>) -> (r:
        Result<Event, Fault>)
        requires
            op.wf(),
            op is LoadByte || op is AddByte || op is Move || op is Or || op is And || op is Xor
                || op is Random || op is ReadDelay || op is SetDelay || op is SetSound
                || op is LoadIndex || op is AddIndex || op is LoadGlyph,
        ensures
            old(self).wf() ==> final(self).wf(),
            final(self).registers.keeps_rest_of(&old(self).registers),
            r is Err ==> *final(self) == *old(self),
            forall|pixels: Seq<bool>, keys: Seq<bool>|
                agrees(
                    #[trigger] execute_spec(op, old(self)@, mem, pixels, keys, random),
                    r,
                    old(self)@,
                    mem,
                    final(self)@,
                    mem,
                ),
    {
        match op {
            Operation::LoadByte { x, kk } => {
                self.registers.v[x as usize] = kk;
            },
            Operation::AddByte { x, kk } => {
                self.registers.v[x as usize] = add_wrapping(self.registers.v[x as usize], kk);
            },
            Operation::Move { x, y } => {
                self.registers.v[x as usize] = self.registers.v[y as usize];
            },
            Operation::Or { x, y } => {
                self.registers.v[x as usize] = self.registers.v[x as usize]
                    | self.registers.v[y as usize];
            },
            Operation::And { x, y } => {
                self.registers.v[x as usize] = self.registers.v[x as usize]
                    & self.registers.v[y as usize];
            },
            Operation::Xor { x, y } => {
                self.registers.v[x as usize] = self.registers.v[x as usize]
                    ^ self.registers.v[y as usize];
            },
            Operation::Random { x, kk } => {
                self.registers.v[x as usize] = random & kk;
            },
            Operation::ReadDelay { x } => {
                self.registers.v[x as usize] = self.registers.delay_timer;
            },
            Operation::SetDelay { x } => {
                self.registers.delay_timer = self.registers.v[x as usize];
            },
            Operation::SetSound { x } => {
                self.registers.sound_timer = self.registers.v[x as usize];
                return Ok(Event::Tone { on: self.registers.sound_timer > 0 });
            },
            Operation::LoadIndex { addr } => {
                self.registers.i = addr;
            },
            Operation::AddIndex { x } => {
                self.registers.i = offset_wrapping(self.registers.i, self.registers.v[x as usize]);
            },
            Operation::LoadGlyph { x } => {
                self.registers.i = self.registers.v[x as usize] as u16 * GLYPH_SIZE as u16;
            },
            _ => {},
        }
        Ok(Event::Nothing)
    }

    /// Executes an arithmetic or shift instruction that sets the flag
    /// register: the flag is written first, the result second.
    fn execute_flagged(&mut self, op: Operation, Ghost(mem): Ghost<Seq<u8>>) -> (r: Result<
        Event,
        Fault,
    >)
        requires
            op.wf(),
            op is Add || op is Sub || op is ShiftRight || op is SubReverse || op is ShiftLeft,
        ensures
            old(self).wf() ==> final(self).wf(),
            final(self).registers.keeps_rest_of(&old(self).registers),
            r is Err ==> *final(self) == *old(self),
            forall|pixels: Seq<bool>, keys: Seq<bool>, random: u8|
                agrees(
                    #[trigger] execute_spec(op, old(self)@, mem, pixels, keys, random),
                    r,
                    old(self)@,
                    mem,
                    final(self)@,
                    mem,
                ),
    {
        match op {
            Operation::Add { x, y } => {
                let carry = self.registers.v[y as usize] > 0xFF - self.registers.v[x as usize];
                self.registers.v[FLAG_REGISTER] = if carry {
                    1
                } else {
                    0
                };
                self.registers.v[x as usize] = add_wrapping(
                    self.registers.v[x as usize],
                    self.registers.v[y as usize],
                );
            },
            Operation::Sub { x, y } => {
                let borrow = self.registers.v[y as usize] > self.registers.v[x as usize];
                self.registers.v[FLAG_REGISTER] = if borrow {
                    0
                } else {
                    1
                };
                self.registers.v[x as usize] = sub_wrapping(
                    self.registers.v[x as usize],
                    self.registers.v[y as usize],
                );
            },
            Operation::ShiftRight { x } => {
                self.registers.v[FLAG_REGISTER] = self.registers.v[x as usize] & 1;
                self.registers.v[x as usize] = self.registers.v[x as usize] >> 1u8;
            },
            Operation::SubReverse { x, y } => {
                let borrow = self.registers.v[x as usize] > self.registers.v[y as usize];
                self.registers.v[FLAG_REGISTER] = if borrow {
                    0
                } else {
                    1
                };
                self.registers.v[x as usize] = sub_wrapping(
                    self.registers.v[y as usize],
                    self.registers.v[x as usize],
                );
            },
            Operation::ShiftLeft { x } => {
                self.registers.v[FLAG_REGISTER] = self.registers.v[x as usize] >> 7u8;
                self.registers.v[x as usize] = self.registers.v[x as usize] << 1u8;
            },
            _ => {},
        }
        Ok(Event::Nothing)
    }

    /// Executes a store of decimal digits or of registers into memory.
    fn execute_store(&self, op: Operation, memory: &mut Memory) -> (r: Result<Event, Fault>)
        requires
            op.wf(),
            op is StoreBcd || op is StoreRegisters,
        ensures
            final(memory).wf() == old(memory).wf(),
            r is Err ==> *final(memory) == *old(memory),
            forall|pixels: Seq<bool>, keys: Seq<bool>, random: u8|
                agrees(
                    #[trigger] execute_spec(op, self@, old(memory)@, pixels, keys, random),
                    r,
                    self@,
                    old(memory)@,
                    self@,
                    final(memory)@,
                ),
    {
        let mut bytes: Vec<u8> = Vec::new();
        match op {
            Operation::StoreBcd { x } => {
                let value = self.registers.v[x as usize];
                bytes.push(value / 100);
                bytes.push((value / 10) % 10);
                bytes.push(value % 10);
                assert(bytes@ =~= bcd_digits(value));
            },
            Operation::StoreRegisters { x } => {
                let mut r: usize = 0;
                while r <= x as usize
                    invariant
                        x < REGISTER_COUNT,
                        r <= x + 1,
                        bytes@ =~= self.registers.v@.subrange(0, r as int),
                    decreases x + 1 - r,
                {
                    bytes.push(self.registers.v[r]);
                    r += 1;
                }
            },
            _ => {},
        }
        store_bytes(memory, self.registers.i, &bytes)?;
        Ok(Event::Nothing)
    }

    /// Executes a load of registers from memory.
    fn execute_load(&mut self, x: u8, memory: &Memory) -> (r: Result<Event, Fault>)
        requires
            x < REGISTER_COUNT,
        ensures
            old(self).wf() ==> final(self).wf(),
            final(self).registers.keeps_rest_of(&old(self).registers),
            r is Err ==> *final(self) == *old(self),
            forall|pixels: Seq<bool>, keys: Seq<bool>, random: u8|
                agrees(
                    #[trigger] execute_spec(
                        Operation::LoadRegisters { x },
                        old(self)@,
                        memory@,
                        pixels,
                        keys,
                        random,
                    ),
                    r,
                    old(self)@,
                    memory@,
                    final(self)@,
                    memory@,
                ),
    {
        let bytes = load_bytes(memory, self.registers.i, x as usize + 1)?;
        let mut r: usize = 0;
        assert(self@.v =~= with_low_registers(old(self)@.v, bytes@.subrange(0, 0)));
        while r <= x as usize
            invariant
                x < REGISTER_COUNT,
                r <= x + 1,
                bytes@.len() == x + 1,
                old(self).wf() ==> self.wf(),
                self.registers.sp == old(self).registers.sp,
                self.registers.stack == old(self).registers.stack,
                self@ == (RegistersView {
                    v: with_low_registers(old(self)@.v, bytes@.subrange(0, r as int)),
                    ..old(self)@
                }),
            decreases x + 1 - r,
        {
            self.registers.v[r] = bytes[r];
            r += 1;
            assert(self@.v =~= with_low_registers(old(self)@.v, bytes@.subrange(0, r as int)));
        }
        assert(bytes@.subrange(0, r as int) =~= bytes@);
        Ok(Event::Nothing)
    }

    /// Executes a draw: reads the sprite, tests it against the screen and
    /// hands it out to be drawn.
    fn execute_draw(&mut self, x: u8, y: u8, n: u8, memory: &Memory, display: &Display) -> (r:
        Result<Event, Fault>)
        requires
            x < REGISTER_COUNT,
            y < REGISTER_COUNT,
            n <= MAX_SPRITE_ROWS,
        ensures
            old(self).wf() ==> final(self).wf(),
            final(self).registers.keeps_rest_of(&old(self).registers),
            r is Err ==> *final(self) == *old(self),
            forall|keys: Seq<bool>, random: u8|
                agrees(
                    #[trigger] execute_spec(
                        Operation::Draw { x, y, n },
                        old(self)@,
                        memory@,
                        display@,
                        keys,
                        random,
                    ),
                    r,
                    old(self)@,
                    memory@,
                    final(self)@,
                    memory@,
                ),
    {
        let rows = load_bytes(memory, self.registers.i, n as usize)?;
        let origin_x = self.registers.v[x as usize];
        let origin_y = self.registers.v[y as usize];
        let hit = display.collides(origin_x, origin_y, &rows);
        self.registers.v[FLAG_REGISTER] = if hit {
            1
        } else {
            0
        };
        Ok(Event::Draw(DrawRequest { origin_x, origin_y, rows }))
    }

    /// Executes one decoded instruction.
    ///
    /// The program counter is expected to be past the instruction already.
    /// `random` is consumed by the random-number instruction only. The
    /// screen and the keypad are read, never written: what should happen to
    /// the peripherals comes back as the event.
    pub fn execute(
        &mut self,
        op: Operation,
        random: u8,
        memory: &mut Memory,
        display: &Display,
        keyboard: &Keyboard,
    ) -> (r: Result<Event, Fault>)
        requires
            op.wf(),
        ensures
            old(self).wf() ==> final(self).wf(),
            final(self).registers.keeps_rest_of(&old(self).registers),
            r is Err ==> *final(self) == *old(self),
            final(memory).wf() == old(memory).wf(),
            r is Err ==> *final(memory) == *old(memory),
            agrees(
                execute_spec(op, old(self)@, old(memory)@, display@, keyboard@, random),
                r,
                old(self)@,
                old(memory)@,
                final(self)@,
                final(memory)@,
            ),
    {
        match op {
            Operation::ClearScreen => Ok(Event::ClearScreen),
            Operation::Sys { addr } => Ok(Event::Nothing),
            Operation::Unknown { word } => Ok(Event::UnknownOpcode { word }),
            Operation::Return
            | Operation::Jump { .. }
            | Operation::Call { .. }
            | Operation::JumpOffset { .. } => self.execute_flow(op, Ghost(memory@)),
            Operation::SkipEqualByte { .. }
            | Operation::SkipNotEqualByte { .. }
            | Operation::SkipEqual { .. }
            | Operation::SkipNotEqual { .. }
            | Operation::SkipKeyDown { .. }
            | Operation::SkipKeyUp { .. } => self.execute_skip(op, keyboard, Ghost(memory@)),
            Operation::LoadByte { .. }
            | Operation::AddByte { .. }
            | Operation::Move { .. }
            | Operation::Or { .. }
            | Operation::And { .. }
            | Operation::Xor { .. }
            | Operation::Random { .. }
            | Operation::ReadDelay { .. }
            | Operation::SetDelay { .. }
            | Operation::SetSound { .. }
            | Operation::LoadIndex { .. }
            | Operation::AddIndex { .. }
            | Operation::LoadGlyph { .. } => self.execute_assign(op, random, Ghost(memory@)),
            Operation::Add { .. }
            | Operation::Sub { .. }
            | Operation::ShiftRight { .. }
            | Operation::SubReverse { .. }
            | Operation::ShiftLeft { .. } => self.execute_flagged(op, Ghost(memory@)),
            Operation::StoreBcd { .. } | Operation::StoreRegisters { .. } => self.execute_store(
                op,
                memory,
            ),
            Operation::LoadRegisters { x } => self.execute_load(x, memory),
            Operation::Draw { x, y, n } => self.execute_draw(x, y, n, memory, display),
            Operation::WaitKey { x } => match keyboard.first_key_down() {
                Some(code) => {
                    self.registers.v[x as usize] = code;
                    Ok(Event::Nothing)
                },
                None => Ok(Event::WaitKey { x }),
            },
        }
    }

    /// Decodes and executes one instruction word.
    ///
    /// The random-number instruction draws its byte here; every other
    /// instruction does the same whatever `random` is taken to be.
    pub fn execute_op_code(
        &mut self,
        op_code: u16,
        memory: &mut Memory,
        display: &Display,
        keyboard: &Keyboard,
    ) -> (r: Result<Event, Fault>)
        ensures
            old(self).wf() ==> final(self).wf(),
            final(self).registers.keeps_rest_of(&old(self).registers),
            r is Err ==> *final(self) == *old(self),
            final(memory).wf() == old(memory).wf(),
            r is Err ==> *final(memory) == *old(memory),
            exists|random: u8|
                agrees(
                    #[trigger] execute_spec(
                        decode_spec(op_code),
                        old(self)@,
                        old(memory)@,
                        display@,
                        keyboard@,
                        random,
                    ),
                    r,
                    old(self)@,
                    old(memory)@,
                    final(self)@,
                    final(memory)@,
                ),
    {
        let op = decode(op_code);
        let random = match op {
            Operation::Random { .. } => random_byte(),
            _ => 0,
        };
        self.execute(op, random, memory, display, keyboard)
    }

    /// Reads the instruction word at the program counter.
    ///
    /// Fails with `OutOfBounds` exactly when one of its two bytes lies past
    /// the end of memory.
    pub fn get_op_code(&self, memory: &Memory) -> (r: Result<u16, Fault>)
        ensures
            r == fetch(self@, memory@),
    {
        let pc = self.registers.pc;
        if pc as usize + 1 >= MEMORY_SIZE {
            return Err(Fault::OutOfBounds);
        }
        let high = memory.read(pc)?;
        let low = memory.read(pc + 1)?;
        proof {
            lemma_word_of_bytes(high, low);
        }
        Ok((high as u16) << 8 | (low as u16))
    }

    /// Runs one step: fetch, advance, decode, execute.
    ///
    /// A fault leaves processor and memory as they were, the program
    /// counter on the faulting instruction.
    pub fn run(&mut self, memory: &mut Memory, display: &Display, keyboard: &Keyboard) -> (r:
        Result<Event, Fault>)
        ensures
            old(self).wf() ==> final(self).wf(),
            final(self).registers.keeps_rest_of(&old(self).registers),
            r is Err ==> *final(self) == *old(self),
            final(memory).wf() == old(memory).wf(),
            r is Err ==> *final(memory) == *old(memory),
            exists|random: u8|
                agrees(
                    #[trigger] step_spec(old(self)@, old(memory)@, display@, keyboard@, random),
                    r,
                    old(self)@,
                    old(memory)@,
                    final(self)@,
                    final(memory)@,
                ),
    {
        let start = self.registers.pc;
        let fetched = self.get_op_code(memory);
        let op_code = match fetched {
            Ok(word) => word,
            Err(fault) => {
                assert(step_spec(self@, memory@, display@, keyboard@, 0u8) == Err::<Effect, Fault>(fault));
                return Err(fault);
            },
        };
        self.registers.pc = start + INSTRUCTION_WIDTH;
        let ghost advanced = self@;
        let executed = self.execute_op_code(op_code, memory, display, keyboard);
        let ghost random: u8 = choose|random: u8|
            agrees(
                #[trigger] execute_spec(
                    decode_spec(op_code),
                    advanced,
                    old(memory)@,
                    display@,
                    keyboard@,
                    random,
                ),
                executed,
                advanced,
                old(memory)@,
                self@,
                memory@,
            );
        let r = match executed {
            Ok(Event::WaitKey { x }) => {
                self.registers.pc = start;
                Ok(Event::WaitKey { x })
            },
            Ok(event) => Ok(event),
            Err(fault) => {
                self.registers.pc = start;
                Err(fault)
            },
        };
        proof {
            let expected = step_spec(old(self)@, old(memory)@, display@, keyboard@, random);
            assert(agrees(expected, r, old(self)@, old(memory)@, self@, memory@));
        }
        r
    }

    /// Counts both timers down by one tick, stopping at zero.
    ///
    /// This is the 60 Hz tick; it is independent of how many steps run.
    /// Returns whether the tone is on afterwards.
    pub fn decrement_timers(&mut self) -> (tone: bool)
        ensures
            final(self)@ == old(self)@.tick(),
            final(self).wf() == old(self).wf(),
            final(self).registers.keeps_rest_of(&old(self).registers),
            tone == (final(self)@.sound_timer > 0),
    {
        self.registers.decrement_timers()
    }
}

} // verus!
