//! The register file: sixteen byte registers, the index register, the
//! program counter, the call stack and the two timers.
use crate::fault::Fault;
use crate::memory::{MEMORY_SIZE, RESERVED_MEMORY_SIZE};
use vstd::prelude::*;

verus! {

/// Number of general-purpose registers.
pub const REGISTER_COUNT: usize = 16;

/// Number of return addresses the call stack can hold.
pub const STACK_DEPTH: usize = 16;

/// Index of the register that receives carry, borrow and collision flags.
pub const FLAG_REGISTER: usize = 15;

/// Width of one instruction in bytes.
pub const INSTRUCTION_WIDTH: u16 = 2;

/// The register file.
///
/// `stack[0..sp]` are the live return addresses, oldest first; the slots
/// from `sp` upwards are scratch space and carry no meaning. A stack
/// pointer past the sixteenth slot, which no operation here ever leaves
/// behind, counts as sixteen.
#[derive(Clone, Copy, Debug, PartialEq, Eq)]
pub struct Registers {
    pub v: [u8; REGISTER_COUNT],
    pub pc: u16,
    pub sp: u8,
    pub stack: [u16; STACK_DEPTH],
    pub i: u16,
    pub delay_timer: u8,
    pub sound_timer: u8,
}

/// The register file as a mathematical value.
///
/// The call stack is the sequence of its live return addresses, so that its
/// length is the stack depth and its last element the next address to
/// return to.
pub struct RegistersView {
    pub v: Seq<u8>,
    pub pc: u16,
    pub stack: Seq<u16>,
    pub i: u16,
    pub delay_timer: u8,
    pub sound_timer: u8,
}

impl RegistersView {
    /// The register file at power-on: everything zero, the program counter
    /// at the start of the writable region, the call stack empty.
    pub open spec fn power_on() -> RegistersView {
        RegistersView {
            v: Seq::new(REGISTER_COUNT as nat, |r: int| 0u8),
            pc: RESERVED_MEMORY_SIZE as u16,
            stack: Seq::empty(),
            i: 0,
            delay_timer: 0,
            sound_timer: 0,
        }
    }

    /// Sixteen registers, at most sixteen return addresses, and a program
    /// counter that is not past the end of memory.
    pub open spec fn wf(self) -> bool {
        &&& self.v.len() == REGISTER_COUNT
        &&& self.stack.len() <= STACK_DEPTH
        &&& self.pc <= MEMORY_SIZE
    }

    /// The program counter moved one instruction further, or `OutOfBounds`
    /// where that would take it past the end of memory.
    pub open spec fn advance(self) -> Result<RegistersView, Fault> {
        if self.pc + INSTRUCTION_WIDTH > MEMORY_SIZE {
            Err(Fault::OutOfBounds)
        } else {
            Ok(RegistersView { pc: (self.pc + INSTRUCTION_WIDTH) as u16, ..self })
        }
    }

    /// `address` pushed onto the call stack, or `StackOverflow` where the
    /// stack is full.
    pub open spec fn push(self, address: u16) -> Result<RegistersView, Fault> {
        if self.stack.len() >= STACK_DEPTH {
            Err(Fault::StackOverflow)
        } else {
            Ok(RegistersView { stack: self.stack.push(address), ..self })
        }
    }

    /// The newest return address taken off the call stack, together with
    /// what is left, or `StackUnderflow` where the stack is empty.
    pub open spec fn pop(self) -> Result<(u16, RegistersView), Fault> {
        if self.stack.len() == 0 {
            Err(Fault::StackUnderflow)
        } else {
            Ok((self.stack.last(), RegistersView { stack: self.stack.drop_last(), ..self }))
        }
    }

    /// Both timers one tick closer to zero; a timer at zero stays there.
    pub open spec fn tick(self) -> RegistersView {
        RegistersView {
            delay_timer: if self.delay_timer > 0 {
                (self.delay_timer - 1) as u8
            } else {
                0
            },
            sound_timer: if self.sound_timer > 0 {
                (self.sound_timer - 1) as u8
            } else {
                0
            },
            ..self
        }
    }

    /// The register file with register `x` holding `value`.
    pub open spec fn with_v(self, x: int, value: u8) -> RegistersView {
        RegistersView { v: self.v.update(x, value), ..self }
    }

    /// The register file with the program counter at `address`.
    pub open spec fn with_pc(self, address: u16) -> RegistersView {
        RegistersView { pc: address, ..self }
    }

    /// The register file with the index register holding `address`.
    pub open spec fn with_i(self, address: u16) -> RegistersView {
        RegistersView { i: address, ..self }
    }
}

impl View for Registers {
    type V = RegistersView;

    open spec fn view(&self) -> RegistersView {
        RegistersView {
            v: self.v@,
            pc: self.pc,
            stack: self.stack@.subrange(0, self.depth() as int),
            i: self.i,
            delay_timer: self.delay_timer,
            sound_timer: self.sound_timer,
        }
    }
}

impl Registers {
    /// The number of live return addresses.
    pub open spec fn depth(&self) -> nat {
        if self.sp <= STACK_DEPTH {
            self.sp as nat
        } else {
            STACK_DEPTH as nat
        }
    }

    /// The stack pointer stays within the stack and the program counter
    /// within memory (one past the last byte included).
    ///
    /// No operation needs this to hold, and none breaks it.
    pub open spec fn wf(&self) -> bool {
        &&& self.sp <= STACK_DEPTH
        &&& self.pc <= MEMORY_SIZE
    }

    /// The register file at power-on.
    pub open spec fn power_on() -> Registers {
        Registers {
            v: [0u8; REGISTER_COUNT],
            pc: 0x200,
            sp: 0,
            stack: [0u16; STACK_DEPTH],
            i: 0,
            delay_timer: 0,
            sound_timer: 0,
        }
    }

    /// Every field is as at power-on: all registers, the index register,
    /// both timers and the stack pointer zero, every stack slot zero, and
    /// the program counter at the start of the writable region.
    pub open spec fn is_power_on(&self) -> bool {
        &&& self.v@ == Seq::new(REGISTER_COUNT as nat, |r: int| 0u8)
        &&& self.pc == RESERVED_MEMORY_SIZE
        &&& self.sp == 0
        &&& self.stack@ == Seq::new(STACK_DEPTH as nat, |k: int| 0u16)
        &&& self.i == 0
        &&& self.delay_timer == 0
        &&& self.sound_timer == 0
    }

    /// What an operation on `before` leaves of the fields that the view
    /// does not show: the stack pointer is as before where the call stack
    /// kept its depth, and the new depth where it did not; the slots from
    /// the depth upwards hold what they held.
    pub open spec fn keeps_rest_of(&self, before: &Registers) -> bool {
        &&& self.sp == if self@.stack.len() == before@.stack.len() {
            before.sp
        } else {
            self@.stack.len() as u8
        }
        &&& forall|k: int|
            self@.stack.len() <= k < STACK_DEPTH ==> self.stack@[k] == before.stack@[k]
    }

    /// The power-on register file is the only one in the power-on state;
    /// it is well formed and its view is the power-on view.
    pub proof fn lemma_power_on_is_unique(&self)
        ensures
            self.is_power_on() <==> *self == Registers::power_on(),
            Registers::power_on().wf(),
            Registers::power_on()@ == RegistersView::power_on(),
    {
        let fresh = Registers::power_on();
        assert(fresh.v@ =~= Seq::new(REGISTER_COUNT as nat, |r: int| 0u8));
        assert(fresh.stack@ =~= Seq::new(STACK_DEPTH as nat, |k: int| 0u16));
        assert(fresh@.v =~= RegistersView::power_on().v);
        assert(fresh@.stack =~= RegistersView::power_on().stack);
        if self.is_power_on() {
            assert(self.v =~= fresh.v);
            assert(self.stack =~= fresh.stack);
        }
    }

    /// A register file is what its view and the rest say: two that come
    /// from the same one with equal views are equal.
    pub proof fn lemma_view_and_rest_decide(&self, other: &Registers, before: &Registers)
        requires
            self@ == other@,
            self.keeps_rest_of(before),
            other.keeps_rest_of(before),
        ensures
            *self == *other,
    {
        assert(self.v@ == other.v@);
        assert(self.v =~= other.v);
        assert forall|k: int| 0 <= k < STACK_DEPTH implies self.stack[k] == other.stack[k] by {
            if k < self@.stack.len() {
                assert(self@.stack[k] == self.stack@[k]);
                assert(other@.stack[k] == other.stack@[k]);
            } else {
                assert(self.stack@[k] == before.stack@[k]);
                assert(other.stack@[k] == before.stack@[k]);
            }
        }
        assert(self.stack =~= other.stack);
    }

    /// Builds the register file in its power-on state.
    pub fn new() -> (r: Self)
        ensures
            r == Registers::power_on(),
            r.is_power_on(),
            r.wf(),
            r@ == RegistersView::power_on(),
    {
        let r = Registers {
            v: [0u8; REGISTER_COUNT],
            pc: 0x200,
            sp: 0,
            stack: [0u16; STACK_DEPTH],
            i: 0,
            delay_timer: 0,
            sound_timer: 0,
        };
        assert(r.v@ =~= Seq::new(REGISTER_COUNT as nat, |r: int| 0u8));
        assert(r.stack@ =~= Seq::new(STACK_DEPTH as nat, |k: int| 0u16));
        assert(r@.v =~= RegistersView::power_on().v);
        assert(r@.stack =~= RegistersView::power_on().stack);
        r
    }

    /// Moves the program counter to the next instruction.
    ///
    /// Fails with `OutOfBounds`, changing nothing, exactly when the new
    /// value would lie past the end of memory.
    pub fn increment_pc(&mut self) -> (r: Result<(), Fault>)
        ensures
            old(self).wf() ==> final(self).wf(),
            final(self).keeps_rest_of(old(self)),
            match old(self)@.advance() {
                Ok(next) => r is Ok && final(self)@ == next,
                Err(fault) => r == Err::<(), Fault>(fault) && *final(self) == *old(self),
            },
    {
        if self.pc as usize + INSTRUCTION_WIDTH as usize > MEMORY_SIZE {
            return Err(Fault::OutOfBounds);
        }
        self.pc = self.pc + INSTRUCTION_WIDTH;
        Ok(())
    }

    /// Pushes a return address.
    ///
    /// Fails with `StackOverflow`, changing nothing, exactly when all
    /// sixteen slots are in use.
    pub fn push_return(&mut self, address: u16) -> (r: Result<(), Fault>)
        ensures
            old(self).wf() ==> final(self).wf(),
            final(self).keeps_rest_of(old(self)),
            match old(self)@.push(address) {
                Ok(next) => r is Ok && final(self)@ == next,
                Err(fault) => r == Err::<(), Fault>(fault) && *final(self) == *old(self),
            },
    {
        if self.sp as usize >= STACK_DEPTH {
            return Err(Fault::StackOverflow);
        }
        self.stack[self.sp as usize] = address;
        self.sp = self.sp + 1;
        assert(self@.stack =~= old(self)@.stack.push(address));
        Ok(())
    }

    /// Pops the newest return address.
    ///
    /// Fails with `StackUnderflow`, changing nothing, exactly when the call
    /// stack is empty.
    pub fn pop_return(&mut self) -> (r: Result<u16, Fault>)
        ensures
            old(self).wf() ==> final(self).wf(),
            final(self).keeps_rest_of(old(self)),
            match old(self)@.pop() {
                Ok((address, next)) => r == Ok::<u16, Fault>(address) && final(self)@ == next,
                Err(fault) => r == Err::<u16, Fault>(fault) && *final(self) == *old(self),
            },
    {
        let depth = if self.sp as usize > STACK_DEPTH {
            STACK_DEPTH as u8
        } else {
            self.sp
        };
        if depth == 0 {
            return Err(Fault::StackUnderflow);
        }
        self.sp = depth - 1;
        let address = self.stack[self.sp as usize];
        assert(self@.stack =~= old(self)@.stack.drop_last());
        Ok(address)
    }

    /// Counts both timers down by one tick, stopping at zero.
    ///
    /// Returns whether the tone is on afterwards, that is whether the sound
    /// timer is still running.
    pub fn decrement_timers(&mut self) -> (tone: bool)
        ensures
            final(self)@ == old(self)@.tick(),
            final(self).wf() == old(self).wf(),
            final(self).keeps_rest_of(old(self)),
            tone == (final(self)@.sound_timer > 0),
    {
        if self.delay_timer > 0 {
            self.delay_timer = self.delay_timer - 1;
        }
        if self.sound_timer > 0 {
            self.sound_timer = self.sound_timer - 1;
        }
        self.sound_timer > 0
    }
}

} // verus!
