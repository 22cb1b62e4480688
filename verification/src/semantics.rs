//! What the instructions mean.
//!
//! The meaning of an instruction is a function from the machine's state
//! (register file, memory, screen, keypad, one random byte) to its next
//! state and a request to the peripherals, or to a fault. `execute_spec`
//! gives it for a decoded instruction, `step_spec` for a whole
//! fetch-decode-execute step. The facts that follow from these definitions
//! and that programs rely on are stated and proved at the end.
use crate::decoder::{decode_spec, Operation};
use crate::display::{collides, DrawRequestView};
use crate::event::{Event, EventView};
use crate::fault::Fault;
use crate::keyboard::{key_down, lowest_key_down};
use crate::memory::{glyph, reserved_image, GLYPH_SIZE, MEMORY_SIZE, RESERVED_MEMORY_SIZE};
use crate::registers::{RegistersView, FLAG_REGISTER, INSTRUCTION_WIDTH, STACK_DEPTH};
use vstd::prelude::*;

verus! {

/// What one instruction leaves behind: the register file, the memory and
/// the request to the peripherals.
pub struct Effect {
    pub regs: RegistersView,
    pub mem: Seq<u8>,
    pub event: EventView,
}

/// An effect that asks nothing of the peripherals.
pub open spec fn quiet(regs: RegistersView, mem: Seq<u8>) -> Result<Effect, Fault> {
    Ok(Effect { regs, mem, event: EventView::Nothing })
}

/// The effect of a conditional skip: one more instruction width added to
/// the program counter where the condition holds.
pub open spec fn skip_when(condition: bool, regs: RegistersView, mem: Seq<u8>) -> Result<
    Effect,
    Fault,
> {
    if condition {
        match regs.advance() {
            Ok(next) => quiet(next, mem),
            Err(fault) => Err(fault),
        }
    } else {
        quiet(regs, mem)
    }
}

/// A condition as the value that the flag register receives.
pub open spec fn flag_of(condition: bool) -> u8 {
    if condition {
        1
    } else {
        0
    }
}

/// The sum of two bytes, wrapped modulo 256.
pub open spec fn wrapping_sum(a: u8, b: u8) -> u8 {
    ((a + b) % 256) as u8
}

/// The difference of two bytes, wrapped modulo 256.
pub open spec fn wrapping_difference(a: u8, b: u8) -> u8 {
    ((a - b) % 256) as u8
}

/// The sum of an address and a byte, wrapped modulo 65536.
pub open spec fn wrapping_offset(address: u16, offset: u8) -> u16 {
    ((address + offset) % 0x10000) as u16
}

/// The register file with the flag register holding `flag`.
pub open spec fn with_flag(regs: RegistersView, flag: u8) -> RegistersView {
    regs.with_v(FLAG_REGISTER as int, flag)
}

/// The three decimal digits of a byte: hundreds, tens, ones.
pub open spec fn bcd_digits(value: u8) -> Seq<u8> {
    seq![value / 100, (value / 10) % 10, value % 10]
}

/// Memory after `bytes` were stored from `start` on.
///
/// The first byte decides about the protected region, the last one about
/// the end of memory; nothing is stored unless everything can be.
pub open spec fn store_block(mem: Seq<u8>, start: u16, bytes: Seq<u8>) -> Result<Seq<u8>, Fault> {
    if bytes.len() == 0 {
        Ok(mem)
    } else if start < RESERVED_MEMORY_SIZE {
        Err(Fault::ProtectedRegionFault)
    } else if start + bytes.len() > MEMORY_SIZE {
        Err(Fault::OutOfBounds)
    } else {
        Ok(
            Seq::new(
                MEMORY_SIZE as nat,
                |a: int|
                    if start <= a < start + bytes.len() {
                        bytes[a - start]
                    } else {
                        mem[a]
                    },
            ),
        )
    }
}

/// The `count` bytes of memory from `start` on.
pub open spec fn load_block(mem: Seq<u8>, start: u16, count: nat) -> Result<Seq<u8>, Fault> {
    if count > 0 && start + count > MEMORY_SIZE {
        Err(Fault::OutOfBounds)
    } else {
        Ok(Seq::new(count, |k: int| mem[start + k]))
    }
}

/// The registers after the first `bytes.len()` of them received `bytes`.
pub open spec fn with_low_registers(v: Seq<u8>, bytes: Seq<u8>) -> Seq<u8> {
    Seq::new(v.len(), |r: int| if r < bytes.len() { bytes[r] } else { v[r] })
}

/// What executing `op` does.
///
/// `regs` is the register file with the program counter already past the
/// instruction, `mem` the memory, `pixels` the screen and `keys` the keypad
/// as they are when the instruction runs, and `random` the byte that the
/// random-number instruction consumes.
///
/// Where the instruction set leaves a choice, this is what is done:
/// - An instruction that sets the flag writes the flag first and its
///   result second, so that a result aimed at the flag register stays.
/// - A jump, a return or a skip that would take the program counter past
///   the end of memory faults with `OutOfBounds`.
/// - A store into memory stores everything or, on a fault, nothing.
/// - A sprite is tested for collision against the screen as given, with
///   wrap-around at the edges; the flag tells whether a lit pixel would go
///   off.
/// - Waiting for a key takes the lowest code among the keys that are down.
/// - A register value that names no key is a key that is up.
pub open spec fn execute_spec(
    op: Operation,
    regs: RegistersView,
    mem: Seq<u8>,
    pixels: Seq<bool>,
    keys: Seq<bool>,
    random: u8,
) -> Result<Effect, Fault> {
    match op {
        Operation::ClearScreen => Ok(Effect { regs, mem, event: EventView::ClearScreen }),
        Operation::Return => match regs.pop() {
            Ok((address, rest)) => if address > MEMORY_SIZE {
                Err(Fault::OutOfBounds)
            } else {
                quiet(rest.with_pc(address), mem)
            },
            Err(fault) => Err(fault),
        },
        Operation::Sys { addr } => quiet(regs, mem),
        Operation::Jump { addr } => quiet(regs.with_pc(addr), mem),
        Operation::Call { addr } => match regs.push(regs.pc) {
            Ok(pushed) => quiet(pushed.with_pc(addr), mem),
            Err(fault) => Err(fault),
        },
        Operation::SkipEqualByte { x, kk } => skip_when(regs.v[x as int] == kk, regs, mem),
        Operation::SkipNotEqualByte { x, kk } => skip_when(regs.v[x as int] != kk, regs, mem),
        Operation::SkipEqual { x, y } => skip_when(regs.v[x as int] == regs.v[y as int], regs, mem),
        Operation::LoadByte { x, kk } => quiet(regs.with_v(x as int, kk), mem),
        Operation::AddByte { x, kk } => quiet(
            regs.with_v(x as int, wrapping_sum(regs.v[x as int], kk)),
            mem,
        ),
        Operation::Move { x, y } => quiet(regs.with_v(x as int, regs.v[y as int]), mem),
        Operation::Or { x, y } => quiet(
            regs.with_v(x as int, regs.v[x as int] | regs.v[y as int]),
            mem,
        ),
        Operation::And { x, y } => quiet(
            regs.with_v(x as int, regs.v[x as int] & regs.v[y as int]),
            mem,
        ),
        Operation::Xor { x, y } => quiet(
            regs.with_v(x as int, regs.v[x as int] ^ regs.v[y as int]),
            mem,
        ),
        Operation::Add { x, y } => {
            let flagged = with_flag(regs, flag_of(regs.v[x as int] + regs.v[y as int] > 255));
            quiet(
                flagged.with_v(x as int, wrapping_sum(flagged.v[x as int], flagged.v[y as int])),
                mem,
            )
        },
        Operation::Sub { x, y } => {
            let flagged = with_flag(regs, flag_of(regs.v[y as int] <= regs.v[x as int]));
            quiet(
                flagged.with_v(
                    x as int,
                    wrapping_difference(flagged.v[x as int], flagged.v[y as int]),
                ),
                mem,
            )
        },
        Operation::ShiftRight { x } => {
            let flagged = with_flag(regs, regs.v[x as int] & 1);
            quiet(flagged.with_v(x as int, flagged.v[x as int] >> 1u8), mem)
        },
        Operation::SubReverse { x, y } => {
            let flagged = with_flag(regs, flag_of(regs.v[x as int] <= regs.v[y as int]));
            quiet(
                flagged.with_v(
                    x as int,
                    wrapping_difference(flagged.v[y as int], flagged.v[x as int]),
                ),
                mem,
            )
        },
        Operation::ShiftLeft { x } => {
            let flagged = with_flag(regs, regs.v[x as int] >> 7u8);
            quiet(flagged.with_v(x as int, flagged.v[x as int] << 1u8), mem)
        },
        Operation::SkipNotEqual { x, y } => skip_when(
            regs.v[x as int] != regs.v[y as int],
            regs,
            mem,
        ),
        Operation::LoadIndex { addr } => quiet(regs.with_i(addr), mem),
        Operation::JumpOffset { addr } => if addr + regs.v[0] > MEMORY_SIZE {
            Err(Fault::OutOfBounds)
        } else {
            quiet(regs.with_pc((addr + regs.v[0]) as u16), mem)
        },
        Operation::Random { x, kk } => quiet(regs.with_v(x as int, random & kk), mem),
        Operation::Draw { x, y, n } => match load_block(mem, regs.i, n as nat) {
            Ok(rows) => Ok(
                Effect {
                    regs: regs.with_v(
                        FLAG_REGISTER as int,
                        flag_of(collides(pixels, regs.v[x as int], regs.v[y as int], rows)),
                    ),
                    mem,
                    event: EventView::Draw(
                        DrawRequestView {
                            origin_x: regs.v[x as int],
                            origin_y: regs.v[y as int],
                            rows,
                        },
                    ),
                },
            ),
            Err(fault) => Err(fault),
        },
        Operation::SkipKeyDown { x } => skip_when(key_down(keys, regs.v[x as int]), regs, mem),
        Operation::SkipKeyUp { x } => skip_when(!key_down(keys, regs.v[x as int]), regs, mem),
        Operation::ReadDelay { x } => quiet(regs.with_v(x as int, regs.delay_timer), mem),
        Operation::WaitKey { x } => match lowest_key_down(keys) {
            Some(code) => quiet(regs.with_v(x as int, code), mem),
            None => Ok(Effect { regs, mem, event: EventView::WaitKey { x } }),
        },
        Operation::SetDelay { x } => quiet(
            RegistersView { delay_timer: regs.v[x as int], ..regs },
            mem,
        ),
        Operation::SetSound { x } => Ok(
            Effect {
                regs: RegistersView { sound_timer: regs.v[x as int], ..regs },
                mem,
                event: EventView::Tone { on: regs.v[x as int] > 0 },
            },
        ),
        Operation::AddIndex { x } => quiet(
            regs.with_i(wrapping_offset(regs.i, regs.v[x as int])),
            mem,
        ),
        Operation::LoadGlyph { x } => quiet(
            regs.with_i((regs.v[x as int] * GLYPH_SIZE) as u16),
            mem,
        ),
        Operation::StoreBcd { x } => match store_block(mem, regs.i, bcd_digits(regs.v[x as int])) {
            Ok(stored) => quiet(regs, stored),
            Err(fault) => Err(fault),
        },
        Operation::StoreRegisters { x } => match store_block(
            mem,
            regs.i,
            regs.v.subrange(0, x + 1),
        ) {
            Ok(stored) => quiet(regs, stored),
            Err(fault) => Err(fault),
        },
        Operation::LoadRegisters { x } => match load_block(mem, regs.i, (x + 1) as nat) {
            Ok(bytes) => quiet(
                RegistersView { v: with_low_registers(regs.v, bytes), ..regs },
                mem,
            ),
            Err(fault) => Err(fault),
        },
        Operation::Unknown { word } => Ok(
            Effect { regs, mem, event: EventView::UnknownOpcode { word } },
        ),
    }
}

/// The instruction word at the program counter: two bytes, the more
/// significant one first.
pub open spec fn fetch(regs: RegistersView, mem: Seq<u8>) -> Result<u16, Fault> {
    if regs.pc + 1 < MEMORY_SIZE {
        Ok((mem[regs.pc as int] * 256 + mem[regs.pc + 1]) as u16)
    } else {
        Err(Fault::OutOfBounds)
    }
}

/// What one step does: fetch the word at the program counter, move the
/// program counter past it, decode the word and execute it.
///
/// Where the instruction waits for a key and none is down, the program
/// counter stays on the instruction, so that the next step meets it again.
pub open spec fn step_spec(
    regs: RegistersView,
    mem: Seq<u8>,
    pixels: Seq<bool>,
    keys: Seq<bool>,
    random: u8,
) -> Result<Effect, Fault> {
    match fetch(regs, mem) {
        Ok(word) => match execute_spec(
            decode_spec(word),
            regs.with_pc((regs.pc + INSTRUCTION_WIDTH) as u16),
            mem,
            pixels,
            keys,
            random,
        ) {
            Ok(effect) => if effect.event is WaitKey {
                Ok(Effect { regs: effect.regs.with_pc(regs.pc), ..effect })
            } else {
                Ok(effect)
            },
            Err(fault) => Err(fault),
        },
        Err(fault) => Err(fault),
    }
}

/// Whether what a call returned and left behind is what `expected` says:
/// on success the event and the new state, on a fault that fault and the
/// old state.
pub open spec fn agrees(
    expected: Result<Effect, Fault>,
    returned: Result<Event, Fault>,
    regs_before: RegistersView,
    mem_before: Seq<u8>,
    regs_after: RegistersView,
    mem_after: Seq<u8>,
) -> bool {
    match expected {
        Ok(effect) => {
            &&& returned matches Ok(event)
            &&& event@ == effect.event
            &&& regs_after == effect.regs
            &&& mem_after == effect.mem
        },
        Err(fault) => {
            &&& returned matches Err(f)
            &&& f == fault
            &&& regs_after == regs_before
            &&& mem_after == mem_before
        },
    }
}

/// Only the random-number instruction looks at the random byte: every
/// other instruction does the same whatever the byte is.
pub proof fn lemma_random_matters_to_random_only(
    op: Operation,
    regs: RegistersView,
    mem: Seq<u8>,
    pixels: Seq<bool>,
    keys: Seq<bool>,
    random: u8,
    other: u8,
)
    requires
        !(op is Random),
    ensures
        execute_spec(op, regs, mem, pixels, keys, random) == execute_spec(
            op,
            regs,
            mem,
            pixels,
            keys,
            other,
        ),
{
}

/// An instruction that does not fault leaves a well-formed register file
/// well formed: the call stack never grows past sixteen entries and the
/// program counter never leaves memory.
pub proof fn lemma_execute_keeps_registers_wf(
    op: Operation,
    regs: RegistersView,
    mem: Seq<u8>,
    pixels: Seq<bool>,
    keys: Seq<bool>,
    random: u8,
)
    requires
        regs.wf(),
        op.wf(),
    ensures
        execute_spec(op, regs, mem, pixels, keys, random) matches Ok(effect) ==> effect.regs.wf(),
{
}

/// No instruction changes the reserved region or the size of memory.
pub proof fn lemma_execute_keeps_reserved_region(
    op: Operation,
    regs: RegistersView,
    mem: Seq<u8>,
    pixels: Seq<bool>,
    keys: Seq<bool>,
    random: u8,
)
    requires
        mem.len() == MEMORY_SIZE,
    ensures
        execute_spec(op, regs, mem, pixels, keys, random) matches Ok(effect) ==> {
            &&& effect.mem.len() == MEMORY_SIZE
            &&& effect.mem.subrange(0, RESERVED_MEMORY_SIZE as int) == mem.subrange(
                0,
                RESERVED_MEMORY_SIZE as int,
            )
        },
{
    if let Ok(effect) = execute_spec(op, regs, mem, pixels, keys, random) {
        assert(effect.mem.subrange(0, RESERVED_MEMORY_SIZE as int) =~= mem.subrange(
            0,
            RESERVED_MEMORY_SIZE as int,
        ));
    }
}

/// A step that does not fault leaves a well-formed register file well
/// formed.
pub proof fn lemma_step_keeps_registers_wf(
    regs: RegistersView,
    mem: Seq<u8>,
    pixels: Seq<bool>,
    keys: Seq<bool>,
    random: u8,
)
    requires
        regs.wf(),
    ensures
        step_spec(regs, mem, pixels, keys, random) matches Ok(effect) ==> effect.regs.wf(),
{
    if let Ok(word) = fetch(regs, mem) {
        crate::decoder::lemma_decode_wf(word);
        lemma_execute_keeps_registers_wf(
            decode_spec(word),
            regs.with_pc((regs.pc + INSTRUCTION_WIDTH) as u16),
            mem,
            pixels,
            keys,
            random,
        );
    }
}

/// The program counter and every return address on the call stack are
/// even.
pub open spec fn aligned(regs: RegistersView) -> bool {
    &&& regs.pc % 2 == 0
    &&& forall|k: int| 0 <= k < regs.stack.len() ==> regs.stack[k] % 2 == 0
}

/// Whether `op`, if it is a jump or a call, goes to an even address.
pub open spec fn lands_even(op: Operation, regs: RegistersView) -> bool {
    match op {
        Operation::Jump { addr } | Operation::Call { addr } => addr % 2 == 0,
        Operation::JumpOffset { addr } => (addr + regs.v[0]) % 2 == 0,
        _ => true,
    }
}

/// An instruction that jumps to an even address, or does not jump at all,
/// keeps the program counter and the return addresses even.
pub proof fn lemma_execute_keeps_alignment(
    op: Operation,
    regs: RegistersView,
    mem: Seq<u8>,
    pixels: Seq<bool>,
    keys: Seq<bool>,
    random: u8,
)
    requires
        aligned(regs),
        lands_even(op, regs),
    ensures
        execute_spec(op, regs, mem, pixels, keys, random) matches Ok(effect) ==> aligned(
            effect.regs,
        ),
{
    if let Ok(effect) = execute_spec(op, regs, mem, pixels, keys, random) {
        match op {
            Operation::Return => {
                assert(regs.stack.len() > 0);
                assert(effect.regs.pc == regs.stack[regs.stack.len() - 1]);
                assert(effect.regs.stack == regs.stack.drop_last());
            },
            Operation::Call { addr } => {
                assert(effect.regs.stack == regs.stack.push(regs.pc));
            },
            Operation::Jump { .. } | Operation::JumpOffset { .. } => {
                assert(effect.regs.stack == regs.stack);
            },
            Operation::SkipEqualByte { .. }
            | Operation::SkipNotEqualByte { .. }
            | Operation::SkipEqual { .. }
            | Operation::SkipNotEqual { .. }
            | Operation::SkipKeyDown { .. }
            | Operation::SkipKeyUp { .. } => {
                assert(effect.regs.stack == regs.stack);
                assert(effect.regs.pc == regs.pc || effect.regs.pc == regs.pc + 2);
            },
            _ => {
                assert(effect.regs.stack == regs.stack);
                assert(effect.regs.pc == regs.pc);
            },
        }
    }
}

/// As long as the program jumps to even addresses only, the program
/// counter stays even, and so does every return address.
pub proof fn lemma_step_keeps_alignment(
    regs: RegistersView,
    mem: Seq<u8>,
    pixels: Seq<bool>,
    keys: Seq<bool>,
    random: u8,
)
    requires
        aligned(regs),
        fetch(regs, mem) matches Ok(word) && lands_even(decode_spec(word), regs),
    ensures
        step_spec(regs, mem, pixels, keys, random) matches Ok(effect) ==> aligned(effect.regs),
{
    let op = decode_spec(fetch(regs, mem)->Ok_0);
    let advanced = regs.with_pc((regs.pc + INSTRUCTION_WIDTH) as u16);
    assert(advanced.stack == regs.stack);
    assert(advanced.v == regs.v);
    assert(advanced.pc == regs.pc + 2);
    assert(aligned(advanced));
    assert(lands_even(op, advanced));
    lemma_execute_keeps_alignment(op, advanced, mem, pixels, keys, random);
    // The step is the execution from `advanced`, but for a wait that puts
    // the program counter back.
    let executed = execute_spec(op, advanced, mem, pixels, keys, random);
    assert(step_spec(regs, mem, pixels, keys, random) == match executed {
        Ok(effect) => if effect.event is WaitKey {
            Ok(Effect { regs: effect.regs.with_pc(regs.pc), ..effect })
        } else {
            Ok(effect)
        },
        Err(fault) => Err(fault),
    });
    if let Ok(effect) = executed {
        assert(effect.regs.with_pc(regs.pc).stack == effect.regs.stack);
    }
}

/// A skip-if-equal instruction whose register holds the immediate moves
/// the program counter four bytes on from where the step found it, and two
/// bytes where it does not; nothing else changes.
pub proof fn lemma_skip_equal_byte(
    regs: RegistersView,
    mem: Seq<u8>,
    pixels: Seq<bool>,
    keys: Seq<bool>,
    random: u8,
    x: u8,
    kk: u8,
)
    requires
        regs.wf(),
        fetch(regs, mem) matches Ok(word) && decode_spec(word) == (Operation::SkipEqualByte {
            x,
            kk,
        }),
        regs.pc + 2 * INSTRUCTION_WIDTH <= MEMORY_SIZE,
    ensures
        step_spec(regs, mem, pixels, keys, random) == quiet(
            regs.with_pc(
                if regs.v[x as int] == kk {
                    (regs.pc + 4) as u16
                } else {
                    (regs.pc + 2) as u16
                },
            ),
            mem,
        ),
{
}

/// A call pushes the address of the instruction after it and jumps; the
/// return that follows puts the register file back exactly as it was
/// before the call.
pub proof fn lemma_call_then_return(
    regs: RegistersView,
    mem: Seq<u8>,
    pixels: Seq<bool>,
    keys: Seq<bool>,
    random: u8,
    addr: u16,
)
    requires
        regs.wf(),
        regs.stack.len() < STACK_DEPTH,
    ensures
        execute_spec(Operation::Call { addr }, regs, mem, pixels, keys, random) matches Ok(called)
            && {
            &&& called.regs == (RegistersView {
                pc: addr,
                stack: regs.stack.push(regs.pc),
                ..regs
            })
            &&& called.mem == mem
            &&& called.event == EventView::Nothing
            &&& execute_spec(Operation::Return, called.regs, mem, pixels, keys, random) == quiet(
                regs,
                mem,
            )
        },
{
    assert(regs.stack.push(regs.pc).drop_last() =~= regs.stack);
}

/// Storing the registers `V0..=Vx` and loading them back, into whatever
/// register file has the same index register, reproduces them; the
/// registers above `Vx` are left alone.
pub proof fn lemma_store_then_load_registers(
    regs: RegistersView,
    other: RegistersView,
    mem: Seq<u8>,
    pixels: Seq<bool>,
    keys: Seq<bool>,
    random: u8,
    x: u8,
)
    requires
        regs.wf(),
        other.wf(),
        mem.len() == MEMORY_SIZE,
        x < 16,
        other.i == regs.i,
        RESERVED_MEMORY_SIZE <= regs.i,
        regs.i + x < MEMORY_SIZE,
    ensures
        execute_spec(Operation::StoreRegisters { x }, regs, mem, pixels, keys, random) matches Ok(
            stored,
        ) && {
            &&& stored.regs == regs
            &&& execute_spec(
                Operation::LoadRegisters { x },
                other,
                stored.mem,
                pixels,
                keys,
                random,
            ) matches Ok(loaded) && {
                &&& loaded.mem == stored.mem
                &&& forall|r: int| 0 <= r <= x ==> loaded.regs.v[r] == regs.v[r]
                &&& forall|r: int| x < r < 16 ==> loaded.regs.v[r] == other.v[r]
            }
        },
{
}

/// The glyph instruction points the index register at the glyph of the
/// digit in its register, wherever the reserved region is intact.
pub proof fn lemma_load_glyph_points_at_glyph(
    regs: RegistersView,
    mem: Seq<u8>,
    pixels: Seq<bool>,
    keys: Seq<bool>,
    random: u8,
    x: u8,
)
    requires
        mem.len() == MEMORY_SIZE,
        mem.subrange(0, RESERVED_MEMORY_SIZE as int) == reserved_image(),
        regs.v[x as int] < 16,
    ensures
        execute_spec(Operation::LoadGlyph { x }, regs, mem, pixels, keys, random) matches Ok(
            effect,
        ) && {
            &&& effect.regs.i == GLYPH_SIZE * regs.v[x as int]
            &&& effect.mem.subrange(effect.regs.i as int, effect.regs.i + GLYPH_SIZE) == glyph(
                regs.v[x as int] as int,
            )
        },
{
    let digit = regs.v[x as int] as int;
    let start = GLYPH_SIZE * digit;
    assert forall|k: int| 0 <= k < GLYPH_SIZE implies mem[start + k] == glyph(digit)[k] by {
        assert(mem.subrange(0, RESERVED_MEMORY_SIZE as int)[start + k] == mem[start + k]);
    }
    assert(mem.subrange(start, start + GLYPH_SIZE) =~= glyph(digit));
}

/// Executing a word that encodes no instruction changes neither registers
/// nor memory and reports exactly that word.
pub proof fn lemma_unknown_changes_nothing(
    regs: RegistersView,
    mem: Seq<u8>,
    pixels: Seq<bool>,
    keys: Seq<bool>,
    random: u8,
    word: u16,
)
    ensures
        execute_spec(Operation::Unknown { word }, regs, mem, pixels, keys, random) == Ok::<
            Effect,
            Fault,
        >(Effect { regs, mem, event: EventView::UnknownOpcode { word } }),
{
}

/// A step that meets a word encoding no instruction moves the program
/// counter past it, changes nothing else and reports the word; it never
/// faults.
pub proof fn lemma_step_over_unknown(
    regs: RegistersView,
    mem: Seq<u8>,
    pixels: Seq<bool>,
    keys: Seq<bool>,
    random: u8,
)
    requires
        fetch(regs, mem) matches Ok(word) && decode_spec(word) is Unknown,
    ensures
        step_spec(regs, mem, pixels, keys, random) == Ok::<Effect, Fault>(
            Effect {
                regs: regs.with_pc((regs.pc + INSTRUCTION_WIDTH) as u16),
                mem,
                event: EventView::UnknownOpcode { word: fetch(regs, mem)->Ok_0 },
            },
        ),
{
}

} // verus!
