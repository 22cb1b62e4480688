//! The whole machine and its interpreter loop.
//!
//! A computer is powered off, running or halted. Powering it on loads the
//! cartridge and runs the first cycle; every further cycle runs one step of
//! the processor and carries out what the step asks of the screen. A fault
//! halts the machine for good. The timers are counted down by a call of
//! their own, which the driver makes sixty times a second however many
//! cycles it runs.
use crate::cartridge::Cartridge;
use crate::chip8::Chip8;
use crate::clock::Clock;
use crate::display::{blank, drawn, Display};
use crate::event::{Event, EventView};
use crate::fault::Fault;
use crate::keyboard::Keyboard;
use crate::memory::{load_at, power_on_image, Memory};
use crate::registers::{Registers, RegistersView, STACK_DEPTH};
use crate::semantics::{agrees, step_spec};
use vstd::prelude::*;

verus! {

/// Where the interpreter loop stands.
#[derive(Clone, Copy, Debug, PartialEq, Eq, Structural)]
pub enum PowerState {
    /// Not started yet, or the cartridge did not fit.
    PoweredOff,
    /// Executing instructions.
    Running,
    /// Stopped by a fault.
    Halted,
}

/// The machine as a mathematical value: everything that a cycle reads or
/// writes.
#[verifier::ext_equal]
pub struct Machine {
    pub state: PowerState,
    pub regs: RegistersView,
    pub mem: Seq<u8>,
    pub pixels: Seq<bool>,
    pub keys: Seq<bool>,
    pub rom: Seq<u8>,
}

/// The screen after an event was carried out on it.
pub open spec fn screen_after(pixels: Seq<bool>, event: EventView) -> Seq<bool> {
    match event {
        EventView::ClearScreen => blank(),
        EventView::Draw(request) => drawn(
            pixels,
            request.origin_x,
            request.origin_y,
            request.rows,
        ),
        _ => pixels,
    }
}

/// What one cycle makes of a running machine, and what it hands back.
///
/// The processor makes one step; on success the step's event is carried out
/// on the screen and handed back; on a fault the machine halts as it was
/// and the fault is handed back.
pub open spec fn cycle_spec(machine: Machine, random: u8) -> (Machine, Result<EventView, Fault>) {
    match step_spec(machine.regs, machine.mem, machine.pixels, machine.keys, random) {
        Ok(effect) => (
            Machine {
                state: PowerState::Running,
                regs: effect.regs,
                mem: effect.mem,
                pixels: screen_after(machine.pixels, effect.event),
                ..machine
            },
            Ok(effect.event),
        ),
        Err(fault) => (Machine { state: PowerState::Halted, ..machine }, Err(fault)),
    }
}

/// What powering on makes of a machine, and what it hands back.
///
/// Processor, memory and screen start afresh. Where the cartridge fits, it
/// is loaded and the first cycle runs; where it does not, the machine stays
/// powered off.
pub open spec fn power_on_spec(machine: Machine, random: u8) -> (
    Machine,
    Result<EventView, Fault>,
) {
    let fresh = Machine {
        state: PowerState::PoweredOff,
        regs: RegistersView::power_on(),
        mem: power_on_image(),
        pixels: blank(),
        ..machine
    };
    match load_at(power_on_image(), machine.rom) {
        Ok(loaded) => cycle_spec(
            Machine { state: PowerState::Running, mem: loaded, ..fresh },
            random,
        ),
        Err(fault) => (fresh, Err(fault)),
    }
}

/// What a call handed back, as a mathematical value.
pub open spec fn returned_view(returned: Result<Event, Fault>) -> Result<EventView, Fault> {
    match returned {
        Ok(event) => Ok(event@),
        Err(fault) => Err(fault),
    }
}

/// The machine: processor, memory, screen, keypad, cartridge and cycle
/// counter. `last_cycle` is a mark for the driver's use: it starts at zero
/// and no operation here writes it.
#[derive(Clone, Debug)]
pub struct Computer {
    pub clock: Clock,
    pub cpu: Chip8,
    pub memory: Memory,
    pub display: Display,
    pub keyboard: Keyboard,
    pub cartridge: Cartridge,
    pub last_cycle: u128,
    pub state: PowerState,
}

impl View for Computer {
    type V = Machine;

    open spec fn view(&self) -> Machine {
        Machine {
            state: self.state,
            regs: self.cpu@,
            mem: self.memory@,
            pixels: self.display@,
            keys: self.keyboard@,
            rom: self.cartridge.rom@,
        }
    }
}

impl Computer {
    /// Every part is well formed.
    ///
    /// No operation needs this to hold, and none breaks it.
    pub open spec fn wf(&self) -> bool {
        &&& self.clock.wf()
        &&& self.cpu.wf()
        &&& self.memory.wf()
    }

    /// Builds a machine that is powered off, with the cartridge in its slot.
    pub fn new(cartridge: Cartridge) -> (computer: Self)
        ensures
            computer.wf(),
            computer.cpu.registers == Registers::power_on(),
            computer.memory == Memory::power_on(),
            computer.display == Display::cleared(),
            computer.keyboard == Keyboard::all_up(),
            computer.cpu.registers.is_power_on(),
            computer.cartridge == cartridge,
            computer@ == (Machine {
                state: PowerState::PoweredOff,
                regs: RegistersView::power_on(),
                mem: power_on_image(),
                pixels: blank(),
                keys: Seq::new(16, |c: int| false),
                rom: cartridge.rom@,
            }),
            computer.clock.cycles == 0,
            computer.clock.seconds == 0,
            computer.last_cycle == 0,
    {
        Computer {
            clock: Clock::new(),
            cpu: Chip8::new(),
            memory: Memory::new(),
            display: Display::new(),
            keyboard: Keyboard::new(),
            cartridge,
            last_cycle: 0,
            state: PowerState::PoweredOff,
        }
    }

    /// Runs one step of the processor and carries out its event on the
    /// screen; a fault halts the machine.
    fn cycle(&mut self) -> (r: Result<Event, Fault>)
        ensures
            old(self).cpu.wf() ==> final(self).cpu.wf(),
            final(self).cpu.registers.keeps_rest_of(&old(self).cpu.registers),
            r is Err ==> {
                &&& final(self).cpu == old(self).cpu
                &&& final(self).memory == old(self).memory
                &&& final(self).display == old(self).display
            },
            final(self).memory.wf() == old(self).memory.wf(),
            final(self).clock == old(self).clock,
            final(self).cartridge == old(self).cartridge,
            final(self).keyboard == old(self).keyboard,
            final(self).last_cycle == old(self).last_cycle,
            exists|random: u8|
                (final(self)@, returned_view(r)) == #[trigger] cycle_spec(old(self)@, random),
    {
        let stepped = self.cpu.run(&mut self.memory, &self.display, &self.keyboard);
        let ghost random: u8 = choose|random: u8|
            agrees(
                #[trigger] step_spec(
                    old(self).cpu@,
                    old(self).memory@,
                    old(self).display@,
                    old(self).keyboard@,
                    random,
                ),
                stepped,
                old(self).cpu@,
                old(self).memory@,
                self.cpu@,
                self.memory@,
            );
        match &stepped {
            Ok(Event::ClearScreen) => {
                self.display.clear();
                self.state = PowerState::Running;
            },
            Ok(Event::Draw(request)) => {
                self.display.draw(request);
                self.state = PowerState::Running;
            },
            Ok(_) => {
                self.state = PowerState::Running;
            },
            Err(_) => {
                self.state = PowerState::Halted;
            },
        }
        assert(self@ =~= cycle_spec(old(self)@, random).0);
        assert((self@, returned_view(stepped)) == cycle_spec(old(self)@, random));
        stepped
    }

    /// Powers the machine on.
    ///
    /// Processor, memory and screen are put into their power-on state and
    /// the cartridge is loaded. Where it does not fit, the machine stays
    /// powered off and `ImageTooLarge` comes back. Otherwise the machine is
    /// running, its first cycle is run and counted, and what that cycle
    /// gave comes back.
    pub fn power_on(&mut self) -> (r: Result<Event, Fault>)
        requires
            old(self).clock.cycles < u128::MAX,
        ensures
            final(self).cpu.wf(),
            final(self).memory.wf(),
            old(self).clock.wf() ==> final(self).wf(),
            final(self).last_cycle == old(self).last_cycle,
            final(self).cartridge == old(self).cartridge,
            final(self).keyboard == old(self).keyboard,
            exists|random: u8|
                (final(self)@, returned_view(r)) == #[trigger] power_on_spec(old(self)@, random),
            final(self).cpu.registers.sp == final(self)@.regs.stack.len(),
            forall|k: int|
                #![auto]
                final(self)@.regs.stack.len() <= k < STACK_DEPTH
                    ==> final(self).cpu.registers.stack@[k] == 0,
            final(self).clock.seconds == old(self).clock.seconds,
            final(self).clock.last_second_update == old(self).clock.last_second_update,
            final(self).clock.cycles == if load_at(
                power_on_image(),
                old(self).cartridge.rom@,
            ) is Ok {
                old(self).clock.cycles + 1
            } else {
                old(self).clock.cycles as int
            },
    {
        self.memory.reset();
        self.cpu.reset();
        self.display.clear();
        self.state = PowerState::PoweredOff;
        let rom = self.cartridge.rom.clone();
        match self.memory.load_rom(rom) {
            Ok(()) => {},
            Err(fault) => {
                assert(self@ =~= power_on_spec(old(self)@, 0u8).0);
                assert((self@, returned_view(Err::<Event, Fault>(fault))) == power_on_spec(
                    old(self)@,
                    0u8,
                ));
                return Err(fault);
            },
        }
        self.state = PowerState::Running;
        let ghost loaded = self@;
        let r = self.cycle();
        self.clock.first_run();
        proof {
            let random: u8 = choose|random: u8|
                (self@, returned_view(r)) == #[trigger] cycle_spec(loaded, random);
            assert((self@, returned_view(r)) == power_on_spec(old(self)@, random));
        }
        r
    }

    /// Runs one cycle of a running machine: the clock counts it, the
    /// processor makes one step, and the step's event is carried out on the
    /// screen and handed back. A fault halts the machine and is handed
    /// back.
    ///
    /// A machine that is powered off or halted does nothing and returns
    /// `Event::Nothing`.
    pub fn run(&mut self) -> (r: Result<Event, Fault>)
        requires
            old(self).state == PowerState::Running ==> {
                &&& old(self).clock.cycles < u128::MAX
                &&& old(self).clock.seconds < u128::MAX
            },
        ensures
            old(self).clock.wf() ==> final(self).clock.wf(),
            old(self).wf() ==> final(self).wf(),
            final(self).last_cycle == old(self).last_cycle,
            final(self).cartridge == old(self).cartridge,
            final(self).keyboard == old(self).keyboard,
            final(self).cpu.registers.keeps_rest_of(&old(self).cpu.registers),
            r is Err ==> {
                &&& final(self).cpu == old(self).cpu
                &&& final(self).memory == old(self).memory
                &&& final(self).display == old(self).display
            },
            old(self).state != PowerState::Running ==> {
                &&& *final(self) == *old(self)
                &&& returned_view(r) == Ok::<EventView, Fault>(EventView::Nothing)
            },
            old(self).state == PowerState::Running ==> {
                &&& exists|random: u8|
                    (final(self)@, returned_view(r)) == #[trigger] cycle_spec(old(self)@, random)
                &&& final(self).clock.cycles == old(self).clock.cycles + 1
                &&& final(self).clock.seconds == old(self).clock.seconds + 1 || {
                    &&& final(self).clock.seconds == old(self).clock.seconds
                    &&& final(self).clock.last_second_update
                        == old(self).clock.last_second_update
                }
            },
    {
        match self.state {
            PowerState::Running => {
                self.clock.run();
                let ghost counted = self@;
                let r = self.cycle();
                proof {
                    let random: u8 = choose|random: u8|
                        (self@, returned_view(r)) == #[trigger] cycle_spec(counted, random);
                    assert((self@, returned_view(r)) == cycle_spec(old(self)@, random));
                }
                r
            },
            _ => Ok(Event::Nothing),
        }
    }

    /// Counts both timers of a running machine down by one tick, stopping
    /// at zero, and returns whether the tone is on afterwards.
    ///
    /// A machine that is powered off or halted keeps its timers and is
    /// silent.
    pub fn decrement_timers(&mut self) -> (tone: bool)
        ensures
            final(self).wf() == old(self).wf(),
            final(self).clock == old(self).clock,
            final(self).last_cycle == old(self).last_cycle,
            final(self).cpu.registers.keeps_rest_of(&old(self).cpu.registers),
            old(self).state == PowerState::Running ==> {
                &&& final(self)@ == (Machine { regs: old(self)@.regs.tick(), ..old(self)@ })
                &&& tone == (final(self)@.regs.sound_timer > 0)
            },
            old(self).state != PowerState::Running ==> *final(self) == *old(self) && !tone,
    {
        match self.state {
            PowerState::Running => self.cpu.decrement_timers(),
            _ => false,
        }
    }
}

} // verus!
