use chip8_emulator::chip8::Chip8;
use chip8_emulator::decoder::Operation;
use chip8_emulator::display::{Display, DrawRequest};
use chip8_emulator::event::Event;
use chip8_emulator::fault::Fault;
use chip8_emulator::keyboard::Keyboard;
use chip8_emulator::memory::Memory;
use chip8_emulator::registers::Registers;

struct Rig {
    cpu: Chip8,
    memory: Memory,
    display: Display,
    keyboard: Keyboard,
}

impl Rig {
    fn new(program: &[u16]) -> Rig {
        let mut image = Vec::new();
        for word in program {
            image.push((word >> 8) as u8);
            image.push((word & 0xFF) as u8);
        }
        let mut memory = Memory::new();
        memory.load_rom(image).unwrap();
        Rig { cpu: Chip8::new(), memory, display: Display::new(), keyboard: Keyboard::new() }
    }

    fn step(&mut self) -> Result<Event, Fault> {
        self.cpu.run(&mut self.memory, &self.display, &self.keyboard)
    }

    fn steps(&mut self, n: usize) {
        for _ in 0..n {
            assert_eq!(self.step(), Ok(Event::Nothing));
        }
    }

    fn execute(&mut self, op: Operation) -> Result<Event, Fault> {
        self.cpu.execute(op, 0, &mut self.memory, &self.display, &self.keyboard)
    }

    fn v(&self, x: usize) -> u8 {
        self.cpu.registers.v[x]
    }

    fn flag(&self) -> u8 {
        self.cpu.registers.v[15]
    }

    fn pc(&self) -> u16 {
        self.cpu.registers.pc
    }
}

#[test]
fn chip8_new_is_power_on_state() {
    let cpu = Chip8::new();
    assert_eq!(cpu.registers, Registers::new());
}

#[test]
fn chip8_reset_restores_power_on_state() {
    let mut rig = Rig::new(&[0x60FF, 0xA123, 0x2300]);
    rig.steps(3);
    assert_ne!(rig.cpu.registers.v, [0u8; 16]);
    assert_ne!(rig.cpu.registers.stack, [0u16; 16]);
    rig.cpu.reset();
    // every field, the stack slots included
    assert_eq!(rig.cpu.registers, Registers::new());
    assert_eq!(rig.cpu, Chip8::new());
    rig.cpu.reset();
    assert_eq!(rig.cpu, Chip8::new());
}

#[test]
fn a_return_leaves_the_popped_slot_as_it_is() {
    let mut rig = Rig::new(&[]);
    rig.cpu.registers.pc = 0x20A;
    rig.execute(Operation::Call { addr: 0x300 }).unwrap();
    rig.execute(Operation::Call { addr: 0x400 }).unwrap();
    rig.execute(Operation::Return).unwrap();
    assert_eq!(rig.cpu.registers.sp, 1);
    assert_eq!(rig.cpu.registers.stack[0], 0x20A);
    assert_eq!(rig.cpu.registers.stack[1], 0x300);
    assert_eq!(&rig.cpu.registers.stack[2..], &[0u16; 14]);
}

#[test]
fn get_op_code_is_big_endian() {
    let rig = Rig::new(&[0x6A05]);
    assert_eq!(rig.cpu.get_op_code(&rig.memory), Ok(0x6A05));
}

#[test]
fn get_op_code_needs_both_bytes_in_memory() {
    let mut rig = Rig::new(&[]);
    rig.memory.write(4094, 0x12).unwrap();
    rig.memory.write(4095, 0x34).unwrap();
    rig.cpu.registers.pc = 4094;
    assert_eq!(rig.cpu.get_op_code(&rig.memory), Ok(0x1234));
    rig.cpu.registers.pc = 4095;
    assert_eq!(rig.cpu.get_op_code(&rig.memory), Err(Fault::OutOfBounds));
    rig.cpu.registers.pc = 4096;
    assert_eq!(rig.cpu.get_op_code(&rig.memory), Err(Fault::OutOfBounds));
}

#[test]
fn load_byte_then_add_byte() {
    let mut rig = Rig::new(&[0x6005, 0x7003]);
    rig.steps(2);
    assert_eq!(rig.v(0), 0x08);
    assert_eq!(rig.pc(), 0x204);
}

#[test]
fn add_byte_wraps_and_leaves_the_flag() {
    let mut rig = Rig::new(&[0x60FF, 0x7002]);
    rig.steps(2);
    assert_eq!(rig.v(0), 0x01);
    assert_eq!(rig.flag(), 0);
}

#[test]
fn move_or_and_xor() {
    let mut rig = Rig::new(&[0x60CA, 0x61AC, 0x8210, 0x8301, 0x8311, 0x8402, 0x8412, 0x8503, 0x8513]);
    rig.steps(3);
    assert_eq!(rig.v(2), 0xAC);
    rig.cpu.registers.v[3] = 0xCA;
    rig.cpu.registers.v[4] = 0xCA;
    rig.cpu.registers.v[5] = 0xCA;
    rig.cpu.registers.pc = 0x208;
    rig.steps(1);
    assert_eq!(rig.v(3), 0xCA | 0xAC);
    rig.cpu.registers.pc = 0x20C;
    rig.steps(1);
    assert_eq!(rig.v(4), 0xCA & 0xAC);
    rig.cpu.registers.pc = 0x210;
    rig.steps(1);
    assert_eq!(rig.v(5), 0xCA ^ 0xAC);
    assert_eq!(rig.flag(), 0);
}

#[test]
fn add_with_carry() {
    let mut rig = Rig::new(&[0x60FF, 0x6101, 0x8014]);
    rig.steps(3);
    assert_eq!(rig.v(0), 0x00);
    assert_eq!(rig.flag(), 1);
}

#[test]
fn add_without_carry() {
    let mut rig = Rig::new(&[0x6001, 0x6101, 0x8014]);
    rig.steps(3);
    assert_eq!(rig.v(0), 0x02);
    assert_eq!(rig.flag(), 0);
}

#[test]
fn add_clears_a_flag_that_was_set() {
    let mut rig = Rig::new(&[0x6F01, 0x6001, 0x6101, 0x8014]);
    rig.steps(4);
    assert_eq!(rig.v(0), 0x02);
    assert_eq!(rig.flag(), 0);
}

#[test]
fn add_at_the_edge_of_carry() {
    let mut rig = Rig::new(&[0x60FE, 0x6101, 0x8014, 0x8014]);
    rig.steps(3);
    assert_eq!((rig.v(0), rig.flag()), (0xFF, 0));
    rig.steps(1);
    assert_eq!((rig.v(0), rig.flag()), (0x00, 1));
}

#[test]
fn add_into_the_flag_register_writes_the_flag_first() {
    let mut rig = Rig::new(&[0x6FFF, 0x6101, 0x8F14]);
    rig.steps(3);
    // carry 1 goes into VF, then VF + V1 = 2 is the result
    assert_eq!(rig.flag(), 2);
}

#[test]
fn sub_with_borrow() {
    let mut rig = Rig::new(&[0x6001, 0x6102, 0x8015]);
    rig.steps(3);
    assert_eq!(rig.v(0), 0xFF);
    assert_eq!(rig.flag(), 0);
}

#[test]
fn sub_without_borrow() {
    let mut rig = Rig::new(&[0x6002, 0x6101, 0x8015]);
    rig.steps(3);
    assert_eq!(rig.v(0), 0x01);
    assert_eq!(rig.flag(), 1);
}

#[test]
fn sub_of_equals_does_not_borrow() {
    let mut rig = Rig::new(&[0x6005, 0x6105, 0x8015]);
    rig.steps(3);
    assert_eq!(rig.v(0), 0x00);
    assert_eq!(rig.flag(), 1);
}

#[test]
fn sub_reverse() {
    let mut rig = Rig::new(&[0x6001, 0x6102, 0x8017]);
    rig.steps(3);
    assert_eq!((rig.v(0), rig.flag()), (0x01, 1));
    let mut rig = Rig::new(&[0x6002, 0x6101, 0x8017]);
    rig.steps(3);
    assert_eq!((rig.v(0), rig.flag()), (0xFF, 0));
    let mut rig = Rig::new(&[0x6007, 0x6107, 0x8017]);
    rig.steps(3);
    assert_eq!((rig.v(0), rig.flag()), (0x00, 1));
}

#[test]
fn shift_right_moves_the_low_bit_into_the_flag() {
    let mut rig = Rig::new(&[0x6005, 0x8006]);
    rig.steps(2);
    assert_eq!((rig.v(0), rig.flag()), (0x02, 1));
    let mut rig = Rig::new(&[0x6004, 0x8006]);
    rig.steps(2);
    assert_eq!((rig.v(0), rig.flag()), (0x02, 0));
}

#[test]
fn shift_left_moves_the_high_bit_into_the_flag() {
    let mut rig = Rig::new(&[0x6081, 0x800E]);
    rig.steps(2);
    assert_eq!((rig.v(0), rig.flag()), (0x02, 1));
    let mut rig = Rig::new(&[0x6041, 0x800E]);
    rig.steps(2);
    assert_eq!((rig.v(0), rig.flag()), (0x82, 0));
}

#[test]
fn skip_equal_byte_taken_advances_by_four() {
    let mut rig = Rig::new(&[0x6042, 0x3042]);
    rig.steps(1);
    let before = rig.pc();
    rig.steps(1);
    assert_eq!(rig.pc(), before + 4);
    assert_eq!(rig.pc(), 0x206);
}

#[test]
fn skip_equal_byte_not_taken_advances_by_two() {
    let mut rig = Rig::new(&[0x6042, 0x3043]);
    rig.steps(2);
    assert_eq!(rig.pc(), 0x204);
}

#[test]
fn skip_not_equal_byte() {
    let mut rig = Rig::new(&[0x6042, 0x4043]);
    rig.steps(2);
    assert_eq!(rig.pc(), 0x206);
    let mut rig = Rig::new(&[0x6042, 0x4042]);
    rig.steps(2);
    assert_eq!(rig.pc(), 0x204);
}

#[test]
fn skip_equal_and_not_equal_registers() {
    let mut rig = Rig::new(&[0x6007, 0x6107, 0x5010]);
    rig.steps(3);
    assert_eq!(rig.pc(), 0x208);
    let mut rig = Rig::new(&[0x6007, 0x6108, 0x5010]);
    rig.steps(3);
    assert_eq!(rig.pc(), 0x206);
    let mut rig = Rig::new(&[0x6007, 0x6108, 0x9010]);
    rig.steps(3);
    assert_eq!(rig.pc(), 0x208);
    let mut rig = Rig::new(&[0x6007, 0x6107, 0x9010]);
    rig.steps(3);
    assert_eq!(rig.pc(), 0x206);
}

#[test]
fn skip_past_the_end_of_memory_faults() {
    let mut rig = Rig::new(&[]);
    rig.memory.write(4094, 0x30).unwrap();
    rig.memory.write(4095, 0x00).unwrap();
    rig.cpu.registers.pc = 4094;
    let before = rig.cpu;
    assert_eq!(rig.step(), Err(Fault::OutOfBounds));
    assert_eq!(rig.cpu, before);
    // not taken, the same instruction ends one past the last byte
    rig.cpu.registers.v[0] = 1;
    assert_eq!(rig.step(), Ok(Event::Nothing));
    assert_eq!(rig.pc(), 4096);
    assert_eq!(rig.step(), Err(Fault::OutOfBounds));
    assert_eq!(rig.pc(), 4096);
}

#[test]
fn jump_sets_the_program_counter() {
    let mut rig = Rig::new(&[0x1ABC]);
    rig.steps(1);
    assert_eq!(rig.pc(), 0xABC);
}

#[test]
fn call_and_return_round_trip() {
    let mut program = vec![0u16; 0x81];
    program[0] = 0x2300;
    program[0x80] = 0x00EE;
    let mut rig = Rig::new(&program);
    assert_eq!(rig.pc(), 0x200);
    rig.steps(1);
    assert_eq!(rig.pc(), 0x300);
    assert_eq!(rig.cpu.registers.sp, 1);
    assert_eq!(rig.cpu.registers.stack[0], 0x202);
    rig.steps(1);
    assert_eq!(rig.pc(), 0x202);
    assert_eq!(rig.cpu.registers.sp, 0);
}

#[test]
fn call_and_return_restore_everything_but_scratch_slots() {
    let mut rig = Rig::new(&[]);
    rig.cpu.registers.v = [1, 2, 3, 4, 5, 6, 7, 8, 9, 10, 11, 12, 13, 14, 15, 16];
    rig.cpu.registers.i = 0x456;
    rig.cpu.registers.pc = 0x20A;
    rig.cpu.registers.delay_timer = 3;
    let before = rig.cpu.registers;
    assert_eq!(rig.execute(Operation::Call { addr: 0x300 }), Ok(Event::Nothing));
    assert_eq!(rig.execute(Operation::Return), Ok(Event::Nothing));
    let mut after = rig.cpu.registers;
    assert_eq!(after.stack[0], 0x20A);
    after.stack[0] = 0;
    assert_eq!(after, before);
}

#[test]
fn nested_calls_overflow_the_stack_at_seventeen() {
    let mut rig = Rig::new(&[0x2200]);
    for depth in 1..=16u8 {
        assert_eq!(rig.step(), Ok(Event::Nothing));
        assert_eq!(rig.cpu.registers.sp, depth);
    }
    let before = rig.cpu;
    assert_eq!(rig.step(), Err(Fault::StackOverflow));
    assert_eq!(rig.cpu, before);
}

#[test]
fn return_on_an_empty_stack_underflows() {
    let mut rig = Rig::new(&[0x00EE]);
    let before = rig.cpu;
    assert_eq!(rig.step(), Err(Fault::StackUnderflow));
    assert_eq!(rig.cpu, before);
    assert_eq!(rig.pc(), 0x200);
}

#[test]
fn return_to_an_address_outside_memory_faults() {
    let mut rig = Rig::new(&[0x00EE]);
    rig.cpu.registers.push_return(0x2000).unwrap();
    let before = rig.cpu;
    assert_eq!(rig.step(), Err(Fault::OutOfBounds));
    assert_eq!(rig.cpu, before);
}

#[test]
fn load_index() {
    let mut rig = Rig::new(&[0xA2F0]);
    rig.steps(1);
    assert_eq!(rig.cpu.registers.i, 0x2F0);
}

#[test]
fn jump_offset_adds_register_zero() {
    let mut rig = Rig::new(&[0x6004, 0xB300]);
    rig.steps(2);
    assert_eq!(rig.pc(), 0x304);
}

#[test]
fn jump_offset_outside_memory_faults() {
    let mut rig = Rig::new(&[0x60FF, 0xBFFF]);
    rig.steps(1);
    let before = rig.cpu;
    assert_eq!(rig.step(), Err(Fault::OutOfBounds));
    assert_eq!(rig.cpu, before);
    assert_eq!(rig.pc(), 0x202);
}

#[test]
fn jump_offset_may_land_one_past_the_last_byte() {
    let mut rig = Rig::new(&[0x6001, 0xBFFF]);
    rig.steps(2);
    assert_eq!(rig.pc(), 4096);
    assert_eq!(rig.step(), Err(Fault::OutOfBounds));
}

#[test]
fn random_is_masked_by_the_immediate() {
    let mut rig = Rig::new(&[0xC30F, 0x1200]);
    for _ in 0..200 {
        rig.steps(2);
        assert_eq!(rig.v(3) & 0xF0, 0);
    }
    let mut rig = Rig::new(&[0x63FF, 0xC300]);
    rig.steps(2);
    assert_eq!(rig.v(3), 0);
}

#[test]
fn random_takes_the_byte_it_is_given() {
    let mut rig = Rig::new(&[]);
    let r = rig.cpu.execute(
        Operation::Random { x: 2, kk: 0x3C },
        0xA5,
        &mut rig.memory,
        &rig.display,
        &rig.keyboard,
    );
    assert_eq!(r, Ok(Event::Nothing));
    assert_eq!(rig.v(2), 0xA5 & 0x3C);
}

#[test]
fn random_draws_more_than_one_value() {
    let mut rig = Rig::new(&[0xC0FF, 0x1200]);
    let mut seen = std::collections::HashSet::new();
    for _ in 0..400 {
        rig.steps(2);
        seen.insert(rig.v(0));
    }
    assert!(seen.len() > 1);
}

#[test]
fn other_instructions_ignore_the_random_byte() {
    let mut a = Rig::new(&[]);
    let mut b = Rig::new(&[]);
    let op = Operation::AddByte { x: 1, kk: 9 };
    a.cpu.execute(op, 0x00, &mut a.memory, &a.display, &a.keyboard).unwrap();
    b.cpu.execute(op, 0xFF, &mut b.memory, &b.display, &b.keyboard).unwrap();
    assert_eq!(a.cpu, b.cpu);
    assert_eq!(a.memory, b.memory);
}

#[test]
fn load_glyph_points_at_five_bytes_per_digit() {
    let mut rig = Rig::new(&[0x600A, 0xF029]);
    rig.steps(2);
    assert_eq!(rig.cpu.registers.i, 50);
    let mut rig = Rig::new(&[0x6000, 0xF029]);
    rig.steps(2);
    assert_eq!(rig.cpu.registers.i, 0);
    let mut rig = Rig::new(&[0x600F, 0xF029]);
    rig.steps(2);
    assert_eq!(rig.cpu.registers.i, 75);
}

#[test]
fn add_index() {
    let mut rig = Rig::new(&[0xAFFF, 0x60FF, 0xF01E]);
    rig.steps(3);
    assert_eq!(rig.cpu.registers.i, 0x10FE);
    assert_eq!(rig.flag(), 0);
}

#[test]
fn add_index_wraps_at_sixteen_bits() {
    let mut rig = Rig::new(&[0x6002, 0xF01E]);
    rig.cpu.registers.i = 0xFFFF;
    rig.steps(2);
    assert_eq!(rig.cpu.registers.i, 0x0001);
}

#[test]
fn store_bcd() {
    let mut rig = Rig::new(&[0x60FE, 0xA300, 0xF033]);
    rig.steps(3);
    assert_eq!(rig.memory.read(0x300), Ok(2));
    assert_eq!(rig.memory.read(0x301), Ok(5));
    assert_eq!(rig.memory.read(0x302), Ok(4));
    assert_eq!(rig.memory.read(0x303), Ok(0));
    assert_eq!(rig.cpu.registers.i, 0x300);
}

#[test]
fn store_bcd_of_small_values() {
    let mut rig = Rig::new(&[0x6007, 0xA300, 0xF033, 0x602A, 0xA310, 0xF033, 0x6000, 0xA320, 0xF033]);
    rig.memory.write(0x320, 9).unwrap();
    rig.steps(9);
    let at = |a: u16| rig.memory.read(a).unwrap();
    assert_eq!((at(0x300), at(0x301), at(0x302)), (0, 0, 7));
    assert_eq!((at(0x310), at(0x311), at(0x312)), (0, 4, 2));
    assert_eq!((at(0x320), at(0x321), at(0x322)), (0, 0, 0));
}

#[test]
fn store_bcd_into_the_reserved_region_faults() {
    let mut rig = Rig::new(&[0x60FE, 0xA1FF, 0xF033]);
    rig.steps(2);
    let cpu = rig.cpu;
    let memory = rig.memory.clone();
    assert_eq!(rig.step(), Err(Fault::ProtectedRegionFault));
    assert_eq!(rig.cpu, cpu);
    assert_eq!(rig.memory, memory);
}

#[test]
fn store_bcd_past_the_end_of_memory_stores_nothing() {
    let mut rig = Rig::new(&[0x60FE, 0xAFFE, 0xF033]);
    rig.steps(2);
    let memory = rig.memory.clone();
    assert_eq!(rig.step(), Err(Fault::OutOfBounds));
    assert_eq!(rig.memory, memory);
    assert_eq!(rig.pc(), 0x204);
}

#[test]
fn store_and_load_registers_round_trip() {
    let mut rig = Rig::new(&[0x6011, 0x6122, 0x6233, 0x6344, 0x6455, 0xA300, 0xF355]);
    rig.steps(7);
    assert_eq!(rig.memory.read(0x300), Ok(0x11));
    assert_eq!(rig.memory.read(0x301), Ok(0x22));
    assert_eq!(rig.memory.read(0x302), Ok(0x33));
    assert_eq!(rig.memory.read(0x303), Ok(0x44));
    // register 4 lies beyond x and is not stored
    assert_eq!(rig.memory.read(0x304), Ok(0x00));
    assert_eq!(rig.cpu.registers.i, 0x300);

    let mut zeroed = Chip8::new();
    zeroed.registers.i = 0x300;
    let r = zeroed.execute(
        Operation::LoadRegisters { x: 3 },
        0,
        &mut rig.memory,
        &rig.display,
        &rig.keyboard,
    );
    assert_eq!(r, Ok(Event::Nothing));
    assert_eq!(&zeroed.registers.v[..4], &[0x11, 0x22, 0x33, 0x44]);
    assert_eq!(&zeroed.registers.v[4..], &[0u8; 12]);
    assert_eq!(zeroed.registers.i, 0x300);
}

#[test]
fn store_all_sixteen_registers() {
    let mut rig = Rig::new(&[0xA400, 0xFF55, 0xFF65]);
    rig.cpu.registers.v = [1, 2, 3, 4, 5, 6, 7, 8, 9, 10, 11, 12, 13, 14, 15, 16];
    rig.steps(2);
    for k in 0..16u16 {
        assert_eq!(rig.memory.read(0x400 + k), Ok(k as u8 + 1));
    }
    assert_eq!(rig.memory.read(0x410), Ok(0));
    rig.cpu.registers.v = [0; 16];
    rig.steps(1);
    assert_eq!(rig.cpu.registers.v, [1, 2, 3, 4, 5, 6, 7, 8, 9, 10, 11, 12, 13, 14, 15, 16]);
}

#[test]
fn store_registers_into_the_reserved_region_faults() {
    let mut rig = Rig::new(&[0xA000, 0xF055]);
    rig.steps(1);
    let cpu = rig.cpu;
    let memory = rig.memory.clone();
    assert_eq!(rig.step(), Err(Fault::ProtectedRegionFault));
    assert_eq!(rig.cpu, cpu);
    assert_eq!(rig.memory, memory);
}

#[test]
fn store_registers_past_the_end_of_memory_stores_nothing() {
    let mut rig = Rig::new(&[0x6011, 0xAFFE, 0xF355]);
    rig.steps(2);
    let memory = rig.memory.clone();
    assert_eq!(rig.step(), Err(Fault::OutOfBounds));
    assert_eq!(rig.memory, memory);
}

#[test]
fn store_registers_up_to_the_last_byte() {
    let mut rig = Rig::new(&[0x6011, 0x6122, 0xAFFE, 0xF155]);
    rig.steps(4);
    assert_eq!(rig.memory.read(0xFFE), Ok(0x11));
    assert_eq!(rig.memory.read(0xFFF), Ok(0x22));
}

#[test]
fn load_registers_may_read_the_reserved_region() {
    let mut rig = Rig::new(&[0xA000, 0xF465]);
    rig.steps(2);
    assert_eq!(&rig.cpu.registers.v[..5], &[0xF0, 0x90, 0x90, 0x90, 0xF0]);
}

#[test]
fn load_registers_past_the_end_of_memory_faults() {
    let mut rig = Rig::new(&[0xAFFF, 0xF165]);
    rig.steps(1);
    let cpu = rig.cpu;
    assert_eq!(rig.step(), Err(Fault::OutOfBounds));
    assert_eq!(rig.cpu, cpu);
}

#[test]
fn timers_set_and_read() {
    let mut rig = Rig::new(&[0x603C, 0xF015, 0xF107]);
    rig.steps(2);
    assert_eq!(rig.cpu.registers.delay_timer, 60);
    assert_eq!(rig.cpu.decrement_timers(), false);
    rig.steps(1);
    assert_eq!(rig.v(1), 59);
}

#[test]
fn set_sound_switches_the_tone() {
    let mut rig = Rig::new(&[0x6002, 0xF018, 0x6000, 0xF018]);
    rig.steps(1);
    assert_eq!(rig.step(), Ok(Event::Tone { on: true }));
    assert_eq!(rig.cpu.registers.sound_timer, 2);
    assert_eq!(rig.cpu.decrement_timers(), true);
    assert_eq!(rig.cpu.decrement_timers(), false);
    assert_eq!(rig.cpu.decrement_timers(), false);
    assert_eq!(rig.cpu.registers.sound_timer, 0);
    rig.steps(1);
    assert_eq!(rig.step(), Ok(Event::Tone { on: false }));
}

#[test]
fn steps_do_not_count_the_timers_down() {
    let mut rig = Rig::new(&[0x6005, 0xF015, 0x6100, 0x6100, 0x6100]);
    rig.steps(5);
    assert_eq!(rig.cpu.registers.delay_timer, 5);
}

#[test]
fn clear_screen_is_an_event() {
    let mut rig = Rig::new(&[0x00E0]);
    let cpu = rig.cpu;
    assert_eq!(rig.step(), Ok(Event::ClearScreen));
    assert_eq!(rig.pc(), 0x202);
    assert_eq!(rig.cpu.registers.v, cpu.registers.v);
}

#[test]
fn sys_is_ignored() {
    let mut rig = Rig::new(&[0x0123]);
    assert_eq!(rig.step(), Ok(Event::Nothing));
    assert_eq!(rig.pc(), 0x202);
}

#[test]
fn unknown_opcode_is_reported_and_changes_nothing() {
    let mut rig = Rig::new(&[0x6107, 0x8008, 0x6209]);
    rig.steps(1);
    let mut expected = rig.cpu;
    let memory = rig.memory.clone();
    assert_eq!(rig.step(), Ok(Event::UnknownOpcode { word: 0x8008 }));
    expected.registers.pc = 0x204;
    assert_eq!(rig.cpu, expected);
    assert_eq!(rig.memory, memory);
    // execution goes on
    rig.steps(1);
    assert_eq!(rig.v(2), 9);
}

#[test]
fn executing_unknown_leaves_even_the_program_counter() {
    let mut rig = Rig::new(&[]);
    rig.cpu.registers.v[4] = 4;
    let cpu = rig.cpu;
    let memory = rig.memory.clone();
    assert_eq!(
        rig.execute(Operation::Unknown { word: 0xFFFF }),
        Ok(Event::UnknownOpcode { word: 0xFFFF })
    );
    assert_eq!(rig.cpu, cpu);
    assert_eq!(rig.memory, memory);
}

#[test]
fn draw_hands_out_the_sprite_rows() {
    let mut rig = Rig::new(&[0x600A, 0x6105, 0xA000, 0xD015]);
    rig.steps(3);
    assert_eq!(
        rig.step(),
        Ok(Event::Draw(DrawRequest {
            origin_x: 10,
            origin_y: 5,
            rows: vec![0xF0, 0x90, 0x90, 0x90, 0xF0],
        }))
    );
    assert_eq!(rig.flag(), 0);
    // the processor does not draw
    assert_eq!(rig.display, Display::new());
}

#[test]
fn draw_sets_the_flag_on_collision() {
    let mut rig = Rig::new(&[0x6F00, 0xA000, 0xD005, 0xD005]);
    rig.display.draw(&DrawRequest { origin_x: 3, origin_y: 4, rows: vec![0x80] });
    rig.steps(2);
    // (3, 4) is not under the glyph at (0, 0): its row 4 is 0xF0
    assert!(matches!(rig.step(), Ok(Event::Draw(_))));
    assert_eq!(rig.flag(), 1);
    rig.display = Display::new();
    assert!(matches!(rig.step(), Ok(Event::Draw(_))));
    assert_eq!(rig.flag(), 0);
}

#[test]
fn draw_clears_the_flag_without_collision() {
    let mut rig = Rig::new(&[0x6F01, 0xA000, 0xD005]);
    rig.steps(2);
    assert!(matches!(rig.step(), Ok(Event::Draw(_))));
    assert_eq!(rig.flag(), 0);
}

#[test]
fn draw_of_zero_rows() {
    let mut rig = Rig::new(&[0xAFFF, 0xD000]);
    rig.steps(1);
    assert_eq!(
        rig.step(),
        Ok(Event::Draw(DrawRequest { origin_x: 0, origin_y: 0, rows: vec![] }))
    );
    assert_eq!(rig.flag(), 0);
}

#[test]
fn draw_reading_past_the_end_of_memory_faults() {
    let mut rig = Rig::new(&[0xAFFF, 0xD002]);
    rig.steps(1);
    let cpu = rig.cpu;
    assert_eq!(rig.step(), Err(Fault::OutOfBounds));
    assert_eq!(rig.cpu, cpu);
    let mut rig = Rig::new(&[0xAFFF, 0xD001]);
    rig.steps(1);
    assert_eq!(
        rig.step(),
        Ok(Event::Draw(DrawRequest { origin_x: 0, origin_y: 0, rows: vec![0x00] }))
    );
}

#[test]
fn skip_key_down_and_up() {
    let mut rig = Rig::new(&[0x6005, 0xE09E]);
    rig.keyboard.set_key(5, true);
    rig.steps(2);
    assert_eq!(rig.pc(), 0x206);
    let mut rig = Rig::new(&[0x6005, 0xE09E]);
    rig.keyboard.set_key(4, true);
    rig.steps(2);
    assert_eq!(rig.pc(), 0x204);
    let mut rig = Rig::new(&[0x6005, 0xE0A1]);
    rig.keyboard.set_key(5, true);
    rig.steps(2);
    assert_eq!(rig.pc(), 0x204);
    let mut rig = Rig::new(&[0x6005, 0xE0A1]);
    rig.steps(2);
    assert_eq!(rig.pc(), 0x206);
}

#[test]
fn a_value_that_names_no_key_is_never_down() {
    let mut rig = Rig::new(&[0x6015, 0xE09E, 0xE0A1]);
    for code in 0..16 {
        rig.keyboard.set_key(code, true);
    }
    rig.steps(2);
    assert_eq!(rig.pc(), 0x204);
    rig.steps(1);
    assert_eq!(rig.pc(), 0x208);
}

#[test]
fn wait_key_stays_on_the_instruction_until_a_key_is_down() {
    let mut rig = Rig::new(&[0xF30A, 0x6401]);
    let cpu = rig.cpu;
    for _ in 0..5 {
        assert_eq!(rig.step(), Ok(Event::WaitKey { x: 3 }));
        assert_eq!(rig.cpu, cpu);
        assert_eq!(rig.pc(), 0x200);
    }
    rig.keyboard.set_key(7, true);
    assert_eq!(rig.step(), Ok(Event::Nothing));
    assert_eq!(rig.v(3), 7);
    assert_eq!(rig.pc(), 0x202);
    rig.steps(1);
    assert_eq!(rig.v(4), 1);
}

#[test]
fn wait_key_takes_the_lowest_key_that_is_down() {
    let mut rig = Rig::new(&[0xF00A]);
    rig.keyboard.set_key(9, true);
    rig.keyboard.set_key(4, true);
    rig.steps(1);
    assert_eq!(rig.v(0), 4);
}

#[test]
fn fetch_outside_memory_faults() {
    let mut rig = Rig::new(&[0x1FFF]);
    rig.steps(1);
    assert_eq!(rig.pc(), 0xFFF);
    let cpu = rig.cpu;
    assert_eq!(rig.step(), Err(Fault::OutOfBounds));
    assert_eq!(rig.cpu, cpu);
}

#[test]
fn execute_op_code_decodes_and_executes() {
    let mut rig = Rig::new(&[]);
    let r = rig.cpu.execute_op_code(0x6A2B, &mut rig.memory, &rig.display, &rig.keyboard);
    assert_eq!(r, Ok(Event::Nothing));
    assert_eq!(rig.v(10), 0x2B);
    // the program counter is the caller's business
    assert_eq!(rig.pc(), 0x200);
    let r = rig.cpu.execute_op_code(0xE000, &mut rig.memory, &rig.display, &rig.keyboard);
    assert_eq!(r, Ok(Event::UnknownOpcode { word: 0xE000 }));
}

#[test]
fn end_to_end_load_add_jump() {
    let mut rig = Rig::new(&[0x6005, 0x7003, 0x1200]);
    rig.steps(3);
    assert_eq!(rig.v(0), 0x08);
    assert_eq!(rig.pc(), 0x200);
    // the jump goes back to the start, so every third step ends like this
    for _ in 0..10 {
        rig.steps(3);
        assert_eq!(rig.v(0), 0x08);
        assert_eq!(rig.pc(), 0x200);
    }
}

#[test]
fn end_to_end_with_a_self_jump() {
    let mut rig = Rig::new(&[0x6005, 0x7003, 0x1204]);
    rig.steps(3);
    for _ in 0..10 {
        assert_eq!(rig.v(0), 0x08);
        assert_eq!(rig.pc(), 0x204);
        rig.steps(1);
    }
}

#[test]
fn program_counter_stays_even_and_inside_memory() {
    let mut rig = Rig::new(&[0x6005, 0x3005, 0x0000, 0x2210, 0x1200, 0, 0, 0, 0x7001, 0x00EE]);
    for _ in 0..200 {
        assert!(rig.step().is_ok());
        assert_eq!(rig.pc() % 2, 0);
        assert!(rig.pc() <= 4096);
        assert!(rig.cpu.registers.sp <= 16);
    }
}

#[test]
fn reserved_region_survives_a_running_program() {
    let mut rig = Rig::new(&[0x60AA, 0xA200, 0xF055, 0xF033, 0x1200]);
    for _ in 0..50 {
        assert!(rig.step().is_ok());
    }
    let fresh = Memory::new();
    for a in 0..512u16 {
        assert_eq!(rig.memory.read(a), fresh.read(a));
    }
}

#[test]
fn load_glyph_and_draw_show_the_digit_four() {
    let mut rig = Rig::new(&[0x6004, 0xF029, 0xD005]);
    rig.steps(2);
    assert_eq!(rig.cpu.registers.i, 20);
    assert_eq!(
        rig.step(),
        Ok(Event::Draw(DrawRequest {
            origin_x: 4,
            origin_y: 4,
            rows: vec![0x90, 0x90, 0xF0, 0x10, 0x10],
        }))
    );
}
