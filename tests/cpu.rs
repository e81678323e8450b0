use chip8::cpu::{CpuError, CPU, FLAG, MAX_ROM_SIZE, MEMORY_SIZE, PROGRAM_START};
use chip8::display::{DISPLAY_WIDTH, PIXEL_ON};
use chip8::instruction::Instruction;
use chip8::keyboard::Keyboard;

fn machine(program: &[u16]) -> CPU {
    let mut cpu = CPU::new(Keyboard::new());
    let mut rom = Vec::new();
    for word in program {
        rom.push((word >> 8) as u8);
        rom.push((word & 0xFF) as u8);
    }
    assert_eq!(cpu.load_rom(&rom), Ok(()));
    cpu
}

fn run(cpu: &mut CPU, steps: usize) {
    for _ in 0..steps {
        assert_eq!(cpu.step(0), Ok(()));
    }
}

#[test]
fn new_machine_state() {
    let cpu = CPU::new(Keyboard::new());
    assert_eq!(cpu.program_counter, PROGRAM_START);
    assert_eq!(cpu.stack_pointer, 0);
    assert_eq!(cpu.registers, [0; 16]);
    assert_eq!(&cpu.heap[0..5], &[0xF0, 0x90, 0x90, 0x90, 0xF0]);
    assert_eq!(&cpu.heap[50..55], &[0xF0, 0x90, 0xF0, 0x90, 0x90]);
    assert_eq!(&cpu.heap[75..80], &[0xF0, 0x80, 0xF0, 0x80, 0x80]);
    assert!(cpu.heap[80..].iter().all(|&b| b == 0));
}

#[test]
fn add_xy_sets_carry() {
    let mut cpu = machine(&[0x6AFF, 0x6B02, 0x8AB4]);
    run(&mut cpu, 3);
    assert_eq!(cpu.registers[0xA], 0x01);
    assert_eq!(cpu.registers[FLAG], 1);

    let mut cpu = machine(&[0x6F01, 0x6A10, 0x6B20, 0x8AB4]);
    run(&mut cpu, 4);
    assert_eq!(cpu.registers[0xA], 0x30);
    assert_eq!(cpu.registers[FLAG], 0);
}

#[test]
fn sub_xy_sets_no_borrow() {
    let mut cpu = machine(&[0x6A05, 0x6B03, 0x8AB5]);
    run(&mut cpu, 3);
    assert_eq!(cpu.registers[0xA], 2);
    assert_eq!(cpu.registers[FLAG], 1);

    let mut cpu = machine(&[0x6A03, 0x6B05, 0x8AB5]);
    run(&mut cpu, 3);
    assert_eq!(cpu.registers[0xA], 0xFE);
    assert_eq!(cpu.registers[FLAG], 0);

    let mut cpu = machine(&[0x6A04, 0x6B04, 0x8AB5]);
    run(&mut cpu, 3);
    assert_eq!(cpu.registers[0xA], 0);
    assert_eq!(cpu.registers[FLAG], 0);
}

#[test]
fn subn_xy_sets_no_borrow() {
    let mut cpu = machine(&[0x6A03, 0x6B05, 0x8AB7]);
    run(&mut cpu, 3);
    assert_eq!(cpu.registers[0xA], 2);
    assert_eq!(cpu.registers[FLAG], 1);

    let mut cpu = machine(&[0x6A05, 0x6B03, 0x8AB7]);
    run(&mut cpu, 3);
    assert_eq!(cpu.registers[0xA], 0xFE);
    assert_eq!(cpu.registers[FLAG], 0);
}

#[test]
fn shifts_flag_bit_shifted_out() {
    let mut cpu = machine(&[0x6A05, 0x8A06]);
    run(&mut cpu, 2);
    assert_eq!(cpu.registers[0xA], 2);
    assert_eq!(cpu.registers[FLAG], 1);

    let mut cpu = machine(&[0x6A81, 0x8A0E]);
    run(&mut cpu, 2);
    assert_eq!(cpu.registers[0xA], 0x02);
    assert_eq!(cpu.registers[FLAG], 1);

    let mut cpu = machine(&[0x6F01, 0x6A40, 0x8A0E]);
    run(&mut cpu, 3);
    assert_eq!(cpu.registers[0xA], 0x80);
    assert_eq!(cpu.registers[FLAG], 0);
}

#[test]
fn logic_ops() {
    let mut cpu = machine(&[0x6A0C, 0x6B0A, 0x8AB1, 0x6C0C, 0x8CB2, 0x6D0C, 0x8DB3, 0x8EB0]);
    run(&mut cpu, 8);
    assert_eq!(cpu.registers[0xA], 0x0E);
    assert_eq!(cpu.registers[0xC], 0x08);
    assert_eq!(cpu.registers[0xD], 0x06);
    assert_eq!(cpu.registers[0xE], 0x0A);
}

#[test]
fn add_immediate_wraps_without_flag() {
    let mut cpu = machine(&[0x6F07, 0x6AFA, 0x7A0A]);
    run(&mut cpu, 3);
    assert_eq!(cpu.registers[0xA], 4);
    assert_eq!(cpu.registers[FLAG], 7);
}

#[test]
fn return_on_empty_stack_underflows() {
    let mut cpu = machine(&[0x00EE]);
    assert_eq!(cpu.step(0), Err(CpuError::StackUnderflow));
}

#[test]
fn seventeenth_call_overflows() {
    let mut cpu = machine(&[0x2200]);
    for depth in 1..=16 {
        assert_eq!(cpu.step(0), Ok(()));
        assert_eq!(cpu.stack_pointer, depth);
    }
    assert_eq!(cpu.step(0), Err(CpuError::StackOverflow));
}

#[test]
fn call_and_return() {
    let mut cpu = machine(&[0x2206, 0x0000, 0x0000, 0x00EE]);
    assert_eq!(cpu.step(0), Ok(()));
    assert_eq!(cpu.program_counter, 0x206);
    assert_eq!(cpu.stack[0], 0x202);
    assert_eq!(cpu.step(0), Ok(()));
    assert_eq!(cpu.program_counter, 0x202);
    assert_eq!(cpu.stack_pointer, 0);
}

#[test]
fn jumps() {
    let mut cpu = machine(&[0x1345]);
    run(&mut cpu, 1);
    assert_eq!(cpu.program_counter, 0x345);

    let mut cpu = machine(&[0x6002, 0xB300]);
    run(&mut cpu, 2);
    assert_eq!(cpu.program_counter, 0x302);
}

#[test]
fn skips() {
    let mut cpu = machine(&[0x6A05, 0x3A05]);
    run(&mut cpu, 2);
    assert_eq!(cpu.program_counter, 0x206);

    let mut cpu = machine(&[0x6A05, 0x4A05]);
    run(&mut cpu, 2);
    assert_eq!(cpu.program_counter, 0x204);

    let mut cpu = machine(&[0x6A05, 0x6B05, 0x5AB0]);
    run(&mut cpu, 3);
    assert_eq!(cpu.program_counter, 0x208);

    let mut cpu = machine(&[0x6A05, 0x6B06, 0x9AB0]);
    run(&mut cpu, 3);
    assert_eq!(cpu.program_counter, 0x208);

    let mut cpu = machine(&[0x6A05, 0x6B05, 0x9AB0]);
    run(&mut cpu, 3);
    assert_eq!(cpu.program_counter, 0x206);
}

#[test]
fn key_skips() {
    let mut cpu = machine(&[0x6A07, 0xEA9E, 0x0000, 0xEAA1]);
    cpu.keyboard.set_key(7, true);
    run(&mut cpu, 2);
    assert_eq!(cpu.program_counter, 0x206);
    run(&mut cpu, 1);
    assert_eq!(cpu.program_counter, 0x208);

    let mut cpu = machine(&[0x6A07, 0xEAA1]);
    run(&mut cpu, 2);
    assert_eq!(cpu.program_counter, 0x206);
}

#[test]
fn digit_sprite_address() {
    let mut cpu = machine(&[0x6A0A, 0xFA29]);
    run(&mut cpu, 2);
    assert_eq!(cpu.i_register, 50);

    let mut cpu = machine(&[0x6A1A, 0xFA29]);
    run(&mut cpu, 2);
    assert_eq!(cpu.i_register, 50);
}

#[test]
fn wait_for_key_repeats_until_pressed() {
    let mut cpu = machine(&[0xF10A]);
    run(&mut cpu, 3);
    assert_eq!(cpu.program_counter, 0x200);
    assert_eq!(cpu.registers[1], 0);
    cpu.keyboard.set_key(5, true);
    run(&mut cpu, 1);
    assert_eq!(cpu.program_counter, 0x202);
    assert_eq!(cpu.registers[1], 5);
}

#[test]
fn random_byte_is_masked() {
    let mut cpu = machine(&[0xC10F, 0xC200]);
    assert_eq!(cpu.step(0xAB), Ok(()));
    assert_eq!(cpu.registers[1], 0x0B);
    assert_eq!(cpu.tick(), Ok(()));
    assert_eq!(cpu.registers[2], 0);
}

#[test]
fn invalid_opcodes_are_fatal() {
    for word in [0x5121u16, 0x8AB8, 0x9AB1, 0xE0FF, 0xF0FF] {
        let mut cpu = machine(&[word]);
        assert_eq!(cpu.step(0), Err(CpuError::InvalidOpcode(word)));
    }
}

#[test]
fn halt_word_only_advances() {
    let mut cpu = machine(&[0x6A05, 0xFA15, 0x0000]);
    run(&mut cpu, 2);
    assert_eq!(cpu.delay_timer, 4);
    run(&mut cpu, 1);
    assert_eq!(cpu.program_counter, 0x206);
    assert_eq!(cpu.delay_timer, 4);
}

#[test]
fn timers_count_down_to_zero() {
    let mut cpu = machine(&[0x6A02, 0xFA15, 0xFA18, 0x0123, 0x0123, 0xFB07]);
    run(&mut cpu, 2);
    assert_eq!(cpu.delay_timer, 1);
    run(&mut cpu, 1);
    assert_eq!(cpu.delay_timer, 0);
    assert_eq!(cpu.sound_timer, 1);
    run(&mut cpu, 3);
    assert_eq!(cpu.sound_timer, 0);
    assert_eq!(cpu.registers[0xB], 0);
}

#[test]
fn draw_instruction_sets_collision() {
    let mut cpu = machine(&[0xA000, 0x6000, 0x6100, 0xD015, 0xD015]);
    run(&mut cpu, 4);
    assert_eq!(cpu.registers[FLAG], 0);
    assert_eq!(cpu.display.buffer()[0], PIXEL_ON);
    assert_eq!(cpu.display.buffer()[DISPLAY_WIDTH + 1], 0);
    run(&mut cpu, 1);
    assert_eq!(cpu.registers[FLAG], 1);
    assert!(cpu.display.buffer().iter().all(|&p| p == 0));
}

#[test]
fn clear_screen_instruction() {
    let mut cpu = machine(&[0xA000, 0xD005, 0x00E0]);
    run(&mut cpu, 2);
    assert_eq!(cpu.display.buffer()[0], PIXEL_ON);
    run(&mut cpu, 1);
    assert!(cpu.display.buffer().iter().all(|&p| p == 0));
}

#[test]
fn bcd_store_and_register_copies() {
    let mut cpu = machine(&[0x6A7B, 0xA300, 0xFA33]);
    run(&mut cpu, 3);
    assert_eq!(&cpu.heap[0x300..0x303], &[1, 2, 3]);

    let mut cpu = machine(&[0x6011, 0x6122, 0x6233, 0xA400, 0xF155, 0xA400, 0xF265]);
    run(&mut cpu, 5);
    assert_eq!(&cpu.heap[0x400..0x403], &[0x11, 0x22, 0]);
    run(&mut cpu, 2);
    assert_eq!(&cpu.registers[0..3], &[0x11, 0x22, 0]);
}

#[test]
fn index_add_wraps() {
    let mut cpu = machine(&[0xAFFF, 0x6AFF, 0xFA1E]);
    run(&mut cpu, 3);
    assert_eq!(cpu.i_register, 0x10FE);
    cpu.i_register = 0xFFFF;
    cpu.program_counter = 0x204;
    run(&mut cpu, 1);
    assert_eq!(cpu.i_register, 0x00FE);
}

#[test]
fn out_of_range_accesses_fail() {
    let mut cpu = machine(&[0xAFFE, 0xD005]);
    run(&mut cpu, 1);
    assert_eq!(cpu.step(0), Err(CpuError::AddressOutOfRange));

    let mut cpu = machine(&[0xAFFE, 0xF033]);
    run(&mut cpu, 1);
    assert_eq!(cpu.step(0), Err(CpuError::AddressOutOfRange));

    let mut cpu = CPU::new(Keyboard::new());
    cpu.program_counter = MEMORY_SIZE - 1;
    assert_eq!(cpu.step(0), Err(CpuError::AddressOutOfRange));
}

#[test]
fn rom_size_limit() {
    let mut cpu = CPU::new(Keyboard::new());
    assert_eq!(cpu.load_rom(&vec![0; MAX_ROM_SIZE + 1]), Err(CpuError::RomTooLarge));
    assert_eq!(cpu.load_rom(&vec![0xAA; MAX_ROM_SIZE]), Ok(()));
    assert_eq!(cpu.heap[PROGRAM_START + MAX_ROM_SIZE - 1], 0xAA);
    assert_eq!(cpu.heap[MEMORY_SIZE - 1], 0);
}

#[test]
fn decode_words() {
    assert_eq!(Instruction::decode(0x0000), Some(Instruction::Halt));
    assert_eq!(Instruction::decode(0x00E0), Some(Instruction::Cls));
    assert_eq!(Instruction::decode(0x0123), Some(Instruction::Sys(0x123)));
    assert_eq!(Instruction::decode(0x8AB4), Some(Instruction::AddXy(0xA, 0xB)));
    assert_eq!(Instruction::decode(0xD125), Some(Instruction::Drw(1, 2, 5)));
    assert_eq!(Instruction::decode(0xF733), Some(Instruction::LdB(7)));
    assert_eq!(Instruction::decode(0xE19E), Some(Instruction::Skp(1)));
    assert_eq!(Instruction::decode(0x5AB1), None);
    assert_eq!(Instruction::decode(0xF7FF), None);
}

#[test]
fn fatal_errors_leave_machine_unchanged() {
    let mut cpu = machine(&[0x00EE]);
    let pc = cpu.program_counter;
    assert_eq!(cpu.step(0), Err(CpuError::StackUnderflow));
    assert_eq!(cpu.program_counter, pc);
    assert_eq!(cpu.stack_pointer, 0);

    let mut cpu = machine(&[0x6A05, 0x8AB8]);
    run(&mut cpu, 1);
    assert_eq!(cpu.step(0), Err(CpuError::InvalidOpcode(0x8AB8)));
    assert_eq!(cpu.program_counter, 0x202);
    assert_eq!(cpu.registers[0xA], 5);
}
