use rip8::execute::{
    drain_key_events, execute, fetch, key_wait, lowest_held_key, perform, process_key_event, step,
    Action, Fault,
};
use rip8::instruction::Instruction;
use rip8::key_event::KeyEvent;
use rip8::machine::Machine;

fn machine_with(program: &[u8]) -> Machine {
    let mut m = Machine::init();
    m.load_program(program);
    m
}

fn run(m: &mut Machine, steps: usize) {
    for _ in 0..steps {
        assert_eq!(execute(m, &[]), Ok(Action::Continue));
    }
}

#[test]
fn load_then_add_leaves_the_sum_and_moves_pc_by_four() {
    let mut m = machine_with(&[0x6A, 0x05, 0x7A, 0x10]);
    assert_eq!(execute(&mut m, &[]), Ok(Action::Continue));
    assert_eq!(m.v[0xA], 0x05);
    assert_eq!(m.pc, 0x202);
    assert_eq!(execute(&mut m, &[]), Ok(Action::Continue));
    assert_eq!(m.v[0xA], 0x15);
    assert_eq!(m.pc, 0x204);
    let mut expected = machine_with(&[0x6A, 0x05, 0x7A, 0x10]);
    expected.v[0xA] = 0x15;
    expected.pc = 0x204;
    assert_eq!(m, expected);
}

#[test]
fn add_registers_sets_the_carry() {
    let mut m = machine_with(&[0x81, 0x24]);
    m.v[1] = 0xFF;
    m.v[2] = 0x01;
    run(&mut m, 1);
    assert_eq!(m.v[1], 0x00);
    assert_eq!(m.v[0xF], 1);
    assert_eq!(m.pc, 0x202);
}

#[test]
fn add_registers_clears_the_carry() {
    let mut m = machine_with(&[0x81, 0x24]);
    m.v[1] = 0x01;
    m.v[2] = 0x01;
    m.v[0xF] = 7;
    run(&mut m, 1);
    assert_eq!(m.v[1], 0x02);
    assert_eq!(m.v[0xF], 0);
}

#[test]
fn add_registers_into_the_flag_register_keeps_the_carry() {
    let mut m = machine_with(&[0x8F, 0x14]);
    m.v[0xF] = 0xF0;
    m.v[1] = 0x20;
    run(&mut m, 1);
    assert_eq!(m.v[0xF], 1);
    assert_eq!(m.v[1], 0x20);
}

#[test]
fn subtract_with_borrow_wraps_and_clears_the_flag() {
    let mut m = machine_with(&[0x81, 0x25]);
    m.v[1] = 0x05;
    m.v[2] = 0x0A;
    m.v[0xF] = 1;
    run(&mut m, 1);
    assert_eq!(m.v[0xF], 0);
    assert_eq!(m.v[1], 0xFB);
    assert_eq!(m.v[2], 0x0A);
}

#[test]
fn subtract_sets_the_flag_only_if_strictly_greater() {
    let mut m = machine_with(&[0x81, 0x25]);
    m.v[1] = 0x0A;
    m.v[2] = 0x05;
    run(&mut m, 1);
    assert_eq!((m.v[1], m.v[0xF]), (0x05, 1));
    let mut m = machine_with(&[0x81, 0x25]);
    m.v[1] = 0x0A;
    m.v[2] = 0x0A;
    m.v[0xF] = 1;
    run(&mut m, 1);
    assert_eq!((m.v[1], m.v[0xF]), (0x00, 0));
}

#[test]
fn subtract_reads_the_flag_it_has_just_written() {
    let mut m = machine_with(&[0x81, 0xF5]);
    m.v[1] = 0x10;
    m.v[0xF] = 0x03;
    run(&mut m, 1);
    assert_eq!(m.v[0xF], 1);
    assert_eq!(m.v[1], 0x0F);
    let mut m = machine_with(&[0x8F, 0x15]);
    m.v[0xF] = 0x10;
    m.v[1] = 0x03;
    run(&mut m, 1);
    assert_eq!(m.v[0xF], 0xFE);
}

#[test]
fn subtract_negated() {
    let mut m = machine_with(&[0x81, 0x27]);
    m.v[1] = 0x05;
    m.v[2] = 0x0A;
    run(&mut m, 1);
    assert_eq!((m.v[1], m.v[0xF]), (0x05, 1));
    let mut m = machine_with(&[0x81, 0x27]);
    m.v[1] = 0x0A;
    m.v[2] = 0x05;
    m.v[0xF] = 1;
    run(&mut m, 1);
    assert_eq!((m.v[1], m.v[0xF]), (0xFB, 0));
    let mut m = machine_with(&[0x81, 0x27]);
    m.v[1] = 0x0A;
    m.v[2] = 0x0A;
    m.v[0xF] = 1;
    run(&mut m, 1);
    assert_eq!((m.v[1], m.v[0xF]), (0x00, 0));
}

#[test]
fn shift_right_puts_the_low_bit_in_the_flag() {
    let mut m = machine_with(&[0x81, 0x26]);
    m.v[1] = 0b1000_0101;
    m.v[2] = 0xFF;
    run(&mut m, 1);
    assert_eq!((m.v[1], m.v[0xF]), (0b0100_0010, 1));
    assert_eq!(m.v[2], 0xFF);
    let mut m = machine_with(&[0x81, 0x26]);
    m.v[1] = 0b0000_0100;
    m.v[0xF] = 1;
    run(&mut m, 1);
    assert_eq!((m.v[1], m.v[0xF]), (0b0000_0010, 0));
    let mut m = machine_with(&[0x8F, 0x06]);
    m.v[0xF] = 0b0000_0111;
    run(&mut m, 1);
    assert_eq!(m.v[0xF], 0);
}

#[test]
fn shift_left_puts_the_high_bit_in_the_flag() {
    let mut m = machine_with(&[0x81, 0x2E]);
    m.v[1] = 0b1000_0101;
    run(&mut m, 1);
    assert_eq!((m.v[1], m.v[0xF]), (0b0000_1010, 1));
    let mut m = machine_with(&[0x81, 0x2E]);
    m.v[1] = 0b0100_0001;
    m.v[0xF] = 1;
    run(&mut m, 1);
    assert_eq!((m.v[1], m.v[0xF]), (0b1000_0010, 0));
    let mut m = machine_with(&[0x8F, 0x0E]);
    m.v[0xF] = 0b1100_0000;
    run(&mut m, 1);
    assert_eq!(m.v[0xF], 0b0000_0010);
}

#[test]
fn or_and_xor_and_assign() {
    let mut m = machine_with(&[0x81, 0x21, 0x83, 0x43, 0x85, 0x60]);
    m.v[1] = 0b1100_0000;
    m.v[2] = 0b1010_0000;
    m.v[3] = 0b1100_0000;
    m.v[4] = 0b1010_0000;
    m.v[5] = 1;
    m.v[6] = 0x77;
    m.v[0xF] = 9;
    run(&mut m, 3);
    assert_eq!(m.v[1], 0b1110_0000);
    assert_eq!(m.v[3], 0b0110_0000);
    assert_eq!(m.v[5], 0x77);
    assert_eq!(m.v[0xF], 9);
    assert_eq!(m.pc, 0x206);
}

#[test]
fn and_computes_the_union_of_bits() {
    let mut m = machine_with(&[0x81, 0x22]);
    m.v[1] = 0xF0;
    m.v[2] = 0x0F;
    run(&mut m, 1);
    assert_eq!(m.v[1], 0xFF);
    let mut m = machine_with(&[0x81, 0x22]);
    m.v[1] = 0b1100_0000;
    m.v[2] = 0b1010_0000;
    run(&mut m, 1);
    assert_eq!(m.v[1], 0b1110_0000);
}

#[test]
fn add_byte_wraps_and_leaves_the_flag() {
    let mut m = machine_with(&[0x71, 0x02]);
    m.v[1] = 0xFF;
    m.v[0xF] = 0;
    run(&mut m, 1);
    assert_eq!(m.v[1], 0x01);
    assert_eq!(m.v[0xF], 0);
}

#[test]
fn jump_sets_pc() {
    let mut m = machine_with(&[0x1A, 0xBC]);
    run(&mut m, 1);
    assert_eq!(m.pc, 0xABC);
}

#[test]
fn jump_relative_adds_v0() {
    let mut m = machine_with(&[0xBF, 0xFF]);
    m.v[0] = 0xFF;
    run(&mut m, 1);
    assert_eq!(m.pc, 0xFFF + 0xFF);
    assert_eq!(execute(&mut m, &[]), Err(Fault::MemoryOutOfRange(0xFFF + 0xFF)));
}

#[test]
fn call_pushes_the_return_address_and_ret_pops_it() {
    let mut m = machine_with(&[0x23, 0x00]);
    m.memory[0x300] = 0x00;
    m.memory[0x301] = 0xEE;
    run(&mut m, 1);
    assert_eq!(m.pc, 0x300);
    assert_eq!(m.sp, 1);
    assert_eq!(m.stack[1], 0x202);
    assert_eq!(m.stack[0], 0);
    run(&mut m, 1);
    assert_eq!(m.pc, 0x202);
    assert_eq!(m.sp, 0);
}

#[test]
fn call_fails_when_the_stack_is_full() {
    let mut m = machine_with(&[0x22, 0x00]);
    for depth in 1..=15u16 {
        assert_eq!(execute(&mut m, &[]), Ok(Action::Continue));
        assert_eq!(m.sp, depth);
        assert_eq!(m.stack[depth as usize], 0x202);
    }
    let before = m.clone();
    assert_eq!(execute(&mut m, &[]), Err(Fault::StackOutOfRange(15)));
    assert_eq!(m.sp, 15);
    assert_eq!(m.stack, before.stack);
    assert_eq!(m.pc, 0x202);
}

#[test]
fn ret_fails_when_the_stack_is_empty() {
    let mut m = machine_with(&[0x00, 0xEE]);
    assert_eq!(execute(&mut m, &[]), Err(Fault::StackOutOfRange(0)));
    assert_eq!(m.sp, 0);
    assert_eq!(m.pc, 0x202);
    let mut m = machine_with(&[0x00, 0xEE]);
    m.sp = 16;
    assert_eq!(execute(&mut m, &[]), Err(Fault::StackOutOfRange(16)));
    assert_eq!(m.sp, 16);
    let mut m = machine_with(&[0x22, 0x00]);
    m.sp = 0xFFFF;
    assert_eq!(execute(&mut m, &[]), Err(Fault::StackOutOfRange(0xFFFF)));
}

#[test]
fn skips_move_pc_by_two_more() {
    let cases: [([u8; 2], bool); 8] = [
        ([0x31, 0x07], true),
        ([0x31, 0x08], false),
        ([0x41, 0x07], false),
        ([0x41, 0x08], true),
        ([0x51, 0x20], false),
        ([0x51, 0x30], true),
        ([0x91, 0x20], true),
        ([0x91, 0x30], false),
    ];
    for (program, skips) in cases {
        let mut m = machine_with(&program);
        m.v[1] = 7;
        m.v[2] = 9;
        m.v[3] = 7;
        run(&mut m, 1);
        assert_eq!(m.pc, if skips { 0x204 } else { 0x202 }, "{:02x?}", program);
    }
}

#[test]
fn key_skips_look_at_the_key_that_vx_names() {
    let cases: [([u8; 2], u8, bool); 4] = [
        ([0xE1, 0x9E], 5, true),
        ([0xE1, 0x9E], 6, false),
        ([0xE1, 0xA1], 5, false),
        ([0xE1, 0xA1], 6, true),
    ];
    for (program, key, skips) in cases {
        let mut m = machine_with(&program);
        m.v[1] = key;
        m.keys[5] = true;
        run(&mut m, 1);
        assert_eq!(m.pc, if skips { 0x204 } else { 0x202 });
    }
}

#[test]
fn key_skips_fail_for_a_key_that_does_not_exist() {
    for program in [[0xE1, 0x9E], [0xE1, 0xA1]] {
        let mut m = machine_with(&program);
        m.v[1] = 16;
        assert_eq!(execute(&mut m, &[]), Err(Fault::KeyOutOfRange(16)));
        assert_eq!(m.pc, 0x202);
    }
}

#[test]
fn load_index() {
    let mut m = machine_with(&[0xAF, 0xFF]);
    run(&mut m, 1);
    assert_eq!(m.i, 0xFFF);
}

#[test]
fn random_byte_is_masked() {
    for _ in 0..200 {
        let mut m = machine_with(&[0xC1, 0x0F, 0xC2, 0x00, 0xC3, 0xA5]);
        m.v[1] = 0xFF;
        m.v[2] = 0xFF;
        m.v[3] = 0xFF;
        run(&mut m, 3);
        assert_eq!(m.v[1] & 0xF0, 0);
        assert_eq!(m.v[2], 0);
        assert_eq!(m.v[3] & !0xA5, 0);
        assert_eq!(m.pc, 0x206);
    }
}

#[test]
fn random_byte_takes_more_than_one_value() {
    let mut seen = [false; 256];
    for _ in 0..2000 {
        let mut m = machine_with(&[0xC1, 0xFF]);
        run(&mut m, 1);
        seen[m.v[1] as usize] = true;
    }
    assert!(seen.iter().filter(|s| **s).count() > 100);
}

#[test]
fn step_masks_the_byte_it_is_given() {
    let mut m = machine_with(&[0xC1, 0x3C]);
    assert_eq!(step(&mut m, 0xFF), Ok(Action::Continue));
    assert_eq!(m.v[1], 0x3C);
    let mut m = machine_with(&[0xC1, 0x3C]);
    assert_eq!(step(&mut m, 0b0101_0101), Ok(Action::Continue));
    assert_eq!(m.v[1], 0b0001_0100);
}

#[test]
fn step_does_as_execute_without_events() {
    let program = [0x6A, 0x05, 0x7A, 0x10, 0x8A, 0xA4, 0xAA, 0xBC, 0xFA, 0x1E];
    let mut a = machine_with(&program);
    let mut b = machine_with(&program);
    for _ in 0..5 {
        assert_eq!(step(&mut a, 0x5A), execute(&mut b, &[]));
        assert_eq!(a, b);
    }
    assert_eq!(a.i, 0xABC + 0x2A);
}

#[test]
fn perform_acts_on_a_decoded_instruction() {
    let mut m = Machine::init();
    m.pc = 0x202;
    assert_eq!(perform(&mut m, Instruction::LdByte { x: 4, kk: 0x44 }, 0), Ok(Action::Continue));
    assert_eq!(m.v[4], 0x44);
    assert_eq!(m.pc, 0x202);
    assert_eq!(perform(&mut m, Instruction::SeByte { x: 4, kk: 0x44 }, 0), Ok(Action::Continue));
    assert_eq!(m.pc, 0x204);
    assert_eq!(perform(&mut m, Instruction::Rnd { x: 4, kk: 0xF0 }, 0xAB), Ok(Action::Continue));
    assert_eq!(m.v[4], 0xA0);
}

#[test]
fn timers_are_read_and_written() {
    let mut m = machine_with(&[0xF1, 0x07, 0xF2, 0x15, 0xF3, 0x18]);
    m.dt = 0x42;
    m.v[2] = 0x10;
    m.v[3] = 0x20;
    run(&mut m, 3);
    assert_eq!(m.v[1], 0x42);
    assert_eq!(m.dt, 0x10);
    assert_eq!(m.st, 0x20);
}

#[test]
fn key_wait_returns_at_once_if_a_key_is_down() {
    let mut m = machine_with(&[0xF7, 0x0A]);
    m.keys[3] = true;
    assert_eq!(execute(&mut m, &[]), Ok(Action::Continue));
    assert_eq!(m.v[7], 3);
    assert_eq!(m.pc, 0x202);
}

#[test]
fn key_wait_takes_the_lowest_key_that_is_down() {
    let mut m = machine_with(&[0xF7, 0x0A]);
    m.keys[0xE] = true;
    m.keys[0x9] = true;
    m.keys[0xC] = true;
    assert_eq!(execute(&mut m, &[]), Ok(Action::Continue));
    assert_eq!(m.v[7], 9);
    let mut m = machine_with(&[0xF7, 0x0A]);
    m.v[7] = 0x55;
    m.keys[0] = true;
    assert_eq!(execute(&mut m, &[]), Ok(Action::Continue));
    assert_eq!(m.v[7], 0);
}

#[test]
fn key_wait_sees_the_events_of_this_call() {
    let mut m = machine_with(&[0xF7, 0x0A]);
    assert_eq!(execute(&mut m, &[KeyEvent { key: 0xB, pressed: true }]), Ok(Action::Continue));
    assert_eq!(m.v[7], 0xB);
}

#[test]
fn key_wait_waits_for_the_first_press() {
    let mut m = machine_with(&[0xF7, 0x0A]);
    m.v[7] = 0x55;
    assert_eq!(execute(&mut m, &[]), Ok(Action::AwaitKey(7)));
    assert_eq!(m.pc, 0x202);
    assert_eq!(m.v[7], 0x55);
    assert_eq!(
        key_wait(&mut m, 7, &KeyEvent { key: 4, pressed: false }),
        Ok(Action::AwaitKey(7))
    );
    assert_eq!(m.v[7], 0x55);
    assert_eq!(m.keys, [false; 16]);
    assert_eq!(key_wait(&mut m, 7, &KeyEvent { key: 9, pressed: true }), Ok(Action::Continue));
    assert_eq!(m.v[7], 9);
    assert!(m.keys[9]);
    assert_eq!(m.pc, 0x202);
}

#[test]
fn key_wait_applies_releases_while_it_waits() {
    let mut m = Machine::init();
    m.keys[2] = true;
    assert_eq!(
        key_wait(&mut m, 0, &KeyEvent { key: 2, pressed: false }),
        Ok(Action::AwaitKey(0))
    );
    assert!(!m.keys[2]);
    assert_eq!(
        key_wait(&mut m, 0, &KeyEvent { key: 16, pressed: true }),
        Err(Fault::KeyOutOfRange(16))
    );
    assert_eq!(m.keys, [false; 16]);
    assert_eq!(m.v[0], 0);
}

#[test]
fn lowest_held_key_finds_the_first_or_none() {
    let mut keys = [false; 16];
    assert_eq!(lowest_held_key(&keys), None);
    keys[15] = true;
    assert_eq!(lowest_held_key(&keys), Some(15));
    keys[6] = true;
    assert_eq!(lowest_held_key(&keys), Some(6));
    keys[0] = true;
    assert_eq!(lowest_held_key(&keys), Some(0));
}

#[test]
fn add_to_index_has_no_range_check_and_wraps_at_sixteen_bits() {
    let mut m = machine_with(&[0xF1, 0x1E]);
    m.i = 0x0FFF;
    m.v[1] = 0x01;
    run(&mut m, 1);
    assert_eq!(m.i, 0x1000);
    let mut m = machine_with(&[0xF1, 0x1E]);
    m.i = 0xFFFF;
    m.v[1] = 0x02;
    run(&mut m, 1);
    assert_eq!(m.i, 0x0001);
    let mut m = machine_with(&[0xF1, 0x1E]);
    m.i = 0x0100;
    m.v[1] = 0xFF;
    m.v[0xF] = 0;
    run(&mut m, 1);
    assert_eq!(m.i, 0x01FF);
    assert_eq!(m.v[0xF], 0);
}

#[test]
fn an_index_beyond_memory_fails_when_it_is_used() {
    for program in [[0xF1, 0x33], [0xF0, 0x55], [0xF0, 0x65], [0xD0, 0x01]] {
        let mut m = machine_with(&[0xF1, 0x1E, program[0], program[1]]);
        m.i = 0x0FFF;
        m.v[1] = 0x01;
        run(&mut m, 1);
        let before = m.clone();
        assert_eq!(execute(&mut m, &[]), Err(Fault::MemoryOutOfRange(0x1000)));
        assert_eq!(m.pc, 0x204);
        m.pc = before.pc;
        assert_eq!(m, before);
    }
    let mut m = machine_with(&[0xF1, 0x33]);
    m.i = 0x2000;
    assert_eq!(execute(&mut m, &[]), Err(Fault::MemoryOutOfRange(0x2000)));
}

#[test]
fn font_sprite_address() {
    for digit in 0..16u8 {
        let mut m = machine_with(&[0xF1, 0x29]);
        m.v[1] = digit;
        run(&mut m, 1);
        assert_eq!(m.i, 5 * digit as u16);
    }
    let mut m = machine_with(&[0xF1, 0x29]);
    m.v[1] = 16;
    m.i = 0x123;
    assert_eq!(execute(&mut m, &[]), Err(Fault::DigitOutOfRange(16)));
    assert_eq!(m.i, 0x123);
}

#[test]
fn font_sprite_address_follows_the_table() {
    let mut m = machine_with(&[0xF1, 0x29]);
    m.sprite_digits[7] = 0x345;
    m.v[1] = 7;
    run(&mut m, 1);
    assert_eq!(m.i, 0x345);
}

#[test]
fn bcd_of_234() {
    let mut m = machine_with(&[0xF1, 0x33]);
    m.v[1] = 234;
    m.i = 0x300;
    run(&mut m, 1);
    assert_eq!(&m.memory[0x300..0x303], &[2, 3, 4]);
    assert_eq!(m.memory[0x2FF], 0);
    assert_eq!(m.memory[0x303], 0);
    assert_eq!(m.i, 0x300);
}

#[test]
fn bcd_of_every_byte() {
    for value in 0..=255u8 {
        let mut m = machine_with(&[0xF1, 0x33]);
        m.v[1] = value;
        m.i = 0x300;
        run(&mut m, 1);
        let digits = &m.memory[0x300..0x303];
        assert!(digits.iter().all(|d| *d < 10));
        assert_eq!(100 * digits[0] as u32 + 10 * digits[1] as u32 + digits[2] as u32, value as u32);
    }
}

#[test]
fn bcd_at_the_end_of_memory() {
    let mut m = machine_with(&[0xF1, 0x33]);
    m.v[1] = 255;
    m.i = 4093;
    run(&mut m, 1);
    assert_eq!(&m.memory[4093..], &[2, 5, 5]);
    for i in [4094u16, 4095] {
        let mut m = machine_with(&[0xF1, 0x33]);
        m.v[1] = 255;
        m.i = i;
        let before = m.clone();
        assert_eq!(execute(&mut m, &[]), Err(Fault::MemoryOutOfRange(4096)));
        assert_eq!(m.memory, before.memory);
    }
}

#[test]
fn store_then_load_restores_the_registers() {
    let mut m = machine_with(&[0xF5, 0x55, 0xF5, 0x65]);
    m.i = 0x400;
    for k in 0..16 {
        m.v[k] = 0x10 + k as u8;
    }
    let saved = m.v;
    run(&mut m, 1);
    assert_eq!(&m.memory[0x400..0x406], &[0x10, 0x11, 0x12, 0x13, 0x14, 0x15]);
    assert_eq!(m.memory[0x406], 0);
    assert_eq!(m.memory[0x3FF], 0);
    assert_eq!(m.v, saved);
    assert_eq!(m.i, 0x400);
    m.v = [0xEE; 16];
    run(&mut m, 1);
    assert_eq!(&m.v[0..6], &saved[0..6]);
    assert_eq!(&m.v[6..], &[0xEE; 10]);
    assert_eq!(m.i, 0x400);
    assert_eq!(m.pc, 0x204);
}

#[test]
fn store_and_load_of_all_registers_and_of_one() {
    let mut m = machine_with(&[0xFF, 0x55, 0xF0, 0x65]);
    m.i = 4080;
    for k in 0..16 {
        m.v[k] = 0xA0 + k as u8;
    }
    run(&mut m, 1);
    assert_eq!(&m.memory[4080..], &m.v[..]);
    m.memory[4080] = 0x77;
    run(&mut m, 1);
    assert_eq!(m.v[0], 0x77);
    assert_eq!(m.v[1], 0xA1);
}

#[test]
fn store_and_load_fail_beyond_memory() {
    for program in [[0xFF, 0x55], [0xFF, 0x65]] {
        let mut m = machine_with(&program);
        m.i = 4081;
        m.v = [0x33; 16];
        let before = m.clone();
        assert_eq!(execute(&mut m, &[]), Err(Fault::MemoryOutOfRange(4096)));
        assert_eq!(m.memory, before.memory);
        assert_eq!(m.v, before.v);
    }
}

#[test]
fn clear_screen_of_a_blank_display_asks_for_nothing() {
    let mut m = machine_with(&[0x00, 0xE0]);
    assert_eq!(execute(&mut m, &[]), Ok(Action::Continue));
    assert!(m.display.iter().all(|p| !*p));
    assert_eq!(m.pc, 0x202);
}

#[test]
fn clear_screen_of_a_lit_display_asks_for_one_redraw() {
    let mut m = machine_with(&[0x00, 0xE0, 0x00, 0xE0]);
    m.display[100] = true;
    assert_eq!(execute(&mut m, &[]), Ok(Action::Redraw));
    assert!(m.display.iter().all(|p| !*p));
    assert_eq!(execute(&mut m, &[]), Ok(Action::Continue));
}

#[test]
fn draw_sets_the_collision_flag_and_asks_for_a_redraw() {
    let mut m = machine_with(&[0xA0, 0x00, 0xD1, 0x25, 0xD1, 0x25, 0xD3, 0x30]);
    m.v[1] = 62;
    m.v[2] = 30;
    m.v[0xF] = 9;
    run(&mut m, 1);
    assert_eq!(execute(&mut m, &[]), Ok(Action::Redraw));
    assert_eq!(m.v[0xF], 0);
    assert!(m.display[62 * 32 + 30]);
    assert!(m.display[1 * 32 + 30]);
    assert!(m.display[62 * 32 + 2]);
    assert!(!m.display[63 * 32 + 31]);
    assert_eq!(m.display.iter().filter(|p| **p).count(), 14);
    assert_eq!(execute(&mut m, &[]), Ok(Action::Redraw));
    assert_eq!(m.v[0xF], 1);
    assert!(m.display.iter().all(|p| !*p));
    m.v[0xF] = 9;
    assert_eq!(execute(&mut m, &[]), Ok(Action::Continue));
    assert_eq!(m.v[0xF], 0);
    assert_eq!(m.pc, 0x208);
}

#[test]
fn draw_reads_its_position_before_it_writes_the_flag() {
    let mut m = machine_with(&[0xA0, 0x00, 0xDF, 0xF1]);
    m.v[0xF] = 3;
    run(&mut m, 1);
    assert_eq!(execute(&mut m, &[]), Ok(Action::Redraw));
    assert_eq!(m.v[0xF], 0);
    assert!(m.display[3 * 32 + 3]);
    assert!(m.display[6 * 32 + 3]);
    assert!(!m.display[7 * 32 + 3]);
}

#[test]
fn draw_fails_beyond_memory_and_leaves_the_display() {
    let mut m = machine_with(&[0xD0, 0x05]);
    m.i = 4092;
    m.memory[4092] = 0xFF;
    let before = m.clone();
    assert_eq!(execute(&mut m, &[]), Err(Fault::MemoryOutOfRange(4096)));
    assert_eq!(m.display, before.display);
    assert_eq!(m.v, before.v);
    let mut m = machine_with(&[0xD0, 0x04]);
    m.i = 4092;
    m.memory[4092] = 0xFF;
    assert_eq!(execute(&mut m, &[]), Ok(Action::Redraw));
}

#[test]
fn fetch_reads_big_endian_and_moves_pc() {
    let mut m = machine_with(&[0x12, 0x34]);
    assert_eq!(fetch(&mut m), Ok(0x1234));
    assert_eq!(m.pc, 0x202);
    m.pc = 4094;
    m.memory[4094] = 0xAB;
    m.memory[4095] = 0xCD;
    assert_eq!(fetch(&mut m), Ok(0xABCD));
    assert_eq!(m.pc, 4096);
}

#[test]
fn fetch_fails_beyond_memory_and_leaves_the_machine() {
    for (pc, address) in [(4095u16, 4096usize), (4096, 4096), (5000, 5000), (0xFFFF, 0xFFFF)] {
        let mut m = machine_with(&[0x12, 0x34]);
        m.pc = pc;
        let before = m.clone();
        assert_eq!(fetch(&mut m), Err(Fault::MemoryOutOfRange(address)));
        assert_eq!(m, before);
        assert_eq!(execute(&mut m, &[]), Err(Fault::MemoryOutOfRange(address)));
        assert_eq!(m, before);
        assert_eq!(step(&mut m, 0), Err(Fault::MemoryOutOfRange(address)));
        assert_eq!(m, before);
    }
}

#[test]
fn unknown_opcodes_fail_with_the_word() {
    for op in [0x0000u16, 0x00E1, 0x01E0, 0x5121, 0x8128, 0x9121, 0xE19F, 0xF1FF, 0xFFFF] {
        let mut m = machine_with(&[(op >> 8) as u8, (op & 0xFF) as u8]);
        m.v[1] = 1;
        m.v[2] = 2;
        let before = m.clone();
        assert_eq!(execute(&mut m, &[]), Err(Fault::UnknownOpcode(op)));
        assert_eq!(m.pc, 0x202);
        m.pc = before.pc;
        assert_eq!(m, before);
    }
}

#[test]
fn pc_moves_by_two_for_everything_that_is_no_jump() {
    for program in [
        [0x00u8, 0xE0],
        [0x61, 0x23],
        [0x71, 0x23],
        [0x81, 0x20],
        [0x81, 0x21],
        [0x81, 0x22],
        [0x81, 0x23],
        [0x81, 0x24],
        [0x81, 0x25],
        [0x81, 0x26],
        [0x81, 0x27],
        [0x81, 0x2E],
        [0xA1, 0x23],
        [0xC1, 0x23],
        [0xD1, 0x23],
        [0xF1, 0x07],
        [0xF1, 0x15],
        [0xF1, 0x18],
        [0xF1, 0x1E],
        [0xF1, 0x29],
        [0xF1, 0x33],
        [0xF1, 0x55],
        [0xF1, 0x65],
    ] {
        let mut m = machine_with(&program);
        m.i = 0x300;
        m.v[1] = 3;
        assert!(execute(&mut m, &[]).is_ok());
        assert_eq!(m.pc, 0x202, "{:02x?}", program);
    }
}

#[test]
fn events_are_applied_oldest_first() {
    let mut m = machine_with(&[0x61, 0x00, 0x61, 0x00]);
    let events = [
        KeyEvent { key: 3, pressed: true },
        KeyEvent { key: 5, pressed: true },
        KeyEvent { key: 3, pressed: false },
        KeyEvent { key: 0xF, pressed: false },
    ];
    assert_eq!(execute(&mut m, &events), Ok(Action::Continue));
    let mut expected = [false; 16];
    expected[5] = true;
    assert_eq!(m.keys, expected);
    let events = [
        KeyEvent { key: 3, pressed: false },
        KeyEvent { key: 3, pressed: true },
    ];
    assert_eq!(execute(&mut m, &events), Ok(Action::Continue));
    expected[3] = true;
    assert_eq!(m.keys, expected);
    assert_eq!(m.pc, 0x204);
}

#[test]
fn events_are_applied_before_the_instruction() {
    let mut m = machine_with(&[0xE1, 0x9E]);
    m.v[1] = 0xA;
    assert_eq!(execute(&mut m, &[KeyEvent { key: 0xA, pressed: true }]), Ok(Action::Continue));
    assert_eq!(m.pc, 0x204);
}

#[test]
fn an_event_for_a_key_that_does_not_exist_fails() {
    let mut m = machine_with(&[0x61, 0x07]);
    let events = [
        KeyEvent { key: 2, pressed: true },
        KeyEvent { key: 16, pressed: true },
        KeyEvent { key: 4, pressed: true },
    ];
    assert_eq!(execute(&mut m, &events), Err(Fault::KeyOutOfRange(16)));
    let mut expected = [false; 16];
    expected[2] = true;
    assert_eq!(m.keys, expected);
    assert_eq!(m.pc, 0x200);
    assert_eq!(m.v[1], 0);
    let mut m = machine_with(&[0x61, 0x07]);
    assert_eq!(drain_key_events(&mut m, &events), Err(Fault::KeyOutOfRange(16)));
    assert_eq!(m.keys, expected);
    assert_eq!(drain_key_events(&mut m, &events[2..]), Ok(()));
    expected[4] = true;
    assert_eq!(m.keys, expected);
}

#[test]
fn process_key_event_sets_one_key() {
    let mut m = Machine::init();
    let before = m.clone();
    assert_eq!(process_key_event(&mut m, &KeyEvent { key: 15, pressed: true }), Ok(()));
    assert!(m.keys[15]);
    assert_eq!(process_key_event(&mut m, &KeyEvent { key: 15, pressed: false }), Ok(()));
    assert_eq!(m, before);
    assert_eq!(
        process_key_event(&mut m, &KeyEvent { key: 255, pressed: true }),
        Err(Fault::KeyOutOfRange(255))
    );
    assert_eq!(m, before);
}

#[test]
fn a_step_never_touches_keys_or_the_font_table() {
    let program = [
        0x00, 0xE0, 0x61, 0x05, 0xA0, 0x00, 0xD1, 0x15, 0xF1, 0x33, 0xF1, 0x55, 0xF1, 0x65, 0x22,
        0x12, 0xFF, 0xFF, 0x00, 0xEE,
    ];
    let mut m = machine_with(&program);
    m.keys[7] = true;
    let keys = m.keys;
    let table = m.sprite_digits;
    for _ in 0..9 {
        let _ = execute(&mut m, &[]);
        assert_eq!(m.keys, keys);
        assert_eq!(m.sprite_digits, table);
    }
}
