use chip8::bits::BitIteratoru8;
use chip8::keypad::{get_hexcode_from_key, get_key_from_hexcode, is_held, Key};
use chip8::machine::Chip8;
use chip8::rom::{rom_image, LoadError};
use chip8::scheduler::{Scheduler, TickPlan};
use chip8::semantics::{ExecError, WaitState};

fn machine_with(program: &[u16]) -> Chip8 {
    let mut bytes: Vec<u8> = Vec::new();
    for w in program {
        bytes.push((w >> 8) as u8);
        bytes.push((w & 0xFF) as u8);
    }
    Chip8::new(Some(rom_image(&bytes).unwrap()))
}

fn run(chip: &mut Chip8, steps: usize) {
    for _ in 0..steps {
        assert_eq!(chip.step_with_random(&[], None, 0), Ok(()));
    }
}

#[test]
fn test_encode_instruction_tuple() {
    assert_eq!(Chip8::get_addr(0xF, 0x2, 0xA), 0xF2A);
    assert_eq!(Chip8::get_kk(0xF, 0xB), 0xFB);
}

#[test]
fn new_machine_layout() {
    let chip = machine_with(&[0x6005]);
    assert_eq!(chip.program_counter(), 0x200);
    assert_eq!(chip.memory(0), 0xF0);
    assert_eq!(chip.memory(79), 0x80);
    assert_eq!(chip.memory(80), 0);
    assert_eq!(chip.memory(0x200), 0x60);
    assert_eq!(chip.memory(0x201), 0x05);
    assert_eq!(chip.memory(0x202), 0);
    assert_eq!(chip.registers(), [0u8; 16]);
    assert_eq!(chip.wait_state(), WaitState::Running);
    let empty = Chip8::new(None);
    assert_eq!(empty.memory(0x200), 0);
    assert_eq!(empty.memory(5), 0x20);
}

#[test]
fn load_then_add_wraps() {
    let mut chip = machine_with(&[0x6005, 0x7003, 0x61F0, 0x7120]);
    run(&mut chip, 4);
    assert_eq!(chip.register(0), 8);
    assert_eq!(chip.register(1), 0x10);
}

#[test]
fn add_sets_carry_and_sub_undoes_value() {
    let mut chip = machine_with(&[0x60FF, 0x6101, 0x8014, 0x8015]);
    run(&mut chip, 3);
    assert_eq!(chip.register(0), 0);
    assert_eq!(chip.register(0xF), 1);
    run(&mut chip, 1);
    assert_eq!(chip.register(0), 0xFF);
    assert_eq!(chip.register(0xF), 0);
}

#[test]
fn add_without_overflow_scenario() {
    let mut chip = machine_with(&[0x6005, 0x6103, 0x8014]);
    run(&mut chip, 3);
    assert_eq!(chip.register(0), 8);
    assert_eq!(chip.register(0xF), 0);
}

#[test]
fn add_with_overflow_scenario() {
    let mut chip = machine_with(&[0x60FF, 0x6101, 0x8014]);
    run(&mut chip, 3);
    assert_eq!(chip.register(0), 0);
    assert_eq!(chip.register(0xF), 1);
}

#[test]
fn flag_is_written_last() {
    // VF as the target of 8xy5: the borrow flag wins over the difference.
    let mut chip = machine_with(&[0x6F09, 0x6103, 0x8F15]);
    run(&mut chip, 3);
    assert_eq!(chip.register(0xF), 1);
}

#[test]
fn logic_and_shift_operations() {
    let mut chip = machine_with(&[
        0x60F0, 0x610F, 0x8201, 0x8012, 0x6381, 0x8336, 0x6481, 0x844E, 0x6502, 0x6603, 0x8567,
        0x6703, 0x6802, 0x8787,
    ]);
    run(&mut chip, 4);
    assert_eq!(chip.register(0), 0);
    run(&mut chip, 2);
    assert_eq!(chip.register(3), 0x40);
    assert_eq!(chip.register(0xF), 1);
    run(&mut chip, 2);
    assert_eq!(chip.register(4), 0x02);
    assert_eq!(chip.register(0xF), 1);
    run(&mut chip, 3);
    assert_eq!(chip.register(5), 1);
    assert_eq!(chip.register(0xF), 1);
    run(&mut chip, 3);
    assert_eq!(chip.register(7), 0xFF);
    assert_eq!(chip.register(0xF), 0);
}

#[test]
fn xor_and_copy() {
    let mut chip = machine_with(&[0x60F0, 0x61FF, 0x8013, 0x8210]);
    run(&mut chip, 4);
    assert_eq!(chip.register(0), 0x0F);
    assert_eq!(chip.register(2), 0xFF);
}

#[test]
fn clear_after_draws_gives_dark_screen() {
    let mut chip = machine_with(&[0x00E0, 0x6003, 0x6104, 0xA000, 0xD015, 0xD105, 0x00E0]);
    run(&mut chip, 5);
    assert!(chip.pixel(3, 4));
    run(&mut chip, 2);
    let frame = chip.get_screen_buffer();
    assert!(frame.iter().all(|p| *p == 0));
    assert_eq!(frame.len(), 2048);
}

#[test]
fn drawing_twice_erases_and_collides() {
    let mut chip = machine_with(&[0xA000, 0x600A, 0x610B, 0xD015, 0xD015]);
    run(&mut chip, 4);
    assert_eq!(chip.register(0xF), 0);
    assert!(chip.pixel(10, 11));
    assert!(chip.pixel(13, 11));
    assert!(!chip.pixel(11, 12));
    run(&mut chip, 1);
    assert_eq!(chip.register(0xF), 1);
    for y in 0..32 {
        for x in 0..64 {
            assert!(!chip.pixel(x, y));
        }
    }
}

#[test]
fn sprite_wraps_around_edges() {
    // Glyph "0" drawn at (62, 30): its columns and rows wrap.
    let mut chip = machine_with(&[0xA000, 0x603E, 0x611E, 0xD015]);
    run(&mut chip, 4);
    assert!(chip.pixel(62, 30));
    assert!(chip.pixel(1, 30));
    assert!(chip.pixel(62, 2));
    assert!(!chip.pixel(63, 31));
    let frame = chip.get_screen_buffer();
    assert_eq!(frame[30 * 64 + 62], 0xFFFFFFFF);
    assert_eq!(frame[31 * 64 + 63], 0);
}

#[test]
fn store_then_load_restores_registers() {
    let mut chip = machine_with(&[0x6011, 0x6122, 0x6233, 0xA300, 0xF255, 0xF265]);
    run(&mut chip, 5);
    assert_eq!(chip.memory_slice(0x300, 4), vec![0x11, 0x22, 0x33, 0]);
    let before = chip.registers();
    run(&mut chip, 1);
    assert_eq!(chip.registers(), before);
}

#[test]
fn load_registers_from_memory() {
    let mut chip = machine_with(&[0xA000, 0xF165]);
    run(&mut chip, 2);
    assert_eq!(chip.register(0), 0xF0);
    assert_eq!(chip.register(1), 0x90);
    assert_eq!(chip.register(2), 0);
}

#[test]
fn bcd_of_234() {
    let mut chip = machine_with(&[0x60EA, 0xA300, 0xF033]);
    run(&mut chip, 3);
    assert_eq!(chip.memory(0x300), 2);
    assert_eq!(chip.memory(0x301), 3);
    assert_eq!(chip.memory(0x302), 4);
}

#[test]
fn timers_floor_at_zero() {
    let mut chip = machine_with(&[0x6001, 0xF015, 0xF118, 0xF207]);
    run(&mut chip, 3);
    assert_eq!(chip.delay_timer(), 1);
    assert_eq!(chip.sound_timer(), 0);
    chip.tick_timers();
    assert_eq!(chip.delay_timer(), 0);
    chip.tick_timers();
    assert_eq!(chip.delay_timer(), 0);
    assert_eq!(chip.sound_timer(), 0);
    run(&mut chip, 1);
    assert_eq!(chip.register(2), 0);
}

#[test]
fn index_operations() {
    let mut chip = machine_with(&[0xA123, 0x6010, 0xF01E, 0x610A, 0xF129]);
    run(&mut chip, 3);
    assert_eq!(chip.index(), 0x133);
    run(&mut chip, 2);
    assert_eq!(chip.index(), 50);
}

#[test]
fn jumps_calls_and_returns() {
    // 0x200: CALL 0x206; 0x202: JP 0x20A; 0x206: RET
    let mut chip = machine_with(&[0x2206, 0x120A, 0x0000, 0x00EE]);
    run(&mut chip, 1);
    assert_eq!(chip.program_counter(), 0x206);
    assert_eq!(chip.stack_pointer(), 1);
    assert_eq!(chip.stack()[1], 0x202);
    run(&mut chip, 1);
    assert_eq!(chip.program_counter(), 0x202);
    assert_eq!(chip.stack_pointer(), 0);
    run(&mut chip, 1);
    assert_eq!(chip.program_counter(), 0x20A);
}

#[test]
fn jump_with_offset() {
    let mut chip = machine_with(&[0x6004, 0xB300]);
    run(&mut chip, 2);
    assert_eq!(chip.program_counter(), 0x304);
}

#[test]
fn skips() {
    let mut chip = machine_with(&[0x6005, 0x3005, 0x0000, 0x4005, 0x6105, 0x5010, 0x0000, 0x9010]);
    run(&mut chip, 2);
    assert_eq!(chip.program_counter(), 0x206);
    run(&mut chip, 1);
    assert_eq!(chip.program_counter(), 0x208);
    run(&mut chip, 2);
    assert_eq!(chip.program_counter(), 0x20E);
    run(&mut chip, 1);
    assert_eq!(chip.program_counter(), 0x210);
}

#[test]
fn key_skips_follow_held_keys() {
    let mut chip = machine_with(&[0x6001, 0xE09E, 0x0000, 0xE0A1, 0xE09E]);
    run(&mut chip, 1);
    assert_eq!(chip.step_with_random(&[Key::Key1], None, 0), Ok(()));
    assert_eq!(chip.program_counter(), 0x206);
    assert_eq!(chip.step_with_random(&[Key::Key1], None, 0), Ok(()));
    assert_eq!(chip.program_counter(), 0x208);
    assert_eq!(chip.step_with_random(&[Key::Q], None, 0), Ok(()));
    assert_eq!(chip.program_counter(), 0x20A);
}

#[test]
fn random_is_masked() {
    let mut chip = machine_with(&[0xC00F, 0xC100, 0xC2F0]);
    assert_eq!(chip.step_with_random(&[], None, 0xAB), Ok(()));
    assert_eq!(chip.register(0), 0x0B);
    assert_eq!(chip.step(&[], None), Ok(()));
    assert_eq!(chip.register(1), 0);
    assert_eq!(chip.step(&[], None), Ok(()));
    assert_eq!(chip.register(2) & 0x0F, 0);
}

#[test]
fn wait_for_key_freezes_then_resumes() {
    let mut chip = machine_with(&[0xF00A, 0x6107, 0xF015]);
    let mut sched = Scheduler::new(0, 2000, 16_666);
    run(&mut chip, 1);
    assert_eq!(chip.wait_state(), WaitState::WaitingForKey(0));
    assert_eq!(chip.program_counter(), 0x202);
    for k in 1..20u64 {
        let report = chip.tick_with_random(&mut sched, k * 2001, &[Key::W], None, 0);
        assert_eq!(report.result, Ok(()));
        assert_eq!(chip.program_counter(), 0x202);
        assert_eq!(chip.register(1), 0);
    }
    let report = chip.tick_with_random(&mut sched, 50_000, &[], Some(Key::Z), 0);
    assert_eq!(report.result, Ok(()));
    assert_eq!(chip.register(0), 0xA);
    assert_eq!(chip.wait_state(), WaitState::Running);
    assert_eq!(chip.program_counter(), 0x202);
    let report = chip.tick_with_random(&mut sched, 60_000, &[], None, 0);
    assert_eq!(report.result, Ok(()));
    assert_eq!(chip.register(1), 7);
    assert_eq!(chip.program_counter(), 0x204);
}

#[test]
fn timers_run_while_waiting() {
    let mut chip = machine_with(&[0x6003, 0xF015, 0xF00A]);
    run(&mut chip, 3);
    let mut sched = Scheduler::new(0, 2000, 16_666);
    let report = chip.tick_with_random(&mut sched, 17_000, &[], None, 0);
    assert!(report.redraw);
    assert_eq!(chip.delay_timer(), 2);
    assert_eq!(chip.program_counter(), 0x206);
}

#[test]
fn scheduler_cadences_are_independent() {
    let mut sched = Scheduler::new(1000, 2000, 16_666);
    assert_eq!(sched.poll(2000), TickPlan { step: false, timers: false });
    assert_eq!(sched.poll(3001), TickPlan { step: true, timers: false });
    assert_eq!(sched.last_step, 3001);
    assert_eq!(sched.poll(17_667), TickPlan { step: true, timers: true });
    assert_eq!(sched.last_timer, 17_667);
    assert_eq!(sched.poll(17_000), TickPlan { step: false, timers: false });
}

#[test]
fn stack_underflow_is_fatal() {
    let mut chip = machine_with(&[0x00EE]);
    let r = chip.step_with_random(&[], None, 0);
    assert_eq!(r, Err(ExecError::StackUnderflow));
    assert!(ExecError::StackUnderflow.is_fatal());
    assert_eq!(chip.program_counter(), 0x202);
}

#[test]
fn stack_overflow_is_fatal() {
    let mut chip = machine_with(&[0x2200]);
    run(&mut chip, 15);
    assert_eq!(chip.stack_pointer(), 15);
    assert_eq!(chip.step_with_random(&[], None, 0), Err(ExecError::StackOverflow));
    assert_eq!(chip.stack_pointer(), 15);
}

#[test]
fn unrecognized_instruction_is_reported() {
    let mut chip = machine_with(&[0x5001, 0x8008, 0xE0FF, 0xF0FF, 0x0123]);
    for w in [0x5001u16, 0x8008, 0xE0FF, 0xF0FF, 0x0123] {
        let r = chip.step_with_random(&[], None, 0);
        assert_eq!(r, Err(ExecError::UnrecognizedInstruction(w)));
        assert!(!r.unwrap_err().is_fatal());
    }
    assert_eq!(chip.program_counter(), 0x20A);
}

#[test]
fn unmapped_key_is_reported() {
    let mut chip = machine_with(&[0x6020, 0xE09E]);
    run(&mut chip, 1);
    assert_eq!(chip.step_with_random(&[Key::X], None, 0), Err(ExecError::UnmappedKey(0x20)));
    assert_eq!(chip.program_counter(), 0x204);
}

#[test]
fn memory_out_of_bounds_is_fatal() {
    let mut chip = machine_with(&[0xAFFF, 0xD005, 0xF033, 0xF155, 0xF165]);
    run(&mut chip, 1);
    for _ in 0..4 {
        assert_eq!(
            chip.step_with_random(&[], None, 0),
            Err(ExecError::MemoryOutOfBounds(0xFFF))
        );
    }
}

#[test]
fn fetch_past_memory_is_fatal() {
    let mut chip = machine_with(&[0x1FFF]);
    run(&mut chip, 1);
    assert_eq!(
        chip.step_with_random(&[], None, 0),
        Err(ExecError::MemoryOutOfBounds(0xFFF))
    );
}

#[test]
fn jump_past_limit_is_fatal() {
    let mut chip = machine_with(&[0x6002, 0xBFFF]);
    run(&mut chip, 1);
    assert_eq!(chip.step_with_random(&[], None, 0), Err(ExecError::PcOutOfRange(0x1001)));
    assert_eq!(chip.program_counter(), 0x204);
}

#[test]
fn execute_instruction_directly() {
    let mut chip = Chip8::new(None);
    assert_eq!(chip.execute_instruction(0x6A42, &[]), Ok(()));
    assert_eq!(chip.register(0xA), 0x42);
    assert_eq!(chip.execute_with_random(0xCAFF, &[], 0x5A), Ok(()));
    assert_eq!(chip.register(0xA), 0x5A);
    assert_eq!(chip.program_counter(), 0x200);
}

#[test]
fn rom_image_checks_size() {
    let img = rom_image(&[1, 2, 3]).unwrap();
    assert_eq!(img.len(), 0xE00);
    assert_eq!(&img[..4], &[1, 2, 3, 0]);
    let full = vec![7u8; 0xE00];
    assert_eq!(rom_image(&full).unwrap()[0xDFF], 7);
    let big = vec![0u8; 0xE01];
    assert_eq!(rom_image(&big), Err(LoadError::TooLarge { size: 0xE01 }));
    let chip = Chip8::new(Some(rom_image(&full).unwrap()));
    assert_eq!(chip.memory(0xFFF), 7);
}

#[test]
fn keypad_mapping_round_trips() {
    let keys = [
        Key::Key1, Key::Key2, Key::Key3, Key::Key4, Key::Q, Key::W, Key::E, Key::R, Key::A,
        Key::S, Key::D, Key::F, Key::Z, Key::X, Key::C, Key::V,
    ];
    let mut seen = [false; 16];
    for k in keys {
        let h = get_hexcode_from_key(k).unwrap();
        assert!(!seen[h as usize]);
        seen[h as usize] = true;
        assert_eq!(get_key_from_hexcode(h), Some(k));
    }
    assert_eq!(get_hexcode_from_key(Key::Key4), Some(0xC));
    assert_eq!(get_hexcode_from_key(Key::X), Some(0));
    assert_eq!(get_key_from_hexcode(0x10), None);
    assert!(is_held(&[Key::A, Key::V], Key::V));
    assert!(!is_held(&[Key::A, Key::V], Key::C));
}

#[test]
fn bit_iterator_walks_msb_first() {
    let mut it = BitIteratoru8::new(0b1010_0001);
    let mut bits = Vec::new();
    while let Some(b) = it.next() {
        bits.push(b);
    }
    assert_eq!(bits, vec![true, false, true, false, false, false, false, true]);
    assert_eq!(it.next(), None);
}

#[test]
fn decode_splits_nibbles() {
    assert_eq!(Chip8::decode_instruction(0xD12F), (0xD, 0x1, 0x2, 0xF));
    assert_eq!(Chip8::decode_instruction(0x00EE), (0, 0, 0xE, 0xE));
}
