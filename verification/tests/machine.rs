use mixe::{Comparison, Fault, MIXComputer, MIXWord, Unit, MIXCPU};

#[test]
fn word_round_trip_samples() {
    let cases = [
        (0u32, 0u32, 0u32, 0u32, 0u32, 0u32),
        (1, 63, 63, 63, 63, 63),
        (0, 1, 2, 3, 4, 5),
        (1, 0, 80 % 64, 3, 5, 4),
        (0, 62, 0, 61, 0, 60),
    ];
    for c in cases {
        let w: MIXWord = c.into();
        assert_eq!(w.into_slice(), c);
    }
}

#[test]
fn field_extraction_extremes() {
    let w: MIXWord = (1, 10, 20, 30, 40, 50).into();
    assert_eq!(w.get_range(0, 5), w);
    let stripped = w.get_range(1, 5);
    assert_eq!(stripped.get_opposite(), 0);
    assert_eq!(stripped.get_unsinged(), w.get_unsinged());
    assert!(stripped.get_value() >= 0);
}

#[test]
fn word_accessors() {
    let mut w = MIXWord(0);
    w.set_op(0b101010);
    assert_eq!(w.get_op(), 0b101010);
    w.set_f(11);
    assert_eq!(w.get_f(), 11);
    w.set_i(3);
    assert_eq!(w.get_i(), 3);
    w.set_aa(2000);
    assert_eq!(w.get_aa(), 2000);
    w.set_opposite(1);
    assert_eq!(w.get_opposite(), 1);
    assert_eq!(w.get_m(), -2000);
    assert_eq!(w, (1, 2000 / 64, 2000 % 64, 3, 11, 0b101010).into());
    w.set_unsigned(5);
    assert_eq!(w.get_unsinged(), 5);
    assert_eq!(w.get_opposite(), 1);
    assert_eq!(w.get_value(), -5);
    assert_eq!(MIXWord::from_value(-5), w);
    assert_eq!(MIXWord::from_value(0).get_opposite(), 0);
}

#[test]
fn divide_by_zero_leaves_registers() {
    let mut computer = MIXComputer::new();
    computer.register[0] = (0, 0, 1, 2, 3, 4).into();
    computer.register[7] = (1, 0, 0, 0, 0, 17).into();
    let mut cpu = MIXCPU::from(computer);
    let before_a = cpu.computer.register[0];
    let before_x = cpu.computer.register[7];
    let res = cpu.run_command("DIV 1000");
    assert_eq!(res, Err(Fault::DivideByZero));
    assert_eq!(cpu.computer.register[0], before_a);
    assert_eq!(cpu.computer.register[7], before_x);
}

#[test]
fn jump_bookkeeping() {
    let computer = MIXComputer::new();
    let mut cpu = MIXCPU::from(computer);
    cpu.location = 17;
    cpu.run_command("JMP 3000").unwrap();
    assert_eq!(cpu.location, 3000);
    assert_eq!(cpu.computer.register[8].get_unsinged(), 18);

    // 4095 fits the twelve-bit address field but lies outside memory.
    let res = cpu.run_command("JMP 4095");
    assert_eq!(res, Err(Fault::AddressOutOfRange));
    assert_eq!(cpu.location, 3000);
}

#[test]
fn jump_save_j_keeps_j() {
    let computer = MIXComputer::new();
    let mut cpu = MIXCPU::from(computer);
    cpu.location = 9;
    cpu.run_command("JSJ 100").unwrap();
    assert_eq!(cpu.location, 100);
    assert_eq!(cpu.computer.register[8].get_unsinged(), 0);
}

#[test]
fn conditional_jumps_and_overflow_flag() {
    let computer = MIXComputer::new();
    let mut cpu = MIXCPU::from(computer);
    cpu.computer.overflow = true;
    cpu.run_command("JNOV 50").unwrap();
    // Not taken, and the flag is cleared as a side effect.
    assert_eq!(cpu.location, 0);
    assert!(!cpu.computer.overflow);
    cpu.run_command("JNOV 50").unwrap();
    assert_eq!(cpu.location, 50);

    cpu.computer.register[0] = MIXWord::from_value(-3);
    cpu.run_command("JAN 60").unwrap();
    assert_eq!(cpu.location, 60);
}

#[test]
fn compare_sets_indicator() {
    let mut computer = MIXComputer::new();
    computer.register[0] = MIXWord::from_value(5);
    computer.memory[100] = MIXWord::from_value(9);
    let mut cpu = MIXCPU::from(computer);
    cpu.run_command("CMPA 100").unwrap();
    assert_eq!(cpu.computer.comp, Comparison::Less);
    cpu.computer.memory[100] = MIXWord::from_value(5);
    cpu.run_command("CMPA 100").unwrap();
    assert_eq!(cpu.computer.comp, Comparison::Equal);
    cpu.computer.memory[100] = MIXWord::from_value(-1);
    cpu.run_command("CMPA 100").unwrap();
    assert_eq!(cpu.computer.comp, Comparison::Greater);
}

#[test]
fn enter_and_increase() {
    let computer = MIXComputer::new();
    let mut cpu = MIXCPU::from(computer);
    cpu.run_command("ENTA 41").unwrap();
    assert_eq!(cpu.computer.register[0].get_value(), 41);
    cpu.run_command("INCA 1").unwrap();
    assert_eq!(cpu.computer.register[0].get_value(), 42);
    cpu.run_command("DECA 50").unwrap();
    assert_eq!(cpu.computer.register[0].get_value(), -8);
    cpu.run_command("ENNA 7").unwrap();
    assert_eq!(cpu.computer.register[0].get_value(), -7);
    cpu.run_command("ENTA -0").unwrap();
    assert_eq!(cpu.computer.register[0].get_value(), 0);
}

#[test]
fn add_overflow_sets_toggle() {
    let mut computer = MIXComputer::new();
    computer.register[0] = MIXWord::from_value((1 << 30) - 1);
    computer.memory[10] = MIXWord::from_value(1);
    let mut cpu = MIXCPU::from(computer);
    cpu.run_command("ADD 10").unwrap();
    assert!(cpu.computer.overflow);
    // The stored magnitude is truncated to 30 bits.
    assert_eq!(cpu.computer.register[0].get_value(), 0);
}

#[test]
fn add_to_zero_forces_positive_sign() {
    let mut computer = MIXComputer::new();
    computer.register[0] = MIXWord::from_value(-5);
    computer.memory[10] = MIXWord::from_value(5);
    let mut cpu = MIXCPU::from(computer);
    cpu.run_command("ADD 10").unwrap();
    assert_eq!(cpu.computer.register[0], MIXWord(0));
}

#[test]
fn shifts_on_accumulator() {
    let mut computer = MIXComputer::new();
    computer.register[0] = MIXWord::from_value(3);
    let mut cpu = MIXCPU::from(computer);
    cpu.run_command("SLA 4").unwrap();
    assert_eq!(cpu.computer.register[0].get_value(), 48);
    cpu.run_command("SRA 5").unwrap();
    assert_eq!(cpu.computer.register[0].get_value(), 1);
}

#[test]
fn shifts_on_pair() {
    let mut computer = MIXComputer::new();
    computer.register[0] = MIXWord(1);
    computer.register[7] = MIXWord(0);
    let mut cpu = MIXCPU::from(computer);
    // The low bit of A crosses into the high bit of X.
    cpu.run_command("SRAX 1").unwrap();
    assert_eq!(cpu.computer.register[0].get_unsinged(), 0);
    assert_eq!(cpu.computer.register[7].get_unsinged(), 1 << 29);
    cpu.run_command("SLAX 1").unwrap();
    assert_eq!(cpu.computer.register[0].get_unsinged(), 1);
    assert_eq!(cpu.computer.register[7].get_unsinged(), 0);
    // A full rotation brings the pair back.
    cpu.run_command("SLC 60").unwrap();
    assert_eq!(cpu.computer.register[0].get_unsinged(), 1);
    assert_eq!(cpu.computer.register[7].get_unsinged(), 0);
    cpu.run_command("SRC 30").unwrap();
    assert_eq!(cpu.computer.register[0].get_unsinged(), 0);
    assert_eq!(cpu.computer.register[7].get_unsinged(), 1);
}

#[test]
fn move_copies_words() {
    let mut computer = MIXComputer::new();
    computer.memory[1000] = MIXWord(11);
    computer.memory[1001] = MIXWord(22);
    computer.memory[1002] = MIXWord(33);
    computer.register[1] = MIXWord::from_value(2000);
    let mut cpu = MIXCPU::from(computer);
    cpu.run_command("MOVE 1000(3)").unwrap();
    assert_eq!(cpu.computer.memory[2000], MIXWord(11));
    assert_eq!(cpu.computer.memory[2001], MIXWord(22));
    assert_eq!(cpu.computer.memory[2002], MIXWord(33));
    assert_eq!(cpu.computer.register[1].get_value(), 2003);
}

#[test]
fn num_and_char_conversions() {
    let mut computer = MIXComputer::new();
    computer.register[0] = (0, 0, 0, 31, 32, 39).into();
    computer.register[7] = (0, 37, 57, 47, 30, 30).into();
    let mut cpu = MIXCPU::from(computer);
    // Bytes feed the packing as whole decimal digits, most significant
    // from A: 31*10^7 + 32*10^6 + ... + 30.
    cpu.run_command("NUM 0").unwrap();
    let packed = cpu.computer.register[0].get_unsinged();
    assert_eq!(packed, 346_332_030);
    cpu.run_command("ENTA 42").unwrap();
    cpu.run_command("CHAR 0").unwrap();
    assert_eq!(cpu.computer.register[0], (0, 0, 0, 0, 0, 0).into());
    assert_eq!(cpu.computer.register[7], (0, 0, 0, 0, 4, 2).into());
}

#[test]
fn halt_stops_and_faults_are_reported() {
    let mut computer = MIXComputer::new();
    computer.memory[0] = (0, 0, 0, 0, 2, 5).into(); // HLT
    let mut cpu = MIXCPU::from(computer);
    cpu.running = true;
    let res = cpu.step_in_run();
    assert_eq!(res, Ok(()));
    assert!(!cpu.running);
}

#[test]
fn free_run_continues_after_fault() {
    let mut computer = MIXComputer::new();
    // A division by zero faults, then a halt stops the run.
    let mut cpu = MIXCPU::from(MIXComputer::new());
    computer.memory[0] = cpu.parse("DIV 1000").unwrap();
    computer.memory[1] = (0, 0, 0, 0, 2, 5).into(); // HLT
    cpu.computer = computer;
    cpu.running = true;
    assert_eq!(cpu.step_in_run(), Err(Fault::DivideByZero));
    assert_eq!(cpu.location, 1);
    assert_eq!(cpu.step_in_run(), Ok(()));
    assert!(!cpu.running);
}

#[test]
fn unknown_and_malformed_commands() {
    let mut cpu = MIXCPU::from(MIXComputer::new());
    assert_eq!(cpu.run_command("XYZ 0"), Err(Fault::UnknownOperation));
    assert_eq!(cpu.run_command("LDA"), Err(Fault::InvalidArgument));
    assert_eq!(cpu.run_command("LDA 10(5"), Err(Fault::InvalidArgument));
    assert_eq!(cpu.run_command("LDQ 10"), Err(Fault::InvalidArgument));
    assert_eq!(cpu.run_command("ENQA 10"), Err(Fault::UnknownOperation));
}

#[test]
fn negative_load_inverts_sign() {
    let mut computer = MIXComputer::new();
    computer.memory[5] = (1, 0, 0, 0, 0, 7).into();
    let mut cpu = MIXCPU::from(computer);
    cpu.run_command("LDAN 5").unwrap();
    assert_eq!(cpu.computer.register[0].get_value(), 7);
    cpu.run_command("LDXN 5").unwrap();
    assert_eq!(cpu.computer.register[7].get_value(), 7);
    cpu.run_command("LD3 5").unwrap();
    assert_eq!(cpu.computer.register[3].get_value(), -7);
}

#[test]
fn device_instructions() {
    let mut cpu = MIXCPU::from(MIXComputer::new());
    // Input is a stub that always succeeds.
    assert_eq!(cpu.run_command("IN 100(3)"), Ok(()));
    // A device number without a slot is invalid.
    assert_eq!(cpu.run_command("OUT 100(19)"), Err(Fault::InvalidDevice));
    // An output block must fit inside memory.
    assert_eq!(
        cpu.run_command("OUT 3950(0)"),
        Err(Fault::AddressOutOfRange)
    );
}

#[test]
fn unit_block_sizes() {
    assert_eq!(Unit::new(0).get_block_size(), Some(100));
    assert_eq!(Unit::new(15).get_block_size(), Some(100));
    assert_eq!(Unit::new(16).get_block_size(), Some(16));
    assert_eq!(Unit::new(18).get_block_size(), Some(24));
    assert_eq!(Unit::new(20).get_block_size(), Some(14));
    assert_eq!(Unit::new(21).get_block_size(), None);
}

#[test]
fn write_memory_bounds() {
    let mut computer = MIXComputer::new();
    assert_eq!(computer.write_memory(3999, MIXWord(7)), Ok(()));
    assert_eq!(computer.memory[3999], MIXWord(7));
    assert_eq!(
        computer.write_memory(4000, MIXWord(7)),
        Err(Fault::AddressOutOfRange)
    );
}

#[test]
fn comparison_codes() {
    let mut computer = MIXComputer::new();
    assert_eq!(computer.comp_code(), -1);
    computer.set_comp_code(1).unwrap();
    assert_eq!(computer.comp, Comparison::Greater);
    computer.set_comp_code(0).unwrap();
    assert_eq!(computer.comp_code(), 0);
    assert_eq!(computer.set_comp_code(9), Err(Fault::InvalidArgument));
}

#[test]
fn unsupported_patterns_fault() {
    let mut cpu = MIXCPU::from(MIXComputer::new());
    // A shift field outside the table.
    let w: MIXWord = (0, 0, 0, 0, 9, 6).into();
    assert_eq!(cpu.execute(w), Err(Fault::UnsupportedOpcode));
    // A transfer field outside the table.
    let w: MIXWord = (0, 0, 0, 0, 4, 48).into();
    assert_eq!(cpu.execute(w), Err(Fault::UnsupportedOpcode));
    // A conversion field outside the table.
    let w: MIXWord = (0, 0, 0, 0, 3, 5).into();
    assert_eq!(cpu.execute(w), Err(Fault::UnsupportedOpcode));
    // A load whose field range is reversed.
    assert_eq!(cpu.run_command("LDA 10(3:1)"), Err(Fault::UnsupportedOpcode));
}

#[test]
fn move_faults_at_memory_edge() {
    let mut computer = MIXComputer::new();
    computer.memory[1000] = MIXWord(7);
    computer.memory[1001] = MIXWord(8);
    computer.memory[1002] = MIXWord(9);
    computer.register[1] = MIXWord::from_value(3998);
    let mut cpu = MIXCPU::from(computer);
    // The third word would land at 4000: the step faults, the first two
    // copies and increments stay.
    let res = cpu.run_command("MOVE 1000(3)");
    assert_eq!(res, Err(Fault::AddressOutOfRange));
    assert_eq!(cpu.computer.memory[3998], MIXWord(7));
    assert_eq!(cpu.computer.memory[3999], MIXWord(8));
    assert_eq!(cpu.computer.register[1].get_value(), 4000);
}

#[test]
fn execute_in_location_advances() {
    let mut computer = MIXComputer::new();
    computer.memory[0] = (0, 0, 5, 0, 2, 48).into(); // ENTA 5
    let mut cpu = MIXCPU::from(computer);
    cpu.execute_in_location().unwrap();
    assert_eq!(cpu.location, 1);
    assert_eq!(cpu.computer.register[0].get_value(), 5);
}

#[test]
fn negative_index_register_subtracts() {
    let mut computer = MIXComputer::new();
    computer.memory[95] = (0, 0, 0, 0, 0, 42).into();
    computer.register[1] = MIXWord::from_value(-5);
    let mut cpu = MIXCPU::from(computer);
    // Index registers enter address arithmetic by their signed value.
    cpu.run_command("LDA 100,1").unwrap();
    assert_eq!(cpu.computer.register[0].get_value(), 42);
}

#[test]
fn rotation_masks_pair_to_sixty_bits() {
    let mut computer = MIXComputer::new();
    // A's 31st magnitude bit rides above the 60-bit pair and is discarded.
    computer.register[0] = MIXWord(1 << 30);
    computer.register[7] = MIXWord(0);
    let mut cpu = MIXCPU::from(computer);
    cpu.run_command("SLC 30").unwrap();
    assert_eq!(cpu.computer.register[0].get_unsinged(), 0);
    assert_eq!(cpu.computer.register[7].get_unsinged(), 0);
}
