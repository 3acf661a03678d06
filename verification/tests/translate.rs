use mixe::{parse, format_instruction, Fault, MIXWord};

#[test]
fn free_parse_matches_method() {
    let w = parse("LDA 2000,2(0:3)").unwrap();
    assert_eq!(w, (0, 0, 2000, 2, 3, 8).into());
    assert_eq!(parse("STJ 1000").unwrap(), (0, 1000 / 64, 1000 % 64, 0, 2, 32).into());
    assert_eq!(parse("MOVE 50"), Ok((0, 0, 50, 0, 1, 7).into()));
    assert_eq!(parse("ENTA 5"), Ok((0, 0, 5, 0, 2, 48).into()));
    assert_eq!(parse("HLT 0"), Ok((0, 0, 0, 0, 2, 5).into()));
    assert_eq!(parse("SLAX 3"), Ok((0, 0, 3, 0, 2, 6).into()));
    assert_eq!(parse("nonsense"), Err(Fault::InvalidArgument));
}

#[test]
fn format_renders_instructions() {
    let w: MIXWord = (0, 0, 2000, 0, 5, 8).into();
    assert_eq!(format_instruction(w).unwrap(), "LDA 2000");
    let w: MIXWord = (0, 0, 2000, 2, 11, 8).into();
    assert_eq!(format_instruction(w).unwrap(), "LDA 2000,2(11)");
    let w: MIXWord = (1, 0, 2000, 4, 5, 8).into();
    assert_eq!(format_instruction(w).unwrap(), "LDA- 2000,4");
    let w: MIXWord = (0, 1000 / 64, 1000 % 64, 0, 2, 32).into();
    assert_eq!(format_instruction(w).unwrap(), "STJ 1000");
    let w: MIXWord = (0, 0, 0, 0, 2, 5).into();
    assert_eq!(format_instruction(w).unwrap(), "HLT 0(2)");
    let w: MIXWord = (0, 0, 3, 0, 2, 6).into();
    assert_eq!(format_instruction(w).unwrap(), "SLAX 3(2)");
    let w: MIXWord = (0, 0, 7, 0, 3, 55).into();
    assert_eq!(format_instruction(w).unwrap(), "ENNX 7(3)");
    let w: MIXWord = (0, 0, 100, 0, 5, 56).into();
    assert_eq!(format_instruction(w).unwrap(), "CMPA 100");
    let w: MIXWord = (0, 0, 100, 0, 5, 63).into();
    assert_eq!(format_instruction(w).unwrap(), "CMPX 100");
    // A field pattern outside the table cannot be rendered.
    let w: MIXWord = (0, 0, 0, 0, 9, 6).into();
    assert_eq!(format_instruction(w), Err(Fault::UnsupportedOpcode));
}

#[test]
fn format_parse_round_trip() {
    // The minus marker is rendered against the mnemonic, where the parser
    // does not look, so only nonnegative words round-trip.
    let words = [
        (0u32, 0u32, 2000u32, 2u32, 11u32, 8u32),
        (0, 0, 100, 0, 5, 1),
        (0, 0, 0, 0, 2, 5),
        (0, 1000 / 64, 1000 % 64, 0, 2, 32),
        (0, 0, 3, 0, 2, 6),
        (0, 0, 5, 0, 2, 48),
        (0, 0, 50, 0, 1, 7),
        (0, 0, 300, 1, 5, 40),
        (0, 0, 100, 0, 5, 56),
        (0, 0, 100, 2, 13, 59),
    ];
    for t in words {
        let w: MIXWord = t.into();
        let text = format_instruction(w).unwrap();
        assert_eq!(parse(&text), Ok(w));
    }
}

#[test]
fn describe_names_faults() {
    assert_eq!(Fault::DivideByZero.describe(), "divide by zero");
    assert_eq!(Fault::AddressOutOfRange.describe(), "address out of range");
    assert_eq!(Fault::InvalidArgument.describe(), "invalid argument");
    assert_eq!(Fault::UnknownOperation.describe(), "unknown operation");
    assert_eq!(Fault::InvalidDevice.describe(), "invalid device");
    assert_eq!(Fault::UnsupportedOpcode.describe(), "unsupported opcode");
}
