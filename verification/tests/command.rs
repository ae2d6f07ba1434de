use ethercat_master::command::{AddressError, Command, CommandCode, UnknownCommandCode};

fn all_commands() -> Vec<Command> {
    let (address, register) = (0x1001, 0x0130);
    vec![
        Command::Nop,
        Command::Aprd { address, register },
        Command::Fprd { address, register },
        Command::Brd { address, register },
        Command::Lrd { address: 0x0102_0304 },
        Command::Bwr { address, register },
        Command::Apwr { address, register },
        Command::Fpwr { address, register },
        Command::Frmw { address, register },
        Command::Lwr { address: 0x0102_0304 },
        Command::Lrw { address: 0xffff_fffe },
    ]
}

#[test]
fn command_defaults() {
    assert_eq!(Command::default(), Command::Nop);
    assert_eq!(CommandCode::default(), CommandCode::Nop);
}

#[test]
fn address_bytes() {
    assert_eq!(Command::Nop.address(), [0, 0, 0, 0]);
    assert_eq!(
        Command::Fprd { address: 0x1001, register: 0x0130 }.address(),
        [0x01, 0x10, 0x30, 0x01]
    );
    assert_eq!(Command::Lrw { address: 0x0102_0304 }.address(), [4, 3, 2, 1]);
}

#[test]
fn parse_reads_back_address() {
    for command in all_commands() {
        if command == Command::Nop {
            continue;
        }
        let mut input = command.address().to_vec();
        input.extend_from_slice(&[0xaa, 0xbb]);

        assert_eq!(
            command.code().parse_address(&input),
            Ok((&[0xaa, 0xbb][..], command))
        );
    }
}

#[test]
fn parse_nop_consumes_nothing() {
    assert_eq!(
        CommandCode::Nop.parse_address(&[1, 2, 3, 4, 5]),
        Ok((&[1, 2, 3, 4, 5][..], Command::Nop))
    );
    assert_eq!(CommandCode::Nop.parse_address(&[]), Ok((&[][..], Command::Nop)));
}

#[test]
fn parse_short_input() {
    // The incomplete integer starts at the beginning or after the first 16 bit integer
    assert_eq!(
        CommandCode::Aprd.parse_address(&[1]),
        Err(AddressError::Eof(&[1][..]))
    );
    assert_eq!(
        CommandCode::Aprd.parse_address(&[1, 2, 3]),
        Err(AddressError::Eof(&[3][..]))
    );
    assert_eq!(
        CommandCode::Aprd.parse_address(&[1, 2]),
        Err(AddressError::Eof(&[][..]))
    );
    assert_eq!(
        CommandCode::Lrd.parse_address(&[1, 2, 3]),
        Err(AddressError::Eof(&[1, 2, 3][..]))
    );
}

#[test]
fn parse_agrees_with_nom() {
    type NomError<'a> = nom::error::Error<&'a [u8]>;

    let input = [0x34, 0x12, 0x78, 0x56, 0x9a];
    for len in 0..=input.len() {
        let input = &input[..len];

        let long = nom::number::complete::le_u32::<_, NomError>(input);
        match (CommandCode::Lwr.parse_address(input), long) {
            (Ok((rest, command)), Ok((nom_rest, address))) => {
                assert_eq!(rest, nom_rest);
                assert_eq!(command, Command::Lwr { address });
            }
            (Err(AddressError::Eof(at)), Err(nom::Err::Error(e))) => assert_eq!(at, e.input),
            (ours, theirs) => panic!("{:?} {:?}", ours, theirs),
        }

        let words = nom::sequence::pair(
            nom::number::complete::le_u16::<_, NomError>,
            nom::number::complete::le_u16,
        )(input);
        match (CommandCode::Frmw.parse_address(input), words) {
            (Ok((rest, command)), Ok((nom_rest, (address, register)))) => {
                assert_eq!(rest, nom_rest);
                assert_eq!(command, Command::Frmw { address, register });
            }
            (Err(AddressError::Eof(at)), Err(nom::Err::Error(e))) => assert_eq!(at, e.input),
            (ours, theirs) => panic!("{:?} {:?}", ours, theirs),
        }
    }
}

#[test]
fn command_code_numbers() {
    let numbers = [0x00, 0x01, 0x04, 0x07, 0x0A, 0x08, 0x02, 0x05, 0x0E, 0x0B, 0x0C];

    for (command, number) in all_commands().iter().zip(numbers) {
        assert_eq!(command.code().as_u8(), number);
        assert_eq!(CommandCode::try_from_primitive(number), Ok(command.code()));
        assert_eq!(CommandCode::try_from(number), Ok(command.code()));
    }
    for number in 0..=255u8 {
        if !numbers.contains(&number) {
            assert_eq!(
                CommandCode::try_from_primitive(number),
                Err(UnknownCommandCode { number })
            );
            assert_eq!(CommandCode::try_from(number), Err(UnknownCommandCode { number }));
        }
    }
}

#[test]
fn command_text() {
    let texts = [
        "NOP",
        "APRD(addr 4097, reg 304)",
        "FPRD(addr 4097, reg 304",
        "BRD(addr 4097, reg 304",
        "LRD(addr 16909060)",
        "BWR(addr 4097, reg 304",
        "APWR(addr 4097, reg 304",
        "FPWR(addr 4097, reg 304",
        "FRMW(addr 4097, reg 304",
        "LWR(addr 16909060)",
        "LRW(addr 4294967294)",
    ];

    for (command, text) in all_commands().iter().zip(texts) {
        assert_eq!(command.to_string(), text);
    }
    assert_eq!(
        Command::Aprd { address: 0, register: 9 }.to_string(),
        "APRD(addr 0, reg 9)"
    );
}
