use roland_core::client::{
    read_outcome, read_request, response_complete, version_outcome, write_outcome, write_request,
};
use roland_core::{Address, Command, Response, RolandError, TelnetError};

#[test]
fn test_address_from_hex() {
    let addr = Address::from_hex("123456").unwrap();
    assert_eq!(addr.high, 0x12);
    assert_eq!(addr.mid, 0x34);
    assert_eq!(addr.low, 0x56);
}

#[test]
fn test_address_to_hex() {
    let addr = Address::new(0x12, 0x34, 0x56);
    assert_eq!(addr.to_hex(), "123456");
}

#[test]
fn test_address_write_hex() {
    let addr = Address::new(0x12, 0x34, 0x56);
    let mut s = String::new();
    addr.write_hex(&mut s).unwrap();
    assert_eq!(s, "123456");
}

#[test]
fn test_write_command() {
    let cmd = Command::WriteParameter {
        address: Address::from_hex("123456").unwrap(),
        value: 0x01,
    };
    assert_eq!(cmd.encode(), "DTH:123456,01;");
}

#[test]
fn test_write_command_write() {
    let cmd = Command::WriteParameter {
        address: Address::from_hex("123456").unwrap(),
        value: 0x01,
    };
    let mut s = String::new();
    cmd.write(&mut s).unwrap();
    assert_eq!(s, "DTH:123456,01;");
}

#[test]
fn test_read_command() {
    let cmd = Command::ReadParameter {
        address: Address::from_hex("123456").unwrap(),
        size: 1,
    };
    assert_eq!(cmd.encode(), "RQH:123456,000001;");
}

#[test]
fn test_version_command() {
    let cmd = Command::GetVersion;
    assert_eq!(cmd.encode(), "VER;");
}

#[test]
fn test_parse_ack() {
    let resp = Response::parse("\x06").unwrap();
    assert_eq!(resp, Response::Acknowledge);
}

#[test]
fn test_parse_data() {
    let resp = Response::parse("DTH:123456,01;").unwrap();
    match resp {
        Response::Data { address, value } => {
            assert_eq!(address.to_hex(), "123456");
            assert_eq!(value, 0x01);
        }
        _ => panic!("Expected Data response"),
    }
}

#[test]
fn test_parse_version() {
    let resp = Response::parse("VER:VR-6HD,1.00;").unwrap();
    match resp {
        Response::Version { product, version } => {
            assert_eq!(product, "VR-6HD");
            assert_eq!(version, "1.00");
        }
        _ => panic!("Expected Version response"),
    }
}

#[test]
fn test_parse_error() {
    let resp = Response::parse("ERR:0;").unwrap();
    match resp {
        Response::Error(RolandError::SyntaxError) => {}
        _ => panic!("Expected SyntaxError"),
    }
}

#[test]
fn hex_round_trip_upper_case() {
    for s in ["000000", "123456", "ABCDEF", "FFFFFF", "0A9B8C"] {
        assert_eq!(Address::from_hex(s).unwrap().to_hex(), s);
    }
}

#[test]
fn hex_lower_case_reads_as_upper() {
    let addr = Address::from_hex("abcdef").unwrap();
    assert_eq!(addr, Address::new(0xAB, 0xCD, 0xEF));
    assert_eq!(addr.to_hex(), "ABCDEF");
    assert_eq!(Address::from_hex("a1B2c3").unwrap().to_hex(), "A1B2C3");
}

#[test]
fn hex_pads_each_byte() {
    assert_eq!(Address::new(0x01, 0x00, 0x0F).to_hex(), "01000F");
}

#[test]
fn hex_wrong_length_is_invalid_address() {
    assert_eq!(Address::from_hex(""), Err(RolandError::InvalidAddress));
    assert_eq!(Address::from_hex("12345"), Err(RolandError::InvalidAddress));
    assert_eq!(Address::from_hex("1234567"), Err(RolandError::InvalidAddress));
}

#[test]
fn hex_bad_digit_is_invalid_address() {
    assert_eq!(Address::from_hex("12345G"), Err(RolandError::InvalidAddress));
    assert_eq!(Address::from_hex("+23456"), Err(RolandError::InvalidAddress));
    assert_eq!(Address::from_hex(" 12345"), Err(RolandError::InvalidAddress));
}

#[test]
fn hex_non_ascii_is_invalid_address() {
    assert_eq!(Address::from_hex("\u{20ac}abc"), Err(RolandError::InvalidAddress));
    assert_eq!(Address::from_hex("\u{e9}1234"), Err(RolandError::InvalidAddress));
    assert_eq!(Address::from_hex("12345\u{e9}"), Err(RolandError::InvalidAddress));
}

#[test]
fn write_command_layout() {
    let cmd = Command::WriteParameter {
        address: Address::new(0xAB, 0x0C, 0x00),
        value: 0xFF,
    };
    assert_eq!(cmd.encode(), "DTH:AB0C00,FF;");
    let cmd = Command::WriteParameter {
        address: Address::new(0, 0, 0),
        value: 0x0A,
    };
    assert_eq!(cmd.encode(), "DTH:000000,0A;");
}

#[test]
fn version_command_with_and_without_stx() {
    assert_eq!(Command::GetVersion.encode(), "VER;");
    assert_eq!(Command::GetVersion.encode_with_stx(), "\x02VER;");
}

#[test]
fn read_command_size_one_at_zero() {
    let cmd = Command::ReadParameter {
        address: Address::from_hex("000000").unwrap(),
        size: 1,
    };
    assert_eq!(cmd.encode(), "RQH:000000,000001;");
}

#[test]
fn read_command_size_keeps_low_24_bits() {
    let cmd = Command::ReadParameter {
        address: Address::new(1, 2, 3),
        size: 0x12345678,
    };
    assert_eq!(cmd.encode(), "RQH:010203,345678;");
    let cmd = Command::ReadParameter {
        address: Address::new(1, 2, 3),
        size: u32::MAX,
    };
    assert_eq!(cmd.encode(), "RQH:010203,FFFFFF;");
}

#[test]
fn write_with_stx_appends_to_sink() {
    let cmd = Command::WriteParameter {
        address: Address::new(0x12, 0x34, 0x56),
        value: 0x7F,
    };
    let mut s = String::from("x");
    cmd.write_with_stx(&mut s).unwrap();
    assert_eq!(s, "x\x02DTH:123456,7F;");
    assert_eq!(cmd.encode_with_stx(), "\x02DTH:123456,7F;");
}

#[test]
fn parse_ack_text() {
    assert_eq!(Response::parse("ack"), Ok(Response::Acknowledge));
    assert_eq!(Response::parse("\x02ack"), Ok(Response::Acknowledge));
    assert_eq!(Response::parse("  \x06\r\n"), Ok(Response::Acknowledge));
    assert_eq!(Response::parse("ACK"), Err(RolandError::InvalidResponse));
}

#[test]
fn parse_data_equals_parsed_address() {
    assert_eq!(
        Response::parse("DTH:123456,01;"),
        Ok(Response::Data {
            address: Address::from_hex("123456").unwrap(),
            value: 0x01,
        })
    );
    assert_eq!(
        Response::parse("\x02DTH:abcdef,ff;\r\n"),
        Ok(Response::Data {
            address: Address::new(0xAB, 0xCD, 0xEF),
            value: 0xFF,
        })
    );
}

#[test]
fn parse_version_fields() {
    assert_eq!(
        Response::parse("VER:VR-6HD,1.00;"),
        Ok(Response::Version {
            product: String::from("VR-6HD"),
            version: String::from("1.00"),
        })
    );
    assert_eq!(
        Response::parse("VER:,;"),
        Ok(Response::Version {
            product: String::new(),
            version: String::new(),
        })
    );
}

#[test]
fn parse_error_codes() {
    assert_eq!(Response::parse("ERR:0;"), Ok(Response::Error(RolandError::SyntaxError)));
    assert_eq!(Response::parse("ERR:4;"), Ok(Response::Error(RolandError::Invalid)));
    assert_eq!(Response::parse("ERR:5;"), Ok(Response::Error(RolandError::OutOfRange)));
    assert_eq!(Response::parse("ERR:6;"), Ok(Response::Error(RolandError::NoStx)));
    assert_eq!(Response::parse("ERR:99;"), Ok(Response::Error(RolandError::UnknownError(99))));
    assert_eq!(Response::parse("ERR:255;"), Ok(Response::Error(RolandError::UnknownError(255))));
    assert_eq!(Response::parse("ERR:007;"), Ok(Response::Error(RolandError::UnknownError(7))));
}

#[test]
fn parse_error_code_out_of_range_or_signed() {
    assert_eq!(Response::parse("ERR:256;"), Err(RolandError::InvalidResponse));
    assert_eq!(Response::parse("ERR:1000;"), Err(RolandError::InvalidResponse));
    assert_eq!(Response::parse("ERR:+1;"), Err(RolandError::InvalidResponse));
    assert_eq!(Response::parse("ERR:-1;"), Err(RolandError::InvalidResponse));
    assert_eq!(Response::parse("ERR:1a;"), Err(RolandError::InvalidResponse));
}

#[test]
fn parse_missing_terminator() {
    for s in ["DTH:123456,01", "VER:VR-6HD,1.00", "ERR:0", "DTH:", "VER:", "ERR:"] {
        assert_eq!(Response::parse(s), Err(RolandError::InvalidResponse));
    }
}

#[test]
fn parse_flow_control_refused() {
    for s in ["xon", "xoff", "\x11", "\x13"] {
        assert_eq!(Response::parse(s), Err(RolandError::InvalidResponse));
    }
}

#[test]
fn parse_refuses_request_encodings() {
    let read = Command::ReadParameter {
        address: Address::new(0x12, 0x34, 0x56),
        size: 1,
    };
    assert!(Response::parse(&read.encode()).is_err());
    assert!(Response::parse(&read.encode_with_stx()).is_err());
    assert!(Response::parse(&Command::GetVersion.encode()).is_err());
    assert!(Response::parse(&Command::GetVersion.encode_with_stx()).is_err());
}

#[test]
fn parse_wrong_field_count() {
    assert_eq!(Response::parse("DTH:123456;"), Err(RolandError::InvalidResponse));
    assert_eq!(Response::parse("DTH:123456,01,02;"), Err(RolandError::InvalidResponse));
    assert_eq!(Response::parse("VER:VR-6HD;"), Err(RolandError::InvalidResponse));
    assert_eq!(Response::parse("VER:a,b,c;"), Err(RolandError::InvalidResponse));
}

#[test]
fn parse_bad_address_or_value() {
    assert_eq!(Response::parse("DTH:12345Z,01;"), Err(RolandError::InvalidAddress));
    assert_eq!(Response::parse("DTH:1234,01;"), Err(RolandError::InvalidAddress));
    assert_eq!(Response::parse("DTH:123456,0G;"), Err(RolandError::InvalidAddress));
    assert_eq!(Response::parse("DTH:123456,001;"), Err(RolandError::InvalidAddress));
}

#[test]
fn parse_unknown_shapes() {
    for s in ["", "   ", "FOO;", "dth:123456,01;", "VER;", "\x02\x02ack"] {
        assert_eq!(Response::parse(s), Err(RolandError::InvalidResponse));
    }
}

#[test]
fn error_messages() {
    assert_eq!(RolandError::SyntaxError.message(), "Syntax error in received command");
    assert_eq!(RolandError::InvalidResponse.message(), "Invalid response format");
    assert_eq!(RolandError::UnknownError(0).message(), "Unknown error code: 0");
    assert_eq!(RolandError::UnknownError(42).message(), "Unknown error code: 42");
    assert_eq!(RolandError::UnknownError(200).message(), "Unknown error code: 200");
}

#[test]
fn completion_of_received_text() {
    assert!(response_complete("DTH:123456,01;"));
    assert!(response_complete("ERR:0;"));
    for s in ["\x06", "ack", "\x11", "xon", "\x13", "xoff"] {
        assert!(response_complete(s));
    }
    assert!(!response_complete("ab\x11"));
    assert!(!response_complete("\x13cd"));
    assert!(!response_complete("ac"));
    assert!(!response_complete("DTH:1234"));
    assert!(!response_complete(""));
}

#[test]
fn requests_from_hex_text() {
    assert_eq!(
        write_request("123456", 9),
        Ok(Command::WriteParameter {
            address: Address::new(0x12, 0x34, 0x56),
            value: 9,
        })
    );
    assert_eq!(
        read_request("00ff00", 1),
        Ok(Command::ReadParameter {
            address: Address::new(0, 0xFF, 0),
            size: 1,
        })
    );
    assert_eq!(write_request("xyz", 1), Err(RolandError::InvalidAddress));
    assert_eq!(read_request("1234567", 1), Err(RolandError::InvalidAddress));
}

#[test]
fn outcomes_of_responses() {
    assert_eq!(write_outcome(Response::Acknowledge), Ok(()));
    assert_eq!(write_outcome(Response::Error(RolandError::OutOfRange)), Err(RolandError::OutOfRange));
    assert_eq!(
        write_outcome(Response::Data { address: Address::new(0, 0, 0), value: 1 }),
        Err(RolandError::InvalidResponse)
    );
    assert_eq!(read_outcome(Response::Data { address: Address::new(0, 0, 0), value: 7 }), Ok(7));
    assert_eq!(read_outcome(Response::Acknowledge), Err(RolandError::InvalidResponse));
    assert_eq!(
        version_outcome(Response::Version { product: String::from("P"), version: String::from("V") }),
        Ok((String::from("P"), String::from("V")))
    );
    assert_eq!(version_outcome(Response::Error(RolandError::NoStx)), Err(RolandError::NoStx));
}

#[test]
fn telnet_error_from_protocol_error() {
    let e: TelnetError = RolandError::Invalid.into();
    assert!(matches!(e, TelnetError::Protocol(RolandError::Invalid)));
}

#[test]
fn parse_empty_error_code_refused() {
    assert_eq!(Response::parse("ERR:;"), Err(RolandError::InvalidResponse));
    assert_eq!(Response::parse("ERR: ;"), Err(RolandError::InvalidResponse));
}

#[test]
fn parse_strips_stx_before_white_space() {
    assert_eq!(Response::parse("\x02 ack\n"), Ok(Response::Acknowledge));
    assert_eq!(
        Response::parse("\x02\tVER:X,1;"),
        Ok(Response::Version {
            product: String::from("X"),
            version: String::from("1"),
        })
    );
}
