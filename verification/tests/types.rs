use tis_100::types::IoRegister::{ANY, DIR, LAST};
use tis_100::types::Port::{DOWN, LEFT, RIGHT, UP};
use tis_100::types::Register::{ACC, IO, NIL};
use tis_100::types::Source::{REG, VAL};
use tis_100::types::{
    opposite_port, parse_source, IoRegister, ParseIoRegisterError, ParsePortError,
    ParseRegisterError, ParseSourceError, Port, Register, Source,
};

#[test]
fn test_parse_port() {
    assert_eq!(str::parse::<Port>("UP"), Ok(UP));
    assert_eq!(str::parse::<Port>("DOWN"), Ok(DOWN));
    assert_eq!(str::parse::<Port>("LEFT"), Ok(LEFT));
    assert_eq!(str::parse::<Port>("RIGHT"), Ok(RIGHT));
    assert_eq!(str::parse::<Port>("up"), Err(ParsePortError));
    assert_eq!(str::parse::<Port>("bad"), Err(ParsePortError));
}

#[test]
fn test_parse_io_register() {
    assert_eq!(str::parse::<IoRegister>("UP"), Ok(DIR(UP)));
    assert_eq!(str::parse::<IoRegister>("ANY"), Ok(ANY));
    assert_eq!(str::parse::<IoRegister>("LAST"), Ok(LAST));
    assert_eq!(str::parse::<IoRegister>("any"), Err(ParseIoRegisterError));
    assert_eq!(str::parse::<IoRegister>("bad"), Err(ParseIoRegisterError));
}

#[test]
fn test_parse_register() {
    assert_eq!(str::parse::<Register>("ACC"), Ok(ACC));
    assert_eq!(str::parse::<Register>("NIL"), Ok(NIL));
    assert_eq!(str::parse::<Register>("UP"), Ok(IO(DIR(UP))));
    assert_eq!(str::parse::<Register>("acc"), Err(ParseRegisterError));
    assert_eq!(str::parse::<Register>("bad"), Err(ParseRegisterError));
}

#[test]
fn test_parse_source() {
    assert_eq!(str::parse::<Source>("ACC"), Ok(REG(ACC)));
    assert_eq!(str::parse::<Source>("1"), Ok(VAL(1)));
    assert_eq!(str::parse::<Source>("bad"), Err(ParseSourceError));
}

#[test]
fn opposite_port_pairs() {
    assert_eq!(opposite_port(UP), DOWN);
    assert_eq!(opposite_port(DOWN), UP);
    assert_eq!(opposite_port(LEFT), RIGHT);
    assert_eq!(opposite_port(RIGHT), LEFT);
}

#[test]
fn opposite_port_twice_is_identity() {
    for port in [UP, DOWN, LEFT, RIGHT] {
        assert_eq!(opposite_port(opposite_port(port)), port);
    }
}

#[test]
fn source_numbers_are_read_with_sign_and_beyond_register_range() {
    assert_eq!(parse_source("-999"), Ok(VAL(-999)));
    assert_eq!(parse_source("+7"), Ok(VAL(7)));
    assert_eq!(parse_source("1000"), Ok(VAL(1000)));
    assert_eq!(parse_source("LAST"), Ok(REG(IO(LAST))));
    assert_eq!(parse_source("ANY"), Ok(REG(IO(ANY))));
    assert_eq!(parse_source("1x"), Err(ParseSourceError));
    assert_eq!(parse_source(""), Err(ParseSourceError));
}
