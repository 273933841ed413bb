use hc_08::parameters::baudrate::BaudRate;
use hc_08::parameters::role::Role;
use hc_08::parameters::uuid::UUID;
use hc_08::parameters::ParseError;
use hc_08::response::{
    check_ack, check_echo, decode_parameters, decode_role, decode_text, decode_uuid,
};
use hc_08::Error;

#[test]
fn only_ok_is_an_acknowledgement() {
    assert!(check_ack(b"OK").is_ok());
    for reply in [&b""[..], &b"O"[..], &b"ok"[..], &b"KO"[..], &b"OK\r"[..], &b"ER"[..], &b"\0\0"[..]] {
        assert!(matches!(check_ack(reply), Err(Error::WrongResponse)));
    }
}

#[test]
fn an_echo_has_to_match_byte_for_byte() {
    assert!(check_echo(b"OK+CINT=50", b"OK+CINT=50").is_ok());
    assert!(check_echo(b"", b"").is_ok());
    assert!(matches!(check_echo(b"OK+CINT=50", b"OK+CINT=51"), Err(Error::WrongResponse)));
    assert!(matches!(check_echo(b"OK+CINT=50", b"OK+CINT=5"), Err(Error::WrongResponse)));
    assert!(matches!(check_echo(b"OK+CINT=50", b"OK+CINT=500"), Err(Error::WrongResponse)));
    assert!(matches!(check_echo(b"OK+CINT=50", b"ok+cint=50"), Err(Error::WrongResponse)));
}

#[test]
fn role_reply_names_the_role() {
    assert_eq!(decode_role(b"Master").unwrap(), Role::Master);
    assert_eq!(decode_role(b"Slave").unwrap(), Role::Slave);
}

#[test]
fn role_reply_with_another_name_is_a_wrong_value() {
    for reply in [&b""[..], &b"Slave\r"[..], &b"Maste"[..], &b"MASTER"[..], &b"Sl\xc3\xa9ve"[..]] {
        assert!(matches!(decode_role(reply), Err(Error::ParseError(ParseError::WrongValue))));
    }
}

#[test]
fn role_reply_that_is_not_utf8_is_a_utf8_error() {
    assert!(matches!(decode_role(b"Mast\xffr"), Err(Error::Utf8Error(_))));
    assert!(matches!(decode_role(b"Slav\xc3"), Err(Error::Utf8Error(_))));
}

#[test]
fn uuid_reply_carries_the_identifier_behind_its_prefix() {
    assert_eq!(decode_uuid(b"OK+LUUID=", b"OK+LUUID=0eff").unwrap(), UUID(0xffe0));
    assert_eq!(decode_uuid(b"OK+SUUID=", b"OK+SUUID=BA00").unwrap(), UUID(0x00ab));
    assert_eq!(decode_uuid(b"OK+TUUID=", b"OK+TUUID=00ab").unwrap(), UUID(0xba00));
}

#[test]
fn uuid_reply_with_another_prefix_is_a_wrong_response() {
    assert!(matches!(decode_uuid(b"OK+LUUID=", b"OK+SUUID=ffe0"), Err(Error::WrongResponse)));
    assert!(matches!(decode_uuid(b"OK+LUUID=", b"ok+luuid=ffe0"), Err(Error::WrongResponse)));
    assert!(matches!(decode_uuid(b"OK+LUUID=", b"OK+LUUID"), Err(Error::WrongResponse)));
    assert!(matches!(decode_uuid(b"OK+LUUID=", b""), Err(Error::WrongResponse)));
}

#[test]
fn uuid_reply_with_bad_digits_is_a_parse_error() {
    assert!(matches!(
        decode_uuid(b"OK+LUUID=", b"OK+LUUID=ffg0"),
        Err(Error::ParseError(ParseError::ParseIntError(_)))
    ));
    assert!(matches!(
        decode_uuid(b"OK+LUUID=", b"OK+LUUID="),
        Err(Error::ParseError(ParseError::ParseIntError(_)))
    ));
    assert!(matches!(
        decode_uuid(b"OK+LUUID=", b"OK+LUUID=ff\xff0"),
        Err(Error::ParseError(ParseError::Uft8Error(_)))
    ));
    assert!(matches!(
        decode_uuid(b"OK+LUUID=", b"OK+LUUID=0ffe0"),
        Err(Error::ParseError(ParseError::WrongValue))
    ));
}

#[test]
fn text_reply_is_handed_out_as_it_came() {
    assert_eq!(decode_text(b"HC-08 V3.1,2017-07-07").unwrap(), "HC-08 V3.1,2017-07-07");
    assert_eq!(decode_text(b"").unwrap(), "");
    assert_eq!(decode_text(b"caf\xc3\xa9").unwrap(), "caf\u{e9}");
}

#[test]
fn text_reply_that_is_not_utf8_is_a_wrong_response() {
    assert!(matches!(decode_text(b"HC-08 \xff"), Err(Error::WrongResponse)));
    assert!(matches!(decode_text(b"\xc3"), Err(Error::WrongResponse)));
}

#[test]
fn three_lines_give_the_parameters() {
    let p = decode_parameters(b"Role:Slave\r\n", b"Baud:9600,NONE\r\n", b"Addr:AA:BB:CC:DD:EE:FF\r\n")
        .unwrap();
    assert_eq!(p.role, Role::Slave);
    assert_eq!(p.baud_rate, BaudRate::Bps9600);
    assert_eq!(p.addr.octets(), [0xaa, 0xbb, 0xcc, 0xdd, 0xee, 0xff]);
}

#[test]
fn the_first_line_that_cannot_be_read_decides_the_error() {
    assert!(matches!(
        decode_parameters(b"", b"Baud:9600", b"Addr:"),
        Err(Error::ParseError(ParseError::PrefixError))
    ));
    assert!(matches!(
        decode_parameters(b"Role:Slave\r\n", b"Baud:9600", b"Addr:"),
        Err(Error::ParseError(ParseError::WithoutNewline))
    ));
    assert!(matches!(
        decode_parameters(b"Role:Slave\r\n", b"Baud:96,NONE\r\n", b"Addr:"),
        Err(Error::ParseError(ParseError::WrongValue))
    ));
    assert!(matches!(
        decode_parameters(b"Role:Slave\r\n", b"Baud:x,NONE\r\n", b"Addr:"),
        Err(Error::ParseError(ParseError::ParseIntError(_)))
    ));
    assert!(matches!(
        decode_parameters(b"Role:Slave\r\n", b"Baud:9600,NONE\r\n", b"Bddr:AA:BB:CC:DD:EE:FF\r\n"),
        Err(Error::ParseError(ParseError::PrefixError))
    ));
    assert!(matches!(
        decode_parameters(b"Role:Slave\r\n", b"Baud:9600,NONE\r\n", b"Addr:AA:BB:CC:DD:EE:\xff\xff\r\n"),
        Err(Error::ParseError(ParseError::Uft8Error(_)))
    ));
}

#[test]
fn errors_are_made_from_the_errors_below_them() {
    assert!(matches!(
        Error::from(ParseError::WithoutNewline),
        Error::ParseError(ParseError::WithoutNewline)
    ));
    let utf8 = std::str::from_utf8(b"\xff").unwrap_err();
    assert!(matches!(Error::from(utf8), Error::Utf8Error(e) if e == utf8));
}
