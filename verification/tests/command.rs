use hc_08::command::{
    build_change_connect_internal_command, build_change_connect_internal_response,
    build_change_connect_timeout_command, build_change_connect_timeout_response,
    build_change_connectable_command, build_change_role_command,
    build_set_characteristic_uuid_command, build_set_characteristic_uuid_response,
    build_set_connect_uuid_command, build_set_connect_uuid_response,
    build_set_service_uuid_command, build_set_service_uuid_response, num2hex,
    CHANGE_BROADCAST_BASE, CHANGE_CONNECT_INTERNAL_BASE, CHANGE_CONNECT_INTERNAL_RESPONSE,
    CHANGE_CONNECT_TIMEOUT_BASE, CHANGE_CONNECT_TIMEOUT_RESPONSE, CHANGE_NAME_BASE,
    CHARACTERISTIC_UUID_RESPONSE, CLEAR_ADDR, CONNECTABLE_BASE, CONNECT_UUID_RESPONSE, OK_QUERY,
    OK_RESPONSE, QUERY_CHARACTERISTIC_UUID, QUERY_CONNECTABLE, QUERY_CONNECT_UUID, QUERY_NAME,
    QUERY_PARAMS_COMMAND, QUERY_ROLE, QUERY_SERVICE_UUID, QUERY_VERSION, RESET_SETTINGS_COMMAND,
    ROLE_BASE, SERVICE_UUID_RESPONSE, SET_CHARACTERISTIC_UUID_BASE, SET_CONNECT_UUID_BASE,
    SET_SERVICE_UUID_BASE,
};
use hc_08::parameters::connectable::IsConnectable;
use hc_08::parameters::role::Role;
use hc_08::parameters::uuid::UUID;

#[test]
fn constants_spell_the_commands() {
    assert_eq!(&OK_QUERY, b"AT");
    assert_eq!(&OK_RESPONSE, b"OK");
    assert_eq!(&QUERY_PARAMS_COMMAND, b"AT+RX");
    assert_eq!(&RESET_SETTINGS_COMMAND, b"AT+DEFAULT");
    assert_eq!(&QUERY_VERSION, b"AT+VERSION");
    assert_eq!(&ROLE_BASE, b"AT+ROLE=");
    assert_eq!(&QUERY_ROLE, b"AT+ROLE=?");
    assert_eq!(&CONNECTABLE_BASE, b"AT+CONT=");
    assert_eq!(&QUERY_CONNECTABLE, b"AT+CONT=?");
    assert_eq!(&CHANGE_BROADCAST_BASE, b"AT+AVDA=");
    assert_eq!(&CHANGE_NAME_BASE, b"AT+NAME=");
    assert_eq!(&QUERY_NAME, b"AT+NAME=?");
    assert_eq!(&CLEAR_ADDR, b"AT+CLEAR");
    assert_eq!(&CHANGE_CONNECT_INTERNAL_BASE, b"AT+CINT=");
    assert_eq!(&CHANGE_CONNECT_INTERNAL_RESPONSE, b"OK+CINT=");
    assert_eq!(&CHANGE_CONNECT_TIMEOUT_BASE, b"AT+CTOUT=");
    assert_eq!(&CHANGE_CONNECT_TIMEOUT_RESPONSE, b"OK+CTOUT=");
    assert_eq!(&SET_CONNECT_UUID_BASE, b"AT+LUUID=");
    assert_eq!(&CONNECT_UUID_RESPONSE, b"OK+LUUID=");
    assert_eq!(&QUERY_CONNECT_UUID, b"AT+LUUID=?");
    assert_eq!(&SET_SERVICE_UUID_BASE, b"AT+SUUID=");
    assert_eq!(&SERVICE_UUID_RESPONSE, b"OK+SUUID=");
    assert_eq!(&QUERY_SERVICE_UUID, b"AT+SUUID=?");
    assert_eq!(&SET_CHARACTERISTIC_UUID_BASE, b"AT+TUUID=");
    assert_eq!(&CHARACTERISTIC_UUID_RESPONSE, b"OK+TUUID=");
    assert_eq!(&QUERY_CHARACTERISTIC_UUID, b"AT+TUUID=?");
}

#[test]
fn role_command_ends_in_the_letter_of_the_role() {
    assert_eq!(&build_change_role_command(Role::Master), b"AT+ROLE=M");
    assert_eq!(&build_change_role_command(Role::Slave), b"AT+ROLE=S");
}

#[test]
fn connectable_is_zero_and_not_connectable_is_one() {
    let yes = build_change_connectable_command(IsConnectable(true));
    let no = build_change_connectable_command(IsConnectable(false));
    assert_eq!(yes[9], b'0');
    assert_eq!(no[9], b'1');
    assert_eq!(&yes, b"AT+CONT=\x000");
    assert_eq!(&no, b"AT+CONT=\x001");
}

#[test]
fn equal_interval_bounds_give_one_number() {
    let mut buffer = [0u8; 20];
    let cmd = build_change_connect_internal_command(40, 40, &mut buffer);
    assert_eq!(cmd, b"AT+CINT=50");
    assert!(cmd.ends_with(b"50"));
}

#[test]
fn different_interval_bounds_give_two_numbers() {
    let mut buffer = [0u8; 20];
    let cmd = build_change_connect_internal_command(8, 800, &mut buffer);
    assert_eq!(cmd, b"AT+CINT=10,1000");
    assert!(cmd.ends_with(b"10,1000"));
}

#[test]
fn interval_bounds_are_compared_after_scaling() {
    let mut buffer = [0u8; 20];
    assert_eq!(build_change_connect_internal_command(40, 43, &mut buffer), b"AT+CINT=50");
    assert_eq!(build_change_connect_internal_command(40, 44, &mut buffer), b"AT+CINT=50,55");
    assert_eq!(build_change_connect_internal_command(44, 40, &mut buffer), b"AT+CINT=55,50");
}

#[test]
fn interval_scaling_drops_the_remainder_of_the_division() {
    let mut buffer = [0u8; 20];
    assert_eq!(build_change_connect_internal_command(0, 0, &mut buffer), b"AT+CINT=0");
    assert_eq!(build_change_connect_internal_command(3, 3, &mut buffer), b"AT+CINT=0");
    assert_eq!(build_change_connect_internal_command(3, 4, &mut buffer), b"AT+CINT=0,5");
    assert_eq!(build_change_connect_internal_command(7, 9, &mut buffer), b"AT+CINT=5,10");
    assert_eq!(build_change_connect_internal_command(4000, 4003, &mut buffer), b"AT+CINT=5000");
}

#[test]
fn interval_of_the_largest_bounds_does_not_wrap() {
    let mut buffer = [0u8; 29];
    assert_eq!(
        build_change_connect_internal_command(u32::MAX, u32::MAX, &mut buffer),
        b"AT+CINT=5368709115"
    );
    assert_eq!(
        build_change_connect_internal_command(0, u32::MAX, &mut buffer),
        b"AT+CINT=0,5368709115"
    );
    assert_eq!(
        build_change_connect_internal_command(u32::MAX - 4, u32::MAX, &mut buffer),
        b"AT+CINT=5368709110,5368709115"
    );
    assert_eq!(
        build_change_connect_internal_response(u32::MAX - 4, u32::MAX, &mut buffer),
        b"OK+CINT=5368709110,5368709115"
    );
}

#[test]
fn interval_command_leaves_the_rest_of_the_buffer() {
    let mut buffer = [0xeeu8; 14];
    let n = build_change_connect_internal_command(40, 40, &mut buffer).len();
    assert_eq!(n, 10);
    assert_eq!(&buffer, b"AT+CINT=50\xee\xee\xee\xee");
    let mut exact = [0u8; 10];
    assert_eq!(build_change_connect_internal_command(40, 40, &mut exact), b"AT+CINT=50");
}

#[test]
fn interval_response_mirrors_the_command() {
    let mut buffer = [0u8; 20];
    assert_eq!(build_change_connect_internal_response(40, 40, &mut buffer), b"OK+CINT=50");
    assert_eq!(build_change_connect_internal_response(8, 800, &mut buffer), b"OK+CINT=10,1000");
    assert_eq!(build_change_connect_internal_response(0, 0, &mut buffer), b"OK+CINT=0");
}

#[test]
fn timeout_is_sent_in_tenths() {
    let mut buffer = [0u8; 20];
    assert_eq!(build_change_connect_timeout_command(1000, &mut buffer), b"AT+CTOUT=100");
    assert_eq!(build_change_connect_timeout_command(6000, &mut buffer), b"AT+CTOUT=600");
    assert_eq!(build_change_connect_timeout_command(19, &mut buffer), b"AT+CTOUT=1");
    assert_eq!(build_change_connect_timeout_command(9, &mut buffer), b"AT+CTOUT=0");
    assert_eq!(build_change_connect_timeout_command(0, &mut buffer), b"AT+CTOUT=0");
    assert_eq!(build_change_connect_timeout_command(u32::MAX, &mut buffer), b"AT+CTOUT=429496729");
}

#[test]
fn timeout_response_mirrors_the_command() {
    let mut buffer = [0xeeu8; 14];
    assert_eq!(build_change_connect_timeout_response(1000, &mut buffer), b"OK+CTOUT=100");
    assert_eq!(&buffer, b"OK+CTOUT=100\xee\xee");
    assert_eq!(build_change_connect_timeout_response(0, &mut buffer), b"OK+CTOUT=0");
    assert_eq!(&buffer, b"OK+CTOUT=000\xee\xee");
}

#[test]
fn decimal_digits_are_written_most_significant_first() {
    let mut buffer = [0xeeu8; 22];
    assert_eq!(num2hex(0, &mut buffer), 1);
    assert_eq!(&buffer[..2], b"0\xee");
    assert_eq!(num2hex(7, &mut buffer), 1);
    assert_eq!(&buffer[..2], b"7\xee");
    assert_eq!(num2hex(10, &mut buffer), 2);
    assert_eq!(&buffer[..3], b"10\xee");
    assert_eq!(num2hex(12, &mut buffer), 2);
    assert_eq!(&buffer[..3], b"12\xee");
    assert_eq!(num2hex(120, &mut buffer), 3);
    assert_eq!(&buffer[..4], b"120\xee");
    assert_eq!(num2hex(1234567890, &mut buffer), 10);
    assert_eq!(&buffer[..11], b"1234567890\xee");
    assert_eq!(num2hex(u64::MAX, &mut buffer), 20);
    assert_eq!(&buffer, b"18446744073709551615\xee\xee");
    let mut one = [0u8; 1];
    assert_eq!(num2hex(9, &mut one), 1);
    assert_eq!(&one, b"9");
}

#[test]
fn uuid_commands_end_in_the_four_digits() {
    assert_eq!(&build_set_connect_uuid_command(UUID(0x00ab)), b"AT+LUUID=ba00");
    assert_eq!(&build_set_connect_uuid_response(UUID(0x00ab)), b"OK+LUUID=ba00");
    assert_eq!(&build_set_service_uuid_command(UUID(0xffe0)), b"AT+SUUID=0eff");
    assert_eq!(&build_set_service_uuid_response(UUID(0xffe0)), b"OK+SUUID=0eff");
    assert_eq!(&build_set_characteristic_uuid_command(UUID(0xffe1)), b"AT+TUUID=1eff");
    assert_eq!(&build_set_characteristic_uuid_response(UUID(0xffe1)), b"OK+TUUID=1eff");
    assert_eq!(&build_set_connect_uuid_command(UUID(0x1234_5678)), b"AT+LUUID=8765");
}
