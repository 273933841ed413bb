use hc_08::parameters::baudrate::BaudRate;
use hc_08::parameters::connectable::IsConnectable;
use hc_08::parameters::role::Role;
use hc_08::parameters::uuid::UUID;
use hc_08::parameters::ParseError;
use hc_08::transport::{Delay, Transport};
use hc_08::{Connectable, Error, Hc08, Master, NonConnectable, Slave};
use std::cell::RefCell;
use std::collections::VecDeque;
use std::rc::Rc;

/// What a driver did, as the far end of the line saw it.
#[derive(Debug, Clone, PartialEq, Eq)]
enum Step {
    Sent(Vec<u8>),
    Received(Vec<u8>),
    Slept(u32),
}

#[derive(Default)]
struct Bench {
    incoming: VecDeque<u8>,
    steps: Vec<Step>,
}

/// A line and a clock in one, with the replies of the module written down
/// beforehand. Reading beyond them fails the test.
#[derive(Clone, Default)]
struct Script(Rc<RefCell<Bench>>);

impl Script {
    fn replying(replies: &[&[u8]]) -> Script {
        let script = Script::default();
        script.reply(replies);
        script
    }

    fn reply(&self, replies: &[&[u8]]) {
        let mut bench = self.0.borrow_mut();
        for reply in replies {
            bench.incoming.extend(reply.iter().copied());
        }
    }

    fn unread(&self) -> Vec<u8> {
        self.0.borrow().incoming.iter().copied().collect()
    }

    /// The steps since the last call, runs of bytes taken together.
    fn steps(&self) -> Vec<Step> {
        std::mem::take(&mut self.0.borrow_mut().steps)
    }
}

impl Transport for Script {
    fn write_byte(&mut self, byte: u8) {
        let mut bench = self.0.borrow_mut();
        match bench.steps.last_mut() {
            Some(Step::Sent(bytes)) => bytes.push(byte),
            _ => bench.steps.push(Step::Sent(vec![byte])),
        }
    }

    fn read_byte(&mut self) -> u8 {
        let mut bench = self.0.borrow_mut();
        let byte = bench.incoming.pop_front().expect("the driver read more than the module sent");
        match bench.steps.last_mut() {
            Some(Step::Received(bytes)) => bytes.push(byte),
            _ => bench.steps.push(Step::Received(vec![byte])),
        }
        byte
    }
}

impl Delay for Script {
    fn sleep_ms(&mut self, ms: u32) {
        self.0.borrow_mut().steps.push(Step::Slept(ms));
    }
}

fn sent(bytes: &[u8]) -> Step {
    Step::Sent(bytes.to_vec())
}

fn received(bytes: &[u8]) -> Step {
    Step::Received(bytes.to_vec())
}

fn central(script: &Script) -> Hc08<Script, Script, Master, Connectable> {
    script.reply(&[b"OK"]);
    let driver = match Hc08::new(script.clone(), script.clone()) {
        Ok(driver) => driver,
        Err(e) => panic!("no driver: {:?}", e),
    };
    assert_eq!(script.steps(), vec![sent(b"AT+DEFAULT"), received(b"OK")]);
    driver
}

fn peripheral(script: &Script) -> Hc08<Script, Script, Slave, Connectable> {
    script.reply(&[b"OK", b"OK"]);
    let driver = match central(script).into_peripheral_mode() {
        Ok(driver) => driver,
        Err(_) => panic!("the change of mode failed"),
    };
    script.steps();
    driver
}

fn broadcast(script: &Script) -> Hc08<Script, Script, Slave, NonConnectable> {
    script.reply(&[b"OK", b"OK"]);
    let driver = match central(script).into_broadcast_mode() {
        Ok(driver) => driver,
        Err(_) => panic!("the change of mode failed"),
    };
    script.steps();
    driver
}

#[test]
fn new_resets_the_module() {
    let script = Script::replying(&[b"OK"]);
    assert!(Hc08::new(script.clone(), script.clone()).is_ok());
    assert_eq!(script.steps(), vec![sent(b"AT+DEFAULT"), received(b"OK")]);
    assert!(script.unread().is_empty());
}

#[test]
fn new_fails_where_the_reset_is_not_acknowledged() {
    let script = Script::replying(&[b"ER"]);
    assert!(matches!(Hc08::new(script.clone(), script.clone()), Err(Error::WrongResponse)));
    assert_eq!(script.steps(), vec![sent(b"AT+DEFAULT"), received(b"ER")]);
}

#[test]
fn write_buffer_sends_every_byte_in_order() {
    let script = Script::default();
    let mut driver = central(&script);
    assert!(driver.write_buffer(b"zequan").is_ok());
    assert_eq!(script.steps(), vec![sent(b"zequan")]);
    assert!(driver.write_buffer(b"").is_ok());
    assert_eq!(script.steps(), vec![]);
}

#[test]
fn read_buffer_fills_the_buffer() {
    let script = Script::default();
    let mut driver = central(&script);
    script.reply(&[b"hello world"]);
    let mut buffer = [0u8; 5];
    assert!(driver.read_buffer(&mut buffer).is_ok());
    assert_eq!(&buffer, b"hello");
    assert_eq!(script.unread(), b" world");
    let mut none = [0u8; 0];
    assert!(driver.read_buffer(&mut none).is_ok());
    assert_eq!(script.steps(), vec![received(b"hello")]);
}

#[test]
fn is_ok_asks_with_at() {
    let script = Script::default();
    let mut driver = central(&script);
    script.reply(&[b"OK", b"KO"]);
    assert!(driver.is_ok());
    assert_eq!(script.steps(), vec![sent(b"AT"), received(b"OK")]);
    assert!(!driver.is_ok());
    assert_eq!(script.steps(), vec![sent(b"AT"), received(b"KO")]);
}

#[test]
fn reset_setting_expects_ok() {
    let script = Script::default();
    let mut driver = central(&script);
    script.reply(&[b"OK", b"OZ"]);
    assert!(driver.reset_setting().is_ok());
    assert!(matches!(driver.reset_setting(), Err(Error::WrongResponse)));
    assert_eq!(
        script.steps(),
        vec![sent(b"AT+DEFAULT"), received(b"OK"), sent(b"AT+DEFAULT"), received(b"OZ")]
    );
}

#[test]
fn change_name_sends_the_name_behind_the_command() {
    let script = Script::default();
    let mut driver = central(&script);
    script.reply(&[b"OK", b"NO"]);
    assert!(driver.change_name("zequan").is_ok());
    assert_eq!(script.steps(), vec![sent(b"AT+NAME=zequan"), received(b"OK")]);
    assert!(matches!(driver.change_name("caf\u{e9}"), Err(Error::WrongResponse)));
    assert_eq!(script.steps(), vec![sent(b"AT+NAME=caf\xc3\xa9"), received(b"NO")]);
}

#[test]
fn query_role_reads_six_bytes_of_master() {
    let script = Script::default();
    let mut driver = central(&script);
    script.reply(&[b"Master\r\n"]);
    assert_eq!(driver.query_role().unwrap(), Role::Master);
    assert_eq!(script.steps(), vec![sent(b"AT+ROLE=?"), received(b"Master")]);
    assert_eq!(script.unread(), b"\r\n");
}

#[test]
fn query_role_stops_after_five_bytes_that_begin_with_s() {
    let script = Script::default();
    let mut driver = central(&script);
    script.reply(&[b"Slave\r\n"]);
    assert_eq!(driver.query_role().unwrap(), Role::Slave);
    assert_eq!(script.steps(), vec![sent(b"AT+ROLE=?"), received(b"Slave")]);
    assert_eq!(script.unread(), b"\r\n");
}

#[test]
fn query_role_turns_down_other_replies() {
    let script = Script::default();
    let mut driver = central(&script);
    script.reply(&[b"Slava", b"master", b"Mast\xffr", b"S\xff\xff\xff\xff"]);
    assert!(matches!(driver.query_role(), Err(Error::ParseError(ParseError::WrongValue))));
    assert!(matches!(driver.query_role(), Err(Error::ParseError(ParseError::WrongValue))));
    assert!(matches!(driver.query_role(), Err(Error::Utf8Error(_))));
    assert!(matches!(driver.query_role(), Err(Error::Utf8Error(_))));
    assert!(script.unread().is_empty());
}

#[test]
fn query_connectable_stops_after_eleven_bytes_that_begin_with_c() {
    let script = Script::default();
    let mut driver = central(&script);
    script.reply(&[b"Connectable\r\n"]);
    assert_eq!(driver.query_connectable().unwrap(), IsConnectable(true));
    assert_eq!(script.steps(), vec![sent(b"AT+CONT=?"), received(b"Connectable")]);
    assert_eq!(script.unread(), b"\r\n");
}

#[test]
fn query_connectable_reads_fifteen_bytes_of_non_connectable() {
    let script = Script::default();
    let mut driver = central(&script);
    script.reply(&[b"Non-Connectable\r\n"]);
    assert_eq!(driver.query_connectable().unwrap(), IsConnectable(false));
    assert_eq!(script.steps(), vec![sent(b"AT+CONT=?"), received(b"Non-Connectable")]);
    assert_eq!(script.unread(), b"\r\n");
}

#[test]
fn query_connectable_turns_down_other_replies() {
    let script = Script::default();
    let mut driver = central(&script);
    script.reply(&[b"Connectible", b"non-connectable"]);
    assert!(matches!(driver.query_connectable(), Err(Error::ParseError(ParseError::WrongValue))));
    assert!(matches!(driver.query_connectable(), Err(Error::ParseError(ParseError::WrongValue))));
    assert!(script.unread().is_empty());
}

const PARAMETERS: [&[u8]; 8] = [
    b"Name:HC-08\r\n",
    b"Role:Slave\r\n",
    b"Baud:9600,NONE\r\n",
    b"Addr:AA:BB:CC:DD:EE:FF\r\n",
    b"PIN :000000\r\n",
    b"Mode:0\r\n",
    b"Power:0\r\n",
    b"\r\n",
];

#[test]
fn get_parameters_reads_eight_lines() {
    let script = Script::default();
    let mut driver = central(&script);
    script.reply(&PARAMETERS);
    script.reply(&[b"left"]);
    let p = driver.get_parameters().unwrap();
    assert_eq!(p.role, Role::Slave);
    assert_eq!(p.baud_rate, BaudRate::Bps9600);
    assert_eq!(p.addr.octets(), [0xaa, 0xbb, 0xcc, 0xdd, 0xee, 0xff]);
    assert_eq!(script.steps(), vec![sent(b"AT+RX"), received(&PARAMETERS.concat())]);
    assert_eq!(script.unread(), b"left");
}

#[test]
fn get_parameters_reads_no_line_beyond_twenty_four_bytes() {
    let script = Script::default();
    let mut driver = central(&script);
    let mut lines = PARAMETERS;
    lines[0] = b"Name:a name without an e";
    script.reply(&lines);
    let p = driver.get_parameters().unwrap();
    assert_eq!(p.role, Role::Slave);
    assert!(script.unread().is_empty());

    let mut lines = PARAMETERS;
    lines[1] = b"Role:Slave, and much more than a line can hold\r\n";
    script.reply(&lines);
    script.reply(&[b"\n\n"]);
    assert!(matches!(
        driver.get_parameters(),
        Err(Error::ParseError(ParseError::PrefixError))
    ));
}

#[test]
fn get_parameters_hands_on_what_is_wrong_with_a_line() {
    let script = Script::default();
    let mut driver = central(&script);
    let mut lines = PARAMETERS;
    lines[1] = b"Role:Slave\n";
    script.reply(&lines);
    assert!(matches!(
        driver.get_parameters(),
        Err(Error::ParseError(ParseError::WithoutNewline))
    ));
    let mut lines = PARAMETERS;
    lines[2] = b"Baud:9601,NONE\r\n";
    script.reply(&lines);
    assert!(matches!(driver.get_parameters(), Err(Error::ParseError(ParseError::WrongValue))));
    let mut lines = PARAMETERS;
    lines[3] = b"Addr:AA:BB:CC:DD:EE\r\n";
    script.reply(&lines);
    assert!(matches!(
        driver.get_parameters(),
        Err(Error::ParseError(ParseError::WithoutNewline))
    ));
    assert!(script.unread().is_empty());
}

#[test]
fn get_version_reads_twenty_one_bytes() {
    let script = Script::default();
    let mut driver = central(&script);
    script.reply(&[b"HC-08 V3.1,2017-07-07\r\n"]);
    let mut buffer = [0u8; 21];
    assert_eq!(driver.get_version(&mut buffer).unwrap(), "HC-08 V3.1,2017-07-07");
    assert_eq!(script.steps(), vec![sent(b"AT+VERSION"), received(b"HC-08 V3.1,2017-07-07")]);
    assert_eq!(script.unread(), b"\r\n");
}

#[test]
fn get_version_turns_down_what_is_not_utf8() {
    let script = Script::default();
    let mut driver = central(&script);
    script.reply(&[b"HC-08 V3.1,2017-07-0\xff"]);
    let mut buffer = [0u8; 21];
    assert!(matches!(driver.get_version(&mut buffer), Err(Error::WrongResponse)));
    assert_eq!(&buffer, b"HC-08 V3.1,2017-07-0\xff");
}

#[test]
fn get_name_fills_the_buffer_of_the_caller() {
    let script = Script::default();
    let mut driver = central(&script);
    script.reply(&[b"zequan"]);
    let mut buffer = [0u8; 6];
    assert_eq!(driver.get_name(&mut buffer).unwrap(), "zequan");
    assert_eq!(script.steps(), vec![sent(b"AT+NAME=?"), received(b"zequan")]);
    script.reply(&[b"zequan"]);
    let mut buffer = [0u8; 2];
    assert_eq!(driver.get_name(&mut buffer).unwrap(), "ze");
    assert_eq!(script.unread(), b"quan");
    let mut buffer = [0u8; 4];
    assert_eq!(driver.get_name(&mut buffer).unwrap(), "quan");
    script.reply(&[b"caf\xc3"]);
    let mut buffer = [0u8; 4];
    assert!(matches!(driver.get_name(&mut buffer), Err(Error::WrongResponse)));
}

#[test]
fn into_broadcast_mode_sets_role_then_connectability() {
    let script = Script::default();
    let driver = central(&script);
    script.reply(&[b"OK", b"OK"]);
    let mut driver = match driver.into_broadcast_mode() {
        Ok(driver) => driver,
        Err(_) => panic!("the change of mode failed"),
    };
    assert_eq!(
        script.steps(),
        vec![
            sent(b"AT+ROLE=S"),
            received(b"OK"),
            Step::Slept(200),
            sent(b"AT+CONT=1"),
            received(b"OK"),
            Step::Slept(200),
        ]
    );
    script.reply(&[b"OK"]);
    assert!(driver.change_broadcast_data(b"\x01\x02").is_ok());
}

#[test]
fn a_change_of_mode_ends_where_the_role_is_not_acknowledged() {
    let script = Script::default();
    let driver = central(&script);
    script.reply(&[b"ER"]);
    let mut driver = match driver.into_broadcast_mode() {
        Ok(_) => panic!("the change of mode took"),
        Err(driver) => driver,
    };
    assert_eq!(script.steps(), vec![sent(b"AT+ROLE=S"), received(b"ER")]);
    script.reply(&[b"OK"]);
    assert!(driver.clear_slave_addr().is_ok());
    assert_eq!(script.steps(), vec![sent(b"AT+CLEAR"), received(b"OK")]);
}

#[test]
fn a_change_of_mode_ends_where_connectability_is_not_acknowledged() {
    let script = Script::default();
    let driver = central(&script);
    script.reply(&[b"OK", b"ok"]);
    let mut driver = match driver.into_broadcast_mode() {
        Ok(_) => panic!("the change of mode took"),
        Err(driver) => driver,
    };
    assert_eq!(
        script.steps(),
        vec![
            sent(b"AT+ROLE=S"),
            received(b"OK"),
            Step::Slept(200),
            sent(b"AT+CONT=1"),
            received(b"ok"),
        ]
    );
    script.reply(&[b"OK"]);
    assert!(driver.clear_slave_addr().is_ok());
}

#[test]
fn into_central_mode_makes_a_connectable_master() {
    let script = Script::default();
    let driver = broadcast(&script);
    script.reply(&[b"OK", b"OK", b"OK"]);
    let mut driver = match driver.into_central_mode() {
        Ok(driver) => driver,
        Err(_) => panic!("the change of mode failed"),
    };
    assert_eq!(
        script.steps(),
        vec![
            sent(b"AT+ROLE=M"),
            received(b"OK"),
            Step::Slept(200),
            sent(b"AT+CONT=0"),
            received(b"OK"),
            Step::Slept(200),
        ]
    );
    assert!(driver.clear_slave_addr().is_ok());
}

#[test]
fn into_peripheral_mode_makes_a_connectable_slave() {
    let script = Script::default();
    let driver = central(&script);
    script.reply(&[b"OK", b"OK"]);
    let driver: Hc08<Script, Script, Slave, Connectable> = match driver.into_peripheral_mode() {
        Ok(driver) => driver,
        Err(_) => panic!("the change of mode failed"),
    };
    assert_eq!(
        script.steps(),
        vec![
            sent(b"AT+ROLE=S"),
            received(b"OK"),
            Step::Slept(200),
            sent(b"AT+CONT=0"),
            received(b"OK"),
            Step::Slept(200),
        ]
    );
    drop(driver);
}

#[test]
fn into_observer_mode_makes_a_master_that_is_not_connectable() {
    let script = Script::default();
    let driver = peripheral(&script);
    script.reply(&[b"OK", b"OK"]);
    let driver: Hc08<Script, Script, Master, NonConnectable> = match driver.into_observer_mode() {
        Ok(driver) => driver,
        Err(_) => panic!("the change of mode failed"),
    };
    assert_eq!(
        script.steps(),
        vec![
            sent(b"AT+ROLE=M"),
            received(b"OK"),
            Step::Slept(200),
            sent(b"AT+CONT=1"),
            received(b"OK"),
            Step::Slept(200),
        ]
    );
    drop(driver);
}

#[test]
fn change_broadcast_data_sends_the_data_behind_the_command() {
    let script = Script::default();
    let mut driver = broadcast(&script);
    script.reply(&[b"OK", b"NO"]);
    assert!(driver.change_broadcast_data(b"\x00\xffdata").is_ok());
    assert_eq!(script.steps(), vec![sent(b"AT+AVDA=\x00\xffdata"), received(b"OK")]);
    assert!(matches!(driver.change_broadcast_data(b""), Err(Error::WrongResponse)));
    assert_eq!(script.steps(), vec![sent(b"AT+AVDA="), received(b"NO")]);
}

#[test]
fn change_connect_internal_expects_its_numbers_back() {
    let script = Script::default();
    let mut driver = central(&script);
    script.reply(&[b"OK+CINT=50", b"OK+CINT=10,1000"]);
    assert!(driver.change_connect_internal(40, 40).is_ok());
    assert_eq!(script.steps(), vec![sent(b"AT+CINT=50"), received(b"OK+CINT=50")]);
    assert!(driver.change_connect_internal(8, 800).is_ok());
    assert_eq!(script.steps(), vec![sent(b"AT+CINT=10,1000"), received(b"OK+CINT=10,1000")]);
    assert!(script.unread().is_empty());
}

#[test]
fn change_connect_internal_turns_down_other_numbers() {
    let script = Script::default();
    let mut driver = central(&script);
    script.reply(&[b"OK+CINT=55", b"AT+CINT=50", b"OK+CINT=5368709115,5368709110"]);
    assert!(matches!(driver.change_connect_internal(40, 40), Err(Error::WrongResponse)));
    assert!(matches!(driver.change_connect_internal(40, 40), Err(Error::WrongResponse)));
    assert!(matches!(
        driver.change_connect_internal(u32::MAX - 4, u32::MAX),
        Err(Error::WrongResponse)
    ));
    assert!(script.unread().is_empty());
    script.reply(&[b"OK+CINT=5368709110,5368709115"]);
    assert!(driver.change_connect_internal(u32::MAX - 4, u32::MAX).is_ok());
}

#[test]
fn change_connect_timeout_expects_its_number_back() {
    let script = Script::default();
    let mut driver = peripheral(&script);
    script.reply(&[b"OK+CTOUT=100", b"OK+CTOUT=101", b"OK+CTOUT=0"]);
    assert!(driver.change_connect_timeout(1000).is_ok());
    assert_eq!(script.steps(), vec![sent(b"AT+CTOUT=100"), received(b"OK+CTOUT=100")]);
    assert!(matches!(driver.change_connect_timeout(1000), Err(Error::WrongResponse)));
    assert!(driver.change_connect_timeout(9).is_ok());
    assert!(script.unread().is_empty());
}

#[test]
fn clear_slave_addr_expects_ok() {
    let script = Script::default();
    let mut driver = central(&script);
    script.reply(&[b"OK", b"O\0"]);
    assert!(driver.clear_slave_addr().is_ok());
    assert_eq!(script.steps(), vec![sent(b"AT+CLEAR"), received(b"OK")]);
    assert!(matches!(driver.clear_slave_addr(), Err(Error::WrongResponse)));
}

#[test]
fn query_connect_uuid_reads_four_digits_behind_the_prefix() {
    let script = Script::default();
    let mut driver = central(&script);
    script.reply(&[b"OK+LUUID=0eff", b"OK+SUUID=0eff", b"OK+LUUID=0egf"]);
    assert_eq!(driver.query_connect_uuid().unwrap(), UUID(0xffe0));
    assert_eq!(script.steps(), vec![sent(b"AT+LUUID=?"), received(b"OK+LUUID=0eff")]);
    assert!(matches!(driver.query_connect_uuid(), Err(Error::WrongResponse)));
    assert!(matches!(
        driver.query_connect_uuid(),
        Err(Error::ParseError(ParseError::ParseIntError(_)))
    ));
}

#[test]
fn an_identifier_that_was_set_is_the_one_that_is_asked_for() {
    let script = Script::default();
    let mut driver = central(&script);
    script.reply(&[b"OK+LUUID=ba00", b"OK+LUUID=ba00"]);
    assert!(driver.set_connect_uuid(UUID(0x00ab)).is_ok());
    assert_eq!(driver.query_connect_uuid().unwrap(), UUID(0x00ab));
}

#[test]
fn set_connect_uuid_expects_its_digits_back() {
    let script = Script::default();
    let mut driver = central(&script);
    script.reply(&[b"OK+LUUID=ba00", b"OK+LUUID=00ab"]);
    assert!(driver.set_connect_uuid(UUID(0x00ab)).is_ok());
    assert_eq!(script.steps(), vec![sent(b"AT+LUUID=ba00"), received(b"OK+LUUID=ba00")]);
    assert!(matches!(driver.set_connect_uuid(UUID(0x00ab)), Err(Error::WrongResponse)));
}

#[test]
fn service_uuid_is_asked_for_and_set() {
    let script = Script::default();
    let mut driver = peripheral(&script);
    script.reply(&[b"OK+SUUID=0EFF", b"OK+SUUID=0eff", b"OK+SUUID=ffe0"]);
    assert_eq!(driver.get_service_uuid().unwrap(), UUID(0xffe0));
    assert_eq!(script.steps(), vec![sent(b"AT+SUUID=?"), received(b"OK+SUUID=0EFF")]);
    assert!(driver.set_service_uuid(UUID(0xffe0)).is_ok());
    assert_eq!(script.steps(), vec![sent(b"AT+SUUID=0eff"), received(b"OK+SUUID=0eff")]);
    assert!(matches!(driver.set_service_uuid(UUID(0xffe0)), Err(Error::WrongResponse)));
}

#[test]
fn characteristic_uuid_is_asked_for_and_set() {
    let script = Script::default();
    let mut driver = peripheral(&script);
    script.reply(&[b"OK+TUUID=1eff", b"OK+TUUID=1eff", b"OK+LUUID=1eff"]);
    assert_eq!(driver.get_characteristic_uuid().unwrap(), UUID(0xffe1));
    assert_eq!(script.steps(), vec![sent(b"AT+TUUID=?"), received(b"OK+TUUID=1eff")]);
    assert!(driver.set_characteristic_uuid(UUID(0xffe1)).is_ok());
    assert_eq!(script.steps(), vec![sent(b"AT+TUUID=1eff"), received(b"OK+TUUID=1eff")]);
    assert!(matches!(driver.set_characteristic_uuid(UUID(0xffe1)), Err(Error::WrongResponse)));
}
