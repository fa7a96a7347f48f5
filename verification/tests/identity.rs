use snowflake_me::builder::{find_id, pass_check, vet_id};
use snowflake_me::network::{
    get_ids_from_ip, is_private_ipv4, is_private_ipv6, private_ipv4, private_ipv6,
    usable_addresses,
};
use snowflake_me::{DecomposedSnowflake, Error, IdKind, IdSource, Interface, IpAddress, Snowflake};

struct Fixed(u16);

impl IdSource for Fixed {
    fn resolve(&self) -> Result<u16, String> {
        Ok(self.0)
    }
}

fn interface(up: bool, loopback: bool, ips: Vec<IpAddress>) -> Interface {
    Interface { up, loopback, ips }
}

fn v4(a: u8, b: u8, c: u8, d: u8) -> IpAddress {
    IpAddress::V4([a, b, c, d])
}

fn v6(first: u16, sixth: u16, seventh: u16) -> IpAddress {
    IpAddress::V6([first, 0, 0, 0, 0, 0, sixth, seventh])
}

#[test]
fn private_ipv4_ranges() {
    assert!(is_private_ipv4(&[10, 0, 0, 1]));
    assert!(is_private_ipv4(&[10, 255, 255, 255]));
    assert!(is_private_ipv4(&[172, 16, 0, 1]));
    assert!(is_private_ipv4(&[172, 31, 255, 255]));
    assert!(is_private_ipv4(&[192, 168, 1, 1]));
    assert!(!is_private_ipv4(&[172, 15, 0, 1]));
    assert!(!is_private_ipv4(&[172, 32, 0, 1]));
    assert!(!is_private_ipv4(&[192, 169, 1, 1]));
    assert!(!is_private_ipv4(&[11, 0, 0, 1]));
    assert!(!is_private_ipv4(&[8, 8, 8, 8]));
    assert!(!is_private_ipv4(&[127, 0, 0, 1]));
}

#[test]
fn private_ipv6_ranges() {
    let with = |first: u16| [first, 0, 0, 0, 0, 0, 0, 1];
    assert!(is_private_ipv6(&with(0xfc00)));
    assert!(is_private_ipv6(&with(0xfd12)));
    assert!(is_private_ipv6(&with(0xfdff)));
    assert!(is_private_ipv6(&with(0xfe80)));
    assert!(is_private_ipv6(&with(0xfebf)));
    assert!(!is_private_ipv6(&with(0xfbff)));
    assert!(!is_private_ipv6(&with(0xfe00)));
    assert!(!is_private_ipv6(&with(0xfe7f)));
    assert!(!is_private_ipv6(&with(0xfec0)));
    assert!(!is_private_ipv6(&with(0x2001)));
    assert!(!is_private_ipv6(&with(0)));
}

#[test]
fn the_first_private_address_of_an_interface_that_is_up_wins() {
    let interfaces = vec![
        interface(true, true, vec![v4(10, 9, 9, 9)]),
        interface(false, false, vec![v4(10, 8, 8, 8)]),
        interface(true, false, vec![]),
        interface(true, false, vec![v4(8, 8, 8, 8), v6(0xfd00, 6, 7), v4(192, 168, 3, 4)]),
        interface(true, false, vec![v4(10, 1, 2, 3), v6(0xfe80, 8, 9)]),
    ];
    assert_eq!(private_ipv4(&interfaces), Some([192, 168, 3, 4]));
    assert_eq!(private_ipv6(&interfaces), Some([0xfd00, 0, 0, 0, 0, 0, 6, 7]));
    assert_eq!(get_ids_from_ip(&interfaces), Some((3, 4)));
    assert_eq!(usable_addresses(&interfaces).len(), 5);
}

#[test]
fn ipv6_stands_in_where_no_private_ipv4_is_found() {
    let interfaces = vec![
        interface(true, false, vec![v4(8, 8, 8, 8), v6(0x2001, 1, 2)]),
        interface(true, false, vec![v6(0xfe80, 0xabcd, 0x1234)]),
    ];
    assert_eq!(private_ipv4(&interfaces), None);
    assert_eq!(get_ids_from_ip(&interfaces), Some((0xabcd, 0x1234)));
}

#[test]
fn no_private_address_gives_no_numbers() {
    assert_eq!(get_ids_from_ip(&[]), None);
    let interfaces = vec![
        interface(true, true, vec![v4(10, 0, 0, 1)]),
        interface(false, false, vec![v6(0xfd00, 1, 2)]),
        interface(true, false, vec![v4(1, 1, 1, 1)]),
    ];
    assert_eq!(private_ipv4(&interfaces), None);
    assert_eq!(private_ipv6(&interfaces), None);
    assert_eq!(get_ids_from_ip(&interfaces), None);
}

#[test]
fn the_fallback_stands_in_for_a_missing_source() {
    let interfaces = vec![interface(true, false, vec![v4(192, 168, 77, 200)])];
    let mut sf = Snowflake::builder().ip_fallback(&interfaces).finalize_at(0).unwrap();
    let id = sf.next_id_at(1_640_995_200_000_000_000 + 1_000_000).result.unwrap();
    let parts = DecomposedSnowflake::decompose(id, 41, 12, 5, 5);
    // 77 and 200, cut down to five bits each.
    assert_eq!(parts.data_center_id, 77 % 32);
    assert_eq!(parts.machine_id, 200 % 32);
    assert_eq!(parts.time, 1);

    let mut sf = Snowflake::builder()
        .ip_fallback(&interfaces)
        .machine_id(&Fixed(3))
        .finalize_at(0)
        .unwrap();
    let id = sf.next_id_at(1_640_995_200_000_000_000 + 1_000_000).result.unwrap();
    let parts = DecomposedSnowflake::decompose(id, 41, 12, 5, 5);
    assert_eq!(parts.data_center_id, 77 % 32);
    assert_eq!(parts.machine_id, 3);
}

#[test]
fn a_fallback_without_a_private_address_fails_the_build() {
    let interfaces = vec![interface(true, false, vec![v4(8, 8, 8, 8)])];
    let built = Snowflake::builder().ip_fallback(&interfaces).finalize_at(0);
    assert!(matches!(built, Err(Error::NoPrivateIPv4)));
    let built = Snowflake::builder()
        .ip_fallback(&interfaces)
        .machine_id(&Fixed(1))
        .finalize_at(0);
    assert!(matches!(built, Err(Error::NoPrivateIPv4)));
    let built = Snowflake::builder()
        .ip_fallback(&interfaces)
        .machine_id(&Fixed(1))
        .data_center_id(&Fixed(1))
        .finalize_at(0);
    assert!(built.is_ok());
}

#[test]
fn vetting_hands_failures_on_and_holds_numbers_to_the_width() {
    assert!(matches!(vet_id(IdKind::Machine, Ok(31), 5), Ok(31)));
    assert!(matches!(vet_id(IdKind::Machine, Ok(0), 0), Ok(0)));
    assert!(matches!(vet_id(IdKind::DataCenter, Ok(65_535), 16), Ok(65_535)));
    assert!(matches!(vet_id(IdKind::DataCenter, Ok(65_535), 63), Ok(65_535)));
    assert!(matches!(vet_id(IdKind::DataCenter, Ok(65_535), 255), Ok(65_535)));
    assert!(matches!(
        vet_id(IdKind::DataCenter, Ok(32_768), 15),
        Err(Error::DataCenterIdOutOfRange(32_768, 32_767))
    ));
    assert!(matches!(vet_id(IdKind::Machine, Ok(1), 0), Err(Error::MachineIdOutOfRange(1, 0))));
    match vet_id(IdKind::Machine, Err("no".to_string()), 5) {
        Err(Error::MachineIdFailed(text)) => assert_eq!(text, "no"),
        _ => panic!("expected MachineIdFailed"),
    }
    match vet_id(IdKind::DataCenter, Err("no".to_string()), 5) {
        Err(Error::DataCenterIdFailed(text)) => assert_eq!(text, "no"),
        _ => panic!("expected DataCenterIdFailed"),
    }
}

#[test]
fn a_number_is_found_from_the_answer_or_from_the_fallback() {
    assert!(matches!(find_id(IdKind::Machine, Some(Ok(7)), None, 5), Ok(7)));
    assert!(matches!(find_id(IdKind::Machine, Some(Ok(7)), Some(Some(9)), 5), Ok(7)));
    assert!(matches!(
        find_id(IdKind::Machine, Some(Ok(40)), Some(Some(9)), 5),
        Err(Error::MachineIdOutOfRange(40, 31))
    ));
    match find_id(IdKind::DataCenter, Some(Err("down".to_string())), Some(Some(9)), 5) {
        Err(Error::DataCenterIdFailed(text)) => assert_eq!(text, "down"),
        _ => panic!("expected DataCenterIdFailed"),
    }
    assert!(matches!(find_id(IdKind::Machine, None, Some(Some(200)), 5), Ok(8)));
    assert!(matches!(find_id(IdKind::Machine, None, Some(Some(200)), 8), Ok(200)));
    assert!(matches!(find_id(IdKind::Machine, None, Some(Some(200)), 0), Ok(0)));
    assert!(matches!(find_id(IdKind::Machine, None, Some(Some(65_535)), 16), Ok(65_535)));
    assert!(matches!(find_id(IdKind::Machine, None, Some(Some(65_535)), 200), Ok(65_535)));
    assert!(matches!(find_id(IdKind::DataCenter, None, Some(None), 5), Err(Error::NoPrivateIPv4)));
    match find_id(IdKind::Machine, None, None, 5) {
        Err(Error::MachineIdFailed(text)) => {
            assert_eq!(text, "Machine ID not provided and no address fallback is set")
        }
        _ => panic!("expected MachineIdFailed"),
    }
    match find_id(IdKind::DataCenter, None, None, 5) {
        Err(Error::DataCenterIdFailed(text)) => {
            assert_eq!(text, "Data Center ID not provided and no address fallback is set")
        }
        _ => panic!("expected DataCenterIdFailed"),
    }
}

#[test]
fn a_check_that_says_no_fails_and_any_other_verdict_passes() {
    assert!(matches!(pass_check(IdKind::Machine, 7, None), Ok(7)));
    assert!(matches!(pass_check(IdKind::Machine, 7, Some(true)), Ok(7)));
    assert!(matches!(
        pass_check(IdKind::Machine, 7, Some(false)),
        Err(Error::CheckMachineIdFailed)
    ));
    assert!(matches!(pass_check(IdKind::DataCenter, 0, Some(true)), Ok(0)));
    assert!(matches!(
        pass_check(IdKind::DataCenter, 0, Some(false)),
        Err(Error::CheckDataCenterIdFailed)
    ));
}
