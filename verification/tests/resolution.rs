use instrument_ctl::error::AddressError;
use instrument_ctl::resolver::{resolve, InterfaceFamily};

#[test]
fn prefixed_usb_address_resolves() {
    let r = resolve("USB::0x0699::0x0368::SN123::INSTR").unwrap();
    assert_eq!(r.family, InterfaceFamily::Usb);
    assert_eq!(r.vid, 0x0699);
    assert_eq!(r.pid, 0x0368);
    assert_eq!(r.rest, vec!["SN123".to_string(), "INSTR".to_string()]);
}

#[test]
fn unprefixed_address_resolves_identically() {
    let a = resolve("USB::0x0699::0x0368::SN123::INSTR").unwrap();
    let b = resolve("USB::0699::0368::SN123::INSTR").unwrap();
    assert_eq!(a.vid, b.vid);
    assert_eq!(a.pid, b.pid);
    assert_eq!(a.family, b.family);
}

#[test]
fn gpib_interface_is_unrecognized() {
    let r = resolve("GPIB::1::INSTR");
    assert_eq!(r.unwrap_err(), AddressError::UnrecognizedInterface);
}

#[test]
fn non_hex_vendor_field_is_malformed() {
    let r = resolve("USB::ZZZZ::0x0368::SN::INSTR");
    assert_eq!(r.unwrap_err(), AddressError::MalformedField);
}

#[test]
fn non_hex_product_field_is_malformed() {
    let r = resolve("USB::0x0699::G123::SN::INSTR");
    assert_eq!(r.unwrap_err(), AddressError::MalformedField);
}

#[test]
fn one_segment_usb_address_is_missing_fields() {
    assert_eq!(resolve("USB").unwrap_err(), AddressError::MissingField);
}

#[test]
fn two_segment_usb_address_is_missing_fields() {
    assert_eq!(resolve("USB::0x0699").unwrap_err(), AddressError::MissingField);
}

#[test]
fn empty_address_is_unrecognized() {
    assert_eq!(resolve("").unwrap_err(), AddressError::UnrecognizedInterface);
}

#[test]
fn tag_match_is_by_substring() {
    let r = resolve("USB0::0x1::0x2::S::INSTR").unwrap();
    assert_eq!((r.vid, r.pid), (0x1, 0x2));
    let r = resolve("XUSBX::3::4").unwrap();
    assert_eq!((r.vid, r.pid), (0x3, 0x4));
}

#[test]
fn tag_in_later_segment_does_not_route() {
    let r = resolve("FOO::USB::0x1::0x2");
    assert_eq!(r.unwrap_err(), AddressError::UnrecognizedInterface);
}

#[test]
fn largest_sixteen_bit_value_is_accepted() {
    let r = resolve("USB::0xFFFF::FFFF::S::INSTR").unwrap();
    assert_eq!((r.vid, r.pid), (0xFFFF, 0xFFFF));
}

#[test]
fn value_over_sixteen_bits_is_malformed() {
    let r = resolve("USB::0x10000::0x1::S::INSTR");
    assert_eq!(r.unwrap_err(), AddressError::MalformedField);
}

#[test]
fn hex_digits_are_case_insensitive() {
    let r = resolve("USB::06aB::0x00Ff::S::INSTR").unwrap();
    assert_eq!((r.vid, r.pid), (0x06AB, 0x00FF));
}

#[test]
fn radix_prefix_is_case_sensitive() {
    let r = resolve("USB::0X0699::0x0368::SN::INSTR");
    assert_eq!(r.unwrap_err(), AddressError::MalformedField);
}

#[test]
fn leading_plus_sign_is_accepted() {
    let r = resolve("USB::+0699::0368::S").unwrap();
    assert_eq!((r.vid, r.pid), (0x0699, 0x0368));
    assert_eq!(r.rest, vec!["S".to_string()]);
}

#[test]
fn sign_without_digits_is_malformed() {
    assert_eq!(resolve("USB::+::0x1::S").unwrap_err(), AddressError::MalformedField);
    assert_eq!(resolve("USB::0x::0x1::S").unwrap_err(), AddressError::MalformedField);
    assert_eq!(resolve("USB::::0x1::S").unwrap_err(), AddressError::MalformedField);
}

#[test]
fn doubled_sign_is_malformed() {
    assert_eq!(resolve("USB::++1::0x1::S").unwrap_err(), AddressError::MalformedField);
}

#[test]
fn prefix_is_stripped_only_once() {
    assert_eq!(resolve("USB::0x0x12::0x1::S").unwrap_err(), AddressError::MalformedField);
}

#[test]
fn trailing_segments_are_captured_verbatim() {
    let r = resolve("USB::1::2::SN9::INSTR::extra").unwrap();
    assert_eq!(r.rest, vec!["SN9".to_string(), "INSTR".to_string(), "extra".to_string()]);
}

#[test]
fn trailing_delimiter_yields_empty_segment() {
    let r = resolve("USB::1::2::").unwrap();
    assert_eq!(r.rest, vec!["".to_string()]);
}

#[test]
fn exactly_three_segments_resolve() {
    let r = resolve("USB::1::2").unwrap();
    assert_eq!((r.vid, r.pid), (0x1, 0x2));
    assert!(r.rest.is_empty());
}
