use dnsqueryx::address::{client_key, IpAddress, V4_MAPPED_BASE};

#[test]
fn v4_key_is_the_mapped_address() {
    assert_eq!(client_key(&IpAddress::V4(0, 0, 0, 0)), 0xffff_0000_0000);
    assert_eq!(client_key(&IpAddress::V4(127, 0, 0, 1)), 0xffff_7f00_0001);
    assert_eq!(client_key(&IpAddress::V4(93, 184, 216, 34)), V4_MAPPED_BASE + 0x5db8_d822);
    assert_eq!(client_key(&IpAddress::V4(255, 255, 255, 255)), 0xffff_ffff_ffff);
}

#[test]
fn v6_key_is_the_address_as_a_number() {
    assert_eq!(client_key(&IpAddress::V6(0, 0, 0, 0, 0, 0, 0, 0)), 0);
    assert_eq!(client_key(&IpAddress::V6(0, 0, 0, 0, 0, 0, 0, 1)), 1);
    assert_eq!(
        client_key(&IpAddress::V6(0x2001, 0xdb8, 0, 0, 0, 0, 0xdead, 0xbeef)),
        0x2001_0db8_0000_0000_0000_0000_dead_beef
    );
    assert_eq!(
        client_key(&IpAddress::V6(
            0xffff, 0xffff, 0xffff, 0xffff, 0xffff, 0xffff, 0xffff, 0xffff
        )),
        u128::MAX
    );
}

#[test]
fn v4_and_its_mapped_v6_form_are_one_client() {
    assert_eq!(
        client_key(&IpAddress::V4(192, 0, 2, 7)),
        client_key(&IpAddress::V6(0, 0, 0, 0, 0, 0xffff, 0xc000, 0x0207))
    );
}

#[test]
fn different_addresses_of_a_family_are_different_clients() {
    assert_ne!(client_key(&IpAddress::V4(10, 0, 0, 1)), client_key(&IpAddress::V4(10, 0, 1, 0)));
    assert_ne!(
        client_key(&IpAddress::V6(1, 0, 0, 0, 0, 0, 0, 0)),
        client_key(&IpAddress::V6(0, 1, 0, 0, 0, 0, 0, 0))
    );
}
