use howareyou::address::IpAddress;

fn v6(g: [u16; 8]) -> String {
    IpAddress::V6(g).to_text()
}

#[test]
fn v4_dotted_decimal() {
    assert_eq!(IpAddress::V4([0, 9, 10, 255]).to_text(), "0.9.10.255");
    assert_eq!(IpAddress::V4([192, 168, 100, 1]).to_text(), "192.168.100.1");
}

#[test]
fn v6_compresses_first_longest_zero_run() {
    assert_eq!(v6([0x2001, 0xdb8, 0, 0, 0, 0, 0, 1]), "2001:db8::1");
    assert_eq!(v6([0; 8]), "::");
    assert_eq!(v6([0, 0, 0, 0, 0, 0, 0, 1]), "::1");
    assert_eq!(v6([1, 0, 0, 0, 0, 0, 0, 0]), "1::");
    assert_eq!(v6([1, 0, 0, 1, 0, 0, 0, 1]), "1:0:0:1::1");
    assert_eq!(v6([1, 0, 0, 1, 0, 0, 1, 1]), "1::1:0:0:1:1");
}

#[test]
fn v6_single_zero_group_not_compressed() {
    assert_eq!(v6([1, 0, 1, 0, 1, 0, 1, 0]), "1:0:1:0:1:0:1:0");
    assert_eq!(v6([0xfe80, 0xabcd, 0xef, 0x1, 0x2, 0x3, 0x4, 0xffff]), "fe80:abcd:ef:1:2:3:4:ffff");
}

#[test]
fn v6_mapped_v4_uses_dotted_form() {
    assert_eq!(v6([0, 0, 0, 0, 0, 0xffff, 0xc000, 0x0280]), "::ffff:192.0.2.128");
}
