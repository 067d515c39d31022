use preprintd::ip::{parse_ip, parse_ipv4, parse_ipv6, IpAddress};

fn groups(g: [u16; 8]) -> [u8; 16] {
    let mut b = [0u8; 16];
    for (i, x) in g.iter().enumerate() {
        b[2 * i] = (x >> 8) as u8;
        b[2 * i + 1] = (x & 0xff) as u8;
    }
    b
}

#[test]
fn ipv6_full_and_compressed_forms() {
    let cases: [(&str, Option<[u16; 8]>); 14] = [
        ("1:2:3:4:5:6:7:8", Some([1, 2, 3, 4, 5, 6, 7, 8])),
        ("::", Some([0; 8])),
        ("::1", Some([0, 0, 0, 0, 0, 0, 0, 1])),
        ("1::", Some([1, 0, 0, 0, 0, 0, 0, 0])),
        ("1::2", Some([1, 0, 0, 0, 0, 0, 0, 2])),
        ("2001:db8::ff00:42:8329", Some([0x2001, 0xdb8, 0, 0, 0, 0xff00, 0x42, 0x8329])),
        ("2001:DB8:0000:0000:0000:FF00:0042:8329", Some([0x2001, 0xdb8, 0, 0, 0, 0xff00, 0x42, 0x8329])),
        ("1:2:3:4:5:6:7::", Some([1, 2, 3, 4, 5, 6, 7, 0])),
        ("::2:3:4:5:6:7:8", Some([0, 2, 3, 4, 5, 6, 7, 8])),
        ("fe80::1:2", Some([0xfe80, 0, 0, 0, 0, 0, 1, 2])),
        ("ffff:ffff:ffff:ffff:ffff:ffff:ffff:ffff", Some([0xffff; 8])),
        ("::ffff:1.2.3.4", Some([0, 0, 0, 0, 0, 0xffff, 0x0102, 0x0304])),
        ("1:2:3:4:5:6:1.2.3.4", Some([1, 2, 3, 4, 5, 6, 0x0102, 0x0304])),
        ("::192.168.0.1", Some([0, 0, 0, 0, 0, 0, 0xc0a8, 0x0001])),
    ];
    for (s, expected) in cases {
        assert_eq!(parse_ipv6(s), expected.map(groups), "{:?}", s);
    }
}

#[test]
fn ipv6_rejects_malformed_text() {
    let cases: [&str; 16] = [
        "",
        ":",
        ":::",
        "1:::2",
        "1::2::3",
        "1:2:3:4:5:6:7:8:9",
        "1:2:3:4:5:6:7",
        "12345::",
        "g::1",
        "1.2.3.4::",
        "1.2.3.4:1::",
        "::1.2.3.4:5",
        "1:2:3:4:5:6:7:1.2.3.4",
        "::1 ",
        " ::1",
        "1:2:3:4:5:6:7:8::",
    ];
    for s in cases {
        assert_eq!(parse_ipv6(s), None, "{:?}", s);
    }
}

#[test]
fn ip_reads_ipv4_first_then_ipv6() {
    assert_eq!(parse_ip("192.0.2.1"), Some(IpAddress::V4([192, 0, 2, 1])));
    assert_eq!(parse_ip("::1"), Some(IpAddress::V6(groups([0, 0, 0, 0, 0, 0, 0, 1]))));
    assert_eq!(
        parse_ip("::ffff:10.0.0.1"),
        Some(IpAddress::V6(groups([0, 0, 0, 0, 0, 0xffff, 0x0a00, 0x0001])))
    );
    assert_eq!(parse_ip("1.2.3.4::"), None);
    assert_eq!(parse_ip("1.2.3.4.5"), None);
    assert_eq!(parse_ip("example.com"), None);
    assert_eq!(parse_ip(""), None);
    assert_eq!(parse_ipv4("::1"), None);
}
