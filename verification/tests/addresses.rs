use rita::identity::{EthAddress, WgKey};
use rita::net::{IpAddress, Ipv4Address, Ipv6Address};
use rita::text::base64::{push_base64, read_base64};
use rita::text::{push_decimal, push_hex, push_hex_bytes, text_eq, text_starts_with};

fn v6(segments: [u16; 8]) -> String {
    Ipv6Address::new(segments).to_text()
}

#[test]
fn decimal_of_zero_and_of_large_numbers() {
    let mut s = String::new();
    push_decimal(&mut s, 0);
    s.push(' ');
    push_decimal(&mut s, 51820);
    s.push(' ');
    push_decimal(&mut s, u128::MAX);
    assert_eq!(s, format!("0 51820 {}", u128::MAX));
}

#[test]
fn hexadecimal_has_no_leading_zeros() {
    let mut s = String::new();
    push_hex(&mut s, 0);
    s.push(' ');
    push_hex(&mut s, 0xfd00);
    s.push(' ');
    push_hex(&mut s, 0x0a);
    assert_eq!(s, "0 fd00 a");
}

#[test]
fn hex_bytes_keep_leading_zeros() {
    let mut s = String::new();
    push_hex_bytes(&mut s, &[0x00, 0x01, 0xab, 0xff]);
    assert_eq!(s, "0001abff");
}

#[test]
fn base64_pads_short_groups() {
    let cases: [(&[u8], &str); 7] = [
        (b"", ""),
        (b"f", "Zg=="),
        (b"fo", "Zm8="),
        (b"foo", "Zm9v"),
        (b"foob", "Zm9vYg=="),
        (b"fooba", "Zm9vYmE="),
        (b"foobar", "Zm9vYmFy"),
    ];
    for (bytes, text) in cases.iter() {
        let mut s = String::new();
        push_base64(&mut s, bytes);
        assert_eq!(&s, text);
    }
}

#[test]
fn base64_uses_the_last_two_symbols() {
    let mut s = String::new();
    push_base64(&mut s, &[0xfb, 0xff, 0xfe]);
    assert_eq!(s, "+//+");
}

#[test]
fn wg_key_text_is_forty_four_characters() {
    let key = WgKey::new([0u8; 32]);
    assert_eq!(key.to_text(), "AAAAAAAAAAAAAAAAAAAAAAAAAAAAAAAAAAAAAAAAAAA=");
    let mut bytes = [0u8; 32];
    for (i, b) in bytes.iter_mut().enumerate() {
        *b = (i * 7 + 3) as u8;
    }
    assert_eq!(WgKey::new(bytes).to_text().len(), 44);
    assert!(!WgKey::new(bytes).same(&key));
    assert!(WgKey::new(bytes).same(&WgKey::new(bytes)));
}

#[test]
fn eth_address_text_is_forty_hex_digits() {
    let mut bytes = [0u8; 20];
    bytes[0] = 0x01;
    bytes[19] = 0xfe;
    let mut s = String::new();
    EthAddress::new(bytes).push_text(&mut s);
    assert_eq!(s, "01000000000000000000000000000000000000fe");
}

#[test]
fn ipv4_text_is_dotted_quad() {
    assert_eq!(Ipv4Address::new(10, 0, 0, 2).to_text(), "10.0.0.2");
    assert_eq!(Ipv4Address::new(255, 255, 255, 255).to_text(), "255.255.255.255");
    assert_eq!(Ipv4Address::new(0, 0, 0, 0).to_text(), "0.0.0.0");
}

#[test]
fn ipv6_text_elides_the_longest_zero_run() {
    assert_eq!(v6([0xfd00, 0, 0, 0, 0, 0, 0, 2]), "fd00::2");
    assert_eq!(v6([0, 0, 0, 0, 0, 0, 0, 0]), "::");
    assert_eq!(v6([0, 0, 0, 0, 0, 0, 0, 1]), "::1");
    assert_eq!(v6([0xfe80, 0, 0, 0, 0, 0, 0, 0]), "fe80::");
    assert_eq!(v6([1, 0, 0, 2, 0, 0, 0, 3]), "1:0:0:2::3");
    assert_eq!(v6([1, 0, 0, 2, 0, 0, 3, 4]), "1::2:0:0:3:4");
    assert_eq!(v6([1, 0, 2, 0, 3, 0, 4, 0]), "1:0:2:0:3:0:4:0");
    assert_eq!(v6([1, 2, 3, 4, 5, 6, 7, 8]), "1:2:3:4:5:6:7:8");
    assert_eq!(
        v6([0xfd44, 0x94c, 0x41e2, 0, 0, 0, 0, 0x9e6]),
        "fd44:94c:41e2::9e6"
    );
}

#[test]
fn ipv6_text_writes_mapped_addresses_in_dotted_quad() {
    assert_eq!(v6([0, 0, 0, 0, 0, 0xffff, 0xc0a8, 0x0101]), "::ffff:192.168.1.1");
}

#[test]
fn ipv6_text_picks_the_first_of_equal_runs() {
    assert_eq!(v6([0, 0, 1, 0, 0, 2, 3, 4]), "::1:0:0:2:3:4");
    assert_eq!(v6([1, 0, 0, 2, 3, 0, 0, 4]), "1::2:3:0:0:4");
    assert_eq!(v6([1, 2, 0, 0, 3, 4, 0, 0]), "1:2::3:4:0:0");
}

#[test]
fn ipv6_text_prefers_a_later_run_that_is_longer() {
    assert_eq!(v6([0, 0, 1, 0, 0, 0, 2, 3]), "0:0:1::2:3");
    assert_eq!(v6([1, 0, 0, 2, 0, 0, 0, 0]), "1:0:0:2::");
    assert_eq!(v6([0, 1, 0, 0, 0, 0, 0, 0]), "0:1::");
}

#[test]
fn ipv6_text_leaves_a_single_zero_alone() {
    assert_eq!(v6([1, 0, 2, 3, 4, 5, 6, 7]), "1:0:2:3:4:5:6:7");
    assert_eq!(v6([0, 1, 2, 3, 4, 5, 6, 7]), "0:1:2:3:4:5:6:7");
    assert_eq!(v6([1, 2, 3, 4, 5, 6, 7, 0]), "1:2:3:4:5:6:7:0");
}

#[test]
fn ipv6_text_of_addresses_next_to_the_mapped_range() {
    assert_eq!(v6([0, 0, 0, 0, 0, 0xfffe, 0xc0a8, 0x0101]), "::fffe:c0a8:101");
    assert_eq!(v6([0, 0, 0, 0, 1, 0xffff, 0xc0a8, 0x0101]), "::1:ffff:c0a8:101");
    assert_eq!(v6([0, 0, 0, 0, 0, 0xffff, 0, 0]), "::ffff:0.0.0.0");
    assert_eq!(v6([0, 0, 0, 0, 0, 0, 0xc0a8, 0x0101]), "::c0a8:101");
}

#[test]
fn ipv4_text_has_no_leading_zeros() {
    assert_eq!(Ipv4Address::new(1, 20, 200, 9).to_text(), "1.20.200.9");
    assert_eq!(Ipv4Address::new(100, 10, 1, 0).to_text(), "100.10.1.0");
}

#[test]
fn link_local_is_fe80_slash_ten() {
    let ll = |first: u16| Ipv6Address::new([first, 0, 0, 0, 0, 0, 0, 1]).is_link_local();
    assert!(ll(0xfe80));
    assert!(ll(0xfebf));
    assert!(!ll(0xfe7f));
    assert!(!ll(0xfec0));
    assert!(!ll(0xfd00));
    assert!(!IpAddress::V4(Ipv4Address::new(169, 254, 0, 1)).is_link_local());
    assert!(IpAddress::V6(Ipv6Address::new([0xfe80, 0, 0, 0, 0, 0, 0, 1])).is_link_local());
}

#[test]
fn addresses_compare_by_value() {
    let a = IpAddress::V6(Ipv6Address::new([0xfe80, 0, 0, 0, 0, 0, 0, 1]));
    let b = IpAddress::V6(Ipv6Address::new([0xfe80, 0, 0, 0, 0, 0, 0, 2]));
    let c = IpAddress::V4(Ipv4Address::new(10, 0, 0, 1));
    assert!(a.same(&a));
    assert!(!a.same(&b));
    assert!(!a.same(&c));
    assert!(c.same(&IpAddress::V4(Ipv4Address::new(10, 0, 0, 1))));
    assert!(Ipv6Address::new([0; 8]).is_unspecified());
    assert!(!Ipv6Address::new([0, 0, 0, 0, 0, 0, 0, 1]).is_unspecified());
}

#[test]
fn prefixes_and_equality_of_text() {
    assert!(text_starts_with("wg0", "wg"));
    assert!(text_starts_with("wg", "wg"));
    assert!(!text_starts_with("w", "wg"));
    assert!(!text_starts_with("eth0", "wg"));
    assert!(text_starts_with("anything", ""));
    assert!(text_eq("linux", "linux"));
    assert!(!text_eq("linux", "linus"));
    assert!(!text_eq("linux", "linu"));
}

#[test]
fn a_key_is_read_from_its_text() {
    let mut bytes = [0u8; 32];
    for (i, b) in bytes.iter_mut().enumerate() {
        *b = (i * 37 + 11) as u8;
    }
    let key = WgKey::new(bytes);
    let text = key.to_text();
    assert!(WgKey::from_text(&text).unwrap().same(&key));
    assert!(WgKey::from_text("AAAAAAAAAAAAAAAAAAAAAAAAAAAAAAAAAAAAAAAAAAA=")
        .unwrap()
        .same(&WgKey::new([0; 32])));
    assert!(WgKey::from_text("//////////////////////////////////////////8=")
        .unwrap()
        .same(&WgKey::new([0xff; 32])));
}

#[test]
fn what_is_no_key_text_is_refused() {
    for text in [
        "",
        "AAAA",
        "AAAAAAAAAAAAAAAAAAAAAAAAAAAAAAAAAAAAAAAAAAA",
        "AAAAAAAAAAAAAAAAAAAAAAAAAAAAAAAAAAAAAAAAAAAA",
        "AAAAAAAAAAAAAAAAAAAAAAAAAAAAAAAAAAAAAAAAAAB=",
        "AAAAAAAAAAAAAAAAAAAAAAAAAAAAAAAAAAAAAAAAAA==",
        "AAAAAAAAAAAAAAAAAAAAAAAAAAAAAAAAAAAAAAAAAAA=AAAA",
        "AAAAAAAAAAAAAAAAAAAAAAAAAAAAAAAAAAAAAAAAAA=A",
        "AAAA AAAAAAAAAAAAAAAAAAAAAAAAAAAAAAAAAAAAAA=",
        "AAAAAAAAAAAAAAAAAAAAAAAAAAAAAAAAAAAAAAAAAA-=",
        "=AAAAAAAAAAAAAAAAAAAAAAAAAAAAAAAAAAAAAAAAAA=",
    ] {
        assert!(WgKey::from_text(text).is_none(), "{:?}", text);
    }
}

#[test]
fn base64_is_read_back() {
    use_read(b"", "");
    use_read(b"f", "Zg==");
    use_read(b"fo", "Zm8=");
    use_read(b"foo", "Zm9v");
    use_read(b"foobar", "Zm9vYmFy");
    use_read(&[0xfb, 0xff, 0xfe], "+//+");
    for text in ["Z", "Zg=", "Zg", "Zh==", "Zm9=", "Zg==Zg==", "Zm8=Zm9v", "Z===", "====", "Zm9v\n"] {
        assert_eq!(read_base64(text), None, "{:?}", text);
    }
}

fn use_read(bytes: &[u8], text: &str) {
    assert_eq!(read_base64(text), Some(bytes.to_vec()));
}

fn read_v6(text: &str) -> Option<[u16; 8]> {
    Ipv6Address::from_text(text).map(|a| a.segments)
}

#[test]
fn ipv6_addresses_are_read_from_canonical_text() {
    assert_eq!(read_v6("fd00::2"), Some([0xfd00, 0, 0, 0, 0, 0, 0, 2]));
    assert_eq!(read_v6("::"), Some([0; 8]));
    assert_eq!(read_v6("::1"), Some([0, 0, 0, 0, 0, 0, 0, 1]));
    assert_eq!(read_v6("fe80::"), Some([0xfe80, 0, 0, 0, 0, 0, 0, 0]));
    assert_eq!(read_v6("1:2:3:4:5:6:7:8"), Some([1, 2, 3, 4, 5, 6, 7, 8]));
    assert_eq!(read_v6("1:0:0:2::3"), Some([1, 0, 0, 2, 0, 0, 0, 3]));
    assert_eq!(read_v6("1::2:0:0:3:4"), Some([1, 0, 0, 2, 0, 0, 3, 4]));
    assert_eq!(read_v6("1:0:2:3:4:5:6:7"), Some([1, 0, 2, 3, 4, 5, 6, 7]));
    assert_eq!(read_v6("::ffff:192.168.1.1"), Some([0, 0, 0, 0, 0, 0xffff, 0xc0a8, 0x0101]));
    assert_eq!(read_v6("::ffff:0.0.0.0"), Some([0, 0, 0, 0, 0, 0xffff, 0, 0]));
    assert_eq!(read_v6("::fffe:c0a8:101"), Some([0, 0, 0, 0, 0, 0xfffe, 0xc0a8, 0x0101]));
    assert_eq!(
        read_v6("fd9d:bb35:94bf:c38a:ee1:c75d:8df3:c909"),
        Some([0xfd9d, 0xbb35, 0x94bf, 0xc38a, 0xee1, 0xc75d, 0x8df3, 0xc909])
    );
    assert_eq!(
        read_v6("ffff:ffff:ffff:ffff:ffff:ffff:ffff:ffff"),
        Some([0xffff; 8])
    );
}

#[test]
fn what_is_not_canonical_is_not_read() {
    for text in [
        "",
        ":",
        ":::",
        "1",
        "1:2:3:4:5:6:7",
        "1:2:3:4:5:6:7:8:9",
        "1:2:3:4:5:6:7:",
        ":1:2:3:4:5:6:7",
        "1::2::3",
        "FD00::2",
        "fd00::0002",
        "fd00:0:0:0:0:0:0:2",
        "0:0:0:0:0:0:0:0",
        "1:0:0:2:0:0:0:3",
        "1::2:3:4:5:6:7",
        "12345::",
        "g::",
        "fd00::2 ",
        " fd00::2",
        "fd00::2/64",
        "fe80::1%eth0",
        "::ffff:c0a8:101",
        "::ffff:192.168.1",
        "::ffff:192.168.1.256",
        "::ffff:192.168.01.1",
        "::192.168.1.1",
        "1.2.3.4",
    ] {
        assert_eq!(read_v6(text), None, "{:?}", text);
    }
}

#[test]
fn every_written_ipv6_address_is_read_back() {
    let mut state: u64 = 0x9e3779b97f4a7c15;
    for round in 0..3000 {
        let mut segments = [0u16; 8];
        for s in segments.iter_mut() {
            state = state.wrapping_mul(6364136223846793005).wrapping_add(1442695040888963407);
            let pick = (state >> 33) as u32;
            *s = match pick % 4 {
                0 | 1 => 0,
                2 => (pick >> 8) as u16 & 0xff,
                _ => (pick >> 8) as u16,
            };
        }
        if round % 7 == 0 {
            segments[5] = 0xffff;
        }
        if round % 11 == 0 {
            segments[0] = 0;
            segments[1] = 0;
            segments[2] = 0;
            segments[3] = 0;
            segments[4] = 0;
        }
        let text = v6(segments);
        assert_eq!(read_v6(&text), Some(segments), "{}", text);
    }
}

#[test]
fn ipv4_addresses_are_read_from_canonical_text() {
    let read = |t: &str| Ipv4Address::from_text(t).map(|a| a.octets);
    assert_eq!(read("10.0.0.2"), Some([10, 0, 0, 2]));
    assert_eq!(read("255.255.255.255"), Some([255; 4]));
    assert_eq!(read("0.0.0.0"), Some([0; 4]));
    for a in 0..=255u8 {
        let text = Ipv4Address::new(a, 255 - a, a / 2, 7).to_text();
        assert_eq!(read(&text), Some([a, 255 - a, a / 2, 7]));
    }
    for text in [
        "", "1", "1.2.3", "1.2.3.4.5", "1.2.3.", ".1.2.3", "1..2.3", "256.1.1.1", "1.2.3.256",
        "01.2.3.4", "1.2.3.04", "1.2.3.4 ", "a.b.c.d", "1.2.3.-4", "1.2.3.4000", "fd00::2",
    ] {
        assert_eq!(read(text), None, "{:?}", text);
    }
}

#[test]
fn addresses_of_either_family_are_read() {
    assert!(IpAddress::from_text("192.168.1.1")
        .unwrap()
        .same(&IpAddress::V4(Ipv4Address::new(192, 168, 1, 1))));
    assert!(IpAddress::from_text("fd44:94c:41e2::9e6").unwrap().same(&IpAddress::V6(
        Ipv6Address::new([0xfd44, 0x94c, 0x41e2, 0, 0, 0, 0, 0x9e6])
    )));
    assert!(IpAddress::from_text("localhost").is_none());
}
