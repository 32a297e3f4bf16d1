use prefixdevname::name::{
    link_index, link_name_valid, make_link_name, prefix_allowed, PREFIX_MAX_LEN,
};

#[test]
fn prefix_allowed_rejects_reserved() {
    assert!(!prefix_allowed("eth"));
    assert!(!prefix_allowed("eno"));
    assert!(!prefix_allowed("ens"));
    assert!(!prefix_allowed("em"));
}

#[test]
fn prefix_allowed_accepts_others() {
    assert!(prefix_allowed("net"));
    assert!(prefix_allowed("lan"));
    assert!(prefix_allowed("wan"));
    assert!(prefix_allowed("e"));
    assert!(prefix_allowed("et"));
    assert!(prefix_allowed("ethx"));
    assert!(prefix_allowed("ETH"));
    assert!(prefix_allowed("en"));
}

#[test]
fn prefix_max_len_is_fourteen() {
    assert_eq!(PREFIX_MAX_LEN, 14);
}

#[test]
fn make_link_name_appends_decimal() {
    assert_eq!(make_link_name("lan", 0), "lan0");
    assert_eq!(make_link_name("lan", 7), "lan7");
    assert_eq!(make_link_name("lan", 10), "lan10");
    assert_eq!(make_link_name("wan", 1234567890), "wan1234567890");
    assert_eq!(make_link_name("", 42), "42");
}

#[test]
fn make_link_name_largest_number() {
    assert_eq!(make_link_name("n", u64::MAX), "n18446744073709551615");
}

#[test]
fn link_index_reads_number() {
    assert_eq!(link_index("lan", "lan0"), Some(0));
    assert_eq!(link_index("lan", "lan3"), Some(3));
    assert_eq!(link_index("lan", "lan42"), Some(42));
    assert_eq!(link_index("lan", "lan007"), Some(7));
    assert_eq!(link_index("lan", "lan18446744073709551615"), Some(u64::MAX));
}

#[test]
fn link_index_rejects_other_names() {
    assert_eq!(link_index("lan", "lan"), None);
    assert_eq!(link_index("lan", "wan0"), None);
    assert_eq!(link_index("lan", "la0"), None);
    assert_eq!(link_index("lan", "lanx0"), None);
    assert_eq!(link_index("lan", "lan0x"), None);
    assert_eq!(link_index("lan", "lan-1"), None);
    assert_eq!(link_index("lan", "lan+1"), None);
    assert_eq!(link_index("lan", "lan 1"), None);
    assert_eq!(link_index("lan", "LAN1"), None);
    assert_eq!(link_index("lan", ""), None);
    assert_eq!(link_index("lan", "lan\u{661}"), None);
}

#[test]
fn link_index_rejects_numbers_beyond_64_bits() {
    assert_eq!(link_index("lan", "lan18446744073709551616"), None);
    assert_eq!(link_index("lan", "lan99999999999999999999999"), None);
}

#[test]
fn link_index_reads_back_made_name() {
    for n in [0u64, 1, 9, 10, 99, 100, 65535, u64::MAX] {
        let name = make_link_name("net", n);
        assert_eq!(link_index("net", &name), Some(n));
    }
}

#[test]
fn link_name_valid_accepts_prefix_and_number() {
    assert!(link_name_valid("lan0"));
    assert!(link_name_valid("net12"));
    assert!(link_name_valid("a0"));
    assert!(link_name_valid("abcdefghijklmn0"));
    assert!(link_name_valid("ethx1"));
}

#[test]
fn link_name_valid_rejects_bad_shape() {
    assert!(!link_name_valid(""));
    assert!(!link_name_valid("lan"));
    assert!(!link_name_valid("0"));
    assert!(!link_name_valid("lan0a"));
    assert!(!link_name_valid("lan_0"));
    assert!(!link_name_valid("l\u{e9}n0"));
    assert!(!link_name_valid("lan 0"));
}

#[test]
fn link_name_valid_rejects_long_prefix() {
    assert!(!link_name_valid("abcdefghijklmno0"));
}

#[test]
fn link_name_valid_rejects_reserved_prefix() {
    assert!(!link_name_valid("eth0"));
    assert!(!link_name_valid("eno1"));
    assert!(!link_name_valid("ens3"));
    assert!(!link_name_valid("em1"));
}

#[test]
fn link_name_valid_rejects_number_beyond_64_bits() {
    assert!(link_name_valid("lan18446744073709551615"));
    assert!(!link_name_valid("lan18446744073709551616"));
}
