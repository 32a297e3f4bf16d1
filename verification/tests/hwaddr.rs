use prefixdevname::error::NamingError;
use prefixdevname::util::{hwaddr_normalize, hwaddr_valid, HWADDR_LEN};

#[test]
fn hwaddr_valid_ok() {
    assert!(hwaddr_valid(&"11:22:33:44:55:66"));
}

#[test]
fn hwaddr_valid_ok_dashed() {
    assert!(hwaddr_valid(&"11-22-33-44-55-66"));
}

#[test]
#[should_panic]
fn hwaddr_valid_invalid_chars() {
    assert!(hwaddr_valid(&"11-22-33-44-55-xx"));
}

#[test]
#[should_panic]
fn hwaddr_valid_invalid_range() {
    assert!(hwaddr_valid(&"ffff-33-44-55-66"));
}

#[test]
#[should_panic]
fn hwaddr_valid_invalid_long() {
    assert!(hwaddr_valid(&"11-22-33-44-55-66-77"));
}

#[test]
#[should_panic]
fn hwaddr_valid_invalid_short() {
    assert!(hwaddr_valid(&"52:54:00:52:1f"));
}

#[test]
fn hwaddr_normalize_ok() {
    assert_eq!(hwaddr_normalize(&"52:54:00:52:1f:93").unwrap(), "52:54:00:52:1F:93");
}

#[test]
fn hwaddr_normalize_ok_dashed() {
    assert_eq!(hwaddr_normalize(&"52-54-00-52-1f-93").unwrap(), "52:54:00:52:1F:93");
}

#[test]
#[should_panic]
fn hwaddr_normalize_invalid() {
    assert_eq!(hwaddr_normalize(&"xx:54:00:52:1f:93").unwrap(), "52:54:00:52:1F:93");
}

#[test]
fn hwaddr_length_is_seventeen() {
    assert_eq!(HWADDR_LEN, 17);
    assert_eq!("11:22:33:44:55:66".len(), HWADDR_LEN);
}

#[test]
fn hwaddr_valid_rejects_mixed_separators() {
    assert!(!hwaddr_valid("11:22-33:44:55:66"));
    assert!(!hwaddr_valid("11-22-33-44-55:66"));
    assert!(!hwaddr_valid("11:22:33:44:55-66"));
}

#[test]
fn hwaddr_valid_rejects_other_separators() {
    assert!(!hwaddr_valid("11.22.33.44.55.66"));
    assert!(!hwaddr_valid("11 22 33 44 55 66"));
    assert!(!hwaddr_valid("112233445566:::::"));
}

#[test]
fn hwaddr_valid_rejects_wrong_grouping() {
    // seventeen characters, every piece a hex number, but not six octets
    assert!(!hwaddr_valid("1:2:3:4:5:6:7:8:9"));
    assert!(!hwaddr_valid("1:22:33:44:55:066"));
    assert!(!hwaddr_valid("111:2:33:44:55:66"));
}

#[test]
fn hwaddr_valid_rejects_signs() {
    assert!(!hwaddr_valid("+1:22:33:44:55:66"));
    assert!(!hwaddr_valid("11:22:33:44:55:+6"));
}

#[test]
fn hwaddr_valid_rejects_non_hex_letters() {
    assert!(!hwaddr_valid("1g:22:33:44:55:66"));
    assert!(!hwaddr_valid("11:22:33:44:55:6G"));
    assert!(!hwaddr_valid("11:22:33:44:55:6 "));
}

#[test]
fn hwaddr_valid_rejects_non_ascii() {
    assert!(!hwaddr_valid("11:22:33:44:55:6\u{e9}"));
    assert!(!hwaddr_valid("\u{ff11}1:22:33:44:55:66"));
    // seventeen bytes, fewer characters
    assert!(!hwaddr_valid("11:22:33:44:55:\u{e9}"));
}

#[test]
fn hwaddr_valid_rejects_empty_and_fragments() {
    assert!(!hwaddr_valid(""));
    assert!(!hwaddr_valid(":"));
    assert!(!hwaddr_valid("11:22:33:44:55:6"));
    assert!(!hwaddr_valid("11:22:33:44:55:666"));
}

#[test]
fn hwaddr_valid_accepts_every_hex_digit() {
    assert!(hwaddr_valid("01:23:45:67:89:ab"));
    assert!(hwaddr_valid("cd:ef:AB:CD:EF:00"));
    assert!(hwaddr_valid("00-00-00-00-00-00"));
    assert!(hwaddr_valid("FF:FF:FF:FF:FF:FF"));
}

#[test]
fn hwaddr_normalize_reports_invalid() {
    assert_eq!(hwaddr_normalize("xx:54:00:52:1f:93"), Err(NamingError::InvalidHwaddr));
    assert_eq!(hwaddr_normalize(""), Err(NamingError::InvalidHwaddr));
    assert_eq!(hwaddr_normalize("52:54-00:52:1f:93"), Err(NamingError::InvalidHwaddr));
}

#[test]
fn hwaddr_normalize_same_address_same_form() {
    let forms = [
        "aa:bb:cc:dd:ee:ff",
        "AA:BB:CC:DD:EE:FF",
        "aa-bb-cc-dd-ee-ff",
        "AA-BB-CC-DD-EE-FF",
        "aA:Bb:cC:Dd:eE:Ff",
        "Aa-bB-Cc-dD-Ee-fF",
    ];
    for form in forms {
        assert_eq!(hwaddr_normalize(form).unwrap(), "AA:BB:CC:DD:EE:FF");
    }
}

#[test]
fn hwaddr_normalize_different_addresses_differ() {
    let a = hwaddr_normalize("aa:bb:cc:dd:ee:ff").unwrap();
    let b = hwaddr_normalize("aa:bb:cc:dd:ee:fe").unwrap();
    assert_ne!(a, b);
}

#[test]
fn hwaddr_normalize_leaves_canonical_form() {
    for a in ["52:54:00:52:1F:93", "00:00:00:00:00:00", "FF:FF:FF:FF:FF:FF", "0A:1B:2C:3D:4E:5F"] {
        assert_eq!(hwaddr_normalize(a).unwrap(), a);
    }
}

#[test]
fn hwaddr_normalize_twice_is_once() {
    let once = hwaddr_normalize("de-ad-be-ef-00-01").unwrap();
    let twice = hwaddr_normalize(&once).unwrap();
    assert_eq!(once, "DE:AD:BE:EF:00:01");
    assert_eq!(twice, once);
}

#[test]
fn hwaddr_normalize_result_is_valid() {
    let a = hwaddr_normalize("de-ad-be-ef-00-01").unwrap();
    assert!(hwaddr_valid(&a));
    assert_eq!(a.len(), HWADDR_LEN);
}
