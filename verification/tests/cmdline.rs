use prefixdevname::cmdline::{get_prefix_from_cmdline, prefix_from_capture, PREFIX_PATTERN};
use prefixdevname::error::NamingError;

#[test]
fn cmdline_with_prefix() {
    let cmdline = "BOOT_IMAGE=/vmlinuz-4.18 root=/dev/vda1 ro net.ifnames.prefix=lan quiet\n";
    assert_eq!(get_prefix_from_cmdline(cmdline), Ok("lan".to_string()));
}

#[test]
fn cmdline_prefix_at_end() {
    assert_eq!(get_prefix_from_cmdline("ro net.ifnames.prefix=net"), Ok("net".to_string()));
}

#[test]
fn cmdline_without_prefix() {
    assert_eq!(get_prefix_from_cmdline("BOOT_IMAGE=/vmlinuz ro quiet"), Ok(String::new()));
    assert_eq!(get_prefix_from_cmdline(""), Ok(String::new()));
    assert_eq!(get_prefix_from_cmdline("net.ifnames.prefix="), Ok(String::new()));
    assert_eq!(get_prefix_from_cmdline("net.ifnames.prefix=0"), Ok(String::new()));
}

#[test]
fn cmdline_prefix_stops_at_first_non_letter() {
    assert_eq!(get_prefix_from_cmdline("net.ifnames.prefix=lan0 quiet"), Ok("lan".to_string()));
    assert_eq!(get_prefix_from_cmdline("net.ifnames.prefix=wan,x"), Ok("wan".to_string()));
}

#[test]
fn cmdline_first_of_two_prefixes() {
    let cmdline = "net.ifnames.prefix=lan net.ifnames.prefix=wan";
    assert_eq!(get_prefix_from_cmdline(cmdline), Ok("lan".to_string()));
}

#[test]
fn cmdline_kernel_prefix_is_refused() {
    assert_eq!(
        get_prefix_from_cmdline("ro net.ifnames.prefix=eth quiet"),
        Err(NamingError::KernelPrefix)
    );
}

#[test]
fn cmdline_longer_than_kernel_prefix_is_taken() {
    assert_eq!(get_prefix_from_cmdline("net.ifnames.prefix=ethx"), Ok("ethx".to_string()));
}

#[test]
fn cmdline_long_prefix_is_refused_not_cut() {
    assert_eq!(
        get_prefix_from_cmdline("net.ifnames.prefix=abcdefghijklmno"),
        Err(NamingError::PrefixTooLong)
    );
    assert_eq!(
        get_prefix_from_cmdline("net.ifnames.prefix=abcdefghijklmn"),
        Ok("abcdefghijklmn".to_string())
    );
}

#[test]
fn capture_none_is_empty_prefix() {
    assert_eq!(prefix_from_capture(None), Ok(String::new()));
}

#[test]
fn capture_is_handed_on() {
    assert_eq!(prefix_from_capture(Some("lan".to_string())), Ok("lan".to_string()));
    assert_eq!(prefix_from_capture(Some("et".to_string())), Ok("et".to_string()));
}

#[test]
fn capture_kernel_prefix() {
    assert_eq!(prefix_from_capture(Some("eth".to_string())), Err(NamingError::KernelPrefix));
}

#[test]
fn capture_too_long() {
    assert_eq!(
        prefix_from_capture(Some("a".repeat(15))),
        Err(NamingError::PrefixTooLong)
    );
    assert_eq!(prefix_from_capture(Some("a".repeat(14))), Ok("a".repeat(14)));
}

#[test]
fn capture_length_counts_characters() {
    // fourteen characters, twenty-eight bytes
    let prefix = "\u{e9}".repeat(14);
    assert_eq!(prefix_from_capture(Some(prefix.clone())), Ok(prefix));
    assert_eq!(
        prefix_from_capture(Some("\u{e9}".repeat(15))),
        Err(NamingError::PrefixTooLong)
    );
}

#[test]
fn pattern_names_the_parameter() {
    assert_eq!(PREFIX_PATTERN, "net.ifnames.prefix=([[:alpha:]]+)");
}
