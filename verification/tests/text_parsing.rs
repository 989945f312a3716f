use checkc::c_config::fs::flag_search_keeps;
use checkc::c_config::cgroup::memory_limit_set;
use checkc::text::{
    contains_str, parse_i32_exec, parse_unsigned_exec, push_decimal, split_ascii_whitespace, split_on_exec,
    split_spaces_exec, starts_with_str, trim_exec, IntErrorKind,
};

#[test]
fn parse_i32_accepts_signed_decimals() {
    assert_eq!(parse_i32_exec("1234"), Ok(1234));
    assert_eq!(parse_i32_exec("+17"), Ok(17));
    assert_eq!(parse_i32_exec("-2147483648"), Ok(i32::MIN));
    assert_eq!(parse_i32_exec("2147483647"), Ok(i32::MAX));
}

#[test]
fn parse_i32_reports_each_error_kind() {
    assert_eq!(parse_i32_exec(""), Err(IntErrorKind::Empty));
    assert_eq!(parse_i32_exec("12a"), Err(IntErrorKind::InvalidDigit));
    assert_eq!(parse_i32_exec("-"), Err(IntErrorKind::InvalidDigit));
    assert_eq!(parse_i32_exec("2147483648"), Err(IntErrorKind::PosOverflow));
    assert_eq!(parse_i32_exec("-2147483649"), Err(IntErrorKind::NegOverflow));
}

#[test]
fn parse_i32_agrees_with_std() {
    for s in ["0", "-0", "+0", "007", "--1", "+-1", " 1", "99999999999", "-12"] {
        let ours = parse_i32_exec(s);
        let std_result = s.parse::<i32>();
        match (ours, std_result) {
            (Ok(a), Ok(b)) => assert_eq!(a, b),
            (Err(_), Err(_)) => {}
            (a, b) => panic!("disagreement on {s:?}: {a:?} vs {b:?}"),
        }
    }
}

#[test]
fn parse_unsigned_reads_hexadecimal_masks() {
    assert_eq!(parse_unsigned_exec("00000000a80425fb", 16, u64::MAX), Ok(0xa80425fb));
    assert_eq!(parse_unsigned_exec("ffffffffffffffff", 16, u64::MAX), Ok(u64::MAX));
    assert_eq!(parse_unsigned_exec("1ffffffffffffffff", 16, u64::MAX), Err(IntErrorKind::PosOverflow));
    assert_eq!(parse_unsigned_exec("4294967296", 10, u32::MAX as u64), Err(IntErrorKind::PosOverflow));
}

#[test]
fn decimal_rendering() {
    let mut s = String::from("pid ");
    push_decimal(&mut s, 0);
    push_decimal(&mut s, 4096);
    assert_eq!(s, "pid 04096");
}

#[test]
fn splitting_keeps_empty_pieces() {
    assert_eq!(split_spaces_exec("a  b"), vec!["a".to_string(), "".to_string(), "b".to_string()]);
    assert_eq!(split_on_exec("8:1", ':'), vec!["8".to_string(), "1".to_string()]);
    assert_eq!(split_on_exec("", ':'), vec!["".to_string()]);
    assert_eq!(split_ascii_whitespace(" 0\t1000  65536 "), vec!["0".to_string(), "1000".to_string(), "65536".to_string()]);
}

#[test]
fn substring_prefix_and_trim() {
    assert!(contains_str("10000 100000", "00 1"));
    assert!(!contains_str("100000 100000", "max"));
    assert!(contains_str("max 100000", "max"));
    assert!(starts_with_str("/proc/1/root", "/proc"));
    assert!(!starts_with_str("/pro", "/proc"));
    assert_eq!(trim_exec("  max\n"), "max");
    assert!(!memory_limit_set(" max "));
    assert!(memory_limit_set("maximal"));
}

#[test]
fn path_prefix_goes_by_components() {
    let file = Some((false, true));
    let name = Some("xyz_checkc_flag_1");
    let skips = vec!["/proc".to_string()];
    assert!(!flag_search_keeps("/proc/sys/xyz_checkc_flag_1", file, name, &skips));
    assert!(flag_search_keeps("/procfs/xyz_checkc_flag_1", file, name, &skips));
    assert!(!flag_search_keeps("/sys/xyz_checkc_flag_1", file, name, &vec!["/sys/".to_string()]));
}
