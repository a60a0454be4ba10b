use er_commander::number::{
    bytes_to_hex, decimal, decimal_i32, decimal_usize, format_size, is_decimal_digit, padded,
    parse_i32, parse_u32, GB, KB, MB,
};

#[test]
fn sizes_as_text() {
    assert_eq!(format_size(0), "0 B");
    assert_eq!(format_size(1), "1 B");
    assert_eq!(format_size(1023), "1023 B");
    assert_eq!(format_size(1024), "1.0 KB");
    assert_eq!(format_size(1536), "1.5 KB");
    assert_eq!(format_size(1048575), "1024.0 KB");
    assert_eq!(format_size(1048576), "1.00 MB");
    assert_eq!(format_size(5 * GB + GB / 4), "5.25 GB");
}

fn reference(bytes: u64) -> String {
    let b = bytes as f64;
    if b >= GB as f64 {
        format!("{:.2} GB", b / GB as f64)
    } else if b >= MB as f64 {
        format!("{:.2} MB", b / MB as f64)
    } else if b >= KB as f64 {
        format!("{:.1} KB", b / KB as f64)
    } else {
        format!("{} B", bytes)
    }
}

#[test]
fn sizes_agree_with_floating_point() {
    let mut n: u64 = 1;
    let mut seed: u64 = 88172645463325252;
    while n < u64::MAX / 3 {
        for d in [0u64, 1, 2, 51, 52, 512, 513] {
            assert_eq!(format_size(n.saturating_sub(d)), reference(n.saturating_sub(d)));
            assert_eq!(format_size(n.saturating_add(d)), reference(n.saturating_add(d)));
        }
        seed ^= seed << 13;
        seed ^= seed >> 7;
        seed ^= seed << 17;
        assert_eq!(format_size(seed % n), reference(seed % n));
        n = n * 2;
    }
    for tenth in 0..2000u64 {
        let at = KB + tenth * KB / 20;
        assert_eq!(format_size(at), reference(at));
        let at = MB + tenth * MB / 20;
        assert_eq!(format_size(at), reference(at));
        let at = GB + tenth * GB / 20;
        assert_eq!(format_size(at), reference(at));
    }
    assert_eq!(format_size(u64::MAX), reference(u64::MAX));
    assert_eq!(format_size(u64::MAX - 1), reference(u64::MAX - 1));
    assert_eq!(format_size((1 << 53) + 1), reference((1 << 53) + 1));
    assert_eq!(format_size((1 << 60) + 53687091), reference((1 << 60) + 53687091));
}

#[test]
fn hex_of_bytes() {
    assert_eq!(bytes_to_hex(&[]), "");
    assert_eq!(bytes_to_hex(&[0, 15, 255]), "000fff");
    assert_eq!(bytes_to_hex(&[0xde, 0xad, 0xbe, 0xef]), "deadbeef");
}

#[test]
fn numbers_read_back() {
    for n in [0u32, 1, 9, 10, 4294967295] {
        assert_eq!(parse_u32(&decimal(n as u64)), Some(n));
    }
    for n in [0i32, 7, -7, i32::MAX, i32::MIN] {
        assert_eq!(parse_i32(&decimal_i32(n)), Some(n));
    }
    assert_eq!(decimal(u64::MAX), "18446744073709551615");
    assert_eq!(decimal_usize(42), "42");
}

#[test]
fn numbers_that_do_not_read() {
    for s in ["", "+", "-", "1a", " 1", "4294967296", "-1"] {
        assert_eq!(parse_u32(s), s.parse::<u32>().ok(), "{}", s);
    }
    for s in ["", "+", "-", "--1", "2147483648", "-2147483649", "1.5"] {
        assert_eq!(parse_i32(s), s.parse::<i32>().ok(), "{}", s);
    }
    assert_eq!(parse_u32("+7"), "+7".parse::<u32>().ok());
    assert_eq!(parse_i32("-0"), Some(0));
    assert!(is_decimal_digit('5'));
    assert!(!is_decimal_digit('٥'));
}

#[test]
fn counters_are_padded() {
    for n in [0i64, 7, 12, -5, -123, i64::MAX, i64::MIN] {
        for w in [0usize, 1, 2, 3, 8, 25] {
            assert_eq!(padded(n, w), format!("{:0width$}", n, width = w), "{} {}", n, w);
        }
    }
}
