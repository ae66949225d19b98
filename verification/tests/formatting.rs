use urglance::base64::base64_encode;
use urglance::meta::{format_permissions, format_time, get_metadata_string, LocalTime};
use urglance::size::format_size;
use urglance::url::url_decode;

/// The size rendering of the original service, written with floating point.
fn float_format_size(bytes: u64) -> String {
    let units = ["Bytes", "KB", "MB", "GB", "TB"];
    let mut size = bytes as f64;
    let mut i = 0;
    while size >= 1024.0 && i < 4 {
        size /= 1024.0;
        i += 1;
    }
    if i == 0 {
        format!("{} {}", bytes, units[i])
    } else {
        format!("{:.2} {}", size, units[i])
    }
}

#[test]
fn base64_rfc_vectors() {
    assert_eq!(base64_encode(b""), "");
    assert_eq!(base64_encode(b"f"), "Zg==");
    assert_eq!(base64_encode(b"fo"), "Zm8=");
    assert_eq!(base64_encode(b"foo"), "Zm9v");
    assert_eq!(base64_encode(b"foob"), "Zm9vYg==");
    assert_eq!(base64_encode(b"fooba"), "Zm9vYmE=");
    assert_eq!(base64_encode(b"foobar"), "Zm9vYmFy");
}

#[test]
fn base64_all_sextets() {
    let data: Vec<u8> = vec![0x00, 0x10, 0x83, 0x10, 0x51, 0x87, 0x20, 0x92, 0x8b, 0x30, 0xd3, 0x8f,
        0x41, 0x14, 0x93, 0x51, 0x55, 0x97, 0x61, 0x96, 0x9b, 0x71, 0xd7, 0x9f, 0x82, 0x18, 0xa3,
        0x92, 0x59, 0xa7, 0xa2, 0x9a, 0xab, 0xb2, 0xdb, 0xaf, 0xc3, 0x1c, 0xb3, 0xd3, 0x5d, 0xb7,
        0xe3, 0x9e, 0xbb, 0xf3, 0xdf, 0xbf];
    assert_eq!(
        base64_encode(&data),
        "ABCDEFGHIJKLMNOPQRSTUVWXYZabcdefghijklmnopqrstuvwxyz0123456789+/"
    );
}

#[test]
fn base64_length_and_concat_laws() {
    for n in 0..20usize {
        let data: Vec<u8> = (0..n).map(|i| (i * 37 + 11) as u8).collect();
        let enc = base64_encode(&data);
        assert_eq!(enc.len(), 4 * ((n + 2) / 3));
        let first = enc.find('=').unwrap_or(enc.len());
        assert!(enc[first..].chars().all(|c| c == '='));
    }
    let a = b"abcdef";
    let b = b"xy";
    let mut ab = a.to_vec();
    ab.extend_from_slice(b);
    assert_eq!(base64_encode(&ab), format!("{}{}", base64_encode(a), base64_encode(b)));
}

#[test]
fn url_decode_escapes() {
    assert_eq!(url_decode("a+b%20c"), "a b c");
    assert_eq!(url_decode("%2Ftmp%2fdir"), "/tmp/dir");
    assert_eq!(url_decode("%41%42"), "AB");
    assert_eq!(url_decode("%e9"), "\u{e9}");
    assert_eq!(url_decode("%+5x"), "\u{5}x");
    assert_eq!(url_decode("%zzq"), "q");
    assert_eq!(url_decode("x%4"), "x@");
    assert_eq!(url_decode("x%"), "x\u{0}");
    assert_eq!(url_decode("%-5"), "");
    assert_eq!(url_decode(""), "");
}

#[test]
fn url_decode_plain_is_identity() {
    for s in ["plain", "/home/user/file.txt", "ümlaut ok", ""] {
        assert_eq!(url_decode(s), s);
    }
}

#[test]
fn format_size_exact_values() {
    assert_eq!(format_size(0), "0 Bytes");
    assert_eq!(format_size(1023), "1023 Bytes");
    assert_eq!(format_size(1024), "1.00 KB");
    assert_eq!(format_size(1536), "1.50 KB");
    assert_eq!(format_size(1048575), "1024.00 KB");
    assert_eq!(format_size(1048576), "1.00 MB");
    assert_eq!(format_size(5 * 1073741824), "5.00 GB");
    assert_eq!(format_size(1099511627776), "1.00 TB");
}

#[test]
fn format_size_matches_floating_point_rendering() {
    let mut values: Vec<u64> = vec![
        0, 1, 1023, 1024, 1025, 1535, 1536, 3200, 3201, 9600, 16000, 1048575, 1048576, 5242880,
        123456789, 1073741823, 1073741824, 1099511627775, 1099511627776,
        (1u64 << 53) - 1, 1u64 << 53, (1u64 << 53) + 1, (1u64 << 53) + 3, (1u64 << 60) - 1,
        u64::MAX, u64::MAX - 1024, 18_000_000_000_000_000_000,
    ];
    let mut x: u64 = 0x9e37_79b9_7f4a_7c15;
    for _ in 0..3000 {
        x ^= x << 13;
        x ^= x >> 7;
        x ^= x << 17;
        values.push(x >> (x % 64));
        values.push((x % 4096) * 3200);
    }
    for v in values {
        assert_eq!(format_size(v), float_format_size(v), "size {}", v);
    }
}

#[test]
fn format_permissions_bits() {
    assert_eq!(format_permissions(0o755), "rwxr-xr-x");
    assert_eq!(format_permissions(0o644), "rw-r--r--");
    assert_eq!(format_permissions(0), "---------");
    assert_eq!(format_permissions(0o100777), "rwxrwxrwx");
    assert_eq!(format_permissions(0o4751).len(), 9);
}

#[test]
fn format_time_fields() {
    let t = LocalTime { tm_year: 124, tm_mon: 0, tm_mday: 5, tm_hour: 3, tm_min: 4, tm_sec: 5 };
    assert_eq!(format_time(Some(t)), "2024-01-05 03:04:05");
    let t = LocalTime { tm_year: 99, tm_mon: 11, tm_mday: 31, tm_hour: 23, tm_min: 59, tm_sec: 60 };
    assert_eq!(format_time(Some(t)), "1999-12-31 23:59:60");
    let t = LocalTime { tm_year: -1905, tm_mon: 0, tm_mday: 1, tm_hour: 0, tm_min: 0, tm_sec: 0 };
    assert_eq!(format_time(Some(t)), "-005-01-01 00:00:00");
    let t = LocalTime { tm_year: 10000, tm_mon: 0, tm_mday: 1, tm_hour: 0, tm_min: 0, tm_sec: 0 };
    assert_eq!(format_time(Some(t)), "11900-01-01 00:00:00");
    assert_eq!(format_time(None), "Unknown Date");
}

#[test]
fn metadata_summary_line() {
    let t = LocalTime { tm_year: 124, tm_mon: 5, tm_mday: 30, tm_hour: 12, tm_min: 0, tm_sec: 9 };
    assert_eq!(
        get_metadata_string(2048, Some(t), 0o640),
        "Size: 2.00 KB | Modified: 2024-06-30 12:00:09 | Permissions: rw-r-----"
    );
    assert_eq!(
        get_metadata_string(12, None, 0o700),
        "Size: 12 Bytes | Modified: Unknown Date | Permissions: rwx------"
    );
}
