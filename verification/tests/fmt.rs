use membench::fmtbytes::ByteRate;

#[test]
fn test_num_formatting() {
    let millibytes = (13980987619.602848_f64 * 1000.0) as u64;
    let result = ByteRate::from_millibytes(millibytes).render();

    assert_eq!(result, "13.98 GB");
}

#[test]
fn formats_small_counts_as_bytes() {
    assert_eq!(ByteRate::from_bytes(512).render(), "512.00 bytes");
}

#[test]
fn formats_megabytes() {
    assert_eq!(ByteRate::from_bytes(2_500_000).render(), "2.50 MB");
}

#[test]
fn formats_kilobytes() {
    assert_eq!(ByteRate::from_bytes(1_500).render(), "1.50 KB");
}

#[test]
fn formats_terabytes() {
    assert_eq!(ByteRate::from_bytes(5_000_000_000_000).render(), "5.00 TB");
}

#[test]
fn falls_back_to_bytes_past_the_terabyte_range() {
    assert_eq!(
        ByteRate::from_bytes(2_000_000_000_000_000).render(),
        "2000000000000000.00 bytes"
    );
}

#[test]
fn rounds_to_the_nearest_hundredth() {
    // 1,996 bytes is 1.996 KB.
    assert_eq!(ByteRate::from_bytes(1_996).render(), "2.00 KB");
}

#[test]
fn unit_switches_exactly_at_one_thousand() {
    assert_eq!(ByteRate::from_bytes(999).render(), "999.00 bytes");
    assert_eq!(ByteRate::from_bytes(1_000).render(), "1.00 KB");
}

#[test]
fn zero_is_zero_bytes() {
    assert_eq!(ByteRate::from_bytes(0).render(), "0.00 bytes");
}

#[test]
fn sub_byte_rates_keep_their_fraction() {
    // 1.25 bytes per second, held as 1250 thousandths.
    assert_eq!(ByteRate::from_millibytes(1_250).render(), "1.25 bytes");
}
