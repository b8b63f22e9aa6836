use informer::file::File;
use informer::size::SizeUnit;

fn divisor_of(unit: &str) -> u128 {
    match unit {
        "bytes" | "KB" => 1 << 10,
        "MB" => 1 << 20,
        "GB" => 1 << 30,
        "TB" => 1 << 40,
        other => panic!("unexpected unit {other}"),
    }
}

/// Checks that the text denotes `bytes` divided by the unit's divisor exactly.
fn assert_exact(bytes: u64) {
    let text = File::determine_size(bytes);
    let (value, unit) = text.split_once(' ').unwrap();
    let (whole, places) = value.split_once('.').unwrap_or((value, ""));
    assert!(!whole.is_empty());
    assert!(whole == "0" || !whole.starts_with('0'));
    assert!(!places.ends_with('0'));
    assert!(whole.chars().chain(places.chars()).all(|c| c.is_ascii_digit()));
    assert!(places.len() <= 40);
    // n / 2^k = n * 5^k / 10^k: the digits shown, filled up to k places, are those of n * 5^k.
    let shift = divisor_of(unit).trailing_zeros() as usize;
    let mut shown: Vec<u8> = whole.bytes().chain(places.bytes()).map(|b| b - b'0').collect();
    shown.resize(whole.len() + shift, 0);
    let mut scaled: Vec<u8> = bytes.to_string().bytes().rev().map(|b| b - b'0').collect();
    for _ in 0..shift {
        let mut carry = 0u8;
        for digit in scaled.iter_mut() {
            let product = *digit * 5 + carry;
            *digit = product % 10;
            carry = product / 10;
        }
        if carry > 0 {
            scaled.push(carry);
        }
    }
    scaled.resize(scaled.len().max(shift + 1), 0);
    scaled.reverse();
    assert_eq!(shown, scaled, "{bytes} gave {text}");
}

#[test]
fn zero_bytes_use_the_lowest_unit() {
    assert_eq!(File::determine_size(0), "0 bytes");
}

#[test]
fn counts_below_a_kilobyte_are_fractions_of_one() {
    assert_eq!(File::determine_size(1), "0.0009765625 bytes");
    assert_eq!(File::determine_size(512), "0.5 bytes");
    assert_eq!(File::determine_size(1000), "0.9765625 bytes");
    assert_eq!(File::determine_size(1023), "0.9990234375 bytes");
}

#[test]
fn kilobytes() {
    assert_eq!(File::determine_size(1024), "1 KB");
    assert_eq!(File::determine_size(1025), "1.0009765625 KB");
    assert_eq!(File::determine_size(1536), "1.5 KB");
    assert_eq!(File::determine_size(2048), "2 KB");
    assert_eq!(File::determine_size(1_048_575), "1023.9990234375 KB");
}

#[test]
fn megabytes() {
    assert_eq!(File::determine_size(1_048_576), "1 MB");
    assert_eq!(File::determine_size(1_572_864), "1.5 MB");
    assert_eq!(File::determine_size(123_456_789), "117.73756885528564453125 MB");
    assert_eq!(File::determine_size(1_073_741_823), "1023.99999904632568359375 MB");
}

#[test]
fn gigabytes() {
    assert_eq!(File::determine_size(1_073_741_824), "1 GB");
    assert_eq!(File::determine_size(5_637_144_576), "5.25 GB");
    assert_eq!(
        File::determine_size(1_099_511_627_775),
        "1023.999999999068677425384521484375 GB"
    );
}

#[test]
fn terabytes_have_no_upper_bound() {
    assert_eq!(File::determine_size(1_099_511_627_776), "1 TB");
    assert_eq!(File::determine_size(3_435_973_836_800), "3.125 TB");
    assert_eq!(
        File::determine_size(u64::MAX),
        "16777215.9999999999990905052982270717620849609375 TB"
    );
}

#[test]
fn unit_boundaries_are_inclusive_below_and_exclusive_above() {
    assert_eq!(SizeUnit::of(0), SizeUnit::Bytes);
    assert_eq!(SizeUnit::of(1023), SizeUnit::Bytes);
    assert_eq!(SizeUnit::of(1024), SizeUnit::Kilobytes);
    assert_eq!(SizeUnit::of((1 << 20) - 1), SizeUnit::Kilobytes);
    assert_eq!(SizeUnit::of(1 << 20), SizeUnit::Megabytes);
    assert_eq!(SizeUnit::of((1 << 30) - 1), SizeUnit::Megabytes);
    assert_eq!(SizeUnit::of(1 << 30), SizeUnit::Gigabytes);
    assert_eq!(SizeUnit::of((1 << 40) - 1), SizeUnit::Gigabytes);
    assert_eq!(SizeUnit::of(1 << 40), SizeUnit::Terabytes);
    assert_eq!(SizeUnit::of(u64::MAX), SizeUnit::Terabytes);
}

#[test]
fn count_over_unit_factor_stays_below_the_step() {
    let factors = [
        (SizeUnit::Bytes, 1u64),
        (SizeUnit::Kilobytes, 1 << 10),
        (SizeUnit::Megabytes, 1 << 20),
        (SizeUnit::Gigabytes, 1 << 30),
    ];
    let mut bytes: u64 = 0;
    while bytes < (1 << 40) {
        let unit = SizeUnit::of(bytes);
        let factor = factors.iter().find(|(u, _)| *u == unit).unwrap().1;
        assert!(bytes / factor < 1024, "{bytes}");
        assert!(unit == SizeUnit::Bytes || bytes >= factor, "{bytes}");
        bytes = bytes * 3 + 1;
    }
}

#[test]
fn unit_divisors_places_and_names() {
    assert_eq!(SizeUnit::Bytes.divisor(), 1024);
    assert_eq!(SizeUnit::Kilobytes.divisor(), 1024);
    assert_eq!(SizeUnit::Megabytes.divisor(), 1024 * 1024);
    assert_eq!(SizeUnit::Gigabytes.divisor(), 1024 * 1024 * 1024);
    assert_eq!(SizeUnit::Terabytes.divisor(), 1024 * 1024 * 1024 * 1024);
    assert_eq!(SizeUnit::Bytes.places(), 10);
    assert_eq!(SizeUnit::Kilobytes.places(), 10);
    assert_eq!(SizeUnit::Megabytes.places(), 20);
    assert_eq!(SizeUnit::Gigabytes.places(), 30);
    assert_eq!(SizeUnit::Terabytes.places(), 40);
    assert_eq!(SizeUnit::Bytes.suffix(), "bytes");
    assert_eq!(SizeUnit::Kilobytes.suffix(), "KB");
    assert_eq!(SizeUnit::Megabytes.suffix(), "MB");
    assert_eq!(SizeUnit::Gigabytes.suffix(), "GB");
    assert_eq!(SizeUnit::Terabytes.suffix(), "TB");
}

#[test]
fn every_text_ends_with_its_unit() {
    for bytes in [0u64, 7, 1024, 99_999, 1 << 20, 1 << 30, 1 << 40, u64::MAX] {
        let text = File::determine_size(bytes);
        assert!(text.ends_with(SizeUnit::of(bytes).suffix()), "{text}");
        assert_eq!(text.matches(' ').count(), 1, "{text}");
    }
}

#[test]
fn shown_value_is_the_exact_quotient() {
    for bytes in [0u64, 1, 3, 512, 1023, 1024, 1025, 4095, 65_537, 1_048_575, 1_048_577] {
        assert_exact(bytes);
    }
    for bytes in [(1u64 << 30) - 1, (1 << 30) + 1, (1 << 40) - 1, (1 << 40) + 1, u64::MAX] {
        assert_exact(bytes);
    }
    let mut bytes: u64 = 1;
    while bytes < u64::MAX / 7 {
        assert_exact(bytes);
        bytes = bytes * 7 + 3;
    }
}

#[test]
fn push_decimal_and_push_fraction_append() {
    let mut text = String::from("n=");
    informer::size::push_decimal(&mut text, 0);
    assert_eq!(text, "n=0");
    informer::size::push_decimal(&mut text, 18_446_744_073_709_551_615);
    assert_eq!(text, "n=018446744073709551615");
    let mut places = String::from(".");
    informer::size::push_fraction(&mut places, 1, 8, 3);
    assert_eq!(places, ".125");
    let mut cut = String::new();
    informer::size::push_fraction(&mut cut, 1, 8, 2);
    assert_eq!(cut, "12");
    let mut none = String::new();
    informer::size::push_fraction(&mut none, 0, 8, 3);
    assert_eq!(none, "");
}
