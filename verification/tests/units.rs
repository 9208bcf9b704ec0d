use tfgrid_graphql::compat::{de_u64, WireValue};
use tfgrid_graphql::units::{fmt_tft, size_unit, SizeUnit, GIB, KIB, MIB, TIB, UNITS_PER_TFT};

#[test]
fn tokens_are_split_in_ten_million_units() {
    assert_eq!(UNITS_PER_TFT, 10_000_000);
    assert_eq!(fmt_tft(0), "0.0 TFT");
    assert_eq!(fmt_tft(1), "0.1 TFT");
    assert_eq!(fmt_tft(9_999_999), "0.9999999 TFT");
    assert_eq!(fmt_tft(10_000_000), "1.0 TFT");
    assert_eq!(fmt_tft(15_000_000), "1.5000000 TFT");
    assert_eq!(fmt_tft(123_456_789_012), "12345.6789012 TFT");
    assert_eq!(fmt_tft(u64::MAX), "1844674407370.9551615 TFT");
}

// The units beyond the whole tokens are given as a number, without zeros before it.
#[test]
fn units_are_given_without_leading_zeros() {
    assert_eq!(fmt_tft(10_000_005), "1.5 TFT");
    assert_eq!(fmt_tft(20_000_050), "2.50 TFT");
    assert_eq!(fmt_tft(1_000_000), "0.1000000 TFT");
}

#[test]
fn tokens_are_formatted_digit_by_digit() {
    let mut amount: u64 = 1;
    for _ in 0..200 {
        amount = amount.wrapping_mul(6364136223846793005).wrapping_add(1442695040888963407);
        assert_eq!(
            fmt_tft(amount),
            format!("{}.{} TFT", amount / 10_000_000, amount % 10_000_000)
        );
    }
    for amount in 0..3000u64 {
        assert_eq!(
            fmt_tft(amount * 9_973),
            format!("{}.{} TFT", amount * 9_973 / 10_000_000, amount * 9_973 % 10_000_000)
        );
    }
}

#[test]
fn whole_tokens_are_read_back() {
    for amount in [0u64, 7, 10_000_000, 123_456_789_012, u64::MAX] {
        let text = fmt_tft(amount);
        let whole = text.split('.').next().unwrap().to_string();
        assert_eq!(de_u64(&WireValue::Text(whole)), Ok(amount / UNITS_PER_TFT));
    }
}

#[test]
fn sizes_of_units() {
    assert_eq!(KIB, 1 << 10);
    assert_eq!(MIB, 1 << 20);
    assert_eq!(GIB, 1 << 30);
    assert_eq!(TIB, 1 << 40);
    assert_eq!(SizeUnit::B.bytes(), 1);
    assert_eq!(SizeUnit::KiB.bytes(), 1024);
    assert_eq!(SizeUnit::MiB.bytes(), 1024 * 1024);
    assert_eq!(SizeUnit::GiB.bytes(), 1024 * 1024 * 1024);
    assert_eq!(SizeUnit::TiB.bytes(), 1024 * 1024 * 1024 * 1024);
}

#[test]
fn unit_for_a_number_of_bytes() {
    assert_eq!(size_unit(0), SizeUnit::B);
    assert_eq!(size_unit(1023), SizeUnit::B);
    assert_eq!(size_unit(1024), SizeUnit::B);
    assert_eq!(size_unit(1025), SizeUnit::KiB);
    assert_eq!(size_unit(MIB), SizeUnit::KiB);
    assert_eq!(size_unit(MIB + 1), SizeUnit::MiB);
    assert_eq!(size_unit(GIB), SizeUnit::MiB);
    assert_eq!(size_unit(GIB + 1), SizeUnit::GiB);
    assert_eq!(size_unit(TIB), SizeUnit::GiB);
    assert_eq!(size_unit(TIB + 1), SizeUnit::TiB);
    assert_eq!(size_unit(u64::MAX), SizeUnit::TiB);
}
