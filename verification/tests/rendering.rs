use snowflake_me::encoding::{decimal, encode_base64, encode_radix, radix_digits, to_be_bytes};
use snowflake_me::layout::{field, low_mask};
use snowflake_me::{decompose, DecomposedSnowflake, Layout};

#[test]
fn fields_come_out_as_they_went_in() {
    let layouts = [(41u8, 12u8, 5u8, 5u8), (39, 8, 8, 8), (30, 10, 10, 13), (42, 11, 0, 10), (63, 0, 0, 0), (0, 0, 0, 63), (1, 60, 1, 1)];
    for (t, s, d, m) in layouts {
        let layout = Layout::new(t, s, d, m).unwrap();
        let top = |width: u8| (1u64 << width) - 1;
        let samples = [
            (0, 0, 0, 0),
            (top(t), top(s), top(d), top(m)),
            (top(t) / 3, top(s) / 5, top(d) / 2, top(m) / 7),
            (top(t), 0, top(d), 0),
            (0, top(s), 0, top(m)),
        ];
        for (time, sequence, data_center_id, machine_id) in samples {
            let id = layout.compose(time, sequence, data_center_id, machine_id);
            assert_eq!(id >> 63, 0);
            let parts = DecomposedSnowflake::decompose(id, t, s, d, m);
            assert_eq!(parts.id, id);
            assert_eq!(parts.time, time);
            assert_eq!(parts.sequence, sequence);
            assert_eq!(parts.data_center_id, data_center_id);
            assert_eq!(parts.machine_id, machine_id);
            assert_eq!(layout.split(id), (time, sequence, data_center_id, machine_id));
        }
    }
}

#[test]
fn an_identifier_is_its_fields_shifted_and_joined() {
    let layout = Layout::new(41, 12, 5, 5).unwrap();
    assert_eq!(layout.compose(500, 0, 5, 10), 2_097_152_170);
    assert_eq!(layout.compose(123_456_789, 4095, 31, 31), 517_815_308_124_159);
    let layout = Layout::new(30, 10, 10, 13).unwrap();
    assert_eq!(layout.compose(5, 7, 3, 9), 43_008_417_801);
}

#[test]
fn a_layout_without_data_center_gives_its_bits_to_the_machine() {
    let layout = Layout::new(41, 12, 0, 10).unwrap();
    let id = layout.compose(77, 3, 0, 1023);
    assert_eq!(id, (77 << 22) | (3 << 10) | 1023);
    let parts = DecomposedSnowflake::decompose(id, 41, 12, 0, 10);
    assert_eq!((parts.time, parts.sequence, parts.data_center_id, parts.machine_id), (77, 3, 0, 1023));
}

#[test]
fn decompose_goes_by_the_layout_it_is_given() {
    let layout = Layout::new(41, 12, 5, 5).unwrap();
    let parts = decompose(2_097_152_170, &layout);
    assert_eq!(parts.id, 2_097_152_170);
    assert_eq!(parts.time, 500);
    assert_eq!(parts.sequence, 0);
    assert_eq!(parts.data_center_id, 5);
    assert_eq!(parts.machine_id, 10);

    let layout = Layout::new(39, 8, 8, 8).unwrap();
    let parts = decompose(16_570_089_889_861_930, &layout);
    assert_eq!(parts.id, 16_570_089_889_861_930);
    assert_eq!(parts.time, 987_654_321);
    assert_eq!(parts.sequence, 200);
    assert_eq!(parts.data_center_id, 17);
    assert_eq!(parts.machine_id, 42);
    assert_eq!(parts, DecomposedSnowflake::decompose(16_570_089_889_861_930, 39, 8, 8, 8));

    // The same number under another layout holds other fields.
    let parts = decompose(2_097_152_170, &layout);
    assert_eq!((parts.time, parts.sequence, parts.data_center_id, parts.machine_id), (125, 0, 0, 170));
}

#[test]
fn an_identifier_with_the_top_bit_set_keeps_it_in_the_time() {
    let parts = DecomposedSnowflake::decompose(u64::MAX, 41, 12, 5, 5);
    assert_eq!(parts.time, (1 << 42) - 1);
    assert_eq!(parts.sequence, 4095);
    assert_eq!(parts.data_center_id, 31);
    assert_eq!(parts.machine_id, 31);
    assert_eq!(parts.int64(), -1);
}

#[test]
fn masks_and_fields() {
    assert_eq!(low_mask(0), 0);
    assert_eq!(low_mask(5), 31);
    assert_eq!(low_mask(63), i64::MAX as u64);
    assert_eq!(field(0xabcd, 4, 8), 0xbc);
    assert_eq!(field(u64::MAX, 63, 63), 1);
    assert_eq!(field(u64::MAX, 0, 0), 0);
}

fn parts_of(id: u64) -> DecomposedSnowflake {
    DecomposedSnowflake::decompose(id, 41, 12, 5, 5)
}

#[test]
fn numbers_in_decimal_and_binary() {
    assert_eq!(parts_of(0).string(), "0");
    assert_eq!(parts_of(1_234_567_890_123_456_789).string(), "1234567890123456789");
    assert_eq!(parts_of(u64::MAX).string(), "18446744073709551615");
    assert_eq!(parts_of(0).base2(), "0");
    assert_eq!(parts_of(58).base2(), "111010");
    assert_eq!(
        parts_of(1_234_567_890_123_456_789).base2(),
        "1000100100010000100001111010001111101111010011000000100010101"
    );
    assert_eq!(decimal(255), "255");
}

#[test]
fn numbers_in_base_32() {
    assert_eq!(parts_of(0).base32(), "y");
    assert_eq!(parts_of(31).base32(), "9");
    assert_eq!(parts_of(32).base32(), "by");
    assert_eq!(parts_of(1_234_567_890_123_456_789).base32(), "bneoo6t66uyei");
    assert_eq!(parts_of(i64::MAX as u64).base32(), "8999999999999");
}

#[test]
fn numbers_in_base_36() {
    assert_eq!(parts_of(0).base36(), "0");
    assert_eq!(parts_of(35).base36(), "z");
    assert_eq!(parts_of(255).base36(), "73");
    assert_eq!(parts_of(1_234_567_890_123_456_789).base36(), "9do1sj396nf9");
    assert_eq!(parts_of(i64::MAX as u64).base36(), "1y2p0ij32e8e7");
}

#[test]
fn numbers_in_base_58() {
    assert_eq!(parts_of(0).base58(), "1");
    assert_eq!(parts_of(57).base58(), "Z");
    assert_eq!(parts_of(58).base58(), "21");
    assert_eq!(parts_of(1_234_567_890_123_456_789).base58(), "3Sdj21T5Mhi");
    assert_eq!(parts_of(i64::MAX as u64).base58(), "npL6MjP8Qfc");
}

#[test]
fn numbers_in_base_64() {
    assert_eq!(parts_of(0).base64(), "AAAAAAAAAAA=");
    assert_eq!(parts_of(1).base64(), "AAAAAAAAAAE=");
    assert_eq!(parts_of(u64::MAX).base64(), "//////////8=");
    assert_eq!(parts_of(58).base64(), "AAAAAAAAADo=");
    assert_eq!(parts_of(1_234_567_890_123_456_789).base64(), "ESIQ9H3pgRU=");
    assert_eq!(parts_of(i64::MAX as u64).base64(), "f/////////8=");
    assert_eq!(encode_base64(255), "AAAAAAAAAP8=");
}

#[test]
fn numbers_as_bytes() {
    assert_eq!(parts_of(0).bytes(), b"0".to_vec());
    assert_eq!(parts_of(1_234_567_890_123_456_789).bytes(), b"1234567890123456789".to_vec());
    assert_eq!(parts_of(0).int_bytes(), [0u8; 8]);
    assert_eq!(
        parts_of(1_234_567_890_123_456_789).int_bytes(),
        [17, 34, 16, 244, 125, 233, 129, 21]
    );
    assert_eq!(parts_of(u64::MAX).int_bytes(), [255u8; 8]);
    assert_eq!(to_be_bytes(0x0102_0304_0506_0708), 0x0102_0304_0506_0708u64.to_be_bytes());
}

#[test]
fn texts_agree_with_std_where_std_has_them() {
    for id in [0u64, 1, 9, 10, 99, 100, 4_096, 1 << 40, u64::MAX - 1, u64::MAX] {
        assert_eq!(parts_of(id).string(), id.to_string());
        assert_eq!(parts_of(id).base2(), format!("{:b}", id));
        assert_eq!(parts_of(id).bytes(), id.to_string().into_bytes());
        assert_eq!(parts_of(id).int_bytes(), id.to_be_bytes());
        assert_eq!(encode_radix(id, "0123456789abcdef"), format!("{:x}", id));
    }
}

#[test]
fn digits_stand_for_their_number() {
    for base in [2u64, 10, 32, 36, 58, 1 << 32, u64::MAX] {
        for id in [0u64, 1, 57, 58, 1 << 32, 1_234_567_890_123_456_789, u64::MAX] {
            let digits = radix_digits(id, base);
            assert!(!digits.is_empty());
            let mut value: u128 = 0;
            for digit in &digits {
                assert!(*digit < base);
                value = value * base as u128 + *digit as u128;
            }
            assert_eq!(value, id as u128);
        }
    }
    assert_eq!(radix_digits(1234, 10), vec![1, 2, 3, 4]);
}

#[test]
fn time_in_nanoseconds_and_signed_numbers() {
    let parts = parts_of(2_097_152_170);
    assert_eq!(parts.time, 500);
    assert_eq!(parts.nanos_time(), 500_000_000);
    assert_eq!(parts.time(), 500);
    assert_eq!(parts.int64(), 2_097_152_170);
    let parts = parts_of(i64::MAX as u64);
    assert_eq!(parts.time(), (1 << 41) - 1);
    assert_eq!(parts.nanos_time(), ((1i64 << 41) - 1) * 1_000_000);
    assert_eq!(parts.int64(), i64::MAX);
}
