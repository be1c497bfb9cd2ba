use skip_rs::codec::{decode, encode};
use skip_rs::{ByteOrder, DataType, Float32Bits, Float64Bits, SkipType};

#[test]
fn encode_little_endian() {
    assert_eq!(encode(0x0102_0304, 4, ByteOrder::Little), vec![4, 3, 2, 1]);
    assert_eq!(encode(0xABCD, 2, ByteOrder::Little), vec![0xCD, 0xAB]);
    assert_eq!(encode(0x7F, 1, ByteOrder::Little), vec![0x7F]);
    assert_eq!(
        encode(0x0102_0304_0506_0708, 8, ByteOrder::Little),
        vec![8, 7, 6, 5, 4, 3, 2, 1]
    );
}

#[test]
fn encode_big_endian() {
    assert_eq!(encode(0x0102_0304, 4, ByteOrder::Big), vec![1, 2, 3, 4]);
    assert_eq!(encode(0xABCD, 2, ByteOrder::Big), vec![0xAB, 0xCD]);
    assert_eq!(
        encode(0x0102_0304_0506_0708, 8, ByteOrder::Big),
        vec![1, 2, 3, 4, 5, 6, 7, 8]
    );
}

#[test]
fn encode_keeps_only_the_low_bytes() {
    assert_eq!(encode(0x0102_0304, 2, ByteOrder::Little), vec![4, 3]);
    assert_eq!(encode(0x0102_0304, 2, ByteOrder::Big), vec![3, 4]);
    assert_eq!(encode(5, 0, ByteOrder::Little), Vec::<u8>::new());
}

#[test]
fn decode_both_orders() {
    assert_eq!(decode(&[4, 3, 2, 1], ByteOrder::Little), 0x0102_0304);
    assert_eq!(decode(&[1, 2, 3, 4], ByteOrder::Big), 0x0102_0304);
    assert_eq!(decode(&[], ByteOrder::Big), 0);
    assert_eq!(decode(&[0xFF; 8], ByteOrder::Little), u64::MAX);
    assert_eq!(decode(&[0xFF; 8], ByteOrder::Big), u64::MAX);
}

#[test]
fn decode_inverts_encode() {
    for order in [ByteOrder::Little, ByteOrder::Big] {
        for (bits, width) in [(0u64, 1usize), (255, 1), (65_535, 2), (0xDEAD_BEEF, 4), (u64::MAX, 8)] {
            assert_eq!(decode(&encode(bits, width, order), order), bits);
        }
    }
}

#[test]
fn encoding_matches_std() {
    assert_eq!(encode(0x1234_5678, 4, ByteOrder::Little), 0x1234_5678u32.to_le_bytes().to_vec());
    assert_eq!(encode(0x1234_5678, 4, ByteOrder::Big), 0x1234_5678u32.to_be_bytes().to_vec());
    assert_eq!(
        encode((-2i64).to_bits(), 8, ByteOrder::native()),
        (-2i64).to_ne_bytes().to_vec()
    );
}

#[test]
fn kinds_of_scalar_types() {
    assert_eq!(<i8 as SkipType>::data_type(), DataType::Int8);
    assert_eq!(<u8 as SkipType>::data_type(), DataType::UInt8);
    assert_eq!(<i16 as SkipType>::data_type(), DataType::Int16);
    assert_eq!(<u16 as SkipType>::data_type(), DataType::UInt16);
    assert_eq!(<i32 as SkipType>::data_type(), DataType::Int32);
    assert_eq!(<u32 as SkipType>::data_type(), DataType::UInt32);
    assert_eq!(<i64 as SkipType>::data_type(), DataType::Int64);
    assert_eq!(<u64 as SkipType>::data_type(), DataType::UInt64);
    assert_eq!(Float32Bits::data_type(), DataType::Float32);
    assert_eq!(Float64Bits::data_type(), DataType::Float64);
}

#[test]
fn bit_patterns_are_twos_complement() {
    assert_eq!(SkipType::to_bits(&-1i8), 0xFF);
    assert_eq!(SkipType::to_bits(&i8::MIN), 0x80);
    assert_eq!(SkipType::to_bits(&-2i16), 0xFFFE);
    assert_eq!(SkipType::to_bits(&-1i32), 0xFFFF_FFFF);
    assert_eq!(SkipType::to_bits(&i32::MIN), 0x8000_0000);
    assert_eq!(SkipType::to_bits(&-1i64), u64::MAX);
    assert_eq!(SkipType::to_bits(&i64::MIN), 0x8000_0000_0000_0000);
    assert_eq!(SkipType::to_bits(&123i32), 123);
    assert_eq!(SkipType::to_bits(&200u8), 200);
    assert_eq!(SkipType::to_bits(&u64::MAX), u64::MAX);
    assert_eq!(Float32Bits(0x3F80_0000).to_bits(), 0x3F80_0000);
    assert_eq!(Float64Bits(0x3FF0_0000_0000_0000).to_bits(), 0x3FF0_0000_0000_0000);
}

#[test]
fn values_from_bit_patterns() {
    assert_eq!(<i8 as SkipType>::from_bits(0xFF), -1);
    assert_eq!(<i8 as SkipType>::from_bits(0x7F), 127);
    assert_eq!(<i16 as SkipType>::from_bits(0x8000), i16::MIN);
    assert_eq!(<i32 as SkipType>::from_bits(0xFFFF_FF85), -123);
    assert_eq!(<i64 as SkipType>::from_bits(u64::MAX), -1);
    assert_eq!(<u16 as SkipType>::from_bits(65_535), 65_535);
    assert_eq!(<u32 as SkipType>::from_bits(7), 7);
    assert_eq!(Float32Bits::from_bits(0x4048_F5C3), Float32Bits(0x4048_F5C3));
    assert_eq!(Float64Bits::from_bits(u64::MAX), Float64Bits(u64::MAX));
}

#[test]
fn bit_patterns_round_trip_at_the_extremes() {
    for v in [i8::MIN, -1, 0, 1, i8::MAX] {
        assert_eq!(<i8 as SkipType>::from_bits(SkipType::to_bits(&v)), v);
    }
    for v in [i16::MIN, -1, 0, 1, i16::MAX] {
        assert_eq!(<i16 as SkipType>::from_bits(SkipType::to_bits(&v)), v);
    }
    for v in [i32::MIN, -1, 0, 1, i32::MAX] {
        assert_eq!(<i32 as SkipType>::from_bits(SkipType::to_bits(&v)), v);
    }
    for v in [i64::MIN, -1, 0, 1, i64::MAX] {
        assert_eq!(<i64 as SkipType>::from_bits(SkipType::to_bits(&v)), v);
    }
}
