use cheatscan::scanner::value_reader::{read_i16, read_i32, read_i8, read_u16, read_u32, read_u8};
use cheatscan::{
    Alignment, ComparisonType, Configuration, Endianness, ScanError, ScanValue, Scanner, ValueType,
};

fn cfg(
    value_type: ValueType,
    endianness: Endianness,
    alignment: Alignment,
    base_address: u32,
) -> Configuration {
    Configuration { value_type, endianness, alignment, base_address }
}

fn f32_block(values: &[f32]) -> Vec<u8> {
    let mut block = Vec::new();
    for v in values {
        block.extend_from_slice(&v.to_le_bytes());
    }
    block
}

#[test]
fn unknown_value_type_code_is_refused_and_error_codes_are_fixed() {
    // An unknown value type code is refused, and the error reported for it is a type mismatch.
    assert_eq!(ValueType::try_from(255_u8), Err(()));
    assert_eq!(ScanError::TypeMismatch.code(), 1);
    assert_eq!(ScanError::NullPointer.code(), 4);
}

#[test]
fn constructor_reports_address_overflow() {
    let config = cfg(ValueType::U8, Endianness::Little, Alignment::Unaligned, u32::MAX);
    let scanner = Scanner::new_from_unknown(config, &[1_u8, 2_u8]);
    assert!(matches!(scanner, Err(ScanError::AddressOverflow)));
    assert_eq!(ScanError::AddressOverflow.code(), 3);
}

#[test]
fn known_u16_respects_endianness() {
    let block = [0x12_u8, 0x34_u8, 0x34_u8, 0x12_u8];

    let le = Scanner::new_from_known(
        cfg(ValueType::U16, Endianness::Little, Alignment::Aligned, 0),
        &block,
        ComparisonType::Eq,
        ScanValue::U16(0x1234),
    )
    .unwrap();
    assert_eq!(le.results(), vec![2]);

    let be = Scanner::new_from_known(
        cfg(ValueType::U16, Endianness::Big, Alignment::Aligned, 0),
        &block,
        ComparisonType::Eq,
        ScanValue::U16(0x1234),
    )
    .unwrap();
    assert_eq!(be.results(), vec![0]);
}

#[test]
fn unaligned_u16_scan_finds_mid_byte_candidate() {
    let initial = [1_u8, 2_u8, 3_u8];
    let mut scanner = Scanner::new_from_unknown(
        cfg(ValueType::U16, Endianness::Little, Alignment::Unaligned, 0),
        &initial,
    )
    .unwrap();
    assert_eq!(scanner.count(), 2);

    scanner.scan(&initial, ComparisonType::Eq, ScanValue::U16(0x0302)).unwrap();
    assert_eq!(scanner.results(), vec![1]);
}

#[test]
fn float_edge_cases_follow_ieee_comparisons() {
    let block = f32_block(&[0.0, -0.0, f32::NAN]);
    let config = cfg(ValueType::F32, Endianness::Little, Alignment::Aligned, 0);

    let mut scanner = Scanner::new_from_unknown(config, &block).unwrap();
    scanner
        .scan(&block, ComparisonType::Eq, ScanValue::F32((-0.0_f32).to_bits()))
        .unwrap();
    assert_eq!(scanner.results(), vec![0, 4]);

    let mut scanner = Scanner::new_from_unknown(config, &block).unwrap();
    scanner.scan(&block, ComparisonType::Eq, ScanValue::F32(f32::NAN.to_bits())).unwrap();
    assert_eq!(scanner.results(), Vec::<u32>::new());
}

#[test]
fn float_ne_against_nan_keeps_everything() {
    let block = f32_block(&[0.0, -0.0, f32::NAN, 1.5]);
    let config = cfg(ValueType::F32, Endianness::Little, Alignment::Aligned, 0x100);
    let mut scanner = Scanner::new_from_unknown(config, &block).unwrap();
    scanner.scan(&block, ComparisonType::Ne, ScanValue::F32(f32::NAN.to_bits())).unwrap();
    assert_eq!(scanner.results(), vec![0x100, 0x104, 0x108, 0x10c]);
}

#[test]
fn float_previous_value_scan_skips_nan() {
    let before = f32_block(&[1.0, f32::NAN, -3.0, 2.0]);
    let after = f32_block(&[2.0, 5.0, -2.5, 2.0]);
    let config = cfg(ValueType::F32, Endianness::Little, Alignment::Aligned, 0);
    let mut scanner = Scanner::new_from_unknown(config, &before).unwrap();
    scanner.scan(&after, ComparisonType::Gt, ScanValue::PreviousValue).unwrap();
    assert_eq!(scanner.results(), vec![0, 8]);
}

#[test]
fn float_big_endian_exact_scan() {
    let mut block = Vec::new();
    for v in [3.25_f32, -7.5, 3.25] {
        block.extend_from_slice(&v.to_be_bytes());
    }
    let config = cfg(ValueType::F32, Endianness::Big, Alignment::Aligned, 0);
    let scanner = Scanner::new_from_known(
        config,
        &block,
        ComparisonType::Lt,
        ScanValue::F32(0.0_f32.to_bits()),
    )
    .unwrap();
    assert_eq!(scanner.results(), vec![4]);
}

#[test]
fn evaluate_f32_agrees_with_f32_operators() {
    let values = [
        0.0_f32,
        -0.0,
        1.0,
        -1.0,
        1.5,
        -2.5,
        f32::MIN_POSITIVE,
        -f32::MIN_POSITIVE,
        f32::from_bits(1),
        f32::MAX,
        f32::MIN,
        f32::INFINITY,
        f32::NEG_INFINITY,
        f32::NAN,
        -f32::NAN,
        f32::from_bits(0x7f80_0001),
    ];
    let ops = [
        ComparisonType::Eq,
        ComparisonType::Ne,
        ComparisonType::Lt,
        ComparisonType::Le,
        ComparisonType::Gt,
        ComparisonType::Ge,
    ];
    for a in values {
        for b in values {
            for op in ops {
                let expected = match op {
                    ComparisonType::Eq => a == b,
                    ComparisonType::Ne => a != b,
                    ComparisonType::Lt => a < b,
                    ComparisonType::Le => a <= b,
                    ComparisonType::Gt => a > b,
                    ComparisonType::Ge => a >= b,
                };
                assert_eq!(op.evaluate_f32(a.to_bits(), b.to_bits()), expected, "{a} {op:?} {b}");
            }
        }
    }
}

#[test]
fn evaluate_on_integers() {
    assert!(ComparisonType::Eq.evaluate(3, 3));
    assert!(!ComparisonType::Ne.evaluate(3, 3));
    assert!(ComparisonType::Lt.evaluate(-5, 3));
    assert!(ComparisonType::Le.evaluate(3, 3));
    assert!(!ComparisonType::Gt.evaluate(3, 3));
    assert!(ComparisonType::Ge.evaluate(4, 3));
}

#[test]
fn readers_decode_both_byte_orders() {
    let bytes = [0x01_u8, 0x02, 0x03, 0x84];
    assert_eq!(read_u8(&bytes, Endianness::Big), 0x01);
    assert_eq!(read_u16(&bytes, Endianness::Little), 0x0201);
    assert_eq!(read_u16(&bytes, Endianness::Big), 0x0102);
    assert_eq!(read_u32(&bytes, Endianness::Little), 0x8403_0201);
    assert_eq!(read_u32(&bytes, Endianness::Big), 0x0102_0384);
    assert_eq!(read_i8(&[0xff], Endianness::Little), -1);
    assert_eq!(read_i8(&[0x80], Endianness::Little), -128);
    assert_eq!(read_i8(&[0x7f], Endianness::Little), 127);
    assert_eq!(read_i16(&[0xfe, 0xff], Endianness::Little), -2);
    assert_eq!(read_i16(&[0x80, 0x00], Endianness::Big), i16::MIN);
    assert_eq!(read_i32(&bytes, Endianness::Little), i32::from_le_bytes(bytes));
    assert_eq!(read_i32(&bytes, Endianness::Big), i32::from_be_bytes(bytes));
    assert_eq!(read_i32(&[0xff, 0xff, 0xff, 0x7f], Endianness::Little), i32::MAX);
}

#[test]
fn readers_use_only_the_leading_bytes() {
    let bytes = [0x10_u8, 0x20, 0x30, 0x40, 0x50, 0x60];
    assert_eq!(read_u16(&bytes, Endianness::Little), 0x2010);
    assert_eq!(read_u32(&bytes, Endianness::Big), 0x1020_3040);
}

#[test]
fn try_from_maps_every_code() {
    assert_eq!(ValueType::try_from(0_u8), Ok(ValueType::U8));
    assert_eq!(ValueType::try_from(1_u8), Ok(ValueType::U16));
    assert_eq!(ValueType::try_from(2_u8), Ok(ValueType::U32));
    assert_eq!(ValueType::try_from(3_u8), Ok(ValueType::I8));
    assert_eq!(ValueType::try_from(4_u8), Ok(ValueType::I16));
    assert_eq!(ValueType::try_from(5_u8), Ok(ValueType::I32));
    assert_eq!(ValueType::try_from(6_u8), Ok(ValueType::F32));
    assert_eq!(ValueType::try_from(7_u8), Err(()));
    assert_eq!(Endianness::try_from(0_u8), Ok(Endianness::Little));
    assert_eq!(Endianness::try_from(1_u8), Ok(Endianness::Big));
    assert_eq!(Endianness::try_from(2_u8), Err(()));
    assert_eq!(Alignment::try_from(0_u8), Ok(Alignment::Unaligned));
    assert_eq!(Alignment::try_from(1_u8), Ok(Alignment::Aligned));
    assert_eq!(Alignment::try_from(2_u8), Err(()));
    assert_eq!(ComparisonType::try_from(0_u8), Ok(ComparisonType::Eq));
    assert_eq!(ComparisonType::try_from(1_u8), Ok(ComparisonType::Ne));
    assert_eq!(ComparisonType::try_from(2_u8), Ok(ComparisonType::Lt));
    assert_eq!(ComparisonType::try_from(3_u8), Ok(ComparisonType::Le));
    assert_eq!(ComparisonType::try_from(4_u8), Ok(ComparisonType::Gt));
    assert_eq!(ComparisonType::try_from(5_u8), Ok(ComparisonType::Ge));
    assert_eq!(ComparisonType::try_from(6_u8), Err(()));
}

#[test]
fn error_codes_are_distinct_and_nonzero() {
    let errors = [
        ScanError::TypeMismatch,
        ScanError::InvalidValueLength,
        ScanError::AddressOverflow,
        ScanError::NullPointer,
        ScanError::InvalidRamBlockLength,
        ScanError::InitialScanValueRequired,
        ScanError::RamBlockTooSmall,
        ScanError::PreviousValueRequiresNewBlock,
    ];
    let codes: Vec<u8> = errors.iter().map(|e| e.code()).collect();
    assert_eq!(codes, vec![1, 2, 3, 4, 5, 6, 7, 8]);
}

#[test]
fn value_type_widths() {
    assert_eq!(ValueType::U8.width(), 1);
    assert_eq!(ValueType::I8.width(), 1);
    assert_eq!(ValueType::U16.width(), 2);
    assert_eq!(ValueType::I16.width(), 2);
    assert_eq!(ValueType::U32.width(), 4);
    assert_eq!(ValueType::I32.width(), 4);
    assert_eq!(ValueType::F32.width(), 4);
}

#[test]
fn scan_value_reports_its_type() {
    assert_eq!(ScanValue::I16(-3).value_type(), Some(ValueType::I16));
    assert_eq!(ScanValue::F32(0).value_type(), Some(ValueType::F32));
    assert_eq!(ScanValue::PreviousValue.value_type(), None);
}

#[test]
fn implicit_candidate_count_depends_on_alignment() {
    let block = [0_u8; 7];
    let aligned =
        Scanner::new_from_unknown(cfg(ValueType::U32, Endianness::Little, Alignment::Aligned, 0), &block)
            .unwrap();
    assert_eq!(aligned.count(), 1);
    let unaligned = Scanner::new_from_unknown(
        cfg(ValueType::U32, Endianness::Little, Alignment::Unaligned, 0),
        &block,
    )
    .unwrap();
    assert_eq!(unaligned.count(), 4);
    let pairs =
        Scanner::new_from_unknown(cfg(ValueType::I16, Endianness::Little, Alignment::Aligned, 0), &block)
            .unwrap();
    assert_eq!(pairs.count(), 3);
}

#[test]
fn block_exactly_one_value_wide_is_accepted() {
    let scanner =
        Scanner::new_from_unknown(cfg(ValueType::U32, Endianness::Big, Alignment::Aligned, 7), &[1, 2, 3, 4])
            .unwrap();
    assert_eq!(scanner.count(), 1);
    let too_small =
        Scanner::new_from_unknown(cfg(ValueType::U32, Endianness::Big, Alignment::Aligned, 7), &[1, 2, 3]);
    assert!(matches!(too_small, Err(ScanError::RamBlockTooSmall)));
}

#[test]
fn address_overflow_boundary() {
    // Aligned u16 over 6 bytes: offsets 0, 2, 4; the last address is base + 4.
    let block = [0_u8; 6];
    let fits = Scanner::new_from_unknown(
        cfg(ValueType::U16, Endianness::Little, Alignment::Aligned, u32::MAX - 4),
        &block,
    );
    assert!(fits.is_ok());
    let overflows = Scanner::new_from_unknown(
        cfg(ValueType::U16, Endianness::Little, Alignment::Aligned, u32::MAX - 3),
        &block,
    );
    assert!(matches!(overflows, Err(ScanError::AddressOverflow)));

    let mut scanner = fits.unwrap();
    scanner.scan(&block, ComparisonType::Eq, ScanValue::U16(0)).unwrap();
    assert_eq!(scanner.results(), vec![u32::MAX - 4, u32::MAX - 2, u32::MAX]);
}

#[test]
fn too_small_is_reported_before_address_overflow() {
    let scanner = Scanner::new_from_unknown(
        cfg(ValueType::U32, Endianness::Little, Alignment::Aligned, u32::MAX),
        &[1, 2],
    );
    assert!(matches!(scanner, Err(ScanError::RamBlockTooSmall)));
}

#[test]
fn new_from_known_reports_construction_and_type_errors() {
    let config = cfg(ValueType::U16, Endianness::Little, Alignment::Aligned, 0);
    let small = Scanner::new_from_known(config, &[1], ComparisonType::Eq, ScanValue::U16(1));
    assert!(matches!(small, Err(ScanError::RamBlockTooSmall)));
    let small_previous =
        Scanner::new_from_known(config, &[1], ComparisonType::Eq, ScanValue::PreviousValue);
    assert!(matches!(small_previous, Err(ScanError::InitialScanValueRequired)));
    let mismatch = Scanner::new_from_known(config, &[1, 0], ComparisonType::Eq, ScanValue::U8(1));
    assert!(matches!(mismatch, Err(ScanError::TypeMismatch)));
}

#[test]
fn signed_scans_compare_as_signed() {
    // i16 little endian: -1, 1, -300, 300
    let block = [0xff_u8, 0xff, 0x01, 0x00, 0xd4, 0xfe, 0x2c, 0x01];
    let config = cfg(ValueType::I16, Endianness::Little, Alignment::Aligned, 0x10);
    let negatives =
        Scanner::new_from_known(config, &block, ComparisonType::Lt, ScanValue::I16(0)).unwrap();
    assert_eq!(negatives.results(), vec![0x10, 0x14]);

    let i32_block = [0x00_u8, 0x00, 0x00, 0x80, 0xff, 0xff, 0xff, 0x7f];
    let config = cfg(ValueType::I32, Endianness::Little, Alignment::Aligned, 0);
    let big = Scanner::new_from_known(config, &i32_block, ComparisonType::Ge, ScanValue::I32(0))
        .unwrap();
    assert_eq!(big.results(), vec![4]);

    let i8_block = [0x80_u8, 0x7f, 0x00, 0xff];
    let config = cfg(ValueType::I8, Endianness::Little, Alignment::Unaligned, 0);
    let le = Scanner::new_from_known(config, &i8_block, ComparisonType::Le, ScanValue::I8(-1))
        .unwrap();
    assert_eq!(le.results(), vec![0, 3]);
}

#[test]
fn unsigned_u32_big_endian_scan() {
    let block = [0x00_u8, 0x00, 0x01, 0x00, 0xff, 0xff, 0xff, 0xff];
    let config = cfg(ValueType::U32, Endianness::Big, Alignment::Aligned, 0x4000);
    let scanner =
        Scanner::new_from_known(config, &block, ComparisonType::Ge, ScanValue::U32(0x100))
            .unwrap();
    assert_eq!(scanner.results(), vec![0x4000, 0x4004]);
    assert_eq!(scanner.count(), 2);
}

#[test]
fn failed_scans_leave_the_scanner_unchanged() {
    let config = cfg(ValueType::U8, Endianness::Little, Alignment::Aligned, 0);
    let mut scanner = Scanner::new_from_unknown(config, &[1, 2, 3, 4]).unwrap();
    scanner.scan(&[1, 3, 3, 5], ComparisonType::Gt, ScanValue::PreviousValue).unwrap();
    assert_eq!(scanner.results(), vec![1, 3]);

    assert_eq!(
        scanner.scan(&[9, 9, 9], ComparisonType::Eq, ScanValue::PreviousValue),
        Err(ScanError::InvalidRamBlockLength)
    );
    assert_eq!(
        scanner.scan(&[9, 9, 9, 9], ComparisonType::Eq, ScanValue::U16(9)),
        Err(ScanError::TypeMismatch)
    );
    assert_eq!(
        scanner.scan_again(ComparisonType::Eq, ScanValue::PreviousValue),
        Err(ScanError::PreviousValueRequiresNewBlock)
    );
    assert_eq!(scanner.results(), vec![1, 3]);
    assert_eq!(scanner.count(), 2);

    // The stored block is still the one of the last successful scan.
    scanner.scan(&[1, 3, 3, 5], ComparisonType::Eq, ScanValue::PreviousValue).unwrap();
    assert_eq!(scanner.results(), vec![1, 3]);
}

#[test]
fn length_error_takes_precedence_over_type_error() {
    let config = cfg(ValueType::U8, Endianness::Little, Alignment::Aligned, 0);
    let mut scanner = Scanner::new_from_unknown(config, &[1, 2, 3, 4]).unwrap();
    assert_eq!(
        scanner.scan(&[1], ComparisonType::Eq, ScanValue::U32(1)),
        Err(ScanError::InvalidRamBlockLength)
    );
}

#[test]
fn type_error_takes_precedence_over_previous_value_in_scan_again() {
    let config = cfg(ValueType::U8, Endianness::Little, Alignment::Aligned, 0);
    let mut scanner = Scanner::new_from_unknown(config, &[1, 2, 3, 4]).unwrap();
    assert_eq!(
        scanner.scan_again(ComparisonType::Eq, ScanValue::U16(1)),
        Err(ScanError::TypeMismatch)
    );
    // scan_again on an unfiltered scanner walks the implicit space of the current block.
    scanner.scan_again(ComparisonType::Ge, ScanValue::U8(3)).unwrap();
    assert_eq!(scanner.results(), vec![2, 3]);
}

#[test]
fn ne_and_le_on_previous_values() {
    let config = cfg(ValueType::U8, Endianness::Little, Alignment::Unaligned, 0);
    let mut changed = Scanner::new_from_unknown(config, &[5, 6, 7, 8]).unwrap();
    changed.scan(&[5, 0, 7, 9], ComparisonType::Ne, ScanValue::PreviousValue).unwrap();
    assert_eq!(changed.results(), vec![1, 3]);
    let mut not_up = Scanner::new_from_unknown(config, &[5, 6, 7, 8]).unwrap();
    not_up.scan(&[5, 0, 7, 9], ComparisonType::Le, ScanValue::PreviousValue).unwrap();
    assert_eq!(not_up.results(), vec![0, 1, 2]);
}

#[test]
fn scan_value_equality_follows_payload_semantics() {
    assert_eq!(ScanValue::U8(3), ScanValue::U8(3));
    assert_ne!(ScanValue::U8(3), ScanValue::U16(3));
    assert_ne!(ScanValue::I32(-1), ScanValue::I32(1));
    assert_eq!(ScanValue::PreviousValue, ScanValue::PreviousValue);
    assert_eq!(ScanValue::F32(0.0_f32.to_bits()), ScanValue::F32((-0.0_f32).to_bits()));
    assert_ne!(ScanValue::F32(f32::NAN.to_bits()), ScanValue::F32(f32::NAN.to_bits()));
    assert_eq!(ScanValue::F32(2.5_f32.to_bits()), ScanValue::F32(2.5_f32.to_bits()));
}

#[test]
fn results_page_selects_a_window() {
    let block = [5_u8, 1, 5, 5, 2, 5, 5];
    let config = cfg(ValueType::U8, Endianness::Little, Alignment::Unaligned, 0x20);
    let scanner =
        Scanner::new_from_known(config, &block, ComparisonType::Eq, ScanValue::U8(5)).unwrap();
    assert_eq!(scanner.results(), vec![0x20, 0x22, 0x23, 0x25, 0x26]);
    assert_eq!(scanner.results_page(0, 2), vec![0x20, 0x22]);
    assert_eq!(scanner.results_page(2, 2), vec![0x23, 0x25]);
    assert_eq!(scanner.results_page(4, 2), vec![0x26]);
    assert_eq!(scanner.results_page(5, 2), Vec::<u32>::new());
    assert_eq!(scanner.results_page(9, 2), Vec::<u32>::new());
    assert_eq!(scanner.results_page(1, 0), Vec::<u32>::new());
    assert_eq!(scanner.results_page(0, usize::MAX), scanner.results());
    assert_eq!(scanner.results_page(3, usize::MAX), vec![0x25, 0x26]);
}

#[test]
fn results_page_is_empty_before_first_filter() {
    let config = cfg(ValueType::U8, Endianness::Little, Alignment::Unaligned, 0);
    let scanner = Scanner::new_from_unknown(config, &[1, 2, 3]).unwrap();
    assert_eq!(scanner.results_page(0, 10), Vec::<u32>::new());
}

#[test]
fn configuration_from_codes() {
    assert_eq!(
        Configuration::from_codes(1, 1, 0, 0x40),
        Ok(cfg(ValueType::U16, Endianness::Big, Alignment::Unaligned, 0x40))
    );
    assert_eq!(
        Configuration::from_codes(6, 0, 1, 0),
        Ok(cfg(ValueType::F32, Endianness::Little, Alignment::Aligned, 0))
    );
    assert_eq!(Configuration::from_codes(255, 0, 0, 0), Err(ScanError::TypeMismatch));
    assert_eq!(Configuration::from_codes(0, 2, 0, 0), Err(ScanError::TypeMismatch));
    assert_eq!(Configuration::from_codes(0, 0, 2, 0), Err(ScanError::TypeMismatch));
}

#[test]
fn write_results_page_fills_buffer_and_keeps_the_rest() {
    let block = [5_u8, 1, 5, 5, 2, 5, 5];
    let config = cfg(ValueType::U8, Endianness::Little, Alignment::Unaligned, 0x20);
    let scanner =
        Scanner::new_from_known(config, &block, ComparisonType::Eq, ScanValue::U8(5)).unwrap();

    let mut buf = [0xdead_u32; 3];
    assert_eq!(scanner.write_results_page(&mut buf, 0), 3);
    assert_eq!(buf, [0x20, 0x22, 0x23]);

    let mut buf = [0xdead_u32; 3];
    assert_eq!(scanner.write_results_page(&mut buf, 3), 2);
    assert_eq!(buf, [0x25, 0x26, 0xdead]);

    let mut buf = [0xdead_u32; 3];
    assert_eq!(scanner.write_results_page(&mut buf, 7), 0);
    assert_eq!(buf, [0xdead; 3]);

    let mut empty: [u32; 0] = [];
    assert_eq!(scanner.write_results_page(&mut empty, 1), 0);
}

#[test]
fn successive_pages_join_to_all_results() {
    let block = [5_u8, 1, 5, 5, 2, 5, 5, 9, 5];
    let config = cfg(ValueType::U8, Endianness::Little, Alignment::Unaligned, 0);
    let scanner =
        Scanner::new_from_known(config, &block, ComparisonType::Eq, ScanValue::U8(5)).unwrap();
    for size in 1..=7 {
        let mut joined = Vec::new();
        let mut page = 0;
        loop {
            let mut buf = vec![0_u32; size];
            let n = scanner.write_results_page(&mut buf, page * size);
            if n == 0 {
                break;
            }
            joined.extend_from_slice(&buf[..n]);
            page += 1;
        }
        assert_eq!(joined, scanner.results());
    }
}
