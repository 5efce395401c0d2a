use oxide_keys::format::format_number;

#[test]
fn formats_zero() {
    let mut buffer = [0u8; 8];
    assert_eq!(format_number(0, &mut buffer), "0");
    assert_eq!(buffer[7], b'0');
}

#[test]
fn formats_positive() {
    let mut buffer = [0u8; 8];
    assert_eq!(format_number(42, &mut buffer), "42");
    assert_eq!(&buffer[6..], b"42");
}

#[test]
fn formats_negative() {
    let mut buffer = [0u8; 8];
    assert_eq!(format_number(-42, &mut buffer), "-42");
    assert_eq!(&buffer[5..], b"-42");
}

#[test]
fn formats_largest_fitting_numbers() {
    let mut buffer = [0u8; 8];
    assert_eq!(format_number(99_999_999, &mut buffer), "99999999");
    let mut buffer = [0u8; 8];
    assert_eq!(format_number(-9_999_999, &mut buffer), "-9999999");
}

#[test]
fn formats_numbers_with_inner_zeros() {
    let mut buffer = [0u8; 8];
    assert_eq!(format_number(1_000_500, &mut buffer), "1000500");
    let mut buffer = [0u8; 8];
    assert_eq!(format_number(-10, &mut buffer), "-10");
}

#[test]
fn leaves_front_of_buffer_untouched() {
    let mut buffer = [b'x'; 8];
    assert_eq!(format_number(-7, &mut buffer), "-7");
    assert_eq!(&buffer, b"xxxxxx-7");
}

#[test]
fn reuses_buffer_for_shorter_text() {
    let mut buffer = [0u8; 8];
    assert_eq!(format_number(12345, &mut buffer), "12345");
    assert_eq!(format_number(9, &mut buffer), "9");
    assert_eq!(&buffer[3..], b"12349");
}

#[test]
fn text_reads_back_as_number() {
    for n in [-9_999_999, -100, -1, 0, 1, 7, 10, 305, 99_999_999] {
        let mut buffer = [0u8; 8];
        let text = format_number(n, &mut buffer);
        assert_eq!(text.parse::<i32>().unwrap(), n);
    }
}
