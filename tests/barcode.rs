use imageslapper::barcode::{code128_payload, encode_code128, place_barcode, BarcodeError, BarcodePlacement, MAX_PAYLOAD_CHARS};

#[test]
fn payload_gets_a_start_character() {
    assert_eq!(code128_payload("ABC123").unwrap(), "ÀABC123");
    assert_eq!(code128_payload("123456 jump!").unwrap(), "Ɓ123456 jump!");
}

#[test]
fn empty_and_non_ascii_input_are_refused() {
    assert_eq!(code128_payload(""), Err(BarcodeError::EmptyInput));
    assert_eq!(code128_payload("héllo"), Err(BarcodeError::NonAscii));
    assert_eq!(encode_code128(""), Err(BarcodeError::EmptyInput));
    assert_eq!(encode_code128("naïve"), Err(BarcodeError::NonAscii));
    assert_eq!(BarcodeError::EmptyInput.message(), "Input string cannot be empty");
    assert_eq!(
        BarcodeError::NonAscii.message(),
        "Input string contains invalid characters. Only ASCII characters are allowed."
    );
}

#[test]
fn encoding_yields_binary_modules() {
    let bars = encode_code128("123456 jump!").expect("encodable");
    // Start, twelve characters and the checksum take eleven modules each,
    // the stop pattern and terminator thirteen more.
    assert_eq!(bars.len(), 14 * 11 + 13);
    assert!(bars.iter().all(|&b| b <= 1));
    assert_eq!(&bars[bars.len() - 2..], &[1, 1]);
    assert_ne!(encode_code128("A").unwrap(), encode_code128("B").unwrap());
}

#[test]
fn control_characters_are_rejected_by_set_b() {
    assert_eq!(encode_code128("a\u{1}b"), Err(BarcodeError::Rejected));
}

#[test]
fn barcode_is_fitted_and_centered() {
    assert_eq!(
        place_barcode(500, 500, 25, 300, 1000),
        Some(BarcodePlacement { width: 300, height: 450, x_offset: 100, y_offset: 25 })
    );
    assert_eq!(
        place_barcode(100, 60, 10, 80, 40),
        Some(BarcodePlacement { width: 80, height: 40, x_offset: 10, y_offset: 10 })
    );
    assert_eq!(place_barcode(40, 100, 21, 10, 10), None);
    assert_eq!(place_barcode(100, 40, 21, 10, 10), None);
}

#[test]
fn overlong_input_is_refused_before_encoding() {
    let longest = "~".repeat(MAX_PAYLOAD_CHARS - 1);
    let bars = encode_code128(&longest).expect("fits the encoder");
    // Start, 5999 characters and the checksum, then stop and terminator.
    assert_eq!(bars.len(), 6001 * 11 + 13);
    assert_eq!(encode_code128(&"~".repeat(MAX_PAYLOAD_CHARS)), Err(BarcodeError::TooLong));
    assert_eq!(encode_code128(&"~".repeat(6760)), Err(BarcodeError::TooLong));
    assert_eq!(BarcodeError::TooLong.message(), "Input string is too long for a Code128 barcode");
}
