use barcode_bot::code::{compose, encode, into_barcode, merge2, merge2memory, specify_barcode};
use barcode_bot::config::{Config, Platform};
use barcode_bot::error::{BarcodeError, CompositionError, EncodingError, SerializationError};
use barcode_bot::png::serialize;
use std::sync::Arc;

const PNG_SIGNATURE: [u8; 8] = [0x89, b'P', b'N', b'G', 0x0D, 0x0A, 0x1A, 0x0A];

#[test]
fn merge2_composes_the_two_symbols() {
    let self_id = Arc::new("\u{00C0}ABC".to_string());
    let turned = merge2(self_id, "\u{00C0}HELLO12345").unwrap();
    assert_eq!((turned.width(), turned.height()), (100, 185));
    let id = encode("\u{00C0}ABC", 30).unwrap();
    let payload = encode("\u{00C0}HELLO12345", 30).unwrap();
    assert_eq!(turned.to_bytes(), compose(&id, &payload).unwrap().to_bytes());
}

#[test]
fn merge2_passes_encoding_errors_on() {
    let good = Arc::new("\u{00C0}ABC".to_string());
    assert_eq!(
        merge2(good.clone(), "\u{00C0}A\u{0000}").unwrap_err(),
        BarcodeError::Encoding(EncodingError::Character)
    );
    assert_eq!(
        merge2(good.clone(), "").unwrap_err(),
        BarcodeError::Encoding(EncodingError::Length)
    );
    assert_eq!(
        merge2(Arc::new("ABC".to_string()), "\u{00C0}HELLO").unwrap_err(),
        BarcodeError::Encoding(EncodingError::Character)
    );
    assert_eq!(
        merge2(Arc::new(String::new()), "\u{00C0}\u{0000}").unwrap_err(),
        BarcodeError::Encoding(EncodingError::Length)
    );
    assert_eq!(
        merge2memory(good, "\u{00C0}A\u{0000}").unwrap_err(),
        BarcodeError::Encoding(EncodingError::Character)
    );
}

#[test]
fn serialize_round_trips_through_a_png_decoder() {
    let canvas = merge2(Arc::new("\u{00C0}ABC".to_string()), "\u{00C0}HELLO12345").unwrap();
    let bytes = serialize(&canvas).unwrap();
    assert_eq!(bytes[..8], PNG_SIGNATURE);
    let decoded = image::load_from_memory(&bytes).unwrap();
    assert_eq!(decoded.color(), image::ColorType::Rgba8);
    assert_eq!((decoded.width(), decoded.height()), (canvas.width(), canvas.height()));
    assert_eq!(decoded.into_rgba8().into_raw(), canvas.to_bytes().unwrap());
}

#[test]
fn serialize_keeps_colour_and_alpha() {
    let mut canvas = barcode_bot::bitmap::Bitmap::from_pixel(
        3,
        2,
        barcode_bot::bitmap::Rgba { r: 9, g: 8, b: 7, a: 6 },
    )
    .unwrap();
    let dot = encode("\u{00C0}", 1).unwrap();
    assert!(!canvas.copy_from(&dot, 0, 0));
    let bytes = serialize(&canvas).unwrap();
    let decoded = image::load_from_memory(&bytes).unwrap().into_rgba8();
    assert_eq!((decoded.width(), decoded.height()), (3, 2));
    assert_eq!(decoded.into_raw(), [9u8, 8, 7, 6].repeat(6));
}

#[test]
fn serialize_is_deterministic() {
    let canvas = merge2(Arc::new("\u{00C0}ABC".to_string()), "\u{00C0}HELLO12345").unwrap();
    assert_eq!(serialize(&canvas), serialize(&canvas));
}

#[test]
fn merge2memory_is_the_serialized_canvas() {
    let self_id = Arc::new("\u{00C0}ABC".to_string());
    let canvas = merge2(self_id.clone(), "\u{00C0}HELLO12345").unwrap();
    assert_eq!(
        merge2memory(self_id, "\u{00C0}HELLO12345").unwrap(),
        serialize(&canvas).unwrap()
    );
}

#[test]
fn end_to_end_from_configuration_and_message_text() {
    let config = Config::new(Platform::new("key".to_string(), 7, None), "ABC".to_string());
    let self_id = Arc::new(config.barcode_id());
    assert_eq!(*self_id, "\u{00C0}ABC");
    let payload = into_barcode("Hello12345");
    assert_eq!(payload, "\u{00C0}HELLO12345");
    let bytes = merge2memory(self_id, &payload).unwrap();
    assert_eq!(bytes[..8], PNG_SIGNATURE);
    let decoded = image::load_from_memory_with_format(&bytes, image::ImageFormat::Png)
        .unwrap()
        .into_rgba8();
    // before the turn: (max(68, 145) + 40) x 100
    assert_eq!((decoded.width(), decoded.height()), (100, 185));
    // top-left of the first symbol, a bar: row 10, column 20 before the turn
    assert_eq!(decoded.get_pixel(10, 184 - 20).0, [0, 0, 0, 255]);
    assert_eq!(decoded.get_pixel(9, 184 - 20).0, [255, 255, 255, 255]);
    assert_eq!(decoded.get_pixel(10, 184 - 19).0, [255, 255, 255, 255]);
}

#[test]
fn a_payload_prepared_for_digit_pairs_is_refused_where_letters_lead() {
    let payload = specify_barcode("HELLO12345");
    assert_eq!(payload, "\u{0106}HELLO12345");
    assert_eq!(
        merge2memory(Arc::new("\u{00C0}ABC".to_string()), &payload).unwrap_err(),
        BarcodeError::Encoding(EncodingError::Character)
    );
}

#[test]
fn a_payload_with_an_even_run_inside_is_encoded_in_two_code_sets() {
    let payload = specify_barcode("ab1234x");
    assert_eq!(payload, "\u{00C0}AB\u{0106}1234\u{00C0}X");
    let symbol = encode(&payload, 30).unwrap();
    // start, A, B, switch, 12, 34, switch, X, check, stop
    assert_eq!(symbol.width(), 11 * 9 + 13);
    assert!(merge2memory(Arc::new("\u{00C0}ABC".to_string()), &payload).is_ok());
}

#[test]
fn pipeline_errors_are_described_by_their_stage() {
    assert_eq!(
        BarcodeError::Encoding(EncodingError::Character).describe(),
        "Barcode data is invalid"
    );
    assert_eq!(
        BarcodeError::Composition(CompositionError::EmptySymbol).describe(),
        "A symbol has no columns or no rows"
    );
    assert_eq!(
        BarcodeError::Composition(CompositionError::OutOfCanvas).describe(),
        "A symbol does not fit on the canvas"
    );
    assert_eq!(
        BarcodeError::Composition(CompositionError::TooLarge).describe(),
        "The canvas is too large"
    );
    assert_eq!(
        BarcodeError::Serialization(SerializationError::TooLarge).describe(),
        "The canvas is too large to be written"
    );
    assert_eq!(
        BarcodeError::Serialization(SerializationError::Encoder).describe(),
        "The image could not be encoded"
    );
}

#[test]
fn the_same_texts_give_the_same_file() {
    let self_id = Arc::new("\u{00C0}ABC".to_string());
    let first = merge2memory(self_id.clone(), "\u{00C0}HELLO12345");
    let second = merge2memory(self_id, "\u{00C0}HELLO12345");
    assert!(first.is_ok());
    assert_eq!(first, second);
}
