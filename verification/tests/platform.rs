use barcode_bot::code::{into_barcode, merge2memory};
use barcode_bot::error::{BarcodeError, EncodingError};
use barcode_bot::platform::{answer, handle_message, is_owner_request, Reply};
use std::sync::Arc;

fn self_id() -> Arc<String> {
    Arc::new("\u{00C0}ABC".to_string())
}

#[test]
fn only_the_owners_chat_is_answered() {
    assert!(is_owner_request(42, Some(42), Some("HELLO12345")));
    assert!(!is_owner_request(42, Some(43), Some("HELLO12345")));
    assert!(!is_owner_request(42, None, Some("HELLO12345")));
    assert!(is_owner_request(-7, Some(-7), Some("x")));
}

#[test]
fn a_message_without_text_is_not_answered() {
    assert!(!is_owner_request(42, Some(42), None));
}

#[test]
fn a_command_is_not_answered() {
    assert!(!is_owner_request(42, Some(42), Some("/ping")));
    assert!(!is_owner_request(42, Some(42), Some("/")));
    assert!(is_owner_request(42, Some(42), Some("a/b")));
    assert!(is_owner_request(42, Some(42), Some("")));
    assert!(is_owner_request(42, Some(42), Some("\u{00E9}/")));
}

#[test]
fn an_unwanted_text_is_ignored() {
    assert!(matches!(answer("HELLO12345", self_id(), false), Reply::Ignore));
}

#[test]
fn a_wanted_text_is_marked_and_drawn() {
    let expected = merge2memory(self_id(), &into_barcode("Hello12345")).unwrap();
    match answer("Hello12345", self_id(), true) {
        Reply::Photo(image) => assert_eq!(image, expected),
        other => panic!("{other:?}"),
    }
}

#[test]
fn a_failure_is_reported_with_its_reason() {
    assert!(matches!(
        answer("AB\u{0000}CD", self_id(), true),
        Reply::Failure(BarcodeError::Encoding(EncodingError::Character))
    ));
    assert!(matches!(
        answer("HELLO", Arc::new("ABC".to_string()), true),
        Reply::Failure(BarcodeError::Encoding(EncodingError::Character))
    ));
}

#[test]
fn handle_message_wants_five_word_characters_in_a_row() {
    for text in ["", "abcd", "ab cd ef", "12-34-56", "a.b.c.d.e"] {
        assert!(matches!(handle_message(text, self_id()), Some(Reply::Ignore)), "{text}");
    }
    for text in ["abcde", "12345", "a_b_c", "see HELLO12345 here"] {
        assert!(matches!(handle_message(text, self_id()), Some(Reply::Photo(_))), "{text}");
    }
}

#[test]
fn handle_message_answers_with_the_file() {
    let expected = merge2memory(self_id(), "\u{00C0}HELLO12345").unwrap();
    match handle_message("hello12345", self_id()) {
        Some(Reply::Photo(image)) => assert_eq!(image, expected),
        other => panic!("{other:?}"),
    }
}

#[test]
fn handle_message_reports_what_cannot_be_encoded() {
    // five word characters, one of them outside the repertoire
    assert!(matches!(
        handle_message("h\u{00E9}llo", self_id()),
        Some(Reply::Failure(BarcodeError::Encoding(EncodingError::Character)))
    ));
}
