use zip_localizer::chars::to_chars;
use zip_localizer::decode::decode_escapes;
use zip_localizer::TransformError;

fn decode(s: &str) -> Result<String, TransformError> {
    decode_escapes(&to_chars(s))
}

#[test]
fn simple_escape_decodes() {
    assert_eq!(decode("\\u0041").unwrap(), "A");
}

#[test]
fn cyrillic_escape_decodes() {
    assert_eq!(decode("\\u0416").unwrap(), "Ж");
    assert_eq!(decode("\\u0414\\u0430\\u043b\\u0435\\u0435").unwrap(), "Далее");
}

#[test]
fn uppercase_hex_digits_decode() {
    assert_eq!(decode("\\u041B").unwrap(), "Л");
}

#[test]
fn backslash_not_before_u_passes_through() {
    assert_eq!(decode("\\x").unwrap(), "\\x");
    assert_eq!(decode("a\\nb").unwrap(), "a\\nb");
}

#[test]
fn lone_trailing_backslash_is_preserved() {
    assert_eq!(decode("abc\\").unwrap(), "abc\\");
    assert_eq!(decode("\\").unwrap(), "\\");
}

#[test]
fn plain_text_round_trips_unchanged() {
    let plain = "Далі, plain text with no escapes — ok?";
    assert_eq!(decode(plain).unwrap(), plain);
    assert_eq!(decode("").unwrap(), "");
}

#[test]
fn truncated_escape_is_invalid() {
    assert_eq!(decode("\\u12").unwrap_err(), TransformError::InvalidEscape);
    assert_eq!(decode("text\\u").unwrap_err(), TransformError::InvalidEscape);
    assert_eq!(decode("\\u123").unwrap_err(), TransformError::InvalidEscape);
}

#[test]
fn non_hex_escape_is_invalid() {
    assert_eq!(decode("\\uzzzz").unwrap_err(), TransformError::InvalidEscape);
    assert_eq!(decode("\\u12g4").unwrap_err(), TransformError::InvalidEscape);
}

#[test]
fn surrogate_escape_is_invalid() {
    assert_eq!(decode("\\ud800").unwrap_err(), TransformError::InvalidEscape);
    assert_eq!(decode("\\udfff").unwrap_err(), TransformError::InvalidEscape);
}

#[test]
fn mixed_text_and_escapes_decode() {
    assert_eq!(decode("x\\u0041y\\u0042z").unwrap(), "xAyBz");
}
