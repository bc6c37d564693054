use mfmarine::codec::token_from_cookie;
use mfmarine::codec::token_from_header;
use mfmarine::codec::transform_token;
use mfmarine::errors::MfError;

#[test]
fn substitution_twice_is_identity_on_all_ascii_letters() {
    let letters: String = ('A'..='Z').chain('a'..='z').collect();
    let once = transform_token(&letters);
    let twice = transform_token(&once);
    assert_eq!(twice, letters);
    assert_ne!(once, letters);
}

#[test]
fn substitution_leaves_non_alphabetic_characters_unchanged() {
    let input = "0123456789 !@#,;.-_[]{}\n\t\u{e9}\u{20ac}";
    assert_eq!(transform_token(input), input);
}

#[test]
fn substitution_is_case_preserving_rotation() {
    assert_eq!(transform_token("ABC"), "NOP");
    assert_eq!(transform_token("abc"), "nop");
    assert_eq!(transform_token("XYZ"), "KLM");
    assert_eq!(transform_token("HELLO"), "URYYB");
    assert_eq!(transform_token("Uryyb, Jbeyq!"), "Hello, World!");
}

#[test]
fn token_is_extracted_between_marker_and_delimiter() {
    let r = token_from_cookie("mfsession=ABC123XYZ;rest").unwrap();
    assert_eq!(r, "NOP123KLM");
}

#[test]
fn token_extraction_ignores_text_around_the_session_fragment() {
    let r = token_from_cookie("lang=fr; mfsession=AZaz09; path=/; HttpOnly").unwrap();
    assert_eq!(r, "NMnm09");
}

#[test]
fn missing_marker_is_reported() {
    assert_eq!(
        token_from_cookie("session=ABC123;rest"),
        Err(MfError::MissingMarker)
    );
    assert_eq!(token_from_cookie(""), Err(MfError::MissingMarker));
}

#[test]
fn missing_delimiter_is_reported() {
    assert_eq!(
        token_from_cookie("mfsession=ABC123XYZ"),
        Err(MfError::MissingDelimiter)
    );
    // A delimiter before the marker does not terminate the fragment.
    assert_eq!(
        token_from_cookie("lang=fr;mfsession=ABC"),
        Err(MfError::MissingDelimiter)
    );
}

#[test]
fn empty_session_fragment_gives_empty_token() {
    assert_eq!(token_from_cookie("mfsession=;rest").unwrap(), "");
}

#[test]
fn absent_cookie_header_is_reported() {
    assert_eq!(token_from_header(&None), Err(MfError::NoCookieHeader));
}

#[test]
fn present_cookie_header_yields_the_token() {
    let header = Some(String::from("mfsession=ABC;HttpOnly"));
    assert_eq!(token_from_header(&header).unwrap(), "NOP");
}
