use canvas_store::error::StoreError;
use canvas_store::image::{load_header_image, make_header_data_url, save_header_image};
use canvas_store::store::delete_header_image;

#[test]
fn image_round_trip() {
    let bytes: Vec<u8> = vec![137, 80, 78, 71, 13, 10, 26, 10, 0, 1, 2, 253];
    let url = make_header_data_url(&bytes);
    assert!(url.starts_with("data:image/png;base64,"));
    let stored = save_header_image(&url).unwrap();
    assert_eq!(stored, bytes);
    let reloaded = load_header_image(Some(&stored)).unwrap();
    assert_eq!(reloaded, url);
}

#[test]
fn image_round_trip_empty() {
    let bytes: Vec<u8> = Vec::new();
    let url = make_header_data_url(&bytes);
    assert_eq!(url, "data:image/png;base64,");
    let stored = save_header_image(&url).unwrap();
    assert_eq!(stored, bytes);
}

#[test]
fn image_round_trip_against_encoder() {
    // The same round trip, with the payload produced by the base64 crate
    // directly, as the UI would send it.
    let bytes: Vec<u8> = (0u16..256).map(|b| b as u8).collect();
    let payload = base64::Engine::encode(&base64::engine::general_purpose::STANDARD, &bytes);
    let url = format!("data:image/png;base64,{}", payload);
    let stored = save_header_image(&url).unwrap();
    assert_eq!(stored, bytes);
    let reloaded = load_header_image(Some(&stored)).unwrap();
    assert_eq!(reloaded, url);
}

#[test]
fn save_without_comma_is_format_error() {
    let r = save_header_image("not-a-data-url");
    assert_eq!(r, Err(StoreError::Format));
}

#[test]
fn save_empty_input_is_format_error() {
    let r = save_header_image("");
    assert_eq!(r, Err(StoreError::Format));
}

#[test]
fn save_bad_base64_is_decode_error() {
    let r = save_header_image("data:image/png;base64,!!!");
    assert!(matches!(r, Err(StoreError::Decode(_))));
}

#[test]
fn payload_is_taken_between_commas() {
    // "QUJD" decodes to "ABC"; what follows a second comma is ignored.
    let r = save_header_image("data:x,QUJD,ignored").unwrap();
    assert_eq!(r, b"ABC".to_vec());
}

#[test]
fn mime_prefix_is_discarded() {
    // A JPEG label on save still reloads under the fixed PNG label.
    let bytes: Vec<u8> = vec![255, 216, 255, 224];
    let payload = base64::Engine::encode(&base64::engine::general_purpose::STANDARD, &bytes);
    let url = format!("data:image/jpeg;base64,{}", payload);
    let stored = save_header_image(&url).unwrap();
    assert_eq!(stored, bytes);
    let reloaded = load_header_image(Some(&stored)).unwrap();
    assert!(reloaded.starts_with("data:image/png;base64,"));
}

#[test]
fn load_missing_image_returns_none() {
    assert!(load_header_image(None).is_none());
}

#[test]
fn delete_twice_never_errors() {
    // The first delete finds the file and removes it; the second finds
    // nothing, asks for no removal, and succeeds.
    assert!(delete_header_image(true));
    assert!(!delete_header_image(false));
}
