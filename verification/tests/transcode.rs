use base64::Engine;
use vismatch_svc::base64_to_image;
use vismatch_svc::image_to_base64;
use vismatch_svc::transcode::TranscodeError;

#[test]
fn test_base64() {
    // 8x7
    let small_png_1: String =
        "iVBORw0KGgoAAAANSUhEUgAAAAgAAAAHCAIAAAC6O5sJAAAAGUlEQVR4nGJh+jWFARtgwio60BKAAAAA//8VUgGhHLHyHAAAAABJRU5ErkJggg==".to_owned();

    let im1_ = base64_to_image(&small_png_1).unwrap();

    assert_eq!((8, 7), (im1_.width(), im1_.height()));

    assert_eq!(im1_, base64_to_image(image_to_base64(&im1_).unwrap().as_str()).unwrap());

    ()
}

#[test]
fn data_uri_payload_is_decoded() {
    let payload =
        "iVBORw0KGgoAAAANSUhEUgAAAAgAAAAHCAIAAAC6O5sJAAAAGUlEQVR4nGJh+jWFARtgwio60BKAAAAA//8VUgGhHLHyHAAAAABJRU5ErkJggg==";
    let uri = format!("data:image/png;base64, {} ", payload);
    let img = base64_to_image(&uri).unwrap();
    assert_eq!((8, 7), (img.width(), img.height()));
}

#[test]
fn data_uri_without_payload_is_invalid() {
    let r = base64_to_image("data:image/png;base64");
    assert_eq!(r.unwrap_err(), TranscodeError::InvalidDataUri);
}

#[test]
fn garbage_text_is_a_base64_error() {
    let r = base64_to_image("!!!not base64!!!");
    assert_eq!(r.unwrap_err(), TranscodeError::Base64Decode);
}

#[test]
fn non_image_bytes_are_a_decode_error() {
    let text = base64::engine::general_purpose::STANDARD.encode(b"just some text");
    let r = base64_to_image(&text);
    assert_eq!(r.unwrap_err(), TranscodeError::ImageDecode);
}
