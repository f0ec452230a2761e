use base64::Engine;
use image::{ImageEncoder, Rgba, RgbaImage};
use streamdeck_mobile::client_message::Size;
use streamdeck_mobile::images::{
    clear_screen, empty_png, picture_file, picture_frame, update_image, Delivery,
};
use streamdeck_mobile::server_message::{Icon, Image, Payload, ServerMessage};
use streamdeck_mobile::session::{attach, Hub};

fn hub() -> Hub {
    let mut hub = Hub::new();
    attach(&mut hub, &"sdm-1".to_owned(), 42);
    hub
}

fn png(picture: &RgbaImage) -> Vec<u8> {
    let mut out = Vec::new();
    image::codecs::png::PngEncoder::new(&mut out)
        .write_image(picture, picture.width(), picture.height(), image::ExtendedColorType::Rgba8)
        .unwrap();
    out
}

fn icon(index: u32, width: u32, height: u32, png: Vec<u8>) -> Vec<u8> {
    ServerMessage {
        payload: Some(Payload::Icon(Icon {
            index,
            image: Some(Image {
                format: 5,
                image_type: 1,
                size: Some(Size { width, height }),
                row_bytes: width * 4,
                image: png,
            }),
        })),
    }
    .encode_to_vec()
}

fn blank() -> Vec<u8> {
    png(&RgbaImage::from_pixel(2, 2, Rgba([0, 0, 0, 0])))
}

fn address(file: &[u8]) -> String {
    format!("data:image/png;base64,{}", base64::engine::general_purpose::STANDARD.encode(file))
}

fn sent(frame: Vec<u8>) -> Result<Delivery, String> {
    Ok(Delivery::Send { connection: 42, frames: vec![frame] })
}

#[test]
fn blank_picture_is_two_by_two() {
    assert_eq!(
        empty_png(),
        Ok(Image {
            format: 5,
            image_type: 1,
            size: Some(Size { width: 2, height: 2 }),
            row_bytes: 8,
            image: blank(),
        })
    );
}

#[test]
fn other_devices_are_not_served() {
    assert_eq!(update_image(&hub(), "sd-1", 0, None), Ok(Delivery::NotMobile));
    assert_eq!(clear_screen(&hub(), "sd-1", None), Delivery::NotMobile);
}

#[test]
fn devices_without_connection_get_nothing() {
    assert_eq!(update_image(&hub(), "sdm-2", 0, None), Ok(Delivery::Nothing));
    assert_eq!(update_image(&hub(), "sdm-2", 0, Some("data:,!")), Ok(Delivery::Nothing));
    assert_eq!(clear_screen(&hub(), "sdm-2", Some((1, 1))), Delivery::Nothing);
}

#[test]
fn key_without_picture_is_blanked() {
    assert_eq!(update_image(&hub(), "sdm-1", 7, None), sent(icon(7, 2, 2, blank())));
}

#[test]
fn pictures_are_sent_as_png() {
    let mut picture = RgbaImage::new(3, 2);
    for (x, y, pixel) in picture.enumerate_pixels_mut() {
        *pixel = Rgba([x as u8 * 80, y as u8 * 200, 17, 255 - x as u8]);
    }
    let file = png(&picture);
    assert_eq!(
        update_image(&hub(), "sdm-1", 255, Some(&address(&file))),
        sent(icon(255, 3, 2, file.clone()))
    );
    let mut bmp = Vec::new();
    image::codecs::bmp::BmpEncoder::new(&mut bmp)
        .write_image(&picture, 3, 2, image::ExtendedColorType::Rgba8)
        .unwrap();
    let read = image::load_from_memory(&bmp).unwrap().to_rgba8();
    assert_eq!(
        update_image(&hub(), "sdm-1", 1, Some(&address(&bmp))),
        sent(icon(1, 3, 2, png(&read)))
    );
}

#[test]
fn addresses_without_comma_are_passed_over() {
    assert_eq!(update_image(&hub(), "sdm-1", 0, Some("actionDefaultImage")), Ok(Delivery::Nothing));
    assert_eq!(update_image(&hub(), "sdm-1", 0, Some("")), Ok(Delivery::Nothing));
}

#[test]
fn broken_base64_is_an_error() {
    let expected = base64::engine::general_purpose::STANDARD.decode("a,b").unwrap_err().to_string();
    assert_eq!(update_image(&hub(), "sdm-1", 0, Some("data:,a,b")), Err(expected));
}

#[test]
fn broken_pictures_are_an_error() {
    let expected = image::load_from_memory(b"no picture").unwrap_err().to_string();
    assert_eq!(update_image(&hub(), "sdm-1", 0, Some(&address(b"no picture"))), Err(expected));
}

#[test]
fn files_are_read_out_of_their_address() {
    assert_eq!(picture_file("data:image/png;base64,AQID"), Some(Ok(vec![1, 2, 3])));
    assert_eq!(picture_file(",AQI="), Some(Ok(vec![1, 2])));
    assert_eq!(picture_file(",AQ=="), Some(Ok(vec![1])));
    assert_eq!(picture_file(","), Some(Ok(vec![])));
    assert_eq!(picture_file("AQID"), None);
    for text in ["AQ", "AQ=", "AR==", "AQI", "AQJ=", "A", "====", "AQID====", "AQ==AQ==", "\u{fc}"] {
        let url = format!("x,{}", text);
        let expected = base64::engine::general_purpose::STANDARD.decode(text).unwrap_err();
        assert_eq!(picture_file(&url), Some(Err(expected.to_string())));
    }
    for length in 0..40u8 {
        let file: Vec<u8> = (0..length).map(|i| i.wrapping_mul(37)).collect();
        assert_eq!(picture_file(&address(&file)), Some(Ok(file)));
    }
}

#[test]
fn decoded_pictures_are_framed() {
    let pixels = vec![255, 0, 0, 255, 0, 255, 0, 128];
    let picture = RgbaImage::from_raw(2, 1, pixels.clone()).unwrap();
    assert_eq!(picture_frame(9, Ok((2, 1, pixels))), Ok(icon(9, 2, 1, png(&picture))));
    assert_eq!(picture_frame(9, Err("why".to_owned())), Err("why".to_owned()));
    assert!(picture_frame(9, Ok((0, 5, vec![]))).is_err());
    assert!(picture_frame(9, Ok((5, 0, vec![]))).is_err());
}

#[test]
fn every_key_is_blanked() {
    let frames = |count: u32| Delivery::Send {
        connection: 42,
        frames: (0..count).map(|i| icon(i, 2, 2, blank())).collect(),
    };
    assert_eq!(clear_screen(&hub(), "sdm-1", None), frames(15));
    assert_eq!(clear_screen(&hub(), "sdm-1", Some((2, 4))), frames(8));
    assert_eq!(clear_screen(&hub(), "sdm-1", Some((0, 4))), frames(0));
}
