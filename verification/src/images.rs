//! Pictures for the keys of a mobile app.
use image::ImageEncoder;
use vstd::prelude::*;

use crate::base64_text::{base64_decoded, base64_round_trip, base64_standard, decode_base64};
use crate::client_message::Size;
use crate::replies::{ImageFormat, ImageType, DEFAULT_COLS, DEFAULT_ROWS};
use crate::server_message::{
    frame_of, Icon, IconView, Image, ImageView, Payload, PayloadView, ServerMessage,
};
use crate::session::{is_mobile_device, Hub};
use crate::text::{after_first, chars_after, has_prefix, lemma_chars_after};

verus! {

// ---------------------------------------------------------------------------------------------
// Decoding and encoding
// ---------------------------------------------------------------------------------------------
/// Whether a decoder may read this width, this height and these pixels out of a picture file, or
/// may fail with this message.
pub uninterp spec fn picture_may_read(
    file: Seq<u8>,
    outcome: Result<(u32, u32, Seq<u8>), Seq<char>>,
) -> bool;

/// The PNG file of a picture, or why there is none.
pub uninterp spec fn png_encoded(width: u32, height: u32, pixels: Seq<u8>) -> Result<
    Seq<u8>,
    Seq<char>,
>;

/// The values of a result with an error text.
pub open spec fn bytes_result(r: Result<Vec<u8>, String>) -> Result<Seq<u8>, Seq<char>> {
    match r {
        Ok(bytes) => Ok(bytes@),
        Err(e) => Err(e@),
    }
}

/// The values of a decoded picture.
pub open spec fn picture_result(r: Result<(u32, u32, Vec<u8>), String>) -> Result<
    (u32, u32, Seq<u8>),
    Seq<char>,
> {
    match r {
        Ok((width, height, pixels)) => Ok((width, height, pixels@)),
        Err(e) => Err(e@),
    }
}

/// A decoded picture has four bytes for each of its pixels.
pub open spec fn is_complete(picture: Result<(u32, u32, Seq<u8>), Seq<char>>) -> bool {
    picture matches Ok((width, height, pixels)) ==> pixels.len() == width * height * 4
}

/// `image::load_from_memory`, its result as `DynamicImage::to_rgba8` gives it: width, height and
/// four bytes for each pixel, or an error. The result is one that a decoder may give for the file.
/// Which one of those it is may depend on the machine: decoders of lossy formats take different
/// paths on different processors, and all of them limit the memory they use.
#[verifier::external_body]
fn decode_picture(file: &[u8]) -> (r: Result<(u32, u32, Vec<u8>), String>)
    ensures
        picture_may_read(file@, picture_result(r)),
        is_complete(picture_result(r)),
{
    match image::load_from_memory(file) {
        Ok(picture) => {
            let rgba = picture.to_rgba8();
            let (width, height) = rgba.dimensions();
            Ok((width, height, rgba.into_raw()))
        },
        Err(e) => Err(e.to_string()),
    }
}

/// `image::codecs::png::PngEncoder::write_image` into memory, for pixels of four bytes: a file or an
/// error, which depend on the arguments alone. It succeeds exactly if the picture is not empty.
#[verifier::external_body]
fn encode_png(width: u32, height: u32, pixels: &[u8]) -> (r: Result<Vec<u8>, String>)
    requires
        pixels@.len() == width * height * 4,
    ensures
        bytes_result(r) == png_encoded(width, height, pixels@),
        (r is Ok) == (width != 0 && height != 0),
{
    let mut file: Vec<u8> = Vec::new();
    let encoder = image::codecs::png::PngEncoder::new(&mut file);
    match encoder.write_image(pixels, width, height, image::ExtendedColorType::Rgba8) {
        Ok(()) => Ok(file),
        Err(e) => Err(e.to_string()),
    }
}

// ---------------------------------------------------------------------------------------------
// Icons
// ---------------------------------------------------------------------------------------------
/// A PNG file as a picture of the protocol.
pub open spec fn png_image(width: u32, height: u32, png: Seq<u8>) -> ImageView {
    ImageView {
        format: ImageFormat::Png.number(),
        image_type: ImageType::Transparent.number(),
        size: Some(Size { width, height }),
        row_bytes: (width * 4) as u32,
        image: png,
    }
}

/// The picture of a key.
pub open spec fn icon_payload(index: u32, image: ImageView) -> PayloadView {
    PayloadView::Icon(IconView { index, image: Some(image) })
}

fn image_of(width: u32, height: u32, png: Vec<u8>) -> (r: Image)
    ensures
        r@ == png_image(width, height, png@),
{
    let row_bytes: u32 = width.wrapping_mul(4);
    assert(row_bytes == (width * 4) as u32) by {
        assert((width * 4) as u32 == (width * 4) % 0x1_0000_0000) by (bit_vector);
    }
    Image {
        format: ImageFormat::Png.code(),
        image_type: ImageType::Transparent.code(),
        size: Some(Size { width, height }),
        row_bytes,
        image: png,
    }
}

fn icon_frame(index: u32, image: Image) -> (frame: Vec<u8>)
    ensures
        frame@ == frame_of(icon_payload(index, image@)),
{
    let message: ServerMessage = ServerMessage {
        payload: Some(Payload::Icon(Icon { index, image: Some(image) })),
    };
    message.encode_to_vec()
}

/// Four pixels that let everything through.
pub open spec fn blank_pixels() -> Seq<u8> {
    Seq::new(16, |i: int| 0u8)
}

/// The PNG file of a picture of two by two pixels that let everything through.
fn blank_png() -> (r: Result<Vec<u8>, String>)
    ensures
        r is Ok,
        bytes_result(r) == png_encoded(2, 2, blank_pixels()),
{
    let mut pixels: Vec<u8> = Vec::new();
    while pixels.len() < 16
        invariant
            pixels@ == Seq::new(pixels@.len(), |i: int| 0u8),
            pixels@.len() <= 16,
        decreases 16 - pixels@.len(),
    {
        pixels.push(0);
    }
    assert(pixels@ =~= blank_pixels());
    encode_png(2, 2, pixels.as_slice())
}

/// The picture of a key that shows nothing; it can always be made.
pub fn empty_png() -> (r: Result<Image, String>)
    ensures
        r matches Ok(image) && png_encoded(2, 2, blank_pixels()) matches Ok(png) && image@
            == png_image(2, 2, png),
{
    match blank_png() {
        Ok(png) => Ok(image_of(2, 2, png)),
        Err(e) => Err(e),
    }
}

/// The frame that puts a picture on a key, or why there is none: the picture could not be decoded,
/// or it could not be encoded again.
pub open spec fn framed_picture(
    index: u32,
    picture: Result<(u32, u32, Seq<u8>), Seq<char>>,
) -> Result<Seq<u8>, Seq<char>> {
    match picture {
        Ok((width, height, pixels)) => match png_encoded(width, height, pixels) {
            Ok(png) => Ok(frame_of(icon_payload(index, png_image(width, height, png)))),
            Err(e) => Err(e),
        },
        Err(e) => Err(e),
    }
}

/// The frame that puts a decoded picture on a key. It can be made of every picture that was
/// decoded and is not empty.
pub fn picture_frame(index: u32, picture: Result<(u32, u32, Vec<u8>), String>) -> (r: Result<
    Vec<u8>,
    String,
>)
    requires
        is_complete(picture_result(picture)),
    ensures
        bytes_result(r) == framed_picture(index, picture_result(picture)),
        (r is Ok) == (picture matches Ok((width, height, _)) && width != 0 && height != 0),
{
    match picture {
        Ok((width, height, pixels)) => match encode_png(width, height, pixels.as_slice()) {
            Ok(png) => Ok(icon_frame(index, image_of(width, height, png))),
            Err(e) => Err(e),
        },
        Err(e) => Err(e),
    }
}

// ---------------------------------------------------------------------------------------------
// What is sent
// ---------------------------------------------------------------------------------------------
/// What is to be sent to whom.
#[derive(Debug, PartialEq, Eq)]
pub enum Delivery {
    /// The device is none of this backend.
    NotMobile,
    /// There is nothing to send, or nobody to send it to.
    Nothing,
    /// These frames are to be sent over this connection.
    Send { connection: u64, frames: Vec<Vec<u8>> },
}

/// The values of a [`Delivery`].
#[verifier::ext_equal]
pub enum DeliveryView {
    NotMobile,
    Nothing,
    Send { connection: u64, frames: Seq<Seq<u8>> },
}

impl View for Delivery {
    type V = DeliveryView;

    open spec fn view(&self) -> DeliveryView {
        match self {
            Delivery::NotMobile => DeliveryView::NotMobile,
            Delivery::Nothing => DeliveryView::Nothing,
            Delivery::Send { connection, frames } => DeliveryView::Send {
                connection: *connection,
                frames: frames@.map_values(|f: Vec<u8>| f@),
            },
        }
    }
}

/// The values of a delivery or an error.
pub open spec fn delivery_result(r: Result<Delivery, String>) -> Result<DeliveryView, Seq<char>> {
    match r {
        Ok(delivery) => Ok(delivery@),
        Err(e) => Err(e@),
    }
}

/// The picture file in a data address: what stands behind the first comma.
pub open spec fn addressed_file(data_url: Seq<char>) -> Option<Result<Seq<u8>, Seq<char>>> {
    match chars_after(data_url, ',') {
        Some(text) => Some(base64_decoded(text)),
        None => None,
    }
}

/// The picture file in a data address.
pub fn picture_file(data_url: &str) -> (r: Option<Result<Vec<u8>, String>>)
    ensures
        match r {
            Some(file) => addressed_file(data_url@) == Some(bytes_result(file)),
            None => addressed_file(data_url@) is None,
        },
{
    match after_first(data_url, ',') {
        Some(text) => {
            let file: Result<Vec<u8>, String> = decode_base64(text.as_str());
            proof {
                if let Ok(bytes) = bytes_result(file) {
                    base64_round_trip(bytes);
                }
            }
            Some(file)
        },
        None => None,
    }
}

/// A picture file that was put into a data address in Base64 comes out as it was.
pub proof fn picture_files_survive_their_address(scheme: Seq<char>, file: Seq<u8>)
    requires
        !scheme.contains(','),
    ensures
        addressed_file(scheme + seq![','] + base64_standard(file)) == Some(
            Ok::<Seq<u8>, Seq<char>>(file),
        ),
{
    lemma_chars_after(scheme, ',', base64_standard(file));
    base64_round_trip(file);
}

/// What a new picture for a key leads to, given what a decoder reads out of the picture file.
pub open spec fn update_step(
    clients: Map<Seq<char>, u64>,
    device_id: Seq<char>,
    position: u8,
    data_url: Option<Seq<char>>,
    picture: Result<(u32, u32, Seq<u8>), Seq<char>>,
) -> Result<DeliveryView, Seq<char>> {
    if !has_prefix(device_id, "sdm-"@) {
        Ok(DeliveryView::NotMobile)
    } else if !clients.contains_key(device_id) {
        Ok(DeliveryView::Nothing)
    } else {
        let frame = match data_url {
            None => Some(framed_picture(position as u32, Ok((2, 2, blank_pixels())))),
            Some(url) => match addressed_file(url) {
                Some(Ok(file)) => Some(framed_picture(position as u32, picture)),
                Some(Err(e)) => Some(Err(e)),
                None => None,
            },
        };
        match frame {
            Some(Ok(frame)) => Ok(
                DeliveryView::Send { connection: clients[device_id], frames: seq![frame] },
            ),
            Some(Err(e)) => Err(e),
            None => Ok(DeliveryView::Nothing),
        }
    }
}

/// The picture file that is handed to a decoder, if there is one: the device has a connection, and
/// the data address holds a file.
pub open spec fn decoded_file(
    clients: Map<Seq<char>, u64>,
    device_id: Seq<char>,
    data_url: Option<Seq<char>>,
) -> Option<Seq<u8>> {
    if has_prefix(device_id, "sdm-"@) && clients.contains_key(device_id) {
        match data_url {
            Some(url) => match addressed_file(url) {
                Some(Ok(file)) => Some(file),
                _ => None,
            },
            None => None,
        }
    } else {
        None
    }
}

/// Whether a decoder may read this picture out of a file, if there is one.
pub open spec fn may_be_read(
    file: Option<Seq<u8>>,
    picture: Result<(u32, u32, Seq<u8>), Seq<char>>,
) -> bool {
    file matches Some(file) ==> picture_may_read(file, picture) && is_complete(picture)
}

/// The characters of a data address.
pub open spec fn url_chars(data_url: Option<&str>) -> Option<Seq<char>> {
    match data_url {
        Some(url) => Some(url@),
        None => None,
    }
}

fn deliver(connection: u64, frame: Vec<u8>) -> (r: Delivery)
    ensures
        r@ == (DeliveryView::Send { connection, frames: seq![frame@] }),
{
    let mut frames: Vec<Vec<u8>> = Vec::new();
    frames.push(frame);
    assert(frames@.map_values(|f: Vec<u8>| f@) =~= seq![frame@]);
    Delivery::Send { connection, frames }
}

/// Puts a picture, given as a data address, on a key; without one, the key is blanked.
pub fn update_image(hub: &Hub, device_id: &str, position: u8, data_url: Option<&str>) -> (r: Result<
    Delivery,
    String,
>)
    requires
        hub.wf(),
    ensures
        exists|picture: Result<(u32, u32, Seq<u8>), Seq<char>>|
            #[trigger] may_be_read(
                decoded_file(hub@.clients, device_id@, url_chars(data_url)),
                picture,
            ) && delivery_result(r) == update_step(
                hub@.clients,
                device_id@,
                position,
                url_chars(data_url),
                picture,
            ) && (decoded_file(hub@.clients, device_id@, url_chars(data_url)) is Some ==> (r is Ok)
                == (picture matches Ok((width, height, _)) && width != 0 && height != 0)),
        data_url is None ==> r is Ok,
{
    let ghost file = decoded_file(hub@.clients, device_id@, url_chars(data_url));
    let ghost unread: Result<(u32, u32, Seq<u8>), Seq<char>> = Err(seq![]);
    assert(file is None ==> may_be_read(file, unread));
    if !is_mobile_device(device_id) {
        return Ok(Delivery::NotMobile);
    }
    let connection: u64 = match hub.clients.get(device_id) {
        Some(connection) => *connection,
        None => {
            return Ok(Delivery::Nothing);
        },
    };
    let frame: Vec<u8> = match data_url {
        Some(url) => match picture_file(url) {
            Some(Ok(bytes)) => {
                let picture: Result<(u32, u32, Vec<u8>), String> = decode_picture(bytes.as_slice());
                assert(may_be_read(file, picture_result(picture)));
                match picture_frame(position as u32, picture) {
                    Ok(frame) => frame,
                    Err(e) => {
                        return Err(e);
                    },
                }
            },
            Some(Err(e)) => {
                return Err(e);
            },
            None => {
                return Ok(Delivery::Nothing);
            },
        },
        None => {
            match empty_png() {
                Ok(image) => icon_frame(position as u32, image),
                Err(e) => {
                    return Err(e);
                },
            }
        },
    };
    Ok(deliver(connection, frame))
}

/// What blanking a device of this many rows and columns leads to; a device that is not known has
/// the default layout.
pub open spec fn clear_step(
    clients: Map<Seq<char>, u64>,
    device_id: Seq<char>,
    layout: Option<(u8, u8)>,
    png: Seq<u8>,
) -> DeliveryView {
    if !has_prefix(device_id, "sdm-"@) {
        DeliveryView::NotMobile
    } else if !clients.contains_key(device_id) {
        DeliveryView::Nothing
    } else {
        let count = match layout {
            Some((rows, columns)) => rows * columns,
            None => 15,
        };
        DeliveryView::Send {
            connection: clients[device_id],
            frames: Seq::new(
                count as nat,
                |i: int| frame_of(icon_payload(i as u32, png_image(2, 2, png))),
            ),
        }
    }
}

/// Blanks every key of a device.
pub fn clear_screen(hub: &Hub, device_id: &str, layout: Option<(u8, u8)>) -> (r: Delivery)
    requires
        hub.wf(),
    ensures
        png_encoded(2, 2, blank_pixels()) matches Ok(png) && r@ == clear_step(
            hub@.clients,
            device_id@,
            layout,
            png,
        ),
{
    let blank: Result<Vec<u8>, String> = blank_png();
    if !is_mobile_device(device_id) {
        return Delivery::NotMobile;
    }
    let connection: u64 = match hub.clients.get(device_id) {
        Some(connection) => *connection,
        None => {
            return Delivery::Nothing;
        },
    };
    let (rows, columns): (u8, u8) = match layout {
        Some(layout) => layout,
        None => (DEFAULT_ROWS, DEFAULT_COLS),
    };
    assert(rows * columns <= 255 * 255) by (nonlinear_arith)
        requires
            rows <= 255,
            columns <= 255,
    ;
    let count: u32 = rows as u32 * columns as u32;
    let mut frames: Vec<Vec<u8>> = Vec::new();
    match blank {
        Ok(png) => {
            let mut index: u32 = 0;
            while index < count
                invariant
                    index <= count,
                    frames@.map_values(|f: Vec<u8>| f@) == Seq::new(
                        index as nat,
                        |i: int| frame_of(icon_payload(i as u32, png_image(2, 2, png@))),
                    ),
                decreases count - index,
            {
                let frame: Vec<u8> = icon_frame(index, image_of(2, 2, png.clone()));
                let ghost before = frames@;
                frames.push(frame);
                proof {
                    assert(frames@.map_values(|f: Vec<u8>| f@) =~= before.map_values(
                        |f: Vec<u8>| f@,
                    ).push(frame@));
                    assert(frames@.map_values(|f: Vec<u8>| f@) =~= Seq::new(
                        (index + 1) as nat,
                        |i: int| frame_of(icon_payload(i as u32, png_image(2, 2, png@))),
                    ));
                }
                index = index + 1;
            }
        },
        Err(_) => {},
    }
    Delivery::Send { connection, frames }
}

} // verus!
