//! What the pictures on the keys of a mobile app can be relied on to show.
use vstd::prelude::*;

use crate::base64_text::{
    base64_decoded, base64_fault, base64_round_trip, base64_standard,
};
use crate::client_message::Size;
use crate::images::{
    addressed_file, blank_pixels, bytes_result, clear_step, decoded_file, delivery_result,
    framed_picture, icon_payload, may_be_read, picture_may_read, picture_result, png_encoded,
    png_image, update_step, url_chars, Delivery, DeliveryView,
};
use crate::server_message::{frame_of, IconView, ImageView, PayloadView};
use crate::text::has_prefix;
use crate::text_laws::texts_are_taken_apart_at_the_first_place;

verus! {

/// Whether a frame puts a PNG file on a key, and declares it to be of this size, with four bytes
/// for each pixel of a row.
pub open spec fn shows(frame: Seq<u8>, index: u32, width: u32, height: u32, png: Seq<u8>) -> bool {
    exists|image: ImageView|
        {
            &&& frame == #[trigger] frame_of(
                PayloadView::Icon(IconView { index, image: Some(image) }),
            )
            &&& image.size matches Some(size) && size.width == width && size.height == height
            &&& 4 * width < 0x1_0000_0000 ==> image.row_bytes == 4 * width
            &&& image.row_bytes == (4 * width) % 0x1_0000_0000
            &&& image.format == 5
            &&& image.image_type == 1
            &&& image.image == png
        }
}

/// Whether a device belongs to a mobile app.
pub open spec fn is_mobile(device_id: Seq<char>) -> bool {
    exists|rest: Seq<char>| device_id == #[trigger] ("sdm-"@ + rest)
}

/// Whether pixels are those of a blank picture of two by two: they let everything through.
pub open spec fn is_blank(pixels: Seq<u8>) -> bool {
    pixels.len() == 2 * 2 * 4 && forall|i: int| 0 <= i < pixels.len() ==> pixels[i] == 0
}

proof fn lemma_shows(index: u32, width: u32, height: u32, png: Seq<u8>)
    ensures
        shows(
            frame_of(icon_payload(index, png_image(width, height, png))),
            index,
            width,
            height,
            png,
        ),
{
    let image = png_image(width, height, png);
    assert((width * 4) as u32 == (width * 4) % 0x1_0000_0000) by (bit_vector);
    assert(image.size == Some(Size { width, height }));
    assert(icon_payload(index, image) == PayloadView::Icon(
        IconView { index, image: Some(image) },
    ));
}

proof fn lemma_mobile(device_id: Seq<char>)
    ensures
        is_mobile(device_id) == has_prefix(device_id, "sdm-"@),
{
    let prefix = "sdm-"@;
    if has_prefix(device_id, prefix) {
        assert(device_id =~= prefix + device_id.skip(prefix.len() as int));
    }
    assert forall|rest: Seq<char>| device_id == #[trigger] (prefix + rest) implies
        has_prefix(device_id, prefix) by {
        assert(device_id.subrange(0, prefix.len() as int) =~= prefix);
    }
}

/// A picture is sent with the width and the height that were decoded, whatever they are, on the key
/// that it was meant for; what cannot be decoded or encoded is not sent.
pub proof fn pictures_keep_their_size(
    index: u32,
    width: u32,
    height: u32,
    pixels: Seq<u8>,
    png: Seq<u8>,
    e: Seq<char>,
)
    ensures
        png_encoded(width, height, pixels) == Ok::<Seq<u8>, Seq<char>>(png) ==> (framed_picture(
            index,
            Ok((width, height, pixels)),
        ) matches Ok(frame) && shows(frame, index, width, height, png)),
        png_encoded(width, height, pixels) == Err::<Seq<u8>, Seq<char>>(e) ==> framed_picture(
            index,
            Ok((width, height, pixels)),
        ) == Err::<Seq<u8>, Seq<char>>(e),
        framed_picture(index, Err(e)) == Err::<Seq<u8>, Seq<char>>(e),
{
    lemma_shows(index, width, height, png);
}

/// A new picture for a key of a connected mobile device goes over the connection of that device, as
/// one frame, and puts on that very key what was decoded, in its own size.
pub proof fn new_pictures_reach_their_key(
    clients: Map<Seq<char>, u64>,
    device_id: Seq<char>,
    position: u8,
    url: Seq<char>,
    file: Seq<u8>,
    width: u32,
    height: u32,
    pixels: Seq<u8>,
    png: Seq<u8>,
)
    requires
        is_mobile(device_id),
        clients.contains_key(device_id),
        addressed_file(url) == Some(Ok::<Seq<u8>, Seq<char>>(file)),
        png_encoded(width, height, pixels) == Ok::<Seq<u8>, Seq<char>>(png),
    ensures
        decoded_file(clients, device_id, Some(url)) == Some(file),
        update_step(
            clients,
            device_id,
            position,
            Some(url),
            Ok((width, height, pixels)),
        ) matches Ok(DeliveryView::Send { connection, frames }) && connection == clients[device_id]
            && frames.len() == 1 && shows(frames[0], position as u32, width, height, png),
{
    lemma_mobile(device_id);
    lemma_shows(position as u32, width, height, png);
}

/// A key of a connected mobile device that gets no picture is blanked: the one frame that is sent
/// puts a blank picture of two by two pixels on that very key. No file is decoded for that.
pub proof fn keys_without_a_picture_are_blanked(
    clients: Map<Seq<char>, u64>,
    device_id: Seq<char>,
    position: u8,
    picture: Result<(u32, u32, Seq<u8>), Seq<char>>,
    blank: Seq<u8>,
    png: Seq<u8>,
)
    requires
        is_mobile(device_id),
        clients.contains_key(device_id),
        is_blank(blank),
        png_encoded(2, 2, blank) == Ok::<Seq<u8>, Seq<char>>(png),
    ensures
        decoded_file(clients, device_id, None) is None,
        update_step(clients, device_id, position, None, picture) matches Ok(
            DeliveryView::Send { connection, frames },
        ) && connection == clients[device_id] && frames.len() == 1 && shows(
            frames[0],
            position as u32,
            2,
            2,
            png,
        ),
{
    lemma_mobile(device_id);
    assert(blank =~= blank_pixels());
    lemma_shows(position as u32, 2, 2, png);
}

/// Nothing is sent to a device of another kind, nor to one without a connection, nor for an address
/// that holds no data; and no file is decoded for them. An address or a file that cannot be decoded
/// is reported as it was found.
pub proof fn other_pictures_are_not_sent(
    clients: Map<Seq<char>, u64>,
    device_id: Seq<char>,
    position: u8,
    data_url: Option<Seq<char>>,
    picture: Result<(u32, u32, Seq<u8>), Seq<char>>,
    url: Seq<char>,
    e: Seq<char>,
)
    ensures
        !is_mobile(device_id) ==> update_step(clients, device_id, position, data_url, picture)
            == Ok::<DeliveryView, Seq<char>>(DeliveryView::NotMobile) && decoded_file(
            clients,
            device_id,
            data_url,
        ) is None,
        is_mobile(device_id) && !clients.contains_key(device_id) ==> update_step(
            clients,
            device_id,
            position,
            data_url,
            picture,
        ) == Ok::<DeliveryView, Seq<char>>(DeliveryView::Nothing) && decoded_file(
            clients,
            device_id,
            data_url,
        ) is None,
        is_mobile(device_id) && clients.contains_key(device_id) ==> {
            &&& !url.contains(',') ==> update_step(
                clients,
                device_id,
                position,
                Some(url),
                picture,
            ) == Ok::<DeliveryView, Seq<char>>(DeliveryView::Nothing) && decoded_file(
                clients,
                device_id,
                Some(url),
            ) is None
            &&& addressed_file(url) == Some(Err::<Seq<u8>, Seq<char>>(e)) ==> update_step(
                clients,
                device_id,
                position,
                Some(url),
                picture,
            ) == Err::<DeliveryView, Seq<char>>(e) && decoded_file(clients, device_id, Some(url)) is None
            &&& addressed_file(url) matches Some(Ok(_)) ==> update_step(
                clients,
                device_id,
                position,
                Some(url),
                Err(e),
            ) == Err::<DeliveryView, Seq<char>>(e)
        },
{
    lemma_mobile(device_id);
    if !url.contains(',') {
        addresses_are_read_behind_the_first_comma(url, url, url);
    }
}

/// Only what is in Base64 is decoded, and to the bytes whose text it is; of any other text the fault
/// is reported.
pub proof fn only_base64_is_decoded(text: Seq<char>, bytes: Seq<u8>)
    ensures
        base64_decoded(text) matches Ok(found) ==> text == base64_standard(found),
        base64_decoded(text) matches Err(e) ==> e == base64_fault(text) && text
            != base64_standard(bytes),
        base64_decoded(base64_standard(bytes)) == Ok::<Seq<u8>, Seq<char>>(bytes),
{
    base64_round_trip(bytes);
}

/// A data address holds what its text behind the first comma says in Base64; without a comma it
/// holds nothing.
pub proof fn addresses_are_read_behind_the_first_comma(
    url: Seq<char>,
    scheme: Seq<char>,
    text: Seq<char>,
)
    ensures
        !url.contains(',') ==> addressed_file(url) is None,
        !scheme.contains(',') ==> addressed_file(scheme + seq![','] + text) == Some(
            base64_decoded(text),
        ),
{
    texts_are_taken_apart_at_the_first_place(url, ',', scheme, text);
}

/// Clearing a connected mobile device of any number of rows and columns sends, over the connection
/// of that device, one frame for each of its keys, in order, each of which puts the blank picture on
/// its key. A device whose layout is not known has three rows of five keys.
pub proof fn every_key_is_cleared(
    clients: Map<Seq<char>, u64>,
    device_id: Seq<char>,
    rows: u8,
    columns: u8,
    png: Seq<u8>,
)
    requires
        is_mobile(device_id),
        clients.contains_key(device_id),
    ensures
        clear_step(clients, device_id, Some((rows, columns)), png) matches DeliveryView::Send {
            connection,
            frames,
        } && connection == clients[device_id] && frames.len() == rows * columns && forall|i: int|
            0 <= i < rows * columns ==> shows(#[trigger] frames[i], i as u32, 2, 2, png),
        clear_step(clients, device_id, None, png) == clear_step(
            clients,
            device_id,
            Some((3, 5)),
            png,
        ),
{
    lemma_mobile(device_id);
    assert(0 <= rows * columns <= 255 * 255) by (nonlinear_arith)
        requires
            0 <= rows <= 255,
            0 <= columns <= 255,
    ;
    assert forall|i: int| 0 <= i < rows * columns implies shows(
        #[trigger] clear_step(clients, device_id, Some((rows, columns)), png)->frames[i],
        i as u32,
        2,
        2,
        png,
    ) by {
        lemma_shows(i as u32, 2, 2, png);
    }
}

/// Clearing sends nothing to a device of another kind, nor to one without a connection.
pub proof fn other_devices_are_not_cleared(
    clients: Map<Seq<char>, u64>,
    device_id: Seq<char>,
    layout: Option<(u8, u8)>,
    png: Seq<u8>,
)
    ensures
        !is_mobile(device_id) ==> clear_step(clients, device_id, layout, png)
            == DeliveryView::NotMobile,
        is_mobile(device_id) && !clients.contains_key(device_id) ==> clear_step(
            clients,
            device_id,
            layout,
            png,
        ) == DeliveryView::Nothing,
{
    lemma_mobile(device_id);
}

/// What is put on a key was read out of the very file that the address holds, and is complete: it
/// has four bytes for each of its pixels.
pub proof fn pictures_are_read_out_of_their_file(
    file: Seq<u8>,
    picture: Result<(u32, u32, Seq<u8>), Seq<char>>,
)
    ensures
        may_be_read(Some(file), picture) <==> picture_may_read(file, picture) && (picture matches Ok(
            (width, height, pixels),
        ) ==> pixels.len() == 4 * (width * height)),
        may_be_read(None, picture),
{
    if let Ok((width, height, pixels)) = picture {
        assert(width * height * 4 == 4 * (width * height));
    }
}

/// What is delivered, decoded or refused is what is shown of it.
pub proof fn deliveries_show_what_they_hold(
    delivery: Delivery,
    i: int,
    width: u32,
    height: u32,
    pixels: Vec<u8>,
    e: String,
    url: &str,
)
    ensures
        delivery is NotMobile <==> delivery@ is NotMobile,
        delivery is Nothing <==> delivery@ is Nothing,
        delivery matches Delivery::Send { connection, frames } ==> (
        delivery@ matches DeliveryView::Send { connection: shown, frames: all } && shown
            == connection && all.len() == frames@.len() && (0 <= i < all.len() ==> all[i]
            == frames@[i]@)),
        delivery_result(Ok(delivery)) == Ok::<DeliveryView, Seq<char>>(delivery@),
        delivery_result(Err(e)) == Err::<DeliveryView, Seq<char>>(e@),
        picture_result(Ok((width, height, pixels))) == Ok::<(u32, u32, Seq<u8>), Seq<char>>(
            (width, height, pixels@),
        ),
        picture_result(Err(e)) == Err::<(u32, u32, Seq<u8>), Seq<char>>(e@),
        bytes_result(Ok(pixels)) == Ok::<Seq<u8>, Seq<char>>(pixels@),
        bytes_result(Err(e)) == Err::<Seq<u8>, Seq<char>>(e@),
        url_chars(Some(url)) == Some(url@),
        url_chars(None) is None,
{
}

/// The picture that blanks a key is two by two pixels that let everything through.
pub proof fn blank_pictures_show_nothing()
    ensures
        is_blank(blank_pixels()),
{
}

} // verus!
