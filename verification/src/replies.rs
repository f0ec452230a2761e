//! The messages that the server composes.
use vstd::prelude::*;

use crate::client_message::{KeypadConfig, Size};
use crate::server_message::{
    frame_of, Action, ActionView, Context, ContextView, ErrorReply, ErrorReplyView, OkReply, Payload,
    PayloadView, ServerMessage, ServerMessageView,
};

verus! {

/// The columns of a device whose layout is not known.
pub const DEFAULT_COLS: u8 = 5;

/// The rows of a device whose layout is not known.
pub const DEFAULT_ROWS: u8 = 3;

/// How a picture is encoded.
#[derive(Clone, Copy, Debug, PartialEq, Eq)]
pub enum ImageFormat {
    Lzf,
    Lzfse,
    Lz4,
    Bmp,
    Jpg,
    Png,
    Invalid,
}

/// Whether a picture lets its ground through.
#[derive(Clone, Copy, Debug, PartialEq, Eq)]
pub enum ImageType {
    Opaque,
    Transparent,
}

/// Why a request failed.
#[derive(Clone, Copy, Debug, PartialEq, Eq)]
pub enum ErrorCode {
    DeviceNotFound,
    DeviceNameAlreadyTaken,
    ResourceLimitReached,
    AuthenticationRejected,
    Cancelled,
    InvalidState,
}

impl ImageFormat {
    /// The number that stands for the format.
    pub open spec fn number(self) -> i32 {
        match self {
            ImageFormat::Lzf => 0,
            ImageFormat::Lzfse => 1,
            ImageFormat::Lz4 => 2,
            ImageFormat::Bmp => 3,
            ImageFormat::Jpg => 4,
            ImageFormat::Png => 5,
            ImageFormat::Invalid => 100,
        }
    }

    /// The number that stands for the format.
    pub fn code(self) -> (r: i32)
        ensures
            r == self.number(),
    {
        match self {
            ImageFormat::Lzf => 0,
            ImageFormat::Lzfse => 1,
            ImageFormat::Lz4 => 2,
            ImageFormat::Bmp => 3,
            ImageFormat::Jpg => 4,
            ImageFormat::Png => 5,
            ImageFormat::Invalid => 100,
        }
    }
}

impl ImageType {
    /// The number that stands for the type.
    pub open spec fn number(self) -> i32 {
        match self {
            ImageType::Opaque => 0,
            ImageType::Transparent => 1,
        }
    }

    /// The number that stands for the type.
    pub fn code(self) -> (r: i32)
        ensures
            r == self.number(),
    {
        match self {
            ImageType::Opaque => 0,
            ImageType::Transparent => 1,
        }
    }
}

impl ErrorCode {
    /// The number that stands for the reason.
    pub open spec fn number(self) -> i32 {
        match self {
            ErrorCode::DeviceNotFound => 0,
            ErrorCode::DeviceNameAlreadyTaken => 1,
            ErrorCode::ResourceLimitReached => 2,
            ErrorCode::AuthenticationRejected => 3,
            ErrorCode::Cancelled => 4,
            ErrorCode::InvalidState => 5,
        }
    }

    /// The number that stands for the reason.
    pub fn code(self) -> (r: i32)
        ensures
            r == self.number(),
    {
        match self {
            ErrorCode::DeviceNotFound => 0,
            ErrorCode::DeviceNameAlreadyTaken => 1,
            ErrorCode::ResourceLimitReached => 2,
            ErrorCode::AuthenticationRejected => 3,
            ErrorCode::Cancelled => 4,
            ErrorCode::InvalidState => 5,
        }
    }
}

/// That a request succeeded.
pub open spec fn ok_payload(request_id: u32) -> PayloadView {
    PayloadView::Success(OkReply { request_id })
}

/// That a request failed, and why.
pub open spec fn error_payload(request_id: u32, code: ErrorCode, reason: Seq<char>) -> PayloadView {
    PayloadView::Error(ErrorReplyView { request_id, code: code.number(), reason: Some(reason) })
}

/// Says that a request succeeded.
pub fn ok(request_id: u32) -> (r: ServerMessage)
    ensures
        r@ == (ServerMessageView { payload: Some(ok_payload(request_id)) }),
{
    ServerMessage { payload: Some(Payload::Success(OkReply { request_id })) }
}

/// Says that a request failed, and why.
pub fn error_response(request_id: u32, code: ErrorCode, reason: &str) -> (r: ServerMessage)
    ensures
        r@ == (ServerMessageView { payload: Some(error_payload(request_id, code, reason@)) }),
{
    ServerMessage {
        payload: Some(
            Payload::Error(
                ErrorReply { request_id, code: code.code(), reason: Some(reason.to_owned()) },
            ),
        ),
    }
}

// ---------------------------------------------------------------------------------------------
// Layout
// ---------------------------------------------------------------------------------------------
/// A number of rows or columns, brought into the range from 1 to 255.
pub open spec fn clamped(n: u32) -> u8 {
    if n < 1 {
        1
    } else if n > 255 {
        255
    } else {
        n as u8
    }
}

fn clamp(n: u32) -> (r: u8)
    ensures
        r == clamped(n),
{
    if n < 1 {
        1
    } else if n > 255 {
        255
    } else {
        n as u8
    }
}

/// The rows and columns that a crop of the layout asks for; without one, the default layout.
pub open spec fn layout_of(crop: Option<Size>) -> (u8, u8) {
    match crop {
        Some(size) => (clamped(size.height), clamped(size.width)),
        None => (3, 5),
    }
}

/// The rows and columns that a crop of the layout asks for.
pub fn layout(crop: &Option<Size>) -> (r: (u8, u8))
    ensures
        r == layout_of(*crop),
        1 <= r.0,
        1 <= r.1,
{
    match crop {
        Some(size) => (clamp(size.height), clamp(size.width)),
        None => (DEFAULT_ROWS, DEFAULT_COLS),
    }
}

/// A key that stands for nothing yet.
pub open spec fn blank_action(index: u32) -> ActionView {
    ActionView { index, title: seq![], name: seq![], category: seq![], shortcut_id: None }
}

/// One page with one blank key per place of the layout.
pub open spec fn context_payload(crop: Option<Size>) -> PayloadView {
    let (rows, columns) = layout_of(crop);
    PayloadView::Context(
        ContextView {
            profile_id: "opendeck-mobile-profile"@,
            total_pages: 1,
            current_page: 0,
            actions: Seq::new((rows * columns) as nat, |i: int| blank_action(i as u32)),
        },
    )
}

/// The frame with the page of a keypad.
pub fn send_context(keypad: &KeypadConfig) -> (frame: Vec<u8>)
    ensures
        frame@ == frame_of(context_payload(keypad@.layout_crop)),
{
    let (rows, columns): (u8, u8) = layout(&keypad.layout_crop);
    let mut actions: Vec<Action> = Vec::new();
    assert(rows * columns <= 255 * 255) by (nonlinear_arith)
        requires
            rows <= 255,
            columns <= 255,
    ;
    let count: u32 = rows as u32 * columns as u32;
    let mut index: u32 = 0;
    while index < count
        invariant
            index <= count,
            actions@.map_values(|a: Action| a@) == Seq::new(
                index as nat,
                |i: int| blank_action(i as u32),
            ),
        decreases count - index,
    {
        let action: Action = Action {
            index,
            title: String::new(),
            name: String::new(),
            category: String::new(),
            shortcut_id: None,
        };
        let ghost before = actions@;
        actions.push(action);
        proof {
            assert(actions@.map_values(|a: Action| a@) =~= before.map_values(
                |a: Action| a@,
            ).push(action@));
            assert(actions@.map_values(|a: Action| a@) =~= Seq::new(
                (index + 1) as nat,
                |i: int| blank_action(i as u32),
            ));
        }
        index = index + 1;
    }
    let message: ServerMessage = ServerMessage {
        payload: Some(
            Payload::Context(
                Context {
                    profile_id: "opendeck-mobile-profile".to_owned(),
                    total_pages: 1,
                    current_page: 0,
                    actions,
                },
            ),
        ),
    };
    message.encode_to_vec()
}

/// The page of a keypad has at least one key and at most 255 in each direction, and one blank key
/// for each place, numbered from zero on.
pub proof fn pages_have_one_key_per_place(crop: Option<Size>)
    ensures
        ({
            let (rows, columns) = layout_of(crop);
            &&& 1 <= rows
            &&& 1 <= columns
            &&& context_payload(crop) matches PayloadView::Context(page) && page.actions.len()
                == rows * columns && forall|i: int|
                0 <= i < rows * columns ==> (#[trigger] page.actions[i]).index == i
                    && page.actions[i].shortcut_id is None && page.actions[i].title.len() == 0
        }),
{
    let (rows, columns) = layout_of(crop);
    assert(0 <= rows * columns <= 255 * 255) by (nonlinear_arith)
        requires
            0 <= rows <= 255,
            0 <= columns <= 255,
    ;
}

} // verus!
