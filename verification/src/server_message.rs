//! What the server sends.
use vstd::prelude::*;

use crate::client_message::Size;
use crate::message::{
    bytes_field, flag_field, message_field, messages_field, number_field, option_message_field,
    option_text, option_text_field, packed_field, put_bytes, put_flag, put_message, put_messages,
    put_number, put_option_message, put_option_text, put_packed, put_text, put_texts, text_field,
    texts_field, Writable,
};
use crate::wire::{lemma_joined, wire_bytes, WireField};

verus! {

impl Writable for Size {
    open spec fn fields(v: Size) -> Seq<WireField> {
        number_field(1, v.width as u64) + number_field(2, v.height as u64)
    }

    fn put(&self, out: &mut Vec<u8>) {
        put_number(out, 1, self.width as u64);
        put_number(out, 2, self.height as u64);
        proof {
            lemma_joined(
                old(out)@,
                number_field(1, self.width as u64),
                number_field(2, self.height as u64),
            );
        }
    }
}

/// A request failed.
#[derive(Debug, PartialEq, Eq)]
pub struct ErrorReply {
    pub request_id: u32,
    pub code: i32,
    pub reason: Option<String>,
}

/// The values of an [`ErrorReply`].
pub struct ErrorReplyView {
    pub request_id: u32,
    pub code: i32,
    pub reason: Option<Seq<char>>,
}

impl View for ErrorReply {
    type V = ErrorReplyView;

    open spec fn view(&self) -> ErrorReplyView {
        ErrorReplyView {
            request_id: self.request_id,
            code: self.code,
            reason: option_text(self.reason),
        }
    }
}

impl Writable for ErrorReply {
    open spec fn fields(v: ErrorReplyView) -> Seq<WireField> {
        number_field(1, v.request_id as u64)
            + number_field(2, v.code as u64)
            + option_text_field(3, v.reason)
    }

    fn put(&self, out: &mut Vec<u8>) {
        put_number(out, 1, self.request_id as u64);
        put_number(out, 2, self.code as u64);
        put_option_text(out, 3, &self.reason);
        proof {
            let start = old(out)@;
            let v = self@;
            let done = number_field(1, v.request_id as u64);
            let next = number_field(2, v.code as u64);
            lemma_joined(start, done, next);
            let done = done + next;
            let next = option_text_field(3, v.reason);
            lemma_joined(start, done, next);
        }
    }
}

/// A request succeeded.
#[derive(Clone, Copy, Debug, PartialEq, Eq)]
pub struct OkReply {
    pub request_id: u32,
}

impl View for OkReply {
    type V = OkReply;

    open spec fn view(&self) -> OkReply {
        *self
    }
}

impl Writable for OkReply {
    open spec fn fields(v: OkReply) -> Seq<WireField> {
        number_field(1, v.request_id as u64)
    }

    fn put(&self, out: &mut Vec<u8>) {
        put_number(out, 1, self.request_id as u64);
    }
}

/// A virtual device by its identifier and its name.
#[derive(Debug, PartialEq, Eq)]
pub struct VirtualDevice {
    pub id: String,
    pub name: String,
}

/// The values of a [`VirtualDevice`].
pub struct VirtualDeviceView {
    pub id: Seq<char>,
    pub name: Seq<char>,
}

impl View for VirtualDevice {
    type V = VirtualDeviceView;

    open spec fn view(&self) -> VirtualDeviceView {
        VirtualDeviceView {
            id: self.id@,
            name: self.name@,
        }
    }
}

impl Writable for VirtualDevice {
    open spec fn fields(v: VirtualDeviceView) -> Seq<WireField> {
        text_field(1, v.id)
            + text_field(2, v.name)
    }

    fn put(&self, out: &mut Vec<u8>) {
        put_text(out, 1, self.id.as_str());
        put_text(out, 2, self.name.as_str());
        proof {
            let start = old(out)@;
            let v = self@;
            let done = text_field(1, v.id);
            let next = text_field(2, v.name);
            lemma_joined(start, done, next);
        }
    }
}

/// The virtual devices that there are.
#[derive(Debug, PartialEq, Eq)]
pub struct VirtualDeviceList {
    pub devices: Vec<VirtualDevice>,
}

/// The values of a [`VirtualDeviceList`].
pub struct VirtualDeviceListView {
    pub devices: Seq<VirtualDeviceView>,
}

impl View for VirtualDeviceList {
    type V = VirtualDeviceListView;

    open spec fn view(&self) -> VirtualDeviceListView {
        VirtualDeviceListView {
            devices: self.devices@.map_values(|m: VirtualDevice| m@),
        }
    }
}

impl Writable for VirtualDeviceList {
    open spec fn fields(v: VirtualDeviceListView) -> Seq<WireField> {
        messages_field::<VirtualDevice>(1, v.devices)
    }

    fn put(&self, out: &mut Vec<u8>) {
        put_messages(out, 1, &self.devices);
    }
}

/// A virtual device is ready.
#[derive(Debug, PartialEq, Eq)]
pub struct VirtualDeviceOpened {
    pub request_id: u32,
    pub device: Option<VirtualDevice>,
}

/// The values of a [`VirtualDeviceOpened`].
pub struct VirtualDeviceOpenedView {
    pub request_id: u32,
    pub device: Option<VirtualDeviceView>,
}

impl View for VirtualDeviceOpened {
    type V = VirtualDeviceOpenedView;

    open spec fn view(&self) -> VirtualDeviceOpenedView {
        VirtualDeviceOpenedView {
            request_id: self.request_id,
            device: match self.device {
                Some(m) => Some(m@),
                None => None,
            },
        }
    }
}

impl Writable for VirtualDeviceOpened {
    open spec fn fields(v: VirtualDeviceOpenedView) -> Seq<WireField> {
        number_field(1, v.request_id as u64)
            + option_message_field::<VirtualDevice>(2, v.device)
    }

    fn put(&self, out: &mut Vec<u8>) {
        put_number(out, 1, self.request_id as u64);
        put_option_message(out, 2, &self.device);
        proof {
            let start = old(out)@;
            let v = self@;
            let done = number_field(1, v.request_id as u64);
            let next = option_message_field::<VirtualDevice>(2, v.device);
            lemma_joined(start, done, next);
        }
    }
}

/// Where the service can be reached.
#[derive(Debug, PartialEq, Eq)]
pub struct ServiceEndpoints {
    pub addresses: Vec<String>,
    pub port: u32,
}

/// The values of a [`ServiceEndpoints`].
pub struct ServiceEndpointsView {
    pub addresses: Seq<Seq<char>>,
    pub port: u32,
}

impl View for ServiceEndpoints {
    type V = ServiceEndpointsView;

    open spec fn view(&self) -> ServiceEndpointsView {
        ServiceEndpointsView {
            addresses: self.addresses@.map_values(|s: String| s@),
            port: self.port,
        }
    }
}

impl Writable for ServiceEndpoints {
    open spec fn fields(v: ServiceEndpointsView) -> Seq<WireField> {
        texts_field(1, v.addresses)
            + number_field(2, v.port as u64)
    }

    fn put(&self, out: &mut Vec<u8>) {
        put_texts(out, 1, &self.addresses);
        put_number(out, 2, self.port as u64);
        proof {
            let start = old(out)@;
            let v = self@;
            let done = texts_field(1, v.addresses);
            let next = number_field(2, v.port as u64);
            lemma_joined(start, done, next);
        }
    }
}

/// The answer to the first message of a connection.
#[derive(Debug, PartialEq, Eq)]
pub struct HelloFromServer {
    pub workstation_id: String,
    pub hostname: String,
    pub version: String,
    pub protocol_version: u32,
    pub public_key: Vec<u8>,
    pub client_needs_authentication: bool,
    pub os_name: Option<String>,
    pub os_version: Option<String>,
    pub endpoints: Option<ServiceEndpoints>,
}

/// The values of a [`HelloFromServer`].
pub struct HelloFromServerView {
    pub workstation_id: Seq<char>,
    pub hostname: Seq<char>,
    pub version: Seq<char>,
    pub protocol_version: u32,
    pub public_key: Seq<u8>,
    pub client_needs_authentication: bool,
    pub os_name: Option<Seq<char>>,
    pub os_version: Option<Seq<char>>,
    pub endpoints: Option<ServiceEndpointsView>,
}

impl View for HelloFromServer {
    type V = HelloFromServerView;

    open spec fn view(&self) -> HelloFromServerView {
        HelloFromServerView {
            workstation_id: self.workstation_id@,
            hostname: self.hostname@,
            version: self.version@,
            protocol_version: self.protocol_version,
            public_key: self.public_key@,
            client_needs_authentication: self.client_needs_authentication,
            os_name: option_text(self.os_name),
            os_version: option_text(self.os_version),
            endpoints: match self.endpoints {
                Some(m) => Some(m@),
                None => None,
            },
        }
    }
}

impl Writable for HelloFromServer {
    open spec fn fields(v: HelloFromServerView) -> Seq<WireField> {
        text_field(1, v.workstation_id)
            + text_field(2, v.hostname)
            + text_field(3, v.version)
            + number_field(4, v.protocol_version as u64)
            + bytes_field(5, v.public_key)
            + flag_field(6, v.client_needs_authentication)
            + option_text_field(7, v.os_name)
            + option_text_field(8, v.os_version)
            + option_message_field::<ServiceEndpoints>(9, v.endpoints)
    }

    fn put(&self, out: &mut Vec<u8>) {
        put_text(out, 1, self.workstation_id.as_str());
        put_text(out, 2, self.hostname.as_str());
        put_text(out, 3, self.version.as_str());
        put_number(out, 4, self.protocol_version as u64);
        put_bytes(out, 5, self.public_key.as_slice());
        put_flag(out, 6, self.client_needs_authentication);
        put_option_text(out, 7, &self.os_name);
        put_option_text(out, 8, &self.os_version);
        put_option_message(out, 9, &self.endpoints);
        proof {
            let start = old(out)@;
            let v = self@;
            let done = text_field(1, v.workstation_id);
            let next = text_field(2, v.hostname);
            lemma_joined(start, done, next);
            let done = done + next;
            let next = text_field(3, v.version);
            lemma_joined(start, done, next);
            let done = done + next;
            let next = number_field(4, v.protocol_version as u64);
            lemma_joined(start, done, next);
            let done = done + next;
            let next = bytes_field(5, v.public_key);
            lemma_joined(start, done, next);
            let done = done + next;
            let next = flag_field(6, v.client_needs_authentication);
            lemma_joined(start, done, next);
            let done = done + next;
            let next = option_text_field(7, v.os_name);
            lemma_joined(start, done, next);
            let done = done + next;
            let next = option_text_field(8, v.os_version);
            lemma_joined(start, done, next);
            let done = done + next;
            let next = option_message_field::<ServiceEndpoints>(9, v.endpoints);
            lemma_joined(start, done, next);
        }
    }
}

/// An encoded picture.
#[derive(Debug, PartialEq, Eq)]
pub struct Image {
    pub format: i32,
    pub image_type: i32,
    pub size: Option<Size>,
    pub row_bytes: u32,
    pub image: Vec<u8>,
}

/// The values of an [`Image`].
pub struct ImageView {
    pub format: i32,
    pub image_type: i32,
    pub size: Option<Size>,
    pub row_bytes: u32,
    pub image: Seq<u8>,
}

impl View for Image {
    type V = ImageView;

    open spec fn view(&self) -> ImageView {
        ImageView {
            format: self.format,
            image_type: self.image_type,
            size: self.size,
            row_bytes: self.row_bytes,
            image: self.image@,
        }
    }
}

impl Writable for Image {
    open spec fn fields(v: ImageView) -> Seq<WireField> {
        number_field(1, v.format as u64)
            + number_field(2, v.image_type as u64)
            + option_message_field::<Size>(3, v.size)
            + number_field(4, v.row_bytes as u64)
            + bytes_field(5, v.image)
    }

    fn put(&self, out: &mut Vec<u8>) {
        put_number(out, 1, self.format as u64);
        put_number(out, 2, self.image_type as u64);
        put_option_message(out, 3, &self.size);
        put_number(out, 4, self.row_bytes as u64);
        put_bytes(out, 5, self.image.as_slice());
        proof {
            let start = old(out)@;
            let v = self@;
            let done = number_field(1, v.format as u64);
            let next = number_field(2, v.image_type as u64);
            lemma_joined(start, done, next);
            let done = done + next;
            let next = option_message_field::<Size>(3, v.size);
            lemma_joined(start, done, next);
            let done = done + next;
            let next = number_field(4, v.row_bytes as u64);
            lemma_joined(start, done, next);
            let done = done + next;
            let next = bytes_field(5, v.image);
            lemma_joined(start, done, next);
        }
    }
}

/// The picture of one key.
#[derive(Debug, PartialEq, Eq)]
pub struct Icon {
    pub index: u32,
    pub image: Option<Image>,
}

/// The values of an [`Icon`].
pub struct IconView {
    pub index: u32,
    pub image: Option<ImageView>,
}

impl View for Icon {
    type V = IconView;

    open spec fn view(&self) -> IconView {
        IconView {
            index: self.index,
            image: match self.image {
                Some(m) => Some(m@),
                None => None,
            },
        }
    }
}

impl Writable for Icon {
    open spec fn fields(v: IconView) -> Seq<WireField> {
        number_field(1, v.index as u64)
            + option_message_field::<Image>(2, v.image)
    }

    fn put(&self, out: &mut Vec<u8>) {
        put_number(out, 1, self.index as u64);
        put_option_message(out, 2, &self.image);
        proof {
            let start = old(out)@;
            let v = self@;
            let done = number_field(1, v.index as u64);
            let next = option_message_field::<Image>(2, v.image);
            lemma_joined(start, done, next);
        }
    }
}

/// What a key stands for.
#[derive(Debug, PartialEq, Eq)]
pub struct Action {
    pub index: u32,
    pub title: String,
    pub name: String,
    pub category: String,
    pub shortcut_id: Option<String>,
}

/// The values of an [`Action`].
pub struct ActionView {
    pub index: u32,
    pub title: Seq<char>,
    pub name: Seq<char>,
    pub category: Seq<char>,
    pub shortcut_id: Option<Seq<char>>,
}

impl View for Action {
    type V = ActionView;

    open spec fn view(&self) -> ActionView {
        ActionView {
            index: self.index,
            title: self.title@,
            name: self.name@,
            category: self.category@,
            shortcut_id: option_text(self.shortcut_id),
        }
    }
}

impl Writable for Action {
    open spec fn fields(v: ActionView) -> Seq<WireField> {
        number_field(1, v.index as u64)
            + text_field(2, v.title)
            + text_field(3, v.name)
            + text_field(4, v.category)
            + option_text_field(5, v.shortcut_id)
    }

    fn put(&self, out: &mut Vec<u8>) {
        put_number(out, 1, self.index as u64);
        put_text(out, 2, self.title.as_str());
        put_text(out, 3, self.name.as_str());
        put_text(out, 4, self.category.as_str());
        put_option_text(out, 5, &self.shortcut_id);
        proof {
            let start = old(out)@;
            let v = self@;
            let done = number_field(1, v.index as u64);
            let next = text_field(2, v.title);
            lemma_joined(start, done, next);
            let done = done + next;
            let next = text_field(3, v.name);
            lemma_joined(start, done, next);
            let done = done + next;
            let next = text_field(4, v.category);
            lemma_joined(start, done, next);
            let done = done + next;
            let next = option_text_field(5, v.shortcut_id);
            lemma_joined(start, done, next);
        }
    }
}

/// The page that the keys show.
#[derive(Debug, PartialEq, Eq)]
pub struct Context {
    pub profile_id: String,
    pub total_pages: u32,
    pub current_page: u32,
    pub actions: Vec<Action>,
}

/// The values of a [`Context`].
pub struct ContextView {
    pub profile_id: Seq<char>,
    pub total_pages: u32,
    pub current_page: u32,
    pub actions: Seq<ActionView>,
}

impl View for Context {
    type V = ContextView;

    open spec fn view(&self) -> ContextView {
        ContextView {
            profile_id: self.profile_id@,
            total_pages: self.total_pages,
            current_page: self.current_page,
            actions: self.actions@.map_values(|m: Action| m@),
        }
    }
}

impl Writable for Context {
    open spec fn fields(v: ContextView) -> Seq<WireField> {
        text_field(1, v.profile_id)
            + number_field(2, v.total_pages as u64)
            + number_field(3, v.current_page as u64)
            + messages_field::<Action>(4, v.actions)
    }

    fn put(&self, out: &mut Vec<u8>) {
        put_text(out, 1, self.profile_id.as_str());
        put_number(out, 2, self.total_pages as u64);
        put_number(out, 3, self.current_page as u64);
        put_messages(out, 4, &self.actions);
        proof {
            let start = old(out)@;
            let v = self@;
            let done = text_field(1, v.profile_id);
            let next = number_field(2, v.total_pages as u64);
            lemma_joined(start, done, next);
            let done = done + next;
            let next = number_field(3, v.current_page as u64);
            lemma_joined(start, done, next);
            let done = done + next;
            let next = messages_field::<Action>(4, v.actions);
            lemma_joined(start, done, next);
        }
    }
}

/// Changes to the page that the keys show.
#[derive(Debug, PartialEq, Eq)]
pub struct ContextUpdate {
    pub profile_id: String,
    pub replace: Vec<Action>,
    pub remove: Vec<u32>,
}

/// The values of a [`ContextUpdate`].
pub struct ContextUpdateView {
    pub profile_id: Seq<char>,
    pub replace: Seq<ActionView>,
    pub remove: Seq<u32>,
}

impl View for ContextUpdate {
    type V = ContextUpdateView;

    open spec fn view(&self) -> ContextUpdateView {
        ContextUpdateView {
            profile_id: self.profile_id@,
            replace: self.replace@.map_values(|m: Action| m@),
            remove: self.remove@,
        }
    }
}

impl Writable for ContextUpdate {
    open spec fn fields(v: ContextUpdateView) -> Seq<WireField> {
        text_field(1, v.profile_id)
            + messages_field::<Action>(2, v.replace)
            + packed_field(3, v.remove)
    }

    fn put(&self, out: &mut Vec<u8>) {
        put_text(out, 1, self.profile_id.as_str());
        put_messages(out, 2, &self.replace);
        put_packed(out, 3, &self.remove);
        proof {
            let start = old(out)@;
            let v = self@;
            let done = text_field(1, v.profile_id);
            let next = messages_field::<Action>(2, v.replace);
            lemma_joined(start, done, next);
            let done = done + next;
            let next = packed_field(3, v.remove);
            lemma_joined(start, done, next);
        }
    }
}

/// What a message of the server is about.
#[derive(Debug, PartialEq, Eq)]
pub enum Payload {
    Error(ErrorReply),
    Success(OkReply),
    Hello(HelloFromServer),
    VirtualDeviceList(VirtualDeviceList),
    VirtualDeviceOpened(VirtualDeviceOpened),
    Context(Context),
    ContextUpdate(ContextUpdate),
    Icon(Icon),
}

/// The values of a [`Payload`].
pub enum PayloadView {
    Error(ErrorReplyView),
    Success(OkReply),
    Hello(HelloFromServerView),
    VirtualDeviceList(VirtualDeviceListView),
    VirtualDeviceOpened(VirtualDeviceOpenedView),
    Context(ContextView),
    ContextUpdate(ContextUpdateView),
    Icon(IconView),
}

impl View for Payload {
    type V = PayloadView;

    open spec fn view(&self) -> PayloadView {
        match self {
            Payload::Error(m) => PayloadView::Error(m@),
            Payload::Success(m) => PayloadView::Success(m@),
            Payload::Hello(m) => PayloadView::Hello(m@),
            Payload::VirtualDeviceList(m) => PayloadView::VirtualDeviceList(m@),
            Payload::VirtualDeviceOpened(m) => PayloadView::VirtualDeviceOpened(m@),
            Payload::Context(m) => PayloadView::Context(m@),
            Payload::ContextUpdate(m) => PayloadView::ContextUpdate(m@),
            Payload::Icon(m) => PayloadView::Icon(m@),
        }
    }
}

/// A message of the server.
#[derive(Debug, PartialEq, Eq)]
pub struct ServerMessage {
    pub payload: Option<Payload>,
}

/// The values of a [`ServerMessage`].
pub struct ServerMessageView {
    pub payload: Option<PayloadView>,
}

impl View for ServerMessage {
    type V = ServerMessageView;

    open spec fn view(&self) -> ServerMessageView {
        ServerMessageView {
            payload: match self.payload {
                Some(p) => Some(p@),
                None => None,
            },
        }
    }
}

impl Writable for ServerMessage {
    open spec fn fields(v: ServerMessageView) -> Seq<WireField> {
        match v.payload {
            None => seq![],
            Some(PayloadView::Error(m)) => message_field::<ErrorReply>(1, m),
            Some(PayloadView::Success(m)) => message_field::<OkReply>(2, m),
            Some(PayloadView::Hello(m)) => message_field::<HelloFromServer>(10, m),
            Some(PayloadView::VirtualDeviceList(m)) => message_field::<VirtualDeviceList>(20, m),
            Some(PayloadView::VirtualDeviceOpened(m)) => message_field::<VirtualDeviceOpened>(21, m),
            Some(PayloadView::Context(m)) => message_field::<Context>(30, m),
            Some(PayloadView::ContextUpdate(m)) => message_field::<ContextUpdate>(31, m),
            Some(PayloadView::Icon(m)) => message_field::<Icon>(40, m),
        }
    }

    fn put(&self, out: &mut Vec<u8>) {
        match &self.payload {
            None => {
                assert(out@ =~= old(out)@ + wire_bytes(Self::fields(self@)));
            },
            Some(Payload::Error(m)) => put_message(out, 1, m),
            Some(Payload::Success(m)) => put_message(out, 2, m),
            Some(Payload::Hello(m)) => put_message(out, 10, m),
            Some(Payload::VirtualDeviceList(m)) => put_message(out, 20, m),
            Some(Payload::VirtualDeviceOpened(m)) => put_message(out, 21, m),
            Some(Payload::Context(m)) => put_message(out, 30, m),
            Some(Payload::ContextUpdate(m)) => put_message(out, 31, m),
            Some(Payload::Icon(m)) => put_message(out, 40, m),
        }
    }
}

/// The frame that carries a message of the server.
pub open spec fn frame_of(payload: PayloadView) -> Seq<u8> {
    wire_bytes(ServerMessage::fields(ServerMessageView { payload: Some(payload) }))
}

impl ServerMessage {
    /// The frame that carries the message.
    pub fn encode_to_vec(&self) -> (frame: Vec<u8>)
        ensures
            frame@ == wire_bytes(Self::fields(self@)),
    {
        let mut frame: Vec<u8> = Vec::new();
        self.put(&mut frame);
        assert(frame@ =~= wire_bytes(Self::fields(self@)));
        frame
    }
}

} // verus!
