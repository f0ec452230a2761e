//! What the mobile app sends.
use vstd::prelude::*;

use crate::message::{
    as_bytes, as_message, as_number, as_numbers, as_text, bytes, merge, merged, message, number,
    option_text, push_numbers, text, Message,
};
use crate::wire::{Field, WireField, NESTING_LIMIT};

verus! {

/// The size of something, in pixels or in keys.
#[derive(Clone, Copy, Debug, PartialEq, Eq)]
pub struct Size {
    pub width: u32,
    pub height: u32,
}

impl View for Size {
    type V = Size;

    open spec fn view(&self) -> Size {
        *self
    }
}

impl Size {
    /// The message without any field.
    pub open spec fn blank() -> Size {
        Size {
            width: 0,
            height: 0,
        }
    }

    /// The message without any field.
    pub fn empty() -> (r: Size)
        ensures
            r@ == Size::blank(),
    {
        Size {
            width: 0,
            height: 0,
        }
    }
}

impl Message for Size {
    open spec fn absorbed(v: Size, f: WireField, budget: nat) -> Option<Size> {
        if f.tag == 1 {
            match as_number(f.value) {
                Some(x) => Some(Size { width: x as u32, ..v }),
                None => None,
            }
        } else if f.tag == 2 {
            match as_number(f.value) {
                Some(x) => Some(Size { height: x as u32, ..v }),
                None => None,
            }
        } else {
            Some(v)
        }
    }

    fn absorb(self, f: &Field, budget: u32) -> (r: Option<Self>) {
        let mut m: Size = self;
        if f.tag == 1 {
            match number(f) {
                Some(x) => {
                    m.width = x as u32;
                },
                None => {
                    return None;
                },
            }
        } else if f.tag == 2 {
            match number(f) {
                Some(x) => {
                    m.height = x as u32;
                },
                None => {
                    return None;
                },
            }
        }
        Some(m)
    }
}

/// What the mobile app says about itself.
#[derive(Debug, PartialEq, Eq)]
pub struct ClientInformation {
    pub name: String,
    pub user_agent: String,
    pub protocol_version: u32,
    pub device_model: Option<String>,
    pub os_name: Option<String>,
    pub os_version: Option<String>,
}

/// The values of a [`ClientInformation`].
pub struct ClientInformationView {
    pub name: Seq<char>,
    pub user_agent: Seq<char>,
    pub protocol_version: u32,
    pub device_model: Option<Seq<char>>,
    pub os_name: Option<Seq<char>>,
    pub os_version: Option<Seq<char>>,
}

impl View for ClientInformation {
    type V = ClientInformationView;

    open spec fn view(&self) -> ClientInformationView {
        ClientInformationView {
            name: self.name@,
            user_agent: self.user_agent@,
            protocol_version: self.protocol_version,
            device_model: option_text(self.device_model),
            os_name: option_text(self.os_name),
            os_version: option_text(self.os_version),
        }
    }
}

impl ClientInformation {
    /// The message without any field.
    pub open spec fn blank() -> ClientInformationView {
        ClientInformationView {
            name: seq![],
            user_agent: seq![],
            protocol_version: 0,
            device_model: None,
            os_name: None,
            os_version: None,
        }
    }

    /// The message without any field.
    pub fn empty() -> (r: ClientInformation)
        ensures
            r@ == ClientInformation::blank(),
    {
        ClientInformation {
            name: String::new(),
            user_agent: String::new(),
            protocol_version: 0,
            device_model: None,
            os_name: None,
            os_version: None,
        }
    }
}

impl Message for ClientInformation {
    open spec fn absorbed(v: ClientInformationView, f: WireField, budget: nat) -> Option<
        ClientInformationView,
    > {
        if f.tag == 1 {
            match as_text(f.value) {
                Some(x) => Some(ClientInformationView { name: x, ..v }),
                None => None,
            }
        } else if f.tag == 2 {
            match as_text(f.value) {
                Some(x) => Some(ClientInformationView { user_agent: x, ..v }),
                None => None,
            }
        } else if f.tag == 3 {
            match as_number(f.value) {
                Some(x) => Some(ClientInformationView { protocol_version: x as u32, ..v }),
                None => None,
            }
        } else if f.tag == 4 {
            match as_text(f.value) {
                Some(x) => Some(ClientInformationView { device_model: Some(x), ..v }),
                None => None,
            }
        } else if f.tag == 5 {
            match as_text(f.value) {
                Some(x) => Some(ClientInformationView { os_name: Some(x), ..v }),
                None => None,
            }
        } else if f.tag == 6 {
            match as_text(f.value) {
                Some(x) => Some(ClientInformationView { os_version: Some(x), ..v }),
                None => None,
            }
        } else {
            Some(v)
        }
    }

    fn absorb(self, f: &Field, budget: u32) -> (r: Option<Self>) {
        let mut m: ClientInformation = self;
        if f.tag == 1 {
            match text(f) {
                Some(x) => {
                    m.name = x;
                },
                None => {
                    return None;
                },
            }
        } else if f.tag == 2 {
            match text(f) {
                Some(x) => {
                    m.user_agent = x;
                },
                None => {
                    return None;
                },
            }
        } else if f.tag == 3 {
            match number(f) {
                Some(x) => {
                    m.protocol_version = x as u32;
                },
                None => {
                    return None;
                },
            }
        } else if f.tag == 4 {
            match text(f) {
                Some(x) => {
                    m.device_model = Some(x);
                },
                None => {
                    return None;
                },
            }
        } else if f.tag == 5 {
            match text(f) {
                Some(x) => {
                    m.os_name = Some(x);
                },
                None => {
                    return None;
                },
            }
        } else if f.tag == 6 {
            match text(f) {
                Some(x) => {
                    m.os_version = Some(x);
                },
                None => {
                    return None;
                },
            }
        }
        Some(m)
    }
}

/// The first message of a connection.
#[derive(Debug, PartialEq, Eq)]
pub struct HelloFromClient {
    pub public_key: Vec<u8>,
    pub client_information: Option<ClientInformation>,
}

/// The values of a [`HelloFromClient`].
pub struct HelloFromClientView {
    pub public_key: Seq<u8>,
    pub client_information: Option<ClientInformationView>,
}

impl View for HelloFromClient {
    type V = HelloFromClientView;

    open spec fn view(&self) -> HelloFromClientView {
        HelloFromClientView {
            public_key: self.public_key@,
            client_information: match self.client_information {
                Some(m) => Some(m@),
                None => None,
            },
        }
    }
}

impl HelloFromClient {
    /// The message without any field.
    pub open spec fn blank() -> HelloFromClientView {
        HelloFromClientView {
            public_key: seq![],
            client_information: None,
        }
    }

    /// The message without any field.
    pub fn empty() -> (r: HelloFromClient)
        ensures
            r@ == HelloFromClient::blank(),
    {
        HelloFromClient {
            public_key: Vec::new(),
            client_information: None,
        }
    }
}

impl Message for HelloFromClient {
    open spec fn absorbed(v: HelloFromClientView, f: WireField, budget: nat) -> Option<
        HelloFromClientView,
    > {
        if f.tag == 1 {
            match as_bytes(f.value) {
                Some(x) => Some(HelloFromClientView { public_key: x, ..v }),
                None => None,
            }
        } else if f.tag == 2 {
            match as_message::<ClientInformation>(
                match v.client_information {
                    Some(m) => m,
                    None => ClientInformation::blank(),
                },
                f.value,
                budget,
            ) {
                Some(x) => Some(HelloFromClientView { client_information: Some(x), ..v }),
                None => None,
            }
        } else {
            Some(v)
        }
    }

    fn absorb(self, f: &Field, budget: u32) -> (r: Option<Self>) {
        let mut m: HelloFromClient = self;
        if f.tag == 1 {
            match bytes(f) {
                Some(x) => {
                    m.public_key = x;
                },
                None => {
                    return None;
                },
            }
        } else if f.tag == 2 {
            let before: ClientInformation = match m.client_information {
                Some(x) => x,
                None => ClientInformation::empty(),
            };
            match message(before, f, budget) {
                Some(x) => {
                    m.client_information = Some(x);
                },
                None => {
                    return None;
                },
            }
        }
        Some(m)
    }
}

/// A request to be paired.
#[derive(Clone, Copy, Debug, PartialEq, Eq)]
pub struct Authenticate {
    pub request_id: u32,
}

impl View for Authenticate {
    type V = Authenticate;

    open spec fn view(&self) -> Authenticate {
        *self
    }
}

impl Authenticate {
    /// The message without any field.
    pub open spec fn blank() -> Authenticate {
        Authenticate {
            request_id: 0,
        }
    }

    /// The message without any field.
    pub fn empty() -> (r: Authenticate)
        ensures
            r@ == Authenticate::blank(),
    {
        Authenticate {
            request_id: 0,
        }
    }
}

impl Message for Authenticate {
    open spec fn absorbed(v: Authenticate, f: WireField, budget: nat) -> Option<Authenticate> {
        if f.tag == 1 {
            match as_number(f.value) {
                Some(x) => Some(Authenticate { request_id: x as u32 }),
                None => None,
            }
        } else {
            Some(v)
        }
    }

    fn absorb(self, f: &Field, budget: u32) -> (r: Option<Self>) {
        let mut m: Authenticate = self;
        if f.tag == 1 {
            match number(f) {
                Some(x) => {
                    m.request_id = x as u32;
                },
                None => {
                    return None;
                },
            }
        }
        Some(m)
    }
}

/// Takes a request to be paired back.
#[derive(Clone, Copy, Debug, PartialEq, Eq)]
pub struct CancelAuthenticate {
    pub request_id: u32,
}

impl View for CancelAuthenticate {
    type V = CancelAuthenticate;

    open spec fn view(&self) -> CancelAuthenticate {
        *self
    }
}

impl CancelAuthenticate {
    /// The message without any field.
    pub open spec fn blank() -> CancelAuthenticate {
        CancelAuthenticate {
            request_id: 0,
        }
    }

    /// The message without any field.
    pub fn empty() -> (r: CancelAuthenticate)
        ensures
            r@ == CancelAuthenticate::blank(),
    {
        CancelAuthenticate {
            request_id: 0,
        }
    }
}

impl Message for CancelAuthenticate {
    open spec fn absorbed(v: CancelAuthenticate, f: WireField, budget: nat) -> Option<
        CancelAuthenticate,
    > {
        if f.tag == 1 {
            match as_number(f.value) {
                Some(x) => Some(CancelAuthenticate { request_id: x as u32 }),
                None => None,
            }
        } else {
            Some(v)
        }
    }

    fn absorb(self, f: &Field, budget: u32) -> (r: Option<Self>) {
        let mut m: CancelAuthenticate = self;
        if f.tag == 1 {
            match number(f) {
                Some(x) => {
                    m.request_id = x as u32;
                },
                None => {
                    return None;
                },
            }
        }
        Some(m)
    }
}

/// How the keys of a virtual device are laid out and drawn.
#[derive(Debug, PartialEq, Eq)]
pub struct KeypadConfig {
    pub supported_icon_image_formats: Vec<i32>,
    pub icon_size: Option<Size>,
    pub pressed_icon_size: Option<Size>,
    pub high_dpi: bool,
    pub overscale: bool,
    pub layout_crop: Option<Size>,
    pub enable_context_api: bool,
}

/// The values of a [`KeypadConfig`].
pub struct KeypadConfigView {
    pub supported_icon_image_formats: Seq<i32>,
    pub icon_size: Option<Size>,
    pub pressed_icon_size: Option<Size>,
    pub high_dpi: bool,
    pub overscale: bool,
    pub layout_crop: Option<Size>,
    pub enable_context_api: bool,
}

impl View for KeypadConfig {
    type V = KeypadConfigView;

    open spec fn view(&self) -> KeypadConfigView {
        KeypadConfigView {
            supported_icon_image_formats: self.supported_icon_image_formats@,
            icon_size: self.icon_size,
            pressed_icon_size: self.pressed_icon_size,
            high_dpi: self.high_dpi,
            overscale: self.overscale,
            layout_crop: self.layout_crop,
            enable_context_api: self.enable_context_api,
        }
    }
}

impl KeypadConfig {
    /// The message without any field.
    pub open spec fn blank() -> KeypadConfigView {
        KeypadConfigView {
            supported_icon_image_formats: seq![],
            icon_size: None,
            pressed_icon_size: None,
            high_dpi: false,
            overscale: false,
            layout_crop: None,
            enable_context_api: false,
        }
    }

    /// The message without any field.
    pub fn empty() -> (r: KeypadConfig)
        ensures
            r@ == KeypadConfig::blank(),
    {
        KeypadConfig {
            supported_icon_image_formats: Vec::new(),
            icon_size: None,
            pressed_icon_size: None,
            high_dpi: false,
            overscale: false,
            layout_crop: None,
            enable_context_api: false,
        }
    }
}

impl Message for KeypadConfig {
    open spec fn absorbed(v: KeypadConfigView, f: WireField, budget: nat) -> Option<
        KeypadConfigView,
    > {
        if f.tag == 1 {
            match as_numbers(f.value) {
                Some(x) => Some(
                    KeypadConfigView {
                        supported_icon_image_formats: v.supported_icon_image_formats + x,
                        ..v
                    },
                ),
                None => None,
            }
        } else if f.tag == 2 {
            match as_message::<Size>(
                match v.icon_size {
                    Some(m) => m,
                    None => Size::blank(),
                },
                f.value,
                budget,
            ) {
                Some(x) => Some(KeypadConfigView { icon_size: Some(x), ..v }),
                None => None,
            }
        } else if f.tag == 3 {
            match as_message::<Size>(
                match v.pressed_icon_size {
                    Some(m) => m,
                    None => Size::blank(),
                },
                f.value,
                budget,
            ) {
                Some(x) => Some(KeypadConfigView { pressed_icon_size: Some(x), ..v }),
                None => None,
            }
        } else if f.tag == 4 {
            match as_number(f.value) {
                Some(x) => Some(KeypadConfigView { high_dpi: x != 0, ..v }),
                None => None,
            }
        } else if f.tag == 5 {
            match as_number(f.value) {
                Some(x) => Some(KeypadConfigView { overscale: x != 0, ..v }),
                None => None,
            }
        } else if f.tag == 6 {
            match as_message::<Size>(
                match v.layout_crop {
                    Some(m) => m,
                    None => Size::blank(),
                },
                f.value,
                budget,
            ) {
                Some(x) => Some(KeypadConfigView { layout_crop: Some(x), ..v }),
                None => None,
            }
        } else if f.tag == 7 {
            match as_number(f.value) {
                Some(x) => Some(KeypadConfigView { enable_context_api: x != 0, ..v }),
                None => None,
            }
        } else {
            Some(v)
        }
    }

    fn absorb(self, f: &Field, budget: u32) -> (r: Option<Self>) {
        let mut m: KeypadConfig = self;
        if f.tag == 1 {
            if !push_numbers(&mut m.supported_icon_image_formats, f) {
                return None;
            }
        } else if f.tag == 2 {
            let before: Size = match m.icon_size {
                Some(x) => x,
                None => Size::empty(),
            };
            match message(before, f, budget) {
                Some(x) => {
                    m.icon_size = Some(x);
                },
                None => {
                    return None;
                },
            }
        } else if f.tag == 3 {
            let before: Size = match m.pressed_icon_size {
                Some(x) => x,
                None => Size::empty(),
            };
            match message(before, f, budget) {
                Some(x) => {
                    m.pressed_icon_size = Some(x);
                },
                None => {
                    return None;
                },
            }
        } else if f.tag == 4 {
            match number(f) {
                Some(x) => {
                    m.high_dpi = x != 0;
                },
                None => {
                    return None;
                },
            }
        } else if f.tag == 5 {
            match number(f) {
                Some(x) => {
                    m.overscale = x != 0;
                },
                None => {
                    return None;
                },
            }
        } else if f.tag == 6 {
            let before: Size = match m.layout_crop {
                Some(x) => x,
                None => Size::empty(),
            };
            match message(before, f, budget) {
                Some(x) => {
                    m.layout_crop = Some(x);
                },
                None => {
                    return None;
                },
            }
        } else if f.tag == 7 {
            match number(f) {
                Some(x) => {
                    m.enable_context_api = x != 0;
                },
                None => {
                    return None;
                },
            }
        }
        Some(m)
    }
}

/// Asks for a new virtual device.
#[derive(Debug, PartialEq, Eq)]
pub struct CreateVirtualDevice {
    pub request_id: u32,
    pub name: String,
    pub keypad_config: Option<KeypadConfig>,
    pub skip_uniqueness_of_name_validation: bool,
}

/// The values of a [`CreateVirtualDevice`].
pub struct CreateVirtualDeviceView {
    pub request_id: u32,
    pub name: Seq<char>,
    pub keypad_config: Option<KeypadConfigView>,
    pub skip_uniqueness_of_name_validation: bool,
}

impl View for CreateVirtualDevice {
    type V = CreateVirtualDeviceView;

    open spec fn view(&self) -> CreateVirtualDeviceView {
        CreateVirtualDeviceView {
            request_id: self.request_id,
            name: self.name@,
            keypad_config: match self.keypad_config {
                Some(m) => Some(m@),
                None => None,
            },
            skip_uniqueness_of_name_validation: self.skip_uniqueness_of_name_validation,
        }
    }
}

impl CreateVirtualDevice {
    /// The message without any field.
    pub open spec fn blank() -> CreateVirtualDeviceView {
        CreateVirtualDeviceView {
            request_id: 0,
            name: seq![],
            keypad_config: None,
            skip_uniqueness_of_name_validation: false,
        }
    }

    /// The message without any field.
    pub fn empty() -> (r: CreateVirtualDevice)
        ensures
            r@ == CreateVirtualDevice::blank(),
    {
        CreateVirtualDevice {
            request_id: 0,
            name: String::new(),
            keypad_config: None,
            skip_uniqueness_of_name_validation: false,
        }
    }
}

impl Message for CreateVirtualDevice {
    open spec fn absorbed(v: CreateVirtualDeviceView, f: WireField, budget: nat) -> Option<
        CreateVirtualDeviceView,
    > {
        if f.tag == 1 {
            match as_number(f.value) {
                Some(x) => Some(CreateVirtualDeviceView { request_id: x as u32, ..v }),
                None => None,
            }
        } else if f.tag == 2 {
            match as_text(f.value) {
                Some(x) => Some(CreateVirtualDeviceView { name: x, ..v }),
                None => None,
            }
        } else if f.tag == 3 {
            match as_message::<KeypadConfig>(
                match v.keypad_config {
                    Some(m) => m,
                    None => KeypadConfig::blank(),
                },
                f.value,
                budget,
            ) {
                Some(x) => Some(CreateVirtualDeviceView { keypad_config: Some(x), ..v }),
                None => None,
            }
        } else if f.tag == 4 {
            match as_number(f.value) {
                Some(x) => Some(
                    CreateVirtualDeviceView { skip_uniqueness_of_name_validation: x != 0, ..v },
                ),
                None => None,
            }
        } else {
            Some(v)
        }
    }

    fn absorb(self, f: &Field, budget: u32) -> (r: Option<Self>) {
        let mut m: CreateVirtualDevice = self;
        if f.tag == 1 {
            match number(f) {
                Some(x) => {
                    m.request_id = x as u32;
                },
                None => {
                    return None;
                },
            }
        } else if f.tag == 2 {
            match text(f) {
                Some(x) => {
                    m.name = x;
                },
                None => {
                    return None;
                },
            }
        } else if f.tag == 3 {
            let before: KeypadConfig = match m.keypad_config {
                Some(x) => x,
                None => KeypadConfig::empty(),
            };
            match message(before, f, budget) {
                Some(x) => {
                    m.keypad_config = Some(x);
                },
                None => {
                    return None;
                },
            }
        } else if f.tag == 4 {
            match number(f) {
                Some(x) => {
                    m.skip_uniqueness_of_name_validation = x != 0;
                },
                None => {
                    return None;
                },
            }
        }
        Some(m)
    }
}

/// Asks for a virtual device that may exist already.
#[derive(Debug, PartialEq, Eq)]
pub struct OpenVirtualDevice {
    pub request_id: u32,
    pub device_id: String,
    pub keypad_config: Option<KeypadConfig>,
}

/// The values of an [`OpenVirtualDevice`].
pub struct OpenVirtualDeviceView {
    pub request_id: u32,
    pub device_id: Seq<char>,
    pub keypad_config: Option<KeypadConfigView>,
}

impl View for OpenVirtualDevice {
    type V = OpenVirtualDeviceView;

    open spec fn view(&self) -> OpenVirtualDeviceView {
        OpenVirtualDeviceView {
            request_id: self.request_id,
            device_id: self.device_id@,
            keypad_config: match self.keypad_config {
                Some(m) => Some(m@),
                None => None,
            },
        }
    }
}

impl OpenVirtualDevice {
    /// The message without any field.
    pub open spec fn blank() -> OpenVirtualDeviceView {
        OpenVirtualDeviceView {
            request_id: 0,
            device_id: seq![],
            keypad_config: None,
        }
    }

    /// The message without any field.
    pub fn empty() -> (r: OpenVirtualDevice)
        ensures
            r@ == OpenVirtualDevice::blank(),
    {
        OpenVirtualDevice {
            request_id: 0,
            device_id: String::new(),
            keypad_config: None,
        }
    }
}

impl Message for OpenVirtualDevice {
    open spec fn absorbed(v: OpenVirtualDeviceView, f: WireField, budget: nat) -> Option<
        OpenVirtualDeviceView,
    > {
        if f.tag == 1 {
            match as_number(f.value) {
                Some(x) => Some(OpenVirtualDeviceView { request_id: x as u32, ..v }),
                None => None,
            }
        } else if f.tag == 2 {
            match as_text(f.value) {
                Some(x) => Some(OpenVirtualDeviceView { device_id: x, ..v }),
                None => None,
            }
        } else if f.tag == 3 {
            match as_message::<KeypadConfig>(
                match v.keypad_config {
                    Some(m) => m,
                    None => KeypadConfig::blank(),
                },
                f.value,
                budget,
            ) {
                Some(x) => Some(OpenVirtualDeviceView { keypad_config: Some(x), ..v }),
                None => None,
            }
        } else {
            Some(v)
        }
    }

    fn absorb(self, f: &Field, budget: u32) -> (r: Option<Self>) {
        let mut m: OpenVirtualDevice = self;
        if f.tag == 1 {
            match number(f) {
                Some(x) => {
                    m.request_id = x as u32;
                },
                None => {
                    return None;
                },
            }
        } else if f.tag == 2 {
            match text(f) {
                Some(x) => {
                    m.device_id = x;
                },
                None => {
                    return None;
                },
            }
        } else if f.tag == 3 {
            let before: KeypadConfig = match m.keypad_config {
                Some(x) => x,
                None => KeypadConfig::empty(),
            };
            match message(before, f, budget) {
                Some(x) => {
                    m.keypad_config = Some(x);
                },
                None => {
                    return None;
                },
            }
        }
        Some(m)
    }
}

/// Gives the connection's virtual device up.
#[derive(Clone, Copy, Debug, PartialEq, Eq)]
pub struct DeleteVirtualDevice {
    pub request_id: u32,
}

impl View for DeleteVirtualDevice {
    type V = DeleteVirtualDevice;

    open spec fn view(&self) -> DeleteVirtualDevice {
        *self
    }
}

impl DeleteVirtualDevice {
    /// The message without any field.
    pub open spec fn blank() -> DeleteVirtualDevice {
        DeleteVirtualDevice {
            request_id: 0,
        }
    }

    /// The message without any field.
    pub fn empty() -> (r: DeleteVirtualDevice)
        ensures
            r@ == DeleteVirtualDevice::blank(),
    {
        DeleteVirtualDevice {
            request_id: 0,
        }
    }
}

impl Message for DeleteVirtualDevice {
    open spec fn absorbed(v: DeleteVirtualDevice, f: WireField, budget: nat) -> Option<
        DeleteVirtualDevice,
    > {
        if f.tag == 1 {
            match as_number(f.value) {
                Some(x) => Some(DeleteVirtualDevice { request_id: x as u32 }),
                None => None,
            }
        } else {
            Some(v)
        }
    }

    fn absorb(self, f: &Field, budget: u32) -> (r: Option<Self>) {
        let mut m: DeleteVirtualDevice = self;
        if f.tag == 1 {
            match number(f) {
                Some(x) => {
                    m.request_id = x as u32;
                },
                None => {
                    return None;
                },
            }
        }
        Some(m)
    }
}

/// A key went down or up.
#[derive(Clone, Copy, Debug, PartialEq, Eq)]
pub struct KeyPress {
    pub index: u32,
    pub pressed: bool,
}

impl View for KeyPress {
    type V = KeyPress;

    open spec fn view(&self) -> KeyPress {
        *self
    }
}

impl KeyPress {
    /// The message without any field.
    pub open spec fn blank() -> KeyPress {
        KeyPress {
            index: 0,
            pressed: false,
        }
    }

    /// The message without any field.
    pub fn empty() -> (r: KeyPress)
        ensures
            r@ == KeyPress::blank(),
    {
        KeyPress {
            index: 0,
            pressed: false,
        }
    }
}

impl Message for KeyPress {
    open spec fn absorbed(v: KeyPress, f: WireField, budget: nat) -> Option<KeyPress> {
        if f.tag == 1 {
            match as_number(f.value) {
                Some(x) => Some(KeyPress { index: x as u32, ..v }),
                None => None,
            }
        } else if f.tag == 2 {
            match as_number(f.value) {
                Some(x) => Some(KeyPress { pressed: x != 0, ..v }),
                None => None,
            }
        } else {
            Some(v)
        }
    }

    fn absorb(self, f: &Field, budget: u32) -> (r: Option<Self>) {
        let mut m: KeyPress = self;
        if f.tag == 1 {
            match number(f) {
                Some(x) => {
                    m.index = x as u32;
                },
                None => {
                    return None;
                },
            }
        } else if f.tag == 2 {
            match number(f) {
                Some(x) => {
                    m.pressed = x != 0;
                },
                None => {
                    return None;
                },
            }
        }
        Some(m)
    }
}

/// Asks for the next page.
#[derive(Clone, Copy, Debug, PartialEq, Eq)]
pub struct NextPage {}

impl View for NextPage {
    type V = NextPage;

    open spec fn view(&self) -> NextPage {
        *self
    }
}

impl NextPage {
    /// The message without any field.
    pub open spec fn blank() -> NextPage {
        NextPage {}
    }

    /// The message without any field.
    pub fn empty() -> (r: NextPage)
        ensures
            r@ == NextPage::blank(),
    {
        NextPage {}
    }
}

impl Message for NextPage {
    open spec fn absorbed(v: NextPage, f: WireField, budget: nat) -> Option<NextPage> {
        Some(v)
    }

    fn absorb(self, f: &Field, budget: u32) -> (r: Option<Self>) {
        Some(self)
    }
}

/// Asks for the previous page.
#[derive(Clone, Copy, Debug, PartialEq, Eq)]
pub struct PreviousPage {}

impl View for PreviousPage {
    type V = PreviousPage;

    open spec fn view(&self) -> PreviousPage {
        *self
    }
}

impl PreviousPage {
    /// The message without any field.
    pub open spec fn blank() -> PreviousPage {
        PreviousPage {}
    }

    /// The message without any field.
    pub fn empty() -> (r: PreviousPage)
        ensures
            r@ == PreviousPage::blank(),
    {
        PreviousPage {}
    }
}

impl Message for PreviousPage {
    open spec fn absorbed(v: PreviousPage, f: WireField, budget: nat) -> Option<PreviousPage> {
        Some(v)
    }

    fn absorb(self, f: &Field, budget: u32) -> (r: Option<Self>) {
        Some(self)
    }
}

/// Asks for a page by its number.
#[derive(Clone, Copy, Debug, PartialEq, Eq)]
pub struct PageByIndex {
    pub index: u32,
}

impl View for PageByIndex {
    type V = PageByIndex;

    open spec fn view(&self) -> PageByIndex {
        *self
    }
}

impl PageByIndex {
    /// The message without any field.
    pub open spec fn blank() -> PageByIndex {
        PageByIndex {
            index: 0,
        }
    }

    /// The message without any field.
    pub fn empty() -> (r: PageByIndex)
        ensures
            r@ == PageByIndex::blank(),
    {
        PageByIndex {
            index: 0,
        }
    }
}

impl Message for PageByIndex {
    open spec fn absorbed(v: PageByIndex, f: WireField, budget: nat) -> Option<PageByIndex> {
        if f.tag == 1 {
            match as_number(f.value) {
                Some(x) => Some(PageByIndex { index: x as u32 }),
                None => None,
            }
        } else {
            Some(v)
        }
    }

    fn absorb(self, f: &Field, budget: u32) -> (r: Option<Self>) {
        let mut m: PageByIndex = self;
        if f.tag == 1 {
            match number(f) {
                Some(x) => {
                    m.index = x as u32;
                },
                None => {
                    return None;
                },
            }
        }
        Some(m)
    }
}

/// Changes parts of the keypad's configuration.
#[derive(Clone, Copy, Debug, PartialEq, Eq)]
pub struct UpdateKeypadConfig {
    pub icon_size: Option<Size>,
    pub pressed_icon_size: Option<Size>,
    pub high_dpi: Option<bool>,
    pub layout_crop: Option<Size>,
}

impl View for UpdateKeypadConfig {
    type V = UpdateKeypadConfig;

    open spec fn view(&self) -> UpdateKeypadConfig {
        *self
    }
}

impl UpdateKeypadConfig {
    /// The message without any field.
    pub open spec fn blank() -> UpdateKeypadConfig {
        UpdateKeypadConfig {
            icon_size: None,
            pressed_icon_size: None,
            high_dpi: None,
            layout_crop: None,
        }
    }

    /// The message without any field.
    pub fn empty() -> (r: UpdateKeypadConfig)
        ensures
            r@ == UpdateKeypadConfig::blank(),
    {
        UpdateKeypadConfig {
            icon_size: None,
            pressed_icon_size: None,
            high_dpi: None,
            layout_crop: None,
        }
    }
}

impl Message for UpdateKeypadConfig {
    open spec fn absorbed(v: UpdateKeypadConfig, f: WireField, budget: nat) -> Option<
        UpdateKeypadConfig,
    > {
        if f.tag == 1 {
            match as_message::<Size>(
                match v.icon_size {
                    Some(m) => m,
                    None => Size::blank(),
                },
                f.value,
                budget,
            ) {
                Some(x) => Some(UpdateKeypadConfig { icon_size: Some(x), ..v }),
                None => None,
            }
        } else if f.tag == 2 {
            match as_message::<Size>(
                match v.pressed_icon_size {
                    Some(m) => m,
                    None => Size::blank(),
                },
                f.value,
                budget,
            ) {
                Some(x) => Some(UpdateKeypadConfig { pressed_icon_size: Some(x), ..v }),
                None => None,
            }
        } else if f.tag == 3 {
            match as_number(f.value) {
                Some(x) => Some(UpdateKeypadConfig { high_dpi: Some(x != 0), ..v }),
                None => None,
            }
        } else if f.tag == 4 {
            match as_message::<Size>(
                match v.layout_crop {
                    Some(m) => m,
                    None => Size::blank(),
                },
                f.value,
                budget,
            ) {
                Some(x) => Some(UpdateKeypadConfig { layout_crop: Some(x), ..v }),
                None => None,
            }
        } else {
            Some(v)
        }
    }

    fn absorb(self, f: &Field, budget: u32) -> (r: Option<Self>) {
        let mut m: UpdateKeypadConfig = self;
        if f.tag == 1 {
            let before: Size = match m.icon_size {
                Some(x) => x,
                None => Size::empty(),
            };
            match message(before, f, budget) {
                Some(x) => {
                    m.icon_size = Some(x);
                },
                None => {
                    return None;
                },
            }
        } else if f.tag == 2 {
            let before: Size = match m.pressed_icon_size {
                Some(x) => x,
                None => Size::empty(),
            };
            match message(before, f, budget) {
                Some(x) => {
                    m.pressed_icon_size = Some(x);
                },
                None => {
                    return None;
                },
            }
        } else if f.tag == 3 {
            match number(f) {
                Some(x) => {
                    m.high_dpi = Some(x != 0);
                },
                None => {
                    return None;
                },
            }
        } else if f.tag == 4 {
            let before: Size = match m.layout_crop {
                Some(x) => x,
                None => Size::empty(),
            };
            match message(before, f, budget) {
                Some(x) => {
                    m.layout_crop = Some(x);
                },
                None => {
                    return None;
                },
            }
        }
        Some(m)
    }
}

/// Puts a shortcut on a key.
#[derive(Debug, PartialEq, Eq)]
pub struct AssignShortcut {
    pub profile_id: String,
    pub shortcut_id: String,
    pub index: u32,
}

/// The values of an [`AssignShortcut`].
pub struct AssignShortcutView {
    pub profile_id: Seq<char>,
    pub shortcut_id: Seq<char>,
    pub index: u32,
}

impl View for AssignShortcut {
    type V = AssignShortcutView;

    open spec fn view(&self) -> AssignShortcutView {
        AssignShortcutView {
            profile_id: self.profile_id@,
            shortcut_id: self.shortcut_id@,
            index: self.index,
        }
    }
}

impl AssignShortcut {
    /// The message without any field.
    pub open spec fn blank() -> AssignShortcutView {
        AssignShortcutView {
            profile_id: seq![],
            shortcut_id: seq![],
            index: 0,
        }
    }

    /// The message without any field.
    pub fn empty() -> (r: AssignShortcut)
        ensures
            r@ == AssignShortcut::blank(),
    {
        AssignShortcut {
            profile_id: String::new(),
            shortcut_id: String::new(),
            index: 0,
        }
    }
}

impl Message for AssignShortcut {
    open spec fn absorbed(v: AssignShortcutView, f: WireField, budget: nat) -> Option<
        AssignShortcutView,
    > {
        if f.tag == 1 {
            match as_text(f.value) {
                Some(x) => Some(AssignShortcutView { profile_id: x, ..v }),
                None => None,
            }
        } else if f.tag == 2 {
            match as_text(f.value) {
                Some(x) => Some(AssignShortcutView { shortcut_id: x, ..v }),
                None => None,
            }
        } else if f.tag == 3 {
            match as_number(f.value) {
                Some(x) => Some(AssignShortcutView { index: x as u32, ..v }),
                None => None,
            }
        } else {
            Some(v)
        }
    }

    fn absorb(self, f: &Field, budget: u32) -> (r: Option<Self>) {
        let mut m: AssignShortcut = self;
        if f.tag == 1 {
            match text(f) {
                Some(x) => {
                    m.profile_id = x;
                },
                None => {
                    return None;
                },
            }
        } else if f.tag == 2 {
            match text(f) {
                Some(x) => {
                    m.shortcut_id = x;
                },
                None => {
                    return None;
                },
            }
        } else if f.tag == 3 {
            match number(f) {
                Some(x) => {
                    m.index = x as u32;
                },
                None => {
                    return None;
                },
            }
        }
        Some(m)
    }
}

/// Removes a shortcut.
#[derive(Debug, PartialEq, Eq)]
pub struct RemoveShortcut {
    pub request_id: u32,
    pub shortcut_id: String,
}

/// The values of a [`RemoveShortcut`].
pub struct RemoveShortcutView {
    pub request_id: u32,
    pub shortcut_id: Seq<char>,
}

impl View for RemoveShortcut {
    type V = RemoveShortcutView;

    open spec fn view(&self) -> RemoveShortcutView {
        RemoveShortcutView {
            request_id: self.request_id,
            shortcut_id: self.shortcut_id@,
        }
    }
}

impl RemoveShortcut {
    /// The message without any field.
    pub open spec fn blank() -> RemoveShortcutView {
        RemoveShortcutView {
            request_id: 0,
            shortcut_id: seq![],
        }
    }

    /// The message without any field.
    pub fn empty() -> (r: RemoveShortcut)
        ensures
            r@ == RemoveShortcut::blank(),
    {
        RemoveShortcut {
            request_id: 0,
            shortcut_id: String::new(),
        }
    }
}

impl Message for RemoveShortcut {
    open spec fn absorbed(v: RemoveShortcutView, f: WireField, budget: nat) -> Option<
        RemoveShortcutView,
    > {
        if f.tag == 1 {
            match as_number(f.value) {
                Some(x) => Some(RemoveShortcutView { request_id: x as u32, ..v }),
                None => None,
            }
        } else if f.tag == 2 {
            match as_text(f.value) {
                Some(x) => Some(RemoveShortcutView { shortcut_id: x, ..v }),
                None => None,
            }
        } else {
            Some(v)
        }
    }

    fn absorb(self, f: &Field, budget: u32) -> (r: Option<Self>) {
        let mut m: RemoveShortcut = self;
        if f.tag == 1 {
            match number(f) {
                Some(x) => {
                    m.request_id = x as u32;
                },
                None => {
                    return None;
                },
            }
        } else if f.tag == 2 {
            match text(f) {
                Some(x) => {
                    m.shortcut_id = x;
                },
                None => {
                    return None;
                },
            }
        }
        Some(m)
    }
}

/// Runs a shortcut.
#[derive(Debug, PartialEq, Eq)]
pub struct TriggerShortcut {
    pub device_id: String,
    pub shortcut_id: String,
}

/// The values of a [`TriggerShortcut`].
pub struct TriggerShortcutView {
    pub device_id: Seq<char>,
    pub shortcut_id: Seq<char>,
}

impl View for TriggerShortcut {
    type V = TriggerShortcutView;

    open spec fn view(&self) -> TriggerShortcutView {
        TriggerShortcutView {
            device_id: self.device_id@,
            shortcut_id: self.shortcut_id@,
        }
    }
}

impl TriggerShortcut {
    /// The message without any field.
    pub open spec fn blank() -> TriggerShortcutView {
        TriggerShortcutView {
            device_id: seq![],
            shortcut_id: seq![],
        }
    }

    /// The message without any field.
    pub fn empty() -> (r: TriggerShortcut)
        ensures
            r@ == TriggerShortcut::blank(),
    {
        TriggerShortcut {
            device_id: String::new(),
            shortcut_id: String::new(),
        }
    }
}

impl Message for TriggerShortcut {
    open spec fn absorbed(v: TriggerShortcutView, f: WireField, budget: nat) -> Option<
        TriggerShortcutView,
    > {
        if f.tag == 1 {
            match as_text(f.value) {
                Some(x) => Some(TriggerShortcutView { device_id: x, ..v }),
                None => None,
            }
        } else if f.tag == 2 {
            match as_text(f.value) {
                Some(x) => Some(TriggerShortcutView { shortcut_id: x, ..v }),
                None => None,
            }
        } else {
            Some(v)
        }
    }

    fn absorb(self, f: &Field, budget: u32) -> (r: Option<Self>) {
        let mut m: TriggerShortcut = self;
        if f.tag == 1 {
            match text(f) {
                Some(x) => {
                    m.device_id = x;
                },
                None => {
                    return None;
                },
            }
        } else if f.tag == 2 {
            match text(f) {
                Some(x) => {
                    m.shortcut_id = x;
                },
                None => {
                    return None;
                },
            }
        }
        Some(m)
    }
}

/// What the user of the mobile app may do.
#[derive(Clone, Copy, Debug, PartialEq, Eq)]
pub struct ClientCapabilities {
    pub is_user_pro: bool,
}

impl View for ClientCapabilities {
    type V = ClientCapabilities;

    open spec fn view(&self) -> ClientCapabilities {
        *self
    }
}

impl ClientCapabilities {
    /// The message without any field.
    pub open spec fn blank() -> ClientCapabilities {
        ClientCapabilities {
            is_user_pro: false,
        }
    }

    /// The message without any field.
    pub fn empty() -> (r: ClientCapabilities)
        ensures
            r@ == ClientCapabilities::blank(),
    {
        ClientCapabilities {
            is_user_pro: false,
        }
    }
}

impl Message for ClientCapabilities {
    open spec fn absorbed(v: ClientCapabilities, f: WireField, budget: nat) -> Option<
        ClientCapabilities,
    > {
        if f.tag == 1 {
            match as_number(f.value) {
                Some(x) => Some(ClientCapabilities { is_user_pro: x != 0 }),
                None => None,
            }
        } else {
            Some(v)
        }
    }

    fn absorb(self, f: &Field, budget: u32) -> (r: Option<Self>) {
        let mut m: ClientCapabilities = self;
        if f.tag == 1 {
            match number(f) {
                Some(x) => {
                    m.is_user_pro = x != 0;
                },
                None => {
                    return None;
                },
            }
        }
        Some(m)
    }
}

/// What a message of the mobile app is about.
#[derive(Debug, PartialEq, Eq)]
pub enum Payload {
    Hello(HelloFromClient),
    Authenticate(Authenticate),
    CancelAuthenticate(CancelAuthenticate),
    CreateVirtualDevice(CreateVirtualDevice),
    OpenVirtualDevice(OpenVirtualDevice),
    DeleteVirtualDevice(DeleteVirtualDevice),
    KeyPress(KeyPress),
    NextPage(NextPage),
    PreviousPage(PreviousPage),
    PageByIndex(PageByIndex),
    UpdateKeypadConfig(UpdateKeypadConfig),
    AssignShortcut(AssignShortcut),
    RemoveShortcut(RemoveShortcut),
    TriggerShortcut(TriggerShortcut),
    ClientCapabilities(ClientCapabilities),
}

/// The values of a [`Payload`].
pub enum PayloadView {
    Hello(HelloFromClientView),
    Authenticate(Authenticate),
    CancelAuthenticate(CancelAuthenticate),
    CreateVirtualDevice(CreateVirtualDeviceView),
    OpenVirtualDevice(OpenVirtualDeviceView),
    DeleteVirtualDevice(DeleteVirtualDevice),
    KeyPress(KeyPress),
    NextPage(NextPage),
    PreviousPage(PreviousPage),
    PageByIndex(PageByIndex),
    UpdateKeypadConfig(UpdateKeypadConfig),
    AssignShortcut(AssignShortcutView),
    RemoveShortcut(RemoveShortcutView),
    TriggerShortcut(TriggerShortcutView),
    ClientCapabilities(ClientCapabilities),
}

impl View for Payload {
    type V = PayloadView;

    open spec fn view(&self) -> PayloadView {
        match self {
            Payload::Hello(m) => PayloadView::Hello(m@),
            Payload::Authenticate(m) => PayloadView::Authenticate(m@),
            Payload::CancelAuthenticate(m) => PayloadView::CancelAuthenticate(m@),
            Payload::CreateVirtualDevice(m) => PayloadView::CreateVirtualDevice(m@),
            Payload::OpenVirtualDevice(m) => PayloadView::OpenVirtualDevice(m@),
            Payload::DeleteVirtualDevice(m) => PayloadView::DeleteVirtualDevice(m@),
            Payload::KeyPress(m) => PayloadView::KeyPress(m@),
            Payload::NextPage(m) => PayloadView::NextPage(m@),
            Payload::PreviousPage(m) => PayloadView::PreviousPage(m@),
            Payload::PageByIndex(m) => PayloadView::PageByIndex(m@),
            Payload::UpdateKeypadConfig(m) => PayloadView::UpdateKeypadConfig(m@),
            Payload::AssignShortcut(m) => PayloadView::AssignShortcut(m@),
            Payload::RemoveShortcut(m) => PayloadView::RemoveShortcut(m@),
            Payload::TriggerShortcut(m) => PayloadView::TriggerShortcut(m@),
            Payload::ClientCapabilities(m) => PayloadView::ClientCapabilities(m@),
        }
    }
}

/// A message of the mobile app.
#[derive(Debug, PartialEq, Eq)]
pub struct ClientMessage {
    pub payload: Option<Payload>,
}

/// The values of a [`ClientMessage`].
pub struct ClientMessageView {
    pub payload: Option<PayloadView>,
}

impl View for ClientMessage {
    type V = ClientMessageView;

    open spec fn view(&self) -> ClientMessageView {
        ClientMessageView {
            payload: match self.payload {
                Some(p) => Some(p@),
                None => None,
            },
        }
    }
}

/// Of several payloads in one message the last counts; one of the same kind as the one before it
/// is taken in on top of that.
impl Message for ClientMessage {
    open spec fn absorbed(v: ClientMessageView, f: WireField, budget: nat) -> Option<
        ClientMessageView,
    > {
        if f.tag == 1 {
            let before = match v.payload {
                Some(PayloadView::Hello(m)) => m,
                _ => HelloFromClient::blank(),
            };
            match as_message::<HelloFromClient>(before, f.value, budget) {
                Some(x) => Some(ClientMessageView { payload: Some(PayloadView::Hello(x)) }),
                None => None,
            }
        } else if f.tag == 2 {
            let before = match v.payload {
                Some(PayloadView::Authenticate(m)) => m,
                _ => Authenticate::blank(),
            };
            match as_message::<Authenticate>(before, f.value, budget) {
                Some(x) => Some(ClientMessageView { payload: Some(PayloadView::Authenticate(x)) }),
                None => None,
            }
        } else if f.tag == 3 {
            let before = match v.payload {
                Some(PayloadView::CancelAuthenticate(m)) => m,
                _ => CancelAuthenticate::blank(),
            };
            match as_message::<CancelAuthenticate>(before, f.value, budget) {
                Some(x) => Some(ClientMessageView { payload: Some(PayloadView::CancelAuthenticate(x)) }),
                None => None,
            }
        } else if f.tag == 10 {
            let before = match v.payload {
                Some(PayloadView::CreateVirtualDevice(m)) => m,
                _ => CreateVirtualDevice::blank(),
            };
            match as_message::<CreateVirtualDevice>(before, f.value, budget) {
                Some(x) => Some(ClientMessageView { payload: Some(PayloadView::CreateVirtualDevice(x)) }),
                None => None,
            }
        } else if f.tag == 11 {
            let before = match v.payload {
                Some(PayloadView::OpenVirtualDevice(m)) => m,
                _ => OpenVirtualDevice::blank(),
            };
            match as_message::<OpenVirtualDevice>(before, f.value, budget) {
                Some(x) => Some(ClientMessageView { payload: Some(PayloadView::OpenVirtualDevice(x)) }),
                None => None,
            }
        } else if f.tag == 12 {
            let before = match v.payload {
                Some(PayloadView::DeleteVirtualDevice(m)) => m,
                _ => DeleteVirtualDevice::blank(),
            };
            match as_message::<DeleteVirtualDevice>(before, f.value, budget) {
                Some(x) => Some(ClientMessageView { payload: Some(PayloadView::DeleteVirtualDevice(x)) }),
                None => None,
            }
        } else if f.tag == 20 {
            let before = match v.payload {
                Some(PayloadView::KeyPress(m)) => m,
                _ => KeyPress::blank(),
            };
            match as_message::<KeyPress>(before, f.value, budget) {
                Some(x) => Some(ClientMessageView { payload: Some(PayloadView::KeyPress(x)) }),
                None => None,
            }
        } else if f.tag == 21 {
            let before = match v.payload {
                Some(PayloadView::NextPage(m)) => m,
                _ => NextPage::blank(),
            };
            match as_message::<NextPage>(before, f.value, budget) {
                Some(x) => Some(ClientMessageView { payload: Some(PayloadView::NextPage(x)) }),
                None => None,
            }
        } else if f.tag == 22 {
            let before = match v.payload {
                Some(PayloadView::PreviousPage(m)) => m,
                _ => PreviousPage::blank(),
            };
            match as_message::<PreviousPage>(before, f.value, budget) {
                Some(x) => Some(ClientMessageView { payload: Some(PayloadView::PreviousPage(x)) }),
                None => None,
            }
        } else if f.tag == 23 {
            let before = match v.payload {
                Some(PayloadView::PageByIndex(m)) => m,
                _ => PageByIndex::blank(),
            };
            match as_message::<PageByIndex>(before, f.value, budget) {
                Some(x) => Some(ClientMessageView { payload: Some(PayloadView::PageByIndex(x)) }),
                None => None,
            }
        } else if f.tag == 30 {
            let before = match v.payload {
                Some(PayloadView::UpdateKeypadConfig(m)) => m,
                _ => UpdateKeypadConfig::blank(),
            };
            match as_message::<UpdateKeypadConfig>(before, f.value, budget) {
                Some(x) => Some(ClientMessageView { payload: Some(PayloadView::UpdateKeypadConfig(x)) }),
                None => None,
            }
        } else if f.tag == 31 {
            let before = match v.payload {
                Some(PayloadView::AssignShortcut(m)) => m,
                _ => AssignShortcut::blank(),
            };
            match as_message::<AssignShortcut>(before, f.value, budget) {
                Some(x) => Some(ClientMessageView { payload: Some(PayloadView::AssignShortcut(x)) }),
                None => None,
            }
        } else if f.tag == 32 {
            let before = match v.payload {
                Some(PayloadView::RemoveShortcut(m)) => m,
                _ => RemoveShortcut::blank(),
            };
            match as_message::<RemoveShortcut>(before, f.value, budget) {
                Some(x) => Some(ClientMessageView { payload: Some(PayloadView::RemoveShortcut(x)) }),
                None => None,
            }
        } else if f.tag == 33 {
            let before = match v.payload {
                Some(PayloadView::TriggerShortcut(m)) => m,
                _ => TriggerShortcut::blank(),
            };
            match as_message::<TriggerShortcut>(before, f.value, budget) {
                Some(x) => Some(ClientMessageView { payload: Some(PayloadView::TriggerShortcut(x)) }),
                None => None,
            }
        } else if f.tag == 100 {
            let before = match v.payload {
                Some(PayloadView::ClientCapabilities(m)) => m,
                _ => ClientCapabilities::blank(),
            };
            match as_message::<ClientCapabilities>(before, f.value, budget) {
                Some(x) => Some(ClientMessageView { payload: Some(PayloadView::ClientCapabilities(x)) }),
                None => None,
            }
        } else {
            Some(v)
        }
    }

    fn absorb(self, f: &Field, budget: u32) -> (r: Option<Self>) {
        let payload: Option<Payload> = if f.tag == 1 {
            let before: HelloFromClient = match self.payload {
                Some(Payload::Hello(m)) => m,
                _ => HelloFromClient::empty(),
            };
            match message(before, f, budget) {
                Some(x) => Some(Payload::Hello(x)),
                None => {
                    return None;
                },
            }
        } else if f.tag == 2 {
            let before: Authenticate = match self.payload {
                Some(Payload::Authenticate(m)) => m,
                _ => Authenticate::empty(),
            };
            match message(before, f, budget) {
                Some(x) => Some(Payload::Authenticate(x)),
                None => {
                    return None;
                },
            }
        } else if f.tag == 3 {
            let before: CancelAuthenticate = match self.payload {
                Some(Payload::CancelAuthenticate(m)) => m,
                _ => CancelAuthenticate::empty(),
            };
            match message(before, f, budget) {
                Some(x) => Some(Payload::CancelAuthenticate(x)),
                None => {
                    return None;
                },
            }
        } else if f.tag == 10 {
            let before: CreateVirtualDevice = match self.payload {
                Some(Payload::CreateVirtualDevice(m)) => m,
                _ => CreateVirtualDevice::empty(),
            };
            match message(before, f, budget) {
                Some(x) => Some(Payload::CreateVirtualDevice(x)),
                None => {
                    return None;
                },
            }
        } else if f.tag == 11 {
            let before: OpenVirtualDevice = match self.payload {
                Some(Payload::OpenVirtualDevice(m)) => m,
                _ => OpenVirtualDevice::empty(),
            };
            match message(before, f, budget) {
                Some(x) => Some(Payload::OpenVirtualDevice(x)),
                None => {
                    return None;
                },
            }
        } else if f.tag == 12 {
            let before: DeleteVirtualDevice = match self.payload {
                Some(Payload::DeleteVirtualDevice(m)) => m,
                _ => DeleteVirtualDevice::empty(),
            };
            match message(before, f, budget) {
                Some(x) => Some(Payload::DeleteVirtualDevice(x)),
                None => {
                    return None;
                },
            }
        } else if f.tag == 20 {
            let before: KeyPress = match self.payload {
                Some(Payload::KeyPress(m)) => m,
                _ => KeyPress::empty(),
            };
            match message(before, f, budget) {
                Some(x) => Some(Payload::KeyPress(x)),
                None => {
                    return None;
                },
            }
        } else if f.tag == 21 {
            let before: NextPage = match self.payload {
                Some(Payload::NextPage(m)) => m,
                _ => NextPage::empty(),
            };
            match message(before, f, budget) {
                Some(x) => Some(Payload::NextPage(x)),
                None => {
                    return None;
                },
            }
        } else if f.tag == 22 {
            let before: PreviousPage = match self.payload {
                Some(Payload::PreviousPage(m)) => m,
                _ => PreviousPage::empty(),
            };
            match message(before, f, budget) {
                Some(x) => Some(Payload::PreviousPage(x)),
                None => {
                    return None;
                },
            }
        } else if f.tag == 23 {
            let before: PageByIndex = match self.payload {
                Some(Payload::PageByIndex(m)) => m,
                _ => PageByIndex::empty(),
            };
            match message(before, f, budget) {
                Some(x) => Some(Payload::PageByIndex(x)),
                None => {
                    return None;
                },
            }
        } else if f.tag == 30 {
            let before: UpdateKeypadConfig = match self.payload {
                Some(Payload::UpdateKeypadConfig(m)) => m,
                _ => UpdateKeypadConfig::empty(),
            };
            match message(before, f, budget) {
                Some(x) => Some(Payload::UpdateKeypadConfig(x)),
                None => {
                    return None;
                },
            }
        } else if f.tag == 31 {
            let before: AssignShortcut = match self.payload {
                Some(Payload::AssignShortcut(m)) => m,
                _ => AssignShortcut::empty(),
            };
            match message(before, f, budget) {
                Some(x) => Some(Payload::AssignShortcut(x)),
                None => {
                    return None;
                },
            }
        } else if f.tag == 32 {
            let before: RemoveShortcut = match self.payload {
                Some(Payload::RemoveShortcut(m)) => m,
                _ => RemoveShortcut::empty(),
            };
            match message(before, f, budget) {
                Some(x) => Some(Payload::RemoveShortcut(x)),
                None => {
                    return None;
                },
            }
        } else if f.tag == 33 {
            let before: TriggerShortcut = match self.payload {
                Some(Payload::TriggerShortcut(m)) => m,
                _ => TriggerShortcut::empty(),
            };
            match message(before, f, budget) {
                Some(x) => Some(Payload::TriggerShortcut(x)),
                None => {
                    return None;
                },
            }
        } else if f.tag == 100 {
            let before: ClientCapabilities = match self.payload {
                Some(Payload::ClientCapabilities(m)) => m,
                _ => ClientCapabilities::empty(),
            };
            match message(before, f, budget) {
                Some(x) => Some(Payload::ClientCapabilities(x)),
                None => {
                    return None;
                },
            }
        } else {
            self.payload
        };
        Some(ClientMessage { payload })
    }
}

impl ClientMessage {
    /// What a frame says; nothing if it is no message.
    pub open spec fn decoded(frame: Seq<u8>) -> Option<ClientMessageView> {
        merged::<ClientMessage>(ClientMessageView { payload: None }, frame, NESTING_LIMIT as nat)
    }

    /// Reads a frame.
    pub fn decode(frame: &[u8]) -> (r: Option<ClientMessage>)
        ensures
            match ClientMessage::decoded(frame@) {
                Some(v) => r matches Some(m) && m@ == v,
                None => r is None,
            },
    {
        merge(ClientMessage { payload: None }, frame, NESTING_LIMIT)
    }
}

} // verus!
