//! The frames that a mobile app writes, and that the server understands each of them.
use vstd::prelude::*;
use vstd::utf8::{encode_utf8, encode_utf8_decode_utf8, encode_utf8_valid_utf8};

use crate::client_message::{
    AssignShortcut, AssignShortcutView, Authenticate, CancelAuthenticate, ClientCapabilities,
    ClientInformation, ClientInformationView, ClientMessage, ClientMessageView, CreateVirtualDevice,
    CreateVirtualDeviceView, DeleteVirtualDevice, HelloFromClient, HelloFromClientView, KeyPress,
    KeypadConfig, KeypadConfigView, NextPage, OpenVirtualDevice, OpenVirtualDeviceView, PageByIndex,
    PayloadView, PreviousPage, RemoveShortcut, RemoveShortcutView, Size, TriggerShortcut,
    TriggerShortcutView, UpdateKeypadConfig,
};
use crate::message::{
    absorbed_all, as_message, as_text, bytes_field, flag_field, number_field, option_text_field,
    packed_numbers, present_field, text_field, Message,
};
use crate::wire::{
    is_legal, lemma_groups_length, lemma_inside, lemma_writable, varint_bytes, varint_round_trip,
    wire_bytes, wire_round_trip, WireField, WireValue, NESTING_LIMIT,
};

verus! {

// ---------------------------------------------------------------------------------------------
// What all messages of the app share
// ---------------------------------------------------------------------------------------------
/// A message as the app lays it out, and that it is understood.
pub trait AppMessage: Message {
    /// The message without any field.
    spec fn start() -> Self::V;

    /// How many levels of messages are embedded in it at most.
    spec fn levels() -> nat;

    /// The fields of the message.
    spec fn laid_out(v: Self::V) -> Seq<WireField>;

    /// The fields, taken in one after the other, make up the message.
    proof fn understood(v: Self::V, budget: nat)
        requires
            budget > Self::levels(),
            wire_bytes(Self::laid_out(v)).len() <= u64::MAX,
        ensures
            absorbed_all::<Self>(Self::start(), Self::laid_out(v), budget) == Some(v),
            forall|i: int|
                0 <= i < Self::laid_out(v).len() ==> is_legal(#[trigger] Self::laid_out(v)[i]),
    ;
}

/// An embedded message.
pub open spec fn embedded<M: AppMessage>(tag: u32, v: M::V) -> Seq<WireField> {
    present_field(tag, wire_bytes(M::laid_out(v)))
}

/// An embedded message that may be missing.
pub open spec fn embedded_option<M: AppMessage>(tag: u32, v: Option<M::V>) -> Seq<WireField> {
    match v {
        Some(v) => embedded::<M>(tag, v),
        None => seq![],
    }
}

/// A flag that may be missing.
pub open spec fn option_flag_field(tag: u32, v: Option<bool>) -> Seq<WireField> {
    match v {
        Some(v) => seq![WireField { tag, value: WireValue::Varint(if v { 1 } else { 0 }) }],
        None => seq![],
    }
}

/// Numbers one behind the other, negative ones as their complement in 64 bits.
pub open spec fn packed_numbers_bytes(ns: Seq<i32>) -> Seq<u8>
    decreases ns.len(),
{
    if ns.len() == 0 {
        seq![]
    } else {
        varint_bytes(ns[0] as u64) + packed_numbers_bytes(ns.skip(1))
    }
}

proof fn lemma_packed(ns: Seq<i32>)
    ensures
        packed_numbers(packed_numbers_bytes(ns)) == Some(ns),
        packed_numbers_bytes(ns).len() == 0 ==> ns.len() == 0,
    decreases ns.len(),
{
    let b = packed_numbers_bytes(ns);
    if ns.len() > 0 {
        let n = ns[0];
        let rest = packed_numbers_bytes(ns.skip(1));
        let first = varint_bytes(n as u64);
        lemma_packed(ns.skip(1));
        varint_round_trip(n as u64, rest);
        lemma_groups_length(b, 10);
        assert(b.skip(first.len() as int) =~= rest);
        assert((n as u64) as i32 == n) by (bit_vector);
        assert(seq![n] + ns.skip(1) =~= ns);
    } else {
        assert(ns =~= seq![]);
    }
}

proof fn lemma_text(t: Seq<char>)
    ensures
        as_text(WireValue::Bytes(encode_utf8(t))) == Some(t),
        encode_utf8(t).len() == 0 ==> t.len() == 0,
{
    encode_utf8_valid_utf8(t);
    encode_utf8_decode_utf8(t);
}

proof fn lemma_few<M: Message>(v: M::V, fs: Seq<WireField>, budget: nat)
    ensures
        fs.len() == 0 ==> absorbed_all::<M>(v, fs, budget) == Some(v),
        fs.len() == 1 ==> absorbed_all::<M>(v, fs, budget) == M::absorbed(v, fs[0], budget),
{
    if fs.len() == 1 {
        assert(absorbed_all::<M>(v, fs.drop_last(), budget) == Some(v));
    }
}

proof fn lemma_next<M: Message>(
    init: M::V,
    done: Seq<WireField>,
    v: M::V,
    next: Seq<WireField>,
    budget: nat,
)
    requires
        absorbed_all::<M>(init, done, budget) == Some(v),
    ensures
        absorbed_all::<M>(init, done + next, budget) == absorbed_all::<M>(v, next, budget),
    decreases next.len(),
{
    if next.len() == 0 {
        assert(done + next =~= done);
    } else {
        assert((done + next).drop_last() =~= done + next.drop_last());
        lemma_next::<M>(init, done, v, next.drop_last(), budget);
    }
}

proof fn lemma_embedded<M: AppMessage>(v: M::V, budget: nat)
    requires
        budget > M::levels() + 1,
        wire_bytes(M::laid_out(v)).len() <= u64::MAX,
    ensures
        as_message::<M>(M::start(), WireValue::Bytes(wire_bytes(M::laid_out(v))), budget) == Some(v),
{
    let inner = (budget - 1) as nat;
    M::understood(v, inner);
    lemma_writable(M::laid_out(v));
    wire_round_trip(M::laid_out(v), inner);
}

// ---------------------------------------------------------------------------------------------
// The messages
// ---------------------------------------------------------------------------------------------

impl AppMessage for Size {
    open spec fn start() -> Size {
        Size::blank()
    }

    open spec fn levels() -> nat {
        0
    }

    open spec fn laid_out(v: Size) -> Seq<WireField> {
        number_field(1, v.width as u64)
            + number_field(2, v.height as u64)
    }

    proof fn understood(v: Size, budget: nat) {
        let v0 = Size::blank();
        let f1 = number_field(1, v.width as u64);
        let v1 = Size { width: v.width, ..v0 };
        assert(absorbed_all::<Size>(v0, f1, budget) == Some(v1)) by {
            lemma_few::<Size>(v0, f1, budget);
        }
        let f2 = number_field(2, v.height as u64);
        let v2 = Size { height: v.height, ..v1 };
        assert(absorbed_all::<Size>(v1, f2, budget) == Some(v2)) by {
            lemma_few::<Size>(v1, f2, budget);
        }
        lemma_next::<Size>(v0, f1, v1, f2, budget);
    }
}

impl AppMessage for ClientInformation {
    open spec fn start() -> ClientInformationView {
        ClientInformation::blank()
    }

    open spec fn levels() -> nat {
        0
    }

    open spec fn laid_out(v: ClientInformationView) -> Seq<WireField> {
        text_field(1, v.name)
            + text_field(2, v.user_agent)
            + number_field(3, v.protocol_version as u64)
            + option_text_field(4, v.device_model)
            + option_text_field(5, v.os_name)
            + option_text_field(6, v.os_version)
    }

    proof fn understood(v: ClientInformationView, budget: nat) {
        let v0 = ClientInformation::blank();
        let f1 = text_field(1, v.name);
        let v1 = ClientInformationView { name: v.name, ..v0 };
        assert(absorbed_all::<ClientInformation>(v0, f1, budget) == Some(v1)) by {
            lemma_text(v.name);
            lemma_few::<ClientInformation>(v0, f1, budget);
        }
        let f2 = text_field(2, v.user_agent);
        let v2 = ClientInformationView { user_agent: v.user_agent, ..v1 };
        assert(absorbed_all::<ClientInformation>(v1, f2, budget) == Some(v2)) by {
            lemma_text(v.user_agent);
            lemma_few::<ClientInformation>(v1, f2, budget);
        }
        lemma_next::<ClientInformation>(v0, f1, v1, f2, budget);
        let f3 = number_field(3, v.protocol_version as u64);
        let v3 = ClientInformationView { protocol_version: v.protocol_version, ..v2 };
        assert(absorbed_all::<ClientInformation>(v2, f3, budget) == Some(v3)) by {
            lemma_few::<ClientInformation>(v2, f3, budget);
        }
        lemma_next::<ClientInformation>(v0, f1 + f2, v2, f3, budget);
        let f4 = option_text_field(4, v.device_model);
        let v4 = ClientInformationView { device_model: v.device_model, ..v3 };
        assert(absorbed_all::<ClientInformation>(v3, f4, budget) == Some(v4)) by {
            if let Some(t) = v.device_model {
                lemma_text(t);
            }
            lemma_few::<ClientInformation>(v3, f4, budget);
        }
        lemma_next::<ClientInformation>(v0, f1 + f2 + f3, v3, f4, budget);
        let f5 = option_text_field(5, v.os_name);
        let v5 = ClientInformationView { os_name: v.os_name, ..v4 };
        assert(absorbed_all::<ClientInformation>(v4, f5, budget) == Some(v5)) by {
            if let Some(t) = v.os_name {
                lemma_text(t);
            }
            lemma_few::<ClientInformation>(v4, f5, budget);
        }
        lemma_next::<ClientInformation>(v0, f1 + f2 + f3 + f4, v4, f5, budget);
        let f6 = option_text_field(6, v.os_version);
        let v6 = ClientInformationView { os_version: v.os_version, ..v5 };
        assert(absorbed_all::<ClientInformation>(v5, f6, budget) == Some(v6)) by {
            if let Some(t) = v.os_version {
                lemma_text(t);
            }
            lemma_few::<ClientInformation>(v5, f6, budget);
        }
        lemma_next::<ClientInformation>(v0, f1 + f2 + f3 + f4 + f5, v5, f6, budget);
    }
}

impl AppMessage for HelloFromClient {
    open spec fn start() -> HelloFromClientView {
        HelloFromClient::blank()
    }

    open spec fn levels() -> nat {
        1
    }

    open spec fn laid_out(v: HelloFromClientView) -> Seq<WireField> {
        bytes_field(1, v.public_key)
            + embedded_option::<ClientInformation>(2, v.client_information)
    }

    proof fn understood(v: HelloFromClientView, budget: nat) {
        let v0 = HelloFromClient::blank();
        let f1 = bytes_field(1, v.public_key);
        let v1 = HelloFromClientView { public_key: v.public_key, ..v0 };
        assert(absorbed_all::<HelloFromClient>(v0, f1, budget) == Some(v1)) by {
            assert(v.public_key.len() == 0 ==> v.public_key =~= seq![]);
            lemma_few::<HelloFromClient>(v0, f1, budget);
        }
        let f2 = embedded_option::<ClientInformation>(2, v.client_information);
        let v2 = HelloFromClientView { client_information: v.client_information, ..v1 };
        assert(absorbed_all::<HelloFromClient>(v1, f2, budget) == Some(v2)) by {
            if let Some(m) = v.client_information {
                lemma_inside(Self::laid_out(v), f2[0], f1.len());
                lemma_embedded::<ClientInformation>(m, budget);
            }
            lemma_few::<HelloFromClient>(v1, f2, budget);
        }
        lemma_next::<HelloFromClient>(v0, f1, v1, f2, budget);
    }
}

impl AppMessage for Authenticate {
    open spec fn start() -> Authenticate {
        Authenticate::blank()
    }

    open spec fn levels() -> nat {
        0
    }

    open spec fn laid_out(v: Authenticate) -> Seq<WireField> {
        number_field(1, v.request_id as u64)
    }

    proof fn understood(v: Authenticate, budget: nat) {
        let v0 = Authenticate::blank();
        let f1 = number_field(1, v.request_id as u64);
        let v1 = v;
        assert(absorbed_all::<Authenticate>(v0, f1, budget) == Some(v1)) by {
            lemma_few::<Authenticate>(v0, f1, budget);
        }
    }
}

impl AppMessage for CancelAuthenticate {
    open spec fn start() -> CancelAuthenticate {
        CancelAuthenticate::blank()
    }

    open spec fn levels() -> nat {
        0
    }

    open spec fn laid_out(v: CancelAuthenticate) -> Seq<WireField> {
        number_field(1, v.request_id as u64)
    }

    proof fn understood(v: CancelAuthenticate, budget: nat) {
        let v0 = CancelAuthenticate::blank();
        let f1 = number_field(1, v.request_id as u64);
        let v1 = v;
        assert(absorbed_all::<CancelAuthenticate>(v0, f1, budget) == Some(v1)) by {
            lemma_few::<CancelAuthenticate>(v0, f1, budget);
        }
    }
}

impl AppMessage for KeypadConfig {
    open spec fn start() -> KeypadConfigView {
        KeypadConfig::blank()
    }

    open spec fn levels() -> nat {
        1
    }

    open spec fn laid_out(v: KeypadConfigView) -> Seq<WireField> {
        bytes_field(1, packed_numbers_bytes(v.supported_icon_image_formats))
            + embedded_option::<Size>(2, v.icon_size)
            + embedded_option::<Size>(3, v.pressed_icon_size)
            + flag_field(4, v.high_dpi)
            + flag_field(5, v.overscale)
            + embedded_option::<Size>(6, v.layout_crop)
            + flag_field(7, v.enable_context_api)
    }

    #[verifier::rlimit(60)]
    #[verifier::spinoff_prover]
    proof fn understood(v: KeypadConfigView, budget: nat) {
        let v0 = KeypadConfig::blank();
        let f1 = bytes_field(1, packed_numbers_bytes(v.supported_icon_image_formats));
        let v1 = KeypadConfigView { supported_icon_image_formats: v.supported_icon_image_formats, ..v0 };
        assert(absorbed_all::<KeypadConfig>(v0, f1, budget) == Some(v1)) by {
            lemma_packed(v.supported_icon_image_formats);
            assert(seq![] + v.supported_icon_image_formats =~= v.supported_icon_image_formats);
            assert(v.supported_icon_image_formats.len() == 0 ==> v.supported_icon_image_formats =~= seq![]);
            lemma_few::<KeypadConfig>(v0, f1, budget);
        }
        let f2 = embedded_option::<Size>(2, v.icon_size);
        let v2 = KeypadConfigView { icon_size: v.icon_size, ..v1 };
        assert(absorbed_all::<KeypadConfig>(v1, f2, budget) == Some(v2)) by {
            if let Some(m) = v.icon_size {
                lemma_inside(Self::laid_out(v), f2[0], f1.len());
                lemma_embedded::<Size>(m, budget);
            }
            lemma_few::<KeypadConfig>(v1, f2, budget);
        }
        lemma_next::<KeypadConfig>(v0, f1, v1, f2, budget);
        let f3 = embedded_option::<Size>(3, v.pressed_icon_size);
        let v3 = KeypadConfigView { pressed_icon_size: v.pressed_icon_size, ..v2 };
        assert(absorbed_all::<KeypadConfig>(v2, f3, budget) == Some(v3)) by {
            if let Some(m) = v.pressed_icon_size {
                lemma_inside(Self::laid_out(v), f3[0], f1.len() + f2.len());
                lemma_embedded::<Size>(m, budget);
            }
            lemma_few::<KeypadConfig>(v2, f3, budget);
        }
        lemma_next::<KeypadConfig>(v0, f1 + f2, v2, f3, budget);
        let f4 = flag_field(4, v.high_dpi);
        let v4 = KeypadConfigView { high_dpi: v.high_dpi, ..v3 };
        assert(absorbed_all::<KeypadConfig>(v3, f4, budget) == Some(v4)) by {
            lemma_few::<KeypadConfig>(v3, f4, budget);
        }
        lemma_next::<KeypadConfig>(v0, f1 + f2 + f3, v3, f4, budget);
        let f5 = flag_field(5, v.overscale);
        let v5 = KeypadConfigView { overscale: v.overscale, ..v4 };
        assert(absorbed_all::<KeypadConfig>(v4, f5, budget) == Some(v5)) by {
            lemma_few::<KeypadConfig>(v4, f5, budget);
        }
        lemma_next::<KeypadConfig>(v0, f1 + f2 + f3 + f4, v4, f5, budget);
        let f6 = embedded_option::<Size>(6, v.layout_crop);
        let v6 = KeypadConfigView { layout_crop: v.layout_crop, ..v5 };
        assert(absorbed_all::<KeypadConfig>(v5, f6, budget) == Some(v6)) by {
            if let Some(m) = v.layout_crop {
                lemma_inside(Self::laid_out(v), f6[0], f1.len() + f2.len() + f3.len() + f4.len() + f5.len());
                lemma_embedded::<Size>(m, budget);
            }
            lemma_few::<KeypadConfig>(v5, f6, budget);
        }
        lemma_next::<KeypadConfig>(v0, f1 + f2 + f3 + f4 + f5, v5, f6, budget);
        let f7 = flag_field(7, v.enable_context_api);
        let v7 = KeypadConfigView { enable_context_api: v.enable_context_api, ..v6 };
        assert(absorbed_all::<KeypadConfig>(v6, f7, budget) == Some(v7)) by {
            lemma_few::<KeypadConfig>(v6, f7, budget);
        }
        lemma_next::<KeypadConfig>(v0, f1 + f2 + f3 + f4 + f5 + f6, v6, f7, budget);
    }
}

impl AppMessage for CreateVirtualDevice {
    open spec fn start() -> CreateVirtualDeviceView {
        CreateVirtualDevice::blank()
    }

    open spec fn levels() -> nat {
        2
    }

    open spec fn laid_out(v: CreateVirtualDeviceView) -> Seq<WireField> {
        number_field(1, v.request_id as u64)
            + text_field(2, v.name)
            + embedded_option::<KeypadConfig>(3, v.keypad_config)
            + flag_field(4, v.skip_uniqueness_of_name_validation)
    }

    proof fn understood(v: CreateVirtualDeviceView, budget: nat) {
        let v0 = CreateVirtualDevice::blank();
        let f1 = number_field(1, v.request_id as u64);
        let v1 = CreateVirtualDeviceView { request_id: v.request_id, ..v0 };
        assert(absorbed_all::<CreateVirtualDevice>(v0, f1, budget) == Some(v1)) by {
            lemma_few::<CreateVirtualDevice>(v0, f1, budget);
        }
        let f2 = text_field(2, v.name);
        let v2 = CreateVirtualDeviceView { name: v.name, ..v1 };
        assert(absorbed_all::<CreateVirtualDevice>(v1, f2, budget) == Some(v2)) by {
            lemma_text(v.name);
            lemma_few::<CreateVirtualDevice>(v1, f2, budget);
        }
        lemma_next::<CreateVirtualDevice>(v0, f1, v1, f2, budget);
        let f3 = embedded_option::<KeypadConfig>(3, v.keypad_config);
        let v3 = CreateVirtualDeviceView { keypad_config: v.keypad_config, ..v2 };
        assert(absorbed_all::<CreateVirtualDevice>(v2, f3, budget) == Some(v3)) by {
            if let Some(m) = v.keypad_config {
                lemma_inside(Self::laid_out(v), f3[0], f1.len() + f2.len());
                lemma_embedded::<KeypadConfig>(m, budget);
            }
            lemma_few::<CreateVirtualDevice>(v2, f3, budget);
        }
        lemma_next::<CreateVirtualDevice>(v0, f1 + f2, v2, f3, budget);
        let f4 = flag_field(4, v.skip_uniqueness_of_name_validation);
        let v4 = CreateVirtualDeviceView {
            skip_uniqueness_of_name_validation: v.skip_uniqueness_of_name_validation,
            ..v3
        };
        assert(absorbed_all::<CreateVirtualDevice>(v3, f4, budget) == Some(v4)) by {
            lemma_few::<CreateVirtualDevice>(v3, f4, budget);
        }
        lemma_next::<CreateVirtualDevice>(v0, f1 + f2 + f3, v3, f4, budget);
    }
}

impl AppMessage for OpenVirtualDevice {
    open spec fn start() -> OpenVirtualDeviceView {
        OpenVirtualDevice::blank()
    }

    open spec fn levels() -> nat {
        2
    }

    open spec fn laid_out(v: OpenVirtualDeviceView) -> Seq<WireField> {
        number_field(1, v.request_id as u64)
            + text_field(2, v.device_id)
            + embedded_option::<KeypadConfig>(3, v.keypad_config)
    }

    proof fn understood(v: OpenVirtualDeviceView, budget: nat) {
        let v0 = OpenVirtualDevice::blank();
        let f1 = number_field(1, v.request_id as u64);
        let v1 = OpenVirtualDeviceView { request_id: v.request_id, ..v0 };
        assert(absorbed_all::<OpenVirtualDevice>(v0, f1, budget) == Some(v1)) by {
            lemma_few::<OpenVirtualDevice>(v0, f1, budget);
        }
        let f2 = text_field(2, v.device_id);
        let v2 = OpenVirtualDeviceView { device_id: v.device_id, ..v1 };
        assert(absorbed_all::<OpenVirtualDevice>(v1, f2, budget) == Some(v2)) by {
            lemma_text(v.device_id);
            lemma_few::<OpenVirtualDevice>(v1, f2, budget);
        }
        lemma_next::<OpenVirtualDevice>(v0, f1, v1, f2, budget);
        let f3 = embedded_option::<KeypadConfig>(3, v.keypad_config);
        let v3 = OpenVirtualDeviceView { keypad_config: v.keypad_config, ..v2 };
        assert(absorbed_all::<OpenVirtualDevice>(v2, f3, budget) == Some(v3)) by {
            if let Some(m) = v.keypad_config {
                lemma_inside(Self::laid_out(v), f3[0], f1.len() + f2.len());
                lemma_embedded::<KeypadConfig>(m, budget);
            }
            lemma_few::<OpenVirtualDevice>(v2, f3, budget);
        }
        lemma_next::<OpenVirtualDevice>(v0, f1 + f2, v2, f3, budget);
    }
}

impl AppMessage for DeleteVirtualDevice {
    open spec fn start() -> DeleteVirtualDevice {
        DeleteVirtualDevice::blank()
    }

    open spec fn levels() -> nat {
        0
    }

    open spec fn laid_out(v: DeleteVirtualDevice) -> Seq<WireField> {
        number_field(1, v.request_id as u64)
    }

    proof fn understood(v: DeleteVirtualDevice, budget: nat) {
        let v0 = DeleteVirtualDevice::blank();
        let f1 = number_field(1, v.request_id as u64);
        let v1 = v;
        assert(absorbed_all::<DeleteVirtualDevice>(v0, f1, budget) == Some(v1)) by {
            lemma_few::<DeleteVirtualDevice>(v0, f1, budget);
        }
    }
}

impl AppMessage for KeyPress {
    open spec fn start() -> KeyPress {
        KeyPress::blank()
    }

    open spec fn levels() -> nat {
        0
    }

    open spec fn laid_out(v: KeyPress) -> Seq<WireField> {
        number_field(1, v.index as u64)
            + flag_field(2, v.pressed)
    }

    proof fn understood(v: KeyPress, budget: nat) {
        let v0 = KeyPress::blank();
        let f1 = number_field(1, v.index as u64);
        let v1 = KeyPress { index: v.index, ..v0 };
        assert(absorbed_all::<KeyPress>(v0, f1, budget) == Some(v1)) by {
            lemma_few::<KeyPress>(v0, f1, budget);
        }
        let f2 = flag_field(2, v.pressed);
        let v2 = KeyPress { pressed: v.pressed, ..v1 };
        assert(absorbed_all::<KeyPress>(v1, f2, budget) == Some(v2)) by {
            lemma_few::<KeyPress>(v1, f2, budget);
        }
        lemma_next::<KeyPress>(v0, f1, v1, f2, budget);
    }
}

impl AppMessage for NextPage {
    open spec fn start() -> NextPage {
        NextPage::blank()
    }

    open spec fn levels() -> nat {
        0
    }

    open spec fn laid_out(v: NextPage) -> Seq<WireField> {
        seq![]
    }

    proof fn understood(v: NextPage, budget: nat) {
        lemma_few::<NextPage>(NextPage::blank(), seq![], budget);
        assert(v == NextPage::blank());
    }
}

impl AppMessage for PreviousPage {
    open spec fn start() -> PreviousPage {
        PreviousPage::blank()
    }

    open spec fn levels() -> nat {
        0
    }

    open spec fn laid_out(v: PreviousPage) -> Seq<WireField> {
        seq![]
    }

    proof fn understood(v: PreviousPage, budget: nat) {
        lemma_few::<PreviousPage>(PreviousPage::blank(), seq![], budget);
        assert(v == PreviousPage::blank());
    }
}

impl AppMessage for PageByIndex {
    open spec fn start() -> PageByIndex {
        PageByIndex::blank()
    }

    open spec fn levels() -> nat {
        0
    }

    open spec fn laid_out(v: PageByIndex) -> Seq<WireField> {
        number_field(1, v.index as u64)
    }

    proof fn understood(v: PageByIndex, budget: nat) {
        let v0 = PageByIndex::blank();
        let f1 = number_field(1, v.index as u64);
        let v1 = v;
        assert(absorbed_all::<PageByIndex>(v0, f1, budget) == Some(v1)) by {
            lemma_few::<PageByIndex>(v0, f1, budget);
        }
    }
}

impl AppMessage for UpdateKeypadConfig {
    open spec fn start() -> UpdateKeypadConfig {
        UpdateKeypadConfig::blank()
    }

    open spec fn levels() -> nat {
        1
    }

    open spec fn laid_out(v: UpdateKeypadConfig) -> Seq<WireField> {
        embedded_option::<Size>(1, v.icon_size)
            + embedded_option::<Size>(2, v.pressed_icon_size)
            + option_flag_field(3, v.high_dpi)
            + embedded_option::<Size>(4, v.layout_crop)
    }

    proof fn understood(v: UpdateKeypadConfig, budget: nat) {
        let v0 = UpdateKeypadConfig::blank();
        let f1 = embedded_option::<Size>(1, v.icon_size);
        let v1 = UpdateKeypadConfig { icon_size: v.icon_size, ..v0 };
        assert(absorbed_all::<UpdateKeypadConfig>(v0, f1, budget) == Some(v1)) by {
            if let Some(m) = v.icon_size {
                lemma_inside(Self::laid_out(v), f1[0], 0);
                lemma_embedded::<Size>(m, budget);
            }
            lemma_few::<UpdateKeypadConfig>(v0, f1, budget);
        }
        let f2 = embedded_option::<Size>(2, v.pressed_icon_size);
        let v2 = UpdateKeypadConfig { pressed_icon_size: v.pressed_icon_size, ..v1 };
        assert(absorbed_all::<UpdateKeypadConfig>(v1, f2, budget) == Some(v2)) by {
            if let Some(m) = v.pressed_icon_size {
                lemma_inside(Self::laid_out(v), f2[0], f1.len());
                lemma_embedded::<Size>(m, budget);
            }
            lemma_few::<UpdateKeypadConfig>(v1, f2, budget);
        }
        lemma_next::<UpdateKeypadConfig>(v0, f1, v1, f2, budget);
        let f3 = option_flag_field(3, v.high_dpi);
        let v3 = UpdateKeypadConfig { high_dpi: v.high_dpi, ..v2 };
        assert(absorbed_all::<UpdateKeypadConfig>(v2, f3, budget) == Some(v3)) by {
            lemma_few::<UpdateKeypadConfig>(v2, f3, budget);
        }
        lemma_next::<UpdateKeypadConfig>(v0, f1 + f2, v2, f3, budget);
        let f4 = embedded_option::<Size>(4, v.layout_crop);
        let v4 = UpdateKeypadConfig { layout_crop: v.layout_crop, ..v3 };
        assert(absorbed_all::<UpdateKeypadConfig>(v3, f4, budget) == Some(v4)) by {
            if let Some(m) = v.layout_crop {
                lemma_inside(Self::laid_out(v), f4[0], f1.len() + f2.len() + f3.len());
                lemma_embedded::<Size>(m, budget);
            }
            lemma_few::<UpdateKeypadConfig>(v3, f4, budget);
        }
        lemma_next::<UpdateKeypadConfig>(v0, f1 + f2 + f3, v3, f4, budget);
    }
}

impl AppMessage for AssignShortcut {
    open spec fn start() -> AssignShortcutView {
        AssignShortcut::blank()
    }

    open spec fn levels() -> nat {
        0
    }

    open spec fn laid_out(v: AssignShortcutView) -> Seq<WireField> {
        text_field(1, v.profile_id)
            + text_field(2, v.shortcut_id)
            + number_field(3, v.index as u64)
    }

    proof fn understood(v: AssignShortcutView, budget: nat) {
        let v0 = AssignShortcut::blank();
        let f1 = text_field(1, v.profile_id);
        let v1 = AssignShortcutView { profile_id: v.profile_id, ..v0 };
        assert(absorbed_all::<AssignShortcut>(v0, f1, budget) == Some(v1)) by {
            lemma_text(v.profile_id);
            lemma_few::<AssignShortcut>(v0, f1, budget);
        }
        let f2 = text_field(2, v.shortcut_id);
        let v2 = AssignShortcutView { shortcut_id: v.shortcut_id, ..v1 };
        assert(absorbed_all::<AssignShortcut>(v1, f2, budget) == Some(v2)) by {
            lemma_text(v.shortcut_id);
            lemma_few::<AssignShortcut>(v1, f2, budget);
        }
        lemma_next::<AssignShortcut>(v0, f1, v1, f2, budget);
        let f3 = number_field(3, v.index as u64);
        let v3 = AssignShortcutView { index: v.index, ..v2 };
        assert(absorbed_all::<AssignShortcut>(v2, f3, budget) == Some(v3)) by {
            lemma_few::<AssignShortcut>(v2, f3, budget);
        }
        lemma_next::<AssignShortcut>(v0, f1 + f2, v2, f3, budget);
    }
}

impl AppMessage for RemoveShortcut {
    open spec fn start() -> RemoveShortcutView {
        RemoveShortcut::blank()
    }

    open spec fn levels() -> nat {
        0
    }

    open spec fn laid_out(v: RemoveShortcutView) -> Seq<WireField> {
        number_field(1, v.request_id as u64)
            + text_field(2, v.shortcut_id)
    }

    proof fn understood(v: RemoveShortcutView, budget: nat) {
        let v0 = RemoveShortcut::blank();
        let f1 = number_field(1, v.request_id as u64);
        let v1 = RemoveShortcutView { request_id: v.request_id, ..v0 };
        assert(absorbed_all::<RemoveShortcut>(v0, f1, budget) == Some(v1)) by {
            lemma_few::<RemoveShortcut>(v0, f1, budget);
        }
        let f2 = text_field(2, v.shortcut_id);
        let v2 = RemoveShortcutView { shortcut_id: v.shortcut_id, ..v1 };
        assert(absorbed_all::<RemoveShortcut>(v1, f2, budget) == Some(v2)) by {
            lemma_text(v.shortcut_id);
            lemma_few::<RemoveShortcut>(v1, f2, budget);
        }
        lemma_next::<RemoveShortcut>(v0, f1, v1, f2, budget);
    }
}

impl AppMessage for TriggerShortcut {
    open spec fn start() -> TriggerShortcutView {
        TriggerShortcut::blank()
    }

    open spec fn levels() -> nat {
        0
    }

    open spec fn laid_out(v: TriggerShortcutView) -> Seq<WireField> {
        text_field(1, v.device_id)
            + text_field(2, v.shortcut_id)
    }

    proof fn understood(v: TriggerShortcutView, budget: nat) {
        let v0 = TriggerShortcut::blank();
        let f1 = text_field(1, v.device_id);
        let v1 = TriggerShortcutView { device_id: v.device_id, ..v0 };
        assert(absorbed_all::<TriggerShortcut>(v0, f1, budget) == Some(v1)) by {
            lemma_text(v.device_id);
            lemma_few::<TriggerShortcut>(v0, f1, budget);
        }
        let f2 = text_field(2, v.shortcut_id);
        let v2 = TriggerShortcutView { shortcut_id: v.shortcut_id, ..v1 };
        assert(absorbed_all::<TriggerShortcut>(v1, f2, budget) == Some(v2)) by {
            lemma_text(v.shortcut_id);
            lemma_few::<TriggerShortcut>(v1, f2, budget);
        }
        lemma_next::<TriggerShortcut>(v0, f1, v1, f2, budget);
    }
}

impl AppMessage for ClientCapabilities {
    open spec fn start() -> ClientCapabilities {
        ClientCapabilities::blank()
    }

    open spec fn levels() -> nat {
        0
    }

    open spec fn laid_out(v: ClientCapabilities) -> Seq<WireField> {
        flag_field(1, v.is_user_pro)
    }

    proof fn understood(v: ClientCapabilities, budget: nat) {
        let v0 = ClientCapabilities::blank();
        let f1 = flag_field(1, v.is_user_pro);
        let v1 = v;
        assert(absorbed_all::<ClientCapabilities>(v0, f1, budget) == Some(v1)) by {
            lemma_few::<ClientCapabilities>(v0, f1, budget);
        }
    }
}

// ---------------------------------------------------------------------------------------------
// Frames
// ---------------------------------------------------------------------------------------------
/// The one field of a frame.
pub open spec fn payload_field(payload: PayloadView) -> Seq<WireField> {
    match payload {
        PayloadView::Hello(m) => embedded::<HelloFromClient>(1, m),
        PayloadView::Authenticate(m) => embedded::<Authenticate>(2, m),
        PayloadView::CancelAuthenticate(m) => embedded::<CancelAuthenticate>(3, m),
        PayloadView::CreateVirtualDevice(m) => embedded::<CreateVirtualDevice>(10, m),
        PayloadView::OpenVirtualDevice(m) => embedded::<OpenVirtualDevice>(11, m),
        PayloadView::DeleteVirtualDevice(m) => embedded::<DeleteVirtualDevice>(12, m),
        PayloadView::KeyPress(m) => embedded::<KeyPress>(20, m),
        PayloadView::NextPage(m) => embedded::<NextPage>(21, m),
        PayloadView::PreviousPage(m) => embedded::<PreviousPage>(22, m),
        PayloadView::PageByIndex(m) => embedded::<PageByIndex>(23, m),
        PayloadView::UpdateKeypadConfig(m) => embedded::<UpdateKeypadConfig>(30, m),
        PayloadView::AssignShortcut(m) => embedded::<AssignShortcut>(31, m),
        PayloadView::RemoveShortcut(m) => embedded::<RemoveShortcut>(32, m),
        PayloadView::TriggerShortcut(m) => embedded::<TriggerShortcut>(33, m),
        PayloadView::ClientCapabilities(m) => embedded::<ClientCapabilities>(100, m),
    }
}

/// The frame in which the app says something.
pub open spec fn app_frame(payload: PayloadView) -> Seq<u8> {
    wire_bytes(payload_field(payload))
}

/// Whatever the app says is understood: every frame that it writes is read as the message that it
/// was made of.
#[verifier::rlimit(60)]
#[verifier::spinoff_prover]
pub proof fn apps_are_understood(payload: PayloadView)
    requires
        app_frame(payload).len() <= u64::MAX,
    ensures
        ClientMessage::decoded(app_frame(payload)) == Some(
            ClientMessageView { payload: Some(payload) },
        ),
{
    let fs = payload_field(payload);
    let budget = NESTING_LIMIT as nat;
    let init = ClientMessageView { payload: None };
    lemma_inside(fs, fs[0], 0);
    match payload {
        PayloadView::Hello(m) => {
            lemma_embedded::<HelloFromClient>(m, budget);
        },
        PayloadView::Authenticate(m) => {
            lemma_embedded::<Authenticate>(m, budget);
        },
        PayloadView::CancelAuthenticate(m) => {
            lemma_embedded::<CancelAuthenticate>(m, budget);
        },
        PayloadView::CreateVirtualDevice(m) => {
            lemma_embedded::<CreateVirtualDevice>(m, budget);
        },
        PayloadView::OpenVirtualDevice(m) => {
            lemma_embedded::<OpenVirtualDevice>(m, budget);
        },
        PayloadView::DeleteVirtualDevice(m) => {
            lemma_embedded::<DeleteVirtualDevice>(m, budget);
        },
        PayloadView::KeyPress(m) => {
            lemma_embedded::<KeyPress>(m, budget);
        },
        PayloadView::NextPage(m) => {
            lemma_embedded::<NextPage>(m, budget);
        },
        PayloadView::PreviousPage(m) => {
            lemma_embedded::<PreviousPage>(m, budget);
        },
        PayloadView::PageByIndex(m) => {
            lemma_embedded::<PageByIndex>(m, budget);
        },
        PayloadView::UpdateKeypadConfig(m) => {
            lemma_embedded::<UpdateKeypadConfig>(m, budget);
        },
        PayloadView::AssignShortcut(m) => {
            lemma_embedded::<AssignShortcut>(m, budget);
        },
        PayloadView::RemoveShortcut(m) => {
            lemma_embedded::<RemoveShortcut>(m, budget);
        },
        PayloadView::TriggerShortcut(m) => {
            lemma_embedded::<TriggerShortcut>(m, budget);
        },
        PayloadView::ClientCapabilities(m) => {
            lemma_embedded::<ClientCapabilities>(m, budget);
        },
    }
    lemma_few::<ClientMessage>(init, fs, budget);
    lemma_writable(fs);
    wire_round_trip(fs, budget);
}

} // verus!
