//! How tolerant and how strict the server is when it reads what a mobile app sends.
use vstd::prelude::*;
use vstd::utf8::valid_utf8;

use crate::client_message::{
    AssignShortcut, Authenticate, CancelAuthenticate, ClientCapabilities, ClientInformation,
    ClientMessage, ClientMessageView, CreateVirtualDevice, CreateVirtualDeviceView,
    DeleteVirtualDevice, HelloFromClient, HelloFromClientView,
    KeyPress, KeypadConfig, KeypadConfigView, NextPage, OpenVirtualDevice, OpenVirtualDeviceView,
    PageByIndex, PayloadView, PreviousPage, RemoveShortcut, Size, TriggerShortcut, UpdateKeypadConfig,
};
use crate::message::{absorbed_all, as_message, packed_numbers, Message};
use crate::wire::{
    fields_of, varint_at, wire_bytes, wire_round_trip, writable, WireField, WireValue,
};

verus! {

// ---------------------------------------------------------------------------------------------
// Words
// ---------------------------------------------------------------------------------------------
/// Whether a message has numbers, runs of bytes and lists of numbers under these tags: a field with
/// another tag changes nothing, and one that carries something else than its tag announces spoils
/// the message.
pub open spec fn has_fields<M: Message>(
    numbers: Set<u32>,
    runs: Set<u32>,
    lists: Set<u32>,
) -> bool {
    forall|v: M::V, f: WireField, budget: nat|
        #![trigger M::absorbed(v, f, budget)]
        {
            &&& !numbers.contains(f.tag) && !runs.contains(f.tag) && !lists.contains(f.tag)
                ==> M::absorbed(v, f, budget) == Some(v)
            &&& numbers.contains(f.tag) ==> (M::absorbed(v, f, budget) is Some <==> f.value is Varint)
            &&& runs.contains(f.tag) && M::absorbed(v, f, budget) is Some ==> f.value is Bytes
            &&& lists.contains(f.tag) && M::absorbed(v, f, budget) is Some ==> !(f.value is Opaque)
        }
}

/// Whether, of several fields under one of these tags, only the last counts.
pub open spec fn last_counts<M: Message>(tags: Set<u32>) -> bool {
    forall|v: M::V, f: WireField, g: WireField, budget: nat|
        #![trigger M::absorbed(v, f, budget), M::absorbed(v, g, budget)]
        f.tag == g.tag && tags.contains(f.tag) ==> (M::absorbed(v, f, budget) matches Some(w)
            ==> M::absorbed(w, g, budget) == M::absorbed(v, g, budget))
}

/// Whether fields under different tags may come in any order.
pub open spec fn in_any_order<M: Message>() -> bool {
    forall|v: M::V, f: WireField, g: WireField, budget: nat|
        #![trigger M::absorbed(v, f, budget), M::absorbed(v, g, budget)]
        f.tag != g.tag ==> match (M::absorbed(v, f, budget), M::absorbed(v, g, budget)) {
            (Some(w), Some(x)) => M::absorbed(w, g, budget) == M::absorbed(x, f, budget)
                && M::absorbed(w, g, budget) is Some,
            (Some(w), None) => M::absorbed(w, g, budget) is None,
            _ => true,
        }
}

/// A field that carries a number.
pub open spec fn number(tag: u32, x: u64) -> WireField {
    WireField { tag, value: WireValue::Varint(x) }
}

/// Whether the numbers under these tags have 32 bits: of longer ones the lower 32 bits count.
pub open spec fn has_32_bits<M: Message>(tags: Set<u32>) -> bool {
    forall|v: M::V, tag: u32, x: u64, budget: nat|
        tags.contains(tag) ==> #[trigger] M::absorbed(v, number(tag, x), budget) == M::absorbed(
            v,
            number(tag, (x % 0x1_0000_0000) as u64),
            budget,
        )
}

/// Whether the numbers under these tags are flags: all that are not zero say the same.
pub open spec fn are_flags<M: Message>(tags: Set<u32>) -> bool {
    forall|v: M::V, tag: u32, x: u64, budget: nat|
        tags.contains(tag) && x != 0 ==> #[trigger] M::absorbed(v, number(tag, x), budget)
            == M::absorbed(v, number(tag, 1), budget)
}

/// A field that carries a run of bytes.
pub open spec fn run(tag: u32, b: Seq<u8>) -> WireField {
    WireField { tag, value: WireValue::Bytes(b) }
}

/// Whether the runs of bytes under these tags are texts: they have to be valid UTF-8.
pub open spec fn are_texts<M: Message>(tags: Set<u32>) -> bool {
    forall|v: M::V, tag: u32, b: Seq<u8>, budget: nat|
        tags.contains(tag) ==> (#[trigger] M::absorbed(v, run(tag, b), budget) is Some
            <==> valid_utf8(b))
}

/// Whether the runs of bytes under these tags are messages: they have to be runs of fields, and a
/// level of nesting has to be left for them.
pub open spec fn are_messages<M: Message>(tags: Set<u32>) -> bool {
    forall|v: M::V, tag: u32, b: Seq<u8>, budget: nat|
        tags.contains(tag) && (budget == 0 || fields_of(b, (budget - 1) as nat) is None)
            ==> #[trigger] M::absorbed(v, run(tag, b), budget) is None
}

/// Fields that can be written.
pub open spec fn all_writable(fs: Seq<WireField>) -> bool {
    forall|i: int| 0 <= i < fs.len() ==> writable(#[trigger] fs[i])
}

/// A field that carries a message.
pub open spec fn carries(tag: u32, fs: Seq<WireField>) -> WireField {
    WireField { tag, value: WireValue::Bytes(wire_bytes(fs)) }
}

/// The tags of the messages of the app.
pub open spec fn payload_tags() -> Set<u32> {
    set![
        1u32, 2u32, 3u32,
        10u32, 11u32, 12u32,
        20u32, 21u32, 22u32, 23u32,
        30u32, 31u32, 32u32, 33u32,
        100u32,
    ]
}

// ---------------------------------------------------------------------------------------------
// Parts
// ---------------------------------------------------------------------------------------------
/// Fields are taken in one after the other: those of a second part go on from where the first part
/// left the message.
pub proof fn messages_are_taken_in_by_parts<M: Message>(
    init: M::V,
    a: Seq<WireField>,
    b: Seq<WireField>,
    budget: nat,
)
    ensures
        absorbed_all::<M>(init, a + b, budget) == match absorbed_all::<M>(init, a, budget) {
            Some(v) => absorbed_all::<M>(v, b, budget),
            None => None,
        },
    decreases b.len(),
{
    if b.len() == 0 {
        assert(a + b =~= a);
    } else {
        assert((a + b).drop_last() =~= a + b.drop_last());
        messages_are_taken_in_by_parts::<M>(init, a, b.drop_last(), budget);
    }
}

proof fn lemma_parts<M: Message>(init: M::V, a: Seq<WireField>, b: Seq<WireField>, budget: nat)
    requires
        all_writable(a),
        all_writable(b),
        budget > 1,
    ensures
        as_message::<M>(init, WireValue::Bytes(wire_bytes(a + b)), budget) == match as_message::<M>(
            init,
            WireValue::Bytes(wire_bytes(a)),
            budget,
        ) {
            Some(v) => as_message::<M>(v, WireValue::Bytes(wire_bytes(b)), budget),
            None => None,
        },
{
    let inner = (budget - 1) as nat;
    assert(all_writable(a + b)) by {
        assert forall|i: int| 0 <= i < (a + b).len() implies writable(#[trigger] (a + b)[i]) by {
            if i < a.len() {
                assert((a + b)[i] == a[i]);
            } else {
                assert((a + b)[i] == b[i - a.len()]);
            }
        }
    }
    wire_round_trip(a, inner);
    wire_round_trip(b, inner);
    wire_round_trip(a + b, inner);
    messages_are_taken_in_by_parts::<M>(init, a, b, inner);
}

// ---------------------------------------------------------------------------------------------
// Messages
// ---------------------------------------------------------------------------------------------
/// Every message has the fields of the protocol: what it does not know it passes over, and what
/// does not fit it refuses.
pub proof fn messages_keep_to_the_protocol()
    ensures
        has_fields::<Size>(set![1u32, 2u32], Set::empty(), Set::empty()),
        has_fields::<ClientInformation>(set![3u32], set![1u32, 2u32, 4u32, 5u32, 6u32], Set::empty()),
        has_fields::<HelloFromClient>(Set::empty(), set![1u32, 2u32], Set::empty()),
        has_fields::<Authenticate>(set![1u32], Set::empty(), Set::empty()),
        has_fields::<CancelAuthenticate>(set![1u32], Set::empty(), Set::empty()),
        has_fields::<KeypadConfig>(set![4u32, 5u32, 7u32], set![2u32, 3u32, 6u32], set![1u32]),
        has_fields::<CreateVirtualDevice>(set![1u32, 4u32], set![2u32, 3u32], Set::empty()),
        has_fields::<OpenVirtualDevice>(set![1u32], set![2u32, 3u32], Set::empty()),
        has_fields::<DeleteVirtualDevice>(set![1u32], Set::empty(), Set::empty()),
        has_fields::<KeyPress>(set![1u32, 2u32], Set::empty(), Set::empty()),
        has_fields::<NextPage>(Set::empty(), Set::empty(), Set::empty()),
        has_fields::<PreviousPage>(Set::empty(), Set::empty(), Set::empty()),
        has_fields::<PageByIndex>(set![1u32], Set::empty(), Set::empty()),
        has_fields::<UpdateKeypadConfig>(set![3u32], set![1u32, 2u32, 4u32], Set::empty()),
        has_fields::<AssignShortcut>(set![3u32], set![1u32, 2u32], Set::empty()),
        has_fields::<RemoveShortcut>(set![1u32], set![2u32], Set::empty()),
        has_fields::<TriggerShortcut>(Set::empty(), set![1u32, 2u32], Set::empty()),
        has_fields::<ClientCapabilities>(set![1u32], Set::empty(), Set::empty()),
        has_fields::<ClientMessage>(Set::empty(), payload_tags(), Set::empty()),
{
}

/// Of a value that comes more than once, the last counts.
pub proof fn later_values_count()
    ensures
        last_counts::<Size>(set![1u32, 2u32]),
        last_counts::<ClientInformation>(set![1u32, 2u32, 3u32, 4u32, 5u32, 6u32]),
        last_counts::<HelloFromClient>(set![1u32]),
        last_counts::<Authenticate>(set![1u32]),
        last_counts::<CancelAuthenticate>(set![1u32]),
        last_counts::<KeypadConfig>(set![4u32, 5u32, 7u32]),
        last_counts::<CreateVirtualDevice>(set![1u32, 2u32, 4u32]),
        last_counts::<OpenVirtualDevice>(set![1u32, 2u32]),
        last_counts::<DeleteVirtualDevice>(set![1u32]),
        last_counts::<KeyPress>(set![1u32, 2u32]),
        last_counts::<PageByIndex>(set![1u32]),
        last_counts::<UpdateKeypadConfig>(set![3u32]),
        last_counts::<AssignShortcut>(set![1u32, 2u32, 3u32]),
        last_counts::<RemoveShortcut>(set![1u32, 2u32]),
        last_counts::<TriggerShortcut>(set![1u32, 2u32]),
        last_counts::<ClientCapabilities>(set![1u32]),
{
}

/// The values of a message may come in any order.
pub proof fn values_come_in_any_order()
    ensures
        in_any_order::<Size>(),
        in_any_order::<ClientInformation>(),
        in_any_order::<HelloFromClient>(),
        in_any_order::<KeypadConfig>(),
        in_any_order::<CreateVirtualDevice>(),
        in_any_order::<OpenVirtualDevice>(),
        in_any_order::<KeyPress>(),
        in_any_order::<UpdateKeypadConfig>(),
        in_any_order::<AssignShortcut>(),
        in_any_order::<RemoveShortcut>(),
        in_any_order::<TriggerShortcut>(),
{
}

/// Numbers that are too long are cut to the 32 bits that the protocol has for them.
pub proof fn long_numbers_are_cut()
    ensures
        has_32_bits::<Size>(set![1u32, 2u32]),
        has_32_bits::<ClientInformation>(set![3u32]),
        has_32_bits::<Authenticate>(set![1u32]),
        has_32_bits::<CancelAuthenticate>(set![1u32]),
        has_32_bits::<CreateVirtualDevice>(set![1u32]),
        has_32_bits::<OpenVirtualDevice>(set![1u32]),
        has_32_bits::<DeleteVirtualDevice>(set![1u32]),
        has_32_bits::<KeyPress>(set![1u32]),
        has_32_bits::<PageByIndex>(set![1u32]),
        has_32_bits::<AssignShortcut>(set![3u32]),
        has_32_bits::<RemoveShortcut>(set![1u32]),
{
    assert forall|x: u64| #[trigger] (x as u32) == ((x % 0x1_0000_0000) as u64) as u32 by {
        assert(x as u32 == ((x % 0x1_0000_0000) as u64) as u32) by (bit_vector);
    }
}

/// A flag is set by every number but zero.
pub proof fn flags_are_set_by_any_number()
    ensures
        are_flags::<KeypadConfig>(set![4u32, 5u32, 7u32]),
        are_flags::<CreateVirtualDevice>(set![4u32]),
        are_flags::<KeyPress>(set![2u32]),
        are_flags::<UpdateKeypadConfig>(set![3u32]),
        are_flags::<ClientCapabilities>(set![1u32]),
{
}

/// Texts are refused if they are not valid UTF-8, and taken otherwise; a key may be any bytes.
pub proof fn texts_are_valid(v: HelloFromClientView, b: Seq<u8>, budget: nat)
    ensures
        are_texts::<ClientInformation>(set![1u32, 2u32, 4u32, 5u32, 6u32]),
        are_texts::<CreateVirtualDevice>(set![2u32]),
        are_texts::<OpenVirtualDevice>(set![2u32]),
        are_texts::<AssignShortcut>(set![1u32, 2u32]),
        are_texts::<RemoveShortcut>(set![2u32]),
        are_texts::<TriggerShortcut>(set![1u32, 2u32]),
        HelloFromClient::absorbed(v, run(1, b), budget) matches Some(w) && w.public_key == b
            && w.client_information == v.client_information,
{
}

/// Messages inside of messages are refused if they are no runs of fields, or nest too deep.
pub proof fn embedded_messages_are_runs_of_fields()
    ensures
        are_messages::<HelloFromClient>(set![2u32]),
        are_messages::<KeypadConfig>(set![2u32, 3u32, 6u32]),
        are_messages::<CreateVirtualDevice>(set![3u32]),
        are_messages::<OpenVirtualDevice>(set![3u32]),
        are_messages::<UpdateKeypadConfig>(set![1u32, 2u32, 4u32]),
        are_messages::<ClientMessage>(payload_tags()),
{
}

/// The formats of a keypad may come one by one or several at once: each field adds its numbers to
/// those that came before.
pub proof fn formats_are_collected(v: KeypadConfigView, x: u64, b: Seq<u8>, budget: nat)
    ensures
        KeypadConfig::absorbed(v, number(1, x), budget) matches Some(w)
            && w.supported_icon_image_formats == v.supported_icon_image_formats.push(x as i32),
        packed_numbers(b) matches Some(ns) ==> (KeypadConfig::absorbed(
            v,
            run(1, b),
            budget,
        ) matches Some(w) && w.supported_icon_image_formats == v.supported_icon_image_formats + ns),
        packed_numbers(b) is None ==> KeypadConfig::absorbed(v, run(1, b), budget) is None,
        b.len() > 0 && varint_at(b) is None ==> packed_numbers(b) is None,
{
    assert(v.supported_icon_image_formats + seq![x as i32] =~= v.supported_icon_image_formats.push(
        x as i32,
    ));
}

/// A hello may bring the description of the app in parts, which are put together as if all their
/// fields had come at once.
pub proof fn hellos_join_their_parts(
    v: HelloFromClientView,
    tag: u32,
    a: Seq<WireField>,
    b: Seq<WireField>,
    budget: nat,
)
    requires
        set![2u32].contains(tag),
        all_writable(a),
        all_writable(b),
        budget > 1,
    ensures
        HelloFromClient::absorbed(v, carries(tag, a + b), budget) == match HelloFromClient::absorbed(
            v,
            carries(tag, a),
            budget,
        ) {
            Some(w) => HelloFromClient::absorbed(w, carries(tag, b), budget),
            None => None,
        },
{
    lemma_parts::<ClientInformation>(
        match v.client_information {
            Some(m) => m,
            None => ClientInformation::blank(),
        },
        a,
        b,
        budget,
    );
}

/// The sizes of a keypad may come in parts, too.
pub proof fn keypads_join_their_parts(
    v: KeypadConfigView,
    tag: u32,
    a: Seq<WireField>,
    b: Seq<WireField>,
    budget: nat,
)
    requires
        set![2u32, 3u32, 6u32].contains(tag),
        all_writable(a),
        all_writable(b),
        budget > 1,
    ensures
        KeypadConfig::absorbed(v, carries(tag, a + b), budget) == match KeypadConfig::absorbed(
            v,
            carries(tag, a),
            budget,
        ) {
            Some(w) => KeypadConfig::absorbed(w, carries(tag, b), budget),
            None => None,
        },
{
    lemma_parts::<Size>(
        match v.icon_size {
            Some(m) => m,
            None => Size::blank(),
        },
        a,
        b,
        budget,
    );
    lemma_parts::<Size>(
        match v.pressed_icon_size {
            Some(m) => m,
            None => Size::blank(),
        },
        a,
        b,
        budget,
    );
    lemma_parts::<Size>(
        match v.layout_crop {
            Some(m) => m,
            None => Size::blank(),
        },
        a,
        b,
        budget,
    );
}

/// The keypad of a device that is created may come in parts.
pub proof fn created_devices_join_their_parts(
    v: CreateVirtualDeviceView,
    tag: u32,
    a: Seq<WireField>,
    b: Seq<WireField>,
    budget: nat,
)
    requires
        set![3u32].contains(tag),
        all_writable(a),
        all_writable(b),
        budget > 1,
    ensures
        CreateVirtualDevice::absorbed(v, carries(tag, a + b), budget) == match CreateVirtualDevice::absorbed(
            v,
            carries(tag, a),
            budget,
        ) {
            Some(w) => CreateVirtualDevice::absorbed(w, carries(tag, b), budget),
            None => None,
        },
{
    lemma_parts::<KeypadConfig>(
        match v.keypad_config {
            Some(m) => m,
            None => KeypadConfig::blank(),
        },
        a,
        b,
        budget,
    );
}

/// The keypad of a device that is opened may come in parts.
pub proof fn opened_devices_join_their_parts(
    v: OpenVirtualDeviceView,
    tag: u32,
    a: Seq<WireField>,
    b: Seq<WireField>,
    budget: nat,
)
    requires
        set![3u32].contains(tag),
        all_writable(a),
        all_writable(b),
        budget > 1,
    ensures
        OpenVirtualDevice::absorbed(v, carries(tag, a + b), budget) == match OpenVirtualDevice::absorbed(
            v,
            carries(tag, a),
            budget,
        ) {
            Some(w) => OpenVirtualDevice::absorbed(w, carries(tag, b), budget),
            None => None,
        },
{
    lemma_parts::<KeypadConfig>(
        match v.keypad_config {
            Some(m) => m,
            None => KeypadConfig::blank(),
        },
        a,
        b,
        budget,
    );
}

/// The sizes of an update may come in parts.
pub proof fn updates_join_their_parts(
    v: UpdateKeypadConfig,
    tag: u32,
    a: Seq<WireField>,
    b: Seq<WireField>,
    budget: nat,
)
    requires
        set![1u32, 2u32, 4u32].contains(tag),
        all_writable(a),
        all_writable(b),
        budget > 1,
    ensures
        UpdateKeypadConfig::absorbed(v, carries(tag, a + b), budget) == match UpdateKeypadConfig::absorbed(
            v,
            carries(tag, a),
            budget,
        ) {
            Some(w) => UpdateKeypadConfig::absorbed(w, carries(tag, b), budget),
            None => None,
        },
{
    lemma_parts::<Size>(
        match v.icon_size {
            Some(m) => m,
            None => Size::blank(),
        },
        a,
        b,
        budget,
    );
    lemma_parts::<Size>(
        match v.pressed_icon_size {
            Some(m) => m,
            None => Size::blank(),
        },
        a,
        b,
        budget,
    );
    lemma_parts::<Size>(
        match v.layout_crop {
            Some(m) => m,
            None => Size::blank(),
        },
        a,
        b,
        budget,
    );
}

/// Whether a tag is one of a message of the app.
pub open spec fn is_payload(tag: u32) -> bool {
    payload_tags().contains(tag)
}

/// Of several messages in one frame, the last counts, whatever came before it was of another kind.
/// Parts of one message are put together.
#[verifier::rlimit(60)]
pub proof fn the_last_message_of_a_frame_counts(
    v: ClientMessageView,
    f: WireField,
    g: WireField,
    a: Seq<WireField>,
    b: Seq<WireField>,
    budget: nat,
)
    requires
        is_payload(f.tag),
        is_payload(g.tag),
        all_writable(a),
        all_writable(b),
        budget > 1,
    ensures
        f.tag != g.tag ==> (ClientMessage::absorbed(v, f, budget) matches Some(w)
            ==> ClientMessage::absorbed(w, g, budget) == ClientMessage::absorbed(
            ClientMessageView { payload: None },
            g,
            budget,
        )),
        ClientMessage::absorbed(v, carries(f.tag, a + b), budget) == match ClientMessage::absorbed(
            v,
            carries(f.tag, a),
            budget,
        ) {
            Some(w) => ClientMessage::absorbed(w, carries(f.tag, b), budget),
            None => None,
        },
{
    if f.tag == 1 {
        lemma_parts::<HelloFromClient>(
            match v.payload {
                Some(PayloadView::Hello(m)) => m,
                _ => HelloFromClient::blank(),
            },
            a,
            b,
            budget,
        );
    }
    if f.tag == 2 {
        lemma_parts::<Authenticate>(
            match v.payload {
                Some(PayloadView::Authenticate(m)) => m,
                _ => Authenticate::blank(),
            },
            a,
            b,
            budget,
        );
    }
    if f.tag == 3 {
        lemma_parts::<CancelAuthenticate>(
            match v.payload {
                Some(PayloadView::CancelAuthenticate(m)) => m,
                _ => CancelAuthenticate::blank(),
            },
            a,
            b,
            budget,
        );
    }
    if f.tag == 10 {
        lemma_parts::<CreateVirtualDevice>(
            match v.payload {
                Some(PayloadView::CreateVirtualDevice(m)) => m,
                _ => CreateVirtualDevice::blank(),
            },
            a,
            b,
            budget,
        );
    }
    if f.tag == 11 {
        lemma_parts::<OpenVirtualDevice>(
            match v.payload {
                Some(PayloadView::OpenVirtualDevice(m)) => m,
                _ => OpenVirtualDevice::blank(),
            },
            a,
            b,
            budget,
        );
    }
    if f.tag == 12 {
        lemma_parts::<DeleteVirtualDevice>(
            match v.payload {
                Some(PayloadView::DeleteVirtualDevice(m)) => m,
                _ => DeleteVirtualDevice::blank(),
            },
            a,
            b,
            budget,
        );
    }
    if f.tag == 20 {
        lemma_parts::<KeyPress>(
            match v.payload {
                Some(PayloadView::KeyPress(m)) => m,
                _ => KeyPress::blank(),
            },
            a,
            b,
            budget,
        );
    }
    if f.tag == 21 {
        lemma_parts::<NextPage>(
            match v.payload {
                Some(PayloadView::NextPage(m)) => m,
                _ => NextPage::blank(),
            },
            a,
            b,
            budget,
        );
    }
    if f.tag == 22 {
        lemma_parts::<PreviousPage>(
            match v.payload {
                Some(PayloadView::PreviousPage(m)) => m,
                _ => PreviousPage::blank(),
            },
            a,
            b,
            budget,
        );
    }
    if f.tag == 23 {
        lemma_parts::<PageByIndex>(
            match v.payload {
                Some(PayloadView::PageByIndex(m)) => m,
                _ => PageByIndex::blank(),
            },
            a,
            b,
            budget,
        );
    }
    if f.tag == 30 {
        lemma_parts::<UpdateKeypadConfig>(
            match v.payload {
                Some(PayloadView::UpdateKeypadConfig(m)) => m,
                _ => UpdateKeypadConfig::blank(),
            },
            a,
            b,
            budget,
        );
    }
    if f.tag == 31 {
        lemma_parts::<AssignShortcut>(
            match v.payload {
                Some(PayloadView::AssignShortcut(m)) => m,
                _ => AssignShortcut::blank(),
            },
            a,
            b,
            budget,
        );
    }
    if f.tag == 32 {
        lemma_parts::<RemoveShortcut>(
            match v.payload {
                Some(PayloadView::RemoveShortcut(m)) => m,
                _ => RemoveShortcut::blank(),
            },
            a,
            b,
            budget,
        );
    }
    if f.tag == 33 {
        lemma_parts::<TriggerShortcut>(
            match v.payload {
                Some(PayloadView::TriggerShortcut(m)) => m,
                _ => TriggerShortcut::blank(),
            },
            a,
            b,
            budget,
        );
    }
    if f.tag == 100 {
        lemma_parts::<ClientCapabilities>(
            match v.payload {
                Some(PayloadView::ClientCapabilities(m)) => m,
                _ => ClientCapabilities::blank(),
            },
            a,
            b,
            budget,
        );
    }
}

} // verus!
