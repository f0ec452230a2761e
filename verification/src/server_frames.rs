//! What a mobile app reads out of the frames of the server: exactly what was put in.
use vstd::prelude::*;
use vstd::utf8::{decode_utf8, encode_utf8, encode_utf8_decode_utf8};

use crate::client_message::Size;
use crate::message::{
    bytes_field, flag_field, message_field, messages_field, number_field, option_message_field,
    option_text_field, packed_bytes, packed_field, text_field, texts_field, Writable,
};
use crate::server_message::{
    frame_of, Action, ActionView, Context, ContextUpdate, ContextUpdateView, ContextView,
    ErrorReply, ErrorReplyView, HelloFromServer, HelloFromServerView, Icon, IconView, Image,
    ImageView, OkReply, PayloadView, ServiceEndpoints,
    ServiceEndpointsView, VirtualDevice, VirtualDeviceList, VirtualDeviceListView,
    VirtualDeviceOpened, VirtualDeviceOpenedView, VirtualDeviceView,
};
use crate::wire::{
    fields_of, is_legal, lemma_writable, varint_at, varint_bytes, varint_round_trip, wire_bytes,
    wire_round_trip, WireField, WireValue, NESTING_LIMIT,
};

verus! {

// ---------------------------------------------------------------------------------------------
// Fields by their tags
// ---------------------------------------------------------------------------------------------
/// What the last field with a tag carries.
pub open spec fn last_value(fs: Seq<WireField>, tag: u32) -> Option<WireValue>
    decreases fs.len(),
{
    if fs.len() == 0 {
        None
    } else if fs.last().tag == tag {
        Some(fs.last().value)
    } else {
        last_value(fs.drop_last(), tag)
    }
}

/// What the fields with a tag carry, in order.
pub open spec fn all_values(fs: Seq<WireField>, tag: u32) -> Seq<WireValue>
    decreases fs.len(),
{
    if fs.len() == 0 {
        seq![]
    } else if fs.last().tag == tag {
        all_values(fs.drop_last(), tag).push(fs.last().value)
    } else {
        all_values(fs.drop_last(), tag)
    }
}

/// The number under a tag; zero if there is none.
pub open spec fn number_in(fs: Seq<WireField>, tag: u32) -> u64 {
    match last_value(fs, tag) {
        Some(WireValue::Varint(v)) => v,
        _ => 0,
    }
}

/// The run of bytes in a value.
pub open spec fn run_of(value: WireValue) -> Seq<u8> {
    match value {
        WireValue::Bytes(b) => b,
        _ => seq![],
    }
}

/// The run of bytes under a tag; empty if there is none.
pub open spec fn run_in(fs: Seq<WireField>, tag: u32) -> Seq<u8> {
    match last_value(fs, tag) {
        Some(value) => run_of(value),
        None => seq![],
    }
}

/// The text under a tag; empty if there is none.
pub open spec fn text_in(fs: Seq<WireField>, tag: u32) -> Seq<char> {
    decode_utf8(run_in(fs, tag))
}

/// The text under a tag, if there is one.
pub open spec fn option_text_in(fs: Seq<WireField>, tag: u32) -> Option<Seq<char>> {
    if last_value(fs, tag) is Some {
        Some(text_in(fs, tag))
    } else {
        None
    }
}

/// The fields that are laid out in bytes.
pub open spec fn read(b: Seq<u8>) -> Seq<WireField> {
    match fields_of(b, NESTING_LIMIT as nat) {
        Some(fs) => fs,
        None => seq![],
    }
}

/// The numbers in a packed run.
pub open spec fn unpacked(b: Seq<u8>) -> Seq<u32>
    decreases b.len(),
{
    match varint_at(b) {
        Some((v, n)) => if 1 <= n <= b.len() {
            seq![v as u32] + unpacked(b.skip(n as int))
        } else {
            seq![]
        },
        None => seq![],
    }
}

// ---------------------------------------------------------------------------------------------
// Messages
// ---------------------------------------------------------------------------------------------
/// A size, as an app reads it.
pub open spec fn size_read(b: Seq<u8>) -> Size {
    let fs = read(b);
    Size { width: number_in(fs, 1) as u32, height: number_in(fs, 2) as u32 }
}

/// The failure of a request, as an app reads it.
pub open spec fn error_read(b: Seq<u8>) -> ErrorReplyView {
    let fs = read(b);
    ErrorReplyView {
        request_id: number_in(fs, 1) as u32,
        code: number_in(fs, 2) as i32,
        reason: option_text_in(fs, 3),
    }
}

/// The success of a request, as an app reads it.
pub open spec fn success_read(b: Seq<u8>) -> OkReply {
    OkReply { request_id: number_in(read(b), 1) as u32 }
}

/// A virtual device, as an app reads it.
pub open spec fn device_read(b: Seq<u8>) -> VirtualDeviceView {
    let fs = read(b);
    VirtualDeviceView { id: text_in(fs, 1), name: text_in(fs, 2) }
}

/// The virtual devices that there are, as an app reads them.
pub open spec fn device_list_read(b: Seq<u8>) -> VirtualDeviceListView {
    VirtualDeviceListView {
        devices: all_values(read(b), 1).map_values(|value: WireValue| device_read(run_of(value))),
    }
}

/// That a virtual device is ready, as an app reads it.
pub open spec fn device_opened_read(b: Seq<u8>) -> VirtualDeviceOpenedView {
    let fs = read(b);
    VirtualDeviceOpenedView {
        request_id: number_in(fs, 1) as u32,
        device: if last_value(fs, 2) is Some {
            Some(device_read(run_in(fs, 2)))
        } else {
            None
        },
    }
}

/// Where the service can be reached, as an app reads it.
pub open spec fn endpoints_read(b: Seq<u8>) -> ServiceEndpointsView {
    let fs = read(b);
    ServiceEndpointsView {
        addresses: all_values(fs, 1).map_values(|value: WireValue| decode_utf8(run_of(value))),
        port: number_in(fs, 2) as u32,
    }
}

/// The answer to a hello, as an app reads it.
pub open spec fn hello_read(b: Seq<u8>) -> HelloFromServerView {
    let fs = read(b);
    HelloFromServerView {
        workstation_id: text_in(fs, 1),
        hostname: text_in(fs, 2),
        version: text_in(fs, 3),
        protocol_version: number_in(fs, 4) as u32,
        public_key: run_in(fs, 5),
        client_needs_authentication: number_in(fs, 6) != 0,
        os_name: option_text_in(fs, 7),
        os_version: option_text_in(fs, 8),
        endpoints: if last_value(fs, 9) is Some {
            Some(endpoints_read(run_in(fs, 9)))
        } else {
            None
        },
    }
}

/// A picture, as an app reads it.
pub open spec fn image_read(b: Seq<u8>) -> ImageView {
    let fs = read(b);
    ImageView {
        format: number_in(fs, 1) as i32,
        image_type: number_in(fs, 2) as i32,
        size: if last_value(fs, 3) is Some {
            Some(size_read(run_in(fs, 3)))
        } else {
            None
        },
        row_bytes: number_in(fs, 4) as u32,
        image: run_in(fs, 5),
    }
}

/// The picture of a key, as an app reads it.
pub open spec fn icon_read(b: Seq<u8>) -> IconView {
    let fs = read(b);
    IconView {
        index: number_in(fs, 1) as u32,
        image: if last_value(fs, 2) is Some {
            Some(image_read(run_in(fs, 2)))
        } else {
            None
        },
    }
}

/// What a key stands for, as an app reads it.
pub open spec fn action_read(b: Seq<u8>) -> ActionView {
    let fs = read(b);
    ActionView {
        index: number_in(fs, 1) as u32,
        title: text_in(fs, 2),
        name: text_in(fs, 3),
        category: text_in(fs, 4),
        shortcut_id: option_text_in(fs, 5),
    }
}

/// The page that the keys show, as an app reads it.
pub open spec fn context_read(b: Seq<u8>) -> ContextView {
    let fs = read(b);
    ContextView {
        profile_id: text_in(fs, 1),
        total_pages: number_in(fs, 2) as u32,
        current_page: number_in(fs, 3) as u32,
        actions: all_values(fs, 4).map_values(|value: WireValue| action_read(run_of(value))),
    }
}

/// Changes to the page, as an app reads them.
pub open spec fn context_update_read(b: Seq<u8>) -> ContextUpdateView {
    let fs = read(b);
    ContextUpdateView {
        profile_id: text_in(fs, 1),
        replace: all_values(fs, 2).map_values(|value: WireValue| action_read(run_of(value))),
        remove: unpacked(run_in(fs, 3)),
    }
}

/// What a frame of the server says to the app.
pub open spec fn app_reads(frame: Seq<u8>) -> Option<PayloadView> {
    let fs = read(frame);
    if fs.len() != 1 {
        None
    } else {
        let b = run_of(fs[0].value);
        match fs[0].tag {
            1 => Some(PayloadView::Error(error_read(b))),
            2 => Some(PayloadView::Success(success_read(b))),
            10 => Some(PayloadView::Hello(hello_read(b))),
            20 => Some(PayloadView::VirtualDeviceList(device_list_read(b))),
            21 => Some(PayloadView::VirtualDeviceOpened(device_opened_read(b))),
            30 => Some(PayloadView::Context(context_read(b))),
            31 => Some(PayloadView::ContextUpdate(context_update_read(b))),
            40 => Some(PayloadView::Icon(icon_read(b))),
            _ => None,
        }
    }
}

// ---------------------------------------------------------------------------------------------
// Fields are found again
// ---------------------------------------------------------------------------------------------
spec fn all_legal(fs: Seq<WireField>) -> bool {
    forall|i: int| 0 <= i < fs.len() ==> is_legal(#[trigger] fs[i])
}

proof fn lemma_concat(a: Seq<WireField>, b: Seq<WireField>, tag: u32)
    ensures
        last_value(a + b, tag) == match last_value(b, tag) {
            Some(value) => Some(value),
            None => last_value(a, tag),
        },
        all_values(a + b, tag) == all_values(a, tag) + all_values(b, tag),
    decreases b.len(),
{
    if b.len() == 0 {
        assert(a + b =~= a);
        assert(all_values(a, tag) + all_values(b, tag) =~= all_values(a, tag));
    } else {
        assert((a + b).drop_last() =~= a + b.drop_last());
        lemma_concat(a, b.drop_last(), tag);
        assert(all_values(a + b, tag) =~= all_values(a, tag) + all_values(b, tag));
    }
}

/// The fields of two parts of a message are found in the whole.
proof fn lemma_found(a: Seq<WireField>, b: Seq<WireField>)
    ensures
        forall|tag: u32|
            #![trigger last_value(a + b, tag)]
            last_value(a + b, tag) == match last_value(b, tag) {
                Some(value) => Some(value),
                None => last_value(a, tag),
            },
        forall|tag: u32|
            #![trigger all_values(a + b, tag)]
            all_values(a + b, tag) == all_values(a, tag) + all_values(b, tag),
        all_legal(a) && all_legal(b) ==> all_legal(a + b),
{
    assert forall|tag: u32|
        last_value(a + b, tag) == match last_value(b, tag) {
            Some(value) => Some(value),
            None => last_value(a, tag),
        } && all_values(a + b, tag) == all_values(a, tag) + all_values(b, tag) by {
        lemma_concat(a, b, tag);
    }
    if all_legal(a) && all_legal(b) {
        assert forall|i: int| 0 <= i < (a + b).len() implies is_legal(#[trigger] (a + b)[i]) by {
            if i < a.len() {
                assert((a + b)[i] == a[i]);
            } else {
                assert((a + b)[i] == b[i - a.len()]);
            }
        }
    }
}

proof fn lemma_one(tag: u32, value: WireValue, other: u32)
    ensures
        last_value(seq![WireField { tag, value }], other) == if tag == other {
            Some(value)
        } else {
            None
        },
        all_values(seq![WireField { tag, value }], other) == if tag == other {
            seq![value]
        } else {
            seq![]
        },
{
    let fs = seq![WireField { tag, value }];
    reveal_with_fuel(last_value, 2);
    reveal_with_fuel(all_values, 2);
    assert(fs.drop_last() =~= seq![]);
    if tag == other {
        assert(all_values(fs, other) =~= seq![value]);
    } else {
        assert(all_values(fs, other) =~= seq![]);
    }
}

/// A part of a message that is one field, or none.
proof fn lemma_single(fs: Seq<WireField>, tag: u32)
    requires
        fs.len() <= 1,
        fs.len() == 1 ==> fs[0].tag == tag && is_legal(fs[0]),
    ensures
        all_legal(fs),
        forall|other: u32|
            #![trigger last_value(fs, other)]
            last_value(fs, other) == if other == tag && fs.len() == 1 {
                Some(fs[0].value)
            } else {
                None
            },
        forall|other: u32|
            #![trigger all_values(fs, other)]
            other != tag ==> all_values(fs, other) == Seq::<WireValue>::empty(),
{
    if fs.len() == 1 {
        let f = fs[0];
        assert(fs =~= seq![WireField { tag: f.tag, value: f.value }]);
        assert forall|other: u32|
            last_value(fs, other) == (if other == tag {
                Some(f.value)
            } else {
                None
            }) && (other != tag ==> all_values(fs, other) == Seq::<WireValue>::empty()) by {
            lemma_one(f.tag, f.value, other);
        }
    }
}

/// A part of a message that is a list of fields under one tag.
proof fn lemma_many(fs: Seq<WireField>, tag: u32)
    requires
        forall|i: int| 0 <= i < fs.len() ==> (#[trigger] fs[i]).tag == tag,
        all_legal(fs),
    ensures
        forall|other: u32|
            #![trigger last_value(fs, other)]
            other != tag ==> last_value(fs, other) is None,
        all_values(fs, tag).len() == fs.len(),
        forall|i: int| 0 <= i < fs.len() ==> #[trigger] all_values(fs, tag)[i] == fs[i].value,
    decreases fs.len(),
{
    if fs.len() > 0 {
        let init = fs.drop_last();
        assert forall|i: int| 0 <= i < init.len() implies (#[trigger] init[i]).tag == tag && is_legal(
            init[i],
        ) by {
            assert(init[i] == fs[i]);
        }
        lemma_many(init, tag);
        assert forall|other: u32| other != tag implies #[trigger] last_value(fs, other) is None by {
            assert(fs[fs.len() - 1].tag == tag);
            assert(last_value(init, other) is None);
        }
        assert forall|i: int| 0 <= i < fs.len() implies #[trigger] all_values(fs, tag)[i]
            == fs[i].value by {
            if i < init.len() {
                assert(init[i] == fs[i]);
                assert(all_values(fs, tag)[i] == all_values(init, tag)[i]);
            }
        }
    }
}

/// What a field carries is no longer than the message that it is a part of.
proof fn lemma_shorter(fs: Seq<WireField>, tag: u32)
    ensures
        run_in(fs, tag).len() <= wire_bytes(fs).len(),
        forall|i: int|
            0 <= i < all_values(fs, tag).len() ==> run_of(#[trigger] all_values(fs, tag)[i]).len()
                <= wire_bytes(fs).len(),
    decreases fs.len(),
{
    if fs.len() > 0 {
        let init = fs.drop_last();
        lemma_shorter(init, tag);
        assert forall|i: int| 0 <= i < all_values(fs, tag).len() implies run_of(
            #[trigger] all_values(fs, tag)[i],
        ).len() <= wire_bytes(fs).len() by {
            if i < all_values(init, tag).len() {
                assert(all_values(fs, tag)[i] == all_values(init, tag)[i]);
            }
        }
    }
}

proof fn lemma_read(fs: Seq<WireField>)
    requires
        all_legal(fs),
        wire_bytes(fs).len() <= u64::MAX,
    ensures
        read(wire_bytes(fs)) == fs,
{
    lemma_writable(fs);
    wire_round_trip(fs, NESTING_LIMIT as nat);
}

proof fn lemma_number(tag: u32, v: u64)
    requires
        1 <= tag < 0x2000_0000,
    ensures
        all_legal(number_field(tag, v)),
        forall|other: u32|
            #![trigger last_value(number_field(tag, v), other)]
            last_value(number_field(tag, v), other) == if other == tag && v != 0 {
                Some(WireValue::Varint(v))
            } else {
                None
            },
        forall|other: u32|
            #![trigger all_values(number_field(tag, v), other)]
            other != tag ==> all_values(number_field(tag, v), other) == Seq::<WireValue>::empty(),
{
    lemma_single(number_field(tag, v), tag);
}

proof fn lemma_bytes(tag: u32, b: Seq<u8>)
    requires
        1 <= tag < 0x2000_0000,
    ensures
        all_legal(bytes_field(tag, b)),
        forall|other: u32|
            #![trigger last_value(bytes_field(tag, b), other)]
            last_value(bytes_field(tag, b), other) == if other == tag && b.len() != 0 {
                Some(WireValue::Bytes(b))
            } else {
                None
            },
        forall|other: u32|
            #![trigger all_values(bytes_field(tag, b), other)]
            other != tag ==> all_values(bytes_field(tag, b), other) == Seq::<WireValue>::empty(),
{
    lemma_single(bytes_field(tag, b), tag);
}

proof fn lemma_utf8(t: Seq<char>)
    ensures
        decode_utf8(encode_utf8(t)) == t,
        encode_utf8(t).len() == 0 ==> encode_utf8(t) == Seq::<u8>::empty(),
{
    encode_utf8_decode_utf8(t);
    if encode_utf8(t).len() == 0 {
        assert(encode_utf8(t) =~= seq![]);
    }
}

proof fn lemma_text(tag: u32, t: Seq<char>)
    requires
        1 <= tag < 0x2000_0000,
    ensures
        all_legal(text_field(tag, t)),
        forall|other: u32|
            #![trigger last_value(text_field(tag, t), other)]
            last_value(text_field(tag, t), other) == if other == tag && encode_utf8(t).len() != 0 {
                Some(WireValue::Bytes(encode_utf8(t)))
            } else {
                None
            },
        forall|other: u32|
            #![trigger all_values(text_field(tag, t), other)]
            other != tag ==> all_values(text_field(tag, t), other) == Seq::<WireValue>::empty(),
        decode_utf8(encode_utf8(t)) == t,
        encode_utf8(t).len() == 0 ==> encode_utf8(t) == Seq::<u8>::empty(),
{
    lemma_bytes(tag, encode_utf8(t));
    lemma_utf8(t);
}

proof fn lemma_option_text(tag: u32, t: Option<Seq<char>>)
    requires
        1 <= tag < 0x2000_0000,
    ensures
        all_legal(option_text_field(tag, t)),
        forall|other: u32|
            #![trigger last_value(option_text_field(tag, t), other)]
            last_value(option_text_field(tag, t), other) == if other == tag && t is Some {
                Some(WireValue::Bytes(encode_utf8(t.unwrap())))
            } else {
                None
            },
        t matches Some(t) ==> decode_utf8(encode_utf8(t)) == t,
{
    lemma_single(option_text_field(tag, t), tag);
    if let Some(t) = t {
        lemma_utf8(t);
    }
}

proof fn lemma_option_message<M: Writable>(tag: u32, v: Option<M::V>)
    requires
        1 <= tag < 0x2000_0000,
    ensures
        all_legal(option_message_field::<M>(tag, v)),
        forall|other: u32|
            #![trigger last_value(option_message_field::<M>(tag, v), other)]
            last_value(option_message_field::<M>(tag, v), other) == if other == tag && v is Some {
                Some(WireValue::Bytes(wire_bytes(M::fields(v.unwrap()))))
            } else {
                None
            },
{
    lemma_single(option_message_field::<M>(tag, v), tag);
}

proof fn lemma_messages<M: Writable>(tag: u32, vs: Seq<M::V>)
    requires
        1 <= tag < 0x2000_0000,
    ensures
        all_legal(messages_field::<M>(tag, vs)),
        forall|other: u32|
            #![trigger last_value(messages_field::<M>(tag, vs), other)]
            other != tag ==> last_value(messages_field::<M>(tag, vs), other) is None,
        all_values(messages_field::<M>(tag, vs), tag).len() == vs.len(),
        forall|i: int|
            0 <= i < vs.len() ==> #[trigger] all_values(messages_field::<M>(tag, vs), tag)[i]
                == WireValue::Bytes(wire_bytes(M::fields(vs[i]))),
{
    lemma_many(messages_field::<M>(tag, vs), tag);
}

proof fn lemma_packed_front(ns: Seq<u32>)
    requires
        ns.len() > 0,
    ensures
        packed_bytes(ns) == varint_bytes(ns[0] as u64) + packed_bytes(ns.skip(1)),
    decreases ns.len(),
{
    reveal_with_fuel(packed_bytes, 2);
    if ns.len() == 1 {
        assert(ns.drop_last() =~= seq![]);
        assert(ns.skip(1) =~= seq![]);
        assert(packed_bytes(ns) =~= varint_bytes(ns[0] as u64) + packed_bytes(ns.skip(1)));
    } else {
        lemma_packed_front(ns.drop_last());
        assert(ns.skip(1).drop_last() =~= ns.drop_last().skip(1));
        assert(packed_bytes(ns) =~= varint_bytes(ns[0] as u64) + packed_bytes(ns.skip(1)));
    }
}

proof fn lemma_unpacked(ns: Seq<u32>)
    ensures
        unpacked(packed_bytes(ns)) == ns,
    decreases ns.len(),
{
    if ns.len() > 0 {
        let first = varint_bytes(ns[0] as u64);
        let rest = packed_bytes(ns.skip(1));
        lemma_packed_front(ns);
        varint_round_trip(ns[0] as u64, rest);
        assert((first + rest).skip(first.len() as int) =~= rest);
        lemma_unpacked(ns.skip(1));
        assert(unpacked(packed_bytes(ns)) =~= ns);
    } else {
        assert(unpacked(packed_bytes(ns)) =~= ns);
    }
}

// ---------------------------------------------------------------------------------------------
// Messages are read back
// ---------------------------------------------------------------------------------------------
proof fn size_reads(v: Size)
    requires
        wire_bytes(Size::fields(v)).len() <= u64::MAX,
    ensures
        size_read(wire_bytes(Size::fields(v))) == v,
{
    let f1 = number_field(1, v.width as u64);
    let f2 = number_field(2, v.height as u64);
    lemma_number(1, v.width as u64);
    lemma_number(2, v.height as u64);
    lemma_found(f1, f2);
    lemma_read(f1 + f2);
}

proof fn error_reads(v: ErrorReplyView)
    requires
        wire_bytes(ErrorReply::fields(v)).len() <= u64::MAX,
    ensures
        error_read(wire_bytes(ErrorReply::fields(v))) == v,
{
    let f1 = number_field(1, v.request_id as u64);
    let f2 = number_field(2, v.code as u64);
    let f3 = option_text_field(3, v.reason);
    lemma_number(1, v.request_id as u64);
    lemma_number(2, v.code as u64);
    lemma_option_text(3, v.reason);
    lemma_found(f1, f2);
    lemma_found(f1 + f2, f3);
    lemma_read(f1 + f2 + f3);
    let code = v.code;
    assert((code as u64) as i32 == code) by (bit_vector);
    assert(number_in(f1 + f2 + f3, 2) == code as u64);
}

proof fn success_reads(v: OkReply)
    requires
        wire_bytes(OkReply::fields(v)).len() <= u64::MAX,
    ensures
        success_read(wire_bytes(OkReply::fields(v))) == v,
{
    lemma_number(1, v.request_id as u64);
    lemma_read(number_field(1, v.request_id as u64));
}

proof fn device_reads(v: VirtualDeviceView)
    requires
        wire_bytes(VirtualDevice::fields(v)).len() <= u64::MAX,
    ensures
        device_read(wire_bytes(VirtualDevice::fields(v))) == v,
{
    let f1 = text_field(1, v.id);
    let f2 = text_field(2, v.name);
    lemma_text(1, v.id);
    lemma_text(2, v.name);
    lemma_found(f1, f2);
    lemma_read(f1 + f2);
}

proof fn device_list_reads(v: VirtualDeviceListView)
    requires
        wire_bytes(VirtualDeviceList::fields(v)).len() <= u64::MAX,
    ensures
        device_list_read(wire_bytes(VirtualDeviceList::fields(v))) == v,
{
    let fs = messages_field::<VirtualDevice>(1, v.devices);
    lemma_messages::<VirtualDevice>(1, v.devices);
    lemma_read(fs);
    lemma_shorter(fs, 1);
    let devices = device_list_read(wire_bytes(fs)).devices;
    assert forall|i: int| 0 <= i < v.devices.len() implies #[trigger] devices[i] == v.devices[i] by {
        assert(all_values(fs, 1)[i] == WireValue::Bytes(
            wire_bytes(VirtualDevice::fields(v.devices[i])),
        ));
        device_reads(v.devices[i]);
    }
    assert(devices =~= v.devices);
}

proof fn device_opened_reads(v: VirtualDeviceOpenedView)
    requires
        wire_bytes(VirtualDeviceOpened::fields(v)).len() <= u64::MAX,
    ensures
        device_opened_read(wire_bytes(VirtualDeviceOpened::fields(v))) == v,
{
    let f1 = number_field(1, v.request_id as u64);
    let f2 = option_message_field::<VirtualDevice>(2, v.device);
    lemma_number(1, v.request_id as u64);
    lemma_option_message::<VirtualDevice>(2, v.device);
    lemma_found(f1, f2);
    lemma_read(f1 + f2);
    lemma_shorter(f1 + f2, 2);
    if let Some(device) = v.device {
        device_reads(device);
    }
}

proof fn endpoints_reads(v: ServiceEndpointsView)
    requires
        wire_bytes(ServiceEndpoints::fields(v)).len() <= u64::MAX,
    ensures
        endpoints_read(wire_bytes(ServiceEndpoints::fields(v))) == v,
{
    let f1 = texts_field(1, v.addresses);
    let f2 = number_field(2, v.port as u64);
    let fs = f1 + f2;
    lemma_many(f1, 1);
    lemma_number(2, v.port as u64);
    lemma_found(f1, f2);
    lemma_read(fs);
    assert(all_values(fs, 1) =~= all_values(f1, 1));
    let addresses = endpoints_read(wire_bytes(fs)).addresses;
    assert forall|i: int| 0 <= i < v.addresses.len() implies #[trigger] addresses[i]
        == v.addresses[i] by {
        assert(all_values(f1, 1)[i] == WireValue::Bytes(encode_utf8(v.addresses[i])));
        lemma_utf8(v.addresses[i]);
    }
    assert(addresses =~= v.addresses);
}

#[verifier::rlimit(30)]
proof fn hello_reads(v: HelloFromServerView)
    requires
        wire_bytes(HelloFromServer::fields(v)).len() <= u64::MAX,
    ensures
        hello_read(wire_bytes(HelloFromServer::fields(v))) == v,
{
    let f1 = text_field(1, v.workstation_id);
    let f2 = text_field(2, v.hostname);
    let f3 = text_field(3, v.version);
    let f4 = number_field(4, v.protocol_version as u64);
    let f5 = bytes_field(5, v.public_key);
    let f6 = flag_field(6, v.client_needs_authentication);
    let f7 = option_text_field(7, v.os_name);
    let f8 = option_text_field(8, v.os_version);
    let f9 = option_message_field::<ServiceEndpoints>(9, v.endpoints);
    lemma_text(1, v.workstation_id);
    lemma_text(2, v.hostname);
    lemma_text(3, v.version);
    lemma_number(4, v.protocol_version as u64);
    lemma_bytes(5, v.public_key);
    lemma_number(6, if v.client_needs_authentication { 1 } else { 0 });
    lemma_option_text(7, v.os_name);
    lemma_option_text(8, v.os_version);
    lemma_option_message::<ServiceEndpoints>(9, v.endpoints);
    let fs2 = f1 + f2;
    lemma_found(f1, f2);
    let fs3 = fs2 + f3;
    lemma_found(fs2, f3);
    let fs4 = fs3 + f4;
    lemma_found(fs3, f4);
    let fs5 = fs4 + f5;
    lemma_found(fs4, f5);
    let fs6 = fs5 + f6;
    lemma_found(fs5, f6);
    let fs7 = fs6 + f7;
    lemma_found(fs6, f7);
    let fs8 = fs7 + f8;
    lemma_found(fs7, f8);
    let fs9 = fs8 + f9;
    lemma_found(fs8, f9);
    lemma_read(fs9);
    lemma_shorter(fs9, 9);
    if let Some(endpoints) = v.endpoints {
        endpoints_reads(endpoints);
    }
    let r = hello_read(wire_bytes(fs9));
    assert(r.public_key =~= v.public_key);
}

proof fn image_reads(v: ImageView)
    requires
        wire_bytes(Image::fields(v)).len() <= u64::MAX,
    ensures
        image_read(wire_bytes(Image::fields(v))) == v,
{
    let f1 = number_field(1, v.format as u64);
    let f2 = number_field(2, v.image_type as u64);
    let f3 = option_message_field::<Size>(3, v.size);
    let f4 = number_field(4, v.row_bytes as u64);
    let f5 = bytes_field(5, v.image);
    lemma_number(1, v.format as u64);
    lemma_number(2, v.image_type as u64);
    lemma_option_message::<Size>(3, v.size);
    lemma_number(4, v.row_bytes as u64);
    lemma_bytes(5, v.image);
    let fs2 = f1 + f2;
    lemma_found(f1, f2);
    let fs3 = fs2 + f3;
    lemma_found(fs2, f3);
    let fs4 = fs3 + f4;
    lemma_found(fs3, f4);
    let fs5 = fs4 + f5;
    lemma_found(fs4, f5);
    lemma_read(fs5);
    lemma_shorter(fs5, 3);
    if let Some(size) = v.size {
        size_reads(size);
    }
    let format = v.format;
    let image_type = v.image_type;
    assert((format as u64) as i32 == format) by (bit_vector);
    assert((image_type as u64) as i32 == image_type) by (bit_vector);
    assert(number_in(fs5, 1) == format as u64);
    assert(number_in(fs5, 2) == image_type as u64);
    let r = image_read(wire_bytes(fs5));
    assert(r.image =~= v.image);
}

proof fn icon_reads(v: IconView)
    requires
        wire_bytes(Icon::fields(v)).len() <= u64::MAX,
    ensures
        icon_read(wire_bytes(Icon::fields(v))) == v,
{
    let f1 = number_field(1, v.index as u64);
    let f2 = option_message_field::<Image>(2, v.image);
    lemma_number(1, v.index as u64);
    lemma_option_message::<Image>(2, v.image);
    lemma_found(f1, f2);
    lemma_read(f1 + f2);
    lemma_shorter(f1 + f2, 2);
    if let Some(image) = v.image {
        image_reads(image);
    }
}

proof fn action_reads(v: ActionView)
    requires
        wire_bytes(Action::fields(v)).len() <= u64::MAX,
    ensures
        action_read(wire_bytes(Action::fields(v))) == v,
{
    let f1 = number_field(1, v.index as u64);
    let f2 = text_field(2, v.title);
    let f3 = text_field(3, v.name);
    let f4 = text_field(4, v.category);
    let f5 = option_text_field(5, v.shortcut_id);
    lemma_number(1, v.index as u64);
    lemma_text(2, v.title);
    lemma_text(3, v.name);
    lemma_text(4, v.category);
    lemma_option_text(5, v.shortcut_id);
    let fs2 = f1 + f2;
    lemma_found(f1, f2);
    let fs3 = fs2 + f3;
    lemma_found(fs2, f3);
    let fs4 = fs3 + f4;
    lemma_found(fs3, f4);
    lemma_found(fs4, f5);
    lemma_read(fs4 + f5);
}

proof fn actions_read(fs: Seq<WireField>, tag: u32, vs: Seq<ActionView>)
    requires
        wire_bytes(fs).len() <= u64::MAX,
        all_values(fs, tag).len() == vs.len(),
        forall|i: int|
            0 <= i < vs.len() ==> #[trigger] all_values(fs, tag)[i] == WireValue::Bytes(
                wire_bytes(Action::fields(vs[i])),
            ),
    ensures
        all_values(fs, tag).map_values(|value: WireValue| action_read(run_of(value))) == vs,
{
    let read_actions = all_values(fs, tag).map_values(
        |value: WireValue| action_read(run_of(value)),
    );
    lemma_shorter(fs, tag);
    assert forall|i: int| 0 <= i < vs.len() implies #[trigger] read_actions[i] == vs[i] by {
        assert(all_values(fs, tag)[i] == WireValue::Bytes(wire_bytes(Action::fields(vs[i]))));
        action_reads(vs[i]);
    }
    assert(read_actions =~= vs);
}

proof fn context_reads(v: ContextView)
    requires
        wire_bytes(Context::fields(v)).len() <= u64::MAX,
    ensures
        context_read(wire_bytes(Context::fields(v))) == v,
{
    let f1 = text_field(1, v.profile_id);
    let f2 = number_field(2, v.total_pages as u64);
    let f3 = number_field(3, v.current_page as u64);
    let f4 = messages_field::<Action>(4, v.actions);
    lemma_text(1, v.profile_id);
    lemma_number(2, v.total_pages as u64);
    lemma_number(3, v.current_page as u64);
    lemma_messages::<Action>(4, v.actions);
    let fs2 = f1 + f2;
    lemma_found(f1, f2);
    let fs3 = fs2 + f3;
    lemma_found(fs2, f3);
    let fs4 = fs3 + f4;
    lemma_found(fs3, f4);
    lemma_read(fs4);
    assert(all_values(fs4, 4) =~= all_values(f4, 4));
    actions_read(fs4, 4, v.actions);
}

proof fn context_update_reads(v: ContextUpdateView)
    requires
        wire_bytes(ContextUpdate::fields(v)).len() <= u64::MAX,
    ensures
        context_update_read(wire_bytes(ContextUpdate::fields(v))) == v,
{
    let f1 = text_field(1, v.profile_id);
    let f2 = messages_field::<Action>(2, v.replace);
    let f3 = packed_field(3, v.remove);
    lemma_text(1, v.profile_id);
    lemma_messages::<Action>(2, v.replace);
    lemma_bytes(3, packed_bytes(v.remove));
    let fs2 = f1 + f2;
    lemma_found(f1, f2);
    let fs3 = fs2 + f3;
    lemma_found(fs2, f3);
    lemma_read(fs3);
    assert(all_values(fs3, 2) =~= all_values(f2, 2));
    actions_read(fs3, 2, v.replace);
    lemma_unpacked(v.remove);
    if packed_bytes(v.remove).len() == 0 {
        assert(packed_bytes(v.remove) =~= seq![]);
    }
}

proof fn lemma_framed<M: Writable>(tag: u32, v: M::V)
    requires
        1 <= tag < 0x2000_0000,
        wire_bytes(message_field::<M>(tag, v)).len() <= u64::MAX,
    ensures
        read(wire_bytes(message_field::<M>(tag, v))) == seq![
            WireField { tag, value: WireValue::Bytes(wire_bytes(M::fields(v))) },
        ],
        wire_bytes(M::fields(v)).len() <= u64::MAX,
{
    let fs = message_field::<M>(tag, v);
    lemma_single(fs, tag);
    lemma_read(fs);
    lemma_shorter(fs, tag);
}

/// Every frame of the server says to the app exactly what the server put into it: the kind of the
/// message, and each of its values, whatever they are.
pub proof fn servers_are_understood(payload: PayloadView)
    requires
        frame_of(payload).len() <= u64::MAX,
    ensures
        app_reads(frame_of(payload)) == Some(payload),
{
    match payload {
        PayloadView::Error(v) => {
            lemma_framed::<ErrorReply>(1, v);
            error_reads(v);
        },
        PayloadView::Success(v) => {
            lemma_framed::<OkReply>(2, v);
            success_reads(v);
        },
        PayloadView::Hello(v) => {
            lemma_framed::<HelloFromServer>(10, v);
            hello_reads(v);
        },
        PayloadView::VirtualDeviceList(v) => {
            lemma_framed::<VirtualDeviceList>(20, v);
            device_list_reads(v);
        },
        PayloadView::VirtualDeviceOpened(v) => {
            lemma_framed::<VirtualDeviceOpened>(21, v);
            device_opened_reads(v);
        },
        PayloadView::Context(v) => {
            lemma_framed::<Context>(30, v);
            context_reads(v);
        },
        PayloadView::ContextUpdate(v) => {
            lemma_framed::<ContextUpdate>(31, v);
            context_update_reads(v);
        },
        PayloadView::Icon(v) => {
            lemma_framed::<Icon>(40, v);
            icon_reads(v);
        },
    }
}

} // verus!
