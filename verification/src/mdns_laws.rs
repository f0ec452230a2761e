//! What the packets that announce the service can be relied on to say, byte for byte.
use vstd::prelude::*;
use vstd::utf8::encode_utf8;

use crate::mdns::{
    announced, be16, be32, former_instances, goodbye_packet, goodbyes, head, host_name,
    label_bytes, labels, labels_bytes, location, name_bytes, packet, packets_view, record, repeated,
    response_packet, sent, service_name, turn_packets, Announcement, AnnouncementView,
    SERVICE_TYPE,
};
use crate::text::hex_text;
use crate::text_laws::{hexadecimals_read_back, spells};

verus! {

// ---------------------------------------------------------------------------------------------
// Names
// ---------------------------------------------------------------------------------------------
proof fn lemma_only_label(label: Seq<char>)
    requires
        !label.contains('.'),
    ensures
        labels(label) == seq![label],
    decreases label.len(),
{
    if label.len() == 0 {
        assert(label =~= seq![]);
        assert(labels(label) =~= seq![label]);
    } else {
        let init = label.drop_last();
        assert forall|i: int| 0 <= i < init.len() implies init[i] != '.' by {
            assert(label.contains(label[i]));
        }
        assert(label.contains(label.last()));
        lemma_only_label(init);
        assert(init.push(label.last()) =~= label);
        assert(labels(label) =~= seq![label]);
    }
}

proof fn lemma_next_label(front: Seq<char>, label: Seq<char>)
    requires
        !label.contains('.'),
    ensures
        labels(front.push('.') + label) == labels(front).push(label),
    decreases label.len(),
{
    let name = front.push('.') + label;
    if label.len() == 0 {
        assert(name =~= front.push('.'));
        assert(name.drop_last() =~= front);
        assert(label =~= seq![]);
    } else {
        let init = label.drop_last();
        assert forall|i: int| 0 <= i < init.len() implies init[i] != '.' by {
            assert(label.contains(label[i]));
        }
        assert(label.contains(label.last()));
        assert(name.drop_last() =~= front.push('.') + init);
        lemma_next_label(front, init);
        assert(init.push(label.last()) =~= label);
        assert(labels(name) =~= labels(front).push(label));
    }
}

/// A name is written label after label, each behind the number of its bytes, and ends with a zero:
/// one more label, of whatever length, adds itself and changes nothing before it. Dots at the end of
/// a name are left out.
pub proof fn names_are_written_label_by_label(front: Seq<char>, label: Seq<char>, name: Seq<char>)
    requires
        !label.contains('.'),
    ensures
        labels_bytes(labels(label)) == seq![encode_utf8(label).len() as u8] + encode_utf8(label),
        labels_bytes(labels(front.push('.') + label)) == labels_bytes(labels(front)) + (seq![
            encode_utf8(label).len() as u8,
        ] + encode_utf8(label)),
        name.len() == 0 || name.last() != '.' ==> name_bytes(name) == labels_bytes(
            labels(name),
        ).push(0),
        name_bytes(name.push('.')) == name_bytes(name),
{
    lemma_only_label(label);
    lemma_next_label(front, label);
    reveal_with_fuel(labels_bytes, 2);
    assert(seq![label].drop_last() =~= seq![]);
    assert(labels_bytes(seq![label]) =~= label_bytes(label));
    assert(labels(front).push(label).drop_last() =~= labels(front));
    assert(name.push('.').drop_last() =~= name);
}

// ---------------------------------------------------------------------------------------------
// Records and packets
// ---------------------------------------------------------------------------------------------
/// A record is the name that it is about, its type, its class, the seconds for which it holds, the
/// length of its data, and its data, whatever they are; numbers have their highest byte first.
pub proof fn records_say_what_they_hold(
    name: Seq<char>,
    kind: u16,
    class: u16,
    ttl: u32,
    data: Seq<u8>,
)
    ensures
        ({
            let r = record(name, kind, class, ttl, data);
            let n = name_bytes(name).len() as int;
            &&& r.len() == n + 10 + data.len()
            &&& r.take(n) == name_bytes(name)
            &&& r[n] * 0x100 + r[n + 1] == kind
            &&& r[n + 2] * 0x100 + r[n + 3] == class
            &&& r[n + 4] * 0x100_0000 + r[n + 5] * 0x1_0000 + r[n + 6] * 0x100 + r[n + 7] == ttl
            &&& data.len() <= 0xffff ==> r[n + 8] * 0x100 + r[n + 9] == data.len()
            &&& r.skip(n + 10) == data
        }),
{
    let r = record(name, kind, class, ttl, data);
    let n = name_bytes(name).len() as int;
    assert(r.take(n) =~= name_bytes(name));
    assert(r.skip(n + 10) =~= data);
    assert(r.subrange(n, n + 2) =~= be16(kind));
    assert(r.subrange(n + 2, n + 4) =~= be16(class));
    assert(r.subrange(n + 4, n + 8) =~= be32(ttl));
    assert(r.subrange(n + 8, n + 10) =~= be16(data.len() as u16));
    assert(r[n] == be16(kind)[0] && r[n + 1] == be16(kind)[1]);
    assert(r[n + 2] == be16(class)[0] && r[n + 3] == be16(class)[1]);
    assert(r[n + 4] == be32(ttl)[0] && r[n + 5] == be32(ttl)[1]);
    assert(r[n + 6] == be32(ttl)[2] && r[n + 7] == be32(ttl)[3]);
    assert(r[n + 8] == be16(data.len() as u16)[0] && r[n + 9] == be16(data.len() as u16)[1]);
}

/// A packet is an answer that nobody asked for, with four records: which service there is, where it
/// is found, what is said about it, and the address of its host.
pub proof fn packets_hold_four_records(
    service: Seq<char>,
    host: Seq<char>,
    port: u16,
    ttl: u32,
    said: Seq<u8>,
    address: Seq<u8>,
)
    ensures
        packet(service, host, port, ttl, said, address) == seq![
            0u8,
            0u8,
            0x84u8,
            0u8,
            0u8,
            0u8,
            0u8,
            4u8,
            0u8,
            0u8,
            0u8,
            0u8,
        ] + record("_elg._tcp.local."@, 12, 1, ttl, name_bytes(service)) + record(
            service,
            33,
            0x8001,
            ttl,
            location(host, port),
        ) + record(service, 16, 0x8001, ttl, said) + record(host, 1, 0x8001, ttl, address),
        ({
            let place = location(host, port);
            &&& place.len() == 6 + name_bytes(host).len()
            &&& place[0] == 0 && place[1] == 0 && place[2] == 0 && place[3] == 0
            &&& place[4] * 0x100 + place[5] == port
            &&& place.skip(6) == name_bytes(host)
        }),
{
    assert(head() =~= seq![
        0u8,
        0u8,
        0x84u8,
        0u8,
        0u8,
        0u8,
        0u8,
        4u8,
        0u8,
        0u8,
        0u8,
        0u8,
    ]);
    let place = location(host, port);
    assert(place.skip(6) =~= name_bytes(host));
    assert(place[4] == be16(port)[0] && place[5] == be16(port)[1]);
}

/// An announcement holds for half a minute, and says the code of the workstation, the name for
/// people and the address. A withdrawal says nothing, and holds for no time at all.
pub proof fn announcements_hold_and_withdrawals_do_not(
    service: Seq<char>,
    host: Seq<char>,
    workstation: Seq<char>,
    ip: Seq<u8>,
    port: u16,
)
    ensures
        response_packet(service, host, workstation, ip, port) == packet(
            service,
            host,
            port,
            30,
            seq![encode_utf8("id="@ + workstation).len() as u8] + encode_utf8("id="@ + workstation)
                + (seq![encode_utf8("name=OpenDeck"@).len() as u8] + encode_utf8(
                "name=OpenDeck"@,
            )),
            ip,
        ),
        goodbye_packet(service, host, port) == packet(
            service,
            host,
            port,
            0,
            seq![0u8],
            seq![0u8, 0u8, 0u8, 0u8],
        ),
{
}

// ---------------------------------------------------------------------------------------------
// The announcement of a workstation
// ---------------------------------------------------------------------------------------------
/// A workstation announces the service that is named after its code, on a host that is named after
/// the first three bytes of its public key. It withdraws every name that it may have had before: the
/// two that are made of the name of the host, and the bare one; but not the name that it has now.
pub proof fn workstations_are_announced_under_their_code(
    hostname: Seq<char>,
    workstation: Seq<char>,
    public_key: Seq<u8>,
    ip: Seq<u8>,
)
    requires
        public_key.len() == 32,
    ensures
        ({
            let host = host_name(public_key);
            let behind = "._elg._tcp.local."@;
            let a = announced(hostname, workstation, public_key, ip);
            &&& a.response == response_packet(
                "OpenDeck-"@ + workstation + behind,
                host,
                workstation,
                ip,
                28198,
            )
            &&& a.goodbyes == seq![goodbye_packet("OpenDeck "@ + hostname + behind, host, 28198)]
                + (if hostname == workstation {
                seq![]
            } else {
                seq![goodbye_packet("OpenDeck-"@ + hostname + behind, host, 28198)]
            }) + seq![goodbye_packet("OpenDeck"@ + behind, host, 28198)]
            &&& host.len() == 9 + 6 + 7
            &&& host.take(9) == "opendeck-"@
            &&& host.skip(15) == ".local."@
            &&& spells(host[9], host[10], public_key[0])
            &&& spells(host[11], host[12], public_key[1])
            &&& spells(host[13], host[14], public_key[2])
        }),
{
    let host = host_name(public_key);
    let behind = "._elg._tcp.local."@;
    let instance = "OpenDeck-"@ + workstation;
    reveal_strlit("OpenDeck-");
    reveal_strlit("OpenDeck ");
    reveal_strlit("OpenDeck");
    reveal_strlit("opendeck-");
    reveal_strlit(".local.");
    reveal_strlit(".");
    reveal_strlit("_elg._tcp.local.");
    reveal_strlit("._elg._tcp.local.");
    assert(behind =~= "."@ + SERVICE_TYPE@);
    let f0 = "OpenDeck "@ + hostname;
    let f1 = "OpenDeck-"@ + hostname;
    let f2 = "OpenDeck"@;
    assert(service_name(instance) =~= instance + behind);
    assert(service_name(f0) =~= f0 + behind);
    assert(service_name(f1) =~= f1 + behind);
    assert(service_name(f2) =~= f2 + behind);
    assert(f0[8] == ' ' && instance[8] == '-');
    assert(f0 != instance);
    assert(f2.len() < instance.len());
    if f1 == instance {
        assert(hostname =~= f1.skip(9));
        assert(workstation =~= instance.skip(9));
    }
    let former = former_instances(hostname);
    let one = former.take(1);
    let two = former.take(2);
    assert(former.drop_last() =~= two);
    assert(two.drop_last() =~= one);
    assert(one.drop_last() =~= seq![]);
    reveal_with_fuel(goodbyes, 4);
    let g0 = goodbye_packet(f0 + behind, host, 28198);
    let g1 = goodbye_packet(f1 + behind, host, 28198);
    let g2 = goodbye_packet(f2 + behind, host, 28198);
    assert(goodbyes(one, instance, host) =~= seq![g0]);
    if hostname == workstation {
        assert(goodbyes(two, instance, host) =~= seq![g0]);
        assert(goodbyes(former, instance, host) =~= seq![g0] + seq![] + seq![g2]);
    } else {
        assert(goodbyes(two, instance, host) =~= seq![g0, g1]);
        assert(goodbyes(former, instance, host) =~= seq![g0] + seq![g1] + seq![g2]);
    }
    let digits = hex_text(public_key.take(3));
    hexadecimals_read_back(public_key.take(3));
    assert(public_key.take(3)[0] == public_key[0]);
    assert(public_key.take(3)[1] == public_key[1]);
    assert(public_key.take(3)[2] == public_key[2]);
    assert(host == "opendeck-"@ + digits + ".local."@);
    assert(host.take(9) =~= "opendeck-"@);
    assert(host.skip(15) =~= ".local."@);
    assert(forall|i: int| 0 <= i < 6 ==> host[9 + i] == digits[i]);
}

/// Packets are shown as they are, in order.
pub proof fn packets_show_what_they_hold(
    packets: Seq<Vec<u8>>,
    announcement: Announcement,
    i: int,
)
    ensures
        packets_view(packets).len() == packets.len(),
        0 <= i < packets.len() ==> packets_view(packets)[i] == packets[i]@,
        announcement@.response == announcement.response@,
        announcement@.goodbyes == packets_view(announcement.goodbyes@),
{
}

proof fn lemma_repeats(packets: Seq<Seq<u8>>)
    ensures
        repeated(packets, 3).len() == 3 * packets.len(),
        forall|i: int|
            0 <= i < packets.len() ==> {
                &&& repeated(packets, 3)[3 * i] == #[trigger] packets[i]
                &&& repeated(packets, 3)[3 * i + 1] == packets[i]
                &&& repeated(packets, 3)[3 * i + 2] == packets[i]
            },
    decreases packets.len(),
{
    if packets.len() > 0 {
        let init = packets.drop_last();
        lemma_repeats(init);
        let all = repeated(packets, 3);
        let most = repeated(init, 3);
        assert forall|i: int| 0 <= i < packets.len() implies {
            &&& all[3 * i] == #[trigger] packets[i]
            &&& all[3 * i + 1] == packets[i]
            &&& all[3 * i + 2] == packets[i]
        } by {
            if i < init.len() {
                assert(init[i] == packets[i]);
                assert(all[3 * i] == most[3 * i]);
                assert(all[3 * i + 1] == most[3 * i + 1]);
                assert(all[3 * i + 2] == most[3 * i + 2]);
            }
        }
    }
}

/// In the first turn every withdrawal is sent three times in a row, one withdrawal after the other,
/// and then the response twice; in every later turn the response is sent once.
pub proof fn turns_send_what_is_due(announcement: AnnouncementView, turn: nat)
    requires
        turn > 0,
    ensures
        ({
            let n = announcement.goodbyes.len() as int;
            let first = turn_packets(announcement, 0);
            &&& first.len() == 3 * n + 2
            &&& forall|i: int|
                0 <= i < n ==> {
                    &&& first[3 * i] == #[trigger] announcement.goodbyes[i]
                    &&& first[3 * i + 1] == announcement.goodbyes[i]
                    &&& first[3 * i + 2] == announcement.goodbyes[i]
                }
            &&& first[3 * n] == announcement.response
            &&& first[3 * n + 1] == announcement.response
            &&& turn_packets(announcement, turn) == seq![announcement.response]
            &&& sent(announcement, turn + 1) == sent(announcement, turn).push(
                announcement.response,
            )
            &&& sent(announcement, 1) == first
        }),
{
    lemma_repeats(announcement.goodbyes);
    let n = announcement.goodbyes.len() as int;
    let first = turn_packets(announcement, 0);
    let repeats = repeated(announcement.goodbyes, 3);
    assert(first == repeats + seq![announcement.response, announcement.response]);
    assert forall|i: int| 0 <= i < n implies {
        &&& first[3 * i] == #[trigger] announcement.goodbyes[i]
        &&& first[3 * i + 1] == announcement.goodbyes[i]
        &&& first[3 * i + 2] == announcement.goodbyes[i]
    } by {
        assert(first[3 * i] == repeats[3 * i]);
        assert(first[3 * i + 1] == repeats[3 * i + 1]);
        assert(first[3 * i + 2] == repeats[3 * i + 2]);
    }
    assert(sent(announcement, turn + 1) =~= sent(announcement, turn).push(announcement.response));
    reveal_with_fuel(sent, 2);
    assert(sent(announcement, 1) =~= first);
}

} // verus!
