//! The packets that announce the service in the local network.
use vstd::prelude::*;
use vstd::string::StringExecFns;
use vstd::utf8::{encode_utf8, is_ascii_chars, is_ascii_chars_encode_utf8};

use crate::crypto::public_key_of;
use crate::identity::{hex6, kept_key, workstation_code, workstation_text, ServerKeys};
use crate::pairing::PORT;
use crate::text::{chars_of, has_prefix, hex_text};

verus! {

/// The kind of service that is announced.
pub const SERVICE_TYPE: &'static str = "_elg._tcp.local.";

/// How often each withdrawal of an older name is sent.
pub const GOODBYE_REPEATS: u32 = 3;

/// How long the announcement rests before it is repeated, in seconds.
pub const ANNOUNCE_SECONDS: u64 = 10;

// ---------------------------------------------------------------------------------------------
// Names
// ---------------------------------------------------------------------------------------------
/// A name without the dots at its end.
pub open spec fn without_last_dots(name: Seq<char>) -> Seq<char>
    decreases name.len(),
{
    if name.len() > 0 && name.last() == '.' {
        without_last_dots(name.drop_last())
    } else {
        name
    }
}

/// The parts of a name between its dots; there is always at least one, which may be empty.
pub open spec fn labels(name: Seq<char>) -> Seq<Seq<char>>
    decreases name.len(),
{
    if name.len() == 0 {
        seq![seq![]]
    } else {
        let before = labels(name.drop_last());
        if name.last() == '.' {
            before.push(seq![])
        } else {
            before.drop_last().push(before.last().push(name.last()))
        }
    }
}

/// A label: its length in one byte, then its bytes.
pub open spec fn label_bytes(label: Seq<char>) -> Seq<u8> {
    seq![encode_utf8(label).len() as u8] + encode_utf8(label)
}

/// The bytes of labels, one behind the other.
pub open spec fn labels_bytes(labels: Seq<Seq<char>>) -> Seq<u8>
    decreases labels.len(),
{
    if labels.len() == 0 {
        seq![]
    } else {
        labels_bytes(labels.drop_last()) + label_bytes(labels.last())
    }
}

/// A name: its labels, then a zero.
pub open spec fn name_bytes(name: Seq<char>) -> Seq<u8> {
    labels_bytes(labels(without_last_dots(name))).push(0)
}

fn push_label(out: &mut Vec<u8>, label: &String)
    ensures
        final(out)@ == old(out)@ + label_bytes(label@),
{
    let bytes: &[u8] = label.as_str().as_bytes();
    let length: usize = bytes.len();
    out.push(length as u8);
    out.extend_from_slice(bytes);
    assert(out@ =~= old(out)@ + label_bytes(label@));
}

/// Appends a name.
pub fn dns_name(name: &str, out: &mut Vec<u8>)
    ensures
        final(out)@ == old(out)@ + name_bytes(name@),
{
    let chars: Vec<char> = chars_of(name);
    let mut end: usize = chars.len();
    assert(chars@.take(end as int) =~= name@);
    while end > 0 && chars[end - 1] == '.'
        invariant
            chars@ == name@,
            end <= chars@.len(),
            without_last_dots(name@) == without_last_dots(chars@.take(end as int)),
        decreases end,
    {
        assert(chars@.take(end as int).drop_last() =~= chars@.take(end - 1));
        end = end - 1;
    }
    let ghost whole = chars@.take(end as int);
    let mut label: String = String::new();
    let mut i: usize = 0;
    let ghost mut done: Seq<Seq<char>> = seq![];
    proof {
        assert(whole.take(0) =~= seq![]);
        assert(labels(seq![]) =~= seq![seq![]]);
        assert(done.push(label@) =~= labels(whole.take(0)));
        assert(out@ =~= old(out)@ + labels_bytes(done));
    }
    while i < end
        invariant
            i <= end <= chars@.len(),
            whole == chars@.take(end as int),
            labels(whole.take(i as int)) == done.push(label@),
            out@ == old(out)@ + labels_bytes(done),
        decreases end - i,
    {
        let c: char = chars[i];
        assert(whole.take(i + 1).drop_last() =~= whole.take(i as int));
        assert(whole.take(i + 1).last() == c);
        let ghost before = done.push(label@);
        assert(before.drop_last() =~= done);
        if c == '.' {
            push_label(out, &label);
            proof {
                assert(out@ =~= old(out)@ + labels_bytes(before));
                done = before;
            }
            label = String::new();
            assert(label@ =~= seq![]);
        } else {
            label.push(c);
        }
        i = i + 1;
    }
    assert(whole.take(end as int) =~= whole);
    push_label(out, &label);
    assert(done.push(label@).drop_last() =~= done);
    out.push(0);
    assert(out@ =~= old(out)@ + name_bytes(name@));
}

// ---------------------------------------------------------------------------------------------
// Records
// ---------------------------------------------------------------------------------------------
/// A number in two bytes, the higher one first.
pub open spec fn be16(v: u16) -> Seq<u8> {
    seq![(v / 0x100) as u8, (v % 0x100) as u8]
}

/// A number in four bytes, the highest one first.
pub open spec fn be32(v: u32) -> Seq<u8> {
    be16((v / 0x1_0000) as u16) + be16((v % 0x1_0000) as u16)
}

fn push_be16(out: &mut Vec<u8>, v: u16)
    ensures
        final(out)@ == old(out)@ + be16(v),
{
    out.push((v / 0x100) as u8);
    out.push((v % 0x100) as u8);
    assert(out@ =~= old(out)@ + be16(v));
}

fn push_be32(out: &mut Vec<u8>, v: u32)
    ensures
        final(out)@ == old(out)@ + be32(v),
{
    push_be16(out, (v / 0x1_0000) as u16);
    push_be16(out, (v % 0x1_0000) as u16);
    assert(out@ =~= old(out)@ + be32(v));
}

/// A record: whose it is, of what type and class, for how many seconds it holds, and its data.
pub open spec fn record(name: Seq<char>, kind: u16, class: u16, ttl: u32, data: Seq<u8>) -> Seq<u8> {
    name_bytes(name) + be16(kind) + be16(class) + be32(ttl) + be16(data.len() as u16) + data
}

fn push_record(out: &mut Vec<u8>, name: &str, kind: u16, class: u16, ttl: u32, data: &Vec<u8>)
    ensures
        final(out)@ == old(out)@ + record(name@, kind, class, ttl, data@),
{
    dns_name(name, out);
    push_be16(out, kind);
    push_be16(out, class);
    push_be32(out, ttl);
    let length: usize = data.len();
    push_be16(out, length as u16);
    out.extend_from_slice(data.as_slice());
    assert(out@ =~= old(out)@ + record(name@, kind, class, ttl, data@));
}

/// The head of an answer that nobody asked for, with four records.
pub open spec fn head() -> Seq<u8> {
    be16(0) + be16(0x8400) + be16(0) + be16(4) + be16(0) + be16(0)
}

fn start_packet() -> (out: Vec<u8>)
    ensures
        out@ == head(),
{
    let mut out: Vec<u8> = Vec::new();
    push_be16(&mut out, 0);
    push_be16(&mut out, 0x8400);
    push_be16(&mut out, 0);
    push_be16(&mut out, 4);
    push_be16(&mut out, 0);
    push_be16(&mut out, 0);
    assert(out@ =~= head());
    out
}

/// Where a service is to be found, without priority and weight.
pub open spec fn location(host: Seq<char>, port: u16) -> Seq<u8> {
    be16(0) + be16(0) + be16(port) + name_bytes(host)
}

fn location_of(host: &str, port: u16) -> (out: Vec<u8>)
    ensures
        out@ == location(host@, port),
{
    let mut out: Vec<u8> = Vec::new();
    push_be16(&mut out, 0);
    push_be16(&mut out, 0);
    push_be16(&mut out, port);
    dns_name(host, &mut out);
    assert(out@ =~= location(host@, port));
    out
}

/// A packet about a service: which services of the type there are, where this one is, what is said
/// about it, and the address of its host.
pub open spec fn packet(
    service: Seq<char>,
    host: Seq<char>,
    port: u16,
    ttl: u32,
    said: Seq<u8>,
    address: Seq<u8>,
) -> Seq<u8> {
    head() + record(SERVICE_TYPE@, 12, 1, ttl, name_bytes(service)) + record(
        service,
        33,
        0x8001,
        ttl,
        location(host, port),
    ) + record(service, 16, 0x8001, ttl, said) + record(host, 1, 0x8001, ttl, address)
}

fn build_packet(
    service: &str,
    host: &str,
    port: u16,
    ttl: u32,
    said: &Vec<u8>,
    address: &Vec<u8>,
) -> (out: Vec<u8>)
    ensures
        out@ == packet(service@, host@, port, ttl, said@, address@),
{
    let mut out: Vec<u8> = start_packet();
    let mut pointer: Vec<u8> = Vec::new();
    dns_name(service, &mut pointer);
    assert(pointer@ =~= name_bytes(service@));
    push_record(&mut out, SERVICE_TYPE, 12, 1, ttl, &pointer);
    let location: Vec<u8> = location_of(host, port);
    push_record(&mut out, service, 33, 0x8001, ttl, &location);
    push_record(&mut out, service, 16, 0x8001, ttl, said);
    push_record(&mut out, host, 1, 0x8001, ttl, address);
    out
}

/// The packet that withdraws a service: all its records hold no longer.
pub open spec fn goodbye_packet(service: Seq<char>, host: Seq<char>, port: u16) -> Seq<u8> {
    packet(service, host, port, 0, seq![0u8], seq![0u8, 0u8, 0u8, 0u8])
}

/// The packet that withdraws a service. Its address is not part of it.
pub fn build_mdns_goodbye(service: &str, host: &str, _ip: [u8; 4], port: u16) -> (out: Vec<u8>)
    ensures
        out@ == goodbye_packet(service@, host@, port),
{
    let mut said: Vec<u8> = Vec::new();
    said.push(0);
    let mut address: Vec<u8> = Vec::new();
    address.push(0);
    address.push(0);
    address.push(0);
    address.push(0);
    assert(said@ =~= seq![0u8]);
    assert(address@ =~= seq![0u8, 0u8, 0u8, 0u8]);
    build_packet(service, host, port, 0, &said, &address)
}

/// What is said about the service: the code of the workstation, and a name for people.
pub open spec fn self_description(workstation: Seq<char>) -> Seq<u8> {
    label_bytes("id="@ + workstation) + label_bytes("name=OpenDeck"@)
}

/// The packet that announces a service for half a minute.
pub open spec fn response_packet(
    service: Seq<char>,
    host: Seq<char>,
    workstation: Seq<char>,
    ip: Seq<u8>,
    port: u16,
) -> Seq<u8> {
    packet(service, host, port, 30, self_description(workstation), ip)
}

/// The packet that announces a service, which is named after its instance.
pub fn build_mdns_response(
    service: &str,
    host: &str,
    instance: &str,
    workstation: &str,
    ip: [u8; 4],
    port: u16,
) -> (out: Vec<u8>)
    requires
        has_prefix(service@, instance@),
    ensures
        out@ == response_packet(service@, host@, workstation@, ip@, port),
{
    let mut id: String = "id=".to_owned();
    id.append(workstation);
    let name: String = "name=OpenDeck".to_owned();
    let mut said: Vec<u8> = Vec::new();
    push_label(&mut said, &id);
    push_label(&mut said, &name);
    assert(said@ =~= self_description(workstation@));
    let mut address: Vec<u8> = Vec::new();
    address.push(ip[0]);
    address.push(ip[1]);
    address.push(ip[2]);
    address.push(ip[3]);
    assert(address@ =~= ip@);
    build_packet(service, host, port, 30, &said, &address)
}

// ---------------------------------------------------------------------------------------------
// The announcement of this workstation
// ---------------------------------------------------------------------------------------------
/// The name under which the workstation is announced.
pub open spec fn instance_name(workstation: Seq<char>) -> Seq<char> {
    "OpenDeck-"@ + workstation
}

/// The host name of the workstation, which it owes to its public key.
pub open spec fn host_name(public_key: Seq<u8>) -> Seq<char> {
    "opendeck-"@ + hex_text(
        public_key.take(if public_key.len() < 3 { public_key.len() as int } else { 3 }),
    ) + ".local."@
}

/// The service of an instance.
pub open spec fn service_name(instance: Seq<char>) -> Seq<char> {
    instance + "."@ + SERVICE_TYPE@
}

/// The names under which the workstation may have been announced before.
pub open spec fn former_instances(hostname: Seq<char>) -> Seq<Seq<char>> {
    seq!["OpenDeck "@ + hostname, "OpenDeck-"@ + hostname, "OpenDeck"@]
}

/// The withdrawals of all former names but the present one.
pub open spec fn goodbyes(former: Seq<Seq<char>>, instance: Seq<char>, host: Seq<char>) -> Seq<
    Seq<u8>,
>
    decreases former.len(),
{
    if former.len() == 0 {
        seq![]
    } else {
        let before = goodbyes(former.drop_last(), instance, host);
        if former.last() == instance {
            before
        } else {
            before.push(goodbye_packet(service_name(former.last()), host, 28198))
        }
    }
}

/// What there is to be sent: the withdrawals of former names, and the response that announces the
/// service. When each goes out is up to an [`Announcer`].
#[derive(Debug, PartialEq, Eq)]
pub struct Announcement {
    pub goodbyes: Vec<Vec<u8>>,
    pub response: Vec<u8>,
}

/// The values of an [`Announcement`].
#[verifier::ext_equal]
pub struct AnnouncementView {
    pub goodbyes: Seq<Seq<u8>>,
    pub response: Seq<u8>,
}

impl View for Announcement {
    type V = AnnouncementView;

    open spec fn view(&self) -> AnnouncementView {
        AnnouncementView {
            goodbyes: self.goodbyes@.map_values(|p: Vec<u8>| p@),
            response: self.response@,
        }
    }
}

/// What a workstation announces: one service under its code, and that its former names hold no
/// longer.
pub open spec fn announced(
    hostname: Seq<char>,
    workstation: Seq<char>,
    public_key: Seq<u8>,
    ip: Seq<u8>,
) -> AnnouncementView {
    let instance = instance_name(workstation);
    let host = host_name(public_key);
    AnnouncementView {
        goodbyes: goodbyes(former_instances(hostname), instance, host),
        response: response_packet(service_name(instance), host, workstation, ip, 28198),
    }
}

fn service_of(instance: &String) -> (r: String)
    ensures
        r@ == service_name(instance@),
{
    let mut service: String = instance.clone();
    service.append(".");
    service.append(SERVICE_TYPE);
    service
}

fn joined(head: &str, tail: &str) -> (r: String)
    ensures
        r@ == head@ + tail@,
{
    let mut r: String = head.to_owned();
    r.append(tail);
    r
}

fn withdraw(
    goodbyes: &mut Vec<Vec<u8>>,
    former: &String,
    instance: &String,
    host: &String,
    ip: [u8; 4],
)
    ensures
        final(goodbyes)@.map_values(|p: Vec<u8>| p@) == if former@ == instance@ {
            old(goodbyes)@.map_values(|p: Vec<u8>| p@)
        } else {
            old(goodbyes)@.map_values(|p: Vec<u8>| p@).push(
                goodbye_packet(service_name(former@), host@, 28198),
            )
        },
{
    if *former != *instance {
        let service: String = service_of(former);
        let packet: Vec<u8> = build_mdns_goodbye(service.as_str(), host.as_str(), ip, PORT);
        goodbyes.push(packet);
        assert(goodbyes@.map_values(|p: Vec<u8>| p@) =~= old(goodbyes)@.map_values(
            |p: Vec<u8>| p@,
        ).push(packet@));
    }
}

/// The announcement of the workstation at an address.
pub fn announcement(
    keys: &mut ServerKeys,
    hostname: &str,
    machine_id: &Option<String>,
    ip: [u8; 4],
) -> (r: Announcement)
    ensures
        final(keys)@ == Some(kept_key(old(keys)@, hostname@, *machine_id)),
        r@ == announced(
            hostname@,
            workstation_text(hostname@, *machine_id),
            public_key_of(kept_key(old(keys)@, hostname@, *machine_id)),
            ip@,
        ),
{
    let workstation: String = workstation_code(hostname, machine_id);
    let public_key: Vec<u8> = keys.server_key(hostname, machine_id);
    let instance: String = joined("OpenDeck-", workstation.as_str());
    let mut host: String = joined("opendeck-", hex6(public_key.as_slice()).as_str());
    host.append(".local.");
    let service: String = service_of(&instance);
    let mut packets: Vec<Vec<u8>> = Vec::new();
    let first: String = joined("OpenDeck ", hostname);
    let second: String = joined("OpenDeck-", hostname);
    let third: String = "OpenDeck".to_owned();
    let ghost former = former_instances(hostname@);
    proof {
        assert(packets@.map_values(|p: Vec<u8>| p@) =~= goodbyes(
            former.take(0),
            instance@,
            host@,
        ));
        assert(former.take(1).drop_last() =~= former.take(0));
        assert(former.take(2).drop_last() =~= former.take(1));
        assert(former.take(3).drop_last() =~= former.take(2));
        assert(former.take(3) =~= former);
    }
    withdraw(&mut packets, &first, &instance, &host, ip);
    assert(packets@.map_values(|p: Vec<u8>| p@) == goodbyes(former.take(1), instance@, host@));
    withdraw(&mut packets, &second, &instance, &host, ip);
    assert(packets@.map_values(|p: Vec<u8>| p@) == goodbyes(former.take(2), instance@, host@));
    withdraw(&mut packets, &third, &instance, &host, ip);
    assert(service@.take(instance@.len() as int) =~= instance@);
    let response: Vec<u8> = build_mdns_response(
        service.as_str(),
        host.as_str(),
        instance.as_str(),
        workstation.as_str(),
        ip,
        PORT,
    );
    Announcement { goodbyes: packets, response }
}

// ---------------------------------------------------------------------------------------------
// When what is sent
// ---------------------------------------------------------------------------------------------
/// Packets, each of them so many times in a row.
pub open spec fn repeated(packets: Seq<Seq<u8>>, times: nat) -> Seq<Seq<u8>>
    decreases packets.len(),
{
    if packets.len() == 0 {
        seq![]
    } else {
        repeated(packets.drop_last(), times) + Seq::new(times, |i: int| packets.last())
    }
}

/// What is sent at first: every withdrawal three times, then the response twice.
pub open spec fn opening(announcement: AnnouncementView) -> Seq<Seq<u8>> {
    repeated(announcement.goodbyes, 3) + seq![announcement.response, announcement.response]
}

/// The values of packets.
pub open spec fn packets_view(packets: Seq<Vec<u8>>) -> Seq<Seq<u8>> {
    packets.map_values(|p: Vec<u8>| p@)
}

fn push_copy(packets: &mut Vec<Vec<u8>>, packet: &Vec<u8>)
    ensures
        packets_view(final(packets)@) == packets_view(old(packets)@).push(packet@),
{
    let copy: Vec<u8> = packet.clone();
    packets.push(copy);
    assert(packets_view(packets@) =~= packets_view(old(packets)@).push(packet@));
}

/// What is sent at first: every withdrawal [`GOODBYE_REPEATS`] times, then the response twice.
pub fn opening_packets(announcement: &Announcement) -> (r: Vec<Vec<u8>>)
    ensures
        packets_view(r@) == opening(announcement@),
{
    let mut packets: Vec<Vec<u8>> = Vec::new();
    let ghost all = announcement@.goodbyes;
    let mut i: usize = 0;
    assert(packets_view(packets@) =~= repeated(all.take(0), 3));
    while i < announcement.goodbyes.len()
        invariant
            i <= announcement.goodbyes@.len(),
            all == announcement@.goodbyes,
            packets_view(packets@) == repeated(all.take(i as int), 3),
        decreases announcement.goodbyes@.len() - i,
    {
        let ghost before = packets_view(packets@);
        let packet: &Vec<u8> = &announcement.goodbyes[i];
        let mut k: u32 = 0;
        assert(before + Seq::new(0, |j: int| packet@) =~= before);
        while k < GOODBYE_REPEATS
            invariant
                k <= GOODBYE_REPEATS,
                packets_view(packets@) == before + Seq::new(k as nat, |j: int| packet@),
            decreases GOODBYE_REPEATS - k,
        {
            push_copy(&mut packets, packet);
            k = k + 1;
            assert(packets_view(packets@) =~= before + Seq::new(k as nat, |j: int| packet@));
        }
        proof {
            let more = all.take(i + 1);
            assert(more.drop_last() =~= all.take(i as int));
            assert(more.last() == packet@);
            assert(packets_view(packets@) =~= repeated(more, 3));
        }
        i = i + 1;
    }
    assert(all.take(i as int) =~= all);
    push_copy(&mut packets, &announcement.response);
    push_copy(&mut packets, &announcement.response);
    assert(packets_view(packets@) =~= opening(announcement@));
    packets
}

/// What is sent in a row, and how long the announcer rests afterwards.
#[derive(Debug, PartialEq, Eq)]
pub struct Turn {
    pub packets: Vec<Vec<u8>>,
    pub rest_seconds: u64,
}

/// Sends the announcement turn after turn, for ever.
#[derive(Debug, PartialEq, Eq)]
pub struct Announcer {
    pub announcement: Announcement,
    /// Whether the first turn is over.
    pub opened: bool,
}

/// What an announcer sends in a turn, counted from zero: the opening, then the response each time.
pub open spec fn turn_packets(announcement: AnnouncementView, turn: nat) -> Seq<Seq<u8>> {
    if turn == 0 {
        opening(announcement)
    } else {
        seq![announcement.response]
    }
}

impl Announcer {
    /// The announcer of a workstation. Without an address there is none, and nothing is sent.
    pub fn new(
        keys: &mut ServerKeys,
        hostname: &str,
        machine_id: &Option<String>,
        ip: Option<[u8; 4]>,
    ) -> (r: Option<Announcer>)
        ensures
            match ip {
                Some(ip) => {
                    &&& final(keys)@ == Some(kept_key(old(keys)@, hostname@, *machine_id))
                    &&& r matches Some(announcer) && !announcer.opened
                        && announcer.announcement@ == announced(
                        hostname@,
                        workstation_text(hostname@, *machine_id),
                        public_key_of(kept_key(old(keys)@, hostname@, *machine_id)),
                        ip@,
                    )
                },
                None => r is None && final(keys)@ == old(keys)@,
            },
    {
        match ip {
            Some(ip) => Some(
                Announcer {
                    announcement: announcement(keys, hostname, machine_id, ip),
                    opened: false,
                },
            ),
            None => None,
        }
    }

    /// The next turn.
    pub fn next_turn(&mut self) -> (r: Turn)
        ensures
            packets_view(r.packets@) == turn_packets(
                old(self).announcement@,
                if old(self).opened {
                    1
                } else {
                    0
                },
            ),
            r.rest_seconds == 10,
            final(self).opened,
            final(self).announcement == old(self).announcement,
    {
        let packets: Vec<Vec<u8>> = if self.opened {
            let mut packets: Vec<Vec<u8>> = Vec::new();
            push_copy(&mut packets, &self.announcement.response);
            assert(packets_view(packets@) =~= seq![self.announcement.response@]);
            packets
        } else {
            opening_packets(&self.announcement)
        };
        self.opened = true;
        Turn { packets, rest_seconds: ANNOUNCE_SECONDS }
    }
}

/// All that an announcer sends in so many turns.
pub open spec fn sent(announcement: AnnouncementView, turns: nat) -> Seq<Seq<u8>>
    decreases turns,
{
    if turns == 0 {
        seq![]
    } else {
        sent(announcement, (turns - 1) as nat) + turn_packets(announcement, (turns - 1) as nat)
    }
}

/// All withdrawals, three of each, go before the first response; two responses go out at once, and
/// one more in each later turn, for ever.
pub proof fn announcements_follow_the_withdrawals(announcement: AnnouncementView, turns: nat)
    requires
        turns > 0,
    ensures
        sent(announcement, turns) == repeated(announcement.goodbyes, 3) + Seq::new(
            turns + 1,
            |i: int| announcement.response,
        ),
    decreases turns,
{
    if turns == 1 {
        assert(sent(announcement, 0) =~= seq![]);
        assert(sent(announcement, 1) =~= opening(announcement));
        assert(seq![announcement.response, announcement.response] =~= Seq::new(
            2,
            |i: int| announcement.response,
        ));
    } else {
        announcements_follow_the_withdrawals(announcement, (turns - 1) as nat);
        assert(sent(announcement, turns) =~= repeated(announcement.goodbyes, 3) + Seq::new(
            turns + 1,
            |i: int| announcement.response,
        ));
    }
}

proof fn lemma_repeated_packet(packets: Seq<Seq<u8>>, times: nat, i: int)
    requires
        0 <= i < repeated(packets, times).len(),
    ensures
        packets.contains(repeated(packets, times)[i]),
    decreases packets.len(),
{
    let init = packets.drop_last();
    if i < repeated(init, times).len() {
        lemma_repeated_packet(init, times, i);
        let k = choose|k: int| 0 <= k < init.len() && init[k] == repeated(init, times)[i];
        assert(packets[k] == init[k]);
    } else {
        assert(packets[packets.len() - 1] == packets.last());
    }
}

/// Nothing else is ever sent: every packet is a withdrawal or the one response.
pub proof fn only_one_service_is_announced(announcement: AnnouncementView, turns: nat, i: int)
    requires
        0 <= i < sent(announcement, turns).len(),
    ensures
        sent(announcement, turns)[i] == announcement.response || announcement.goodbyes.contains(
            sent(announcement, turns)[i],
        ),
{
    announcements_follow_the_withdrawals(announcement, turns);
    if i < repeated(announcement.goodbyes, 3).len() {
        lemma_repeated_packet(announcement.goodbyes, 3, i);
    }
}

// ---------------------------------------------------------------------------------------------
// Laws
// ---------------------------------------------------------------------------------------------
/// The labels of the name that stands at the beginning of some bytes, and its length.
pub open spec fn name_at(b: Seq<u8>) -> Option<(Seq<Seq<u8>>, nat)>
    decreases b.len(),
{
    if b.len() == 0 {
        None
    } else if b[0] == 0 {
        Some((seq![], 1))
    } else if b.len() < 1 + b[0] {
        None
    } else {
        match name_at(b.skip(1 + b[0])) {
            Some((labels, length)) => Some(
                (seq![b.subrange(1, 1 + b[0])] + labels, 1 + b[0] as nat + length),
            ),
            None => None,
        }
    }
}

/// Whether a label has at least one byte and at most 63.
pub open spec fn is_legal(label: Seq<char>) -> bool {
    1 <= encode_utf8(label).len() <= 63
}

proof fn lemma_labels_front(labels: Seq<Seq<char>>)
    requires
        labels.len() > 0,
    ensures
        labels_bytes(labels) == label_bytes(labels[0]) + labels_bytes(labels.skip(1)),
    decreases labels.len(),
{
    if labels.len() == 1 {
        assert(labels_bytes(labels.drop_last()) =~= seq![]);
        assert(labels_bytes(labels.skip(1)) =~= seq![]);
        assert(labels_bytes(labels) =~= label_bytes(labels[0]) + labels_bytes(labels.skip(1)));
    } else {
        lemma_labels_front(labels.drop_last());
        assert(labels.drop_last().skip(1) =~= labels.skip(1).drop_last());
        assert(labels_bytes(labels) =~= label_bytes(labels[0]) + labels_bytes(labels.skip(1)));
    }
}

proof fn lemma_labels_read_back(labels: Seq<Seq<char>>, rest: Seq<u8>)
    requires
        forall|i: int| 0 <= i < labels.len() ==> is_legal(#[trigger] labels[i]),
    ensures
        name_at(labels_bytes(labels) + seq![0u8] + rest) == Some(
            (labels.map_values(|l: Seq<char>| encode_utf8(l)), labels_bytes(labels).len() + 1),
        ),
    decreases labels.len(),
{
    let b = labels_bytes(labels) + seq![0u8] + rest;
    let read = labels.map_values(|l: Seq<char>| encode_utf8(l));
    if labels.len() == 0 {
        assert(b[0] == 0);
        assert(read =~= seq![]);
    } else {
        let first = encode_utf8(labels[0]);
        assert(is_legal(labels[0]));
        let tail = labels.skip(1);
        lemma_labels_front(labels);
        assert(b =~= seq![first.len() as u8] + (first + (labels_bytes(tail) + seq![0u8] + rest)));
        assert(b[0] == first.len());
        assert(b.subrange(1, 1 + b[0]) =~= first);
        assert(b.skip(1 + b[0]) =~= labels_bytes(tail) + seq![0u8] + rest);
        assert forall|i: int| 0 <= i < tail.len() implies is_legal(#[trigger] tail[i]) by {
            assert(is_legal(labels[i + 1]));
        }
        lemma_labels_read_back(tail, rest);
        assert(read =~= seq![first] + tail.map_values(|l: Seq<char>| encode_utf8(l)));
    }
}

/// Whether every label of a name has a legal length.
pub open spec fn is_legal_name(name: Seq<char>) -> bool {
    forall|i: int|
        0 <= i < labels(without_last_dots(name)).len() ==> is_legal(
            #[trigger] labels(without_last_dots(name))[i],
        )
}

/// The bytes of the labels of a name.
pub open spec fn name_labels(name: Seq<char>) -> Seq<Seq<u8>> {
    labels(without_last_dots(name)).map_values(|l: Seq<char>| encode_utf8(l))
}

/// A name that was written is read back label by label, whatever follows it, if each of its labels
/// has the length that the protocol allows.
pub proof fn names_read_back(name: Seq<char>, rest: Seq<u8>)
    requires
        is_legal_name(name),
    ensures
        name_at(name_bytes(name) + rest) == Some((name_labels(name), name_bytes(name).len())),
{
    let parts = labels(without_last_dots(name));
    lemma_labels_read_back(parts, rest);
    assert(name_bytes(name) + rest =~= labels_bytes(parts) + seq![0u8] + rest);
}

/// A record as a resolver reads it: the labels of the name it is about, type, class, seconds and
/// data.
pub struct RecordView {
    pub name: Seq<Seq<u8>>,
    pub kind: u16,
    pub class: u16,
    pub ttl: u32,
    pub data: Seq<u8>,
}

/// The number in the two bytes from `i` on.
pub open spec fn be16_at(b: Seq<u8>, i: int) -> u16 {
    (b[i] * 0x100 + b[i + 1]) as u16
}

/// The record that stands at the beginning of some bytes, and its length.
#[verifier::opaque]
pub open spec fn record_at(b: Seq<u8>) -> Option<(RecordView, int)> {
    match name_at(b) {
        Some((name, length)) => {
            let n = length as int;
            let end = n + 10 + be16_at(b, n + 8);
            if b.len() < n + 10 || b.len() < end {
                None
            } else {
                Some(
                    (
                        RecordView {
                            name,
                            kind: be16_at(b, n),
                            class: be16_at(b, n + 2),
                            ttl: (be16_at(b, n + 4) * 0x1_0000 + be16_at(b, n + 6)) as u32,
                            data: b.subrange(n + 10, end),
                        },
                        end,
                    ),
                )
            }
        },
        None => None,
    }
}

/// The records of a packet, without its head.
#[verifier::opaque]
pub open spec fn records_of(b: Seq<u8>) -> Option<Seq<RecordView>>
    decreases b.len(),
{
    if b.len() == 0 {
        Some(seq![])
    } else {
        match record_at(b) {
            Some((record, n)) => if 0 < n <= b.len() {
                match records_of(b.skip(n)) {
                    Some(records) => Some(seq![record] + records),
                    None => None,
                }
            } else {
                None
            },
            None => None,
        }
    }
}

/// A record that was written is read back, whatever follows it.
pub proof fn records_read_back(
    name: Seq<char>,
    kind: u16,
    class: u16,
    ttl: u32,
    data: Seq<u8>,
    rest: Seq<u8>,
)
    requires
        is_legal_name(name),
        data.len() <= 0xffff,
    ensures
        record_at(record(name, kind, class, ttl, data) + rest) == Some(
            (
                RecordView { name: name_labels(name), kind, class, ttl, data },
                record(name, kind, class, ttl, data).len() as int,
            ),
        ),
{
    reveal(record_at);
    let owner = name_bytes(name);
    let length = data.len() as u16;
    let tail = be16(kind) + be16(class) + be32(ttl) + be16(length) + data + rest;
    let b = record(name, kind, class, ttl, data) + rest;
    let n = owner.len() as int;
    assert(b =~= owner + tail);
    names_read_back(name, tail);
    assert(b[n] == tail[0] && b[n + 1] == tail[1] && b[n + 2] == tail[2] && b[n + 3] == tail[3]);
    assert(b[n + 4] == tail[4] && b[n + 5] == tail[5] && b[n + 6] == tail[6] && b[n + 7] == tail[7]);
    assert(b[n + 8] == tail[8] && b[n + 9] == tail[9]);
    assert(b.subrange(n + 10, n + 10 + data.len()) =~= data);
}

proof fn lemma_first_record(
    name: Seq<char>,
    kind: u16,
    class: u16,
    ttl: u32,
    data: Seq<u8>,
    rest: Seq<u8>,
)
    requires
        is_legal_name(name),
        data.len() <= 0xffff,
        records_of(rest) is Some,
    ensures
        records_of(record(name, kind, class, ttl, data) + rest) == Some(
            seq![RecordView { name: name_labels(name), kind, class, ttl, data }]
                + records_of(rest).unwrap(),
        ),
{
    reveal(records_of);
    let first = record(name, kind, class, ttl, data);
    records_read_back(name, kind, class, ttl, data, rest);
    assert((first + rest).skip(first.len() as int) =~= rest);
}

proof fn lemma_one_label(label: Seq<char>)
    requires
        !label.contains('.'),
    ensures
        labels(label) == seq![label],
    decreases label.len(),
{
    if label.len() == 0 {
        assert(label =~= seq![]);
    } else {
        let init = label.drop_last();
        assert(label.contains(label.last()));
        assert forall|i: int| 0 <= i < init.len() implies init[i] != '.' by {
            assert(label.contains(label[i]));
        }
        lemma_one_label(init);
        assert(init.push(label.last()) =~= label);
        assert(labels(label) =~= seq![label]);
    }
}

proof fn lemma_last_label(front: Seq<char>, label: Seq<char>)
    requires
        !label.contains('.'),
    ensures
        labels(front.push('.') + label) == labels(front).push(label),
    decreases label.len(),
{
    let name = front.push('.') + label;
    if label.len() == 0 {
        assert(name.drop_last() =~= front);
        assert(label =~= seq![]);
    } else {
        let init = label.drop_last();
        assert(label.contains(label.last()));
        assert forall|i: int| 0 <= i < init.len() implies init[i] != '.' by {
            assert(label.contains(label[i]));
        }
        lemma_last_label(front, init);
        assert(name.drop_last() =~= front.push('.') + init);
        assert(init.push(label.last()) =~= label);
        assert(labels(name) =~= labels(front).push(label));
    }
}

proof fn lemma_ascii_label(label: Seq<char>)
    requires
        is_ascii_chars(label),
        1 <= label.len() <= 63,
    ensures
        is_legal(label),
{
    is_ascii_chars_encode_utf8(label);
}

/// The labels of the kind of service.
pub open spec fn type_labels() -> Seq<Seq<char>> {
    seq![
        seq!['_', 'e', 'l', 'g'],
        seq!['_', 't', 'c', 'p'],
        seq!['l', 'o', 'c', 'a', 'l'],
    ]
}

proof fn lemma_type_labels()
    ensures
        forall|i: int| 0 <= i < 3 ==> !(#[trigger] type_labels()[i]).contains('.'),
        forall|i: int| 0 <= i < 3 ==> is_legal(#[trigger] type_labels()[i]),
        SERVICE_TYPE@ == ((type_labels()[0].push('.') + type_labels()[1]).push('.')
            + type_labels()[2]).push('.'),
        labels(without_last_dots(SERVICE_TYPE@)) == type_labels(),
{
    reveal_strlit("_elg._tcp.local.");
    let elg = type_labels()[0];
    let tcp = type_labels()[1];
    let local = type_labels()[2];
    lemma_ascii_label(elg);
    lemma_ascii_label(tcp);
    lemma_ascii_label(local);
    let bare = (elg.push('.') + tcp).push('.') + local;
    assert(SERVICE_TYPE@ =~= bare.push('.'));
    assert(SERVICE_TYPE@.drop_last() =~= bare);
    reveal_with_fuel(without_last_dots, 2);
    assert(without_last_dots(SERVICE_TYPE@) == bare);
    lemma_one_label(elg);
    lemma_last_label(elg, tcp);
    lemma_last_label(elg.push('.') + tcp, local);
    assert(labels(bare) =~= type_labels());
}

/// The service of an instance is named by the instance, as one label, and the kind of service, if
/// the instance has a legal length and no dot.
pub proof fn services_are_named_after_their_instance(instance: Seq<char>)
    requires
        !instance.contains('.'),
        is_legal(instance),
    ensures
        labels(without_last_dots(service_name(instance))) == seq![instance] + type_labels(),
        is_legal_name(service_name(instance)),
{
    lemma_type_labels();
    reveal_strlit(".");
    let elg = type_labels()[0];
    let tcp = type_labels()[1];
    let local = type_labels()[2];
    let bare = ((instance.push('.') + elg).push('.') + tcp).push('.') + local;
    let service = service_name(instance);
    assert(service =~= bare.push('.'));
    assert(service.drop_last() =~= bare);
    reveal_with_fuel(without_last_dots, 2);
    assert(bare.last() == local.last());
    assert(without_last_dots(service) == bare);
    lemma_one_label(instance);
    lemma_last_label(instance, elg);
    lemma_last_label(instance.push('.') + elg, tcp);
    lemma_last_label((instance.push('.') + elg).push('.') + tcp, local);
    assert(labels(bare) =~= seq![instance] + type_labels());
    assert forall|i: int| 0 <= i < labels(bare).len() implies is_legal(#[trigger] labels(bare)[i]) by {
        if i > 0 {
            assert(labels(bare)[i] == type_labels()[i - 1]);
        }
    }
}

proof fn lemma_regrouped(h: Seq<u8>, a: Seq<u8>, b: Seq<u8>, c: Seq<u8>, d: Seq<u8>)
    ensures
        (h + a + b + c + d).skip(h.len() as int) == a + (b + (c + (d + Seq::<u8>::empty()))),
{
    assert((h + a + b + c + d).skip(h.len() as int) =~= a + (b + (c + (d + Seq::<u8>::empty()))));
}

/// What is announced or withdrawn is what a resolver reads: which service there is, where it is,
/// what is said about it, and the address of its host.
pub proof fn packets_read_back(
    service: Seq<char>,
    host: Seq<char>,
    port: u16,
    ttl: u32,
    said: Seq<u8>,
    address: Seq<u8>,
)
    requires
        is_legal_name(service),
        is_legal_name(host),
        name_bytes(service).len() <= 0xffff,
        location(host, port).len() <= 0xffff,
        said.len() <= 0xffff,
        address.len() <= 0xffff,
    ensures
        records_of(packet(service, host, port, ttl, said, address).skip(12)) == Some(
            seq![
                RecordView {
                    name: name_labels(SERVICE_TYPE@),
                    kind: 12,
                    class: 1,
                    ttl,
                    data: name_bytes(service),
                },
                RecordView {
                    name: name_labels(service),
                    kind: 33,
                    class: 0x8001,
                    ttl,
                    data: location(host, port),
                },
                RecordView { name: name_labels(service), kind: 16, class: 0x8001, ttl, data: said },
                RecordView { name: name_labels(host), kind: 1, class: 0x8001, ttl, data: address },
            ],
        ),
{
    let r0 = record(SERVICE_TYPE@, 12, 1, ttl, name_bytes(service));
    let r1 = record(service, 33, 0x8001, ttl, location(host, port));
    let r2 = record(service, 16, 0x8001, ttl, said);
    let r3 = record(host, 1, 0x8001, ttl, address);
    lemma_type_labels();
    assert(is_legal_name(SERVICE_TYPE@));
    let none = Seq::<u8>::empty();
    assert(records_of(none) == Some(Seq::<RecordView>::empty())) by {
        reveal(records_of);
    }
    lemma_first_record(host, 1, 0x8001, ttl, address, none);
    lemma_first_record(service, 16, 0x8001, ttl, said, r3 + none);
    lemma_first_record(service, 33, 0x8001, ttl, location(host, port), r2 + (r3 + none));
    lemma_first_record(SERVICE_TYPE@, 12, 1, ttl, name_bytes(service), r1 + (r2 + (r3 + none)));
    lemma_regrouped(head(), r0, r1, r2, r3);
    assert(head().len() == 12);
}

/// A dot at the end of a name makes no difference.
pub proof fn last_dots_do_not_matter(name: Seq<char>)
    ensures
        name_bytes(name.push('.')) == name_bytes(name),
{
    assert(name.push('.').drop_last() =~= name);
}

/// The service that is announced is not withdrawn: every withdrawal is one of a former name that
/// is not the present one.
pub proof fn the_service_is_not_withdrawn(
    former: Seq<Seq<char>>,
    instance: Seq<char>,
    host: Seq<char>,
    i: int,
)
    requires
        0 <= i < goodbyes(former, instance, host).len(),
    ensures
        exists|k: int|
            0 <= k < former.len() && #[trigger] former[k] != instance && goodbyes(
                former,
                instance,
                host,
            )[i] == goodbye_packet(service_name(former[k]), host, 28198) && service_name(former[k])
                != service_name(instance),
    decreases former.len(),
{
    let init = former.drop_last();
    if i < goodbyes(init, instance, host).len() {
        the_service_is_not_withdrawn(init, instance, host, i);
        let k = choose|k: int|
            0 <= k < init.len() && #[trigger] init[k] != instance && goodbyes(
                init,
                instance,
                host,
            )[i] == goodbye_packet(service_name(init[k]), host, 28198) && service_name(init[k])
                != service_name(instance);
        assert(former[k] == init[k]);
    } else {
        let last = former.last();
        if service_name(last) == service_name(instance) {
            assert(service_name(last).take(last.len() as int) =~= last);
            assert(service_name(instance).take(instance.len() as int) =~= instance);
            assert(last.len() == instance.len());
        }
        assert(former[former.len() - 1] == last);
    }
}

} // verus!
