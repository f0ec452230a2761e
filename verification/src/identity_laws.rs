//! What the codes, the addresses and the drawings that a user sees can be relied on to say.
use vstd::prelude::*;
use vstd::utf8::encode_utf8;

use crate::base64_text::{base64_standard, base64_url};
use crate::crypto::{blake2b_256, blake2b_512, public_key_of};
use crate::identity::{
    address_text, kept_key, key_id, token_chars, token_seed, token_step, workstation_text,
};
use crate::images::{addressed_file, picture_files_survive_their_address};
use crate::pairing::{
    connect_url, lists_values, modules_path, pairing_shown, percent_encoded, qr_data_url,
    qr_drawing, qr_encoding, resolved, result_text, row_path, rows_of, svg_text, PairingInfo,
    PendingPairing, PendingPairingView,
};
use crate::text::{
    decimal, is_white_space, trimmed, without_leading_space, without_trailing_space,
};
use crate::text_laws::{
    decimal_value, decimals_read_back, hexadecimals_read_back, is_white, spells,
};

verus! {

// ---------------------------------------------------------------------------------------------
// Codes
// ---------------------------------------------------------------------------------------------
/// The verification code of a key spells the first three bytes of its digest.
pub proof fn codes_spell_the_digest(key: Seq<u8>)
    requires
        blake2b_256(key).len() == 32,
    ensures
        key_id(key).len() == 6,
        spells(key_id(key)[0], key_id(key)[1], blake2b_256(key)[0]),
        spells(key_id(key)[2], key_id(key)[3], blake2b_256(key)[1]),
        spells(key_id(key)[4], key_id(key)[5], blake2b_256(key)[2]),
{
    let head = blake2b_256(key).take(3);
    hexadecimals_read_back(head);
    assert(head[0] == blake2b_256(key)[0]);
    assert(head[1] == blake2b_256(key)[1]);
    assert(head[2] == blake2b_256(key)[2]);
}

proof fn lemma_leading(before: Seq<char>, core: Seq<char>)
    requires
        is_white(before),
        core.len() > 0 ==> !is_white_space(core[0]),
    ensures
        without_leading_space(before + core) == core,
    decreases before.len(),
{
    let s = before + core;
    if before.len() == 0 {
        assert(s =~= core);
    } else {
        assert(is_white_space(before[0]));
        assert(s.first() == before[0]);
        assert(s.drop_first() =~= before.drop_first() + core);
        assert forall|i: int| 0 <= i < before.drop_first().len() implies is_white_space(
            #[trigger] before.drop_first()[i],
        ) by {
            assert(is_white_space(before[i + 1]));
        }
        lemma_leading(before.drop_first(), core);
    }
}

proof fn lemma_trailing(core: Seq<char>, behind: Seq<char>)
    requires
        is_white(behind),
        core.len() > 0 ==> !is_white_space(core.last()),
    ensures
        without_trailing_space(core + behind) == core,
    decreases behind.len(),
{
    let s = core + behind;
    if behind.len() == 0 {
        assert(s =~= core);
    } else {
        assert(is_white_space(behind[behind.len() - 1]));
        assert(s.last() == behind[behind.len() - 1]);
        assert(s.drop_last() =~= core + behind.drop_last());
        assert forall|i: int| 0 <= i < behind.drop_last().len() implies is_white_space(
            #[trigger] behind.drop_last()[i],
        ) by {
            assert(is_white_space(behind[i]));
        }
        lemma_trailing(core, behind.drop_last());
    }
}

/// White space around a text does not matter, and nothing else is taken away.
pub proof fn only_the_white_space_around_is_trimmed(
    before: Seq<char>,
    core: Seq<char>,
    behind: Seq<char>,
)
    requires
        is_white(before),
        is_white(behind),
        core.len() > 0 ==> !is_white_space(core[0]) && !is_white_space(core.last()),
    ensures
        trimmed(before + core + behind) == core,
{
    if core.len() > 0 {
        assert(before + core + behind =~= before + (core + behind));
        lemma_leading(before, core + behind);
        lemma_trailing(core, behind);
    } else {
        let white = before + behind;
        assert(before + core + behind =~= white + core);
        assert forall|i: int| 0 <= i < white.len() implies is_white_space(#[trigger] white[i]) by {
            if i < before.len() {
                assert(white[i] == before[i]);
            } else {
                assert(white[i] == behind[i - before.len()]);
            }
        }
        lemma_leading(white, core);
    }
}

/// The secret key of a server is the first half of the digest of a fixed text, the name of the host
/// and the identity of the machine without the white space around it. The code of the workstation is
/// the first sixteen bytes of the digest of the name and the identity. A machine without an identity
/// adds nothing to either, and a key that was made before is used again.
pub proof fn keys_are_made_of_the_host_and_the_machine(
    hostname: Seq<char>,
    machine_id: Option<String>,
    before: Seq<char>,
    core: Seq<char>,
    behind: Seq<char>,
    kept: Seq<u8>,
)
    requires
        machine_id matches Some(text) ==> {
            &&& text@ == before + core + behind
            &&& is_white(before)
            &&& is_white(behind)
            &&& core.len() > 0 ==> !is_white_space(core[0]) && !is_white_space(core.last())
        },
        machine_id is None ==> core.len() == 0,
    ensures
        kept_key(None, hostname, machine_id) == blake2b_512(
            encode_utf8("OpenDeck Stream Deck Mobile VSD2 server key v1"@) + encode_utf8(hostname)
                + encode_utf8(core),
        ).take(32),
        workstation_text(hostname, machine_id) == base64_url(
            blake2b_512(encode_utf8(hostname) + encode_utf8(core)).take(16),
        ),
        kept_key(Some(kept), hostname, machine_id) == kept,
{
    if machine_id is Some {
        only_the_white_space_around_is_trimmed(before, core, behind);
    } else {
        assert(core =~= seq![]);
    }
}

/// Whether states of the generator follow on each other: the state is shifted to the left, to the
/// right and to the left again, and each time combined with what it was.
pub open spec fn follow(states: Seq<u128>, start: u128) -> bool {
    &&& states.len() > 0
    &&& states[0] == start
    &&& forall|i: int|
        #![trigger states[i]]
        0 < i < states.len() ==> {
            let x = states[i - 1];
            let a = x ^ (x << 13u128);
            let b = a ^ (a >> 17u128);
            states[i] == b ^ (b << 5u128)
        }
}

proof fn lemma_states(x: u128, count: nat) -> (states: Seq<u128>)
    ensures
        states.len() == count + 1,
        follow(states, x),
        token_chars(x, count).len() == count,
        forall|i: int|
            #![trigger token_chars(x, count)[i]]
            0 <= i < count ==> token_chars(x, count)[i]
                == "abcdefghijklmnopqrstuvwxyz0123456789"@[(states[i + 1] as usize) as int % 36],
    decreases count,
{
    reveal_strlit("abcdefghijklmnopqrstuvwxyz0123456789");
    if count == 0 {
        seq![x]
    } else {
        let y = token_step(x);
        let rest = lemma_states(y, (count - 1) as nat);
        let states = seq![x] + rest;
        assert forall|i: int| #![trigger states[i]] 0 < i < states.len() implies {
            let x = states[i - 1];
            let a = x ^ (x << 13u128);
            let b = a ^ (a >> 17u128);
            states[i] == b ^ (b << 5u128)
        } by {
            if i > 1 {
                assert(states[i] == rest[i - 1]);
                assert(states[i - 1] == rest[i - 2]);
            } else {
                assert(states[1] == rest[0]);
            }
        }
        assert forall|i: int| #![trigger token_chars(x, count)[i]] 0 <= i < count implies token_chars(
            x,
            count,
        )[i] == "abcdefghijklmnopqrstuvwxyz0123456789"@[(states[i + 1] as usize) as int % 36] by {
            assert(states[i + 1] == rest[i]);
            if i > 0 {
                assert(token_chars(x, count)[i] == token_chars(y, (count - 1) as nat)[i - 1]);
            } else {
                assert(rest[0] == y);
            }
        }
        states
    }
}

/// A token shows the states of its generator, one after the other, each as a letter or a digit. The
/// generator starts from the time and the number of the process.
pub proof fn tokens_show_their_generator(nanos: u128, process: u32) -> (states: Seq<u128>)
    ensures
        states.len() == 28,
        follow(states, nanos ^ ((process as u128) << 64u128)),
        token_chars(token_seed(nanos, process), 27).len() == 27,
        forall|i: int|
            #![trigger token_chars(token_seed(nanos, process), 27)[i]]
            0 <= i < 27 ==> token_chars(token_seed(nanos, process), 27)[i]
                == "abcdefghijklmnopqrstuvwxyz0123456789"@[(states[i + 1] as usize) as int % 36],
{
    lemma_states(token_seed(nanos, process), 27)
}

// ---------------------------------------------------------------------------------------------
// Addresses
// ---------------------------------------------------------------------------------------------
/// An address shows its four numbers, in order and parted by dots; a server without one is reached
/// on its own machine.
pub proof fn addresses_show_their_numbers(octets: [u8; 4]) -> (parts: Seq<Seq<char>>)
    ensures
        parts.len() == 4,
        forall|i: int|
            #![trigger parts[i]]
            0 <= i < 4 ==> decimal_value(parts[i]) == octets@[i] && parts[i].len() > 0
                && !parts[i].contains('.'),
        address_text(Some(octets)) == parts[0] + seq!['.'] + parts[1] + seq!['.'] + parts[2] + seq![
            '.',
        ] + parts[3],
        address_text(None) == "127.0.0.1"@,
{
    let parts = Seq::new(4, |i: int| decimal(octets@[i] as nat));
    reveal_strlit(".");
    assert("."@ =~= seq!['.']);
    assert forall|i: int| #![trigger parts[i]] 0 <= i < 4 implies decimal_value(parts[i])
        == octets@[i] && parts[i].len() > 0 && !parts[i].contains('.') by {
        decimals_read_back(octets@[i] as nat);
    }
    parts
}

/// The address that the mobile app scans names the token, the workstation, and the address of the
/// server with the port of either service, whatever they are.
pub proof fn scanned_addresses_name_both_services(
    token: Seq<char>,
    workstation: Seq<char>,
    address: Seq<char>,
)
    ensures
        connect_url(token, workstation, address) == "https://streamdeck.elgato.com/connect/?t="@
            + percent_encoded(encode_utf8(token)) + "&w="@ + percent_encoded(
            encode_utf8(workstation),
        ) + "&a="@ + address + ":28197"@ + "&av2="@ + address + ":28198"@,
{
    reveal_strlit(":");
    reveal_strlit(":28197");
    reveal_strlit(":28198");
    reveal_with_fuel(decimal, 5);
    assert(decimal(28197) =~= seq!['2', '8', '1', '9', '7']);
    assert(decimal(28198) =~= seq!['2', '8', '1', '9', '8']);
    assert(":28197"@ =~= ":"@ + decimal(28197));
    assert(":28198"@ =~= ":"@ + decimal(28198));
    assert(connect_url(token, workstation, address) =~= "https://streamdeck.elgato.com/connect/?t="@
        + percent_encoded(encode_utf8(token)) + "&w="@ + percent_encoded(encode_utf8(workstation))
        + "&a="@ + address + ":28197"@ + "&av2="@ + address + ":28198"@);
}

// ---------------------------------------------------------------------------------------------
// Drawings
// ---------------------------------------------------------------------------------------------
/// The drawing of a code shows each dark module, and no light one, in its column and row behind a
/// border of four modules: one more module at the end of a row, or one more row, adds what belongs
/// to it and changes nothing else.
pub proof fn drawings_show_the_dark_modules(row: Seq<bool>, y: nat, modules: Seq<Seq<bool>>)
    ensures
        row_path(Seq::empty(), y).len() == 0,
        row_path(row.push(false), y) == row_path(row, y),
        row_path(row.push(true), y) == row_path(row, y) + ("M"@ + decimal(row.len() + 4) + " "@
            + decimal(y + 4) + "h1v1h-1z"@),
        modules_path(Seq::empty()).len() == 0,
        modules_path(modules.push(row)) == modules_path(modules) + row_path(row, modules.len()),
{
    assert(row.push(false).drop_last() =~= row);
    assert(row.push(true).drop_last() =~= row);
    assert(modules.push(row).drop_last() =~= modules);
    assert(row_path(row, y) + Seq::<char>::empty() =~= row_path(row, y));
}

/// The drawing has the extent of the code and its border on either side, a white ground, and the
/// modules in black. Its data address holds the drawing, and a reader of such addresses finds it.
pub proof fn drawings_are_found_in_their_address(modules: Seq<Seq<bool>>)
    ensures
        svg_text(modules) == "<svg xmlns=\"http://www.w3.org/2000/svg\" viewBox=\"0 0 "@ + decimal(
            modules.len() + 4 + 4,
        ) + " "@ + decimal(modules.len() + 4 + 4)
            + "\" shape-rendering=\"crispEdges\"><rect width=\"100%\" height=\"100%\" fill=\"#fff\"/><path d=\""@
            + modules_path(modules) + "\" fill=\"#000\"/></svg>"@,
        qr_data_url(modules) == "data:image/svg+xml;base64"@ + seq![','] + base64_standard(
            encode_utf8(svg_text(modules)),
        ),
        addressed_file(qr_data_url(modules)) == Some(
            Ok::<Seq<u8>, Seq<char>>(encode_utf8(svg_text(modules))),
        ),
{
    reveal_strlit("data:image/svg+xml;base64");
    reveal_strlit("data:image/svg+xml;base64,");
    assert("data:image/svg+xml;base64,"@ =~= "data:image/svg+xml;base64"@ + seq![',']);
    picture_files_survive_their_address(
        "data:image/svg+xml;base64"@,
        encode_utf8(svg_text(modules)),
    );
}

/// Any text is drawn as the address of the drawing of its code; if there is no code for it, it is
/// said why.
pub proof fn texts_are_drawn_as_their_code(
    text: Seq<char>,
    modules: Seq<Seq<bool>>,
    e: Seq<char>,
)
    ensures
        qr_encoding(text) == Ok::<Seq<Seq<bool>>, Seq<char>>(modules) ==> qr_drawing(text) == Ok::<
            Seq<char>,
            Seq<char>,
        >(qr_data_url(modules)),
        qr_encoding(text) == Err::<Seq<Seq<bool>>, Seq<char>>(e) ==> qr_drawing(text) == Err::<
            Seq<char>,
            Seq<char>,
        >("failed to generate QR code: "@ + e),
{
}

// ---------------------------------------------------------------------------------------------
// What the desktop shows
// ---------------------------------------------------------------------------------------------
/// The desktop shows the address that is to be scanned, its drawing, and what went into it: the
/// address of the server, the port of either service, the token, the code of the workstation, the
/// name of the host and sixteen bytes of the server's public key. If the drawing cannot be made, the
/// desktop says why.
pub proof fn pairing_shows_what_is_scanned(
    secret: Seq<u8>,
    hostname: Seq<char>,
    machine_id: Option<String>,
    ip: Option<[u8; 4]>,
    token: Seq<char>,
    modules: Seq<Seq<bool>>,
    e: Seq<char>,
)
    requires
        public_key_of(secret).len() == 32,
    ensures
        ({
            let workstation = workstation_text(hostname, machine_id);
            let url = connect_url(token, workstation, address_text(ip));
            let shown = pairing_shown(secret, hostname, machine_id, ip, token);
            &&& qr_encoding(url) == Ok::<Seq<Seq<bool>>, Seq<char>>(modules) ==> (shown matches Ok(
                info,
            ) && {
                &&& info.qr_url == url
                &&& info.qr_data_url == qr_data_url(modules)
                &&& info.address == address_text(ip)
                &&& info.legacy_port == 28197
                &&& info.vsd2_port == 28198
                &&& info.token == token
                &&& info.workstation_id == workstation
                &&& info.hostname == hostname
                &&& info.public_key_fingerprint.len() == 32
                &&& forall|i: int|
                    0 <= i < 16 ==> spells(
                        info.public_key_fingerprint[2 * i],
                        info.public_key_fingerprint[2 * i + 1],
                        #[trigger] public_key_of(secret)[i],
                    )
            })
            &&& qr_encoding(url) == Err::<Seq<Seq<bool>>, Seq<char>>(e) ==> (shown matches Err(
                reason,
            ) && reason == "failed to generate QR code: "@ + e)
        }),
{
    let head = public_key_of(secret).take(16);
    hexadecimals_read_back(head);
    assert(forall|i: int| 0 <= i < 16 ==> head[i] == #[trigger] public_key_of(secret)[i]);
}

/// What the desktop is given is what is shown of it.
pub proof fn the_desktop_is_given_what_is_shown(
    info: PairingInfo,
    pairing: PendingPairing,
    rows: Seq<Vec<bool>>,
    text: String,
    y: int,
)
    ensures
        info@.qr_url == info.qr_url@,
        info@.qr_data_url == info.qr_data_url@,
        info@.address == info.address@,
        info@.legacy_port == info.legacy_port,
        info@.vsd2_port == info.vsd2_port,
        info@.token == info.token@,
        info@.workstation_id == info.workstation_id@,
        info@.hostname == info.hostname@,
        info@.public_key_fingerprint == info.public_key_fingerprint@,
        pairing@.fingerprint == pairing.fingerprint@,
        pairing@.name == pairing.name@,
        pairing@.peer == pairing.peer@,
        pairing@.approved == pairing.approved,
        rows_of(rows).len() == rows.len(),
        0 <= y < rows.len() ==> rows_of(rows)[y] == rows[y]@,
        result_text(Ok(text)) == Ok::<Seq<char>, Seq<char>>(text@),
        result_text(Err(text)) == Err::<Seq<char>, Seq<char>>(text@),
{
}

/// A decision is noted on the request that it is about; nothing else of that request changes, and
/// no other request does.
pub proof fn decisions_are_noted_on_their_request(
    pending: Map<Seq<char>, PendingPairingView>,
    fingerprint: Seq<char>,
    approve: bool,
    other: Seq<char>,
)
    requires
        pending.contains_key(fingerprint),
        other != fingerprint,
    ensures
        ({
            let after = resolved(pending, fingerprint, approve);
            &&& after.contains_key(fingerprint)
            &&& after[fingerprint].approved == approve
            &&& after[fingerprint].fingerprint == pending[fingerprint].fingerprint
            &&& after[fingerprint].name == pending[fingerprint].name
            &&& after[fingerprint].peer == pending[fingerprint].peer
            &&& after.contains_key(other) == pending.contains_key(other)
            &&& pending.contains_key(other) ==> after[other] == pending[other]
        }),
{
}

/// Whether a request is one that waits.
pub open spec fn waits(
    pending: Map<Seq<char>, PendingPairingView>,
    request: PendingPairingView,
) -> bool {
    exists|k: Seq<char>| #[trigger] pending.contains_key(k) && request == pending[k]
}

/// The desktop is shown every request that waits, and none that does not, each once.
pub proof fn every_request_is_listed(
    pending: Map<Seq<char>, PendingPairingView>,
    list: Seq<PendingPairing>,
    key: Seq<char>,
)
    requires
        lists_values(pending, list),
    ensures
        pending.contains_key(key) ==> exists|i: int|
            0 <= i < list.len() && (#[trigger] list[i])@ == pending[key],
        forall|i: int| 0 <= i < list.len() ==> waits(pending, (#[trigger] list[i])@),
        pending.dom().len() == list.len(),
{
    let order = choose|order: Seq<Seq<char>>|
        {
            &&& order.no_duplicates()
            &&& forall|k: Seq<char>| #[trigger] order.contains(k) <==> pending.contains_key(k)
            &&& order.len() == list.len()
            &&& forall|i: int| 0 <= i < list.len() ==> (#[trigger] list[i])@ == pending[order[i]]
        };
    if pending.contains_key(key) {
        assert(order.contains(key));
        let i = choose|i: int| 0 <= i < order.len() && order[i] == key;
        assert(list[i]@ == pending[key]);
    }
    assert forall|i: int| 0 <= i < list.len() implies waits(pending, (#[trigger] list[i])@) by {
        assert(order.contains(order[i]));
        assert(pending.contains_key(order[i]));
    }
    order.unique_seq_to_set();
    assert(order.to_set() =~= pending.dom());
}

} // verus!
