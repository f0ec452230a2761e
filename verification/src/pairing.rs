//! Pairing: the code that the mobile app scans, and the requests that wait for the desktop.
use qrcodegen::{QrCode, QrCodeEcc};
use vstd::prelude::*;
use vstd::string::StringExecFns;
use vstd::utf8::{encode_utf8, is_ascii_chars, is_ascii_chars_encode_utf8};

use crate::base64_text::{address_text_is_plain, base64_standard, encode_base64, is_address_char};
use crate::crypto::{blake2b_512, public_key_of};
use crate::identity::{
    address_text, endpoint_address, hex16, kept_key, random_token, token_chars,
    token_is_alphanumeric, token_seed, workstation_code, workstation_material, workstation_text,
    ServerKeys,
};
use crate::registry::Registry;
use crate::text::{decimal, hex_text, lemma_decimal_length, push_decimal};

verus! {

/// The port of the service.
pub const PORT: u16 = 28198;

/// The port of the older service, which is only advertised.
pub const LEGACY_PORT: u16 = 28197;

// ---------------------------------------------------------------------------------------------
// Requests that wait for the desktop
// ---------------------------------------------------------------------------------------------
/// A request to be paired that waits for the desktop.
#[derive(Debug, PartialEq, Eq)]
pub struct PendingPairing {
    pub fingerprint: String,
    pub name: String,
    pub peer: String,
    pub approved: bool,
}

/// The values of a [`PendingPairing`].
pub struct PendingPairingView {
    pub fingerprint: Seq<char>,
    pub name: Seq<char>,
    pub peer: Seq<char>,
    pub approved: bool,
}

impl View for PendingPairing {
    type V = PendingPairingView;

    open spec fn view(&self) -> PendingPairingView {
        PendingPairingView {
            fingerprint: self.fingerprint@,
            name: self.name@,
            peer: self.peer@,
            approved: self.approved,
        }
    }
}

impl Clone for PendingPairing {
    fn clone(&self) -> (r: PendingPairing)
        ensures
            r == *self,
    {
        PendingPairing {
            fingerprint: self.fingerprint.clone(),
            name: self.name.clone(),
            peer: self.peer.clone(),
            approved: self.approved,
        }
    }
}

/// The requests that wait, each once, in some order.
pub open spec fn lists_values(
    pending: Map<Seq<char>, PendingPairingView>,
    list: Seq<PendingPairing>,
) -> bool {
    exists|order: Seq<Seq<char>>|
        {
            &&& order.no_duplicates()
            &&& forall|k: Seq<char>| #[trigger] order.contains(k) <==> pending.contains_key(k)
            &&& order.len() == list.len()
            &&& forall|i: int| 0 <= i < list.len() ==> (#[trigger] list[i])@ == pending[order[i]]
        }
}

/// The requests that wait for the desktop.
pub fn streamdeck_mobile_pending_pairings(pending: &Registry<PendingPairing>) -> (r: Vec<
    PendingPairing,
>)
    requires
        pending.wf(),
    ensures
        lists_values(pending@, r@),
{
    let n: usize = pending.len();
    let mut list: Vec<PendingPairing> = Vec::new();
    let mut i: usize = 0;
    while i < n
        invariant
            pending.wf(),
            n == pending@.dom().len(),
            i <= n,
            list@.len() == i,
            forall|j: int| 0 <= j < i ==> (#[trigger] list@[j])@ == pending@[pending.key_at(j)],
            forall|j: int| 0 <= j < i ==> pending@.contains_key(#[trigger] pending.key_at(j)),
        decreases n - i,
    {
        list.push(pending.value_at(i).clone());
        i = i + 1;
    }
    proof {
        pending.lemma_positions();
        let order = Seq::new(n as nat, |j: int| pending.key_at(j));
        assert(order.no_duplicates()) by {
            assert forall|a: int, b: int| 0 <= a < n && 0 <= b < n && a != b implies order[a]
                != order[b] by {
                if a < b {
                    assert(pending.key_at(a) != pending.key_at(b));
                } else {
                    assert(pending.key_at(b) != pending.key_at(a));
                }
            }
        }
        assert forall|k: Seq<char>| #[trigger] order.contains(k) <==> pending@.contains_key(k) by {
            if pending@.contains_key(k) {
                let j = choose|j: int| 0 <= j < n && #[trigger] pending.key_at(j) == k;
                assert(order[j] == k);
            }
        }
        assert forall|j: int| 0 <= j < list@.len() implies (#[trigger] list@[j])@
            == pending@[order[j]] by {}
    }
    list
}

/// The requests once the desktop has decided on one of them.
pub open spec fn resolved(
    pending: Map<Seq<char>, PendingPairingView>,
    fingerprint: Seq<char>,
    approve: bool,
) -> Map<Seq<char>, PendingPairingView> {
    pending.insert(
        fingerprint,
        PendingPairingView { approved: approve, ..pending[fingerprint] },
    )
}

/// The desktop's decision on a request: it is noted on the request, if there is one.
pub fn streamdeck_mobile_resolve_pairing(
    pending: &mut Registry<PendingPairing>,
    fingerprint: &str,
    approve: bool,
) -> (r: Result<(), String>)
    requires
        old(pending).wf(),
    ensures
        final(pending).wf(),
        if old(pending)@.contains_key(fingerprint@) {
            &&& r is Ok
            &&& final(pending)@ == resolved(old(pending)@, fingerprint@, approve)
        } else {
            &&& final(pending)@ == old(pending)@
            &&& r matches Err(e) && e@ == "No pending pairing for fingerprint "@ + fingerprint@
        },
{
    let found: Option<PendingPairing> = match pending.get(fingerprint) {
        Some(pairing) => Some(pairing.clone()),
        None => None,
    };
    match found {
        Some(mut pairing) => {
            pairing.approved = approve;
            pending.insert(fingerprint, pairing);
            Ok(())
        },
        None => {
            let mut message: String = "No pending pairing for fingerprint ".to_owned();
            message.append(fingerprint);
            Err(message)
        },
    }
}

// ---------------------------------------------------------------------------------------------
// The picture of the code
// ---------------------------------------------------------------------------------------------
/// The QR code type of the crate `qrcodegen`.
#[verifier::external_type_specification]
#[verifier::external_body]
pub struct ExQrCode(QrCode);

/// The modules of a QR code, row after row: whether each is dark.
pub uninterp spec fn qr_modules(qr: QrCode) -> Seq<Seq<bool>>;

/// The modules of the QR code for a text at the medium level of error correction, or what is said
/// of a text that does not fit.
pub uninterp spec fn qr_encoding(text: Seq<char>) -> Result<Seq<Seq<bool>>, Seq<char>>;

/// `qrcodegen::QrCode::encode_text` at the medium level: a code, or the description of the error,
/// which depends on the text alone. The largest code holds 2334 bytes of data at this level, and a
/// text needs at most twenty bits beside its bytes, so 2331 bytes always fit.
#[verifier::external_body]
fn encode_qr(text: &str) -> (r: Result<QrCode, String>)
    ensures
        match r {
            Ok(qr) => qr_encoding(text@) == Ok::<Seq<Seq<bool>>, Seq<char>>(qr_modules(qr)),
            Err(e) => qr_encoding(text@) == Err::<Seq<Seq<bool>>, Seq<char>>(e@),
        },
        encode_utf8(text@).len() <= 2331 ==> r is Ok,
{
    QrCode::encode_text(text, QrCodeEcc::Medium).map_err(|e| e.to_string())
}

/// `qrcodegen::QrCode::size`: the number of rows and of columns, documented to be from 21 to 177.
#[verifier::external_body]
fn qr_size(qr: &QrCode) -> (r: i32)
    ensures
        21 <= r <= 177,
        qr_modules(*qr).len() == r,
        forall|y: int| 0 <= y < r ==> (#[trigger] qr_modules(*qr)[y]).len() == r,
{
    qr.size()
}

/// `qrcodegen::QrCode::get_module`: whether the module in column `x` of row `y` is dark; outside
/// the code none is.
#[verifier::external_body]
fn qr_module(qr: &QrCode, x: i32, y: i32) -> (r: bool)
    ensures
        r == (0 <= y < qr_modules(*qr).len() && 0 <= x < qr_modules(*qr).len() && qr_modules(
            *qr,
        )[y as int][x as int]),
{
    qr.get_module(x, y)
}

/// A square of modules of a size that a QR code can have.
pub open spec fn is_square(modules: Seq<Seq<bool>>) -> bool {
    &&& modules.len() <= 177
    &&& forall|y: int| 0 <= y < modules.len() ==> (#[trigger] modules[y]).len() == modules.len()
}

/// The rows of a list of lists.
pub open spec fn rows_of(rows: Seq<Vec<bool>>) -> Seq<Seq<bool>> {
    rows.map_values(|row: Vec<bool>| row@)
}

fn read_modules(qr: &QrCode) -> (r: Vec<Vec<bool>>)
    ensures
        rows_of(r@) == qr_modules(*qr),
        is_square(qr_modules(*qr)),
{
    let size: i32 = qr_size(qr);
    let mut rows: Vec<Vec<bool>> = Vec::new();
    let mut y: i32 = 0;
    while y < size
        invariant
            0 <= y <= size <= 177,
            qr_modules(*qr).len() == size,
            forall|k: int| 0 <= k < size ==> (#[trigger] qr_modules(*qr)[k]).len() == size,
            rows_of(rows@) == qr_modules(*qr).take(y as int),
        decreases size - y,
    {
        let mut row: Vec<bool> = Vec::new();
        let mut x: i32 = 0;
        while x < size
            invariant
                0 <= x <= size,
                0 <= y < size,
                qr_modules(*qr).len() == size,
                qr_modules(*qr)[y as int].len() == size,
                row@ == qr_modules(*qr)[y as int].take(x as int),
            decreases size - x,
        {
            row.push(qr_module(qr, x, y));
            proof {
                assert(row@ =~= qr_modules(*qr)[y as int].take(x + 1));
            }
            x = x + 1;
        }
        proof {
            assert(row@ =~= qr_modules(*qr)[y as int]);
        }
        let ghost before = rows@;
        rows.push(row);
        proof {
            assert(rows_of(rows@) =~= rows_of(before).push(row@));
            assert(rows_of(rows@) =~= qr_modules(*qr).take(y + 1));
        }
        y = y + 1;
    }
    proof {
        assert(qr_modules(*qr).take(y as int) =~= qr_modules(*qr));
    }
    rows
}

/// A dark module in column `x` of row `y`, behind a border of four modules.
pub open spec fn square_path(x: nat, y: nat) -> Seq<char> {
    "M"@ + decimal(x + 4) + " "@ + decimal(y + 4) + "h1v1h-1z"@
}

/// The dark modules of a row.
pub open spec fn row_path(row: Seq<bool>, y: nat) -> Seq<char>
    decreases row.len(),
{
    if row.len() == 0 {
        seq![]
    } else {
        row_path(row.drop_last(), y) + if row.last() {
            square_path((row.len() - 1) as nat, y)
        } else {
            seq![]
        }
    }
}

/// The dark modules of a code.
pub open spec fn modules_path(modules: Seq<Seq<bool>>) -> Seq<char>
    decreases modules.len(),
{
    if modules.len() == 0 {
        seq![]
    } else {
        modules_path(modules.drop_last()) + row_path(modules.last(), (modules.len() - 1) as nat)
    }
}

/// A code as a drawing: a white ground, and on it the dark modules in black.
pub open spec fn svg_text(modules: Seq<Seq<bool>>) -> Seq<char> {
    let extent = decimal(modules.len() + 8);
    "<svg xmlns=\"http://www.w3.org/2000/svg\" viewBox=\"0 0 "@ + extent + " "@ + extent
        + "\" shape-rendering=\"crispEdges\"><rect width=\"100%\" height=\"100%\" fill=\"#fff\"/><path d=\""@
        + modules_path(modules) + "\" fill=\"#000\"/></svg>"@
}

/// Draws a code.
pub fn qr_svg(modules: &Vec<Vec<bool>>) -> (svg: String)
    requires
        is_square(rows_of(modules@)),
    ensures
        svg@ == svg_text(rows_of(modules@)),
{
    let size: usize = modules.len();
    let ghost rows = rows_of(modules@);
    let mut path: String = String::new();
    let mut y: usize = 0;
    proof {
        assert(modules_path(rows.take(0)) =~= seq![]);
    }
    while y < size
        invariant
            y <= size,
            size == modules@.len(),
            size <= 177,
            rows == rows_of(modules@),
            is_square(rows),
            path@ == modules_path(rows.take(y as int)),
        decreases size - y,
    {
        let row: &Vec<bool> = &modules[y];
        proof {
            assert(rows[y as int] == row@);
            assert(row_path(row@.take(0), y as nat) =~= seq![]);
            assert(path@ + row_path(row@.take(0), y as nat) =~= path@);
        }
        let ghost above = path@;
        let mut x: usize = 0;
        while x < size
            invariant
                x <= size,
                y < size <= 177,
                row@.len() == size,
                path@ == above + row_path(row@.take(x as int), y as nat),
            decreases size - x,
        {
            let ghost before = path@;
            if row[x] {
                path.append("M");
                push_decimal(&mut path, x as u64 + 4);
                path.append(" ");
                push_decimal(&mut path, y as u64 + 4);
                path.append("h1v1h-1z");
                proof {
                    assert(path@ =~= before + square_path(x as nat, y as nat));
                }
            }
            proof {
                assert(row@.take(x + 1).drop_last() =~= row@.take(x as int));
                assert(path@ =~= above + row_path(row@.take(x + 1), y as nat));
            }
            x = x + 1;
        }
        proof {
            assert(row@.take(x as int) =~= row@);
            assert(rows.take(y + 1).drop_last() =~= rows.take(y as int));
            assert(rows.take(y + 1).last() == row@);
        }
        y = y + 1;
    }
    proof {
        assert(rows.take(y as int) =~= rows);
    }
    let mut svg: String = "<svg xmlns=\"http://www.w3.org/2000/svg\" viewBox=\"0 0 ".to_owned();
    push_decimal(&mut svg, size as u64 + 8);
    svg.append(" ");
    push_decimal(&mut svg, size as u64 + 8);
    svg.append(
        "\" shape-rendering=\"crispEdges\"><rect width=\"100%\" height=\"100%\" fill=\"#fff\"/><path d=\"",
    );
    svg.append(path.as_str());
    svg.append("\" fill=\"#000\"/></svg>");
    proof {
        assert(svg@ =~= svg_text(rows));
    }
    svg
}

/// A code as a data address of its drawing.
pub open spec fn qr_data_url(modules: Seq<Seq<bool>>) -> Seq<char> {
    "data:image/svg+xml;base64,"@ + base64_standard(encode_utf8(svg_text(modules)))
}

/// A code, given by its modules, as a data address of its drawing.
pub fn modules_data_url(modules: &Vec<Vec<bool>>) -> (r: String)
    requires
        is_square(rows_of(modules@)),
    ensures
        r@ == qr_data_url(rows_of(modules@)),
{
    let svg: String = qr_svg(modules);
    let mut url: String = "data:image/svg+xml;base64,".to_owned();
    let encoded: String = encode_base64(svg.as_str().as_bytes());
    url.append(encoded.as_str());
    url
}

/// The drawing of the QR code for a text.
pub open spec fn qr_drawing(text: Seq<char>) -> Result<Seq<char>, Seq<char>> {
    match qr_encoding(text) {
        Ok(modules) => Ok(qr_data_url(modules)),
        Err(e) => Err("failed to generate QR code: "@ + e),
    }
}

/// The texts in a result.
pub open spec fn result_text(r: Result<String, String>) -> Result<Seq<char>, Seq<char>> {
    match r {
        Ok(s) => Ok(s@),
        Err(e) => Err(e@),
    }
}

/// Draws the QR code for a text, as a data address. A text of up to 2331 bytes can be drawn.
pub fn build_qr_data_url(payload: &str) -> (r: Result<String, String>)
    ensures
        result_text(r) == qr_drawing(payload@),
        encode_utf8(payload@).len() <= 2331 ==> r is Ok,
{
    match encode_qr(payload) {
        Ok(qr) => {
            let modules: Vec<Vec<bool>> = read_modules(&qr);
            Ok(modules_data_url(&modules))
        },
        Err(e) => {
            let mut message: String = "failed to generate QR code: ".to_owned();
            message.append(e.as_str());
            Err(message)
        },
    }
}

// ---------------------------------------------------------------------------------------------
// What the desktop shows
// ---------------------------------------------------------------------------------------------
/// Something that can be paired with.
#[derive(Debug, PartialEq, Eq)]
pub struct PairingCandidate {
    pub name: String,
    pub payload: String,
}

impl Clone for PairingCandidate {
    fn clone(&self) -> (r: PairingCandidate)
        ensures
            r == *self,
    {
        PairingCandidate { name: self.name.clone(), payload: self.payload.clone() }
    }
}

/// All that the desktop shows for pairing.
#[derive(Debug, PartialEq, Eq)]
pub struct PairingInfo {
    pub qr_url: String,
    pub qr_data_url: String,
    pub address: String,
    pub legacy_port: u16,
    pub vsd2_port: u16,
    pub token: String,
    pub workstation_id: String,
    pub hostname: String,
    pub public_key_fingerprint: String,
}

/// The values of a [`PairingInfo`].
pub struct PairingInfoView {
    pub qr_url: Seq<char>,
    pub qr_data_url: Seq<char>,
    pub address: Seq<char>,
    pub legacy_port: u16,
    pub vsd2_port: u16,
    pub token: Seq<char>,
    pub workstation_id: Seq<char>,
    pub hostname: Seq<char>,
    pub public_key_fingerprint: Seq<char>,
}

impl View for PairingInfo {
    type V = PairingInfoView;

    open spec fn view(&self) -> PairingInfoView {
        PairingInfoView {
            qr_url: self.qr_url@,
            qr_data_url: self.qr_data_url@,
            address: self.address@,
            legacy_port: self.legacy_port,
            vsd2_port: self.vsd2_port,
            token: self.token@,
            workstation_id: self.workstation_id@,
            hostname: self.hostname@,
            public_key_fingerprint: self.public_key_fingerprint@,
        }
    }
}

/// The bytes that stand for themselves in an address.
pub open spec fn is_unreserved(b: u8) -> bool {
    ||| 48 <= b <= 57
    ||| 65 <= b <= 90
    ||| 97 <= b <= 122
    ||| b == 45
    ||| b == 46
    ||| b == 95
    ||| b == 126
}

/// One hexadecimal digit in upper case.
pub open spec fn upper_hex_digit(n: u8) -> char {
    if n < 10 {
        (48 + n) as char
    } else {
        (55 + n) as char
    }
}

/// A byte in an address: itself, or a percent sign and two hexadecimal digits.
pub open spec fn percent_byte(b: u8) -> Seq<char> {
    if is_unreserved(b) {
        seq![b as char]
    } else {
        seq!['%', upper_hex_digit(b / 16), upper_hex_digit(b % 16)]
    }
}

/// Bytes in an address.
pub open spec fn percent_encoded(bytes: Seq<u8>) -> Seq<char>
    decreases bytes.len(),
{
    if bytes.len() == 0 {
        seq![]
    } else {
        percent_encoded(bytes.drop_last()) + percent_byte(bytes.last())
    }
}

/// `urlencoding::encode`: every byte of the text in UTF-8 stands for itself if it is a letter, a
/// digit or one of `-`, `_`, `.` and `~`, and is escaped otherwise.
#[verifier::external_body]
fn percent_encode(text: &str) -> (r: String)
    ensures
        r@ == percent_encoded(encode_utf8(text@)),
{
    urlencoding::encode(text).into_owned()
}

/// The address in the code that the mobile app scans.
pub open spec fn connect_url(token: Seq<char>, workstation: Seq<char>, address: Seq<char>) -> Seq<
    char,
> {
    "https://streamdeck.elgato.com/connect/?t="@ + percent_encoded(encode_utf8(token)) + "&w="@
        + percent_encoded(encode_utf8(workstation)) + "&a="@ + address + ":"@ + decimal(28197)
        + "&av2="@ + address + ":"@ + decimal(28198)
}

/// Writes the address in the code that the mobile app scans.
pub fn build_connect_url(token: &str, workstation: &str, address: &str) -> (url: String)
    ensures
        url@ == connect_url(token@, workstation@, address@),
{
    let token_part: String = percent_encode(token);
    let workstation_part: String = percent_encode(workstation);
    let mut url: String = "https://streamdeck.elgato.com/connect/?t=".to_owned();
    url.append(token_part.as_str());
    url.append("&w=");
    url.append(workstation_part.as_str());
    url.append("&a=");
    url.append(address);
    url.append(":");
    push_decimal(&mut url, LEGACY_PORT as u64);
    url.append("&av2=");
    url.append(address);
    url.append(":");
    push_decimal(&mut url, PORT as u64);
    proof {
        assert(url@ =~= connect_url(token@, workstation@, address@));
    }
    url
}

/// A character takes at most four bytes in UTF-8.
proof fn lemma_utf8_length(text: Seq<char>)
    ensures
        encode_utf8(text).len() <= 4 * text.len(),
    decreases text.len(),
{
    if text.len() > 0 {
        lemma_utf8_length(text.drop_first());
    }
}

proof fn lemma_address_length(ip: Option<[u8; 4]>)
    ensures
        address_text(ip).len() <= 15,
{
    reveal_strlit(".");
    reveal_strlit("127.0.0.1");
    if let Some(octets) = ip {
        lemma_decimal_length(octets@[0] as nat);
        lemma_decimal_length(octets@[1] as nat);
        lemma_decimal_length(octets@[2] as nat);
        lemma_decimal_length(octets@[3] as nat);
    }
}

/// The address that the mobile app scans is short enough to be drawn.
proof fn lemma_scanned_address_fits(
    hostname: Seq<char>,
    machine_id: Option<String>,
    ip: Option<[u8; 4]>,
    nanos: u128,
    process: u32,
)
    requires
        workstation_text(hostname, machine_id).len() == 22,
    ensures
        encode_utf8(
            connect_url(
                token_chars(token_seed(nanos, process), 27),
                workstation_text(hostname, machine_id),
                address_text(ip),
            ),
        ).len() <= 2331,
{
    let token = token_chars(token_seed(nanos, process), 27);
    let url = connect_url(token, workstation_text(hostname, machine_id), address_text(ip));
    scanned_addresses_are_plain(hostname, machine_id, ip, nanos, process);
    token_is_alphanumeric(nanos, process);
    lemma_address_length(ip);
    lemma_decimal_length(28197);
    lemma_decimal_length(28198);
    reveal_strlit("https://streamdeck.elgato.com/connect/?t=");
    reveal_strlit("&w=");
    reveal_strlit("&a=");
    reveal_strlit("&av2=");
    reveal_strlit(":");
    assert(url.len() <= 200);
    lemma_utf8_length(url);
}

/// All that the desktop shows for pairing, or why the code cannot be drawn.
pub open spec fn pairing_shown(
    secret: Seq<u8>,
    hostname: Seq<char>,
    machine_id: Option<String>,
    ip: Option<[u8; 4]>,
    token: Seq<char>,
) -> Result<PairingInfoView, Seq<char>> {
    let workstation = workstation_text(hostname, machine_id);
    let url = connect_url(token, workstation, address_text(ip));
    match qr_drawing(url) {
        Ok(drawing) => Ok(
            PairingInfoView {
                qr_url: url,
                qr_data_url: drawing,
                address: address_text(ip),
                legacy_port: 28197,
                vsd2_port: 28198,
                token,
                workstation_id: workstation,
                hostname,
                public_key_fingerprint: hex_text(public_key_of(secret).take(16)),
            },
        ),
        Err(e) => Err(e),
    }
}

/// All that the desktop shows for pairing; it can always be shown. The token comes from the time
/// and the number of the process.
pub fn pairing_info(
    keys: &mut ServerKeys,
    hostname: &str,
    machine_id: &Option<String>,
    ip: Option<[u8; 4]>,
    nanos: u128,
    process: u32,
) -> (r: Result<PairingInfo, String>)
    ensures
        r is Ok,
        final(keys)@ == Some(kept_key(old(keys)@, hostname@, *machine_id)),
        match pairing_shown(
            kept_key(old(keys)@, hostname@, *machine_id),
            hostname@,
            *machine_id,
            ip,
            token_chars(token_seed(nanos, process), 27),
        ) {
            Ok(info) => r matches Ok(i) && i@ == info,
            Err(e) => r matches Err(t) && t@ == e,
        },
{
    let address: String = endpoint_address(ip);
    let workstation: String = workstation_code(hostname, machine_id);
    let token: String = random_token(nanos, process);
    let key: Vec<u8> = keys.server_key(hostname, machine_id);
    let qr_url: String = build_connect_url(token.as_str(), workstation.as_str(), address.as_str());
    proof {
        lemma_scanned_address_fits(hostname@, *machine_id, ip, nanos, process);
    }
    match build_qr_data_url(qr_url.as_str()) {
        Ok(qr_data_url) => Ok(
            PairingInfo {
                qr_url,
                qr_data_url,
                address,
                legacy_port: LEGACY_PORT,
                vsd2_port: PORT,
                token,
                workstation_id: workstation,
                hostname: hostname.to_owned(),
                public_key_fingerprint: hex16(key.as_slice()),
            },
        ),
        Err(e) => Err(e),
    }
}

/// The command of the desktop for [`pairing_info`].
pub fn streamdeck_mobile_pairing_info(
    keys: &mut ServerKeys,
    hostname: &str,
    machine_id: &Option<String>,
    ip: Option<[u8; 4]>,
    nanos: u128,
    process: u32,
) -> (r: Result<PairingInfo, String>)
    ensures
        r is Ok,
        final(keys)@ == Some(kept_key(old(keys)@, hostname@, *machine_id)),
        match pairing_shown(
            kept_key(old(keys)@, hostname@, *machine_id),
            hostname@,
            *machine_id,
            ip,
            token_chars(token_seed(nanos, process), 27),
        ) {
            Ok(info) => r matches Ok(i) && i@ == info,
            Err(e) => r matches Err(t) && t@ == e,
        },
{
    pairing_info(keys, hostname, machine_id, ip, nanos, process)
}

/// Letters, digits, `-` and `_` stand for themselves in an address.
pub proof fn plain_text_is_not_escaped(text: Seq<char>)
    requires
        forall|i: int| 0 <= i < text.len() ==> is_address_char(#[trigger] text[i]),
    ensures
        percent_encoded(encode_utf8(text)) == text,
{
    assert(is_ascii_chars(text));
    is_ascii_chars_encode_utf8(text);
    lemma_unreserved_bytes(encode_utf8(text), text);
}

proof fn lemma_unreserved_bytes(bytes: Seq<u8>, text: Seq<char>)
    requires
        bytes.len() == text.len(),
        forall|i: int|
            0 <= i < text.len() ==> is_address_char(#[trigger] text[i]) && text[i] as u8 == bytes[i],
    ensures
        percent_encoded(bytes) == text,
    decreases bytes.len(),
{
    if bytes.len() == 0 {
        assert(text =~= seq![]);
    } else {
        let last = text.last();
        assert(is_address_char(last) && last as u8 == bytes.last());
        assert forall|i: int| 0 <= i < text.drop_last().len() implies is_address_char(
            #[trigger] text.drop_last()[i],
        ) && text.drop_last()[i] as u8 == bytes.drop_last()[i] by {
            assert(is_address_char(text[i]));
        }
        lemma_unreserved_bytes(bytes.drop_last(), text.drop_last());
        assert(percent_byte(bytes.last()) =~= seq![last]);
        assert(text =~= text.drop_last() + seq![last]);
    }
}

/// The address that the mobile app scans shows the token and the code of the workstation as they
/// are: nothing in them is ever escaped.
pub proof fn scanned_addresses_are_plain(
    hostname: Seq<char>,
    machine_id: Option<String>,
    ip: Option<[u8; 4]>,
    nanos: u128,
    process: u32,
)
    ensures
        ({
            let token = token_chars(token_seed(nanos, process), 27);
            let workstation = workstation_text(hostname, machine_id);
            let address = address_text(ip);
            connect_url(token, workstation, address)
                == "https://streamdeck.elgato.com/connect/?t="@ + token + "&w="@ + workstation
                + "&a="@ + address + ":"@ + decimal(28197) + "&av2="@ + address + ":"@ + decimal(
                28198,
            )
        }),
{
    let token = token_chars(token_seed(nanos, process), 27);
    token_is_alphanumeric(nanos, process);
    assert forall|i: int| 0 <= i < token.len() implies is_address_char(#[trigger] token[i]) by {}
    plain_text_is_not_escaped(token);
    address_text_is_plain(blake2b_512(workstation_material(hostname, machine_id)).take(16));
    plain_text_is_not_escaped(workstation_text(hostname, machine_id));
}

} // verus!
