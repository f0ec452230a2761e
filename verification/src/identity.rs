//! Who the workstation is: its name, its keys, its address and its codes.
use vstd::prelude::*;
use vstd::string::StringExecFns;
use vstd::utf8::encode_utf8;

use crate::base64_text::{
    address_text_is_plain, base64_url, encode_base64_url, is_address_char,
};
use crate::crypto::{
    blake2b_256, blake2b_512, derive_public_key, digest_256, digest_512, first_32, public_key_of,
};
use crate::text::{decimal, hex_prefix, hex_text, lemma_hex_length, push_decimal, trim, trimmed};

verus! {

broadcast use vstd::slice::group_slice_axioms;

// ---------------------------------------------------------------------------------------------
// Names and keys
// ---------------------------------------------------------------------------------------------
/// The name of the workstation: the variable `HOSTNAME`, else `COMPUTERNAME`, else a fixed name.
pub fn hostname_string(hostname: Option<String>, computer_name: Option<String>) -> (r: String)
    ensures
        r@ == match hostname {
            Some(h) => h@,
            None => match computer_name {
                Some(c) => c@,
                None => "OpenDeck"@,
            },
        },
{
    match hostname {
        Some(h) => h,
        None => match computer_name {
            Some(c) => c,
            None => "OpenDeck".to_owned(),
        },
    }
}

/// What distinguishes the machine: the contents of its identity file without the white space
/// around them, or nothing if it has none that can be read.
pub open spec fn machine_text(machine_id: Option<String>) -> Seq<char> {
    match machine_id {
        Some(m) => trimmed(m@),
        None => seq![],
    }
}

fn push_machine_text(out: &mut Vec<u8>, machine_id: &Option<String>)
    ensures
        final(out)@ == old(out)@ + encode_utf8(machine_text(*machine_id)),
{
    match machine_id {
        Some(m) => {
            out.extend_from_slice(trim(m.as_str()).as_bytes());
        },
        None => {
            assert(encode_utf8(seq![]) =~= seq![]);
        },
    }
    assert(out@ =~= old(out)@ + encode_utf8(machine_text(*machine_id)));
}

/// What the secret key of the server is made from.
pub open spec fn secret_key_material(hostname: Seq<char>, machine_id: Option<String>) -> Seq<u8> {
    encode_utf8("OpenDeck Stream Deck Mobile VSD2 server key v1"@) + encode_utf8(hostname)
        + encode_utf8(machine_text(machine_id))
}

/// The secret key of the server: the first half of a digest over a fixed text, the hostname and
/// what distinguishes the machine.
pub fn server_secret_key(hostname: &str, machine_id: &Option<String>) -> (r: [u8; 32])
    ensures
        r@ == blake2b_512(secret_key_material(hostname@, *machine_id)).take(32),
{
    let mut material: Vec<u8> = Vec::new();
    material.extend_from_slice("OpenDeck Stream Deck Mobile VSD2 server key v1".as_bytes());
    material.extend_from_slice(hostname.as_bytes());
    push_machine_text(&mut material, machine_id);
    assert(material@ =~= secret_key_material(hostname@, *machine_id));
    let digest: Vec<u8> = digest_512(material.as_slice());
    first_32(digest.as_slice())
}

/// The public key of the server.
pub fn server_key(secret: &[u8; 32]) -> (r: Vec<u8>)
    ensures
        r@ == public_key_of(secret@),
        r@.len() == 32,
{
    derive_public_key(secret)
}

/// The secret key of the server once it has been made.
pub struct ServerKeys {
    secret: Option<[u8; 32]>,
}

impl View for ServerKeys {
    type V = Option<Seq<u8>>;

    closed spec fn view(&self) -> Option<Seq<u8>> {
        match self.secret {
            Some(key) => Some(key@),
            None => None,
        }
    }
}

/// The secret key in use: the one that was made first, whatever the hostname and the machine are by
/// now, or the one that is made for them now.
pub open spec fn kept_key(
    keys: Option<Seq<u8>>,
    hostname: Seq<char>,
    machine_id: Option<String>,
) -> Seq<u8> {
    match keys {
        Some(key) => key,
        None => blake2b_512(secret_key_material(hostname, machine_id)).take(32),
    }
}

impl ServerKeys {
    /// No key has been made.
    pub fn new() -> (r: ServerKeys)
        ensures
            r@ is None,
    {
        ServerKeys { secret: None }
    }

    /// The secret key of the server, which is made once and kept.
    pub fn server_secret_key(&mut self, hostname: &str, machine_id: &Option<String>) -> (r: [u8; 32])
        ensures
            r@ == kept_key(old(self)@, hostname@, *machine_id),
            final(self)@ == Some(r@),
    {
        match self.secret {
            Some(key) => key,
            None => {
                let key: [u8; 32] = server_secret_key(hostname, machine_id);
                self.secret = Some(key);
                key
            },
        }
    }

    /// The public key of the server, which belongs to the secret key that is kept.
    pub fn server_key(&mut self, hostname: &str, machine_id: &Option<String>) -> (r: Vec<u8>)
        ensures
            r@ == public_key_of(kept_key(old(self)@, hostname@, *machine_id)),
            r@.len() == 32,
            final(self)@ == Some(kept_key(old(self)@, hostname@, *machine_id)),
    {
        let secret: [u8; 32] = self.server_secret_key(hostname, machine_id);
        server_key(&secret)
    }
}

/// The key in use after some uses, each with the hostname and the machine of its time.
pub open spec fn key_after(
    keys: Option<Seq<u8>>,
    uses: Seq<(Seq<char>, Option<String>)>,
) -> Option<Seq<u8>>
    decreases uses.len(),
{
    if uses.len() == 0 {
        keys
    } else {
        let (hostname, machine_id) = uses.last();
        Some(kept_key(key_after(keys, uses.drop_last()), hostname, machine_id))
    }
}

/// The first use makes the key, and every use gives that key, even if the hostname or the machine
/// change in between. So every use gives the same public key, too.
pub proof fn the_first_key_is_kept(uses: Seq<(Seq<char>, Option<String>)>)
    requires
        uses.len() > 0,
    ensures
        key_after(None, uses) == Some(
            blake2b_512(secret_key_material(uses[0].0, uses[0].1)).take(32),
        ),
    decreases uses.len(),
{
    let init = uses.drop_last();
    if init.len() > 0 {
        the_first_key_is_kept(init);
        assert(init[0] == uses[0]);
    } else {
        assert(key_after(None, init) is None);
    }
}

/// The first three bytes in hexadecimal.
pub fn hex6(bytes: &[u8]) -> (r: String)
    ensures
        r@ == hex_text(bytes@.take(if bytes@.len() < 3 { bytes@.len() as int } else { 3 })),
{
    hex_prefix(bytes, 3)
}

/// The first sixteen bytes in hexadecimal.
pub fn hex16(bytes: &[u8]) -> (r: String)
    ensures
        r@ == hex_text(bytes@.take(if bytes@.len() < 16 { bytes@.len() as int } else { 16 })),
{
    hex_prefix(bytes, 16)
}

/// The verification code of a mobile app, which is also what it is known by.
pub open spec fn key_id(key: Seq<u8>) -> Seq<char> {
    hex_text(blake2b_256(key).take(3))
}

/// The verification code that the user compares: the first six hexadecimal digits of a digest of
/// the public key.
pub fn client_key_id(key: &[u8]) -> (r: String)
    ensures
        r@ == key_id(key@),
        r@.len() == 6,
{
    let digest: Vec<u8> = digest_256(key);
    proof {
        lemma_hex_length(digest@.take(3));
    }
    hex6(digest.as_slice())
}

// ---------------------------------------------------------------------------------------------
// Addresses
// ---------------------------------------------------------------------------------------------
/// An address of the local machine, as far as it matters here.
#[derive(Clone, Copy, Debug, PartialEq, Eq)]
pub enum LocalAddress {
    V4([u8; 4]),
    V6,
}

/// The address to advertise: one of the fourth version that is no loopback address.
pub fn local_ipv4(address: Option<LocalAddress>) -> (r: Option<[u8; 4]>)
    ensures
        r == match address {
            Some(LocalAddress::V4(octets)) => if octets@[0] != 127 {
                Some(octets)
            } else {
                None
            },
            _ => None,
        },
{
    match address {
        Some(LocalAddress::V4(octets)) => {
            if octets[0] != 127 {
                Some(octets)
            } else {
                None
            }
        },
        _ => None,
    }
}

/// An address in dotted form.
pub open spec fn dotted(octets: Seq<u8>) -> Seq<char> {
    decimal(octets[0] as nat) + "."@ + decimal(octets[1] as nat) + "."@ + decimal(octets[2] as nat)
        + "."@ + decimal(octets[3] as nat)
}

/// The address under which the server is reached.
pub open spec fn address_text(ip: Option<[u8; 4]>) -> Seq<char> {
    match ip {
        Some(octets) => dotted(octets@),
        None => "127.0.0.1"@,
    }
}

/// The addresses under which the server is reached: the advertised one, or the loopback address.
pub fn endpoint_addresses(ip: Option<[u8; 4]>) -> (r: Vec<String>)
    ensures
        r@.len() == 1,
        r@[0]@ == address_text(ip),
{
    let mut address: String = String::new();
    match ip {
        Some(octets) => {
            push_decimal(&mut address, octets[0] as u64);
            address.append(".");
            push_decimal(&mut address, octets[1] as u64);
            address.append(".");
            push_decimal(&mut address, octets[2] as u64);
            address.append(".");
            push_decimal(&mut address, octets[3] as u64);
            assert(address@ =~= dotted(octets@));
        },
        None => {
            address.append("127.0.0.1");
            assert(address@ =~= "127.0.0.1"@);
        },
    }
    let mut addresses: Vec<String> = Vec::new();
    addresses.push(address);
    addresses
}

/// The first of the addresses under which the server is reached.
pub fn endpoint_address(ip: Option<[u8; 4]>) -> (r: String)
    ensures
        r@ == address_text(ip),
{
    let mut addresses: Vec<String> = endpoint_addresses(ip);
    addresses.swap_remove(0)
}

// ---------------------------------------------------------------------------------------------
// Codes
// ---------------------------------------------------------------------------------------------
/// Where the generator of a token starts.
pub open spec fn token_seed(nanos: u128, process: u32) -> u128 {
    nanos ^ ((process as u128) << 64u128)
}

/// One step of the generator of a token.
pub open spec fn token_step(x: u128) -> u128 {
    let a = x ^ (x << 13u128);
    let b = a ^ (a >> 17u128);
    b ^ (b << 5u128)
}

/// The lower-case letters, then the digits.
pub open spec fn token_char(i: int) -> char {
    if i < 26 {
        (97 + i) as char
    } else {
        (22 + i) as char
    }
}

/// What the generator yields from `x` on.
pub open spec fn token_chars(x: u128, count: nat) -> Seq<char>
    decreases count,
{
    if count == 0 {
        seq![]
    } else {
        let y = token_step(x);
        seq![token_char((y as usize) as int % 36)] + token_chars(y, (count - 1) as nat)
    }
}

/// A token of 27 letters and digits, from the time and the number of the process.
pub fn random_token(nanos: u128, process: u32) -> (r: String)
    ensures
        r@ == token_chars(token_seed(nanos, process), 27),
{
    let mut x: u128 = nanos ^ ((process as u128) << 64u128);
    let mut out: String = String::new();
    let mut i: u32 = 0;
    while i < 27
        invariant
            i <= 27,
            token_chars(token_seed(nanos, process), 27) == out@ + token_chars(x, (27 - i) as nat),
        decreases 27 - i,
    {
        let ghost before = out@;
        x = x ^ (x << 13u128);
        x = x ^ (x >> 17u128);
        x = x ^ (x << 5u128);
        let k: usize = (x as usize) % 36;
        let c: u8 = if k < 26 {
            97 + k as u8
        } else {
            22 + k as u8
        };
        out.push(c as char);
        proof {
            let rest = token_chars(x, (27 - i - 1) as nat);
            assert(before + (seq![c as char] + rest) =~= out@ + rest);
        }
        i = i + 1;
    }
    assert(out@ + token_chars(x, 0) =~= out@);
    out
}

/// A token is 27 characters long, and each is a lower-case letter or a digit.
pub proof fn token_is_alphanumeric(nanos: u128, process: u32)
    ensures
        token_chars(token_seed(nanos, process), 27).len() == 27,
        forall|i: int|
            0 <= i < 27 ==> {
                let c = #[trigger] token_chars(token_seed(nanos, process), 27)[i];
                'a' <= c <= 'z' || '0' <= c <= '9'
            },
{
    lemma_token_chars(token_seed(nanos, process), 27);
}

proof fn lemma_token_chars(x: u128, count: nat)
    ensures
        token_chars(x, count).len() == count,
        forall|i: int|
            0 <= i < count ==> {
                let c = #[trigger] token_chars(x, count)[i];
                'a' <= c <= 'z' || '0' <= c <= '9'
            },
    decreases count,
{
    if count > 0 {
        lemma_token_chars(token_step(x), (count - 1) as nat);
    }
}

/// What the code of the workstation is made from.
pub open spec fn workstation_material(hostname: Seq<char>, machine_id: Option<String>) -> Seq<u8> {
    encode_utf8(hostname) + encode_utf8(machine_text(machine_id))
}

/// The code of the workstation.
pub open spec fn workstation_text(hostname: Seq<char>, machine_id: Option<String>) -> Seq<char> {
    base64_url(blake2b_512(workstation_material(hostname, machine_id)).take(16))
}

/// The code of the workstation: the first sixteen bytes of a digest over the hostname and what
/// distinguishes the machine.
pub fn workstation_code(hostname: &str, machine_id: &Option<String>) -> (r: String)
    ensures
        r@ == workstation_text(hostname@, *machine_id),
        r@.len() == 22,
        forall|i: int| 0 <= i < r@.len() ==> is_address_char(#[trigger] r@[i]),
{
    let mut material: Vec<u8> = Vec::new();
    material.extend_from_slice(hostname.as_bytes());
    push_machine_text(&mut material, machine_id);
    assert(material@ =~= workstation_material(hostname@, *machine_id));
    let digest: Vec<u8> = digest_512(material.as_slice());
    let head: &[u8] = vstd::slice::slice_subrange(digest.as_slice(), 0, 16);
    assert(head@ =~= digest@.take(16));
    proof {
        address_text_is_plain(head@);
    }
    encode_base64_url(head)
}

} // verus!
