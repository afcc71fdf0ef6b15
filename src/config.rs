use vstd::prelude::*;
use crate::address::{chars_of, parse_digits, trim_str, trimmed, digits_within, digits_value};
use crate::hex_text::{decode_hex, is_hex_text, hex_decoded};

verus! {

/// One remote participant of the mesh, as the roster lists it.
pub struct PeerInfo {
    pub address: String,
    pub port: u16,
    pub key: Vec<u8>,
    pub connected: bool,
}

/// The stored identity of one local host: its port and its key pair.
pub struct HostInfo {
    pub port: u16,
    pub public_key: Vec<u8>,
    pub private_key: Vec<u8>,
}

impl HostInfo {
    /// An identity with port 0 and no keys.
    pub fn new() -> (r: HostInfo)
        ensures
            r.port == 0,
            r.public_key@.len() == 0,
            r.private_key@.len() == 0,
    {
        HostInfo { port: 0, public_key: Vec::new(), private_key: Vec::new() }
    }
}

/// A decimal port number with an optional leading `+`, as `u16`'s parser reads it.
pub open spec fn port_digits(s: Seq<char>) -> Seq<char> {
    if s.len() > 0 && s[0] == '+' {
        s.drop_first()
    } else {
        s
    }
}

pub open spec fn is_port_text(s: Seq<char>) -> bool {
    digits_within(port_digits(s), 65535)
}

pub open spec fn port_of_text(s: Seq<char>) -> u16 {
    digits_value(port_digits(s)) as u16
}

/// The port number written in `s`, or `None` where `s` is no number in 0 ..= 65535.
pub fn parse_port(s: &str) -> (r: Option<u16>)
    ensures
        r == (if is_port_text(s@) {
            Some(port_of_text(s@))
        } else {
            None::<u16>
        }),
{
    let chars = chars_of(s);
    let n = chars.len();
    let mut start: usize = 0;
    if n > 0 && chars[0] == '+' {
        start = 1;
    }
    assert(port_digits(s@) =~= chars@.subrange(start as int, n as int));
    match parse_digits(&chars, start, 65535) {
        Some(v) => Some(v as u16),
        None => None,
    }
}

/// Whether a roster record (address, port, key) can be read.
pub open spec fn peer_fields_valid(address: Seq<char>, port: Seq<char>, key: Seq<char>) -> bool {
    is_port_text(trimmed(port)) && is_hex_text(trimmed(key))
}

/// Whether `p` is the peer that the roster record (address, port, key) describes.
pub open spec fn peer_from_fields(
    p: PeerInfo,
    address: Seq<char>,
    port: Seq<char>,
    key: Seq<char>,
) -> bool {
    &&& p.address@ == trimmed(address)
    &&& p.port == port_of_text(trimmed(port))
    &&& p.key@ == hex_decoded(trimmed(key))
    &&& !p.connected
}

/// The peer that one roster record describes: the address, the port in decimal
/// and the verification key in hexadecimal, each with white space around it
/// allowed. The peer starts disconnected. `None` where the port or the key
/// cannot be read.
pub fn parse_peer_record(address: &str, port: &str, key: &str) -> (r: Option<PeerInfo>)
    ensures
        r.is_some() <==> peer_fields_valid(address@, port@, key@),
        r matches Some(p) ==> peer_from_fields(p, address@, port@, key@),
{
    let port_value = match parse_port(trim_str(port)) {
        Some(v) => v,
        None => {
            return None;
        },
    };
    let key_bytes = match decode_hex(trim_str(key)) {
        Some(k) => k,
        None => {
            return None;
        },
    };
    let address_text = String::from_str(trim_str(address));
    Some(PeerInfo { address: address_text, port: port_value, key: key_bytes, connected: false })
}

/// Whether an identity record (port, public key, private key) can be read.
pub open spec fn host_fields_valid(port: Seq<char>, public: Seq<char>, private: Seq<char>) -> bool {
    &&& is_port_text(port)
    &&& is_hex_text(public)
    &&& is_hex_text(private)
    &&& (public.len() == 0) == (private.len() == 0)
}

/// Whether `h` is the identity that the record (port, public key, private key) describes.
pub open spec fn host_from_fields(
    h: HostInfo,
    port: Seq<char>,
    public: Seq<char>,
    private: Seq<char>,
) -> bool {
    &&& h.port == port_of_text(port)
    &&& h.public_key@ == hex_decoded(public)
    &&& h.private_key@ == hex_decoded(private)
    &&& (h.public_key@.len() == 0) == (h.private_key@.len() == 0)
}

/// The identity that one record describes: the port in decimal and both keys in
/// hexadecimal. `None` where one of them cannot be read, or where one key is
/// given and the other is not.
pub fn parse_host_record(port: &str, public: &str, private: &str) -> (r: Option<HostInfo>)
    ensures
        r.is_some() <==> host_fields_valid(port@, public@, private@),
        r matches Some(h) ==> host_from_fields(h, port@, public@, private@),
{
    let port_value = match parse_port(port) {
        Some(v) => v,
        None => {
            return None;
        },
    };
    let public_key = match decode_hex(public) {
        Some(k) => k,
        None => {
            return None;
        },
    };
    let private_key = match decode_hex(private) {
        Some(k) => k,
        None => {
            return None;
        },
    };
    if (public_key.len() == 0) != (private_key.len() == 0) {
        return None;
    }
    Some(HostInfo { port: port_value, public_key, private_key })
}

/// Whether a roster record holds at least an address, a port and a key that can be read.
pub open spec fn peer_record_valid(rec: Seq<String>) -> bool {
    rec.len() >= 3 && peer_fields_valid(rec[0]@, rec[1]@, rec[2]@)
}

pub open spec fn peer_from_record(p: PeerInfo, rec: Seq<String>) -> bool {
    peer_from_fields(p, rec[0]@, rec[1]@, rec[2]@)
}

/// The roster that the records describe, in their order; empty where one of the
/// records cannot be read, as for a roster that cannot be read at all.
pub fn read_peerlist(records: &Vec<Vec<String>>) -> (r: Vec<PeerInfo>)
    ensures
        (forall|i: int| 0 <= i < records@.len() ==> peer_record_valid(#[trigger] records@[i]@))
            ==> r@.len() == records@.len() && forall|i: int|
            0 <= i < records@.len() ==> peer_from_record(#[trigger] r@[i], records@[i]@),
        !(forall|i: int| 0 <= i < records@.len() ==> peer_record_valid(#[trigger] records@[i]@))
            ==> r@.len() == 0,
{
    let mut peers: Vec<PeerInfo> = Vec::new();
    let mut i: usize = 0;
    while i < records.len()
        invariant
            i <= records@.len(),
            peers@.len() == i,
            forall|k: int| 0 <= k < i ==> peer_record_valid(#[trigger] records@[k]@),
            forall|k: int| 0 <= k < i ==> peer_from_record(#[trigger] peers@[k], records@[k]@),
        decreases records@.len() - i,
    {
        let rec = &records[i];
        if rec.len() < 3 {
            assert(!peer_record_valid(records@[i as int]@));
            return Vec::new();
        }
        match parse_peer_record(rec[0].as_str(), rec[1].as_str(), rec[2].as_str()) {
            Some(p) => {
                peers.push(p);
            },
            None => {
                assert(!peer_record_valid(records@[i as int]@));
                return Vec::new();
            },
        }
        i = i + 1;
    }
    peers
}

/// Whether an identity record holds at least a port, a public key and a private
/// key that can be read.
pub open spec fn host_record_valid(rec: Seq<String>) -> bool {
    rec.len() >= 3 && host_fields_valid(rec[0]@, rec[1]@, rec[2]@)
}

pub open spec fn host_from_record(h: HostInfo, rec: Seq<String>) -> bool {
    host_from_fields(h, rec[0]@, rec[1]@, rec[2]@)
}

/// The identities that the records (port, public key, private key) describe,
/// in their order; empty where one of them cannot be read.
pub fn get_hosts(records: &Vec<Vec<String>>) -> (r: Vec<HostInfo>)
    ensures
        (forall|i: int| 0 <= i < records@.len() ==> host_record_valid(#[trigger] records@[i]@))
            ==> r@.len() == records@.len() && forall|i: int|
            0 <= i < records@.len() ==> host_from_record(#[trigger] r@[i], records@[i]@),
        !(forall|i: int| 0 <= i < records@.len() ==> host_record_valid(#[trigger] records@[i]@))
            ==> r@.len() == 0,
{
    let mut hosts: Vec<HostInfo> = Vec::new();
    let mut i: usize = 0;
    while i < records.len()
        invariant
            i <= records@.len(),
            hosts@.len() == i,
            forall|k: int| 0 <= k < i ==> host_record_valid(#[trigger] records@[k]@),
            forall|k: int| 0 <= k < i ==> host_from_record(#[trigger] hosts@[k], records@[k]@),
        decreases records@.len() - i,
    {
        let rec = &records[i];
        if rec.len() < 3 {
            assert(!host_record_valid(records@[i as int]@));
            return Vec::new();
        }
        match parse_host_record(rec[0].as_str(), rec[1].as_str(), rec[2].as_str()) {
            Some(h) => {
                hosts.push(h);
            },
            None => {
                assert(!host_record_valid(records@[i as int]@));
                return Vec::new();
            },
        }
        i = i + 1;
    }
    hosts
}

} // verus!
