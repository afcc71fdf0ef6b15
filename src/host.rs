use vstd::prelude::*;
use crate::address::{
    Ipv4Addr,
    parse_strict_ip,
    parse_string_to_reverse_ip,
    reverse_ip_of_text,
    strict_ip_of_text,
    localhost_ip,
};
use crate::config::{HostInfo, PeerInfo};
use crate::identity::{CryptoError, NistCryptography, SEEDBYTES};

verus! {

/// The port a host listens on when it is given port 0.
pub const DEFAULT_PORT: u16 = 8875;

/// The most peers a host's transport endpoint serves.
pub const MAX_PEERS_COUNT: usize = 50;

/// A verified message, attributed to the port of the peer that sent it.
pub struct RecvMsg {
    pub timestamp: String,
    pub sender: u16,
    pub msg: Vec<u8>,
}

impl RecvMsg {
    pub fn new() -> (r: RecvMsg)
        ensures
            r.timestamp@.len() == 0,
            r.sender == 0,
            r.msg@.len() == 0,
    {
        RecvMsg { timestamp: String::new(), sender: 0, msg: Vec::new() }
    }
}

/// The address and port of a peer as the transport reports it.
#[derive(Clone, Copy, Debug, PartialEq, Eq, Structural)]
pub struct Endpoint {
    pub ip: Ipv4Addr,
    pub port: u16,
}

/// One event of a service tick of the transport.
pub enum TransportEvent {
    Connect(Endpoint),
    Disconnect(Endpoint),
    Receive(Endpoint, Vec<u8>),
}

/// A received payload that waits for verification with the sender's key.
pub struct PendingVerify {
    pub signed: Vec<u8>,
    pub key: Vec<u8>,
    pub sender_port: u16,
}

/// What becomes of a peer that is offered to a running host.
#[derive(Clone, Copy, Debug, PartialEq, Eq, Structural)]
pub enum Admission {
    /// The peer is this host itself: it is neither added nor connected to.
    SelfAddress,
    /// The peer is added; it is connected already.
    AlreadyConnected,
    /// The peer is added; the transport is to connect to it at this endpoint.
    Connect(Endpoint),
    /// The peer's address is no dotted quad: it is neither added nor connected to.
    BadAddress,
}

/// One local host of the mesh: its port, roster, identity and message log.
pub struct HostRepo {
    pub port: u16,
    pub peers: Vec<PeerInfo>,
    pub secure: NistCryptography,
    pub recv_messages: Vec<RecvMsg>,
    pub received: bool,
}

/// Whether the roster entry `p` is the peer that the transport reports at
/// (`addr`, `port`): the transport gives addresses with their octets reversed.
pub open spec fn peer_matches(p: PeerInfo, addr: Ipv4Addr, port: u16) -> bool {
    reverse_ip_of_text(p.address@) == addr && p.port == port
}

/// Whether `i` is the first roster entry that matches (`addr`, `port`).
pub open spec fn is_first_match(peers: Seq<PeerInfo>, addr: Ipv4Addr, port: u16, i: int) -> bool {
    &&& 0 <= i < peers.len()
    &&& peer_matches(peers[i], addr, port)
    &&& forall|j: int| 0 <= j < i ==> !peer_matches(#[trigger] peers[j], addr, port)
}

/// Whether no roster entry matches (`addr`, `port`).
pub open spec fn no_match(peers: Seq<PeerInfo>, addr: Ipv4Addr, port: u16) -> bool {
    forall|j: int| 0 <= j < peers.len() ==> !peer_matches(#[trigger] peers[j], addr, port)
}

/// No two roster entries share an (address, port) identity.
pub open spec fn keys_unique(peers: Seq<PeerInfo>) -> bool {
    forall|i: int, j: int|
        0 <= i < peers.len() && 0 <= j < peers.len() && i != j ==> !peer_matches(
            #[trigger] peers[i],
            reverse_ip_of_text(#[trigger] peers[j].address@),
            peers[j].port,
        )
}

/// The entry `p` with its connected flag set to `c`.
pub open spec fn with_connected(p: PeerInfo, c: bool) -> PeerInfo {
    PeerInfo { address: p.address, port: p.port, key: p.key, connected: c }
}

/// Whether `p` names this host itself: the loopback address and its own port.
pub open spec fn is_self_entry(p: PeerInfo, own_port: u16) -> bool {
    strict_ip_of_text(p.address@) == Some(localhost_ip()) && p.port == own_port
}

/// Where the transport connects to reach `p`: its address read as a strict
/// dotted quad, and its port; `None` where the address is no dotted quad.
pub open spec fn endpoint_of(p: PeerInfo) -> Option<Endpoint> {
    match strict_ip_of_text(p.address@) {
        Some(ip) => Some(Endpoint { ip, port: p.port }),
        None => None,
    }
}

/// Whether the startup pass connects to `p`: it is not this host and not connected yet.
pub open spec fn wants_connect(p: PeerInfo, own_port: u16) -> bool {
    !is_self_entry(p, own_port) && !p.connected
}

/// The roster positions that the startup pass connects to, in roster order.
pub open spec fn connect_targets(peers: Seq<PeerInfo>, own_port: u16) -> Seq<usize>
    decreases peers.len(),
{
    if peers.len() == 0 {
        Seq::empty()
    } else {
        let r = connect_targets(peers.drop_last(), own_port);
        if wants_connect(peers.last(), own_port) {
            r.push((peers.len() - 1) as usize)
        } else {
            r
        }
    }
}

/// The state of `h` but for its roster.
pub open spec fn same_but_peers(h: HostRepo, g: HostRepo) -> bool {
    &&& h.port == g.port
    &&& h.secure == g.secure
    &&& h.recv_messages == g.recv_messages
    &&& h.received == g.received
}

/// Relies on chrono's `Local::now` and its `%Y-%m-%d %H:%M:%S` formatting: the
/// local time now, as text. Nothing is promised of the value.
#[verifier::external_body]
fn local_timestamp() -> (r: String) {
    chrono::Local::now().format("%Y-%m-%d %H:%M:%S").to_string()
}

impl HostRepo {
    /// A host on `port` (port 0 stands for `DEFAULT_PORT`) with a fresh identity,
    /// an empty roster and an empty message log.
    pub fn new(port: u16) -> (r: HostRepo)
        ensures
            r.port == (if port == 0 {
                DEFAULT_PORT
            } else {
                port
            }),
            r.peers@.len() == 0,
            r.recv_messages@.len() == 0,
            !r.received,
            r.secure.seed@ == Seq::new(SEEDBYTES as nat, |i: int| 0u8),
            r.secure.public_key@.len() == 0,
            r.secure.private_key@.len() == 0,
    {
        HostRepo {
            port: if port == 0 {
                DEFAULT_PORT
            } else {
                port
            },
            peers: Vec::new(),
            secure: NistCryptography::new(),
            recv_messages: Vec::new(),
            received: false,
        }
    }

    /// Whether (`addr`, `port`) is this host's own listen address.
    pub fn same_address(&self, addr: &String, port: &u16) -> (r: bool)
        ensures
            r == (strict_ip_of_text(addr@) == Some(localhost_ip()) && *port == self.port),
    {
        match parse_strict_ip(addr) {
            Some(ip) => ip == Ipv4Addr::localhost() && *port == self.port,
            None => false,
        }
    }

    /// Replaces the roster by the loaded one; false where it is empty.
    pub fn read_peerlist(&mut self, loaded: Vec<PeerInfo>) -> (r: bool)
        ensures
            final(self).peers@ == loaded@,
            same_but_peers(*final(self), *old(self)),
            r == (loaded@.len() > 0),
    {
        self.peers = loaded;
        self.peers.len() > 0
    }

    /// Appends a peer to the roster. The caller sees to it that its
    /// (address, port) is not in the roster yet.
    pub fn add_peer_info(&mut self, peer_info: PeerInfo)
        ensures
            final(self).peers@ == old(self).peers@.push(peer_info),
            same_but_peers(*final(self), *old(self)),
    {
        self.peers.push(peer_info);
    }

    /// The position of the first roster entry whose reversed address and port
    /// are (`addr`, `port`), or `None` where there is none.
    pub fn find_peer(&self, addr: Ipv4Addr, port: u16) -> (r: Option<usize>)
        ensures
            r matches Some(i) ==> is_first_match(self.peers@, addr, port, i as int),
            r is None ==> no_match(self.peers@, addr, port),
    {
        let mut i: usize = 0;
        while i < self.peers.len()
            invariant
                i <= self.peers@.len(),
                forall|j: int| 0 <= j < i ==> !peer_matches(#[trigger] self.peers@[j], addr, port),
            decreases self.peers@.len() - i,
        {
            if parse_string_to_reverse_ip(&self.peers[i].address) == addr && self.peers[i].port
                == port {
                return Some(i);
            }
            i = i + 1;
        }
        None
    }

    /// Sets the connected flag of the first entry that matches (`addr`, `port`)
    /// and gives its position; changes nothing where no entry matches.
    pub fn mark_connected(&mut self, addr: Ipv4Addr, port: u16, connected: bool) -> (r: Option<
        usize,
    >)
        ensures
            r matches Some(i) ==> is_first_match(old(self).peers@, addr, port, i as int),
            r matches Some(i) ==> final(self).peers@ == old(self).peers@.update(
                i as int,
                with_connected(old(self).peers@[i as int], connected),
            ),
            r is None ==> no_match(old(self).peers@, addr, port),
            r is None ==> final(self).peers@ == old(self).peers@,
            same_but_peers(*final(self), *old(self)),
    {
        match self.find_peer(addr, port) {
            Some(i) => {
                let ghost before = self.peers@;
                let mut p = self.peers.remove(i);
                p.connected = connected;
                self.peers.insert(i, p);
                assert(self.peers@ =~= before.update(
                    i as int,
                    with_connected(before[i as int], connected),
                ));
                Some(i)
            },
            None => None,
        }
    }

    /// The roster positions that the startup pass connects to: every entry
    /// that is not connected yet and is not this host itself, in roster order.
    pub fn connect_peers(&self) -> (r: Vec<usize>)
        ensures
            r@ == connect_targets(self.peers@, self.port),
            forall|k: int|
                0 <= k < r@.len() ==> #[trigger] r@[k] < self.peers@.len() && !is_self_entry(
                    self.peers@[r@[k] as int],
                    self.port,
                ) && !self.peers@[r@[k] as int].connected,
    {
        let mut r: Vec<usize> = Vec::new();
        let mut i: usize = 0;
        while i < self.peers.len()
            invariant
                i <= self.peers@.len(),
                r@ == connect_targets(self.peers@.subrange(0, i as int), self.port),
                forall|k: int|
                    0 <= k < r@.len() ==> #[trigger] r@[k] < i && wants_connect(
                        self.peers@[r@[k] as int],
                        self.port,
                    ),
            decreases self.peers@.len() - i,
        {
            let ghost pre = self.peers@.subrange(0, i as int);
            let ghost post = self.peers@.subrange(0, i + 1);
            assert(post.drop_last() =~= pre);
            let p = &self.peers[i];
            if !self.same_address(&p.address, &p.port) && !p.connected {
                r.push(i);
            }
            i = i + 1;
        }
        assert(self.peers@.subrange(0, self.peers@.len() as int) =~= self.peers@);
        r
    }

    /// Where the transport connects to reach roster entry `i`, or `None` where
    /// its address is no dotted quad.
    pub fn peer_endpoint(&self, i: usize) -> (r: Option<Endpoint>)
        requires
            i < self.peers@.len(),
        ensures
            r == endpoint_of(self.peers@[i as int]),
    {
        match parse_strict_ip(&self.peers[i].address) {
            Some(ip) => Some(Endpoint { ip, port: self.peers[i].port }),
            None => None,
        }
    }

    /// Offers a new peer to a running host. This host itself is refused, and so
    /// is a peer to connect to whose address is no dotted quad; any other peer
    /// is appended, and is to be connected to unless it is connected.
    pub fn connect_peer(&mut self, peer_info: PeerInfo) -> (r: Admission)
        ensures
            is_self_entry(peer_info, old(self).port) ==> r == Admission::SelfAddress,
            same_but_peers(*final(self), *old(self)),
            !is_self_entry(peer_info, old(self).port) && peer_info.connected ==> r
                == Admission::AlreadyConnected,
            !is_self_entry(peer_info, old(self).port) && !peer_info.connected && endpoint_of(
                peer_info,
            ) is None ==> r == Admission::BadAddress,
            !is_self_entry(peer_info, old(self).port) && !peer_info.connected && endpoint_of(
                peer_info,
            ) is Some ==> r == Admission::Connect(endpoint_of(peer_info)->Some_0),
            r == Admission::SelfAddress || r == Admission::BadAddress ==> *final(self) == *old(
                self),
            r != Admission::SelfAddress && r != Admission::BadAddress ==> final(self).peers@ == old(
                self).peers@.push(peer_info),
    {
        if self.same_address(&peer_info.address, &peer_info.port) {
            return Admission::SelfAddress;
        }
        if peer_info.connected {
            self.peers.push(peer_info);
            return Admission::AlreadyConnected;
        }
        match parse_strict_ip(&peer_info.address) {
            Some(ip) => {
                let ep = Endpoint { ip, port: peer_info.port };
                self.peers.push(peer_info);
                Admission::Connect(ep)
            },
            None => Admission::BadAddress,
        }
    }

    /// Enters initialisation with a loaded roster: the message log and its flag
    /// are cleared and the roster replaced. `None` where the host cannot start:
    /// the roster is empty, or an entry to connect to has an address that is no
    /// dotted quad. Else the endpoints of the startup connect pass, in order.
    pub fn init(&mut self, loaded: Vec<PeerInfo>) -> (r: Option<Vec<Endpoint>>)
        ensures
            final(self).peers@ == loaded@,
            final(self).recv_messages@.len() == 0,
            !final(self).received,
            final(self).port == old(self).port,
            final(self).secure == old(self).secure,
            r is None <==> (loaded@.len() == 0 || exists|k: int|
                0 <= k < connect_targets(loaded@, old(self).port).len() && endpoint_of(
                    #[trigger] loaded@[connect_targets(loaded@, old(self).port)[k] as int],
                ) is None),
            r matches Some(e) ==> e@.len() == connect_targets(loaded@, old(self).port).len(),
            r matches Some(e) ==> forall|k: int|
                0 <= k < e@.len() ==> Some(#[trigger] e@[k]) == endpoint_of(
                    loaded@[connect_targets(loaded@, old(self).port)[k] as int],
                ),
    {
        self.recv_messages = Vec::new();
        self.received = false;
        if !self.read_peerlist(loaded) {
            return None;
        }
        let targets = self.connect_peers();
        self.endpoints_of(&targets)
    }

    /// The endpoints of the given roster positions, in order, or `None` where
    /// one of those entries has an address that is no dotted quad.
    pub fn endpoints_of(&self, targets: &Vec<usize>) -> (r: Option<Vec<Endpoint>>)
        requires
            forall|j: int| 0 <= j < targets@.len() ==> #[trigger] targets@[j] < self.peers@.len(),
        ensures
            r is None <==> exists|k: int|
                0 <= k < targets@.len() && endpoint_of(
                    #[trigger] self.peers@[targets@[k] as int],
                ) is None,
            r matches Some(e) ==> e@.len() == targets@.len(),
            r matches Some(e) ==> forall|k: int|
                0 <= k < e@.len() ==> Some(#[trigger] e@[k]) == endpoint_of(
                    self.peers@[targets@[k] as int],
                ),
    {
        let ghost t = targets@;
        let mut eps: Vec<Endpoint> = Vec::new();
        let mut k: usize = 0;
        while k < targets.len()
            invariant
                t == targets@,
                forall|j: int| 0 <= j < t.len() ==> #[trigger] t[j] < self.peers@.len(),
                k <= t.len(),
                eps@.len() == k,
                forall|j: int|
                    0 <= j < k ==> Some(#[trigger] eps@[j]) == endpoint_of(self.peers@[t[j] as int]),
            decreases t.len() - k,
        {
            match self.peer_endpoint(targets[k]) {
                Some(ep) => {
                    eps.push(ep);
                },
                None => {
                    assert(endpoint_of(self.peers@[t[k as int] as int]) is None);
                    return None;
                },
            }
            k = k + 1;
        }
        assert forall|j: int| 0 <= j < t.len() implies endpoint_of(
            #[trigger] self.peers@[t[j] as int],
        ) is Some by {
            assert(Some(eps@[j]) == endpoint_of(self.peers@[t[j] as int]));
        }
        Some(eps)
    }

    /// Attributes a received payload to a roster entry by the sender's
    /// reversed address and port. `None` where the sender is unknown; else the
    /// payload with the key of the first matching entry, to be verified.
    pub fn process_message(&self, data: Vec<u8>, addr: Ipv4Addr, port: u16) -> (r: Option<
        PendingVerify,
    >)
        ensures
            r is None <==> no_match(self.peers@, addr, port),
            forall|i: int|
                is_first_match(self.peers@, addr, port, i) ==> (r matches Some(v) && v.signed@
                    == data@ && v.key@ == self.peers@[i].key@ && v.sender_port == port),
    {
        match self.find_peer(addr, port) {
            Some(i) => {
                let key = self.peers[i].key.clone();
                assert(key@ =~= self.peers@[i as int].key@);
                proof {
                    lemma_first_match_unique(self.peers@, addr, port);
                }
                Some(PendingVerify { signed: data, key, sender_port: port })
            },
            None => {
                proof {
                    lemma_first_match_unique(self.peers@, addr, port);
                }
                None
            },
        }
    }

    /// Handles the event of one service tick. A connect or disconnect sets the
    /// connected flag of the first matching roster entry; a non-empty received
    /// payload from a known sender is handed back for verification; nothing
    /// else changes the host.
    pub fn execute(&mut self, event: Option<TransportEvent>) -> (r: Option<PendingVerify>)
        ensures
            same_but_peers(*final(self), *old(self)),
            match event {
                None => r is None && final(self).peers@ == old(self).peers@,
                Some(TransportEvent::Connect(e)) => {
                    &&& r is None
                    &&& no_match(old(self).peers@, e.ip, e.port) ==> final(self).peers@ == old(
                        self,
                    ).peers@
                    &&& forall|i: int|
                        is_first_match(old(self).peers@, e.ip, e.port, i) ==> final(self).peers@
                            == old(self).peers@.update(i, with_connected(old(self).peers@[i], true))
                },
                Some(TransportEvent::Disconnect(e)) => {
                    &&& r is None
                    &&& no_match(old(self).peers@, e.ip, e.port) ==> final(self).peers@ == old(
                        self,
                    ).peers@
                    &&& forall|i: int|
                        is_first_match(old(self).peers@, e.ip, e.port, i) ==> final(self).peers@
                            == old(self).peers@.update(
                            i,
                            with_connected(old(self).peers@[i], false),
                        )
                },
                Some(TransportEvent::Receive(e, data)) => {
                    &&& final(self).peers@ == old(self).peers@
                    &&& r is None <==> (data@.len() == 0 || no_match(old(self).peers@, e.ip, e.port))
                    &&& forall|i: int|
                        data@.len() > 0 && is_first_match(old(self).peers@, e.ip, e.port, i) ==> (
                        r matches Some(v) && v.signed@ == data@ && v.key@ == old(self).peers@[i].key@
                            && v.sender_port == e.port)
                },
            },
    {
        match event {
            None => None,
            Some(TransportEvent::Connect(e)) => {
                let ghost before = self.peers@;
                self.mark_connected(e.ip, e.port, true);
                proof {
                    lemma_first_match_unique(before, e.ip, e.port);
                }
                None
            },
            Some(TransportEvent::Disconnect(e)) => {
                let ghost before = self.peers@;
                self.mark_connected(e.ip, e.port, false);
                proof {
                    lemma_first_match_unique(before, e.ip, e.port);
                }
                None
            },
            Some(TransportEvent::Receive(e, data)) => {
                if data.len() == 0 {
                    None
                } else {
                    self.process_message(data, e.ip, e.port)
                }
            },
        }
    }

    /// Takes the outcome of verifying a payload from the peer on `sender_port`.
    /// A non-empty recovered message is appended to the log with `timestamp`
    /// and sets the new-message flag; anything else leaves the host as it was.
    pub fn accept_message(
        &mut self,
        sender_port: u16,
        outcome: Result<Vec<u8>, CryptoError>,
        timestamp: String,
    ) -> (r: bool)
        ensures
            r == (outcome matches Ok(m) && m@.len() > 0),
            !r ==> *final(self) == *old(self),
            r ==> final(self).recv_messages@.len() == old(self).recv_messages@.len() + 1,
            r ==> final(self).recv_messages@.drop_last() == old(self).recv_messages@,
            r ==> final(self).recv_messages@.last().sender == sender_port,
            r ==> final(self).recv_messages@.last().msg == outcome->Ok_0,
            r ==> final(self).recv_messages@.last().timestamp == timestamp,
            r ==> final(self).received,
            r ==> final(self).port == old(self).port,
            r ==> final(self).peers == old(self).peers,
            r ==> final(self).secure == old(self).secure,
    {
        match outcome {
            Ok(m) => {
                if m.len() == 0 {
                    return false;
                }
                self.recv_messages.push(RecvMsg { timestamp, sender: sender_port, msg: m });
                self.received = true;
                assert(self.recv_messages@.drop_last() =~= old(self).recv_messages@);
                true
            },
            Err(_) => false,
        }
    }

    /// Takes the outcome of verifying a payload from the peer on `sender_port`
    /// and, where it is a non-empty message, logs it stamped with the local
    /// time now.
    pub fn record_message(&mut self, sender_port: u16, outcome: Result<Vec<u8>, CryptoError>) -> (r:
        bool)
        ensures
            r == (outcome matches Ok(m) && m@.len() > 0),
            !r ==> *final(self) == *old(self),
            r ==> final(self).recv_messages@.len() == old(self).recv_messages@.len() + 1,
            r ==> final(self).recv_messages@.drop_last() == old(self).recv_messages@,
            r ==> final(self).recv_messages@.last().sender == sender_port,
            r ==> final(self).recv_messages@.last().msg == outcome->Ok_0,
            r ==> final(self).received,
            r ==> final(self).port == old(self).port,
            r ==> final(self).peers == old(self).peers,
            r ==> final(self).secure == old(self).secure,
    {
        let timestamp = local_timestamp();
        self.accept_message(sender_port, outcome, timestamp)
    }

    /// The identity of this host as the configuration keeps it.
    pub fn host_info(&self) -> (r: HostInfo)
        ensures
            r.port == self.port,
            r.public_key@ == self.secure.public_key@,
            r.private_key@ == self.secure.private_key@,
    {
        HostInfo {
            port: self.port,
            public_key: self.secure.public_key.clone(),
            private_key: self.secure.private_key.clone(),
        }
    }

    /// A host with a stored identity: its port and key pair (both present or
    /// both absent), an empty roster and an empty message log.
    pub fn from_host_info(info: HostInfo) -> (r: HostRepo)
        requires
            (info.public_key@.len() == 0) == (info.private_key@.len() == 0),
        ensures
            r.secure.wf(),
            r.port == (if info.port == 0 {
                DEFAULT_PORT
            } else {
                info.port
            }),
            r.secure.public_key@ == info.public_key@,
            r.secure.private_key@ == info.private_key@,
            r.secure.seed@ == Seq::new(SEEDBYTES as nat, |i: int| 0u8),
            r.peers@.len() == 0,
            r.recv_messages@.len() == 0,
            !r.received,
    {
        let mut h = HostRepo::new(info.port);
        h.secure.public_key = info.public_key;
        h.secure.private_key = info.private_key;
        h
    }
}

/// At most one roster entry is the first to match an address and port.
proof fn lemma_first_match_unique(peers: Seq<PeerInfo>, addr: Ipv4Addr, port: u16)
    ensures
        forall|i: int, k: int|
            is_first_match(peers, addr, port, i) && is_first_match(peers, addr, port, k) ==> i
                == k,
        no_match(peers, addr, port) ==> forall|i: int| !is_first_match(peers, addr, port, i),
{
    assert forall|i: int, k: int|
        is_first_match(peers, addr, port, i) && is_first_match(peers, addr, port, k) implies i
        == k by {
        if i < k {
            assert(!peer_matches(peers[i], addr, port));
        }
        if k < i {
            assert(!peer_matches(peers[k], addr, port));
        }
    }
    if no_match(peers, addr, port) {
        assert forall|i: int| !is_first_match(peers, addr, port, i) by {
            if 0 <= i < peers.len() {
                assert(!peer_matches(peers[i], addr, port));
            }
        }
    }
}

/// In a roster whose entries have distinct (address, port) identities, looking
/// up any entry by its reversed address and port finds that very entry.
pub proof fn lemma_find_registered(peers: Seq<PeerInfo>, i: int)
    requires
        keys_unique(peers),
        0 <= i < peers.len(),
    ensures
        is_first_match(peers, reverse_ip_of_text(peers[i].address@), peers[i].port, i),
{
    let addr = reverse_ip_of_text(peers[i].address@);
    assert forall|j: int| 0 <= j < i implies !peer_matches(#[trigger] peers[j], addr, peers[i].port) by {
        assert(!peer_matches(peers[j], reverse_ip_of_text(peers[i].address@), peers[i].port));
    }
}

/// Adding a peer whose (address, port) is not in the roster keeps the
/// identities distinct, and the new peer is then found at the last position.
pub proof fn lemma_add_keeps_unique(peers: Seq<PeerInfo>, p: PeerInfo)
    requires
        keys_unique(peers),
        no_match(peers, reverse_ip_of_text(p.address@), p.port),
    ensures
        keys_unique(peers.push(p)),
        is_first_match(
            peers.push(p),
            reverse_ip_of_text(p.address@),
            p.port,
            peers.len() as int,
        ),
{
    let q = peers.push(p);
    assert forall|i: int, j: int|
        0 <= i < q.len() && 0 <= j < q.len() && i != j implies !peer_matches(
        #[trigger] q[i],
        reverse_ip_of_text(#[trigger] q[j].address@),
        q[j].port,
    ) by {
        if i < peers.len() && j < peers.len() {
            assert(q[i] == peers[i] && q[j] == peers[j]);
        } else if i < peers.len() {
            assert(q[i] == peers[i] && q[j] == p);
        } else {
            assert(q[i] == p && q[j] == peers[j]);
            assert(!peer_matches(peers[j], reverse_ip_of_text(p.address@), p.port));
        }
    }
    assert forall|j: int| 0 <= j < peers.len() implies !peer_matches(
        #[trigger] q[j],
        reverse_ip_of_text(p.address@),
        p.port,
    ) by {
        assert(q[j] == peers[j]);
    }
}

} // verus!
