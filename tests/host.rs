use node_network::fanout::broadcast_targets;
use node_network::host::{Admission, Endpoint, TransportEvent, DEFAULT_PORT};
use node_network::identity::{sign_outcome, verify_outcome, SEEDBYTES};
use node_network::{CryptoError, HostInfo, HostRepo, Ipv4Addr, NistCryptography, PeerInfo};

fn peer(address: &str, port: u16, key: Vec<u8>) -> PeerInfo {
    PeerInfo { address: address.to_string(), port, key, connected: false }
}

fn ep(a: u8, b: u8, c: u8, d: u8, port: u16) -> Endpoint {
    Endpoint { ip: Ipv4Addr::new(a, b, c, d), port }
}

#[test]
fn tests() {
    let mut secure: NistCryptography = NistCryptography::new();
    let entropy = NistCryptography::entropy_input();
    secure.init(entropy.clone());
    assert_eq!(secure.seed, entropy);
    assert!(secure.generate_keypair(0, vec![1; 8], vec![2; 16]).is_ok());
    let mut pk = String::new();
    for i in 0..secure.public_key.len() {
        pk.push_str(&format!("{:02X}", secure.public_key[i]));
    }
    println!("public key[{}]: {}", secure.public_key.len(), pk);
    let mut sk = String::new();
    for i in 0..secure.private_key.len() {
        sk.push_str(&format!("{:02X}", secure.private_key[i]));
    }
    println!("\n\nprivate key[{}] : {}", secure.private_key.len(), sk);
}

#[test]
fn fresh_identity() {
    let secure = NistCryptography::new();
    assert_eq!(secure.seed, vec![0u8; SEEDBYTES]);
    assert!(secure.public_key.is_empty());
    assert!(secure.private_key.is_empty());
    let entropy = NistCryptography::entropy_input();
    assert_eq!(entropy.len(), SEEDBYTES);
    assert!(entropy.iter().all(|v| (*v as usize) < SEEDBYTES));
}

#[test]
fn keypair_failure_leaves_keys() {
    let mut secure = NistCryptography::new();
    assert_eq!(secure.generate_keypair(0, vec![1, 2], vec![3, 4]), Ok(()));
    assert_eq!(secure.generate_keypair(-1, vec![9], vec![9]), Err(CryptoError::Keygen));
    assert_eq!(secure.generate_keypair(0, vec![], vec![9]), Err(CryptoError::Keygen));
    assert_eq!(secure.public_key, vec![1, 2]);
    assert_eq!(secure.private_key, vec![3, 4]);
}

#[test]
fn sign_and_verify_outcomes() {
    assert_eq!(sign_outcome(0, vec![5, 6]), Ok(vec![5, 6]));
    assert_eq!(sign_outcome(1, vec![5, 6]), Err(CryptoError::Sign));
    assert_eq!(sign_outcome(0, vec![]), Err(CryptoError::Sign));
    assert_eq!(verify_outcome(0, b"Hello".to_vec()), Ok(b"Hello".to_vec()));
    assert_eq!(verify_outcome(-1, b"Hello".to_vec()), Err(CryptoError::Verify));
    assert_eq!(verify_outcome(0, vec![]), Ok(vec![]));
}

#[test]
fn default_port() {
    assert_eq!(HostRepo::new(0).port, DEFAULT_PORT);
    assert_eq!(HostRepo::new(0).port, 8875);
    let h = HostRepo::new(9000);
    assert_eq!(h.port, 9000);
    assert_eq!(h.secure.seed, vec![0u8; SEEDBYTES]);
    assert!(h.peers.is_empty());
    assert!(h.recv_messages.is_empty());
    assert!(!h.received);
}

#[test]
fn same_address_is_loopback_and_own_port() {
    let h = HostRepo::new(9000);
    assert!(h.same_address(&"127.0.0.1".to_string(), &9000));
    assert!(h.same_address(&" 127.0.0.1 ".to_string(), &9000));
    assert!(!h.same_address(&"127.0.0.1".to_string(), &9001));
    assert!(!h.same_address(&"10.0.0.1".to_string(), &9000));
    // only a strict dotted quad names this host
    assert!(!h.same_address(&"+127.0.0.1".to_string(), &9000));
    assert!(!h.same_address(&"127.0.0.01".to_string(), &9000));
    assert!(!h.same_address(&"127.-0.0.1".to_string(), &9000));
    assert!(!h.same_address(&"localhost".to_string(), &9000));
}

#[test]
fn find_by_reversed_address() {
    let mut h = HostRepo::new(9000);
    h.add_peer_info(peer("127.0.0.1", 9001, vec![1]));
    h.add_peer_info(peer("192.168.0.7", 9002, vec![2]));
    h.add_peer_info(peer("127.0.0.1", 9003, vec![3]));
    assert_eq!(h.find_peer(Ipv4Addr::new(1, 0, 0, 127), 9001), Some(0));
    assert_eq!(h.find_peer(Ipv4Addr::new(7, 0, 168, 192), 9002), Some(1));
    assert_eq!(h.find_peer(Ipv4Addr::new(1, 0, 0, 127), 9003), Some(2));
    // the conventional order is not what the transport reports
    assert_eq!(h.find_peer(Ipv4Addr::new(192, 168, 0, 7), 9002), None);
    assert_eq!(h.find_peer(Ipv4Addr::new(1, 0, 0, 127), 9004), None);
}

#[test]
fn connect_and_disconnect_events() {
    let mut h = HostRepo::new(9000);
    h.add_peer_info(peer("127.0.0.1", 9001, vec![1]));
    h.add_peer_info(peer("127.0.0.1", 9002, vec![2]));
    assert!(h.execute(Some(TransportEvent::Connect(ep(1, 0, 0, 127, 9002)))).is_none());
    assert!(!h.peers[0].connected);
    assert!(h.peers[1].connected);
    assert!(h.execute(Some(TransportEvent::Disconnect(ep(1, 0, 0, 127, 9002)))).is_none());
    assert!(!h.peers[1].connected);
    assert_eq!(h.peers.len(), 2);
    // an unknown endpoint changes nothing
    assert!(h.execute(Some(TransportEvent::Connect(ep(1, 0, 0, 127, 9999)))).is_none());
    assert!(!h.peers[0].connected && !h.peers[1].connected);
    assert_eq!(h.mark_connected(Ipv4Addr::new(1, 0, 0, 127), 9001, true), Some(0));
    assert!(h.peers[0].connected);
    assert_eq!(h.mark_connected(Ipv4Addr::new(127, 0, 0, 1), 9001, false), None);
    assert!(h.execute(None).is_none());
}

#[test]
fn startup_pass_skips_self_and_connected() {
    let mut h = HostRepo::new(9000);
    let mut connected = peer("127.0.0.1", 9002, vec![2]);
    connected.connected = true;
    let targets = h.init(vec![
        peer("127.0.0.1", 9000, vec![0]),
        peer("127.0.0.1", 9001, vec![1]),
        connected,
        peer("10.0.0.5", 9000, vec![3]),
    ]);
    assert_eq!(targets, Some(vec![ep(127, 0, 0, 1, 9001), ep(10, 0, 0, 5, 9000)]));
    assert!(!h.peers[0].connected);
    assert_eq!(h.peer_endpoint(3), Some(ep(10, 0, 0, 5, 9000)));
    assert_eq!(h.connect_peers(), vec![1, 3]);
}

#[test]
fn init_with_empty_roster_fails() {
    let mut h = HostRepo::new(9000);
    h.received = true;
    assert_eq!(h.init(Vec::new()), None);
    assert!(!h.received);
    assert!(!h.read_peerlist(Vec::new()));
    assert!(h.read_peerlist(vec![peer("127.0.0.1", 9001, vec![1])]));
}

#[test]
fn dynamic_connect_skips_self() {
    let mut h = HostRepo::new(9000);
    assert_eq!(h.connect_peer(peer("127.0.0.1", 9000, vec![0])), Admission::SelfAddress);
    assert!(h.peers.is_empty());
    assert_eq!(h.connect_peer(peer("127.0.0.1", 9001, vec![1])), Admission::Connect(ep(127, 0, 0, 1, 9001)));
    assert_eq!(h.connect_peer(peer("127.0.0.01", 9003, vec![3])), Admission::BadAddress);
    assert_eq!(h.peers.len(), 1);
    let mut known = peer("127.0.0.1", 9002, vec![2]);
    known.connected = true;
    assert_eq!(h.connect_peer(known), Admission::AlreadyConnected);
    assert_eq!(h.peers.len(), 2);
}

#[test]
fn receive_from_unknown_sender_is_dropped() {
    let mut h = HostRepo::new(9001);
    h.add_peer_info(peer("127.0.0.1", 9000, vec![7]));
    let r = h.execute(Some(TransportEvent::Receive(ep(1, 0, 0, 127, 9005), vec![1, 2, 3])));
    assert!(r.is_none());
    assert!(h.process_message(vec![1, 2, 3], Ipv4Addr::new(127, 0, 0, 1), 9000).is_none());
    assert_eq!(h.recv_messages.len(), 0);
    assert!(!h.received);
}

#[test]
fn empty_payload_is_ignored() {
    let mut h = HostRepo::new(9001);
    h.add_peer_info(peer("127.0.0.1", 9000, vec![7]));
    assert!(h.execute(Some(TransportEvent::Receive(ep(1, 0, 0, 127, 9000), vec![]))).is_none());
}

#[test]
fn failed_verification_appends_nothing() {
    let mut h = HostRepo::new(9001);
    h.add_peer_info(peer("127.0.0.1", 9000, vec![7]));
    let pending = h.execute(Some(TransportEvent::Receive(ep(1, 0, 0, 127, 9000), vec![9, 9]))).unwrap();
    assert_eq!(pending.key, vec![7]);
    // verification with a key that is not the signer's reports failure
    let outcome = verify_outcome(-1, Vec::new());
    assert!(!h.accept_message(pending.sender_port, outcome, "t".to_string()));
    assert!(!h.record_message(9000, Err(CryptoError::Verify)));
    assert!(!h.record_message(9000, Ok(Vec::new())));
    // a valid signature on an empty payload verifies, but nothing is logged
    assert!(!h.record_message(9000, verify_outcome(0, Vec::new())));
    assert_eq!(h.recv_messages.len(), 0);
    assert!(!h.received);
}

#[test]
fn end_to_end_hello_world() {
    let mut a = HostRepo::from_host_info(HostInfo { port: 9000, public_key: vec![0xa1], private_key: vec![0xa2] });
    let mut b = HostRepo::from_host_info(HostInfo { port: 9001, public_key: vec![0xb1], private_key: vec![0xb2] });
    assert_eq!(a.init(vec![peer("127.0.0.1", 9001, vec![0xb1])]), Some(vec![ep(127, 0, 0, 1, 9001)]));
    assert_eq!(b.init(vec![peer("127.0.0.1", 9000, vec![0xa1])]), Some(vec![ep(127, 0, 0, 1, 9000)]));

    // A signs once and sends to each distinct handle
    let signed = sign_outcome(0, b"SIG:Hello World".to_vec());
    let handles = vec![ep(1, 0, 0, 127, 9001)];
    let fanout = HostRepo::broadcast_message(signed, &handles);
    assert_eq!(fanout.targets, vec![0]);
    assert_eq!(fanout.payload, b"SIG:Hello World".to_vec());

    // B receives it from A's reversed address and port
    let payload = fanout.payload;
    let pending = b.execute(Some(TransportEvent::Receive(ep(1, 0, 0, 127, 9000), payload.clone()))).unwrap();
    assert_eq!(pending.signed, payload);
    assert_eq!(pending.key, a.secure.public_key);
    assert_eq!(pending.sender_port, 9000);
    let outcome = verify_outcome(0, b"Hello World".to_vec());
    assert!(b.record_message(pending.sender_port, outcome));
    assert_eq!(b.recv_messages.len(), 1);
    assert_eq!(b.recv_messages[0].sender, 9000);
    assert_eq!(b.recv_messages[0].msg, b"Hello World".to_vec());
    assert_eq!(b.recv_messages[0].timestamp.len(), 19);
    assert!(b.received);
}

#[test]
fn accepted_message_keeps_timestamp() {
    let mut h = HostRepo::new(9001);
    assert!(h.accept_message(9000, Ok(vec![1]), "2020-01-02 03:04:05".to_string()));
    assert!(h.accept_message(9002, Ok(vec![2, 3]), "2020-01-02 03:04:06".to_string()));
    assert_eq!(h.recv_messages.len(), 2);
    assert_eq!(h.recv_messages[0].timestamp, "2020-01-02 03:04:05");
    assert_eq!(h.recv_messages[1].sender, 9002);
    assert_eq!(h.recv_messages[1].msg, vec![2, 3]);
}

#[test]
fn broadcast_dedups_by_endpoint() {
    let handles = vec![
        ep(1, 0, 0, 127, 9001),
        ep(1, 0, 0, 127, 9002),
        ep(1, 0, 0, 127, 9001),
        ep(0, 0, 0, 0, 9003),
        ep(1, 0, 0, 127, 9002),
        ep(2, 0, 0, 127, 9001),
    ];
    assert_eq!(broadcast_targets(&handles), vec![0, 1, 5]);
    assert_eq!(broadcast_targets(&Vec::new()), Vec::<usize>::new());
    let same = vec![ep(1, 0, 0, 127, 9001); 4];
    assert_eq!(broadcast_targets(&same).len(), 1);
}

#[test]
fn failed_signing_sends_nothing() {
    let handles = vec![ep(1, 0, 0, 127, 9001)];
    assert!(HostRepo::broadcast_message(Err(CryptoError::Sign), &handles).targets.is_empty());
    assert!(HostRepo::broadcast_message(sign_outcome(3, vec![1]), &handles).targets.is_empty());
    let twice = vec![ep(1, 0, 0, 127, 9001), ep(1, 0, 0, 127, 9002), ep(1, 0, 0, 127, 9001)];
    let fanout = HostRepo::broadcast_message(Ok(vec![7, 8]), &twice);
    assert_eq!(fanout.payload, vec![7, 8]);
    assert_eq!(fanout.targets, vec![0, 1]);
}

#[test]
fn found_peer_among_handles() {
    let handles = vec![ep(127, 0, 0, 1, 9001), ep(10, 0, 0, 2, 9002)];
    assert!(HostRepo::is_found_peer(&peer("127.0.0.1", 9001, vec![]), &handles));
    assert!(!HostRepo::is_found_peer(&peer("127.0.0.1", 9002, vec![]), &handles));
    assert!(!HostRepo::is_found_peer(&peer("127.0.0.01", 9001, vec![]), &handles));
}

#[test]
fn host_info_round_trip() {
    let info = HostInfo { port: 9005, public_key: vec![1, 2], private_key: vec![3] };
    let h = HostRepo::from_host_info(info);
    let back = h.host_info();
    assert_eq!(back.port, 9005);
    assert_eq!(back.public_key, vec![1, 2]);
    assert_eq!(back.private_key, vec![3]);
}

#[test]
fn init_fails_on_unreadable_target_address() {
    let mut h = HostRepo::new(9000);
    assert_eq!(h.init(vec![peer("127.0.0.1", 9001, vec![1]), peer("host.local", 9002, vec![2])]), None);
    assert_eq!(h.peers.len(), 2);
    // an unreadable address on an entry that is already connected is not a target
    let mut connected = peer("host.local", 9002, vec![2]);
    connected.connected = true;
    assert_eq!(h.init(vec![peer("127.0.0.1", 9001, vec![1]), connected]), Some(vec![ep(127, 0, 0, 1, 9001)]));
}
