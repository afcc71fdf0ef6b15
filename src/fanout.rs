use vstd::prelude::*;
use crate::address::{parse_strict_ip, strict_ip_of_text, unspecified_ip};
use crate::config::PeerInfo;
use crate::host::{Endpoint, HostRepo};
use crate::identity::CryptoError;

verus! {

/// Whether transport handle `i` is the first with its (address, port) and its
/// address is specified: the handles that a broadcast sends to.
pub open spec fn is_first_endpoint(h: Seq<Endpoint>, i: int) -> bool {
    &&& 0 <= i < h.len()
    &&& h[i].ip != unspecified_ip()
    &&& forall|j: int| 0 <= j < i ==> #[trigger] h[j] != h[i]
}

/// The distinct (address, port) pairs among the handles, unspecified addresses left out.
pub open spec fn distinct_endpoints(h: Seq<Endpoint>) -> Set<Endpoint> {
    h.to_set().filter(|e: Endpoint| e.ip != unspecified_ip())
}

proof fn lemma_distinct_endpoints_push(h: Seq<Endpoint>, e: Endpoint)
    ensures
        e.ip != unspecified_ip() ==> distinct_endpoints(h.push(e)) == distinct_endpoints(h).insert(
            e,
        ),
        e.ip == unspecified_ip() ==> distinct_endpoints(h.push(e)) == distinct_endpoints(h),
{
    h.lemma_push_to_set_commute(e);
    if e.ip != unspecified_ip() {
        assert(distinct_endpoints(h.push(e)) =~= distinct_endpoints(h).insert(e));
    } else {
        assert(distinct_endpoints(h.push(e)) =~= distinct_endpoints(h));
    }
}

/// The handles that a broadcast sends to, in the order the transport lists
/// them: of each distinct (address, port) with a specified address, the first
/// handle. As many as there are such distinct pairs.
pub fn broadcast_targets(handles: &Vec<Endpoint>) -> (r: Vec<usize>)
    ensures
        forall|k: int|
            0 <= k < r@.len() ==> #[trigger] r@[k] < handles@.len() && is_first_endpoint(
                handles@,
                r@[k] as int,
            ),
        forall|k1: int, k2: int| 0 <= k1 < k2 < r@.len() ==> r@[k1] < r@[k2],
        forall|i: int| is_first_endpoint(handles@, i) ==> r@.contains(i as usize),
        r@.len() == distinct_endpoints(handles@).len(),
{
    let n = handles.len();
    let ghost h = handles@;
    let mut r: Vec<usize> = Vec::new();
    let mut sent: Vec<Endpoint> = Vec::new();
    let mut i: usize = 0;
    assert(h.subrange(0, 0).to_set() =~= Set::<Endpoint>::empty());
    assert(distinct_endpoints(h.subrange(0, 0)) =~= Set::<Endpoint>::empty());
    assert(sent@.to_set() =~= Set::<Endpoint>::empty());
    while i < n
        invariant
            n == h.len(),
            h == handles@,
            i <= n,
            r@.len() == sent@.len(),
            forall|k: int| 0 <= k < sent@.len() ==> #[trigger] sent@[k] == h[r@[k] as int],
            forall|k: int|
                0 <= k < r@.len() ==> #[trigger] r@[k] < i && is_first_endpoint(h, r@[k] as int),
            forall|k1: int, k2: int| 0 <= k1 < k2 < r@.len() ==> r@[k1] < r@[k2],
            forall|j: int| 0 <= j < i && is_first_endpoint(h, j) ==> r@.contains(j as usize),
            sent@.no_duplicates(),
            sent@.to_set() == distinct_endpoints(h.subrange(0, i as int)),
        decreases n - i,
    {
        let e = handles[i];
        let ghost pre = h.subrange(0, i as int);
        assert(h.subrange(0, i + 1) =~= pre.push(e));
        proof {
            lemma_distinct_endpoints_push(pre, e);
        }
        if !e.ip.is_unspecified() {
            let mut found = false;
            let mut k: usize = 0;
            while k < sent.len()
                invariant
                    k <= sent@.len(),
                    found == exists|m: int| 0 <= m < k && sent@[m] == e,
                decreases sent@.len() - k,
            {
                if sent[k] == e {
                    found = true;
                }
                k = k + 1;
            }
            assert(found == sent@.contains(e));
            // `e` was seen before exactly when it is in what was sent so far.
            assert(sent@.contains(e) == distinct_endpoints(pre).contains(e));
            assert(distinct_endpoints(pre).contains(e) == pre.contains(e));
            if !found {
                assert forall|j: int| 0 <= j < i implies #[trigger] h[j] != h[i as int] by {
                    assert(pre[j] == h[j]);
                }
                assert(is_first_endpoint(h, i as int));
                let ghost old_r = r@;
                let ghost old_sent = sent@;
                r.push(i);
                sent.push(e);
                assert forall|j: int| 0 <= j < i + 1 && is_first_endpoint(h, j) implies r@.contains(
                    j as usize,
                ) by {
                    if j < i {
                        let m = choose|m: int| 0 <= m < old_r.len() && old_r[m] == j as usize;
                        assert(r@[m] == j as usize);
                    } else {
                        assert(r@[old_r.len() as int] == j as usize);
                    }
                }
                proof {
                    old_sent.lemma_push_to_set_commute(e);
                }
                assert(sent@.to_set() == distinct_endpoints(h.subrange(0, i + 1)));
            } else {
                let ghost m = choose|m: int| 0 <= m < pre.len() && pre[m] == e;
                assert(h[m] == h[i as int]);
                assert(!is_first_endpoint(h, i as int));
                assert(distinct_endpoints(pre).insert(e) =~= distinct_endpoints(pre));
            }
        } else {
            assert(!is_first_endpoint(h, i as int));
        }
        i = i + 1;
    }
    proof {
        assert(h.subrange(0, n as int) =~= h);
        sent@.unique_seq_to_set();
    }
    r
}

/// What a broadcast sends: one payload, and the handles it goes to.
pub struct Fanout {
    pub payload: Vec<u8>,
    pub targets: Vec<usize>,
}

impl HostRepo {
    /// What a broadcast of the outcome of signing sends: nothing where signing
    /// failed; else the signed bytes, unchanged and the same for every target,
    /// to the handles of `broadcast_targets`.
    pub fn broadcast_message(signed: Result<Vec<u8>, CryptoError>, handles: &Vec<Endpoint>) -> (r:
        Fanout)
        ensures
            signed is Err ==> r.targets@.len() == 0,
            signed matches Ok(s) ==> r.payload@ == s@,
            signed is Ok ==> forall|k: int|
                0 <= k < r.targets@.len() ==> #[trigger] r.targets@[k] < handles@.len()
                    && is_first_endpoint(handles@, r.targets@[k] as int),
            signed is Ok ==> forall|k1: int, k2: int|
                0 <= k1 < k2 < r.targets@.len() ==> r.targets@[k1] < r.targets@[k2],
            signed is Ok ==> forall|i: int|
                is_first_endpoint(handles@, i) ==> r.targets@.contains(i as usize),
            signed is Ok ==> r.targets@.len() == distinct_endpoints(handles@).len(),
    {
        match signed {
            Ok(s) => Fanout { payload: s, targets: broadcast_targets(handles) },
            Err(_) => Fanout { payload: Vec::new(), targets: Vec::new() },
        }
    }

    /// Whether the transport lists a handle at the peer's address, read as a
    /// strict dotted quad, and port.
    pub fn is_found_peer(peer_info: &PeerInfo, handles: &Vec<Endpoint>) -> (r: bool)
        ensures
            r == exists|i: int|
                0 <= i < handles@.len() && Some(#[trigger] handles@[i].ip) == strict_ip_of_text(
                    peer_info.address@,
                ) && handles@[i].port == peer_info.port,
    {
        let ip = match parse_strict_ip(&peer_info.address) {
            Some(ip) => ip,
            None => {
                return false;
            },
        };
        let target = Endpoint { ip, port: peer_info.port };
        let mut i: usize = 0;
        while i < handles.len()
            invariant
                i <= handles@.len(),
                Some(target.ip) == strict_ip_of_text(peer_info.address@),
                target.port == peer_info.port,
                forall|j: int| 0 <= j < i ==> #[trigger] handles@[j] != target,
            decreases handles@.len() - i,
        {
            if handles[i] == target {
                return true;
            }
            i = i + 1;
        }
        false
    }
}

} // verus!
