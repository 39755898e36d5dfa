//! Sharing a job out between several workers.
//!
//! The shares themselves are computed from the workers' loads (floating
//! point); here each worker's share arrives as a whole number: addresses for
//! a discovery, targets for a rescan.

use crate::data_core::manager_api::{
    DiscoverRequest, PortRange, RescanJobProgress, RescanRequest, RescanTarget, WorkerJobReq,
};
use crate::net::{
    block_start, lemma_block_halves, lemma_block_start_bounds, lemma_pow2_max_u128, pow2_u128,
    IpAddr, IpNetwork,
};
use vstd::arithmetic::power2::*;
use vstd::prelude::*;

verus! {

/// The size of a network as `ipnetwork` reports it: `2^host_bits`, except that
/// a network with prefix 0 reports the largest value of the address type.
pub open spec fn spec_network_size(net: IpNetwork) -> nat {
    match net {
        IpNetwork::V4(_, p) => if p == 0 {
            u32::MAX as nat
        } else {
            pow2((32 - p) as nat)
        },
        IpNetwork::V6(_, p) => if p == 0 {
            u128::MAX as nat
        } else {
            pow2((128 - p) as nat)
        },
    }
}

/// Number of addresses in a network (see [`spec_network_size`]).
pub fn network_size(net: &IpNetwork) -> (r: u128)
    requires
        net.wf(),
    ensures
        r == spec_network_size(*net),
{
    proof {
        lemma_pow2_max_u128();
    }
    match net {
        IpNetwork::V4(_, p) => {
            if *p == 0 {
                u32::MAX as u128
            } else {
                pow2_u128(32 - *p)
            }
        },
        IpNetwork::V6(_, p) => {
            if *p == 0 {
                u128::MAX
            } else {
                pow2_u128(128 - *p)
            }
        },
    }
}

/// The two halves of a network: the same family, one bit more of prefix,
/// built on the network's first address and on its middle.
pub open spec fn spec_halves(net: IpNetwork) -> (IpNetwork, IpNetwork) {
    let middle = net.first() + net.span() / 2;
    match net {
        IpNetwork::V4(_, p) => (
            IpNetwork::V4(net.first() as u32, (p + 1) as u8),
            IpNetwork::V4(middle as u32, (p + 1) as u8),
        ),
        IpNetwork::V6(_, p) => (
            IpNetwork::V6(net.first() as u128, (p + 1) as u8),
            IpNetwork::V6(middle as u128, (p + 1) as u8),
        ),
    }
}

/// Splits a network into its two halves (see [`spec_halves`]).
/// A network of a single address cannot be split.
pub fn split_network_in_half(net: &IpNetwork) -> (r: Option<[IpNetwork; 2]>)
    requires
        net.wf(),
    ensures
        r is None <==> net.spec_prefix() == net.max_prefix(),
        r matches Some(halves) ==> {
            &&& halves[0] == spec_halves(*net).0 && halves[1] == spec_halves(*net).1
            &&& halves[0].wf() && halves[1].wf()
            &&& halves[0].spec_prefix() == net.spec_prefix() + 1
            &&& halves[1].spec_prefix() == net.spec_prefix() + 1
            &&& halves[0].spec_ip().is_v4() == net.spec_ip().is_v4()
            &&& halves[1].spec_ip().is_v4() == net.spec_ip().is_v4()
            &&& halves[0].spec_ip().value() == net.first()
            &&& halves[1].spec_ip().value() == net.first() + net.span() / 2
            &&& forall|ip: IpAddr|
                #![trigger net.contains(ip)]
                net.contains(ip) <==> (halves[0].contains(ip) || halves[1].contains(ip))
            &&& forall|ip: IpAddr|
                #![trigger net.contains(ip)]
                !(halves[0].contains(ip) && halves[1].contains(ip))
        },
{
    let prefix = net.prefix();
    let first = net.network();
    let ghost k = net.host_bits();
    proof {
        lemma_pow2_max_u128();
    }
    match first {
        IpAddr::V4(a) => {
            if prefix >= 32 {
                return None;
            }
            let new_prefix = prefix + 1;
            let step = pow2_u128(32 - new_prefix);
            proof {
                lemma_block_start_bounds(net.spec_ip().value(), k, 32);
                lemma_block_halves(net.spec_ip().value(), k);
                lemma_pow2_pos((k - 1) as nat);
            }
            let sub1 = IpNetwork::V4(a, new_prefix);
            let sub2 = IpNetwork::V4(a + step as u32, new_prefix);
            proof {
                assert(sub1.first() == net.first());
                assert(sub2.first() == net.first() + pow2((k - 1) as nat));
            }
            Some([sub1, sub2])
        },
        IpAddr::V6(a) => {
            if prefix >= 128 {
                return None;
            }
            let new_prefix = prefix + 1;
            let step = pow2_u128(128 - new_prefix);
            proof {
                lemma_block_start_bounds(net.spec_ip().value(), k, 128);
                lemma_block_halves(net.spec_ip().value(), k);
                lemma_pow2_pos((k - 1) as nat);
            }
            let sub1 = IpNetwork::V6(a, new_prefix);
            let sub2 = IpNetwork::V6(a + step, new_prefix);
            proof {
                assert(sub1.first() == net.first());
                assert(sub2.first() == net.first() + pow2((k - 1) as nat));
            }
            Some([sub1, sub2])
        },
    }
}

/// Some network of the list holds `ip`.
pub open spec fn covers(nets: Seq<IpNetwork>, ip: IpAddr) -> bool {
    exists|j: int| 0 <= j < nets.len() && #[trigger] nets[j].contains(ip)
}

/// Every network of the list is well formed.
pub open spec fn all_wf(nets: Seq<IpNetwork>) -> bool {
    forall|j: int| 0 <= j < nets.len() ==> #[trigger] nets[j].wf()
}

/// The sum of the sizes of the networks of a list.
pub open spec fn sizes_sum(nets: Seq<IpNetwork>) -> nat
    decreases nets.len(),
{
    if nets.len() == 0 {
        0
    } else {
        sizes_sum(nets.drop_last()) + spec_network_size(nets.last())
    }
}

/// The networks that a worker request asks to discover.
pub open spec fn discover_targets(r: WorkerJobReq) -> Seq<IpNetwork> {
    match r {
        WorkerJobReq::Discover(d) => d.targets@,
        WorkerJobReq::Rescan(_) => Seq::empty(),
    }
}

/// The discovery targets of a list of requests, one after the other.
pub open spec fn joined_discover_targets(rs: Seq<WorkerJobReq>) -> Seq<IpNetwork>
    decreases rs.len(),
{
    if rs.len() == 0 {
        Seq::empty()
    } else {
        joined_discover_targets(rs.drop_last()) + discover_targets(rs.last())
    }
}

/// The request is a discovery with the same settings as `req`, apart from
/// its targets.
pub open spec fn same_discover_settings(r: WorkerJobReq, req: DiscoverRequest) -> bool {
    &&& r is Discover
    &&& r->Discover_0.excludes@ == req.excludes@
    &&& r->Discover_0.ports@ == req.ports@
    &&& r->Discover_0.port_ranges@ == req.port_ranges@
    &&& r->Discover_0.rate == req.rate
    &&& r->Discover_0.method == req.method
}

/// A measure that splitting a network at the front of the queue, or taking
/// it, makes smaller.
pub open spec fn split_weight(nets: Seq<IpNetwork>) -> nat
    decreases nets.len(),
{
    if nets.len() == 0 {
        0
    } else {
        (2 * nets[0].span() - 1) as nat + split_weight(nets.drop_first())
    }
}

/// What one worker takes from the front of `queue` for a quota of `count`
/// addresses, and what is left of the queue: a network that fits is taken
/// whole, one that does not is replaced by its two halves, and a network that
/// cannot be split is taken although it does not fit, which ends the quota.
pub open spec fn fill_quota(count: nat, queue: Seq<IpNetwork>) -> (Seq<IpNetwork>, Seq<IpNetwork>)
    decreases split_weight(queue),
{
    if count == 0 || queue.len() == 0 {
        (Seq::empty(), queue)
    } else {
        let net = queue[0];
        let rest = queue.drop_first();
        let size = spec_network_size(net);
        proof {
            lemma_pow2_pos(net.host_bits());
            assert(split_weight(rest) < split_weight(queue));
        }
        if size <= count {
            let (taken, left) = fill_quota((count - size) as nat, rest);
            (seq![net] + taken, left)
        } else if net.spec_prefix() < net.max_prefix() {
            let halves = spec_halves(net);
            let split = seq![halves.0, halves.1] + rest;
            proof {
                lemma_split_weight_halves(net, rest);
                assert(queue =~= seq![net] + rest);
            }
            fill_quota(count, split)
        } else {
            (seq![net], rest)
        }
    }
}

/// Putting the two halves of a network in its place at the front of a queue
/// makes the queue's weight smaller.
pub proof fn lemma_split_weight_halves(net: IpNetwork, rest: Seq<IpNetwork>)
    requires
        net.spec_prefix() < net.max_prefix(),
    ensures
        split_weight(seq![spec_halves(net).0, spec_halves(net).1] + rest) < split_weight(
            seq![net] + rest,
        ),
{
    let h = spec_halves(net);
    let split = seq![h.0, h.1] + rest;
    let k = net.host_bits();
    assert(h.0.host_bits() == k - 1);
    assert(h.1.host_bits() == k - 1);
    assert(pow2(k) == 2 * pow2((k - 1) as nat)) by {
        lemma_pow2_unfold(k);
    }
    lemma_pow2_pos((k - 1) as nat);
    let tail = seq![h.1] + rest;
    assert(split.drop_first() =~= tail);
    assert(tail.drop_first() =~= rest);
    assert((seq![net] + rest).drop_first() =~= rest);
    assert(split_weight(tail) == (2 * h.1.span() - 1) as nat + split_weight(rest));
    assert(split_weight(split) == (2 * h.0.span() - 1) as nat + split_weight(tail));
    assert(split_weight(seq![net] + rest) == (2 * net.span() - 1) as nat + split_weight(rest));
}

/// The targets of each worker when `queue` is shared out by `quotas`: each
/// worker but the last fills its quota from what the workers before it left,
/// and the last worker takes all that is left.
pub open spec fn share_out(quotas: Seq<u128>, queue: Seq<IpNetwork>) -> Seq<Seq<IpNetwork>>
    decreases quotas.len(),
{
    if quotas.len() == 0 {
        Seq::empty()
    } else if quotas.len() == 1 {
        seq![queue]
    } else {
        let (taken, left) = fill_quota(quotas[0] as nat, queue);
        seq![taken] + share_out(quotas.drop_first(), left)
    }
}

proof fn lemma_covers_concat(a: Seq<IpNetwork>, b: Seq<IpNetwork>, ip: IpAddr)
    ensures
        covers(a + b, ip) <==> (covers(a, ip) || covers(b, ip)),
{
    if covers(a + b, ip) {
        let j = choose|j: int| 0 <= j < (a + b).len() && #[trigger] (a + b)[j].contains(ip);
        if j < a.len() {
            assert(a[j] == (a + b)[j]);
        } else {
            assert(b[j - a.len()] == (a + b)[j]);
        }
    }
    if covers(a, ip) {
        let j = choose|j: int| 0 <= j < a.len() && #[trigger] a[j].contains(ip);
        assert((a + b)[j] == a[j]);
    }
    if covers(b, ip) {
        let j = choose|j: int| 0 <= j < b.len() && #[trigger] b[j].contains(ip);
        assert((a + b)[a.len() + j] == b[j]);
    }
}

proof fn lemma_covers_single(n: IpNetwork, ip: IpAddr)
    ensures
        covers(seq![n], ip) <==> n.contains(ip),
{
    if n.contains(ip) {
        assert(seq![n][0] == n);
    }
}

proof fn lemma_sizes_sum_push(nets: Seq<IpNetwork>, n: IpNetwork)
    ensures
        sizes_sum(nets.push(n)) == sizes_sum(nets) + spec_network_size(n),
{
    assert(nets.push(n).drop_last() =~= nets);
}

proof fn lemma_joined_push(rs: Seq<WorkerJobReq>, r: WorkerJobReq)
    ensures
        joined_discover_targets(rs.push(r)) == joined_discover_targets(rs) + discover_targets(r),
{
    assert(rs.push(r).drop_last() =~= rs);
}

/// One network taken from the front of the queue into the worker's list
/// leaves what the three lists cover unchanged.
proof fn lemma_move_front(done: Seq<IpNetwork>, w: Seq<IpNetwork>, q: Seq<IpNetwork>, ip: IpAddr)
    requires
        q.len() > 0,
    ensures
        covers(done + w.push(q[0]) + q.drop_first(), ip) == covers(done + w + q, ip),
{
    lemma_covers_concat(done + w.push(q[0]), q.drop_first(), ip);
    lemma_covers_concat(done, w.push(q[0]), ip);
    assert(w.push(q[0]) =~= w + seq![q[0]]);
    lemma_covers_concat(w, seq![q[0]], ip);
    lemma_covers_concat(done + w, q, ip);
    lemma_covers_concat(done, w, ip);
    assert(q =~= seq![q[0]] + q.drop_first());
    lemma_covers_concat(seq![q[0]], q.drop_first(), ip);
}

/// Shares a discovery out: worker `i` (all but the last) gets networks from
/// the front of the queue until `quotas[i]` addresses are reached, splitting a
/// network in halves when it does not fit; the last worker gets what is left.
pub fn split_discover(req: DiscoverRequest, quotas: &[u128]) -> (r: Vec<WorkerJobReq>)
    requires
        all_wf(req.targets@),
    ensures
        r.len() == quotas.len(),
        r@.map_values(|x: WorkerJobReq| discover_targets(x)) == share_out(quotas@, req.targets@),
        forall|k: int| 0 <= k < r.len() ==> same_discover_settings(#[trigger] r[k], req),
        all_wf(joined_discover_targets(r@)),
        quotas.len() > 0 ==> forall|ip: IpAddr|
            #![trigger covers(req.targets@, ip)]
            covers(joined_discover_targets(r@), ip) == covers(req.targets@, ip),
        forall|k: int|
            0 <= k < r.len() - 1 ==> sizes_sum(discover_targets(#[trigger] r[k])) <= quotas[k],
        forall|k: int, m: int|
            0 <= k < m < r.len() && k < r.len() - 1 && sizes_sum(discover_targets(#[trigger] r[k]))
                < quotas[k] ==> discover_targets(#[trigger] r[m]).len() == 0,
{
    let n = quotas.len();
    let mut requests: Vec<WorkerJobReq> = Vec::new();
    if n == 0 {
        return requests;
    }
    let mut queue = copy_networks(&req.targets);
    let mut i: usize = 0;
    proof {
        let all = share_out(quotas@, req.targets@);
        assert(quotas@.skip(0) =~= quotas@);
        assert(requests@.map_values(|x: WorkerJobReq| discover_targets(x)) =~= Seq::empty());
        assert(Seq::<Seq<IpNetwork>>::empty() + all =~= all);
    }
    while i < n - 1
        invariant
            0 <= i <= n - 1,
            n == quotas.len(),
            requests.len() == i,
            share_out(quotas@, req.targets@) == requests@.map_values(
                |x: WorkerJobReq| discover_targets(x),
            ) + share_out(quotas@.skip(i as int), queue@),
            all_wf(queue@),
            all_wf(joined_discover_targets(requests@)),
            forall|k: int| 0 <= k < i ==> same_discover_settings(#[trigger] requests[k], req),
            forall|ip: IpAddr|
                #![trigger covers(req.targets@, ip)]
                covers(joined_discover_targets(requests@) + queue@, ip) == covers(req.targets@, ip),
            forall|k: int|
                0 <= k < i ==> sizes_sum(discover_targets(#[trigger] requests[k])) <= quotas[k],
            forall|k: int|
                0 <= k < i && sizes_sum(discover_targets(#[trigger] requests[k])) < quotas[k]
                    ==> queue@.len() == 0,
            forall|k: int, m: int|
                0 <= k < m < i && sizes_sum(discover_targets(#[trigger] requests[k])) < quotas[k]
                    ==> discover_targets(#[trigger] requests[m]).len() == 0,
        decreases n - 1 - i,
    {
        let quota = quotas[i];
        let mut target_ip_count = quota;
        let mut worker_targets: Vec<IpNetwork> = Vec::new();
        let ghost queue_was_empty = queue@.len() == 0;
        let ghost done = joined_discover_targets(requests@);
        let ghost q_start = queue@;
        while target_ip_count > 0 && queue.len() > 0
            invariant
                fill_quota(quota as nat, q_start) == (
                    worker_targets@ + fill_quota(target_ip_count as nat, queue@).0,
                    fill_quota(target_ip_count as nat, queue@).1,
                ),
                all_wf(queue@),
                all_wf(worker_targets@),
                target_ip_count + sizes_sum(worker_targets@) == quota,
                queue_was_empty ==> queue@.len() == 0 && worker_targets@.len() == 0,
                forall|ip: IpAddr|
                    #![trigger covers(req.targets@, ip)]
                    covers(done + worker_targets@ + queue@, ip) == covers(req.targets@, ip),
            decreases split_weight(queue@),
        {
            let ghost q0 = queue@;
            let net = queue.remove(0);
            assert(q0.drop_first() =~= queue@);
            assert(net.wf());
            proof {
                lemma_pow2_pos(net.host_bits());
                assert(split_weight(q0) == (2 * net.span() - 1) as nat + split_weight(queue@));
            }
            let size = network_size(&net);
            if size <= target_ip_count {
                let ghost w0 = worker_targets@;
                worker_targets.push(net);
                proof {
                    let rest_fill = fill_quota((target_ip_count - size) as nat, queue@);
                    assert(w0 + (seq![net] + rest_fill.0) =~= worker_targets@ + rest_fill.0);
                    lemma_sizes_sum_push(w0, net);
                    assert forall|ip: IpAddr| #![trigger covers(req.targets@, ip)] covers(done + worker_targets@ + queue@, ip) == covers(req.targets@, ip) by {
                        lemma_move_front(done, w0, q0, ip);
                    }
                    assert(all_wf(worker_targets@));
                }
                target_ip_count = target_ip_count - size;
            } else {
                match split_network_in_half(&net) {
                    Some(halves) => {
                        let sub1 = halves[0];
                        let sub2 = halves[1];
                        queue.insert(0, sub2);
                        queue.insert(0, sub1);
                        proof {
                            let rest = q0.drop_first();
                            assert(queue@ =~= seq![sub1, sub2] + rest);
                            assert(queue@.drop_first() =~= seq![sub2] + rest);
                            assert((seq![sub2] + rest).drop_first() =~= rest);
                            assert(q0 =~= seq![net] + rest);
                            lemma_block_halves(net.spec_ip().value(), net.host_bits());
                            lemma_pow2_pos(sub1.host_bits());
                            assert(sub1.span() == sub2.span());
                            assert(2 * net.span() == 4 * sub1.span());
                            assert(split_weight(queue@) == (2 * sub1.span() - 1) as nat
                                + split_weight(queue@.drop_first()));
                            assert(split_weight(seq![sub2] + rest) == (2 * sub2.span() - 1) as nat
                                + split_weight(rest));
                            assert(split_weight(q0) == (2 * net.span() - 1) as nat + split_weight(
                                rest,
                            ));
                            assert(split_weight(queue@) < split_weight(q0));
                            assert forall|ip: IpAddr| #![trigger covers(req.targets@, ip)] covers(done + worker_targets@ + queue@, ip) == covers(req.targets@, ip) by {
                                let dw = done + worker_targets@;
                                lemma_covers_concat(dw, queue@, ip);
                                lemma_covers_concat(dw, q0, ip);
                                lemma_covers_concat(seq![sub1, sub2], rest, ip);
                                lemma_covers_concat(seq![net], rest, ip);
                                assert(seq![sub1, sub2] =~= seq![sub1] + seq![sub2]);
                                lemma_covers_concat(seq![sub1], seq![sub2], ip);
                                lemma_covers_single(sub1, ip);
                                lemma_covers_single(sub2, ip);
                                lemma_covers_single(net, ip);
                                if net.contains(ip) {
                                }
                            }
                            assert(all_wf(queue@));
                        }
                    },
                    None => {
                        // a single address has size one, which always fits
                        proof {
                            lemma_pow2_max_u128();
                            assert(net.host_bits() == 0);
                            assert(pow2(0) == 1) by {
                                lemma2_to64();
                            }
                        }
                        assert(false);
                    },
                }
            }
        }
        proof {
            assert(worker_targets@ + Seq::<IpNetwork>::empty() =~= worker_targets@);
            let qs = quotas@.skip(i as int);
            assert(qs[0] == quotas@[i as int]);
            assert(qs.drop_first() =~= quotas@.skip(i + 1));
        }
        let ghost before = requests@;
        let ghost taken = worker_targets@;
        requests.push(
            WorkerJobReq::Discover(
                DiscoverRequest {
                    targets: worker_targets,
                    excludes: copy_networks(&req.excludes),
                    ports: copy_ports(&req.ports),
                    port_ranges: copy_port_ranges(&req.port_ranges),
                    rate: req.rate,
                    method: req.method,
                },
            ),
        );
        proof {
            lemma_joined_push(before, requests@[i as int]);
            assert(requests@ =~= before.push(requests@[i as int]));
            let f = |x: WorkerJobReq| discover_targets(x);
            assert(requests@.map_values(f) =~= before.map_values(f).push(taken));
            assert(before.map_values(f) + share_out(quotas@.skip(i as int), q_start)
                =~= requests@.map_values(f) + share_out(quotas@.skip(i + 1), queue@));
            assert forall|ip: IpAddr| #![trigger covers(req.targets@, ip)] covers(joined_discover_targets(requests@) + queue@, ip) == covers(req.targets@, ip) by {
                assert(done + discover_targets(requests@[i as int]) + queue@ =~= done
                    + worker_targets@ + queue@);
            }
            assert forall|j: int|
                0 <= j < joined_discover_targets(requests@).len() implies #[trigger]
                joined_discover_targets(requests@)[j].wf() by {
                if j >= done.len() {
                    assert(joined_discover_targets(requests@)[j] == worker_targets@[j - done.len()]);
                }
            }
        }
        i = i + 1;
    }
    let ghost before = requests@;
    requests.push(
        WorkerJobReq::Discover(
            DiscoverRequest {
                targets: copy_networks(&queue),
                excludes: copy_networks(&req.excludes),
                ports: copy_ports(&req.ports),
                port_ranges: copy_port_ranges(&req.port_ranges),
                rate: req.rate,
                method: req.method,
            },
        ),
    );
    proof {
        lemma_joined_push(before, requests@[i as int]);
        assert(requests@ =~= before.push(requests@[i as int]));
        let f = |x: WorkerJobReq| discover_targets(x);
        assert(quotas@.skip(i as int).len() == 1);
        assert(requests@.map_values(f) =~= before.map_values(f) + seq![queue@]);
        assert forall|j: int|
            0 <= j < joined_discover_targets(requests@).len() implies #[trigger]
            joined_discover_targets(requests@)[j].wf() by {
            if j >= joined_discover_targets(before).len() {
                assert(joined_discover_targets(requests@)[j] == queue@[j
                    - joined_discover_targets(before).len()]);
            }
        }
    }
    requests
}

fn copy_networks(v: &Vec<IpNetwork>) -> (r: Vec<IpNetwork>)
    ensures
        r@ == v@,
{
    let r = v.clone();
    assert(r@ =~= v@);
    r
}

fn copy_ports(v: &Vec<u16>) -> (r: Vec<u16>)
    ensures
        r@ == v@,
{
    let r = v.clone();
    assert(r@ =~= v@);
    r
}

fn copy_port_ranges(v: &Vec<PortRange>) -> (r: Vec<PortRange>)
    ensures
        r@ == v@,
{
    let r = v.clone();
    assert(r@ =~= v@);
    r
}

/// Where worker `i`'s part of a rescan starts: the counts of the workers
/// before it, summed, but not beyond the end of the targets.
pub open spec fn rescan_start(counts: Seq<usize>, i: int, len: nat) -> nat
    decreases i,
{
    if i <= 0 {
        0
    } else {
        let prev = rescan_start(counts, i - 1, len);
        if prev + counts[i - 1] < len {
            (prev + counts[i - 1]) as nat
        } else {
            len
        }
    }
}

/// The targets that a worker request asks to rescan.
pub open spec fn rescan_targets(r: WorkerJobReq) -> Seq<RescanTarget> {
    match r {
        WorkerJobReq::Rescan(x) => x.targets@,
        WorkerJobReq::Discover(_) => Seq::empty(),
    }
}

/// The rescan targets of a list of requests, one after the other.
pub open spec fn joined_rescan_targets(rs: Seq<WorkerJobReq>) -> Seq<RescanTarget>
    decreases rs.len(),
{
    if rs.len() == 0 {
        Seq::empty()
    } else {
        joined_rescan_targets(rs.drop_last()) + rescan_targets(rs.last())
    }
}

proof fn lemma_rescan_start_mono(counts: Seq<usize>, i: int, len: nat)
    requires
        0 <= i,
    ensures
        rescan_start(counts, i, len) <= rescan_start(counts, i + 1, len) <= len,
    decreases i,
{
    if i > 0 {
        lemma_rescan_start_mono(counts, i - 1, len);
    }
}

/// Shares a rescan out: worker `i` (all but the last) gets the next
/// `counts[i]` targets, or what is left if fewer; the last worker gets all the
/// rest. Put back together, the parts are the targets in their order.
pub fn split_rescan(req: RescanRequest, counts: &[usize]) -> (r: Vec<WorkerJobReq>)
    ensures
        r.len() == counts.len(),
        forall|k: int|
            0 <= k < r.len() ==> {
                &&& #[trigger] r[k] is Rescan
                &&& r[k]->Rescan_0.method == req.method
                &&& r[k]->Rescan_0.rate == req.rate
            },
        forall|k: int|
            0 <= k < r.len() - 1 ==> rescan_targets(#[trigger] r[k]) == req.targets@.subrange(
                rescan_start(counts@, k, req.targets@.len()) as int,
                rescan_start(counts@, k + 1, req.targets@.len()) as int,
            ),
        r.len() > 0 ==> rescan_targets(r[r.len() - 1]) == req.targets@.subrange(
            rescan_start(counts@, r.len() - 1, req.targets@.len()) as int,
            req.targets@.len() as int,
        ),
        r.len() > 0 ==> joined_rescan_targets(r@) == req.targets@,
{
    let n = counts.len();
    let mut requests: Vec<WorkerJobReq> = Vec::new();
    if n == 0 {
        return requests;
    }
    let ghost all = req.targets@;
    let RescanRequest { method, rate, targets } = req;
    let mut rest = targets;
    let mut i: usize = 0;
    while i < n - 1
        invariant
            0 <= i <= n - 1,
            n == counts.len(),
            requests.len() == i,
            rest@ == all.subrange(rescan_start(counts@, i as int, all.len()) as int, all.len() as int),
            joined_rescan_targets(requests@) == all.subrange(
                0,
                rescan_start(counts@, i as int, all.len()) as int,
            ),
            forall|k: int|
                0 <= k < i ==> {
                    &&& #[trigger] requests[k] is Rescan
                    &&& requests[k]->Rescan_0.method == method
                    &&& requests[k]->Rescan_0.rate == rate
                },
            forall|k: int|
                0 <= k < i ==> rescan_targets(#[trigger] requests[k]) == all.subrange(
                    rescan_start(counts@, k, all.len()) as int,
                    rescan_start(counts@, k + 1, all.len()) as int,
                ),
        decreases n - 1 - i,
    {
        proof {
            lemma_rescan_start_mono(counts@, i as int, all.len());
        }
        let count = counts[i];
        let take = if count < rest.len() {
            count
        } else {
            rest.len()
        };
        let tail = rest.split_off(take);
        let ghost before = requests@;
        let ghost start = rescan_start(counts@, i as int, all.len());
        assert(rest@ =~= all.subrange(start as int, rescan_start(counts@, i + 1, all.len()) as int));
        requests.push(WorkerJobReq::Rescan(RescanRequest { method, rate, targets: rest }));
        rest = tail;
        proof {
            lemma_joined_rescan_push(before, requests@[i as int]);
            assert(requests@ =~= before.push(requests@[i as int]));
            assert(all.subrange(0, start as int) + all.subrange(
                start as int,
                rescan_start(counts@, i + 1, all.len()) as int,
            ) =~= all.subrange(0, rescan_start(counts@, i + 1, all.len()) as int));
        }
        i = i + 1;
    }
    let ghost before = requests@;
    let ghost start = rescan_start(counts@, i as int, all.len());
    requests.push(WorkerJobReq::Rescan(RescanRequest { method, rate, targets: rest }));
    proof {
        lemma_joined_rescan_push(before, requests@[i as int]);
        assert(requests@ =~= before.push(requests@[i as int]));
        lemma_rescan_start_mono(counts@, i as int, all.len());
        assert(all.subrange(0, start as int) + all.subrange(start as int, all.len() as int) =~= all);
    }
    requests
}

proof fn lemma_joined_rescan_push(rs: Seq<WorkerJobReq>, r: WorkerJobReq)
    ensures
        joined_rescan_targets(rs.push(r)) == joined_rescan_targets(rs) + rescan_targets(r),
{
    assert(rs.push(r).drop_last() =~= rs);
}

/// Sum of the `checked` counts of a list of progress reports.
pub open spec fn sum_checked(values: Seq<&RescanJobProgress>) -> nat
    decreases values.len(),
{
    if values.len() == 0 {
        0
    } else {
        sum_checked(values.drop_last()) + values.last().checked as nat
    }
}

/// Sum of the `successful` counts of a list of progress reports.
pub open spec fn sum_successful(values: Seq<&RescanJobProgress>) -> nat
    decreases values.len(),
{
    if values.len() == 0 {
        0
    } else {
        sum_successful(values.drop_last()) + values.last().successful as nat
    }
}

/// Adds up the workers' reports of one rescan: the total is the first
/// report's, the counts are summed.
pub fn sum_rescan_update(values: Vec<&RescanJobProgress>) -> (r: RescanJobProgress)
    requires
        values.len() > 0,
        sum_checked(values@) <= usize::MAX,
        sum_successful(values@) <= usize::MAX,
    ensures
        r.all == values[0].all,
        r.checked == sum_checked(values@),
        r.successful == sum_successful(values@),
{
    let mut checked: usize = 0;
    let mut successful: usize = 0;
    let mut i: usize = 0;
    while i < values.len()
        invariant
            0 <= i <= values.len(),
            checked == sum_checked(values@.subrange(0, i as int)),
            successful == sum_successful(values@.subrange(0, i as int)),
            sum_checked(values@) <= usize::MAX,
            sum_successful(values@) <= usize::MAX,
        decreases values.len() - i,
    {
        proof {
            assert(values@.subrange(0, i + 1).drop_last() =~= values@.subrange(0, i as int));
            lemma_sums_prefix_bounded(values@, i + 1);
        }
        checked = checked + values[i].checked;
        successful = successful + values[i].successful;
        i = i + 1;
    }
    assert(values@.subrange(0, i as int) =~= values@);
    RescanJobProgress { all: values[0].all, checked, successful }
}

proof fn lemma_sums_prefix_bounded(values: Seq<&RescanJobProgress>, i: int)
    requires
        0 <= i <= values.len(),
    ensures
        sum_checked(values.subrange(0, i)) <= sum_checked(values),
        sum_successful(values.subrange(0, i)) <= sum_successful(values),
    decreases values.len() - i,
{
    if i < values.len() {
        lemma_sums_prefix_bounded(values, i + 1);
        assert(values.subrange(0, i + 1).drop_last() =~= values.subrange(0, i));
    } else {
        assert(values.subrange(0, i) =~= values);
    }
}

/// The counts of a discovery report: servers found, servers being read,
/// servers read.
#[derive(Clone, Copy, Debug, PartialEq, Eq, Default, Structural)]
pub struct DiscoverCounts {
    pub founded: u32,
    pub parsing_now: u32,
    pub successful: u32,
}

/// A worker's last report on its part of a job: none yet, a discovery's
/// counts, or a rescan's progress. A discovery's scanned share is a
/// fraction, weighed by the caller.
#[derive(Clone, Copy, Debug, PartialEq, Eq, Structural)]
pub enum ProgressReport {
    NoData,
    Discover(DiscoverCounts),
    Rescan(RescanJobProgress),
}

/// The reports of a job's workers put together: none yet; a discovery's
/// summed counts, with the places of the reports that count, whose scanned
/// shares the caller weighs; or a rescan's summed progress.
#[derive(Debug)]
pub enum SummedProgress {
    NoData,
    Discover { counts: DiscoverCounts, places: Vec<usize> },
    Rescan(RescanJobProgress),
}

/// The places of the reports that hold data, in order.
pub open spec fn data_places(v: Seq<ProgressReport>) -> Seq<usize>
    decreases v.len(),
{
    if v.len() == 0 {
        Seq::empty()
    } else if v.last() is NoData {
        data_places(v.drop_last())
    } else {
        data_places(v.drop_last()).push((v.len() - 1) as usize)
    }
}

/// The figures of one report: found, being read and read servers of a
/// discovery, checked and answered targets of a rescan; nothing for the
/// other kinds.
pub open spec fn report_figures(r: ProgressReport) -> (nat, nat, nat, nat, nat) {
    match r {
        ProgressReport::NoData => (0, 0, 0, 0, 0),
        ProgressReport::Discover(c) => (c.founded as nat, c.parsing_now as nat, c.successful as nat, 0, 0),
        ProgressReport::Rescan(p) => (0, 0, 0, p.checked as nat, p.successful as nat),
    }
}

/// The figures of the reports, each summed.
pub open spec fn report_totals(v: Seq<ProgressReport>) -> (nat, nat, nat, nat, nat)
    decreases v.len(),
{
    if v.len() == 0 {
        (0, 0, 0, 0, 0)
    } else {
        let t = report_totals(v.drop_last());
        let f = report_figures(v.last());
        (t.0 + f.0, t.1 + f.1, t.2 + f.2, t.3 + f.3, t.4 + f.4)
    }
}

/// The reports that hold data are all of one kind.
pub open spec fn one_kind(v: Seq<ProgressReport>) -> bool {
    forall|i: int, j: int|
        0 <= i < v.len() && 0 <= j < v.len() && !(v[i] is NoData) && !(v[j] is NoData) ==> ((
        #[trigger] v[i]) is Discover) == ((#[trigger] v[j]) is Discover)
}

proof fn lemma_totals_prefix(v: Seq<ProgressReport>, i: int)
    requires
        0 <= i <= v.len(),
    ensures
        ({
            let p = report_totals(v.take(i));
            let t = report_totals(v);
            p.0 <= t.0 && p.1 <= t.1 && p.2 <= t.2 && p.3 <= t.3 && p.4 <= t.4
        }),
    decreases v.len() - i,
{
    if i < v.len() {
        lemma_totals_prefix(v, i + 1);
        assert(v.take(i + 1).drop_last() =~= v.take(i));
    } else {
        assert(v.take(i) =~= v);
    }
}

proof fn lemma_take_step(v: Seq<ProgressReport>, i: int)
    requires
        0 <= i < v.len(),
    ensures
        ({
            let p = report_totals(v.take(i));
            let f = report_figures(v[i]);
            report_totals(v.take(i + 1)) == (p.0 + f.0, p.1 + f.1, p.2 + f.2, p.3 + f.3, p.4 + f.4)
        }),
        data_places(v.take(i + 1)) == if v[i] is NoData {
            data_places(v.take(i))
        } else {
            data_places(v.take(i)).push(i as usize)
        },
{
    assert(v.take(i + 1).drop_last() =~= v.take(i));
}

proof fn lemma_data_places_in(v: Seq<ProgressReport>)
    requires
        v.len() <= usize::MAX,
    ensures
        forall|k: int|
            0 <= k < data_places(v).len() ==> (#[trigger] data_places(v)[k]) < v.len() && !(
            v[data_places(v)[k] as int] is NoData),
        data_places(v).len() == 0 ==> forall|i: int| 0 <= i < v.len() ==> (#[trigger] v[i]) is NoData,
    decreases v.len(),
{
    if v.len() > 0 {
        let w = v.drop_last();
        lemma_data_places_in(w);
        let pw = data_places(w);
        if v.last() is NoData {
            assert(data_places(v) == pw);
        } else {
            assert(data_places(v) == pw.push((v.len() - 1) as usize));
        }
        assert forall|k: int| 0 <= k < data_places(v).len() implies (#[trigger] data_places(v)[k])
            < v.len() && !(v[data_places(v)[k] as int] is NoData) by {
            if k < pw.len() {
                assert(data_places(v)[k] == pw[k]);
                assert(w[pw[k] as int] == v[pw[k] as int]);
            } else {
                assert(data_places(v)[k] == v.len() - 1);
            }
        }
        if data_places(v).len() == 0 {
            assert(v.last() is NoData);
            assert forall|i: int| 0 <= i < v.len() implies (#[trigger] v[i]) is NoData by {
                if i < w.len() {
                    assert(w[i] == v[i]);
                }
            }
        }
    }
}

/// Puts the workers' reports on a job together: the reports without data
/// are left out; none left gives no data; else the kind of the reports
/// decides, a discovery's counts and a rescan's checked and answered
/// targets are summed, and a rescan's total is that of its first report.
pub fn sum_updates(values: &Vec<ProgressReport>) -> (r: SummedProgress)
    requires
        one_kind(values@),
        report_totals(values@).0 <= u32::MAX,
        report_totals(values@).1 <= u32::MAX,
        report_totals(values@).2 <= u32::MAX,
        report_totals(values@).3 <= usize::MAX,
        report_totals(values@).4 <= usize::MAX,
    ensures
        data_places(values@).len() == 0 ==> r is NoData,
        data_places(values@).len() > 0 && values@[data_places(values@)[0] as int] is Discover ==> (
        r matches SummedProgress::Discover { counts, places } && places@ == data_places(values@)
            && counts.founded == report_totals(values@).0 && counts.parsing_now == report_totals(
            values@,
        ).1 && counts.successful == report_totals(values@).2),
        data_places(values@).len() > 0 && values@[data_places(values@)[0] as int] is Rescan ==> (
        r matches SummedProgress::Rescan(p) && p.all == values@[data_places(
            values@,
        )[0] as int]->Rescan_0.all && p.checked == report_totals(values@).3 && p.successful
            == report_totals(values@).4),
{
    let ghost v = values@;
    let mut places: Vec<usize> = Vec::new();
    let mut founded: u32 = 0;
    let mut parsing: u32 = 0;
    let mut discovered: u32 = 0;
    let mut checked: usize = 0;
    let mut answered: usize = 0;
    let mut i: usize = 0;
    proof {
        assert(v.take(0) =~= Seq::<ProgressReport>::empty());
    }
    while i < values.len()
        invariant
            i <= v.len(),
            v == values@,
            places@ == data_places(v.take(i as int)),
            report_totals(v.take(i as int)) == (
                founded as nat,
                parsing as nat,
                discovered as nat,
                checked as nat,
                answered as nat,
            ),
            report_totals(v).0 <= u32::MAX,
            report_totals(v).1 <= u32::MAX,
            report_totals(v).2 <= u32::MAX,
            report_totals(v).3 <= usize::MAX,
            report_totals(v).4 <= usize::MAX,
        decreases v.len() - i,
    {
        proof {
            lemma_take_step(v, i as int);
            lemma_totals_prefix(v, i + 1);
        }
        match values[i] {
            ProgressReport::NoData => {},
            ProgressReport::Discover(c) => {
                places.push(i);
                founded = founded + c.founded;
                parsing = parsing + c.parsing_now;
                discovered = discovered + c.successful;
            },
            ProgressReport::Rescan(p) => {
                places.push(i);
                checked = checked + p.checked;
                answered = answered + p.successful;
            },
        }
        i = i + 1;
    }
    proof {
        assert(v.take(i as int) =~= v);
        lemma_data_places_in(v);
    }
    if places.len() == 0 {
        return SummedProgress::NoData;
    }
    match values[places[0]] {
        ProgressReport::Rescan(first) => SummedProgress::Rescan(
            RescanJobProgress { all: first.all, checked, successful: answered },
        ),
        _ => {
            proof {
                assert forall|k: int| 0 <= k < v.len() implies !(#[trigger] v[k] is Rescan) by {
                    if !(v[k] is NoData) {
                        assert(!(v[places@[0] as int] is NoData));
                    }
                }
            }
            SummedProgress::Discover {
                counts: DiscoverCounts { founded, parsing_now: parsing, successful: discovered },
                places,
            }
        },
    }
}

} // verus!
