//! Socket addresses.

use vstd::prelude::*;

verus! {

/// An IPv4 address `a.b.c.d`.
#[derive(Clone, Copy, Debug, PartialEq, Eq, Structural)]
pub struct Ipv4Addr {
    pub a: u8,
    pub b: u8,
    pub c: u8,
    pub d: u8,
}

/// An IPv6 address, as its eight 16-bit segments.
#[derive(Clone, Copy, Debug, PartialEq, Eq, Structural)]
pub struct Ipv6Addr {
    pub s0: u16,
    pub s1: u16,
    pub s2: u16,
    pub s3: u16,
    pub s4: u16,
    pub s5: u16,
    pub s6: u16,
    pub s7: u16,
}

/// The address of one end of a path.
#[allow(inconsistent_fields)]
#[derive(Clone, Copy, Debug, PartialEq, Eq, Structural)]
pub enum SocketAddr {
    V4 { ip: Ipv4Addr, port: u16 },
    V6 { ip: Ipv6Addr, port: u16, flowinfo: u32, scope_id: u32 },
}

/// The two bytes of a 16-bit segment in network order.
pub open spec fn segment_octets(s: u16) -> Seq<u8> {
    seq![(s / 256) as u8, (s % 256) as u8]
}

/// The two addresses are of the same IP version.
pub open spec fn same_family(x: SocketAddr, y: SocketAddr) -> bool {
    (x is V4) == (y is V4)
}

impl SocketAddr {
    /// The bytes of the IP address in network order: four or sixteen.
    pub open spec fn octets(self) -> Seq<u8> {
        match self {
            SocketAddr::V4 { ip, .. } => seq![ip.a, ip.b, ip.c, ip.d],
            SocketAddr::V6 { ip, .. } => segment_octets(ip.s0) + segment_octets(ip.s1)
                + segment_octets(ip.s2) + segment_octets(ip.s3) + segment_octets(ip.s4)
                + segment_octets(ip.s5) + segment_octets(ip.s6) + segment_octets(ip.s7),
        }
    }

    pub fn is_ipv4(&self) -> (r: bool)
        ensures
            r == (*self is V4),
    {
        match self {
            SocketAddr::V4 { .. } => true,
            SocketAddr::V6 { .. } => false,
        }
    }

    pub fn is_ipv6(&self) -> (r: bool)
        ensures
            r == (*self is V6),
    {
        !self.is_ipv4()
    }

    /// Tells whether `other` is of the same IP version.
    pub fn same_family(&self, other: &SocketAddr) -> (r: bool)
        ensures
            r == same_family(*self, *other),
    {
        (self.is_ipv4() && other.is_ipv4()) || (self.is_ipv6() && other.is_ipv6())
    }

    /// The bytes of the IP address in network order.
    pub fn ip_octets(&self) -> (r: Vec<u8>)
        ensures
            r@ == self.octets(),
            r@.len() == if *self is V4 { 4nat } else { 16nat },
    {
        match self {
            SocketAddr::V4 { ip, .. } => {
                let octets: Vec<u8> = vec![ip.a, ip.b, ip.c, ip.d];
                assert(octets@ =~= self.octets());
                octets
            },
            SocketAddr::V6 { ip, .. } => {
                let octets: Vec<u8> = vec![
                    (ip.s0 / 256) as u8, (ip.s0 % 256) as u8, (ip.s1 / 256) as u8, (ip.s1 % 256) as u8,
                    (ip.s2 / 256) as u8, (ip.s2 % 256) as u8, (ip.s3 / 256) as u8, (ip.s3 % 256) as u8,
                    (ip.s4 / 256) as u8, (ip.s4 % 256) as u8, (ip.s5 / 256) as u8, (ip.s5 % 256) as u8,
                    (ip.s6 / 256) as u8, (ip.s6 % 256) as u8, (ip.s7 / 256) as u8, (ip.s7 % 256) as u8,
                ];
                assert(octets@ =~= self.octets());
                octets
            },
        }
    }

    /// The address that lets the system choose the local interface and port
    /// for talking to `peer`: `0.0.0.0:0` or `[::]:0`.
    pub fn unspecified_for(peer: &SocketAddr) -> (r: SocketAddr)
        ensures
            r == unspecified_for(*peer),
    {
        match peer {
            SocketAddr::V4 { .. } => SocketAddr::V4 {
                ip: Ipv4Addr { a: 0, b: 0, c: 0, d: 0 },
                port: 0,
            },
            SocketAddr::V6 { .. } => SocketAddr::V6 {
                ip: Ipv6Addr { s0: 0, s1: 0, s2: 0, s3: 0, s4: 0, s5: 0, s6: 0, s7: 0 },
                port: 0,
                flowinfo: 0,
                scope_id: 0,
            },
        }
    }
}

/// The wildcard address of the IP version of `peer`, with port 0.
pub open spec fn unspecified_for(peer: SocketAddr) -> SocketAddr {
    match peer {
        SocketAddr::V4 { .. } => SocketAddr::V4 {
            ip: Ipv4Addr { a: 0, b: 0, c: 0, d: 0 },
            port: 0,
        },
        SocketAddr::V6 { .. } => SocketAddr::V6 {
            ip: Ipv6Addr { s0: 0, s1: 0, s2: 0, s3: 0, s4: 0, s5: 0, s6: 0, s7: 0 },
            port: 0,
            flowinfo: 0,
            scope_id: 0,
        },
    }
}

/// The addresses of `addrs` that are of the IP version of `like`, in order.
pub open spec fn of_family(addrs: Seq<SocketAddr>, like: SocketAddr) -> Seq<SocketAddr> {
    addrs.filter(|a: SocketAddr| same_family(a, like))
}

pub open spec fn differs(x: SocketAddr, y: SocketAddr) -> bool {
    x != y
}

/// The addresses of `addrs` that differ from `excluded`, in order.
pub open spec fn all_but(addrs: Seq<SocketAddr>, excluded: SocketAddr) -> Seq<SocketAddr> {
    addrs.filter(|a: SocketAddr| differs(a, excluded))
}

/// Picks the addresses of the IP version of `like`.
pub fn pick_family(addrs: &Vec<SocketAddr>, like: &SocketAddr) -> (r: Vec<SocketAddr>)
    ensures
        r@ == of_family(addrs@, *like),
        r@.len() <= addrs@.len(),
{
    let mut picked: Vec<SocketAddr> = Vec::new();
    let ghost pred = |a: SocketAddr| same_family(a, *like);
    assert(addrs@.take(0).filter(pred) =~= Seq::<SocketAddr>::empty()) by {
        reveal(Seq::filter);
    }
    for i in 0..addrs.len()
        invariant
            pred == (|a: SocketAddr| same_family(a, *like)),
            picked@ == addrs@.take(i as int).filter(pred),
            picked@.len() <= i,
    {
        assert(addrs@.take(i + 1).drop_last() =~= addrs@.take(i as int));
        assert(addrs@.take(i + 1).last() == addrs@[i as int]);
        reveal(Seq::filter);
        if addrs[i].same_family(like) {
            picked.push(addrs[i]);
        }
    }
    assert(addrs@.take(addrs@.len() as int) =~= addrs@);
    picked
}

/// The address that a connection starts from: the first local one of the IP
/// version of the peer, or else one that lets the system choose.
pub open spec fn first_local(peer: SocketAddr, addrs: Seq<SocketAddr>) -> SocketAddr {
    let locals = of_family(addrs, peer);
    if locals.len() > 0 {
        locals[0]
    } else {
        unspecified_for(peer)
    }
}

/// Picks the local address that a connection to `peer` starts from.
pub fn pick_first(addrs: &Vec<SocketAddr>, peer: &SocketAddr) -> (r: SocketAddr)
    ensures
        r == first_local(*peer, addrs@),
{
    let locals = pick_family(addrs, peer);
    if locals.len() > 0 {
        locals[0]
    } else {
        SocketAddr::unspecified_for(peer)
    }
}

/// The paths from each of `addrs` to `peer`.
pub open spec fn all_to(addrs: Seq<SocketAddr>, peer: SocketAddr) -> Seq<(SocketAddr, SocketAddr)> {
    addrs.map_values(|a: SocketAddr| (a, peer))
}

/// Lists the paths from each of `addrs` to `peer`.
pub fn paths_to(addrs: &Vec<SocketAddr>, peer: &SocketAddr) -> (r: Vec<(SocketAddr, SocketAddr)>)
    ensures
        r@ == all_to(addrs@, *peer),
{
    let mut paths: Vec<(SocketAddr, SocketAddr)> = Vec::new();
    for i in 0..addrs.len()
        invariant
            paths@ =~= all_to(addrs@, *peer).take(i as int),
    {
        paths.push((addrs[i], *peer));
    }
    paths
}

/// Drops every occurrence of `excluded`.
pub fn drop_address(addrs: &Vec<SocketAddr>, excluded: &SocketAddr) -> (r: Vec<SocketAddr>)
    ensures
        r@ == all_but(addrs@, *excluded),
        r@.len() <= addrs@.len(),
{
    let mut kept: Vec<SocketAddr> = Vec::new();
    let ghost pred = |a: SocketAddr| differs(a, *excluded);
    assert(addrs@.take(0).filter(pred) =~= Seq::<SocketAddr>::empty()) by {
        reveal(Seq::filter);
    }
    for i in 0..addrs.len()
        invariant
            pred == (|a: SocketAddr| differs(a, *excluded)),
            kept@ == addrs@.take(i as int).filter(pred),
            kept@.len() <= i,
    {
        assert(addrs@.take(i + 1).drop_last() =~= addrs@.take(i as int));
        assert(addrs@.take(i + 1).last() == addrs@[i as int]);
        reveal(Seq::filter);
        if addrs[i] != *excluded {
            kept.push(addrs[i]);
        }
    }
    assert(addrs@.take(addrs@.len() as int) =~= addrs@);
    kept
}

/// The local addresses that the connection can use: the one it starts from,
/// then the others.
pub open spec fn usable(local: SocketAddr, sources: Seq<SocketAddr>) -> Seq<SocketAddr> {
    seq![local] + all_but(sources, local)
}

/// Lists `local` and then those of `sources` that differ from it.
pub fn usable_addresses(local: &SocketAddr, sources: &Vec<SocketAddr>) -> (r: Vec<SocketAddr>)
    ensures
        r@ == usable(*local, sources@),
{
    let mut others = drop_address(sources, local);
    let mut addrs: Vec<SocketAddr> = vec![*local];
    addrs.append(&mut others);
    addrs
}

/// Tells whether there are more addresses than active connection identifiers
/// that the configuration allows for.
pub fn exceeds_cid_limit(addrs: &Vec<SocketAddr>, max_active_cids: u64) -> (r: bool)
    ensures
        r == (addrs@.len() > max_active_cids),
{
    addrs.len() as u64 > max_active_cids
}

/// Pairs the elements of `locals` with those of `peers` in order.
pub open spec fn pair_up(locals: Seq<SocketAddr>, peers: Seq<SocketAddr>) -> Seq<
    (SocketAddr, SocketAddr),
> {
    Seq::new(locals.len(), |i: int| (locals[i], peers[i]))
}

/// Pairs each of `locals` with the element of `peers` at its position.
pub fn pair_addresses(locals: &Vec<SocketAddr>, peers: &Vec<SocketAddr>) -> (r: Vec<
    (SocketAddr, SocketAddr),
>)
    requires
        locals@.len() <= peers@.len(),
    ensures
        r@ == pair_up(locals@, peers@),
{
    let mut tuples: Vec<(SocketAddr, SocketAddr)> = Vec::new();
    for i in 0..locals.len()
        invariant
            locals@.len() <= peers@.len(),
            tuples@ =~= pair_up(locals@, peers@).take(i as int),
    {
        tuples.push((locals[i], peers[i]));
    }
    tuples
}

/// What is picked by IP version is of that version, and was there before.
pub proof fn picked_addresses_are_of_the_family(addrs: Seq<SocketAddr>, like: SocketAddr)
    ensures
        forall|i: int|
            0 <= i < of_family(addrs, like).len() ==> {
                &&& same_family(#[trigger] of_family(addrs, like)[i], like)
                &&& addrs.contains(of_family(addrs, like)[i])
            },
{
    let pred = |a: SocketAddr| same_family(a, like);
    assert forall|i: int| 0 <= i < of_family(addrs, like).len() implies same_family(
        #[trigger] of_family(addrs, like)[i],
        like,
    ) && addrs.contains(of_family(addrs, like)[i]) by {
        addrs.lemma_filter_pred(pred, i);
        assert(addrs.filter(pred).contains(addrs.filter(pred)[i]));
        addrs.lemma_filter_contains_rev(pred, addrs.filter(pred)[i]);
    }
}

proof fn lemma_filter_distinct(addrs: Seq<SocketAddr>, pred: spec_fn(SocketAddr) -> bool)
    requires
        addrs.no_duplicates(),
    ensures
        addrs.filter(pred).no_duplicates(),
    decreases addrs.len(),
{
    reveal(Seq::filter);
    if addrs.len() > 0 {
        let init = addrs.drop_last();
        lemma_filter_distinct(init, pred);
        if init.filter(pred).contains(addrs.last()) {
            init.lemma_filter_contains_rev(pred, addrs.last());
            let i = choose|i: int| 0 <= i < init.len() && init[i] == addrs.last();
            assert(addrs[i] == addrs[addrs.len() - 1]);
        }
    }
}

/// The usable addresses are the one that the connection starts from and the
/// sources. Where no source occurs twice, no usable address does.
pub proof fn usable_addresses_are_distinct(local: SocketAddr, sources: Seq<SocketAddr>)
    ensures
        usable(local, sources)[0] == local,
        forall|a: SocketAddr| #[trigger]
            usable(local, sources).contains(a) <==> a == local || sources.contains(a),
        sources.no_duplicates() ==> usable(local, sources).no_duplicates(),
{
    let pred = |a: SocketAddr| differs(a, local);
    let others = all_but(sources, local);
    let all = usable(local, sources);
    assert forall|a: SocketAddr| #[trigger] all.contains(a) <==> a == local || sources.contains(
        a,
    ) by {
        if all.contains(a) {
            let i = choose|i: int| 0 <= i < all.len() && all[i] == a;
            if i > 0 {
                assert(others.contains(others[i - 1]));
                sources.lemma_filter_contains_rev(pred, a);
            }
        }
        if sources.contains(a) && a != local {
            let i = choose|i: int| 0 <= i < sources.len() && sources[i] == a;
            sources.lemma_filter_contains(pred, i);
            let k = choose|k: int| 0 <= k < others.len() && others[k] == a;
            assert(all[k + 1] == a);
        }
        assert(all[0] == local);
    }
    if sources.no_duplicates() {
        lemma_filter_distinct(sources, pred);
        assert forall|i: int, j: int|
            0 <= i < all.len() && 0 <= j < all.len() && i != j implies all[i] != all[j] by {
            if i > 0 {
                sources.lemma_filter_pred(pred, i - 1);
            }
            if j > 0 {
                sources.lemma_filter_pred(pred, j - 1);
            }
        }
    }
}

/// Two addresses are of the same IP version if both are IPv4 or both are IPv6.
pub proof fn families_are_ip_versions(x: SocketAddr, y: SocketAddr)
    ensures
        x is V4 && y is V4 ==> same_family(x, y),
        x is V6 && y is V6 ==> same_family(x, y),
        x is V4 && y is V6 ==> !same_family(x, y),
        x is V6 && y is V4 ==> !same_family(x, y),
{
}

/// The bytes of an address, read in network order, are the address. Two addresses have the
/// same bytes if and only if they are of the same IP version and differ at most in what
/// comes besides the IP address.
pub proof fn octets_are_the_address(x: SocketAddr, y: SocketAddr)
    ensures
        x matches SocketAddr::V4 { ip, .. } ==> {
            let o = x.octets();
            &&& o.len() == 4
            &&& o[0] == ip.a && o[1] == ip.b && o[2] == ip.c && o[3] == ip.d
        },
        x matches SocketAddr::V6 { ip, .. } ==> {
            let o = x.octets();
            &&& o.len() == 16
            &&& o[0] * 256 + o[1] == ip.s0
            &&& o[2] * 256 + o[3] == ip.s1
            &&& o[4] * 256 + o[5] == ip.s2
            &&& o[6] * 256 + o[7] == ip.s3
            &&& o[8] * 256 + o[9] == ip.s4
            &&& o[10] * 256 + o[11] == ip.s5
            &&& o[12] * 256 + o[13] == ip.s6
            &&& o[14] * 256 + o[15] == ip.s7
        },
        x.octets() == y.octets() <==> match (x, y) {
            (SocketAddr::V4 { ip: one, .. }, SocketAddr::V4 { ip: other, .. }) => one == other,
            (SocketAddr::V6 { ip: one, .. }, SocketAddr::V6 { ip: other, .. }) => one == other,
            _ => false,
        },
{
    lemma_octets(x);
    lemma_octets(y);
    if x.octets() == y.octets() {
        assert(x.octets().len() == y.octets().len());
    }
}

proof fn lemma_octets(x: SocketAddr)
    ensures
        x matches SocketAddr::V4 { ip, .. } ==> {
            let o = x.octets();
            &&& o.len() == 4
            &&& o[0] == ip.a && o[1] == ip.b && o[2] == ip.c && o[3] == ip.d
        },
        x matches SocketAddr::V6 { ip, .. } ==> {
            let o = x.octets();
            &&& o.len() == 16
            &&& o[0] * 256 + o[1] == ip.s0
            &&& o[2] * 256 + o[3] == ip.s1
            &&& o[4] * 256 + o[5] == ip.s2
            &&& o[6] * 256 + o[7] == ip.s3
            &&& o[8] * 256 + o[9] == ip.s4
            &&& o[10] * 256 + o[11] == ip.s5
            &&& o[12] * 256 + o[13] == ip.s6
            &&& o[14] * 256 + o[15] == ip.s7
        },
{
}

/// The address that lets the system choose is of the IP version of the peer and all zero.
pub proof fn unspecified_addresses_are_zero(peer: SocketAddr)
    ensures
        unspecified_for(peer) is V4 <==> peer is V4,
        unspecified_for(peer) matches SocketAddr::V4 { port, .. } ==> port == 0,
        unspecified_for(peer) matches SocketAddr::V6 { port, flowinfo, scope_id, .. } ==> port == 0
            && flowinfo == 0 && scope_id == 0,
        forall|i: int|
            0 <= i < unspecified_for(peer).octets().len() ==> #[trigger] unspecified_for(
                peer,
            ).octets()[i] == 0,
{
}

/// Addresses are picked one by one, in order: an address is picked if and only if it is of
/// the IP version that is asked for, whatever the others are.
pub proof fn addresses_are_picked_one_by_one(
    addrs: Seq<SocketAddr>,
    a: SocketAddr,
    like: SocketAddr,
)
    ensures
        of_family(Seq::empty(), like) == Seq::<SocketAddr>::empty(),
        of_family(addrs.push(a), like) == if (a is V4 && like is V4) || (a is V6 && like is V6) {
            of_family(addrs, like).push(a)
        } else {
            of_family(addrs, like)
        },
        all_but(Seq::empty(), like) == Seq::<SocketAddr>::empty(),
        all_but(addrs.push(a), like) == if a == like {
            all_but(addrs, like)
        } else {
            all_but(addrs, like).push(a)
        },
{
    reveal(Seq::filter);
    assert(addrs.push(a).drop_last() =~= addrs);
    assert(of_family(Seq::empty(), like) =~= Seq::<SocketAddr>::empty());
    assert(all_but(Seq::empty(), like) =~= Seq::<SocketAddr>::empty());
}

/// The usable addresses start with the one that the connection starts from. Each source that
/// differs from it follows, in order.
pub proof fn usable_addresses_are_listed_one_by_one(
    local: SocketAddr,
    sources: Seq<SocketAddr>,
    a: SocketAddr,
)
    ensures
        usable(local, Seq::empty()) == seq![local],
        usable(local, sources.push(a)) == if a == local {
            usable(local, sources)
        } else {
            usable(local, sources).push(a)
        },
{
    addresses_are_picked_one_by_one(sources, a, local);
    assert(usable(local, Seq::empty()) =~= seq![local]);
    if a != local {
        assert(usable(local, sources.push(a)) =~= usable(local, sources).push(a));
    }
}

/// A connection starts from the first address of the IP version of its peer. A further
/// address matters only if there is none before it.
pub proof fn connections_start_from_the_first(
    peer: SocketAddr,
    addrs: Seq<SocketAddr>,
    a: SocketAddr,
)
    ensures
        first_local(peer, Seq::empty()) == unspecified_for(peer),
        first_local(peer, addrs.push(a)) == if (a is V4) == (peer is V4) && (forall|i: int|
            0 <= i < addrs.len() ==> (#[trigger] addrs[i] is V4) != (peer is V4)) {
            a
        } else {
            first_local(peer, addrs)
        },
{
    addresses_are_picked_one_by_one(addrs, a, peer);
    picked_addresses_are_of_the_family(addrs, peer);
    let locals = of_family(addrs, peer);
    if locals.len() > 0 {
        assert(addrs.contains(locals[0]));
        assert(same_family(locals[0], peer));
    }
    assert forall|i: int| 0 <= i < addrs.len() && (#[trigger] addrs[i] is V4) == (peer
        is V4) implies locals.len() > 0 by {
        addrs.lemma_filter_contains(|b: SocketAddr| same_family(b, peer), i);
    }
}

/// Addresses are paired by their positions.
pub proof fn addresses_are_paired_by_position(
    locals: Seq<SocketAddr>,
    peers: Seq<SocketAddr>,
    peer: SocketAddr,
)
    ensures
        pair_up(locals, peers).len() == locals.len(),
        forall|i: int|
            0 <= i < locals.len() ==> #[trigger] pair_up(locals, peers)[i] == (locals[i], peers[i]),
        all_to(locals, peer).len() == locals.len(),
        forall|i: int|
            0 <= i < locals.len() ==> #[trigger] all_to(locals, peer)[i] == (locals[i], peer),
{
}

} // verus!
