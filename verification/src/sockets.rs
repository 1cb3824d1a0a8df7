//! The sockets of a client.

use crate::addr::{drop_address, pair_addresses, pick_family, SocketAddr};
use crate::args::{ClientArgs, CommonArgs};
use crate::external::{slab_get, slab_insert, slab_new};
use slab::Slab;
use std::collections::HashMap;
use vstd::prelude::*;

verus! {

/// The addresses of the server that the paths lead to: the one that is
/// connected to, then the others of its IP version.
pub open spec fn server_peers(connect_to: SocketAddr, servers: Seq<SocketAddr>) -> Seq<SocketAddr> {
    seq![connect_to] + crate::addr::all_but(
        crate::addr::of_family(servers, connect_to),
        connect_to,
    )
}

/// There is one local address for each address of the server, one of them is
/// of the IP version that is connected to, and none of those is left without
/// a peer.
pub open spec fn sockets_pair_up(
    connect_to: SocketAddr,
    addrs: Seq<SocketAddr>,
    servers: Seq<SocketAddr>,
) -> bool {
    let locals = crate::addr::of_family(addrs, connect_to);
    &&& addrs.len() == servers.len() + 1
    &&& 0 < locals.len() <= server_peers(connect_to, servers).len()
}

fn peers_of(connect_to: &SocketAddr, servers: &Vec<SocketAddr>) -> (r: Vec<SocketAddr>)
    ensures
        r@ == server_peers(*connect_to, servers@),
{
    let mut others = drop_address(&pick_family(servers, connect_to), connect_to);
    let mut peers: Vec<SocketAddr> = vec![*connect_to];
    peers.append(&mut others);
    peers
}

/// Tells whether the addresses of the client and the server pair up.
pub fn can_plan_sockets(
    connect_to: &SocketAddr,
    args: &ClientArgs,
    common_args: &CommonArgs,
) -> (r: bool)
    ensures
        r == sockets_pair_up(*connect_to, args.addrs@, common_args.server_addresses@),
{
    let locals = pick_family(&args.addrs, connect_to);
    let peers = peers_of(connect_to, &common_args.server_addresses);
    locals.len() > 0 && args.addrs.len() - 1 == common_args.server_addresses.len() && locals.len()
        <= peers.len()
}

/// The local address of each socket with the address that it talks to. The
/// connection starts on the first.
pub fn plan_sockets(connect_to: &SocketAddr, args: &ClientArgs, common_args: &CommonArgs) -> (r:
    Vec<(SocketAddr, SocketAddr)>)
    requires
        sockets_pair_up(*connect_to, args.addrs@, common_args.server_addresses@),
    ensures
        r@ == crate::addr::pair_up(
            crate::addr::of_family(args.addrs@, *connect_to),
            server_peers(*connect_to, common_args.server_addresses@),
        ),
        r@.len() > 0,
        r@[0] == (crate::addr::of_family(args.addrs@, *connect_to)[0], *connect_to),
{
    let locals = pick_family(&args.addrs, connect_to);
    let peers = peers_of(connect_to, &common_args.server_addresses);
    pair_addresses(&locals, &peers)
}

/// The sockets of a plan talk to addresses of their own IP version. The first
/// talks to the address that is connected to, and no other one does.
pub proof fn planned_sockets_are_of_one_family(
    connect_to: SocketAddr,
    addrs: Seq<SocketAddr>,
    servers: Seq<SocketAddr>,
)
    requires
        sockets_pair_up(connect_to, addrs, servers),
    ensures
        ({
            let plan = crate::addr::pair_up(
                crate::addr::of_family(addrs, connect_to),
                server_peers(connect_to, servers),
            );
            &&& plan.len() > 0
            &&& forall|i: int|
                0 <= i < plan.len() ==> {
                    &&& crate::addr::same_family((#[trigger] plan[i]).0, connect_to)
                    &&& crate::addr::same_family(plan[i].1, connect_to)
                    &&& addrs.contains(plan[i].0)
                    &&& i == 0 <==> plan[i].1 == connect_to
                    &&& i > 0 ==> servers.contains(plan[i].1)
                }
        }),
{
    crate::addr::picked_addresses_are_of_the_family(addrs, connect_to);
    crate::addr::picked_addresses_are_of_the_family(servers, connect_to);
    let family = crate::addr::of_family(servers, connect_to);
    let others = crate::addr::all_but(family, connect_to);
    let pred = |a: SocketAddr| crate::addr::differs(a, connect_to);
    assert forall|i: int| 0 <= i < others.len() implies (#[trigger] others[i]) != connect_to
        && crate::addr::same_family(others[i], connect_to) && servers.contains(others[i]) by {
        family.lemma_filter_pred(pred, i);
        assert(others.contains(others[i]));
        family.lemma_filter_contains_rev(pred, others[i]);
        let k = choose|k: int| 0 <= k < family.len() && family[k] == others[i];
        assert(family[k] == others[i]);
    }
}

/// What a table of sockets says.
#[verifier::ext_equal]
pub struct SocketTableView {
    /// The position of the socket of each token.
    pub sockets: Map<usize, usize>,
    /// The token of the socket that is bound to each local address.
    pub tokens: Map<SocketAddr, usize>,
    /// The address that the socket of each token talks to.
    pub peers: Map<usize, SocketAddr>,
}

impl SocketTableView {
    /// The tokens are the numbers from zero. Each has a peer, and the token of
    /// each local address is one of them.
    pub open spec fn consistent(self) -> bool {
        &&& self.sockets.dom().finite()
        &&& forall|t: usize|
            #![trigger self.sockets.contains_key(t)]
            self.sockets.contains_key(t) <==> t < self.sockets.len()
        &&& forall|t: usize|
            #![trigger self.peers.contains_key(t)]
            self.peers.contains_key(t) <==> t < self.sockets.len()
        &&& forall|a: SocketAddr| #[trigger]
            self.tokens.contains_key(a) ==> self.tokens[a] < self.sockets.len()
    }
}

/// The value that goes with each key of a list of pairs.
pub open spec fn assoc(pairs: Seq<(SocketAddr, usize)>) -> Map<SocketAddr, usize> {
    Map::new(
        |a: SocketAddr| exists|i: int| 0 <= i < pairs.len() && (#[trigger] pairs[i]).0 == a,
        |a: SocketAddr| pairs[choose|i: int| 0 <= i < pairs.len() && (#[trigger] pairs[i]).0 == a].1,
    )
}

/// No key occurs twice.
pub open spec fn distinct_keys(pairs: Seq<(SocketAddr, usize)>) -> bool {
    forall|i: int, j: int| 0 <= i < j < pairs.len() ==> pairs[i].0 != pairs[j].0
}

/// The sockets of a client by token, by local address and by peer.
pub struct SocketTable {
    sockets: Slab<usize>,
    tokens: Vec<(SocketAddr, usize)>,
    peers: HashMap<usize, SocketAddr>,
}

impl View for SocketTable {
    type V = SocketTableView;

    closed spec fn view(&self) -> SocketTableView {
        SocketTableView {
            sockets: crate::external::slab_entries(self.sockets),
            tokens: assoc(self.tokens@),
            peers: self.peers@,
        }
    }
}

impl SocketTable {
    /// Sockets are only added, and local addresses occur once.
    pub closed spec fn well_formed(&self) -> bool {
        &&& self@.consistent()
        &&& distinct_keys(self.tokens@)
        &&& crate::external::slab_freed(self.sockets).len() == 0
    }

    pub fn new() -> (r: SocketTable)
        ensures
            r.well_formed(),
            r@.sockets == Map::<usize, usize>::empty(),
            r@.tokens == Map::<SocketAddr, usize>::empty(),
            r@.peers == Map::<usize, SocketAddr>::empty(),
    {
        broadcast use vstd::std_specs::hash::group_hash_axioms;

        let table = SocketTable { sockets: slab_new(), tokens: Vec::new(), peers: HashMap::new() };
        assert(assoc(table.tokens@) =~= Map::empty());
        table
    }

    /// Adds the socket at position `socket`, which is bound to `local` and
    /// talks to `peer`, and gives its token.
    pub fn register(&mut self, socket: usize, local: SocketAddr, peer: SocketAddr) -> (token: usize)
        requires
            old(self).well_formed(),
        ensures
            final(self).well_formed(),
            token == old(self)@.sockets.len(),
            !old(self)@.sockets.contains_key(token),
            final(self)@.sockets == old(self)@.sockets.insert(token, socket),
            final(self)@.tokens == old(self)@.tokens.insert(local, token),
            final(self)@.peers == old(self)@.peers.insert(token, peer),
    {
        broadcast use vstd::std_specs::hash::group_hash_axioms;

        let token = slab_insert(&mut self.sockets, socket);
        self.bind(local, token);
        self.peers.insert(token, peer);
        proof {
            let before = old(self)@;
            assert(before.consistent());
            assert(self@.sockets.len() == token + 1);
            assert(self@.tokens == before.tokens.insert(local, token));
            assert(self@.peers == before.peers.insert(token, peer));
            assert(self@.consistent()) by {
                assert forall|t: usize| self@.sockets.contains_key(t) <==> t
                    < self@.sockets.len() by {
                    assert(before.sockets.contains_key(t) <==> t < before.sockets.len());
                }
                assert forall|t: usize| self@.peers.contains_key(t) <==> t
                    < self@.sockets.len() by {
                    assert(before.peers.contains_key(t) <==> t < before.sockets.len());
                }
            }
        }
        token
    }

    fn bind(&mut self, local: SocketAddr, token: usize)
        requires
            distinct_keys(old(self).tokens@),
        ensures
            distinct_keys(final(self).tokens@),
            assoc(final(self).tokens@) == assoc(old(self).tokens@).insert(local, token),
            final(self).sockets == old(self).sockets,
            final(self).peers == old(self).peers,
    {
        let ghost before = self.tokens@;
        match self.position(&local) {
            Some(i) => {
                self.tokens.set(i, (local, token));
                proof {
                    lemma_assoc_set(before, i as int, local, token);
                }
            },
            None => {
                self.tokens.push((local, token));
                proof {
                    lemma_assoc_push(before, local, token);
                }
            },
        }
    }

    fn position(&self, local: &SocketAddr) -> (r: Option<usize>)
        requires
            distinct_keys(self.tokens@),
        ensures
            match r {
                Some(i) => {
                    &&& i < self.tokens@.len()
                    &&& self.tokens@[i as int].0 == *local
                    &&& assoc(self.tokens@).contains_key(*local)
                    &&& assoc(self.tokens@)[*local] == self.tokens@[i as int].1
                },
                None => !assoc(self.tokens@).contains_key(*local),
            },
    {
        for i in 0..self.tokens.len()
            invariant
                distinct_keys(self.tokens@),
                forall|j: int| 0 <= j < i ==> (#[trigger] self.tokens@[j]).0 != *local,
        {
            if self.tokens[i].0 == *local {
                proof {
                    lemma_assoc_at(self.tokens@, i as int);
                }
                return Some(i);
            }
        }
        None
    }

    /// The token of the socket that is bound to `local`.
    pub fn token_of(&self, local: &SocketAddr) -> (r: Option<usize>)
        requires
            self.well_formed(),
        ensures
            r == (if self@.tokens.contains_key(*local) {
                Some(self@.tokens[*local])
            } else {
                None
            }),
    {
        match self.position(local) {
            Some(i) => Some(self.tokens[i].1),
            None => None,
        }
    }

    /// The address that the socket of `token` talks to.
    pub fn peer_of(&self, token: usize) -> (r: Option<SocketAddr>)
        ensures
            r == (if self@.peers.contains_key(token) {
                Some(self@.peers[token])
            } else {
                None
            }),
    {
        broadcast use vstd::std_specs::hash::group_hash_axioms;

        match self.peers.get(&token) {
            Some(peer) => Some(*peer),
            None => None,
        }
    }

    /// The position of the socket of `token`.
    pub fn socket_of(&self, token: usize) -> (r: Option<usize>)
        ensures
            r == (if self@.sockets.contains_key(token) {
                Some(self@.sockets[token])
            } else {
                None
            }),
    {
        slab_get(&self.sockets, token)
    }

    /// The peer to probe from `local`: the one of the socket that is bound to
    /// it.
    pub fn peer_from(&self, local: &SocketAddr) -> (r: Option<SocketAddr>)
        requires
            self.well_formed(),
        ensures
            r == (if self@.tokens.contains_key(*local) && self@.peers.contains_key(
                self@.tokens[*local],
            ) {
                Some(self@.peers[self@.tokens[*local]])
            } else {
                None
            }),
    {
        match self.token_of(local) {
            Some(token) => self.peer_of(token),
            None => None,
        }
    }

    /// The paths to probe from `addrs`, each to the peer of the socket that is
    /// bound to its address. There are none where an address has no socket.
    pub fn paths_from(&self, addrs: &Vec<SocketAddr>) -> (r: Option<Vec<(SocketAddr, SocketAddr)>>)
        requires
            self.well_formed(),
        ensures
            match r {
                Some(paths) => {
                    &&& paths@.len() == addrs@.len()
                    &&& forall|i: int|
                        0 <= i < addrs@.len() ==> {
                            &&& self@.tokens.contains_key(#[trigger] addrs@[i])
                            &&& paths@[i] == (addrs@[i], self@.peers[self@.tokens[addrs@[i]]])
                        }
                },
                None => exists|i: int|
                    0 <= i < addrs@.len() && !self@.tokens.contains_key(#[trigger] addrs@[i]),
            },
    {
        let mut paths: Vec<(SocketAddr, SocketAddr)> = Vec::new();
        for i in 0..addrs.len()
            invariant
                self.well_formed(),
                paths@.len() == i,
                forall|j: int|
                    0 <= j < i ==> {
                        &&& self@.tokens.contains_key(#[trigger] addrs@[j])
                        &&& paths@[j] == (addrs@[j], self@.peers[self@.tokens[addrs@[j]]])
                    },
        {
            match self.peer_from(&addrs[i]) {
                Some(peer) => {
                    paths.push((addrs[i], peer));
                },
                None => {
                    assert(!self@.tokens.contains_key(addrs@[i as int]));
                    return None;
                },
            }
        }
        Some(paths)
    }

    /// The local addresses that sockets are bound to.
    pub fn sources(&self) -> (r: Vec<SocketAddr>)
        requires
            self.well_formed(),
        ensures
            r@.no_duplicates(),
            forall|a: SocketAddr| r@.contains(a) <==> self@.tokens.contains_key(a),
    {
        let mut sources: Vec<SocketAddr> = Vec::new();
        for i in 0..self.tokens.len()
            invariant
                sources@.len() == i,
                forall|j: int| 0 <= j < i ==> sources@[j] == (#[trigger] self.tokens@[j]).0,
        {
            sources.push(self.tokens[i].0);
        }
        proof {
            assert forall|i: int, j: int|
                0 <= i < sources@.len() && 0 <= j < sources@.len() && i != j implies sources@[i]
                != sources@[j] by {
                assert(self.tokens@[i].0 == sources@[i]);
                assert(self.tokens@[j].0 == sources@[j]);
            }
            assert forall|a: SocketAddr| sources@.contains(a) <==> self@.tokens.contains_key(a) by {
                if sources@.contains(a) {
                    let i = choose|i: int| 0 <= i < sources@.len() && sources@[i] == a;
                    assert(self.tokens@[i].0 == a);
                }
                if self@.tokens.contains_key(a) {
                    let i = choose|i: int|
                        0 <= i < self.tokens@.len() && (#[trigger] self.tokens@[i]).0 == a;
                    assert(sources@[i] == a);
                }
            }
        }
        sources
    }
}

/// The tokens of a table are the numbers from zero, each with a peer.
pub proof fn tokens_are_consecutive(table: SocketTable)
    requires
        table.well_formed(),
    ensures
        table@.consistent(),
{
}

/// The table lists sockets that are bound to `bound` and talk to the peers of
/// `plan`. Tokens are positions. An address leads to the last socket that is
/// bound to it.
pub open spec fn is_table_of(
    table: SocketTableView,
    bound: Seq<SocketAddr>,
    plan: Seq<(SocketAddr, SocketAddr)>,
) -> bool {
    &&& table.consistent()
    &&& table.sockets.len() == bound.len()
    &&& forall|t: usize|
        #![trigger table.sockets[t]]
        #![trigger table.peers[t]]
        t < bound.len() ==> table.sockets[t] == t && table.peers[t] == plan[t as int].1
    &&& forall|i: int|
        0 <= i < bound.len() ==> {
            &&& table.tokens.contains_key(#[trigger] bound[i])
            &&& table.tokens[bound[i]] >= i
        }
    &&& forall|a: SocketAddr| #[trigger]
        table.tokens.contains_key(a) ==> bound[table.tokens[a] as int] == a
}

/// Registers sockets that are bound to the addresses of `bound` and talk to
/// the peers of `plan`, in order.
pub fn create_sockets(bound: &Vec<SocketAddr>, plan: &Vec<(SocketAddr, SocketAddr)>) -> (r:
    SocketTable)
    requires
        bound@.len() == plan@.len(),
    ensures
        r.well_formed(),
        is_table_of(r@, bound@, plan@),
{
    let mut table = SocketTable::new();
    for i in 0..bound.len()
        invariant
            bound@.len() == plan@.len(),
            table.well_formed(),
            table@.consistent(),
            table@.sockets.len() == i,
            forall|t: usize|
                #![trigger table@.sockets[t]]
                #![trigger table@.peers[t]]
                t < i ==> table@.sockets[t] == t && table@.peers[t] == plan@[t as int].1,
            forall|j: int|
                0 <= j < i ==> {
                    &&& table@.tokens.contains_key(#[trigger] bound@[j])
                    &&& table@.tokens[bound@[j]] >= j
                },
            forall|a: SocketAddr| #[trigger]
                table@.tokens.contains_key(a) ==> bound@[table@.tokens[a] as int] == a,
    {
        let token = table.register(i, bound[i], plan[i].1);
        proof {
            tokens_are_consecutive(table);
        }
    }
    table
}

/// Where no two sockets are bound to the same address, the path from each
/// leads to the peer that was planned for it.
pub proof fn sockets_keep_their_peers(
    table: SocketTableView,
    bound: Seq<SocketAddr>,
    plan: Seq<(SocketAddr, SocketAddr)>,
)
    requires
        bound.len() == plan.len(),
        bound.no_duplicates(),
        is_table_of(table, bound, plan),
    ensures
        forall|i: int|
            0 <= i < bound.len() ==> {
                &&& table.tokens.contains_key(#[trigger] bound[i])
                &&& table.tokens[bound[i]] == i
                &&& table.peers.contains_key(table.tokens[bound[i]])
                &&& table.peers[table.tokens[bound[i]]] == plan[i].1
            },
{
    assert forall|i: int| 0 <= i < bound.len() implies {
        &&& table.tokens.contains_key(#[trigger] bound[i])
        &&& table.tokens[bound[i]] == i
        &&& table.peers.contains_key(table.tokens[bound[i]])
        &&& table.peers[table.tokens[bound[i]]] == plan[i].1
    } by {
        let t = table.tokens[bound[i]];
        assert(bound[t as int] == bound[i]);
        assert(table.peers.contains_key(t));
    }
}

proof fn lemma_assoc_at(pairs: Seq<(SocketAddr, usize)>, i: int)
    requires
        distinct_keys(pairs),
        0 <= i < pairs.len(),
    ensures
        assoc(pairs).contains_key(pairs[i].0),
        assoc(pairs)[pairs[i].0] == pairs[i].1,
{
    let k = choose|k: int| 0 <= k < pairs.len() && (#[trigger] pairs[k]).0 == pairs[i].0;
    assert(k == i);
}

proof fn lemma_assoc_push(pairs: Seq<(SocketAddr, usize)>, key: SocketAddr, value: usize)
    requires
        distinct_keys(pairs),
        !assoc(pairs).contains_key(key),
    ensures
        distinct_keys(pairs.push((key, value))),
        assoc(pairs.push((key, value))) == assoc(pairs).insert(key, value),
{
    let after = pairs.push((key, value));
    assert forall|i: int| 0 <= i < pairs.len() implies (#[trigger] pairs[i]).0 != key by {}
    assert(distinct_keys(after));
    assert forall|a: SocketAddr| assoc(after).contains_key(a) <==> assoc(pairs).insert(
        key,
        value,
    ).contains_key(a) by {
        if a == key {
            assert(after[pairs.len() as int].0 == a);
        }
        if assoc(pairs).contains_key(a) {
            let i = choose|i: int| 0 <= i < pairs.len() && (#[trigger] pairs[i]).0 == a;
            assert(after[i].0 == a);
        }
        if assoc(after).contains_key(a) && a != key {
            let i = choose|i: int| 0 <= i < after.len() && (#[trigger] after[i]).0 == a;
            assert(pairs[i].0 == a);
        }
    }
    assert forall|a: SocketAddr| assoc(after).contains_key(a) implies assoc(after)[a] == assoc(
        pairs,
    ).insert(key, value)[a] by {
        let i = choose|i: int| 0 <= i < after.len() && (#[trigger] after[i]).0 == a;
        lemma_assoc_at(after, i);
        if a != key {
            lemma_assoc_at(pairs, i);
        }
    }
    assert(assoc(after) =~= assoc(pairs).insert(key, value));
}

proof fn lemma_assoc_set(pairs: Seq<(SocketAddr, usize)>, at: int, key: SocketAddr, value: usize)
    requires
        distinct_keys(pairs),
        0 <= at < pairs.len(),
        pairs[at].0 == key,
    ensures
        distinct_keys(pairs.update(at, (key, value))),
        assoc(pairs.update(at, (key, value))) == assoc(pairs).insert(key, value),
{
    let after = pairs.update(at, (key, value));
    assert forall|i: int| 0 <= i < pairs.len() implies (#[trigger] after[i]).0 == pairs[i].0 by {}
    assert(distinct_keys(after));
    assert forall|a: SocketAddr| assoc(after).contains_key(a) <==> assoc(pairs).insert(
        key,
        value,
    ).contains_key(a) by {
        if a == key {
            assert(after[at].0 == a);
        }
        if assoc(pairs).contains_key(a) {
            let i = choose|i: int| 0 <= i < pairs.len() && (#[trigger] pairs[i]).0 == a;
            assert(after[i].0 == a);
        }
        if assoc(after).contains_key(a) {
            let i = choose|i: int| 0 <= i < after.len() && (#[trigger] after[i]).0 == a;
            assert(pairs[i].0 == a);
        }
    }
    assert forall|a: SocketAddr| assoc(after).contains_key(a) implies assoc(after)[a] == assoc(
        pairs,
    ).insert(key, value)[a] by {
        let i = choose|i: int| 0 <= i < after.len() && (#[trigger] after[i]).0 == a;
        lemma_assoc_at(after, i);
        if a != key {
            lemma_assoc_at(pairs, i);
        }
    }
    assert(assoc(after) =~= assoc(pairs).insert(key, value));
}

/// The socket at each position talks from the local address of the right IP version at that
/// position. The first talks to the address that is connected to, the others to the further
/// addresses of the server that are of the same IP version and differ from it, in order.
pub proof fn sockets_are_planned_by_position(
    connect_to: SocketAddr,
    addrs: Seq<SocketAddr>,
    servers: Seq<SocketAddr>,
)
    ensures
        ({
            let locals = crate::addr::of_family(addrs, connect_to);
            let others = crate::addr::all_but(
                crate::addr::of_family(servers, connect_to),
                connect_to,
            );
            let plan = crate::addr::pair_up(locals, server_peers(connect_to, servers));
            &&& sockets_pair_up(connect_to, addrs, servers) <==> {
                &&& addrs.len() == servers.len() + 1
                &&& locals.len() > 0
                &&& locals.len() <= others.len() + 1
            }
            &&& sockets_pair_up(connect_to, addrs, servers) ==> plan.len() == locals.len()
                && plan[0] == (locals[0], connect_to) && forall|i: int|
                1 <= i < plan.len() ==> #[trigger] plan[i] == (locals[i], others[i - 1])
        }),
{
}

} // verus!
