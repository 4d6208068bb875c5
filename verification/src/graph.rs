//! The network graph: which devices it draws and how. A list of peers
//! updates the set of nodes (peers that left go, new ones come on a ring
//! around this device, known ones keep their place), link states colour
//! the edges, and a click on an online remote node opens it.
use vstd::prelude::*;
use crate::text::{str_eq, lowercase, to_lowercase};

verus! {

/// The state of the link to a peer, as the graph draws it.
#[derive(Clone, Copy, Debug, PartialEq, Eq, Structural)]
pub enum PeerLink {
    Idle,
    Connecting,
    Connected,
    Failed,
}

/// Where a node first appears: this device in the middle, a peer at a
/// position on the ring around it.
#[derive(Clone, Copy, Debug, PartialEq, Eq, Structural)]
pub enum Placement {
    Center,
    Ring { index: usize, count: usize },
}

/// A peer as the network reports it.
pub struct GraphPeer {
    pub id: String,
    pub name: String,
    pub os: String,
    pub is_online: bool,
}

/// A peer as values.
pub struct PeerView {
    pub id: Seq<char>,
    pub name: Seq<char>,
    pub os: Seq<char>,
    pub is_online: bool,
}

impl View for GraphPeer {
    type V = PeerView;

    open spec fn view(&self) -> PeerView {
        PeerView { id: self.id@, name: self.name@, os: self.os@, is_online: self.is_online }
    }
}

/// A node of the graph.
pub struct GraphNode {
    pub id: String,
    pub name: String,
    pub os: String,
    pub is_local: bool,
    pub is_online: bool,
    pub link: Option<PeerLink>,
    pub placement: Placement,
}

/// A node as values.
pub struct NodeView {
    pub id: Seq<char>,
    pub name: Seq<char>,
    pub os: Seq<char>,
    pub is_local: bool,
    pub is_online: bool,
    pub link: Option<PeerLink>,
    pub placement: Placement,
}

impl View for GraphNode {
    type V = NodeView;

    open spec fn view(&self) -> NodeView {
        NodeView { id: self.id@, name: self.name@, os: self.os@, is_local: self.is_local,
            is_online: self.is_online, link: self.link, placement: self.placement }
    }
}

/// The views of a list of nodes.
pub open spec fn nodes_view(ns: Seq<GraphNode>) -> Seq<NodeView> {
    ns.map_values(|n: GraphNode| n@)
}

/// The views of a list of peers.
pub open spec fn peers_view(ps: Seq<GraphPeer>) -> Seq<PeerView> {
    ps.map_values(|p: GraphPeer| p@)
}

/// The position of the first node with this id.
pub open spec fn find_node(ns: Seq<NodeView>, id: Seq<char>) -> Option<int>
    decreases ns.len(),
{
    if ns.len() == 0 {
        None
    } else {
        match find_node(ns.drop_last(), id) {
            Some(j) => Some(j),
            None => if ns.last().id == id { Some(ns.len() - 1) } else { None },
        }
    }
}

/// Whether the list of peers names this id.
pub open spec fn peer_listed(ps: Seq<PeerView>, id: Seq<char>) -> bool {
    exists|i: int| 0 <= i < ps.len() && ps[i].id == id
}

/// The nodes that stay when a list of peers comes: those the list names,
/// and this device.
pub open spec fn keep_nodes(ns: Seq<NodeView>, ps: Seq<PeerView>, me: Seq<char>) -> Seq<NodeView>
    decreases ns.len(),
{
    if ns.len() == 0 {
        ns
    } else {
        let prev = keep_nodes(ns.drop_last(), ps, me);
        if peer_listed(ps, ns.last().id) || ns.last().id == me { prev.push(ns.last()) } else { prev }
    }
}

/// The nodes without this id.
pub open spec fn drop_id(ns: Seq<NodeView>, id: Seq<char>) -> Seq<NodeView>
    decreases ns.len(),
{
    if ns.len() == 0 {
        ns
    } else {
        let prev = drop_id(ns.drop_last(), id);
        if ns.last().id != id { prev.push(ns.last()) } else { prev }
    }
}

/// The ring has a place for each peer of the list, and at least one.
pub open spec fn ring_size(ps: Seq<PeerView>) -> nat {
    if ps.len() == 0 { 1 } else { ps.len() }
}

/// The nodes after the first `k` peers of the list: a known peer takes the
/// peer's online state, a new one is added at its place on the ring; this
/// device's own entry in the list is skipped.
pub open spec fn upsert_peers(ns: Seq<NodeView>, ps: Seq<PeerView>, k: nat, me: Seq<char>) -> Seq<NodeView>
    decreases k,
{
    if k == 0 || k > ps.len() {
        ns
    } else {
        let prev = upsert_peers(ns, ps, (k - 1) as nat, me);
        let p = ps[k - 1];
        if p.id == me {
            prev
        } else {
            match find_node(prev, p.id) {
                Some(j) => prev.update(j, NodeView { is_online: p.is_online, ..prev[j] }),
                None => prev.push(NodeView {
                    id: p.id, name: p.name, os: p.os, is_local: false, is_online: p.is_online,
                    link: None, placement: Placement::Ring { index: (k - 1) as usize, count: ring_size(ps) as usize },
                }),
            }
        }
    }
}

/// This device's node: shown under its display name, or removed.
pub open spec fn place_local(ns: Seq<NodeView>, me: Seq<char>, show: bool, name: Seq<char>, os: Seq<char>) -> Seq<NodeView> {
    if show {
        match find_node(ns, me) {
            Some(j) => ns.update(j, NodeView { name: name, os: os, is_local: true, is_online: true, ..ns[j] }),
            None => ns.push(NodeView { id: me, name: name, os: os, is_local: true, is_online: true,
                link: None, placement: Placement::Center }),
        }
    } else {
        drop_id(ns, me)
    }
}

/// The nodes after a list of peers comes.
pub open spec fn graph_after(ns: Seq<NodeView>, ps: Seq<PeerView>, me: Seq<char>, show: bool, name: Seq<char>, os: Seq<char>) -> Seq<NodeView> {
    place_local(upsert_peers(keep_nodes(ns, ps, me), ps, ps.len(), me), me, show, name, os)
}

/// Whether some node has this id.
pub open spec fn has_node(ns: Seq<NodeView>, id: Seq<char>) -> bool {
    exists|i: int| 0 <= i < ns.len() && ns[i].id == id
}

/// No two nodes share an id.
pub open spec fn ids_distinct(ns: Seq<NodeView>) -> bool {
    forall|i: int, j: int| 0 <= i < j < ns.len() ==> ns[i].id != ns[j].id
}

proof fn lemma_find_node(ns: Seq<NodeView>, id: Seq<char>)
    ensures
        match find_node(ns, id) {
            Some(j) => 0 <= j < ns.len() && ns[j].id == id && forall|k: int| 0 <= k < j ==> ns[k].id != id,
            None => forall|k: int| 0 <= k < ns.len() ==> ns[k].id != id,
        },
    decreases ns.len(),
{
    if ns.len() > 0 {
        lemma_find_node(ns.drop_last(), id);
        assert forall|k: int| 0 <= k < ns.len() - 1 implies ns[k] == ns.drop_last()[k] by {}
    }
}

proof fn lemma_keep_members(ns: Seq<NodeView>, ps: Seq<PeerView>, me: Seq<char>, id: Seq<char>)
    ensures
        has_node(keep_nodes(ns, ps, me), id) == (has_node(ns, id) && (peer_listed(ps, id) || id == me)),
        ids_distinct(ns) ==> ids_distinct(keep_nodes(ns, ps, me)),
        forall|i: int| 0 <= i < keep_nodes(ns, ps, me).len() ==>
            exists|k: int| 0 <= k < ns.len() && ns[k] == #[trigger] keep_nodes(ns, ps, me)[i],
    decreases ns.len(),
{
    if ns.len() > 0 {
        let d = ns.drop_last();
        lemma_keep_members(d, ps, me, id);
        let prev = keep_nodes(d, ps, me);
        let cur = keep_nodes(ns, ps, me);
        let kept_last = peer_listed(ps, ns.last().id) || ns.last().id == me;
        assert forall|k: int| 0 <= k < d.len() implies d[k] == ns[k] by {}
        assert forall|i: int| 0 <= i < prev.len() implies cur[i] == prev[i] by {}
        if has_node(ns, id) && (peer_listed(ps, id) || id == me) {
            let w = choose|w: int| 0 <= w < ns.len() && ns[w].id == id;
            if w < ns.len() - 1 {
                assert(d[w].id == id);
                let v = choose|v: int| 0 <= v < prev.len() && prev[v].id == id;
                assert(cur[v].id == id);
            } else {
                assert(cur[prev.len() as int] == ns.last());
            }
        }
        if has_node(cur, id) {
            let w = choose|w: int| 0 <= w < cur.len() && cur[w].id == id;
            if w < prev.len() {
                assert(prev[w].id == id);
                let v = choose|v: int| 0 <= v < d.len() && d[v].id == id;
                assert(ns[v].id == id);
            } else {
                assert(kept_last);
                assert(cur[w] == ns.last());
                assert(ns[ns.len() - 1].id == id);
            }
        }
        assert forall|i: int| 0 <= i < cur.len() implies exists|k: int| 0 <= k < ns.len() && ns[k] == #[trigger] cur[i] by {
            if i < prev.len() {
                let k = choose|k: int| 0 <= k < d.len() && d[k] == prev[i];
                assert(ns[k] == cur[i]);
            } else {
                assert(cur[i] == ns[ns.len() - 1]);
            }
        }
        if ids_distinct(ns) {
            assert(ids_distinct(d));
            if kept_last {
                assert forall|i: int, j: int| 0 <= i < j < cur.len() implies cur[i].id != cur[j].id by {
                    if j == cur.len() - 1 {
                        let k = choose|k: int| 0 <= k < d.len() && d[k] == prev[i];
                        assert(ns[k].id != ns[ns.len() - 1].id);
                    }
                }
            }
        }
    }
}

proof fn lemma_drop_members(ns: Seq<NodeView>, gone: Seq<char>, id: Seq<char>)
    ensures
        has_node(drop_id(ns, gone), id) == (has_node(ns, id) && id != gone),
        ids_distinct(ns) ==> ids_distinct(drop_id(ns, gone)),
        forall|i: int| 0 <= i < drop_id(ns, gone).len() ==>
            exists|k: int| 0 <= k < ns.len() && ns[k] == #[trigger] drop_id(ns, gone)[i],
    decreases ns.len(),
{
    if ns.len() > 0 {
        let d = ns.drop_last();
        lemma_drop_members(d, gone, id);
        let prev = drop_id(d, gone);
        let cur = drop_id(ns, gone);
        let kept_last = ns.last().id != gone;
        assert forall|k: int| 0 <= k < d.len() implies d[k] == ns[k] by {}
        assert forall|i: int| 0 <= i < prev.len() implies cur[i] == prev[i] by {}
        if has_node(ns, id) && id != gone {
            let w = choose|w: int| 0 <= w < ns.len() && ns[w].id == id;
            if w < ns.len() - 1 {
                assert(d[w].id == id);
                let v = choose|v: int| 0 <= v < prev.len() && prev[v].id == id;
                assert(cur[v].id == id);
            } else {
                assert(cur[prev.len() as int] == ns.last());
            }
        }
        if has_node(cur, id) {
            let w = choose|w: int| 0 <= w < cur.len() && cur[w].id == id;
            if w < prev.len() {
                assert(prev[w].id == id);
                let v = choose|v: int| 0 <= v < d.len() && d[v].id == id;
                assert(ns[v].id == id);
            } else {
                assert(kept_last);
                assert(cur[w] == ns.last());
                assert(ns[ns.len() - 1].id == id);
            }
        }
        assert forall|i: int| 0 <= i < cur.len() implies exists|k: int| 0 <= k < ns.len() && ns[k] == #[trigger] cur[i] by {
            if i < prev.len() {
                let k = choose|k: int| 0 <= k < d.len() && d[k] == prev[i];
                assert(ns[k] == cur[i]);
            } else {
                assert(cur[i] == ns[ns.len() - 1]);
            }
        }
        if ids_distinct(ns) {
            assert(ids_distinct(d));
            if kept_last {
                assert forall|i: int, j: int| 0 <= i < j < cur.len() implies cur[i].id != cur[j].id by {
                    if j == cur.len() - 1 {
                        let k = choose|k: int| 0 <= k < d.len() && d[k] == prev[i];
                        assert(ns[k].id != ns[ns.len() - 1].id);
                    }
                }
            }
        }
    }
}

proof fn lemma_upsert_members(ns: Seq<NodeView>, ps: Seq<PeerView>, k: nat, me: Seq<char>, id: Seq<char>)
    requires
        k <= ps.len(),
    ensures
        has_node(upsert_peers(ns, ps, k, me), id) == (has_node(ns, id)
            || (id != me && exists|i: int| 0 <= i < k && ps[i].id == id)),
        ids_distinct(ns) ==> ids_distinct(upsert_peers(ns, ps, k, me)),
    decreases k,
{
    if k > 0 {
        lemma_upsert_members(ns, ps, (k - 1) as nat, me, id);
        let prev = upsert_peers(ns, ps, (k - 1) as nat, me);
        let cur = upsert_peers(ns, ps, k, me);
        let p = ps[k - 1];
        if p.id != me {
            lemma_find_node(prev, p.id);
            match find_node(prev, p.id) {
                Some(j) => {
                    assert forall|i: int| 0 <= i < cur.len() implies cur[i].id == prev[i].id by {}
                    if has_node(prev, id) {
                        let w = choose|w: int| 0 <= w < prev.len() && prev[w].id == id;
                        assert(cur[w].id == id);
                    }
                    if has_node(cur, id) {
                        let w = choose|w: int| 0 <= w < cur.len() && cur[w].id == id;
                        assert(prev[w].id == id);
                    }
                    if id != me && exists|i: int| 0 <= i < k && ps[i].id == id {
                        let i = choose|i: int| 0 <= i < k && ps[i].id == id;
                        if i == k - 1 {
                            assert(prev[j].id == id);
                        }
                    }
                    if ids_distinct(ns) {
                        assert forall|a: int, b: int| 0 <= a < b < cur.len() implies cur[a].id != cur[b].id by {
                            assert(cur[a].id == prev[a].id && cur[b].id == prev[b].id);
                        }
                    }
                },
                None => {
                    assert forall|i: int| 0 <= i < prev.len() implies cur[i] == prev[i] by {}
                    if has_node(prev, id) {
                        let w = choose|w: int| 0 <= w < prev.len() && prev[w].id == id;
                        assert(cur[w].id == id);
                    }
                    if id == p.id {
                        assert(cur[prev.len() as int].id == id);
                    }
                    if has_node(cur, id) {
                        let w = choose|w: int| 0 <= w < cur.len() && cur[w].id == id;
                        if w < prev.len() {
                            assert(prev[w].id == id);
                        }
                    }
                    if ids_distinct(ns) {
                        assert forall|a: int, b: int| 0 <= a < b < cur.len() implies cur[a].id != cur[b].id by {
                            if b == prev.len() {
                                assert(prev[a].id != p.id);
                            }
                        }
                    }
                },
            }
        } else {
            if id != me && exists|i: int| 0 <= i < k && ps[i].id == id {
                let i = choose|i: int| 0 <= i < k && ps[i].id == id;
                assert(i != k - 1);
            }
        }
    }
}

/// The set of nodes after a list of peers comes is exactly the peers the
/// list names, other than this device, and this device when it is shown;
/// no two nodes ever share an id.
pub proof fn lemma_graph_members(ns: Seq<NodeView>, ps: Seq<PeerView>, me: Seq<char>, show: bool, name: Seq<char>, os: Seq<char>, id: Seq<char>)
    ensures
        has_node(graph_after(ns, ps, me, show, name, os), id)
            == ((id != me && peer_listed(ps, id)) || (id == me && show)),
        ids_distinct(ns) ==> ids_distinct(graph_after(ns, ps, me, show, name, os)),
{
    let kept = keep_nodes(ns, ps, me);
    let up = upsert_peers(kept, ps, ps.len(), me);
    lemma_keep_members(ns, ps, me, id);
    lemma_upsert_members(kept, ps, ps.len(), me, id);
    if has_node(kept, id) && id != me {
        assert(peer_listed(ps, id));
    }
    if show {
        lemma_find_node(up, me);
        let cur = graph_after(ns, ps, me, show, name, os);
        match find_node(up, me) {
            Some(j) => {
                assert forall|i: int| 0 <= i < cur.len() implies cur[i].id == up[i].id by {}
                if has_node(up, id) {
                    let w = choose|w: int| 0 <= w < up.len() && up[w].id == id;
                    assert(cur[w].id == id);
                }
                if has_node(cur, id) {
                    let w = choose|w: int| 0 <= w < cur.len() && cur[w].id == id;
                    assert(up[w].id == id);
                }
                if id == me {
                    assert(cur[j].id == id);
                }
                if ids_distinct(ns) {
                    assert forall|a: int, b: int| 0 <= a < b < cur.len() implies cur[a].id != cur[b].id by {
                        assert(cur[a].id == up[a].id && cur[b].id == up[b].id);
                    }
                }
            },
            None => {
                assert forall|i: int| 0 <= i < up.len() implies cur[i] == up[i] by {}
                if has_node(up, id) {
                    let w = choose|w: int| 0 <= w < up.len() && up[w].id == id;
                    assert(cur[w].id == id);
                }
                if id == me {
                    assert(cur[up.len() as int].id == id);
                }
                if has_node(cur, id) {
                    let w = choose|w: int| 0 <= w < cur.len() && cur[w].id == id;
                    if w < up.len() {
                        assert(up[w].id == id);
                    }
                }
                if ids_distinct(ns) {
                    assert forall|a: int, b: int| 0 <= a < b < cur.len() implies cur[a].id != cur[b].id by {
                        if b == up.len() {
                            assert(up[a].id != me);
                        }
                    }
                }
            },
        }
    } else {
        lemma_drop_members(up, me, id);
    }
}

fn find_node_exec(nodes: &Vec<GraphNode>, id: &str) -> (res: Option<usize>)
    ensures
        find_node(nodes_view(nodes@), id@) == (match res { Some(i) => Some(i as int), None => None::<int> }),
        res matches Some(i) ==> i < nodes@.len(),
{
    let ghost v = nodes_view(nodes@);
    proof { lemma_find_node(v, id@); }
    let mut k: usize = 0;
    while k < nodes.len()
        invariant
            k <= nodes@.len(),
            v == nodes_view(nodes@),
            forall|j: int| 0 <= j < k ==> v[j].id != id@,
            match find_node(v, id@) {
                Some(j) => 0 <= j < v.len() && v[j].id == id@ && forall|m: int| 0 <= m < j ==> v[m].id != id@,
                None => forall|m: int| 0 <= m < v.len() ==> v[m].id != id@,
            },
        decreases nodes.len() - k,
    {
        if str_eq(nodes[k].id.as_str(), id) {
            assert(v[k as int].id == id@);
            return Some(k);
        }
        k += 1;
    }
    None
}

fn copy_node(n: &GraphNode) -> (res: GraphNode)
    ensures
        res@ == n@,
{
    GraphNode { id: n.id.clone(), name: n.name.clone(), os: n.os.clone(), is_local: n.is_local,
        is_online: n.is_online, link: n.link, placement: n.placement }
}

/// The graph's nodes and how it was set up.
pub struct GraphState {
    pub nodes: Vec<GraphNode>,
    pub local_id: String,
    pub interactive: bool,
    pub show_names: bool,
    pub show_local_node: bool,
}

impl GraphState {
    /// An empty graph.
    pub fn new(interactive: bool, show_names: bool, show_local_node: bool) -> (res: GraphState)
        ensures
            res.nodes@.len() == 0,
            res.local_id@ == Seq::<char>::empty(),
            res.interactive == interactive,
            res.show_names == show_names,
            res.show_local_node == show_local_node,
    {
        GraphState { nodes: Vec::new(), local_id: String::new(), interactive, show_names, show_local_node }
    }

    /// Takes a list of peers: the nodes become `graph_after` the old ones,
    /// with this device shown under `local_name` when the graph shows it.
    pub fn update_peers(&mut self, peers: &Vec<GraphPeer>, my_id: &str, local_name: &str, os: &str)
        requires
            peers@.len() < usize::MAX,
        ensures
            nodes_view(final(self).nodes@) == graph_after(nodes_view(old(self).nodes@), peers_view(peers@),
                my_id@, old(self).show_local_node, local_name@, os@),
            final(self).local_id@ == my_id@,
            final(self).interactive == old(self).interactive,
            final(self).show_names == old(self).show_names,
            final(self).show_local_node == old(self).show_local_node,
    {
        let ghost ps = peers_view(peers@);
        let ghost old_v = nodes_view(self.nodes@);
        self.local_id = my_id.to_owned();
        let mut kept: Vec<GraphNode> = Vec::new();
        let mut i: usize = 0;
        while i < self.nodes.len()
            invariant
                i <= self.nodes@.len(),
                old_v == nodes_view(self.nodes@),
                ps == peers_view(peers@),
                nodes_view(kept@) == keep_nodes(old_v.take(i as int), ps, my_id@),
            decreases self.nodes.len() - i,
        {
            assert(old_v.take(i + 1).drop_last() =~= old_v.take(i as int));
            let id = self.nodes[i].id.as_str();
            let mut listed = false;
            let mut j: usize = 0;
            while j < peers.len()
                invariant
                    j <= peers@.len(),
                    ps == peers_view(peers@),
                    id@ == old_v[i as int].id,
                    listed == exists|m: int| 0 <= m < j && ps[m].id == id@,
                decreases peers.len() - j,
            {
                if str_eq(peers[j].id.as_str(), id) {
                    assert(ps[j as int].id == id@);
                    listed = true;
                }
                j += 1;
            }
            if listed || str_eq(id, my_id) {
                let n = copy_node(&self.nodes[i]);
                kept.push(n);
                assert(nodes_view(kept@) =~= keep_nodes(old_v.take(i as int), ps, my_id@).push(old_v[i as int]));
            }
            i += 1;
        }
        assert(old_v.take(self.nodes@.len() as int) =~= old_v);
        let ghost kv = nodes_view(kept@);
        let count: usize = if peers.len() == 0 { 1 } else { peers.len() };
        let mut k: usize = 0;
        while k < peers.len()
            invariant
                k <= peers@.len(),
                peers@.len() < usize::MAX,
                ps == peers_view(peers@),
                count as nat == ring_size(ps),
                nodes_view(kept@) == upsert_peers(kv, ps, k as nat, my_id@),
            decreases peers.len() - k,
        {
            let p = &peers[k];
            let ghost prev = nodes_view(kept@);
            if !str_eq(p.id.as_str(), my_id) {
                match find_node_exec(&kept, p.id.as_str()) {
                    Some(j) => {
                        let old_n = copy_node(&kept[j]);
                        let n = GraphNode { is_online: p.is_online, ..old_n };
                        kept.set(j, n);
                        assert(nodes_view(kept@) =~= prev.update(j as int, NodeView { is_online: ps[k as int].is_online, ..prev[j as int] }));
                    },
                    None => {
                        let n = GraphNode { id: p.id.clone(), name: p.name.clone(), os: p.os.clone(), is_local: false,
                            is_online: p.is_online, link: None, placement: Placement::Ring { index: k, count } };
                        kept.push(n);
                        assert(nodes_view(kept@) =~= prev.push(n@));
                    },
                }
            }
            k += 1;
        }
        let ghost up = nodes_view(kept@);
        if self.show_local_node {
            match find_node_exec(&kept, my_id) {
                Some(j) => {
                    let old_n = copy_node(&kept[j]);
                    let n = GraphNode { name: local_name.to_owned(), os: os.to_owned(), is_local: true, is_online: true, ..old_n };
                    kept.set(j, n);
                    assert(nodes_view(kept@) =~= up.update(j as int, NodeView { name: local_name@, os: os@, is_local: true, is_online: true, ..up[j as int] }));
                },
                None => {
                    let n = GraphNode { id: my_id.to_owned(), name: local_name.to_owned(), os: os.to_owned(), is_local: true,
                        is_online: true, link: None, placement: Placement::Center };
                    kept.push(n);
                    assert(nodes_view(kept@) =~= up.push(n@));
                },
            }
            self.nodes = kept;
        } else {
            let mut out: Vec<GraphNode> = Vec::new();
            let mut m: usize = 0;
            while m < kept.len()
                invariant
                    m <= kept@.len(),
                    up == nodes_view(kept@),
                    nodes_view(out@) == drop_id(up.take(m as int), my_id@),
                decreases kept.len() - m,
            {
                assert(up.take(m + 1).drop_last() =~= up.take(m as int));
                if !str_eq(kept[m].id.as_str(), my_id) {
                    let n = copy_node(&kept[m]);
                    out.push(n);
                    assert(nodes_view(out@) =~= drop_id(up.take(m as int), my_id@).push(up[m as int]));
                }
                m += 1;
            }
            assert(up.take(kept@.len() as int) =~= up);
            self.nodes = out;
        }
    }

    /// Takes the link states of peers: a node whose id has a state takes
    /// the last one given for it; the others keep theirs.
    pub fn update_links(&mut self, links: &Vec<(String, PeerLink)>)
        ensures
            nodes_view(final(self).nodes@).len() == nodes_view(old(self).nodes@).len(),
            forall|i: int| 0 <= i < old(self).nodes@.len() ==> #[trigger] nodes_view(final(self).nodes@)[i]
                == with_link(old(self).nodes@[i]@, link_views(links@)),
            final(self).local_id@ == old(self).local_id@,
            final(self).interactive == old(self).interactive,
            final(self).show_names == old(self).show_names,
            final(self).show_local_node == old(self).show_local_node,
    {
        let ghost lv = link_views(links@);
        let ghost start = self.nodes@;
        let ghost lid = self.local_id@;
        let ghost flags = (self.interactive, self.show_names, self.show_local_node);
        let mut i: usize = 0;
        while i < self.nodes.len()
            invariant
                i <= self.nodes@.len(),
                self.local_id@ == lid,
                flags == (self.interactive, self.show_names, self.show_local_node),
                self.nodes@.len() == start.len(),
                lv == link_views(links@),
                forall|k: int| i <= k < start.len() ==> self.nodes@[k] == start[k],
                forall|k: int| 0 <= k < i ==> #[trigger] self.nodes@[k]@ == with_link(start[k]@, lv),
            decreases self.nodes.len() - i,
        {
            let found = last_link(links, self.nodes[i].id.as_str());
            if let Some(l) = found {
                let old_n = copy_node(&self.nodes[i]);
                let n = GraphNode { link: Some(l), ..old_n };
                self.nodes.set(i, n);
            }
            i += 1;
        }
        assert forall|k: int| 0 <= k < start.len() implies #[trigger] nodes_view(self.nodes@)[k] == with_link(start[k]@, lv) by {
            assert(nodes_view(self.nodes@)[k] == self.nodes@[k]@);
        }
    }

    /// Whether a press on a node opens it: only in an interactive graph,
    /// only on a remote node, and only while it is online.
    pub fn press(&self, id: &str) -> (res: bool)
        ensures
            res == (self.interactive && id@ != self.local_id@ && match find_node(nodes_view(self.nodes@), id@) {
                Some(j) => nodes_view(self.nodes@)[j].is_online,
                None => false,
            }),
    {
        if !self.interactive || str_eq(id, self.local_id.as_str()) {
            return false;
        }
        match find_node_exec(&self.nodes, id) {
            Some(j) => self.nodes[j].is_online,
            None => false,
        }
    }
}

/// The views of link states given by id.
pub open spec fn link_views(links: Seq<(String, PeerLink)>) -> Seq<(Seq<char>, PeerLink)> {
    links.map_values(|l: (String, PeerLink)| (l.0@, l.1))
}

/// A node with the last link state given for its id, if any.
pub open spec fn with_link(n: NodeView, links: Seq<(Seq<char>, PeerLink)>) -> NodeView {
    match link_for(links, n.id) {
        Some(l) => NodeView { link: Some(l), ..n },
        None => n,
    }
}

/// The last link state given for an id.
pub open spec fn link_for(links: Seq<(Seq<char>, PeerLink)>, id: Seq<char>) -> Option<PeerLink>
    decreases links.len(),
{
    if links.len() == 0 {
        None
    } else if links.last().0 == id {
        Some(links.last().1)
    } else {
        link_for(links.drop_last(), id)
    }
}

fn last_link(links: &Vec<(String, PeerLink)>, id: &str) -> (res: Option<PeerLink>)
    ensures
        res == link_for(link_views(links@), id@),
{
    let ghost lv = link_views(links@);
    let mut found: Option<PeerLink> = None;
    let mut i: usize = 0;
    while i < links.len()
        invariant
            i <= links@.len(),
            lv == link_views(links@),
            found == link_for(lv.take(i as int), id@),
        decreases links.len() - i,
    {
        assert(lv.take(i + 1).drop_last() =~= lv.take(i as int));
        assert(lv.take(i + 1).last() == (links@[i as int].0@, links@[i as int].1));
        if str_eq(links[i].0.as_str(), id) {
            found = Some(links[i].1);
        }
        i += 1;
    }
    assert(lv.take(links@.len() as int) =~= lv);
    found
}

/// How an edge to a peer is drawn.
#[derive(Clone, Copy, Debug, PartialEq, Eq, Structural)]
pub enum EdgeStyle {
    /// Grey and dashed.
    Offline,
    /// Solid green.
    Connected,
    /// Dashed amber.
    Connecting,
    /// Solid red.
    Failed,
    /// Solid blue.
    Idle,
}

/// How the edge to a peer is drawn: offline peers dashed grey, online ones
/// by the state of their link.
pub fn edge_style(is_online: bool, link: Option<PeerLink>) -> (res: EdgeStyle)
    ensures
        res == (if !is_online { EdgeStyle::Offline } else {
            match link {
                Some(PeerLink::Connected) => EdgeStyle::Connected,
                Some(PeerLink::Connecting) => EdgeStyle::Connecting,
                Some(PeerLink::Failed) => EdgeStyle::Failed,
                _ => EdgeStyle::Idle,
            }
        }),
{
    if !is_online {
        return EdgeStyle::Offline;
    }
    match link {
        Some(PeerLink::Connected) => EdgeStyle::Connected,
        Some(PeerLink::Connecting) => EdgeStyle::Connecting,
        Some(PeerLink::Failed) => EdgeStyle::Failed,
        _ => EdgeStyle::Idle,
    }
}

/// How a node's icon looks.
#[derive(Clone, Copy, Debug, PartialEq, Eq, Structural)]
pub enum NodeLook {
    /// Fully opaque: this device.
    Full,
    /// Dimmed: an online peer.
    Dimmed,
    /// Faded and grey: an offline node.
    Faded,
}

/// How a node's icon looks, and whether it shows a hand cursor.
pub fn node_look(is_online: bool, is_local: bool, interactive: bool) -> (res: (NodeLook, bool))
    ensures
        res.0 == (if !is_online { NodeLook::Faded } else if is_local { NodeLook::Full } else { NodeLook::Dimmed }),
        res.1 == (is_online && interactive),
{
    if !is_online {
        (NodeLook::Faded, false)
    } else if is_local {
        (NodeLook::Full, interactive)
    } else {
        (NodeLook::Dimmed, interactive)
    }
}

/// The icon of an operating system in the graph.
pub open spec fn graph_icon(os: Seq<char>) -> Seq<char> {
    if os == "windows"@ { "os-win"@ }
    else if os == "macos"@ { "os-mac"@ }
    else if os == "linux"@ { "os-linux"@ }
    else if os == "android"@ { "os-android"@ }
    else if os == "ios"@ { "os-iphone"@ }
    else { "os-console"@ }
}

/// The icon of an operating system in the graph.
pub fn os_icon_key(os: &str) -> (res: &'static str)
    ensures
        res@ == graph_icon(os@),
{
    if str_eq(os, "windows") {
        "os-win"
    } else if str_eq(os, "macos") {
        "os-mac"
    } else if str_eq(os, "linux") {
        "os-linux"
    } else if str_eq(os, "android") {
        "os-android"
    } else if str_eq(os, "ios") {
        "os-iphone"
    } else {
        "os-console"
    }
}

/// The icon of a node: this device by the system it runs on, a peer by
/// its reported system in lower case.
pub fn node_icon_key(is_this_device: bool, node_os: &str, this_os: &str) -> (res: &'static str)
    ensures
        res@ == (if is_this_device { graph_icon(this_os@) } else { graph_icon(lowercase(node_os@)) }),
{
    if is_this_device {
        os_icon_key(this_os)
    } else {
        let l = to_lowercase(node_os);
        os_icon_key(l.as_str())
    }
}

/// The key of this device's label in the graph, by its system.
pub fn local_label_key(os: &str) -> (res: &'static str)
    ensures
        res@ == (if os@ == "windows"@ { "graph.this_windows"@ }
            else if os@ == "macos"@ { "graph.this_macos"@ }
            else if os@ == "linux"@ { "graph.this_linux"@ }
            else if os@ == "android"@ { "graph.this_android"@ }
            else if os@ == "ios"@ { "graph.this_ios"@ }
            else { "graph.this_device"@ }),
{
    if str_eq(os, "windows") {
        "graph.this_windows"
    } else if str_eq(os, "macos") {
        "graph.this_macos"
    } else if str_eq(os, "linux") {
        "graph.this_linux"
    } else if str_eq(os, "android") {
        "graph.this_android"
    } else if str_eq(os, "ios") {
        "graph.this_ios"
    } else {
        "graph.this_device"
    }
}

} // verus!
