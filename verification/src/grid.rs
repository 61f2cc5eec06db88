//! Topology of a power grid: which nodes it holds (by id, in the
//! order they were added), which transmission lines join them, the id
//! index used for constant-time lookup and the adjacency lists.

use vstd::prelude::*;
use std::collections::HashMap;
use crate::node::{is_first_position, is_last_position, first_position};

verus! {

broadcast use vstd::std_specs::hash::group_hash_axioms;

/// Unique grid identifier.
#[derive(Debug, Clone, Copy, PartialEq, Eq, Structural)]
pub struct GridId(pub u64);

/// The neighbours of `id` after the lines `links` were added in order:
/// each line `(from, to)` appends `to` to the list of `from`, then `from`
/// to the list of `to`.
pub open spec fn neighbor_seq(links: Seq<(u64, u64)>, id: u64) -> Seq<u64>
    decreases links.len(),
{
    if links.len() == 0 {
        Seq::empty()
    } else {
        let prev = neighbor_seq(links.drop_last(), id);
        let line = links.last();
        let with_from = if line.0 == id { prev.push(line.1) } else { prev };
        if line.1 == id { with_from.push(line.0) } else { with_from }
    }
}

/// What an id index answers for `id`.
pub open spec fn index_lookup(m: Map<u64, usize>, id: u64) -> Option<usize> {
    if m.contains_key(id) { Some(m[id]) } else { None }
}

/// What adjacency lists answer for `id` (no entry reads as no neighbour).
pub open spec fn adjacency_lookup(m: Map<u64, Vec<u64>>, id: u64) -> Seq<u64> {
    if m.contains_key(id) { m[id]@ } else { Seq::empty() }
}

/// Nodes and transmission lines of a grid, without their physical state.
#[derive(Debug, Clone)]
pub struct GridTopology {
    node_ids: Vec<u64>,
    links: Vec<(u64, u64)>,
    node_index: HashMap<u64, usize>,
    adjacency: HashMap<u64, Vec<u64>>,
}

impl GridTopology {
    /// Node ids in the order the nodes were added.
    pub closed spec fn ids(&self) -> Seq<u64> {
        self.node_ids@
    }

    /// Transmission lines `(from, to)` in the order they were added.
    pub closed spec fn links(&self) -> Seq<(u64, u64)> {
        self.links@
    }

    /// The id index points at the last node added with each id, and the
    /// adjacency lists are those the lines build.
    pub closed spec fn wf(&self) -> bool {
        &&& forall|id: u64|
            #[trigger] is_last_position(self.node_ids@, id, index_lookup(self.node_index@, id))
        &&& forall|id: u64|
            #[trigger] adjacency_lookup(self.adjacency@, id) == neighbor_seq(self.links@, id)
    }

    /// An empty grid.
    pub fn new() -> (g: Self)
        ensures
            g.wf(),
            g.ids() == Seq::<u64>::empty(),
            g.links() == Seq::<(u64, u64)>::empty(),
    {
        let g = GridTopology {
            node_ids: Vec::new(),
            links: Vec::new(),
            node_index: HashMap::new(),
            adjacency: HashMap::new(),
        };
        assert forall|id: u64|
            #[trigger] is_last_position(g.node_ids@, id, index_lookup(g.node_index@, id)) by {}
        assert forall|id: u64|
            #[trigger] adjacency_lookup(g.adjacency@, id) == neighbor_seq(g.links@, id) by {}
        g
    }

    /// Adds a node and returns its position.
    pub fn add_node(&mut self, id: u64) -> (idx: usize)
        requires
            old(self).wf(),
        ensures
            final(self).wf(),
            idx == old(self).ids().len(),
            final(self).ids() == old(self).ids().push(id),
            final(self).links() == old(self).links(),
    {
        let idx = self.node_ids.len();
        let ghost old_ids = self.node_ids@;
        let ghost old_index = self.node_index@;
        self.node_index.insert(id, idx);
        self.node_ids.push(id);
        assert forall|x: u64|
            #[trigger] is_last_position(self.node_ids@, x, index_lookup(self.node_index@, x)) by {
            assert(is_last_position(old_ids, x, index_lookup(old_index, x)));
            if x != id {
                assert(index_lookup(self.node_index@, x) == index_lookup(old_index, x));
            }
        }
        idx
    }

    /// Adds a transmission line between two nodes and returns its position.
    pub fn add_transmission(&mut self, from: u64, to: u64) -> (idx: usize)
        requires
            old(self).wf(),
        ensures
            final(self).wf(),
            idx == old(self).links().len(),
            final(self).links() == old(self).links().push((from, to)),
            forall|x: u64|
                #[trigger] neighbor_seq(final(self).links(), x) == neighbor_seq(old(self).links(), x)
                    + (if x == from { seq![to] } else { Seq::<u64>::empty() })
                    + (if x == to { seq![from] } else { Seq::<u64>::empty() }),
            final(self).ids() == old(self).ids(),
    {
        let idx = self.links.len();
        let ghost old_links = self.links@;
        let ghost old_adj = self.adjacency@;
        self.links.push((from, to));
        assert(self.links@.drop_last() =~= old_links);

        let mut from_list = match self.adjacency.remove(&from) {
            Some(v) => v,
            None => Vec::new(),
        };
        assert(from_list@ == adjacency_lookup(old_adj, from));
        from_list.push(to);
        self.adjacency.insert(from, from_list);
        let ghost mid_adj = self.adjacency@;

        let mut to_list = match self.adjacency.remove(&to) {
            Some(v) => v,
            None => Vec::new(),
        };
        assert(to_list@ == adjacency_lookup(mid_adj, to));
        to_list.push(from);
        self.adjacency.insert(to, to_list);

        assert forall|x: u64|
            #[trigger] adjacency_lookup(self.adjacency@, x) == neighbor_seq(self.links@, x) by {
            assert(adjacency_lookup(old_adj, x) == neighbor_seq(old_links, x));
            if x != from && x != to {
                assert(adjacency_lookup(mid_adj, x) == adjacency_lookup(old_adj, x));
                assert(adjacency_lookup(self.adjacency@, x) == adjacency_lookup(mid_adj, x));
            }
        }
        assert forall|x: u64|
            #[trigger] is_last_position(self.node_ids@, x, index_lookup(self.node_index@, x)) by {
            assert(is_last_position(self.node_ids@, x, index_lookup(self.node_index@, x)));
        }
        proof {
            lemma_neighbor_seq_push(old_links, from, to);
        }
        idx
    }

    /// Number of nodes.
    pub fn node_count(&self) -> (n: usize)
        ensures
            n == self.ids().len(),
    {
        self.node_ids.len()
    }

    /// Number of transmission lines.
    pub fn line_count(&self) -> (n: usize)
        ensures
            n == self.links().len(),
    {
        self.links.len()
    }

    /// Position of the first node with this id, by a linear scan.
    pub fn find_node(&self, id: u64) -> (r: Option<usize>)
        ensures
            is_first_position(self.ids(), id, r),
    {
        first_position(self.node_ids.as_slice(), id)
    }

    /// Position of the node with this id through the id index: the last
    /// node added with it.
    pub fn find_node_fast(&self, id: u64) -> (r: Option<usize>)
        requires
            self.wf(),
        ensures
            is_last_position(self.ids(), id, r),
    {
        assert(is_last_position(self.node_ids@, id, index_lookup(self.node_index@, id)));
        match self.node_index.get(&id) {
            Some(i) => Some(*i),
            None => None,
        }
    }

    /// Ids of the nodes joined to `id` by a line, in the order the lines
    /// were added (a line from a node to itself lists it twice).
    pub fn neighbors(&self, id: u64) -> (r: &[u64])
        requires
            self.wf(),
        ensures
            r@ == neighbor_seq(self.links(), id),
    {
        assert(adjacency_lookup(self.adjacency@, id) == neighbor_seq(self.links@, id));
        match self.adjacency.get(&id) {
            Some(v) => v.as_slice(),
            None => &[],
        }
    }
}

/// Adding a line `(from, to)` appends `to` to the neighbours of `from` and
/// then `from` to the neighbours of `to`, and leaves every other node's
/// neighbours as they were, however many lines are already present.
pub proof fn lemma_neighbor_seq_push(links: Seq<(u64, u64)>, from: u64, to: u64)
    ensures
        forall|x: u64|
            #[trigger] neighbor_seq(links.push((from, to)), x) == neighbor_seq(links, x) + (if x
                == from {
                seq![to]
            } else {
                Seq::<u64>::empty()
            }) + (if x == to {
                seq![from]
            } else {
                Seq::<u64>::empty()
            }),
{
    assert forall|x: u64|
        #[trigger] neighbor_seq(links.push((from, to)), x) == neighbor_seq(links, x) + (if x == from {
            seq![to]
        } else {
            Seq::<u64>::empty()
        }) + (if x == to {
            seq![from]
        } else {
            Seq::<u64>::empty()
        }) by {
        assert(links.push((from, to)).drop_last() =~= links);
        let prev = neighbor_seq(links, x);
        let a = if x == from { seq![to] } else { Seq::<u64>::empty() };
        let b = if x == to { seq![from] } else { Seq::<u64>::empty() };
        let with_from = if from == x { prev.push(to) } else { prev };
        assert(with_from =~= prev + a);
        let whole = if to == x { with_from.push(from) } else { with_from };
        assert(whole =~= prev + a + b);
    }
}

proof fn lemma_filter_len_push<A>(s: Seq<A>, x: A, p: spec_fn(A) -> bool)
    ensures
        s.push(x).filter(p).len() == s.filter(p).len() + (if p(x) { 1int } else { 0int }),
{
    reveal(Seq::filter);
    assert(s.push(x).drop_last() =~= s);
}

/// Multiplicities: `b` occurs among the neighbours of `a` once for every
/// line `(a, b)` and once for every line `(b, a)` (a line from a node to
/// itself counts twice).
pub proof fn lemma_neighbor_count(links: Seq<(u64, u64)>, a: u64, b: u64)
    ensures
        neighbor_seq(links, a).filter(|x: u64| x == b).len() == links.filter(
            |l: (u64, u64)| l == (a, b),
        ).len() + links.filter(|l: (u64, u64)| l == (b, a)).len(),
    decreases links.len(),
{
    let eq_b = |x: u64| x == b;
    let is_ab = |l: (u64, u64)| l == (a, b);
    let is_ba = |l: (u64, u64)| l == (b, a);
    if links.len() == 0 {
        reveal(Seq::filter);
    } else {
        let rest = links.drop_last();
        let line = links.last();
        assert(rest.push(line) =~= links);
        lemma_neighbor_count(rest, a, b);
        lemma_filter_len_push(rest, line, is_ab);
        lemma_filter_len_push(rest, line, is_ba);
        let prev = neighbor_seq(rest, a);
        let with_from = if line.0 == a { prev.push(line.1) } else { prev };
        if line.0 == a {
            lemma_filter_len_push(prev, line.1, eq_b);
        }
        if line.1 == a {
            lemma_filter_len_push(with_from, line.0, eq_b);
        }
    }
}

proof fn lemma_push_contains(s: Seq<u64>, v: u64, x: u64)
    ensures
        s.push(v).contains(x) <==> (s.contains(x) || v == x),
{
    if s.contains(x) {
        let k = choose|k: int| 0 <= k < s.len() && s[k] == x;
        assert(s.push(v)[k] == x);
    }
    if v == x {
        assert(s.push(v)[s.len() as int] == x);
    }
    if s.push(v).contains(x) {
        let k = choose|k: int| 0 <= k < s.push(v).len() && s.push(v)[k] == x;
        if k < s.len() {
            assert(s[k] == x);
        }
    }
}

/// Lines join nodes both ways: `b` is a neighbour of `a` exactly when `a`
/// is a neighbour of `b`.
pub proof fn lemma_neighbors_symmetric(links: Seq<(u64, u64)>, a: u64, b: u64)
    ensures
        neighbor_seq(links, a).contains(b) <==> neighbor_seq(links, b).contains(a),
    decreases links.len(),
{
    if links.len() > 0 {
        lemma_neighbors_symmetric(links.drop_last(), a, b);
        let line = links.last();
        let pa = neighbor_seq(links.drop_last(), a);
        let pb = neighbor_seq(links.drop_last(), b);
        let fa = if line.0 == a { pa.push(line.1) } else { pa };
        let fb = if line.0 == b { pb.push(line.1) } else { pb };
        lemma_push_contains(pa, line.1, b);
        lemma_push_contains(pb, line.1, a);
        lemma_push_contains(fa, line.0, b);
        lemma_push_contains(fb, line.0, a);
    }
}

} // verus!
