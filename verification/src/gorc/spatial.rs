//! Statistics of the spatial index: what a quadtree node and its subtree
//! hold, and the counters of the whole tree.

use vstd::prelude::*;

verus! {

/// Statistics of a quadtree node and its subtree.
#[derive(Debug, Clone, Copy, PartialEq, Eq, Structural)]
pub struct NodeStats {
    pub total_objects: usize,
    pub max_depth: u8,
    pub leaf_nodes: usize,
    pub internal_nodes: usize,
}

/// The statistics of a node holding `objects` objects at `depth`, with the
/// statistics of its children when it has any: objects and node counts
/// add up, and the depth is the deepest one.
pub open spec fn node_stats_spec(objects: usize, depth: u8, children: Option<Seq<NodeStats>>) -> (int, int, int, int)
    decreases (match children { Some(cs) => cs.len(), None => 0 }),
{
    match children {
        None => (objects as int, depth as int, 1, 0),
        Some(cs) => if cs.len() == 0 {
            (objects as int, depth as int, 0, 1)
        } else {
            let r = node_stats_spec(objects, depth, Some(cs.drop_last()));
            let c = cs.last();
            (
                r.0 + c.total_objects,
                if c.max_depth > r.1 { c.max_depth as int } else { r.1 },
                r.2 + c.leaf_nodes,
                r.3 + c.internal_nodes,
            )
        },
    }
}

impl NodeStats {
    /// The statistics of a node from its own objects and depth and its
    /// children's statistics (none for a leaf).
    pub fn for_node(objects: usize, depth: u8, children: Option<&Vec<NodeStats>>) -> (r: NodeStats)
        requires
            children matches Some(cs) ==> ({
                let s = node_stats_spec(objects, depth, Some(cs@));
                s.0 <= usize::MAX && s.2 <= usize::MAX && s.3 <= usize::MAX
            }),
        ensures
            ({
                let s = node_stats_spec(objects, depth, match children { Some(cs) => Some(cs@), None => None });
                &&& r.total_objects == s.0
                &&& r.max_depth == s.1
                &&& r.leaf_nodes == s.2
                &&& r.internal_nodes == s.3
            }),
    {
        match children {
            None => NodeStats { total_objects: objects, max_depth: depth, leaf_nodes: 1, internal_nodes: 0 },
            Some(cs) => {
                let mut r = NodeStats { total_objects: objects, max_depth: depth, leaf_nodes: 0, internal_nodes: 1 };
                let mut i: usize = 0;
                while i < cs.len()
                    invariant
                        i <= cs@.len(),
                        ({
                            let s = node_stats_spec(objects, depth, Some(cs@.take(i as int)));
                            &&& r.total_objects == s.0
                            &&& r.max_depth == s.1
                            &&& r.leaf_nodes == s.2
                            &&& r.internal_nodes == s.3
                        }),
                        ({
                            let s = node_stats_spec(objects, depth, Some(cs@));
                            s.0 <= usize::MAX && s.2 <= usize::MAX && s.3 <= usize::MAX
                        }),
                    decreases cs@.len() - i,
                {
                    proof {
                        assert(cs@.take(i + 1).drop_last() =~= cs@.take(i as int));
                        lemma_node_stats_prefix(objects, depth, cs@, i + 1);
                    }
                    let c = cs[i];
                    r.total_objects = r.total_objects + c.total_objects;
                    if c.max_depth > r.max_depth {
                        r.max_depth = c.max_depth;
                    }
                    r.leaf_nodes = r.leaf_nodes + c.leaf_nodes;
                    r.internal_nodes = r.internal_nodes + c.internal_nodes;
                    i = i + 1;
                }
                assert(cs@.take(i as int) =~= cs@);
                r
            },
        }
    }
}

proof fn lemma_node_stats_prefix(objects: usize, depth: u8, cs: Seq<NodeStats>, n: int)
    requires
        0 <= n <= cs.len(),
    ensures
        ({
            let a = node_stats_spec(objects, depth, Some(cs.take(n)));
            let b = node_stats_spec(objects, depth, Some(cs));
            a.0 <= b.0 && a.2 <= b.2 && a.3 <= b.3 && 0 <= a.0 && 0 <= a.2 && 0 <= a.3
        }),
    decreases cs.len() - n,
{
    if n < cs.len() {
        lemma_node_stats_prefix(objects, depth, cs, n + 1);
        assert(cs.take(n + 1).drop_last() =~= cs.take(n));
        lemma_node_stats_nonneg(objects, depth, cs.take(n));
    } else {
        assert(cs.take(n) =~= cs);
        lemma_node_stats_nonneg(objects, depth, cs);
    }
}

proof fn lemma_node_stats_nonneg(objects: usize, depth: u8, cs: Seq<NodeStats>)
    ensures
        ({
            let a = node_stats_spec(objects, depth, Some(cs));
            0 <= a.0 && 0 <= a.2 && 0 <= a.3 && 0 <= a.1 <= 255
        }),
    decreases cs.len(),
{
    if cs.len() > 0 {
        lemma_node_stats_nonneg(objects, depth, cs.drop_last());
    }
}

/// Counters of a quadtree.
#[derive(Debug, Clone, Copy, PartialEq, Eq, Structural)]
pub struct QuadTreeStats {
    pub total_insertions: usize,
    pub total_queries: usize,
    pub total_removals: usize,
    pub total_clears: usize,
    pub total_rebuilds: usize,
    pub last_query_result_count: usize,
    pub current_depth: u8,
    pub leaf_nodes: usize,
    pub internal_nodes: usize,
}

impl Default for QuadTreeStats {
    /// No operations counted, and a tree of one leaf, the root.
    fn default() -> (r: Self)
        ensures
            r == (QuadTreeStats {
                total_insertions: 0,
                total_queries: 0,
                total_removals: 0,
                total_clears: 0,
                total_rebuilds: 0,
                last_query_result_count: 0,
                current_depth: 0,
                leaf_nodes: 1,
                internal_nodes: 0,
            }),
    {
        QuadTreeStats {
            total_insertions: 0,
            total_queries: 0,
            total_removals: 0,
            total_clears: 0,
            total_rebuilds: 0,
            last_query_result_count: 0,
            current_depth: 0,
            leaf_nodes: 1,
            internal_nodes: 0,
        }
    }
}

impl QuadTreeStats {
    /// The counters with the shape of the tree taken from the root's
    /// statistics.
    pub fn with_shape(&self, root: &NodeStats) -> (r: QuadTreeStats)
        ensures
            r == (QuadTreeStats {
                current_depth: root.max_depth,
                leaf_nodes: root.leaf_nodes,
                internal_nodes: root.internal_nodes,
                ..*self
            }),
    {
        QuadTreeStats {
            current_depth: root.max_depth,
            leaf_nodes: root.leaf_nodes,
            internal_nodes: root.internal_nodes,
            ..*self
        }
    }
}

} // verus!
