//! The in-memory network model handed to the scene mapper: one
//! sub-graph per transport mode, each with 2-D node positions (fixed
//! point) and edges referencing node indices within that mode.

use vstd::prelude::*;
use crate::fixed::{spec_planar_length, planar_length, fx_sub, sub_fx};

verus! {

#[derive(Clone, Copy, Debug, PartialEq, Eq, Structural)]
pub enum TransportMode {
    Car,
    Bike,
    Walk,
    Transit,
}

#[derive(Clone, Copy, Debug, PartialEq, Eq, Structural)]
pub enum NodeType {
    Intersection,
    MidblockCrossing,
    TransitStop,
    Terminus,
}

/// A network node: a 2-D position (fixed-point subunits) plus
/// descriptive attributes the scene mapper does not read.
#[derive(Debug)]
pub struct Node {
    pub id: usize,
    pub position: (i64, i64),
    pub node_type: NodeType,
    pub physical_attributes: Vec<String>,
    pub turn_restrictions: Vec<(usize, usize)>,
}

/// A network edge between two node indices of the same mode.
#[derive(Debug)]
pub struct Edge {
    pub id: usize,
    pub from_node: usize,
    pub to_node: usize,
    pub facility_type: String,
    pub physical_attributes: Vec<String>,
}

/// The sub-graph of one transport mode.
#[derive(Debug)]
pub struct ModeGraph {
    pub mode: TransportMode,
    pub nodes: Vec<Node>,
    pub edges: Vec<Edge>,
}

/// A transport network: at most one sub-graph per mode.
#[derive(Debug)]
pub struct Network {
    pub graphs: Vec<ModeGraph>,
}

/// The first sub-graph of the given mode, if any, scanning from `i`.
pub open spec fn spec_find_graph(gs: Seq<ModeGraph>, m: TransportMode, i: int) -> Option<int>
    decreases gs.len() - i,
{
    if 0 <= i < gs.len() {
        if gs[i].mode == m {
            Some(i)
        } else {
            spec_find_graph(gs, m, i + 1)
        }
    } else {
        None
    }
}

impl ModeGraph {
    /// Every edge references nodes of this sub-graph.
    pub open spec fn edges_wf(self) -> bool {
        forall|e: int|
            0 <= e < self.edges@.len() ==> (#[trigger] self.edges@[e]).from_node
                < self.nodes@.len() && self.edges@[e].to_node < self.nodes@.len()
    }
}

impl Network {
    /// The sub-graph of a mode, if the network has one.
    pub open spec fn spec_graph_of(self, m: TransportMode) -> Option<int> {
        spec_find_graph(self.graphs@, m, 0)
    }

    /// How many nodes the sub-graph of a mode has (0 without one).
    pub open spec fn spec_mode_nodes_len(self, m: TransportMode) -> int {
        match self.spec_graph_of(m) {
            Some(gi) => self.graphs@[gi].nodes@.len() as int,
            None => 0,
        }
    }

    /// How many edges the sub-graph of a mode has (0 without one).
    pub open spec fn spec_mode_edges_len(self, m: TransportMode) -> int {
        match self.spec_graph_of(m) {
            Some(gi) => self.graphs@[gi].edges@.len() as int,
            None => 0,
        }
    }

    /// Well-formed: one sub-graph per mode, valid edge endpoints, and
    /// sizes small enough that every scene node id fits in `u32`.
    pub open spec fn wf(self) -> bool {
        &&& forall|i: int, j: int|
            0 <= i < j < self.graphs@.len() ==> (#[trigger] self.graphs@[i]).mode != (
            #[trigger] self.graphs@[j]).mode
        &&& forall|i: int| 0 <= i < self.graphs@.len() ==> (#[trigger] self.graphs@[i]).edges_wf()
        &&& forall|i: int|
            0 <= i < self.graphs@.len() ==> (#[trigger] self.graphs@[i]).nodes@.len() <= 0x800_0000
                && self.graphs@[i].edges@.len() <= 0x800_0000
    }

    pub fn new() -> (n: Network)
        ensures
            n.graphs@.len() == 0,
            n.wf(),
    {
        Network { graphs: Vec::new() }
    }

    /// Find the sub-graph of a mode.
    pub fn find_graph(&self, mode: TransportMode) -> (r: Option<usize>)
        ensures
            match r {
                Some(gi) => self.spec_graph_of(mode) == Some(gi as int) && gi
                    < self.graphs@.len(),
                None => self.spec_graph_of(mode) is None,
            },
    {
        let n = self.graphs.len();
        for i in 0..n
            invariant
                n == self.graphs@.len(),
                spec_find_graph(self.graphs@, mode, 0) == spec_find_graph(
                    self.graphs@,
                    mode,
                    i as int,
                ),
        {
            if self.graphs[i].mode == mode {
                return Some(i);
            }
        }
        None
    }
}

impl Edge {
    /// The horizontal length of an edge, from its endpoints' positions
    /// (differences saturate into the stored range first).
    pub fn length(&self, graph: &ModeGraph) -> (r: i64)
        requires
            self.from_node < graph.nodes@.len(),
            self.to_node < graph.nodes@.len(),
        ensures
            r as int == spec_planar_length(
                fx_sub(
                    graph.nodes@[self.to_node as int].position.0 as int,
                    graph.nodes@[self.from_node as int].position.0 as int,
                ),
                fx_sub(
                    graph.nodes@[self.to_node as int].position.1 as int,
                    graph.nodes@[self.from_node as int].position.1 as int,
                ),
            ),
    {
        let from = &graph.nodes[self.from_node];
        let to = &graph.nodes[self.to_node];
        let dx = sub_fx(to.position.0, from.position.0);
        let dz = sub_fx(to.position.1, from.position.1);
        planar_length(dx, dz)
    }
}

} // verus!
