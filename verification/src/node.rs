//! Nodes of the topology graph: labelled points keyed by coordinate.

use vstd::prelude::*;

use crate::coord::Coord;
use crate::label::Label;

verus! {

/// A node of the topology graph: a coordinate with the label describing
/// the point's position relative to each geometry.
#[derive(Clone, Copy, Debug)]
pub struct CoordNode {
    pub coordinate: Coord,
    pub label: Label,
}

impl CoordNode {
    pub fn new(coordinate: Coord, label: Label) -> (r: CoordNode)
        ensures
            r.coordinate == coordinate,
            r.label == label,
    {
        CoordNode { coordinate, label }
    }

    pub fn coordinate(&self) -> (r: &Coord)
        ensures
            r == self.coordinate,
    {
        &self.coordinate
    }

    pub fn label(&self) -> (r: &Label)
        ensures
            r == self.label,
    {
        &self.label
    }

    /// Replace the node's label.
    pub fn set_label(&mut self, label: Label)
        ensures
            *final(self) == (CoordNode { label, ..*old(self) }),
    {
        self.label = label;
    }
}

/// Whether some node in the list sits at `coord`.
pub open spec fn spec_contains_coord(nodes: Seq<CoordNode>, coord: Coord) -> bool {
    exists|i: int| 0 <= i < nodes.len() && (#[trigger] nodes[i]).coordinate == coord
}

/// Find the position of the node at `coord`, if one is there.
pub fn find_node(nodes: &Vec<CoordNode>, coord: Coord) -> (r: Option<usize>)
    ensures
        match r {
            Option::Some(i) => i < nodes@.len() && nodes@[i as int].coordinate == coord,
            Option::None => !spec_contains_coord(nodes@, coord),
        },
{
    let mut i: usize = 0;
    let len = nodes.len();
    while i < len
        invariant
            0 <= i <= len,
            len == nodes@.len(),
            forall|j: int| 0 <= j < i ==> (#[trigger] nodes@[j]).coordinate != coord,
        decreases len - i,
    {
        if nodes[i].coordinate == coord {
            return Option::Some(i);
        }
        i += 1;
    }
    Option::None
}

} // verus!
