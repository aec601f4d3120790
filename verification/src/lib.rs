//! A topological relate engine: builds a planar topology graph from two
//! geometries and derives the dimensionally extended nine-intersection
//! matrix (DE-9IM) relating them.
//!
//! Coordinates are exact integers, so every geometric predicate in the
//! kernel is computed without rounding error.

pub mod coord;
pub mod edge;
pub mod edge_end;
pub mod edge_end_bundle;
pub mod edge_set_intersector;
pub mod geometry;
pub mod intersection_matrix;
pub mod kernel;
pub mod label;
pub mod node;
pub mod position;
pub mod quadrant;
pub mod relate;
pub mod segment_intersector;
pub mod topology_position;

pub use coord::{Coord, Line};
pub use edge::{Edge, EdgeIntersection};
pub use edge_end::{EdgeEnd, EdgeEndKey};
pub use edge_end_bundle::{EdgeEndBundle, LabeledEdgeEndBundle};
pub use geometry::{Geometry, PolygonGeom};
pub use intersection_matrix::IntersectionMatrix;
pub use kernel::{LineIntersection, Orientation};
pub use label::Label;
pub use node::CoordNode;
pub use position::{CoordPos, Dimensions, Direction};
pub use quadrant::Quadrant;
pub use relate::{relate, GeometryGraph, RelateError};
pub use segment_intersector::SegmentIntersector;
pub use topology_position::TopologyPosition;
