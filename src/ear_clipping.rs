//! Ear clipping triangulation, for concave polygons: not provided.
use vstd::prelude::*;
use crate::obj::VertexDataReference;

verus! {

/// Ear clipping is not implemented: every call says so by returning `None`,
/// rather than falling back to another algorithm.
pub fn triangulate(vertex_references: &Vec<VertexDataReference>) -> (r: Option<Vec<VertexDataReference>>)
    ensures
        r is None,
{
    None
}

} // verus!
