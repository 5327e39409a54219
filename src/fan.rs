//! Fan triangulation: every triangle shares the polygon's first corner.
use vstd::prelude::*;
use crate::obj::VertexDataReference;

verus! {

/// The corners of the fan of `c`, three per triangle: triangle `t` is
/// `(c[0], c[t + 1], c[t + 2])`. A triangle, or anything smaller, is left as it is.
pub open spec fn fan(c: Seq<VertexDataReference>) -> Seq<VertexDataReference> {
    if c.len() > 3 {
        Seq::new(
            (3 * (c.len() - 2)) as nat,
            |k: int|
                if k % 3 == 0 {
                    c[0]
                } else if k % 3 == 1 {
                    c[k / 3 + 1]
                } else {
                    c[k / 3 + 2]
                },
        )
    } else {
        c
    }
}

/// Triangulates a convex polygon by the fan algorithm.
pub fn triangulate(vertex_references: &Vec<VertexDataReference>) -> (r: Vec<VertexDataReference>)
    requires
        vertex_references@.len() <= usize::MAX / 3,
    ensures
        r@ == fan(vertex_references@),
{
    let c = vertex_references;
    let mut result: Vec<VertexDataReference> = Vec::new();
    if c.len() > 3 {
        let mut i: usize = 1;
        while i < c.len() - 1
            invariant
                c@.len() > 3,
                c@.len() <= usize::MAX / 3,
                1 <= i <= c@.len() - 1,
                result@.len() == 3 * (i - 1),
                forall|k: int| 0 <= k < result@.len() ==> #[trigger] result@[k] == fan(c@)[k],
            decreases c@.len() - i,
        {
            result.push(c[0]);
            result.push(c[i]);
            result.push(c[i + 1]);
            proof {
                assert forall|k: int| 0 <= k < result@.len() implies #[trigger] result@[k] == fan(
                    c@,
                )[k] by {
                    if k >= 3 * (i - 1) {
                        assert(k / 3 == i - 1 && (k % 3 == k - 3 * (i - 1)));
                    }
                }
            }
            i = i + 1;
        }
        assert(result@ =~= fan(c@));
    } else {
        let mut k: usize = 0;
        while k < c.len()
            invariant
                k <= c@.len(),
                result@ == c@.take(k as int),
            decreases c@.len() - k,
        {
            result.push(c[k]);
            k = k + 1;
            assert(result@ =~= c@.take(k as int));
        }
        assert(c@.take(k as int) =~= c@);
    }
    result
}

} // verus!
