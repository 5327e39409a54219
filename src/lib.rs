//! Wavefront OBJ / MTL loading: a line-oriented parser for geometry and
//! material files, material resolution and fan triangulation of faces.
use vstd::prelude::*;

pub mod ear_clipping;
pub mod fan;
pub mod laws;
pub mod mtl;
pub mod number;
pub mod obj;
pub mod text;

verus! {

/// Sum of two counters.
pub fn add(left: u64, right: u64) -> (r: u64)
    requires
        left + right <= u64::MAX,
    ensures
        r == left + right,
{
    left + right
}

/// One step of Marsaglia's xorshift generator on 32-bit words.
pub open spec fn xorshift_step(num: u32) -> u32 {
    let a = num ^ ((num << 13u32) as u32);
    let b = a ^ (a >> 17u32);
    b ^ ((b << 5u32) as u32)
}

/// Pseudorandom successor of `num` (xorshift with shifts 13, 17, 5).
pub fn gen_u32(num: u32) -> (r: u32)
    ensures
        r == xorshift_step(num),
{
    let mut random: u32 = num;
    random = random ^ (random << 13u32);
    random = random ^ (random >> 17u32);
    random = random ^ (random << 5u32);
    random
}

} // verus!
