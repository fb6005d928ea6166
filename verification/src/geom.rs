//! Spatial math: half-extents and the axis-aligned bounding-box overlap test.

use vstd::prelude::*;

verus! {

/// Half-extent of a sprite along one axis: nominal size times the sprite
/// scale, halved. Sizes and scales are in milli, so the product carries a
/// factor of one million that the division removes together with the half.
pub open spec fn spec_half_extent(size_milli: u64, scale_milli: u64) -> int {
    (size_milli * scale_milli) as int / 2000
}

/// Two centered rectangles overlap when they intersect with positive area
/// on both axes: strict inequality, so boxes that merely touch do not
/// count as overlapping.
pub open spec fn spec_aabb_overlap(
    ax: int, ay: int, ahx: int, ahy: int,
    bx: int, by: int, bhx: int, bhy: int,
) -> bool {
    &&& ax - ahx < bx + bhx
    &&& bx - bhx < ax + ahx
    &&& ay - ahy < by + bhy
    &&& by - bhy < ay + ahy
}

/// The overlap test does not depend on the order of its two boxes.
pub proof fn lemma_aabb_overlap_symmetric(
    ax: int, ay: int, ahx: int, ahy: int,
    bx: int, by: int, bhx: int, bhy: int,
)
    ensures
        spec_aabb_overlap(ax, ay, ahx, ahy, bx, by, bhx, bhy)
            == spec_aabb_overlap(bx, by, bhx, bhy, ax, ay, ahx, ahy),
{
}

/// Computes a sprite's collision half-extent along one axis.
pub fn half_extent(size_milli: u64, scale_milli: u64) -> (r: u64)
    requires
        size_milli <= 1_000_000,
        scale_milli <= 1000,
    ensures
        r == spec_half_extent(size_milli, scale_milli),
        r <= 500_000,
{
    proof {
        assert(size_milli * scale_milli <= 1_000_000_000) by (nonlinear_arith)
            requires
                size_milli <= 1_000_000,
                scale_milli <= 1000,
        ;
    }
    (size_milli * scale_milli) / 2000
}

/// Separating-axis overlap test on two centered rectangles given their
/// centers and half-extents.
pub fn aabb_overlap(
    ax: i64, ay: i64, ahx: u64, ahy: u64,
    bx: i64, by: i64, bhx: u64, bhy: u64,
) -> (r: bool)
    requires
        -crate::POS_LIMIT_MILLI <= ax <= crate::POS_LIMIT_MILLI,
        -crate::POS_LIMIT_MILLI <= ay <= crate::POS_LIMIT_MILLI,
        -crate::POS_LIMIT_MILLI <= bx <= crate::POS_LIMIT_MILLI,
        -crate::POS_LIMIT_MILLI <= by <= crate::POS_LIMIT_MILLI,
        ahx <= 1_000_000,
        ahy <= 1_000_000,
        bhx <= 1_000_000,
        bhy <= 1_000_000,
    ensures
        r == spec_aabb_overlap(
            ax as int, ay as int, ahx as int, ahy as int,
            bx as int, by as int, bhx as int, bhy as int,
        ),
{
    let ahxi: i64 = ahx as i64;
    let ahyi: i64 = ahy as i64;
    let bhxi: i64 = bhx as i64;
    let bhyi: i64 = bhy as i64;
    ax - ahxi < bx + bhxi
        && bx - bhxi < ax + ahxi
        && ay - ahyi < by + bhyi
        && by - bhyi < ay + ahyi
}

} // verus!
