use vstd::prelude::*;

use crate::types::Coord;
use crate::types::Level;
use crate::types::VoxelSample;
use crate::types::is_voxel;

verus! {

/// An axis-aligned extent over a stream of positions, only ever widened by
/// `extend`.
///
/// The initial state holds the identity of componentwise min/max over `i64`
/// (`i64::MAX` below, `i64::MIN` above), standing in for the infinities of an
/// extent over the reals: an accumulator that never receives a point stays in
/// this degenerate state, which callers must treat as the explicit
/// "zero points" case rather than read sizes out of it.
#[derive(Clone, Copy, Debug, PartialEq, Eq, Structural)]
pub struct AABB {
    pub min: Coord,
    pub max: Coord,
}

pub open spec fn spec_min(a: i64, b: i64) -> i64 {
    if a <= b {
        a
    } else {
        b
    }
}

pub open spec fn spec_max(a: i64, b: i64) -> i64 {
    if a >= b {
        a
    } else {
        b
    }
}

impl AABB {
    /// The state before any point was fed: the identity of an extend-only
    /// accumulation.
    pub open spec fn spec_identity() -> AABB {
        AABB {
            min: Coord { x: i64::MAX, y: i64::MAX, z: i64::MAX },
            max: Coord { x: i64::MIN, y: i64::MIN, z: i64::MIN },
        }
    }

    /// Holds exactly when no point was ever fed: the box spans no position.
    pub open spec fn spec_is_degenerate(self) -> bool {
        self.min.x > self.max.x
    }

    /// What one `extend` call does, as a value-level function.
    pub open spec fn spec_extend(self, p: Coord) -> AABB {
        AABB {
            min: Coord {
                x: spec_min(self.min.x, p.x),
                y: spec_min(self.min.y, p.y),
                z: spec_min(self.min.z, p.z),
            },
            max: Coord {
                x: spec_max(self.max.x, p.x),
                y: spec_max(self.max.y, p.y),
                z: spec_max(self.max.z, p.z),
            },
        }
    }

    /// Widens the box so that it covers `p`, componentwise.
    pub fn extend(&mut self, p: Coord)
        ensures
            *final(self) == old(self).spec_extend(p),
    {
        if p.x < self.min.x {
            self.min.x = p.x;
        }
        if p.y < self.min.y {
            self.min.y = p.y;
        }
        if p.z < self.min.z {
            self.min.z = p.z;
        }
        if p.x > self.max.x {
            self.max.x = p.x;
        }
        if p.y > self.max.y {
            self.max.y = p.y;
        }
        if p.z > self.max.z {
            self.max.z = p.z;
        }
    }

    /// Reports whether the box is still in its initial, point-free state.
    pub fn is_degenerate(&self) -> (r: bool)
        ensures
            r == self.spec_is_degenerate(),
    {
        self.min.x > self.max.x
    }
}

impl Default for AABB {
    /// Starts the accumulator in the identity state.
    fn default() -> (r: Self)
        ensures
            r == AABB::spec_identity(),
    {
        AABB {
            min: Coord { x: i64::MAX, y: i64::MAX, z: i64::MAX },
            max: Coord { x: i64::MIN, y: i64::MIN, z: i64::MIN },
        }
    }
}

/// The box reached by extending the identity with every point of `s`, in
/// order.
pub open spec fn accumulate(s: Seq<Coord>) -> AABB
    decreases s.len(),
{
    if s.len() == 0 {
        AABB::spec_identity()
    } else {
        accumulate(s.drop_last()).spec_extend(s.last())
    }
}

/// The positions of the voxel-level samples of `s`, in order; samples from
/// coarser levels contribute nothing.
pub open spec fn voxel_positions(s: Seq<VoxelSample>) -> Seq<Coord>
    decreases s.len(),
{
    if s.len() == 0 {
        Seq::empty()
    } else if is_voxel(s.last()) {
        voxel_positions(s.drop_last()).push(s.last().pos)
    } else {
        voxel_positions(s.drop_last())
    }
}

/// The bounding box of the voxel-level samples of `s`.
pub open spec fn scan_box(s: Seq<VoxelSample>) -> AABB {
    accumulate(voxel_positions(s))
}

/// The accumulated minimum of each component is a lower bound on every point
/// fed and, once any point was fed, is attained by one of them; symmetrically
/// for the maximum; an accumulator fed no point stays at the identity
/// extremes. Together these pin the result of any sequence of `extend` calls
/// to the componentwise min/max of the points, independent of their order.
pub proof fn lemma_accumulate_componentwise(s: Seq<Coord>)
    ensures
        forall|i: int|
            0 <= i < s.len() ==> accumulate(s).min.x <= #[trigger] s[i].x
                && accumulate(s).min.y <= s[i].y && accumulate(s).min.z <= s[i].z,
        forall|i: int|
            0 <= i < s.len() ==> #[trigger] s[i].x <= accumulate(s).max.x
                && s[i].y <= accumulate(s).max.y && s[i].z <= accumulate(s).max.z,
        s.len() > 0 ==> exists|i: int| 0 <= i < s.len() && accumulate(s).min.x == #[trigger] s[i].x,
        s.len() > 0 ==> exists|i: int| 0 <= i < s.len() && accumulate(s).min.y == #[trigger] s[i].y,
        s.len() > 0 ==> exists|i: int| 0 <= i < s.len() && accumulate(s).min.z == #[trigger] s[i].z,
        s.len() > 0 ==> exists|i: int| 0 <= i < s.len() && accumulate(s).max.x == #[trigger] s[i].x,
        s.len() > 0 ==> exists|i: int| 0 <= i < s.len() && accumulate(s).max.y == #[trigger] s[i].y,
        s.len() > 0 ==> exists|i: int| 0 <= i < s.len() && accumulate(s).max.z == #[trigger] s[i].z,
        s.len() == 0 ==> accumulate(s) == AABB::spec_identity(),
    decreases s.len(),
{
    if s.len() > 0 {
        lemma_accumulate_componentwise(s.drop_last());
        let prev = accumulate(s.drop_last());
        let last = s.last();
        assert(s.drop_last().len() == s.len() - 1);
        assert forall|i: int|
            0 <= i < s.len() implies accumulate(s).min.x <= #[trigger] s[i].x
            && accumulate(s).min.y <= s[i].y && accumulate(s).min.z <= s[i].z by {
            if i < s.len() - 1 {
                assert(s[i] == s.drop_last()[i]);
            }
        }
        assert forall|i: int|
            0 <= i < s.len() implies #[trigger] s[i].x <= accumulate(s).max.x
            && s[i].y <= accumulate(s).max.y && s[i].z <= accumulate(s).max.z by {
            if i < s.len() - 1 {
                assert(s[i] == s.drop_last()[i]);
            }
        }
        if s.len() > 1 {
            if prev.min.x <= last.x {
                let i = choose|i: int|
                    0 <= i < s.drop_last().len() && prev.min.x == #[trigger] s.drop_last()[i].x;
                assert(accumulate(s).min.x == s[i].x);
            }
            if prev.min.y <= last.y {
                let i = choose|i: int|
                    0 <= i < s.drop_last().len() && prev.min.y == #[trigger] s.drop_last()[i].y;
                assert(accumulate(s).min.y == s[i].y);
            }
            if prev.min.z <= last.z {
                let i = choose|i: int|
                    0 <= i < s.drop_last().len() && prev.min.z == #[trigger] s.drop_last()[i].z;
                assert(accumulate(s).min.z == s[i].z);
            }
            if prev.max.x >= last.x {
                let i = choose|i: int|
                    0 <= i < s.drop_last().len() && prev.max.x == #[trigger] s.drop_last()[i].x;
                assert(accumulate(s).max.x == s[i].x);
            }
            if prev.max.y >= last.y {
                let i = choose|i: int|
                    0 <= i < s.drop_last().len() && prev.max.y == #[trigger] s.drop_last()[i].y;
                assert(accumulate(s).max.y == s[i].y);
            }
            if prev.max.z >= last.z {
                let i = choose|i: int|
                    0 <= i < s.drop_last().len() && prev.max.z == #[trigger] s.drop_last()[i].z;
                assert(accumulate(s).max.z == s[i].z);
            }
        }
    }
}

/// Extending with the points of `s` and then with `p` is extending with the
/// points of `s.push(p)`.
proof fn lemma_accumulate_push(s: Seq<Coord>, p: Coord)
    ensures
        accumulate(s.push(p)) == accumulate(s).spec_extend(p),
{
    assert(s.push(p).drop_last() =~= s);
    assert(s.push(p).last() == p);
}

/// Feeds the positions of all voxel-level samples, in order, to a fresh
/// accumulator and returns it; coarser-level samples are excluded.
pub fn scan_bounding_box(samples: &Vec<VoxelSample>) -> (r: AABB)
    ensures
        r == scan_box(samples@),
{
    let mut b = AABB::default();
    let mut i: usize = 0;
    while i < samples.len()
        invariant
            0 <= i <= samples@.len(),
            b == accumulate(voxel_positions(samples@.take(i as int))),
        decreases samples@.len() - i,
    {
        let s = samples[i];
        proof {
            lemma_voxel_positions_take_step(samples@, i as int);
            if is_voxel(samples@[i as int]) {
                lemma_accumulate_push(voxel_positions(samples@.take(i as int)), samples@[i as int].pos);
            }
        }
        if matches!(s.level, Level::Voxel) {
            b.extend(s.pos);
        }
        i = i + 1;
    }
    proof {
        assert(samples@.take(samples@.len() as int) =~= samples@);
    }
    b
}

/// Every voxel-level sample's position occurs among the accumulated
/// positions.
pub proof fn lemma_voxel_position_present(s: Seq<VoxelSample>, j: int)
    requires
        0 <= j < s.len(),
        is_voxel(s[j]),
    ensures
        exists|k: int|
            0 <= k < voxel_positions(s).len() && voxel_positions(s)[k] == s[j].pos,
    decreases s.len(),
{
    if j == s.len() - 1 {
        let k = voxel_positions(s).len() - 1;
        assert(voxel_positions(s)[k] == s[j].pos);
    } else {
        assert(s.drop_last()[j] == s[j]);
        lemma_voxel_position_present(s.drop_last(), j);
        let k = choose|k: int|
            0 <= k < voxel_positions(s.drop_last()).len() && voxel_positions(s.drop_last())[k]
                == s[j].pos;
        assert(voxel_positions(s)[k] == s[j].pos);
    }
}

/// Unfolds `voxel_positions` one position at a time along a prefix.
proof fn lemma_voxel_positions_take_step(s: Seq<VoxelSample>, i: int)
    requires
        0 <= i < s.len(),
    ensures
        voxel_positions(s.take(i + 1)) == if is_voxel(s[i]) {
            voxel_positions(s.take(i)).push(s[i].pos)
        } else {
            voxel_positions(s.take(i))
        },
{
    assert(s.take(i + 1).drop_last() =~= s.take(i));
    assert(s.take(i + 1).last() == s[i]);
}

} // verus!
