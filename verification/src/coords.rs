//! Tile coordinates and their addresses in the quad tree.
//!
//! The world is a square that each zoom level splits once more: level `z`
//! has `2^z` columns and as many rows. A tile that lies on that grid has an
//! address, its quad key. The root tile has key 1, and the key of any other
//! tile is four times the key of its parent plus the number of the quadrant
//! (0 to 3) that it fills in the parent.

use vstd::prelude::*;

verus! {

/// The deepest zoom level that has addresses.
pub const MAX_ZOOM: u8 = 30;

/// A tile of the world grid: column `x` and row `y` at zoom level `z`.
///
/// Any three numbers make a value of this type. Only those on the grid have
/// an address, see [`TileCoordinate::has_address`].
#[derive(Clone, Copy, Debug, PartialEq, Eq, Structural, Hash)]
pub struct TileCoordinate {
    pub x: i32,
    pub y: i32,
    pub z: u8,
}

/// Number of columns (and of rows) at zoom level `z`: two to the power `z`.
pub open spec fn tiles_per_axis(z: nat) -> nat
    decreases z,
{
    if z == 0 {
        1
    } else {
        2 * tiles_per_axis((z - 1) as nat)
    }
}

/// The quad key of the tile in column `x` and row `y` of level `z`.
pub open spec fn quad_key_of(x: nat, y: nat, z: nat) -> nat
    decreases z,
{
    if z == 0 {
        1
    } else {
        4 * quad_key_of(x / 2, y / 2, (z - 1) as nat) + (x % 2) + 2 * (y % 2)
    }
}

/// A deeper level has at least as many columns.
pub proof fn lemma_tiles_per_axis_monotonic(a: nat, b: nat)
    requires
        a <= b,
    ensures
        1 <= tiles_per_axis(a) <= tiles_per_axis(b),
    decreases b,
{
    if b == 0 {
    } else if a == b {
        lemma_tiles_per_axis_monotonic(0, (b - 1) as nat);
    } else {
        lemma_tiles_per_axis_monotonic(a, (b - 1) as nat);
    }
}

/// No level with addresses has more than `2^30` columns.
pub proof fn lemma_tiles_per_axis_bound(z: nat)
    requires
        z <= MAX_ZOOM,
    ensures
        1 <= tiles_per_axis(z) <= 0x4000_0000,
{
    lemma_tiles_per_axis_monotonic(z, 30);
    assert(tiles_per_axis(30) == 0x4000_0000) by {
        reveal_with_fuel(tiles_per_axis, 31);
    }
}

/// The keys of level `z` fill the range from `4^z` up to, but not
/// including, `2 * 4^z`.
pub proof fn lemma_quad_key_range(x: nat, y: nat, z: nat)
    ensures
        tiles_per_axis(z) * tiles_per_axis(z) <= quad_key_of(x, y, z),
        quad_key_of(x, y, z) < 2 * (tiles_per_axis(z) * tiles_per_axis(z)),
    decreases z,
{
    if z == 0 {
        let t = tiles_per_axis(0);
        assert(t * t == 1) by (nonlinear_arith)
            requires
                t == 1,
        ;
    } else {
        let p = tiles_per_axis((z - 1) as nat);
        lemma_quad_key_range(x / 2, y / 2, (z - 1) as nat);
        assert((2 * p) * (2 * p) == 4 * (p * p)) by (nonlinear_arith);
    }
}

/// Keys grow with the level: a tile of a higher level has a larger key than
/// any tile of a lower level.
pub proof fn lemma_quad_key_orders_levels(x1: nat, y1: nat, z1: nat, x2: nat, y2: nat, z2: nat)
    requires
        z1 < z2,
    ensures
        quad_key_of(x1, y1, z1) < quad_key_of(x2, y2, z2),
{
    let p1 = tiles_per_axis(z1);
    let q = tiles_per_axis((z2 - 1) as nat);
    lemma_quad_key_range(x1, y1, z1);
    lemma_quad_key_range(x2, y2, z2);
    lemma_tiles_per_axis_monotonic(z1, (z2 - 1) as nat);
    assert(p1 * p1 <= q * q) by (nonlinear_arith)
        requires
            0 <= p1 <= q,
    ;
    assert((2 * q) * (2 * q) == 4 * (q * q)) by (nonlinear_arith);
}

/// On one level, two tiles of the grid with the same key are the same tile.
pub proof fn lemma_quad_key_of_injective(x1: nat, y1: nat, x2: nat, y2: nat, z: nat)
    requires
        x1 < tiles_per_axis(z),
        y1 < tiles_per_axis(z),
        x2 < tiles_per_axis(z),
        y2 < tiles_per_axis(z),
        quad_key_of(x1, y1, z) == quad_key_of(x2, y2, z),
    ensures
        x1 == x2,
        y1 == y2,
    decreases z,
{
    if z > 0 {
        lemma_quad_key_of_injective(x1 / 2, y1 / 2, x2 / 2, y2 / 2, (z - 1) as nat);
    }
}

impl TileCoordinate {
    /// The tile in column `x` and row `y` of level `z`.
    pub fn new(x: i32, y: i32, z: u8) -> (coords: Self)
        ensures
            coords == (TileCoordinate { x, y, z }),
    {
        TileCoordinate { x, y, z }
    }

    /// Whether the tile lies on the grid of a level that has addresses.
    pub open spec fn has_address(self) -> bool {
        &&& self.z <= MAX_ZOOM
        &&& 0 <= self.x < tiles_per_axis(self.z as nat)
        &&& 0 <= self.y < tiles_per_axis(self.z as nat)
    }

    /// The tile's quad key. It means something only for a tile that
    /// [`has_address`](Self::has_address).
    pub open spec fn quad_key(self) -> nat {
        quad_key_of(self.x as nat, self.y as nat, self.z as nat)
    }

    /// The tile's quad key, or `None` for a tile that has no address: one
    /// beyond the deepest level, or off the grid of its level.
    pub fn build_quad_key(&self) -> (key: Option<u64>)
        ensures
            key is Some <==> self.has_address(),
            key matches Some(k) ==> k == self.quad_key(),
    {
        if self.z > MAX_ZOOM {
            return None;
        }
        let bound: u32 = axis_len(self.z);
        if self.x < 0 || self.y < 0 {
            return None;
        }
        let x: u32 = self.x as u32;
        let y: u32 = self.y as u32;
        if x >= bound || y >= bound {
            return None;
        }
        let mut rest_x: u32 = x;
        let mut rest_y: u32 = y;
        let mut digits: u64 = 0;
        let mut weight: u64 = 1;
        let mut level: u8 = 0;
        proof {
            lemma_tiles_per_axis_bound(0);
        }
        while level < self.z
            invariant
                level <= self.z <= MAX_ZOOM,
                weight == tiles_per_axis(level as nat) * tiles_per_axis(level as nat),
                digits < weight,
                quad_key_of(x as nat, y as nat, self.z as nat) == weight * quad_key_of(
                    rest_x as nat,
                    rest_y as nat,
                    (self.z - level) as nat,
                ) + digits,
            decreases self.z - level,
        {
            let quadrant: u64 = (rest_x % 2) as u64 + 2 * ((rest_y % 2) as u64);
            proof {
                let t = tiles_per_axis(level as nat);
                let deeper = quad_key_of(
                    (rest_x / 2) as nat,
                    (rest_y / 2) as nat,
                    (self.z - level - 1) as nat,
                );
                lemma_tiles_per_axis_bound(level as nat);
                lemma_tiles_per_axis_bound((level + 1) as nat);
                assert(t * t <= 0x4000_0000 * 0x4000_0000) by (nonlinear_arith)
                    requires
                        0 <= t <= 0x4000_0000,
                ;
                assert((2 * t) * (2 * t) == 4 * (t * t)) by (nonlinear_arith);
                assert(weight * (4 * deeper + quadrant) == (4 * weight) * deeper + weight
                    * quadrant) by (nonlinear_arith);
                assert(weight * quadrant <= weight * 3) by (nonlinear_arith)
                    requires
                        quadrant <= 3,
                        weight >= 0,
                ;
            }
            digits = digits + weight * quadrant;
            weight = weight * 4;
            rest_x = rest_x / 2;
            rest_y = rest_y / 2;
            level = level + 1;
        }
        proof {
            let t = tiles_per_axis(self.z as nat);
            lemma_tiles_per_axis_bound(self.z as nat);
            assert(t * t <= 0x4000_0000 * 0x4000_0000) by (nonlinear_arith)
                requires
                    0 <= t <= 0x4000_0000,
            ;
            assert(weight * 1 == weight) by (nonlinear_arith);
        }
        Some(weight + digits)
    }
}

/// Number of columns at zoom level `z`.
pub(crate) fn axis_len(z: u8) -> (n: u32)
    requires
        z <= MAX_ZOOM,
    ensures
        n == tiles_per_axis(z as nat),
{
    let mut n: u32 = 1;
    let mut level: u8 = 0;
    while level < z
        invariant
            level <= z <= MAX_ZOOM,
            n == tiles_per_axis(level as nat),
        decreases z - level,
    {
        proof {
            lemma_tiles_per_axis_bound((level + 1) as nat);
        }
        n = n * 2;
        level = level + 1;
    }
    n
}

/// A quad key names one tile: two tiles with addresses and the same key are
/// the same tile.
pub proof fn lemma_quad_key_injective(a: TileCoordinate, b: TileCoordinate)
    requires
        a.has_address(),
        b.has_address(),
        a.quad_key() == b.quad_key(),
    ensures
        a == b,
{
    if a.z < b.z {
        lemma_quad_key_orders_levels(
            a.x as nat,
            a.y as nat,
            a.z as nat,
            b.x as nat,
            b.y as nat,
            b.z as nat,
        );
    } else if b.z < a.z {
        lemma_quad_key_orders_levels(
            b.x as nat,
            b.y as nat,
            b.z as nat,
            a.x as nat,
            a.y as nat,
            a.z as nat,
        );
    } else {
        lemma_quad_key_of_injective(a.x as nat, a.y as nat, b.x as nat, b.y as nat, a.z as nat);
    }
}

/// The key of a tile with an address fits in 62 bits.
pub proof fn lemma_quad_key_fits(c: TileCoordinate)
    requires
        c.has_address(),
    ensures
        1 <= c.quad_key() < 0x2000_0000_0000_0000,
{
    let t = tiles_per_axis(c.z as nat);
    lemma_tiles_per_axis_bound(c.z as nat);
    lemma_quad_key_range(c.x as nat, c.y as nat, c.z as nat);
    assert(1 <= t * t <= 0x4000_0000 * 0x4000_0000) by (nonlinear_arith)
        requires
            1 <= t <= 0x4000_0000,
    ;
}

/// As 64-bit numbers too, the keys tell tiles apart: no other tile with an
/// address has the key of `c`.
pub proof fn lemma_quad_key_identifies_tile(c: TileCoordinate)
    requires
        c.has_address(),
    ensures
        forall|other: TileCoordinate|
            other.has_address() && (#[trigger] other.quad_key()) as u64 == c.quad_key() as u64
                ==> other == c,
{
    assert forall|other: TileCoordinate|
        other.has_address() && (#[trigger] other.quad_key()) as u64 == c.quad_key() as u64
            implies other == c by {
        lemma_quad_key_fits(c);
        lemma_quad_key_fits(other);
        lemma_quad_key_injective(other, c);
    }
}

} // verus!
