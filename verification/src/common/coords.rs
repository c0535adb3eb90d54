use vstd::prelude::*;
use vstd::std_specs::ops::{AddSpecImpl, SubSpecImpl};

verus! {

/// Generic 3d coordinate type.
#[derive(Clone, Copy, Debug, PartialEq, Eq, Structural)]
pub struct Coords<T> {
    pub x: T,
    pub y: T,
    pub z: T,
}

/// Generic 2d coordinate type, used on the xz plane (disregarding the y axis).
#[derive(Clone, Copy, Debug, PartialEq, Eq, Structural)]
pub struct Coords2D<T> {
    pub x: T,
    pub z: T,
}

/// A fixed-point number: it counts thousandths.
#[derive(Clone, Copy, Debug, PartialEq, Eq, Structural)]
pub struct Fixed(pub i64);

impl Fixed {
    /// The number of thousandths.
    pub fn into_inner(self) -> (raw: i64)
        ensures
            raw == self.0,
    {
        self.0
    }
}

/// A position in space as fixed-point numbers: thousandths of a cell along
/// each axis.
pub type WorldCoords = Coords<Fixed>;

/// A position in space, in whole cells.
pub type IWorldCoords = Coords<i64>;

/// Coordinates of a chunk in the world; also the coordinates that the
/// neighbourhood generators hand out.
pub type ChunkCoords = Coords<i64>;

/// Coordinates of a voxel inside a field or a chunk.
pub type VoxelCoords = Coords<u8>;

/// Signed coordinates with no predefined context.
pub type ICoords = Coords<i32>;

/// Coordinates of a voxel on the xz plane of a chunk.
pub type VoxelCoords2D = Coords2D<u8>;

/// The cross product of two vectors of integers.
pub open spec fn cross_product(a: Coords<int>, b: Coords<int>) -> Coords<int> {
    Coords {
        x: a.y * b.z - b.y * a.z,
        y: a.z * b.x - b.z * a.x,
        z: a.x * b.y - b.x * a.y,
    }
}

/// The largest magnitude of a component for which `cross` cannot overflow.
pub const CROSS_LIMIT: i64 = 0x4000_0000;

impl Coords<u8> {
    /// The voxel coordinates `(x, y, z)`.
    pub fn new(x: u8, y: u8, z: u8) -> (r: Self)
        ensures
            r == (Coords { x, y, z }),
    {
        Coords { x, y, z }
    }

    /// The coordinates as mathematical integers.
    pub open spec fn ints(self) -> Coords<int> {
        Coords { x: self.x as int, y: self.y as int, z: self.z as int }
    }
}

impl Coords<i32> {
    /// The coordinates as mathematical integers.
    pub open spec fn ints(self) -> Coords<int> {
        Coords { x: self.x as int, y: self.y as int, z: self.z as int }
    }
}

impl Coords<i64> {
    /// The coordinates `(x, y, z)`.
    pub fn new(x: i64, y: i64, z: i64) -> (r: Self)
        ensures
            r == (Coords { x, y, z }),
    {
        Coords { x, y, z }
    }

    /// The coordinates as mathematical integers.
    pub open spec fn ints(self) -> Coords<int> {
        Coords { x: self.x as int, y: self.y as int, z: self.z as int }
    }

    /// Whether every component lies within `limit` of zero.
    pub open spec fn within(self, limit: int) -> bool {
        &&& -limit <= self.x <= limit
        &&& -limit <= self.y <= limit
        &&& -limit <= self.z <= limit
    }

    /// The cross product `self x rhs`.
    pub fn cross(self, rhs: Self) -> (r: Self)
        requires
            self.within(CROSS_LIMIT as int),
            rhs.within(CROSS_LIMIT as int),
        ensures
            r.ints() == cross_product(self.ints(), rhs.ints()),
    {
        proof {
            lemma_product_bound(self.y as int, rhs.z as int, CROSS_LIMIT as int);
            lemma_product_bound(rhs.y as int, self.z as int, CROSS_LIMIT as int);
            lemma_product_bound(self.z as int, rhs.x as int, CROSS_LIMIT as int);
            lemma_product_bound(rhs.z as int, self.x as int, CROSS_LIMIT as int);
            lemma_product_bound(self.x as int, rhs.y as int, CROSS_LIMIT as int);
            lemma_product_bound(rhs.x as int, self.y as int, CROSS_LIMIT as int);
        }
        Coords {
            x: self.y * rhs.z - rhs.y * self.z,
            y: self.z * rhs.x - rhs.z * self.x,
            z: self.x * rhs.y - rhs.x * self.y,
        }
    }
}

/// The product of two numbers within `limit` of zero lies within `limit`
/// squared of zero.
pub proof fn lemma_product_bound(a: int, b: int, limit: int)
    requires
        -limit <= a <= limit,
        -limit <= b <= limit,
    ensures
        -(limit * limit) <= a * b <= limit * limit,
{
    assert(-(limit * limit) <= a * b <= limit * limit) by (nonlinear_arith)
        requires
            -limit <= a <= limit,
            -limit <= b <= limit,
    ;
}

impl Coords<Fixed> {
    /// The position with the given thousandths along each axis.
    pub fn new(x: i64, y: i64, z: i64) -> (r: Self)
        ensures
            r == (Coords { x: Fixed(x), y: Fixed(y), z: Fixed(z) }),
    {
        Coords { x: Fixed(x), y: Fixed(y), z: Fixed(z) }
    }

    /// The thousandths along each axis as mathematical integers.
    pub open spec fn ints(self) -> Coords<int> {
        Coords { x: self.x.0 as int, y: self.y.0 as int, z: self.z.0 as int }
    }

    /// The thousandths along each axis as plain integers.
    pub fn into_inners(self) -> (r: Coords<i64>)
        ensures
            r == (Coords { x: self.x.0, y: self.y.0, z: self.z.0 }),
    {
        Coords { x: self.x.into_inner(), y: self.y.into_inner(), z: self.z.into_inner() }
    }

    /// The thousandths along each axis as an array `[x, y, z]`.
    pub fn into_inners_arr(self) -> (r: [i64; 3])
        ensures
            r[0] == self.x.0,
            r[1] == self.y.0,
            r[2] == self.z.0,
    {
        [self.x.into_inner(), self.y.into_inner(), self.z.into_inner()]
    }
}

/// Whether `a + b` fits an `i64`.
pub open spec fn sum_fits(a: int, b: int) -> bool {
    i64::MIN <= a + b <= i64::MAX
}

/// Whether `a - b` fits an `i64`.
pub open spec fn difference_fits(a: int, b: int) -> bool {
    i64::MIN <= a - b <= i64::MAX
}

impl core::ops::Add for Coords<i64> {
    type Output = Coords<i64>;

    fn add(self, other: Self) -> (r: Self) {
        Coords { x: self.x + other.x, y: self.y + other.y, z: self.z + other.z }
    }
}

impl AddSpecImpl for Coords<i64> {
    open spec fn obeys_add_spec() -> bool {
        true
    }

    open spec fn add_req(self, other: Self) -> bool {
        sum_fits(self.x as int, other.x as int) && sum_fits(self.y as int, other.y as int)
            && sum_fits(self.z as int, other.z as int)
    }

    open spec fn add_spec(self, other: Self) -> Self {
        Coords {
            x: (self.x + other.x) as i64,
            y: (self.y + other.y) as i64,
            z: (self.z + other.z) as i64,
        }
    }
}

impl core::ops::Add for Coords<u8> {
    type Output = Coords<u8>;

    fn add(self, other: Self) -> (r: Self) {
        Coords { x: self.x + other.x, y: self.y + other.y, z: self.z + other.z }
    }
}

impl AddSpecImpl for Coords<u8> {
    open spec fn obeys_add_spec() -> bool {
        true
    }

    open spec fn add_req(self, other: Self) -> bool {
        self.x + other.x <= u8::MAX && self.y + other.y <= u8::MAX && self.z + other.z <= u8::MAX
    }

    open spec fn add_spec(self, other: Self) -> Self {
        Coords {
            x: (self.x + other.x) as u8,
            y: (self.y + other.y) as u8,
            z: (self.z + other.z) as u8,
        }
    }
}

impl core::ops::Add for Coords<Fixed> {
    type Output = Coords<Fixed>;

    fn add(self, other: Self) -> (r: Self) {
        Coords {
            x: Fixed(self.x.0 + other.x.0),
            y: Fixed(self.y.0 + other.y.0),
            z: Fixed(self.z.0 + other.z.0),
        }
    }
}

impl AddSpecImpl for Coords<Fixed> {
    open spec fn obeys_add_spec() -> bool {
        true
    }

    open spec fn add_req(self, other: Self) -> bool {
        sum_fits(self.x.0 as int, other.x.0 as int) && sum_fits(self.y.0 as int, other.y.0 as int)
            && sum_fits(self.z.0 as int, other.z.0 as int)
    }

    open spec fn add_spec(self, other: Self) -> Self {
        Coords {
            x: Fixed((self.x.0 + other.x.0) as i64),
            y: Fixed((self.y.0 + other.y.0) as i64),
            z: Fixed((self.z.0 + other.z.0) as i64),
        }
    }
}

impl core::ops::Sub for Coords<Fixed> {
    type Output = Coords<Fixed>;

    fn sub(self, rhs: Self) -> (r: Self) {
        Coords {
            x: Fixed(self.x.0 - rhs.x.0),
            y: Fixed(self.y.0 - rhs.y.0),
            z: Fixed(self.z.0 - rhs.z.0),
        }
    }
}

impl SubSpecImpl for Coords<Fixed> {
    open spec fn obeys_sub_spec() -> bool {
        true
    }

    open spec fn sub_req(self, rhs: Self) -> bool {
        difference_fits(self.x.0 as int, rhs.x.0 as int) && difference_fits(
            self.y.0 as int,
            rhs.y.0 as int,
        ) && difference_fits(self.z.0 as int, rhs.z.0 as int)
    }

    open spec fn sub_spec(self, rhs: Self) -> Self {
        Coords {
            x: Fixed((self.x.0 - rhs.x.0) as i64),
            y: Fixed((self.y.0 - rhs.y.0) as i64),
            z: Fixed((self.z.0 - rhs.z.0) as i64),
        }
    }
}

/// The difference of two voxel positions can be negative, so it is signed.
impl core::ops::Sub for Coords<u8> {
    type Output = Coords<i32>;

    fn sub(self, rhs: Self) -> (r: Coords<i32>) {
        Coords {
            x: self.x as i32 - rhs.x as i32,
            y: self.y as i32 - rhs.y as i32,
            z: self.z as i32 - rhs.z as i32,
        }
    }
}

impl SubSpecImpl for Coords<u8> {
    open spec fn obeys_sub_spec() -> bool {
        true
    }

    open spec fn sub_req(self, rhs: Self) -> bool {
        true
    }

    open spec fn sub_spec(self, rhs: Self) -> Coords<i32> {
        Coords {
            x: (self.x - rhs.x) as i32,
            y: (self.y - rhs.y) as i32,
            z: (self.z - rhs.z) as i32,
        }
    }
}

} // verus!
