use vstd::prelude::*;
use crate::common::coords::{ChunkCoords, Coords};

verus! {

/// Walks through the 27 positions of the cube of side 3 around a position,
/// x running fastest, then y, then z; the position itself is left out on
/// request.
#[derive(Clone, Copy)]
pub struct CoordsNeighboursIter {
    x: i64,
    y: i64,
    z: i64,
    pos: ChunkCoords,
    include_self: bool,
}

/// The offset that the walk hands out after `offset`. Past the last offset,
/// `(1, 1, 1)`, it rests at `(-1, -1, 2)`.
pub open spec fn next_neighbour_offset(offset: Coords<int>, include_self: bool) -> Coords<int> {
    if offset.x + 1 > 1 {
        if offset.y + 1 > 1 {
            Coords { x: -1, y: -1, z: offset.z + 1 }
        } else {
            Coords { x: -1, y: offset.y + 1, z: offset.z }
        }
    } else if !include_self && offset.x + 1 == 0 && offset.y == 0 && offset.z == 0 {
        Coords { x: 1, y: 0, z: 0 }
    } else {
        Coords { x: offset.x + 1, y: offset.y, z: offset.z }
    }
}

impl CoordsNeighboursIter {
    /// The position in the middle of the cube.
    pub closed spec fn center(&self) -> ChunkCoords {
        self.pos
    }

    /// Whether the walk hands out the position in the middle too.
    pub closed spec fn includes_self(&self) -> bool {
        self.include_self
    }

    /// The offset from the middle of the position that is handed out next.
    pub closed spec fn offset(&self) -> Coords<int> {
        Coords { x: self.x as int, y: self.y as int, z: self.z as int }
    }

    /// The walk is in a state that `new` and `next` lead to.
    pub closed spec fn wf(&self) -> bool {
        &&& -1 <= self.x <= 1
        &&& -1 <= self.y <= 1
        &&& -1 <= self.z <= 2
        &&& Self::in_reach(self.pos)
    }

    /// Whether the cube around `pos` can be walked: the coordinates of all
    /// its positions are `i64`.
    pub open spec fn in_reach(pos: ChunkCoords) -> bool {
        &&& i64::MIN < pos.x < i64::MAX
        &&& i64::MIN < pos.y < i64::MAX
        &&& i64::MIN < pos.z < i64::MAX
    }

    /// A walk through the cube around `pos`, from its lowest corner.
    pub fn new(pos: ChunkCoords, include_self: bool) -> (iter: Self)
        requires
            Self::in_reach(pos),
        ensures
            iter.wf(),
            iter.center() == pos,
            iter.includes_self() == include_self,
            iter.offset() == (Coords::<int> { x: -1, y: -1, z: -1 }),
    {
        Self { x: -1, y: -1, z: -1, pos, include_self }
    }

    /// Hands out the next position of the cube, or `None` once the walk is
    /// past the last one.
    pub fn next(&mut self) -> (item: Option<ChunkCoords>)
        requires
            old(self).wf(),
        ensures
            final(self).wf(),
            final(self).center() == old(self).center(),
            final(self).includes_self() == old(self).includes_self(),
            old(self).offset().z > 1 ==> item.is_none() && final(self).offset() == old(self).offset(),
            old(self).offset().z <= 1 ==> item.is_some() && item.unwrap().ints() == (Coords::<int> {
                x: old(self).center().x + old(self).offset().x,
                y: old(self).center().y + old(self).offset().y,
                z: old(self).center().z + old(self).offset().z,
            }) && final(self).offset() == next_neighbour_offset(
                old(self).offset(),
                old(self).includes_self(),
            ),
    {
        if self.z > 1 {
            return None;
        }
        let result = ChunkCoords::new(
            self.pos.x + self.x,
            self.pos.y + self.y,
            self.pos.z + self.z,
        );

        self.x += 1;
        if self.x > 1 {
            self.x = -1;
            self.y += 1;
            if self.y > 1 {
                self.y = -1;
                self.z += 1;
            }
        } else if !self.include_self && self.x == 0 && self.y == 0 && self.z == 0 {
            self.x += 1;
        }
        Some(result)
    }
}

impl Coords<i64> {
    /// A walk through the cube of side 3 around this position.
    pub fn iter_neighbours(&self, include_self: bool) -> (iter: CoordsNeighboursIter)
        requires
            CoordsNeighboursIter::in_reach(*self),
        ensures
            iter.wf(),
            iter.center() == *self,
            iter.includes_self() == include_self,
            iter.offset() == (Coords::<int> { x: -1, y: -1, z: -1 }),
    {
        CoordsNeighboursIter::new(*self, include_self)
    }
}

} // verus!
