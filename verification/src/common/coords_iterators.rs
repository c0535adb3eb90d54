use vstd::prelude::*;
use crate::common::coords::{ChunkCoords, Coords};

verus! {

/// The absolute value of an integer.
pub open spec fn magnitude(a: int) -> int {
    if a < 0 {
        -a
    } else {
        a
    }
}

/// The shell of an offset: its Chebyshev distance from the centre, the
/// greatest magnitude among its components. The offsets of shell `r` make
/// the surface of the cube of side `2 * r + 1` around the centre.
pub open spec fn shell_of(offset: Coords<int>) -> int {
    let x = magnitude(offset.x);
    let y = magnitude(offset.y);
    let z = magnitude(offset.z);
    if x >= y && x >= z {
        x
    } else if y >= z {
        y
    } else {
        z
    }
}

/// The order in which offsets are visited: an inner shell before an outer
/// one, and within a shell by x, then y, then z.
pub open spec fn visited_before(a: Coords<int>, b: Coords<int>) -> bool {
    let shell_a = shell_of(a);
    let shell_b = shell_of(b);
    shell_a < shell_b || (shell_a == shell_b && (a.x < b.x || (a.x == b.x && (a.y < b.y || (a.y
        == b.y && a.z < b.z)))))
}

/// The offset that is visited next after `offset`.
pub open spec fn next_offset(offset: Coords<int>) -> Coords<int> {
    let r = shell_of(offset);
    if offset.z < r {
        if offset.x == -r || offset.x == r || offset.y == -r || offset.y == r {
            Coords { x: offset.x, y: offset.y, z: offset.z + 1 }
        } else {
            Coords { x: offset.x, y: offset.y, z: r }
        }
    } else if offset.y < r {
        Coords { x: offset.x, y: offset.y + 1, z: -r }
    } else if offset.x < r {
        Coords { x: offset.x + 1, y: -r, z: -r }
    } else {
        Coords { x: -(r + 1), y: -(r + 1), z: -(r + 1) }
    }
}

/// The offset visited next comes later in the order, in the same shell or at
/// the start of the next one.
pub proof fn lemma_next_offset_is_later(offset: Coords<int>)
    ensures
        visited_before(offset, next_offset(offset)),
        shell_of(next_offset(offset)) == shell_of(offset) || (shell_of(next_offset(offset))
            == shell_of(offset) + 1 && next_offset(offset) == Coords {
            x: -(shell_of(offset) + 1),
            y: -(shell_of(offset) + 1),
            z: -(shell_of(offset) + 1),
        }),
{
}

/// No offset lies between an offset and the one visited next: the walk
/// leaves nothing out.
pub proof fn lemma_next_offset_is_adjacent(offset: Coords<int>, other: Coords<int>)
    ensures
        !(visited_before(offset, other) && visited_before(other, next_offset(offset))),
{
}

/// Of two different offsets one is visited before the other.
pub proof fn lemma_visited_before_total(a: Coords<int>, b: Coords<int>)
    ensures
        a == b || visited_before(a, b) || visited_before(b, a),
        !(visited_before(a, b) && visited_before(b, a)),
        !visited_before(a, a),
{
}

/// The order of the walk is transitive.
pub proof fn lemma_visited_before_transitive(a: Coords<int>, b: Coords<int>, c: Coords<int>)
    requires
        visited_before(a, b),
        visited_before(b, c),
    ensures
        visited_before(a, c),
{
}

/// The first offset of shell `r` comes after every offset of the shells
/// inside it and before every other offset of its own shell.
pub proof fn lemma_shell_start(r: int, other: Coords<int>)
    requires
        0 <= r,
    ensures
        shell_of(Coords { x: -r, y: -r, z: -r }) == r,
        visited_before(other, Coords { x: -r, y: -r, z: -r }) <==> shell_of(other) < r,
{
}

/// Walks through the cubic neighbourhood of a centre in expanding shells:
/// first the centre itself, then the 26 positions of the cube of side 3
/// around it, then the surface of the cube of side 5, and so on, for the
/// shells from 0 to `radius - 1`.
pub struct AroundCoordsIterator {
    start: ChunkCoords,
    current: ChunkCoords,
    current_radius: i64,
    done: bool,
    radius: i64,
}

impl AroundCoordsIterator {
    /// The centre of the neighbourhood.
    pub closed spec fn start(&self) -> ChunkCoords {
        self.start
    }

    /// The number of shells that the walk goes through.
    pub closed spec fn radius(&self) -> int {
        self.radius as int
    }

    /// The offset from the centre of the position that is handed out next;
    /// once all shells are through, the first offset of shell `radius`.
    pub closed spec fn current(&self) -> Coords<int> {
        self.current.ints()
    }

    /// Whether a call of `next` has found the walk at its end.
    pub closed spec fn is_done_spec(&self) -> bool {
        self.done
    }

    /// The walk is in a state that `new` and `next` lead to.
    pub closed spec fn wf(&self) -> bool {
        &&& 0 <= self.current_radius <= self.radius
        &&& shell_of(self.current.ints()) == self.current_radius
        &&& self.current_radius == self.radius ==> self.current.ints() == (Coords::<int> {
            x: -self.radius,
            y: -self.radius,
            z: -self.radius,
        })
        &&& i64::MIN <= self.start.x - self.radius && self.start.x + self.radius <= i64::MAX
        &&& i64::MIN <= self.start.y - self.radius && self.start.y + self.radius <= i64::MAX
        &&& i64::MIN <= self.start.z - self.radius && self.start.z + self.radius <= i64::MAX
    }

    /// Whether every position of the neighbourhood has been handed out.
    pub open spec fn exhausted(&self) -> bool {
        shell_of(self.current()) == self.radius()
    }

    /// Whether a neighbourhood of `radius` shells around `start` can be
    /// walked: the coordinates of all its positions are `i64`.
    pub open spec fn in_reach(start: ChunkCoords, radius: usize) -> bool {
        &&& i64::MIN <= start.x - radius && start.x + radius <= i64::MAX
        &&& i64::MIN <= start.y - radius && start.y + radius <= i64::MAX
        &&& i64::MIN <= start.z - radius && start.z + radius <= i64::MAX
    }

    /// Once every position has been handed out, the walk rests on the first
    /// offset of the first shell outside the neighbourhood: exactly the
    /// offsets of the neighbourhood come before it.
    pub proof fn lemma_exhausted_rest(&self, offset: Coords<int>)
        requires
            self.wf(),
            self.exhausted(),
        ensures
            visited_before(offset, self.current()) <==> shell_of(offset) < self.radius(),
    {
        lemma_shell_start(self.radius(), offset);
    }

    /// The walk never leaves the shells up to `radius`.
    pub proof fn lemma_current_shell(&self)
        requires
            self.wf(),
        ensures
            0 <= shell_of(self.current()) <= self.radius(),
    {
    }

    /// A walk through the `radius` innermost shells around `start`.
    pub fn new(start: ChunkCoords, radius: usize) -> (iter: Self)
        requires
            Self::in_reach(start, radius),
        ensures
            iter.wf(),
            iter.start() == start,
            iter.radius() == radius,
            iter.current() == (Coords::<int> { x: 0, y: 0, z: 0 }),
            !iter.is_done_spec(),
    {
        Self {
            radius: radius as i64,
            start,
            done: false,
            current_radius: 0,
            current: ChunkCoords::new(0, 0, 0),
        }
    }

    /// Whether a call of `next` has found the walk at its end.
    pub fn is_done(&self) -> (done: bool)
        ensures
            done == self.is_done_spec(),
    {
        self.done
    }

    /// Hands out the next position of the neighbourhood, or `None` once all
    /// shells are through.
    pub fn next(&mut self) -> (item: Option<ChunkCoords>)
        requires
            old(self).wf(),
        ensures
            final(self).wf(),
            final(self).start() == old(self).start(),
            final(self).radius() == old(self).radius(),
            old(self).exhausted() ==> item.is_none() && final(self).is_done_spec() && final(self).current() == old(self).current(),
            !old(self).exhausted() ==> item.is_some() && item.unwrap().ints() == (Coords::<int> {
                x: old(self).start().x + old(self).current().x,
                y: old(self).start().y + old(self).current().y,
                z: old(self).start().z + old(self).current().z,
            }) && final(self).current() == next_offset(old(self).current()) && final(self).is_done_spec() == old(self).is_done_spec(),
    {
        let r = self.current_radius;
        if self.radius == r {
            self.done = true;
            return None;
        }
        let p = self.current;
        let result = ChunkCoords::new(self.start.x + p.x, self.start.y + p.y, self.start.z + p.z);
        if p.z < r {
            if p.x == -r || p.x == r || p.y == -r || p.y == r {
                self.current = ChunkCoords::new(p.x, p.y, p.z + 1);
            } else {
                self.current = ChunkCoords::new(p.x, p.y, r);
            }
        } else if p.y < r {
            self.current = ChunkCoords::new(p.x, p.y + 1, -r);
        } else if p.x < r {
            self.current = ChunkCoords::new(p.x + 1, -r, -r);
        } else {
            self.current_radius = r + 1;
            self.current = ChunkCoords::new(-(r + 1), -(r + 1), -(r + 1));
        }
        Some(result)
    }
}

/// The offset of `pos` from `center`.
pub open spec fn offset_from(center: ChunkCoords, pos: ChunkCoords) -> Coords<int> {
    Coords { x: pos.x - center.x, y: pos.y - center.y, z: pos.z - center.z }
}

/// All positions of the cubic neighbourhood of `radius` shells around
/// `center`: every position whose offset from the centre has no component
/// of magnitude `radius` or more, each once, shell after shell from the
/// centre outwards.
pub fn neighbors_in_expanding_shells(center: ChunkCoords, radius: usize) -> (positions: Vec<
    ChunkCoords,
>)
    requires
        AroundCoordsIterator::in_reach(center, radius),
    ensures
        forall|i: int|
            0 <= i < positions.len() ==> shell_of(offset_from(center, #[trigger] positions[i]))
                < radius,
        forall|i: int, j: int|
            0 <= i < j < positions.len() ==> visited_before(
                offset_from(center, #[trigger] positions[i]),
                offset_from(center, #[trigger] positions[j]),
            ),
        forall|offset: Coords<int>|
            shell_of(offset) < radius ==> exists|i: int|
                0 <= i < positions.len() && offset_from(center, #[trigger] positions[i]) == offset,
{
    let mut iter = AroundCoordsIterator::new(center, radius);
    let mut positions: Vec<ChunkCoords> = Vec::new();
    assert forall|offset: Coords<int>| !visited_before(offset, iter.current()) by {
        lemma_shell_start(0, offset);
    }
    loop
        invariant_except_break
            iter.wf(),
            iter.start() == center,
            iter.radius() == radius,
            forall|i: int|
                0 <= i < positions.len() ==> visited_before(
                    offset_from(center, #[trigger] positions[i]),
                    iter.current(),
                ),
            forall|offset: Coords<int>|
                visited_before(offset, iter.current()) ==> exists|i: int|
                    0 <= i < positions.len() && offset_from(center, #[trigger] positions[i])
                        == offset,
        invariant
            AroundCoordsIterator::in_reach(center, radius),
            forall|i: int|
                0 <= i < positions.len() ==> shell_of(offset_from(center, #[trigger] positions[i]))
                    < radius,
            forall|i: int, j: int|
                0 <= i < j < positions.len() ==> visited_before(
                    offset_from(center, #[trigger] positions[i]),
                    offset_from(center, #[trigger] positions[j]),
                ),
        ensures
            forall|offset: Coords<int>|
                shell_of(offset) < radius ==> exists|i: int|
                    0 <= i < positions.len() && offset_from(center, #[trigger] positions[i])
                        == offset,
        decreases radius - shell_of(iter.current()), remaining_in_shell(iter.current()),
    {
        let ghost before = iter.current();
        let ghost listed = positions@;
        match iter.next() {
            Some(pos) => {
                positions.push(pos);
                proof {
                    lemma_next_offset_is_later(before);
                    lemma_remaining_decreases(before);
                    assert(offset_from(center, pos) == before);
                    assert forall|i: int| 0 <= i < positions.len() implies visited_before(
                        offset_from(center, #[trigger] positions[i]),
                        iter.current(),
                    ) by {
                        if i < listed.len() {
                            assert(positions[i] == listed[i]);
                            lemma_visited_before_transitive(
                                offset_from(center, positions[i]),
                                before,
                                iter.current(),
                            );
                        }
                    }
                    assert forall|offset: Coords<int>|
                        visited_before(offset, iter.current()) implies exists|i: int|
                        0 <= i < positions.len() && offset_from(center, #[trigger] positions[i])
                            == offset by {
                        lemma_next_offset_is_adjacent(before, offset);
                        lemma_visited_before_total(before, offset);
                        if offset == before {
                            assert(offset_from(center, positions[positions.len() - 1]) == offset);
                        } else {
                            let i = choose|i: int|
                                0 <= i < listed.len() && offset_from(center, #[trigger] listed[i])
                                    == offset;
                            assert(positions[i] == listed[i]);
                        }
                    }
                    assert forall|i: int, j: int|
                        0 <= i < j < positions.len() implies visited_before(
                        offset_from(center, #[trigger] positions[i]),
                        offset_from(center, #[trigger] positions[j]),
                    ) by {
                        assert(positions[i] == listed[i]);
                        if j < listed.len() {
                            assert(positions[j] == listed[j]);
                        }
                    }
                }
            },
            None => {
                proof {
                    assert forall|offset: Coords<int>| shell_of(offset) < radius implies exists|
                        i: int,
                    |
                        0 <= i < positions.len() && offset_from(center, #[trigger] positions[i])
                            == offset by {
                        assert(visited_before(offset, iter.current()));
                    }
                }
                break ;
            },
        }
    }
    positions
}

/// How many offsets of its shell are visited after `offset`, counted
/// generously: a measure that every step inside a shell decreases.
pub open spec fn remaining_in_shell(offset: Coords<int>) -> int {
    let r = shell_of(offset);
    let side = 2 * r + 1;
    ((r - offset.x) * side + (r - offset.y)) * side + (r - offset.z)
}

/// A step that stays in its shell leaves fewer offsets of the shell to
/// visit; no count is negative.
pub proof fn lemma_remaining_decreases(offset: Coords<int>)
    ensures
        0 <= remaining_in_shell(offset),
        shell_of(next_offset(offset)) == shell_of(offset) ==> remaining_in_shell(
            next_offset(offset),
        ) < remaining_in_shell(offset),
{
    let r = shell_of(offset);
    let side = 2 * r + 1;
    let a = r - offset.x;
    let b = r - offset.y;
    let c = r - offset.z;
    assert(0 <= a < side && 0 <= b < side && 0 <= c < side);
    assert((a * side + b) * side + c >= 0) by (nonlinear_arith)
        requires
            0 <= a,
            0 <= b,
            0 <= c,
            0 < side,
    ;
    let next = next_offset(offset);
    if shell_of(next) == r {
        let a2 = r - next.x;
        let b2 = r - next.y;
        let c2 = r - next.z;
        assert((a2 * side + b2) * side + c2 < (a * side + b) * side + c) by (nonlinear_arith)
            requires
                0 <= a < side,
                0 <= b < side,
                0 <= c < side,
                0 <= a2 < side,
                0 <= b2 < side,
                0 <= c2 < side,
                a2 < a || (a2 == a && (b2 < b || (b2 == b && c2 < c))),
        ;
    }
}

impl Coords<i64> {
    /// A walk through the `radius` innermost shells around this position.
    pub fn iter_around(&self, radius: usize) -> (iter: AroundCoordsIterator)
        requires
            AroundCoordsIterator::in_reach(*self, radius),
        ensures
            iter.wf(),
            iter.start() == *self,
            iter.radius() == radius,
            iter.current() == (Coords::<int> { x: 0, y: 0, z: 0 }),
            !iter.is_done_spec(),
    {
        AroundCoordsIterator::new(*self, radius)
    }
}

impl Coords<u8> {
    /// The position of this voxel as signed coordinates.
    pub open spec fn widened(self) -> ChunkCoords {
        Coords { x: self.x as i64, y: self.y as i64, z: self.z as i64 }
    }

    /// A walk through the `radius` innermost shells around this voxel. It
    /// hands out signed coordinates: the neighbourhood may reach beyond the
    /// field.
    pub fn iter_around(&self, radius: usize) -> (iter: AroundCoordsIterator)
        requires
            radius <= 0x7fff_ffff,
        ensures
            iter.wf(),
            iter.start() == self.widened(),
            iter.radius() == radius,
            iter.current() == (Coords::<int> { x: 0, y: 0, z: 0 }),
            !iter.is_done_spec(),
    {
        AroundCoordsIterator::new(
            ChunkCoords::new(self.x as i64, self.y as i64, self.z as i64),
            radius,
        )
    }
}

} // verus!
