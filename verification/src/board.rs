//! Tile storage and coordinate arithmetic: positions, directional offsets,
//! and the dense row-major board. The board knows nothing of game rules.

use vstd::prelude::*;
use vstd::pervasive::VecAdditionalExecFns;

verus! {

/// The content of one grid cell; every cell holds exactly one of these.
#[derive(Copy, Clone, PartialEq, Eq, Structural, Debug)]
pub enum Entity {
    Player,
    Wall,
    Crate,
    Floor,
}

/// A pair of unsigned grid coordinates.
#[derive(Copy, Clone, PartialEq, Eq, Structural, Hash, Debug)]
pub struct Position {
    pub x: usize,
    pub y: usize,
}

/// A pair of signed deltas, one step of a direction applied to a `Position`.
#[derive(Copy, Clone, Debug)]
pub struct Offset {
    pub x: i32,
    pub y: i32,
}

/// Documents the guard against unsigned underflow when the signed delta `i`
/// is added to the coordinate `u`: callers establish it before adding.
pub fn check_underflow(u: usize, i: i32)
    requires
        0 <= u as int + i as int,
{
}

impl Position {
    pub fn new(x: usize, y: usize) -> (p: Self)
        ensures
            p.x == x,
            p.y == y,
    {
        Position { x: x, y: y }
    }

    /// The x coordinate reached by applying `o`, as an unbounded integer.
    pub open spec fn stepped_x(self, o: Offset) -> int {
        self.x as int + o.x as int
    }

    /// The y coordinate reached by applying `o`, as an unbounded integer.
    pub open spec fn stepped_y(self, o: Offset) -> int {
        self.y as int + o.y as int
    }

    /// The position reached by applying `o`; meaningful when both stepped
    /// coordinates are non-negative machine integers.
    pub open spec fn spec_step(self, o: Offset) -> Position {
        Position { x: self.stepped_x(o) as usize, y: self.stepped_y(o) as usize }
    }

    /// Applies a directional delta. Stepping below zero or past `usize` is a
    /// caller error, ruled out by the precondition.
    pub fn offset(self, o: Offset) -> (r: Self)
        requires
            0 <= self.stepped_x(o) <= usize::MAX,
            0 <= self.stepped_y(o) <= usize::MAX,
        ensures
            r.x == self.stepped_x(o),
            r.y == self.stepped_y(o),
            r == self.spec_step(o),
    {
        check_underflow(self.x, o.x);
        check_underflow(self.y, o.y);
        let nx: i128 = self.x as i128 + o.x as i128;
        let ny: i128 = self.y as i128 + o.y as i128;
        Position { x: nx as usize, y: ny as usize }
    }
}

/// Dense row-major tile storage: cell `(x, y)` lives at index `x + y * width`.
pub struct Board {
    pub width: usize,
    pub height: usize,
    pub entities: Vec<Entity>,
}

impl View for Board {
    type V = Seq<Entity>;

    open spec fn view(&self) -> Seq<Entity> {
        self.entities@
    }
}

/// In a `width`-wide grid, the index of an in-bounds cell is itself in bounds.
pub proof fn lemma_idx_bound(w: int, h: int, x: int, y: int)
    by (nonlinear_arith)
    requires
        0 <= x < w,
        0 <= y < h,
    ensures
        0 <= x + y * w < w * h,
{
}

/// Row-major indexing is injective on in-bounds coordinates: two cells share
/// a storage index exactly when they are the same cell.
pub proof fn lemma_idx_injective(w: int, x1: int, y1: int, x2: int, y2: int)
    by (nonlinear_arith)
    requires
        0 <= x1 < w,
        0 <= x2 < w,
        0 <= y1,
        0 <= y2,
    ensures
        (x1 + y1 * w == x2 + y2 * w) <==> (x1 == x2 && y1 == y2),
{
}

impl Board {
    /// The storage holds exactly one entity per cell of the grid.
    pub open spec fn wf(self) -> bool {
        &&& self.entities@.len() == self.width * self.height
        &&& self.width * self.height <= usize::MAX
    }

    pub open spec fn in_bounds(self, p: Position) -> bool {
        p.x < self.width && p.y < self.height
    }

    /// The storage index of a position.
    pub open spec fn idx(self, p: Position) -> int {
        p.x + p.y * self.width
    }

    /// The entity occupying a position.
    pub open spec fn tile(self, p: Position) -> Entity {
        self.entities@[self.idx(p)]
    }

    /// Whether applying `o` to `p` lands on the board, with no underflow.
    pub open spec fn can_step(self, p: Position, o: Offset) -> bool {
        &&& 0 <= p.stepped_x(o) < self.width
        &&& 0 <= p.stepped_y(o) < self.height
    }

    /// A fresh board of the given dimensions, every cell floor.
    pub fn new(w: usize, h: usize) -> (b: Self)
        requires
            w * h <= usize::MAX,
        ensures
            b.width == w,
            b.height == h,
            b.wf(),
            forall|i: int| 0 <= i < b@.len() ==> b@[i] == Entity::Floor,
    {
        let total: usize = w * h;
        let mut entities: Vec<Entity> = Vec::with_capacity(total);
        let mut i: usize = 0;
        while i < total
            invariant
                i <= total,
                entities@.len() == i,
                forall|j: int| 0 <= j < i ==> entities@[j] == Entity::Floor,
            decreases total - i,
        {
            entities.push(Entity::Floor);
            i = i + 1;
        }
        Board { width: w, height: h, entities }
    }

    /// Applies a delta and insists the result is still on the board; stepping
    /// off the grid is a caller error, ruled out by the precondition.
    pub fn offset(&self, pos: Position, o: Offset) -> (r: Position)
        requires
            self.can_step(pos, o),
        ensures
            r == pos.spec_step(o),
            r.x == pos.stepped_x(o),
            r.y == pos.stepped_y(o),
            self.in_bounds(r),
    {
        pos.offset(o)
    }

    /// Bounds-checked delta application: the recoverable alternative to
    /// `offset`, for callers that treat a step off the grid as an ordinary
    /// blocked move.
    pub fn try_offset(&self, pos: Position, o: Offset) -> (r: Option<Position>)
        ensures
            r is Some <==> self.can_step(pos, o),
            r matches Some(p) ==> p == pos.spec_step(o) && self.in_bounds(p),
    {
        let nx: i128 = pos.x as i128 + o.x as i128;
        let ny: i128 = pos.y as i128 + o.y as i128;
        if nx < 0 || ny < 0 {
            return None;
        }
        if nx >= self.width as i128 || ny >= self.height as i128 {
            return None;
        }
        Some(Position { x: nx as usize, y: ny as usize })
    }

    /// The deterministic row-major index of an in-bounds position.
    pub fn to_index(&self, p: Position) -> (i: usize)
        requires
            self.wf(),
            self.in_bounds(p),
        ensures
            i == self.idx(p),
            i < self@.len(),
    {
        proof {
            lemma_idx_bound(self.width as int, self.height as int, p.x as int, p.y as int);
        }
        p.x + p.y * self.width
    }

    /// Exchanges the entities at two in-bounds positions.
    pub fn swap_tile(&mut self, x0: Position, x1: Position)
        requires
            old(self).wf(),
            old(self).in_bounds(x0),
            old(self).in_bounds(x1),
        ensures
            final(self).width == old(self).width,
            final(self).height == old(self).height,
            final(self).wf(),
            final(self)@ == old(self)@.update(old(self).idx(x0), old(self).tile(x1)).update(
                old(self).idx(x1),
                old(self).tile(x0),
            ),
    {
        let i0 = self.to_index(x0);
        let i1 = self.to_index(x1);
        let e0 = self.entities[i0];
        let e1 = self.entities[i1];
        self.entities.set(i0, e1);
        self.entities.set(i1, e0);
    }

    /// A read-only view of the entity at an in-bounds position.
    pub fn tile_at(&self, pos: Position) -> (r: &Entity)
        requires
            self.wf(),
            self.in_bounds(pos),
        ensures
            *r == self.tile(pos),
    {
        let i = self.to_index(pos);
        &self.entities[i]
    }
}

} // verus!
