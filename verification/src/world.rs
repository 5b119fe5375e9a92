//! The bounded grid simulator: two grid snapshots (current and next) plus
//! the matching lists of live-cell coordinates, advanced one generation at
//! a time.

use vstd::prelude::*;

use crate::cell::Cell;
use crate::coord::Coord;
use crate::coord::Direction;

verus! {

/// The standard B3/S23 Game-of-Life rule: whether a cell that is currently
/// `alive` and has `n` live neighbours is alive in the next generation.
pub open spec fn life_rule(alive: bool, n: int) -> bool {
    if alive {
        n == 2 || n == 3
    } else {
        n == 3
    }
}

/// Whether `(x, y)` is the cell `c` itself or one of its eight neighbours.
pub open spec fn touches(c: Coord, x: int, y: int) -> bool {
    -1 <= x - c.x <= 1 && -1 <= y - c.y <= 1
}

/// The error a load-time spawn reports for a coordinate that does not lie
/// on the grid.
#[derive(Clone, Copy, PartialEq, Eq, Structural, Debug)]
pub struct OutOfBounds;

/// `post` is `pre` advanced by exactly one generation: the dimensions are
/// unchanged, and a cell is live in `post` exactly when it lies on the grid
/// and the rule, applied to its state and neighbourhood in `pre`, keeps or
/// makes it alive.
pub open spec fn advances_to(pre: World, post: World) -> bool {
    &&& post.xs() == pre.xs()
    &&& post.ys() == pre.ys()
    &&& forall|x: int, y: int| #[trigger]
        post.cur_live(x, y) <==> (pre.in_bounds(x, y) && pre.step(x, y))
}

pub struct World {
    grid: Vec<Vec<Cell>>,
    next_grid: Vec<Vec<Cell>>,
    alive: Vec<Coord>,
    next_alive: Vec<Coord>,
    x_size: usize,
    y_size: usize,
    x_max: usize,
    y_max: usize,
}

impl World {
    /// Number of columns.
    pub closed spec fn xs(&self) -> int {
        self.x_size as int
    }

    /// Number of rows.
    pub closed spec fn ys(&self) -> int {
        self.y_size as int
    }

    pub open spec fn in_bounds(&self, x: int, y: int) -> bool {
        0 <= x < self.xs() && 0 <= y < self.ys()
    }

    /// Whether the cell at `(x, y)` is live in the current generation.
    /// Positions outside the grid are dead.
    pub closed spec fn cur_live(&self, x: int, y: int) -> bool {
        self.in_bounds(x, y) && self.grid@[x]@[y].alive
    }

    /// Whether the cell at `(x, y)` is marked live in the next-generation
    /// buffer. Positions outside the grid are dead.
    pub closed spec fn next_live(&self, x: int, y: int) -> bool {
        self.in_bounds(x, y) && self.next_grid@[x]@[y].alive
    }

    /// Whether the cell at `(x, y)` has had its fate computed already in the
    /// generation advance that is underway.
    pub closed spec fn next_checked(&self, x: int, y: int) -> bool {
        self.in_bounds(x, y) && self.next_grid@[x]@[y].checked
    }

    /// The list of live-cell coordinates of the current generation.
    pub closed spec fn alive_list(&self) -> Seq<Coord> {
        self.alive@
    }

    /// The list of cells recorded live so far for the next generation.
    pub closed spec fn next_alive_list(&self) -> Seq<Coord> {
        self.next_alive@
    }

    /// 1 if the cell at `(x, y)` is live in the current generation, else 0.
    pub open spec fn live_at(&self, x: int, y: int) -> int {
        if self.cur_live(x, y) {
            1
        } else {
            0
        }
    }

    /// How many of the cells adjacent to `(x, y)` are live in the current
    /// generation. Positions beyond the boundary count as dead, so this is
    /// a count over the clipped neighbourhood.
    pub open spec fn neighbor_count(&self, x: int, y: int) -> int {
        self.live_at(x - 1, y - 1) + self.live_at(x, y - 1) + self.live_at(x + 1, y - 1)
            + self.live_at(x - 1, y) + self.live_at(x + 1, y) + self.live_at(x - 1, y + 1)
            + self.live_at(x, y + 1) + self.live_at(x + 1, y + 1)
    }

    /// Whether the cell at `(x, y)` is alive in the generation after the
    /// current one: the rule applied to its current state and its current
    /// live-neighbour count.
    pub open spec fn step(&self, x: int, y: int) -> bool {
        life_rule(self.cur_live(x, y), self.neighbor_count(x, y))
    }

    /// Whether `s` names the position `(x, y)`.
    pub open spec fn in_list(s: Seq<Coord>, x: int, y: int) -> bool {
        exists|k: int| 0 <= k < s.len() && (#[trigger] s[k]).x == x && s[k].y == y
    }

    spec fn grid_shape(g: Seq<Vec<Cell>>, xs: int, ys: int) -> bool {
        &&& g.len() == xs
        &&& forall|i: int| 0 <= i < xs ==> (#[trigger] g[i])@.len() == ys
    }

    /// Both grid buffers have the stated dimensions, and the cached maximum
    /// indices agree with them.
    pub closed spec fn dims_ok(&self) -> bool {
        &&& Self::grid_shape(self.grid@, self.xs(), self.ys())
        &&& Self::grid_shape(self.next_grid@, self.xs(), self.ys())
        &&& self.x_max as int == if self.xs() == 0 { 0int } else { self.xs() - 1 }
        &&& self.y_max as int == if self.ys() == 0 { 0int } else { self.ys() - 1 }
    }

    /// The current alive list exactly matches the cells marked alive in the
    /// current grid: every entry is an in-bounds live cell, no position is
    /// listed twice, and every live cell is listed.
    pub open spec fn cur_ok(&self) -> bool {
        &&& forall|k: int| 0 <= k < self.alive_list().len()
            ==> self.cur_live(
                (#[trigger] self.alive_list()[k]).x as int,
                self.alive_list()[k].y as int,
            )
        &&& forall|k1: int, k2: int|
            0 <= k1 < k2 < self.alive_list().len()
                ==> !((#[trigger] self.alive_list()[k1]).x == (#[trigger] self.alive_list()[k2]).x
                    && self.alive_list()[k1].y == self.alive_list()[k2].y)
        &&& forall|x: int, y: int| #[trigger]
            self.cur_live(x, y) ==> Self::in_list(self.alive_list(), x, y)
    }

    /// The same correspondence between the next alive list and the cells
    /// marked alive in the next-generation buffer.
    pub open spec fn next_ok(&self) -> bool {
        &&& forall|k: int| 0 <= k < self.next_alive_list().len()
            ==> self.next_live(
                (#[trigger] self.next_alive_list()[k]).x as int,
                self.next_alive_list()[k].y as int,
            )
        &&& forall|k1: int, k2: int|
            0 <= k1 < k2 < self.next_alive_list().len()
                ==> !((#[trigger] self.next_alive_list()[k1]).x
                    == (#[trigger] self.next_alive_list()[k2]).x && self.next_alive_list()[k1].y
                    == self.next_alive_list()[k2].y)
        &&& forall|x: int, y: int| #[trigger]
            self.next_live(x, y) ==> Self::in_list(self.next_alive_list(), x, y)
    }

    /// A well-formed world: consistent dimensions and a current alive list
    /// that matches the current grid.
    pub open spec fn wf(&self) -> bool {
        self.dims_ok() && self.cur_ok()
    }

    /// The next-generation buffer is untouched: no cell is marked alive or
    /// checked, and the next alive list is empty. This holds after
    /// construction and after every [`World::update`].
    pub open spec fn next_fresh(&self) -> bool {
        &&& forall|x: int, y: int| !(#[trigger] self.next_live(x, y))
        &&& forall|x: int, y: int| !(#[trigger] self.next_checked(x, y))
        &&& self.next_alive_list().len() == 0
    }

    /// A live cell always lies on the grid; positions outside it are dead.
    pub proof fn lemma_live_in_bounds(&self, x: int, y: int)
        ensures
            self.cur_live(x, y) ==> self.in_bounds(x, y),
            self.next_live(x, y) ==> self.in_bounds(x, y),
    {
    }

    fn fresh_grid(x_size: usize, y_size: usize) -> (g: Vec<Vec<Cell>>)
        ensures
            Self::grid_shape(g@, x_size as int, y_size as int),
            forall|i: int, j: int|
                0 <= i < x_size && 0 <= j < y_size
                    ==> !(#[trigger] g@[i]@[j]).alive && !g@[i]@[j].checked,
    {
        let mut g: Vec<Vec<Cell>> = Vec::with_capacity(x_size);
        let mut i: usize = 0;
        while i < x_size
            invariant
                i <= x_size,
                g@.len() == i,
                forall|k: int| 0 <= k < i ==> (#[trigger] g@[k])@.len() == y_size,
                forall|k: int, j: int|
                    0 <= k < i && 0 <= j < y_size
                        ==> !(#[trigger] g@[k]@[j]).alive && !g@[k]@[j].checked,
            decreases x_size - i,
        {
            let mut nested: Vec<Cell> = Vec::with_capacity(y_size);
            let mut j: usize = 0;
            while j < y_size
                invariant
                    j <= y_size,
                    nested@.len() == j,
                    forall|m: int|
                        0 <= m < j ==> !(#[trigger] nested@[m]).alive && !nested@[m].checked,
                decreases y_size - j,
            {
                nested.push(Cell::new());
                j += 1;
            }
            g.push(nested);
            i += 1;
        }
        g
    }

    /// A world with the given dimensions and every cell dead.
    pub fn new(x_size: usize, y_size: usize) -> (w: Self)
        ensures
            w.wf(),
            w.next_ok(),
            w.next_fresh(),
            w.xs() == x_size,
            w.ys() == y_size,
            forall|x: int, y: int| !(#[trigger] w.cur_live(x, y)),
            w.alive_list().len() == 0,
    {
        let x_max = if x_size != 0 {
            x_size - 1
        } else {
            0
        };
        let y_max = if y_size != 0 {
            y_size - 1
        } else {
            0
        };

        let grid = Self::fresh_grid(x_size, y_size);
        let next_grid = Self::fresh_grid(x_size, y_size);

        World {
            grid,
            next_grid,
            alive: Vec::new(),
            next_alive: Vec::new(),
            x_size,
            y_size,
            x_max,
            y_max,
        }
    }

    /// Whether the cell's fate was already computed this generation; reads
    /// the next-generation buffer.
    pub fn is_checked(&self, check: &Coord) -> (r: bool)
        requires
            self.dims_ok(),
            self.in_bounds(check.x as int, check.y as int),
        ensures
            r == self.next_checked(check.x as int, check.y as int),
    {
        self.next_grid[check.x][check.y].is_checked()
    }

    /// Whether the cell is marked alive in the next-generation buffer.
    pub fn is_alive(&self, check: &Coord) -> (r: bool)
        requires
            self.dims_ok(),
            self.in_bounds(check.x as int, check.y as int),
        ensures
            r == self.next_live(check.x as int, check.y as int),
    {
        self.next_grid[check.x][check.y].is_alive()
    }

    /// Whether `(x, y)` lies on the grid. Input coordinates must be held to
    /// this before they are spawned.
    pub fn contains(&self, x: usize, y: usize) -> (r: bool)
        ensures
            r == self.in_bounds(x as int, y as int),
    {
        x < self.x_size && y < self.y_size
    }

    /// Whether the cell is live in the current generation. Out-of-bounds
    /// positions report dead.
    pub fn cell_alive(&self, x: usize, y: usize) -> (r: bool)
        requires
            self.dims_ok(),
        ensures
            r == self.cur_live(x as int, y as int),
    {
        x < self.x_size && y < self.y_size && self.grid[x][y].is_alive()
    }

    /// Marks the cell's fate as computed in the next-generation buffer;
    /// nothing else changes.
    pub fn set_checked(&mut self, coord: &Coord)
        requires
            old(self).dims_ok(),
            old(self).in_bounds(coord.x as int, coord.y as int),
        ensures
            final(self).dims_ok(),
            final(self).xs() == old(self).xs(),
            final(self).ys() == old(self).ys(),
            forall|x: int, y: int| final(self).cur_live(x, y) == old(self).cur_live(x, y),
            forall|x: int, y: int| final(self).next_live(x, y) == old(self).next_live(x, y),
            forall|x: int, y: int|
                final(self).next_checked(x, y) == (old(self).next_checked(x, y) || (x == coord.x
                    && y == coord.y)),
            final(self).alive_list() == old(self).alive_list(),
            final(self).next_alive_list() == old(self).next_alive_list(),
    {
        let cell = &mut self.next_grid[coord.x][coord.y];
        cell.set_checked();
    }

    /// Marks the cell alive in the next-generation buffer; nothing else
    /// changes (in particular the `checked` marks stay as they are).
    pub fn set_alive(&mut self, coord: &Coord)
        requires
            old(self).dims_ok(),
            old(self).in_bounds(coord.x as int, coord.y as int),
        ensures
            final(self).dims_ok(),
            final(self).xs() == old(self).xs(),
            final(self).ys() == old(self).ys(),
            forall|x: int, y: int| final(self).cur_live(x, y) == old(self).cur_live(x, y),
            forall|x: int, y: int|
                final(self).next_live(x, y) == (old(self).next_live(x, y) || (x == coord.x && y
                    == coord.y)),
            forall|x: int, y: int| final(self).next_checked(x, y) == old(self).next_checked(x, y),
            final(self).alive_list() == old(self).alive_list(),
            final(self).next_alive_list() == old(self).next_alive_list(),
    {
        let cell = &mut self.next_grid[coord.x][coord.y];
        cell.set_alive();
    }

    /// Records `coord` as live in the next generation. If the cell is
    /// already marked alive the call changes nothing and returns `false`
    /// (a duplicate spawn is a no-op, not an error); otherwise it marks the
    /// cell alive, appends it to the next alive list, and returns `true`.
    pub fn spawn(&mut self, coord: Coord) -> (r: bool)
        requires
            old(self).dims_ok(),
            old(self).in_bounds(coord.x as int, coord.y as int),
            old(self).next_ok(),
        ensures
            final(self).dims_ok(),
            final(self).next_ok(),
            final(self).xs() == old(self).xs(),
            final(self).ys() == old(self).ys(),
            forall|x: int, y: int| final(self).cur_live(x, y) == old(self).cur_live(x, y),
            final(self).alive_list() == old(self).alive_list(),
            forall|x: int, y: int| final(self).next_checked(x, y) == old(self).next_checked(x, y),
            forall|x: int, y: int|
                final(self).next_live(x, y) == (old(self).next_live(x, y) || (x == coord.x && y
                    == coord.y)),
            r == !old(self).next_live(coord.x as int, coord.y as int),
            !r ==> *final(self) == *old(self),
            r ==> final(self).next_alive_list() == old(self).next_alive_list().push(coord),
    {
        if self.is_alive(&coord) {
            return false;
        }

        self.set_alive(&coord);
        self.next_alive.push(coord);

        proof {
            assert forall|x: int, y: int| #[trigger]
                self.next_live(x, y) implies Self::in_list(self.next_alive@, x, y) by {
                if old(self).next_live(x, y) {
                    let k = choose|k: int|
                        0 <= k < old(self).next_alive@.len()
                            && (#[trigger] old(self).next_alive@[k]).x == x
                            && old(self).next_alive@[k].y == y;
                    assert(self.next_alive@[k].x == x && self.next_alive@[k].y == y);
                } else {
                    let k = self.next_alive@.len() - 1;
                    assert(self.next_alive@[k].x == x && self.next_alive@[k].y == y);
                }
            }
        }

        true
    }

    /// Validates `coord` against the grid bounds, then spawns it. An
    /// out-of-bounds coordinate is rejected with a bounds error and the
    /// world is left unchanged; an in-bounds one is recorded as
    /// [`World::spawn`] does, the result saying whether it was newly
    /// spawned.
    pub fn try_spawn(&mut self, coord: Coord) -> (r: Result<bool, OutOfBounds>)
        requires
            old(self).dims_ok(),
            old(self).next_ok(),
        ensures
            r is Ok <==> old(self).in_bounds(coord.x as int, coord.y as int),
            r is Err ==> *final(self) == *old(self),
            final(self).dims_ok(),
            final(self).next_ok(),
            final(self).xs() == old(self).xs(),
            final(self).ys() == old(self).ys(),
            forall|x: int, y: int| final(self).cur_live(x, y) == old(self).cur_live(x, y),
            final(self).alive_list() == old(self).alive_list(),
            forall|x: int, y: int| final(self).next_checked(x, y) == old(self).next_checked(x, y),
            forall|x: int, y: int|
                final(self).next_live(x, y) == (old(self).next_live(x, y) || (r is Ok && x
                    == coord.x && y == coord.y)),
            r is Ok ==> r->Ok_0 == !old(self).next_live(coord.x as int, coord.y as int),
            r == Ok::<bool, OutOfBounds>(true) ==> final(self).next_alive_list() == old(
                self,
            ).next_alive_list().push(coord),
            r == Ok::<bool, OutOfBounds>(false) ==> *final(self) == *old(self),
    {
        if self.contains(coord.x, coord.y) {
            Ok(self.spawn(coord))
        } else {
            Err(OutOfBounds)
        }
    }

    /// Whether the current-generation neighbour of `coord` one step in
    /// `direction` is live. Callers guarantee that the step stays on the
    /// grid.
    pub fn neighbour_alive(&self, coord: &Coord, direction: Direction) -> (r: bool)
        requires
            self.dims_ok(),
            self.in_bounds(coord.x + direction.dx(), coord.y + direction.dy()),
        ensures
            r == self.cur_live(coord.x + direction.dx(), coord.y + direction.dy()),
    {
        let n = coord.coord(direction);
        self.grid[n.x][n.y].is_alive()
    }

    /// The number of live current-generation neighbours of `cell`, counting
    /// only neighbours that lie on the grid.
    pub fn neighbours(&self, cell: &Coord) -> (n: u8)
        requires
            self.dims_ok(),
            self.in_bounds(cell.x as int, cell.y as int),
        ensures
            n as int == self.neighbor_count(cell.x as int, cell.y as int),
            n <= 8,
    {
        let n_ok = cell.y > 0;
        let s_ok = cell.y < self.y_max;
        let w_ok = cell.x > 0;
        let e_ok = cell.x < self.x_max;

        let mut n: u8 = 0;

        if w_ok && n_ok && self.neighbour_alive(cell, Direction::NW) {
            n += 1;
        }
        if n_ok && self.neighbour_alive(cell, Direction::N) {
            n += 1;
        }
        if e_ok && n_ok && self.neighbour_alive(cell, Direction::NE) {
            n += 1;
        }
        if w_ok && self.neighbour_alive(cell, Direction::W) {
            n += 1;
        }
        if e_ok && self.neighbour_alive(cell, Direction::E) {
            n += 1;
        }
        if w_ok && s_ok && self.neighbour_alive(cell, Direction::SW) {
            n += 1;
        }
        if s_ok && self.neighbour_alive(cell, Direction::S) {
            n += 1;
        }
        if e_ok && s_ok && self.neighbour_alive(cell, Direction::SE) {
            n += 1;
        }

        n
    }

    /// Mid-advance bookkeeping invariant: every cell whose fate was already
    /// computed (its `checked` mark is set) holds exactly the state the rule
    /// assigns it, and every cell not yet visited is still dead in the
    /// next-generation buffer.
    pub open spec fn tick_inv(&self) -> bool {
        &&& forall|x: int, y: int| #[trigger]
            self.next_checked(x, y) ==> (self.next_live(x, y) <==> self.step(x, y))
        &&& forall|x: int, y: int| !self.next_checked(x, y) ==> !(#[trigger] self.next_live(x, y))
    }

    /// Computes the fate of `coord` once: if it was already visited this
    /// generation, nothing happens; otherwise its live-neighbour count is
    /// taken from the frozen current grid, the cell is marked visited, and
    /// it is spawned into the next generation exactly when the rule says so.
    pub fn check_spawn(&mut self, coord: Coord) -> (r: bool)
        requires
            old(self).dims_ok(),
            old(self).in_bounds(coord.x as int, coord.y as int),
            old(self).next_ok(),
            old(self).tick_inv(),
        ensures
            final(self).dims_ok(),
            final(self).next_ok(),
            final(self).tick_inv(),
            final(self).xs() == old(self).xs(),
            final(self).ys() == old(self).ys(),
            forall|x: int, y: int| final(self).cur_live(x, y) == old(self).cur_live(x, y),
            final(self).alive_list() == old(self).alive_list(),
            forall|x: int, y: int|
                final(self).next_checked(x, y) == (old(self).next_checked(x, y) || (x == coord.x
                    && y == coord.y)),
            r == (!old(self).next_checked(coord.x as int, coord.y as int) && old(self).step(
                coord.x as int,
                coord.y as int,
            )),
            r ==> final(self).next_alive_list() == old(self).next_alive_list().push(coord),
            !r ==> final(self).next_alive_list() == old(self).next_alive_list(),
    {
        if self.is_checked(&coord) {
            return false;
        }

        let neighbours = self.neighbours(&coord);

        self.set_checked(&coord);

        let alive_now = self.grid[coord.x][coord.y].is_alive();

        if alive_now {
            if neighbours == 2 || neighbours == 3 {
                return self.spawn(coord);
            }
        } else {
            if neighbours == 3 {
                return self.spawn(coord);
            }
        }

        false
    }

    /// The cell `c` and all of its on-grid neighbours have had their fate
    /// computed in the advance that is underway.
    pub open spec fn visited_around(&self, c: Coord) -> bool {
        forall|x: int, y: int|
            self.in_bounds(x, y) && touches(c, x, y) ==> #[trigger] self.next_checked(x, y)
    }

    /// `(x, y)` is a live cell of the current generation or a neighbour of
    /// one: the only positions whose fate a generation advance evaluates.
    pub open spec fn near_live(&self, x: int, y: int) -> bool {
        exists|k: int|
            0 <= k < self.alive_list().len() && touches(#[trigger] self.alive_list()[k], x, y)
    }

    /// If every live cell's whole neighbourhood was visited, then a cell
    /// that was never visited has no live cell at or next to `(nx, ny)`,
    /// any position touching it: a live cell there would have caused the
    /// visit.
    proof fn lemma_no_live_near_unchecked(&self, x: int, y: int, nx: int, ny: int)
        requires
            self.cur_ok(),
            forall|k: int|
                0 <= k < self.alive@.len() ==> self.visited_around(#[trigger] self.alive@[k]),
            self.in_bounds(x, y),
            !self.next_checked(x, y),
            -1 <= nx - x <= 1,
            -1 <= ny - y <= 1,
        ensures
            !self.cur_live(nx, ny),
    {
        if self.cur_live(nx, ny) {
            assert(Self::in_list(self.alive@, nx, ny));
            let k = choose|k: int|
                0 <= k < self.alive@.len() && (#[trigger] self.alive@[k]).x == nx
                    && self.alive@[k].y == ny;
            assert(self.visited_around(self.alive@[k]));
            assert(touches(self.alive@[k], x, y));
            assert(self.next_checked(x, y));
        }
    }

    /// Visits the cell `c` and each of its on-grid neighbours, computing the
    /// fate of every one of them that was not visited before.
    fn visit_neighbourhood(&mut self, c: Coord)
        requires
            old(self).dims_ok(),
            old(self).in_bounds(c.x as int, c.y as int),
            old(self).next_ok(),
            old(self).tick_inv(),
        ensures
            final(self).dims_ok(),
            final(self).next_ok(),
            final(self).tick_inv(),
            final(self).xs() == old(self).xs(),
            final(self).ys() == old(self).ys(),
            forall|x: int, y: int| final(self).cur_live(x, y) == old(self).cur_live(x, y),
            final(self).alive_list() == old(self).alive_list(),
            forall|x: int, y: int|
                old(self).next_checked(x, y) ==> final(self).next_checked(x, y),
            forall|x: int, y: int|
                #[trigger] final(self).next_checked(x, y) ==> (old(self).next_checked(x, y)
                    || touches(c, x, y)),
            final(self).visited_around(c),
    {
        self.check_spawn(c);
        if c.y > 0 {
            self.check_spawn(Coord::new(c.x, c.y - 1));
        }
        if c.y < self.y_max {
            self.check_spawn(Coord::new(c.x, c.y + 1));
        }
        if c.x > 0 {
            self.check_spawn(Coord::new(c.x - 1, c.y));
            if c.y > 0 {
                self.check_spawn(Coord::new(c.x - 1, c.y - 1));
            }
            if c.y < self.y_max {
                self.check_spawn(Coord::new(c.x - 1, c.y + 1));
            }
        }
        if c.x < self.x_max {
            self.check_spawn(Coord::new(c.x + 1, c.y));
            if c.y > 0 {
                self.check_spawn(Coord::new(c.x + 1, c.y - 1));
            }
            if c.y < self.y_max {
                self.check_spawn(Coord::new(c.x + 1, c.y + 1));
            }
        }
    }

    /// Computes the whole next generation from the frozen current one. Every
    /// live cell and each of its on-grid neighbours is visited and its fate
    /// computed exactly once; cells farther from every live cell are never
    /// evaluated, which is sound because they have no live neighbour and so
    /// stay dead under the rule. After the call the next-generation buffer
    /// holds, for every cell of the grid, exactly the state the rule assigns
    /// it; the current generation is untouched; and the `checked` marks
    /// record that exactly the live cells and their neighbourhoods were
    /// evaluated.
    pub fn tick(&mut self)
        requires
            old(self).wf(),
            old(self).next_fresh(),
        ensures
            final(self).wf(),
            final(self).next_ok(),
            final(self).xs() == old(self).xs(),
            final(self).ys() == old(self).ys(),
            forall|x: int, y: int| final(self).cur_live(x, y) == old(self).cur_live(x, y),
            final(self).alive_list() == old(self).alive_list(),
            forall|x: int, y: int|
                final(self).in_bounds(x, y) ==> (final(self).next_live(x, y) <==> old(self).step(
                    x,
                    y,
                )),
            forall|x: int, y: int|
                #[trigger] final(self).next_checked(x, y) <==> (final(self).in_bounds(x, y)
                    && final(self).near_live(x, y)),
    {
        let ghost w0 = *self;
        let mut i: usize = 0;
        while i < self.alive.len()
            invariant
                self.dims_ok(),
                self.cur_ok(),
                self.next_ok(),
                self.tick_inv(),
                self.xs() == w0.xs(),
                self.ys() == w0.ys(),
                forall|x: int, y: int| self.cur_live(x, y) == w0.cur_live(x, y),
                self.alive@ == w0.alive@,
                i <= self.alive@.len(),
                forall|k: int| 0 <= k < i ==> self.visited_around(#[trigger] self.alive@[k]),
                forall|x: int, y: int| #[trigger] self.next_checked(x, y) ==> self.near_live(x, y),
            decreases self.alive@.len() - i,
        {
            let ghost pre = *self;
            let c = self.alive[i];
            proof {
                assert(c == self.alive_list()[i as int]);
                assert(self.cur_live(c.x as int, c.y as int));
            }

            self.visit_neighbourhood(c);

            proof {
                assert forall|k: int| 0 <= k < i + 1 implies self.visited_around(
                    #[trigger] self.alive@[k],
                ) by {
                    if k < i {
                        assert(pre.visited_around(pre.alive@[k]));
                        assert forall|x: int, y: int|
                            self.in_bounds(x, y) && touches(self.alive@[k], x, y) implies #[trigger]
                        self.next_checked(x, y) by {
                            assert(pre.next_checked(x, y));
                        }
                    }
                }
                assert forall|x: int, y: int| #[trigger]
                    self.next_checked(x, y) implies self.near_live(x, y) by {
                    if pre.next_checked(x, y) {
                        assert(pre.near_live(x, y));
                        let k = choose|k: int|
                            0 <= k < pre.alive_list().len() && touches(
                                #[trigger] pre.alive_list()[k],
                                x,
                                y,
                            );
                        assert(touches(self.alive_list()[k], x, y));
                    } else {
                        assert(touches(self.alive_list()[i as int], x, y));
                    }
                }
            }

            i += 1;
        }

        proof {
            assert forall|x: int, y: int| self.in_bounds(x, y) implies (self.next_live(x, y)
                <==> w0.step(x, y)) by {
                if !self.next_checked(x, y) {
                    self.lemma_no_live_near_unchecked(x, y, x, y);
                    self.lemma_no_live_near_unchecked(x, y, x - 1, y - 1);
                    self.lemma_no_live_near_unchecked(x, y, x, y - 1);
                    self.lemma_no_live_near_unchecked(x, y, x + 1, y - 1);
                    self.lemma_no_live_near_unchecked(x, y, x - 1, y);
                    self.lemma_no_live_near_unchecked(x, y, x + 1, y);
                    self.lemma_no_live_near_unchecked(x, y, x - 1, y + 1);
                    self.lemma_no_live_near_unchecked(x, y, x, y + 1);
                    self.lemma_no_live_near_unchecked(x, y, x + 1, y + 1);
                    assert(self.neighbor_count(x, y) == 0);
                    assert(!self.step(x, y));
                }
                assert(self.step(x, y) == w0.step(x, y));
            }
            assert forall|x: int, y: int|
                self.in_bounds(x, y) && self.near_live(x, y) implies #[trigger] self.next_checked(
                x,
                y,
            ) by {
                let k = choose|k: int|
                    0 <= k < self.alive_list().len() && touches(#[trigger] self.alive_list()[k], x, y);
                assert(self.visited_around(self.alive@[k]));
            }
        }
    }

    /// Publishes the generation prepared in the next buffer: the next grid
    /// becomes the current one and the next alive list becomes the current
    /// alive list, after which the (new) next buffer is reset to all-dead,
    /// all-unvisited, with an empty list.
    pub fn update(&mut self)
        requires
            old(self).dims_ok(),
            old(self).next_ok(),
        ensures
            final(self).wf(),
            final(self).next_fresh(),
            final(self).xs() == old(self).xs(),
            final(self).ys() == old(self).ys(),
            forall|x: int, y: int| final(self).cur_live(x, y) == old(self).next_live(x, y),
            final(self).alive_list() == old(self).next_alive_list(),
    {
        core::mem::swap(&mut self.grid, &mut self.next_grid);

        let ghost mid = *self;
        let mut x: usize = 0;
        while x < self.x_size
            invariant
                Self::grid_shape(self.next_grid@, self.xs(), self.ys()),
                x <= self.x_size,
                forall|i: int, j: int|
                    0 <= i < x && 0 <= j < self.ys()
                        ==> !(#[trigger] self.next_grid@[i]@[j]).alive
                            && !self.next_grid@[i]@[j].checked,
                self.grid == mid.grid,
                self.alive == mid.alive,
                self.next_alive == mid.next_alive,
                self.x_size == mid.x_size,
                self.y_size == mid.y_size,
                self.x_max == mid.x_max,
                self.y_max == mid.y_max,
            decreases self.x_size - x,
        {
            let mut y: usize = 0;
            while y < self.y_size
                invariant
                    Self::grid_shape(self.next_grid@, self.xs(), self.ys()),
                    x < self.x_size,
                    y <= self.y_size,
                    forall|i: int, j: int|
                        0 <= i < x && 0 <= j < self.ys()
                            ==> !(#[trigger] self.next_grid@[i]@[j]).alive
                                && !self.next_grid@[i]@[j].checked,
                    forall|j: int|
                        0 <= j < y ==> !(#[trigger] self.next_grid@[x as int]@[j]).alive
                            && !self.next_grid@[x as int]@[j].checked,
                    self.grid == mid.grid,
                    self.alive == mid.alive,
                    self.next_alive == mid.next_alive,
                    self.x_size == mid.x_size,
                    self.y_size == mid.y_size,
                    self.x_max == mid.x_max,
                    self.y_max == mid.y_max,
                decreases self.y_size - y,
            {
                let cell = &mut self.next_grid[x][y];
                *cell = Cell::new();
                y += 1;
            }
            x += 1;
        }

        core::mem::swap(&mut self.alive, &mut self.next_alive);
        self.next_alive.clear();

        proof {
            assert(self.alive_list() == old(self).next_alive_list());
            assert forall|k: int| 0 <= k < self.alive_list().len() implies self.cur_live(
                (#[trigger] self.alive_list()[k]).x as int,
                self.alive_list()[k].y as int,
            ) by {
                let e = old(self).next_alive_list()[k];
                assert(old(self).next_live(e.x as int, e.y as int));
            }
            assert forall|x: int, y: int| #[trigger]
                self.cur_live(x, y) implies Self::in_list(self.alive_list(), x, y) by {
                assert(old(self).next_live(x, y));
            }
        }
    }

    /// The snapshot of the current generation as bytes: `ys` rows of `xs`
    /// cells each, row-major with `y` outer and `x` inner, `49u8` for a live
    /// cell, `32u8` for a dead one, every row terminated by `10u8`.
    pub open spec fn render(&self) -> Seq<u8> {
        Seq::new(
            (self.ys() * (self.xs() + 1)) as nat,
            |i: int|
                {
                    let y = i / (self.xs() + 1);
                    let x = i % (self.xs() + 1);
                    if x == self.xs() {
                        10u8
                    } else if self.cur_live(x, y) {
                        49u8
                    } else {
                        32u8
                    }
                },
        )
    }

    /// One whole generation: computes the next state from the frozen current
    /// one ([`World::tick`]) and publishes it ([`World::update`]), so that
    /// afterwards [`advances_to`] relates the old world to the new one.
    pub fn advance(&mut self)
        requires
            old(self).wf(),
            old(self).next_fresh(),
        ensures
            final(self).wf(),
            final(self).next_fresh(),
            advances_to(*old(self), *final(self)),
    {
        self.tick();
        self.update();
        proof {
            assert forall|x: int, y: int| #[trigger]
                self.cur_live(x, y) <==> (old(self).in_bounds(x, y) && old(self).step(x, y)) by {
                self.lemma_live_in_bounds(x, y);
            }
        }
    }

    /// Positions strictly inside row `y` of the rendered snapshot lie below
    /// the end of the whole snapshot.
    proof fn lemma_row_index(ys: int, y: int, row_len: int)
        by (nonlinear_arith)
        requires
            0 <= y < ys,
            1 <= row_len,
        ensures
            0 <= y * row_len,
            (y + 1) * row_len == y * row_len + row_len,
            (y + 1) * row_len <= ys * row_len,
    {
    }

    /// Appends the snapshot of the current generation to `out`, in the
    /// format that [`World::render`] states.
    pub fn to_writer(&self, out: &mut Vec<u8>)
        requires
            self.dims_ok(),
        ensures
            final(out)@ == old(out)@ + self.render(),
    {
        let ghost base = out@.len() as int;
        let ghost row_len = self.xs() + 1;
        let mut y_index: usize = 0;
        while y_index < self.y_size
            invariant
                self.dims_ok(),
                y_index <= self.y_size,
                out@.len() - base == y_index * row_len,
                row_len == self.xs() + 1,
                out@ == old(out)@ + self.render().take(y_index * row_len),
            decreases self.y_size - y_index,
        {
            let ghost row_base = y_index * row_len;
            let mut x_index: usize = 0;
            while x_index < self.x_size
                invariant
                    self.dims_ok(),
                    y_index < self.y_size,
                    x_index <= self.x_size,
                    row_len == self.xs() + 1,
                    row_base == y_index * row_len,
                    out@.len() - base == row_base + x_index,
                    out@ == old(out)@ + self.render().take(row_base + x_index),
                decreases self.x_size - x_index,
            {
                proof {
                    Self::lemma_row_index(self.ys(), y_index as int, row_len);
                    assert(self.render().len() == self.ys() * row_len);
                    vstd::arithmetic::div_mod::lemma_fundamental_div_mod_converse(
                        row_base + x_index,
                        row_len,
                        y_index as int,
                        x_index as int,
                    );
                    assert(self.render()[row_base + x_index] == (if self.cur_live(
                        x_index as int,
                        y_index as int,
                    ) {
                        49u8
                    } else {
                        32u8
                    }));
                }
                if self.grid[x_index][y_index].is_alive() {
                    out.push(49u8);
                } else {
                    out.push(32u8);
                }
                proof {
                    assert(out@ =~= old(out)@ + self.render().take(row_base + x_index + 1));
                }
                x_index += 1;
            }
            out.push(10u8);
            proof {
                Self::lemma_row_index(self.ys(), y_index as int, row_len);
                assert(self.render().len() == self.ys() * row_len);
                vstd::arithmetic::div_mod::lemma_fundamental_div_mod_converse(
                    row_base + self.xs(),
                    row_len,
                    y_index as int,
                    self.xs(),
                );
                assert(self.render()[row_base + self.xs()] == 10u8);
                assert(out@ =~= old(out)@ + self.render().take((y_index + 1) * row_len));
            }
            y_index += 1;
        }
        proof {
            assert(out@ =~= old(out)@ + self.render());
        }
    }
}

} // verus!
