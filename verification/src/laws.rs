//! Proved properties of the simulator that relate several of its
//! operations: boundary-clipped neighbourhood sizes, behaviour of the rule,
//! and the fate of the classic still-life and oscillator patterns.

use vstd::prelude::*;

use crate::world::advances_to;
use crate::world::World;

verus! {

/// 1 if `(x, y)` lies on an `xs` by `ys` grid, else 0.
pub open spec fn bounded(xs: int, ys: int, x: int, y: int) -> int {
    if 0 <= x < xs && 0 <= y < ys {
        1
    } else {
        0
    }
}

/// How many of the eight compass neighbours of `(x, y)` lie on an `xs` by
/// `ys` grid.
pub open spec fn in_bounds_neighbors(xs: int, ys: int, x: int, y: int) -> int {
    bounded(xs, ys, x - 1, y - 1) + bounded(xs, ys, x, y - 1) + bounded(xs, ys, x + 1, y - 1)
        + bounded(xs, ys, x - 1, y) + bounded(xs, ys, x + 1, y) + bounded(xs, ys, x - 1, y + 1)
        + bounded(xs, ys, x, y + 1) + bounded(xs, ys, x + 1, y + 1)
}

/// On a grid with both sides at least 2, a cell's clipped neighbourhood has
/// exactly 3 cells at a corner, 5 along an edge, and 8 in the interior.
pub proof fn lemma_neighbor_enumeration(xs: int, ys: int, x: int, y: int)
    requires
        2 <= xs,
        2 <= ys,
        0 <= x < xs,
        0 <= y < ys,
    ensures
        ((x == 0 || x == xs - 1) && (y == 0 || y == ys - 1)) ==> in_bounds_neighbors(
            xs,
            ys,
            x,
            y,
        ) == 3,
        ((x == 0 || x == xs - 1) && !(y == 0 || y == ys - 1)) ==> in_bounds_neighbors(
            xs,
            ys,
            x,
            y,
        ) == 5,
        (!(x == 0 || x == xs - 1) && (y == 0 || y == ys - 1)) ==> in_bounds_neighbors(
            xs,
            ys,
            x,
            y,
        ) == 5,
        (!(x == 0 || x == xs - 1) && !(y == 0 || y == ys - 1)) ==> in_bounds_neighbors(
            xs,
            ys,
            x,
            y,
        ) == 8,
{
}

/// On a grid where every cell is live, the live-neighbour count of every
/// cell equals the size of its clipped neighbourhood.
pub proof fn lemma_full_grid_neighbor_count(w: World, x: int, y: int)
    requires
        forall|a: int, b: int| w.in_bounds(a, b) ==> #[trigger] w.cur_live(a, b),
    ensures
        w.neighbor_count(x, y) == in_bounds_neighbors(w.xs(), w.ys(), x, y),
{
    assert forall|a: int, b: int| #[trigger]
        w.live_at(a, b) == bounded(w.xs(), w.ys(), a, b) by {
        w.lemma_live_in_bounds(a, b);
        if w.in_bounds(a, b) {
            assert(w.cur_live(a, b));
        }
    }
}

/// Advancing a grid with no live cell yields a grid with no live cell: no
/// cell survives and no cell is born.
pub proof fn lemma_dead_grid_stays_dead(w: World)
    requires
        forall|x: int, y: int| !(#[trigger] w.cur_live(x, y)),
    ensures
        forall|x: int, y: int| !(#[trigger] w.step(x, y)),
{
}

/// The list-level reading of a dead generation: in a well-formed world the
/// alive list is empty exactly when no cell of the grid is live.
pub proof fn lemma_dead_world_empty_list(w: World)
    requires
        w.wf(),
    ensures
        (forall|x: int, y: int| !(#[trigger] w.cur_live(x, y))) <==> w.alive_list().len() == 0,
{
    if w.alive_list().len() == 0 {
        assert forall|x: int, y: int| !(#[trigger] w.cur_live(x, y)) by {
            if w.cur_live(x, y) {
                assert(World::in_list(w.alive_list(), x, y));
            }
        }
    } else {
        let e = w.alive_list()[0];
        assert(w.cur_live(e.x as int, e.y as int));
    }
}

/// The rule, cell by cell: a dead cell with exactly three live neighbours
/// is born; a live cell with two or three live neighbours survives; a live
/// cell with fewer than two or more than three live neighbours dies.
pub proof fn lemma_rule_cases(w: World, x: int, y: int)
    ensures
        (!w.cur_live(x, y) && w.neighbor_count(x, y) == 3) ==> w.step(x, y),
        (!w.cur_live(x, y) && w.neighbor_count(x, y) != 3) ==> !w.step(x, y),
        (w.cur_live(x, y) && (w.neighbor_count(x, y) == 2 || w.neighbor_count(x, y) == 3))
            ==> w.step(x, y),
        (w.cur_live(x, y) && (w.neighbor_count(x, y) < 2 || w.neighbor_count(x, y) > 3))
            ==> !w.step(x, y),
{
}

/// A two-by-two block of live cells with its north-west corner at `(a, b)`,
/// alone on the grid, is a still life: one generation later exactly the
/// same four cells are alive.
pub proof fn lemma_block_stable(w: World, a: int, b: int)
    requires
        0 <= a,
        a + 1 < w.xs(),
        0 <= b,
        b + 1 < w.ys(),
        forall|x: int, y: int|
            #[trigger] w.cur_live(x, y) <==> (a <= x <= a + 1 && b <= y <= b + 1),
    ensures
        forall|x: int, y: int| #[trigger] w.step(x, y) <==> (a <= x <= a + 1 && b <= y <= b + 1),
{
}

/// A two-by-two block alone on the grid is a still life over any number of
/// generations: along every chain of worlds that starts with the block and
/// in which each world advances to the next, every world holds exactly the
/// same four live cells.
pub proof fn lemma_block_stable_forever(ws: Seq<World>, a: int, b: int)
    requires
        ws.len() >= 1,
        0 <= a,
        a + 1 < ws[0].xs(),
        0 <= b,
        b + 1 < ws[0].ys(),
        forall|x: int, y: int|
            #[trigger] ws[0].cur_live(x, y) <==> (a <= x <= a + 1 && b <= y <= b + 1),
        forall|k: int| 0 <= k < ws.len() - 1 ==> advances_to(#[trigger] ws[k], ws[k + 1]),
    ensures
        forall|k: int, x: int, y: int|
            0 <= k < ws.len() ==> ((#[trigger] ws[k].cur_live(x, y)) <==> (a <= x <= a + 1 && b
                <= y <= b + 1)),
    decreases ws.len(),
{
    if ws.len() > 1 {
        lemma_block_stable(ws[0], a, b);
        assert(advances_to(ws[0], ws[1]));
        assert forall|x: int, y: int|
            #[trigger] ws[1].cur_live(x, y) <==> (a <= x <= a + 1 && b <= y <= b + 1) by {
            assert(ws[1].cur_live(x, y) <==> (ws[0].in_bounds(x, y) && ws[0].step(x, y)));
        }
        let tail = ws.subrange(1, ws.len() as int);
        assert forall|k: int| 0 <= k < tail.len() - 1 implies advances_to(
            #[trigger] tail[k],
            tail[k + 1],
        ) by {
            assert(tail[k] == ws[k + 1] && tail[k + 1] == ws[k + 2]);
        }
        lemma_block_stable_forever(tail, a, b);
        assert forall|k: int, x: int, y: int| 0 <= k < ws.len() implies ((
        #[trigger] ws[k].cur_live(x, y)) <==> (a <= x <= a + 1 && b <= y <= b + 1)) by {
            if k >= 1 {
                assert(ws[k] == tail[k - 1]);
                assert(tail[k - 1].cur_live(x, y) <==> (a <= x <= a + 1 && b <= y <= b + 1));
            }
        }
    }
}

/// A horizontal blinker: three live cells in a row centred at `(cx, cy)`,
/// alone on the grid and one cell clear of every boundary, becomes the
/// vertical triple through the same centre one generation later.
pub proof fn lemma_blinker_horizontal(w: World, cx: int, cy: int)
    requires
        1 <= cx,
        cx + 1 < w.xs(),
        1 <= cy,
        cy + 1 < w.ys(),
        forall|x: int, y: int|
            #[trigger] w.cur_live(x, y) <==> (y == cy && cx - 1 <= x <= cx + 1),
    ensures
        forall|x: int, y: int| #[trigger] w.step(x, y) <==> (x == cx && cy - 1 <= y <= cy + 1),
{
}

/// A vertical blinker: three live cells in a column centred at `(cx, cy)`,
/// alone on the grid and one cell clear of every boundary, becomes the
/// horizontal triple through the same centre one generation later.
pub proof fn lemma_blinker_vertical(w: World, cx: int, cy: int)
    requires
        1 <= cx,
        cx + 1 < w.xs(),
        1 <= cy,
        cy + 1 < w.ys(),
        forall|x: int, y: int|
            #[trigger] w.cur_live(x, y) <==> (x == cx && cy - 1 <= y <= cy + 1),
    ensures
        forall|x: int, y: int| #[trigger] w.step(x, y) <==> (y == cy && cx - 1 <= x <= cx + 1),
{
}

/// The blinker oscillates with period two: from a horizontal triple, one
/// generation gives the vertical triple through the same centre, and a
/// second generation restores the horizontal triple, cell for cell.
pub proof fn lemma_blinker_returns(w0: World, w1: World, w2: World, cx: int, cy: int)
    requires
        1 <= cx,
        cx + 1 < w0.xs(),
        1 <= cy,
        cy + 1 < w0.ys(),
        forall|x: int, y: int|
            #[trigger] w0.cur_live(x, y) <==> (y == cy && cx - 1 <= x <= cx + 1),
        advances_to(w0, w1),
        advances_to(w1, w2),
    ensures
        forall|x: int, y: int|
            #[trigger] w1.cur_live(x, y) <==> (x == cx && cy - 1 <= y <= cy + 1),
        forall|x: int, y: int| #[trigger] w2.cur_live(x, y) == w0.cur_live(x, y),
{
    lemma_blinker_horizontal(w0, cx, cy);
    assert forall|x: int, y: int|
        #[trigger] w1.cur_live(x, y) <==> (x == cx && cy - 1 <= y <= cy + 1) by {
        assert(w1.cur_live(x, y) <==> (w0.in_bounds(x, y) && w0.step(x, y)));
    }
    lemma_blinker_vertical(w1, cx, cy);
    assert forall|x: int, y: int| #[trigger] w2.cur_live(x, y) == w0.cur_live(x, y) by {
        assert(w2.cur_live(x, y) <==> (w1.in_bounds(x, y) && w1.step(x, y)));
    }
}

} // verus!
