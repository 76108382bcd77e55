//! General properties of the transition rule, proved once and for all: the
//! step is a deterministic function of the grid, neighbor counting wraps
//! around every edge, the 2-by-2 block is a still life, the blinker
//! oscillates with period 2, the glider travels one cell diagonally every
//! four generations, and the population rules act as stated.

use vstd::prelude::*;
use crate::life::lemma_neighbor_count_parts;
use crate::life::live_as_int;
use crate::life::same_cells;
use crate::life::same_dims;
use crate::life::step_of;
use crate::life::wrap1;
use crate::life::GameOfLife;

verus! {

/// The step is deterministic: two grids of the same size holding the same
/// generation assign every cell the same next state, however each of them
/// was built.
pub proof fn lemma_step_deterministic(a: GameOfLife, b: GameOfLife, x: int, y: int)
    requires
        same_dims(a, b),
        same_cells(a, b),
        a.in_bounds(x, y),
    ensures
        a.next_cell(x, y) == b.next_cell(x, y),
{
    reveal(crate::life::wrap1);
    let w = a.width();
    let h = a.height();
    let xm = wrap1(x - 1, w);
    let xp = wrap1(x + 1, w);
    let ym = wrap1(y - 1, h);
    let yp = wrap1(y + 1, h);
    assert(a.cell(x, y) == b.cell(x, y));
    assert(a.cell(xm, ym) == b.cell(xm, ym));
    assert(a.cell(x, ym) == b.cell(x, ym));
    assert(a.cell(xp, ym) == b.cell(xp, ym));
    assert(a.cell(xm, y) == b.cell(xm, y));
    assert(a.cell(xp, y) == b.cell(xp, y));
    assert(a.cell(xm, yp) == b.cell(xm, yp));
    assert(a.cell(x, yp) == b.cell(x, yp));
    assert(a.cell(xp, yp) == b.cell(xp, yp));
}

/// Neighbor counting wraps around the corners: on a grid at least 3 wide and
/// 3 tall, a live cell at the far corner `(width-1, height-1)` is counted as
/// a neighbor of the near corner `(0, 0)`.
pub proof fn lemma_wrap_corner(g: GameOfLife)
    requires
        g.width() >= 3,
        g.height() >= 3,
        g.cell(g.width() - 1, g.height() - 1),
    ensures
        g.neighbor_count(0, 0) >= 1,
{
    reveal(crate::life::wrap1);
    lemma_neighbor_count_parts(g, 0, 0, g.width() - 1, 1, g.height() - 1, 1);
    assert(live_as_int(g.cell(g.width() - 1, g.height() - 1)) == 1);
}

/// A live cell with fewer than 2 live neighbors dies of underpopulation.
pub proof fn lemma_underpopulation(g: GameOfLife, x: int, y: int)
    requires
        g.cell(x, y),
        g.neighbor_count(x, y) < 2,
    ensures
        !g.next_cell(x, y),
{
}

/// A live cell with more than 3 live neighbors dies of overpopulation; in
/// particular one whose 8 neighbors are all alive.
pub proof fn lemma_overpopulation(g: GameOfLife, x: int, y: int)
    requires
        g.cell(x, y),
        g.neighbor_count(x, y) > 3,
    ensures
        !g.next_cell(x, y),
{
}

/// A live cell with 2 or 3 live neighbors survives.
pub proof fn lemma_survival(g: GameOfLife, x: int, y: int)
    requires
        g.cell(x, y),
        2 <= g.neighbor_count(x, y) <= 3,
    ensures
        g.next_cell(x, y),
{
}

/// A dead cell with exactly 3 live neighbors becomes alive.
pub proof fn lemma_reproduction(g: GameOfLife, x: int, y: int)
    requires
        !g.cell(x, y),
        g.neighbor_count(x, y) == 3,
    ensures
        g.next_cell(x, y),
{
}

/// A dead cell with any other number of live neighbors (2, 4, ...) stays
/// dead.
pub proof fn lemma_no_reproduction(g: GameOfLife, x: int, y: int)
    requires
        !g.cell(x, y),
        g.neighbor_count(x, y) != 3,
    ensures
        !g.next_cell(x, y),
{
}

/// Clearing is idempotent: two all-dead grids of the same size are the same
/// generation, so clearing an already-cleared grid changes nothing
/// observable.
pub proof fn lemma_clear_idempotent(a: GameOfLife, b: GameOfLife)
    requires
        same_dims(a, b),
        forall|x: int, y: int| a.in_bounds(x, y) ==> !a.cell(x, y),
        forall|x: int, y: int| b.in_bounds(x, y) ==> !b.cell(x, y),
    ensures
        same_cells(a, b),
{
    assert forall|x: int, y: int| a.in_bounds(x, y) implies a.cell(x, y) == b.cell(x, y) by {
        assert(!a.cell(x, y));
        assert(b.in_bounds(x, y));
        assert(!b.cell(x, y));
    }
}

/// The grid holds exactly a 2-by-2 block of live cells with top-left corner
/// `(ax, ay)`, and nothing else.
pub open spec fn block_exactly_at(g: GameOfLife, ax: int, ay: int) -> bool {
    forall|x: int, y: int|
        g.in_bounds(x, y) ==> g.cell(x, y) == ((x == ax || x == ax + 1) && (y == ay || y == ay
            + 1))
}

/// The block is a still life: on a grid at least 4 by 4 holding exactly a
/// block away from the seam, every cell keeps its state across a step.
pub proof fn lemma_block_still_life(g: GameOfLife, ax: int, ay: int, x: int, y: int)
    requires
        g.width() >= 4,
        g.height() >= 4,
        0 <= ax,
        ax + 1 < g.width(),
        0 <= ay,
        ay + 1 < g.height(),
        block_exactly_at(g, ax, ay),
        g.in_bounds(x, y),
    ensures
        g.next_cell(x, y) == g.cell(x, y),
{
    reveal(crate::life::wrap1);
    let w = g.width();
    let h = g.height();
    let xm = wrap1(x - 1, w);
    let xp = wrap1(x + 1, w);
    let ym = wrap1(y - 1, h);
    let yp = wrap1(y + 1, h);
    lemma_neighbor_count_parts(g, x, y, xm, xp, ym, yp);
    assert(g.in_bounds(xm, ym) && g.in_bounds(x, ym) && g.in_bounds(xp, ym) && g.in_bounds(xm, y)
        && g.in_bounds(xp, y) && g.in_bounds(xm, yp) && g.in_bounds(x, yp) && g.in_bounds(xp, yp));
    assert(g.cell(xm, ym) == ((xm == ax || xm == ax + 1) && (ym == ay || ym == ay + 1)));
    assert(g.cell(x, ym) == ((x == ax || x == ax + 1) && (ym == ay || ym == ay + 1)));
    assert(g.cell(xp, ym) == ((xp == ax || xp == ax + 1) && (ym == ay || ym == ay + 1)));
    assert(g.cell(xm, y) == ((xm == ax || xm == ax + 1) && (y == ay || y == ay + 1)));
    assert(g.cell(xp, y) == ((xp == ax || xp == ax + 1) && (y == ay || y == ay + 1)));
    assert(g.cell(xm, yp) == ((xm == ax || xm == ax + 1) && (yp == ay || yp == ay + 1)));
    assert(g.cell(x, yp) == ((x == ax || x == ax + 1) && (yp == ay || yp == ay + 1)));
    assert(g.cell(xp, yp) == ((xp == ax || xp == ax + 1) && (yp == ay || yp == ay + 1)));
    assert(g.cell(x, y) == ((x == ax || x == ax + 1) && (y == ay || y == ay + 1)));
}

/// The block is a still life, stated over a whole step: a grid holding
/// exactly a block away from the seam steps to an identical generation —
/// the output buffer equals the input buffer.
pub proof fn lemma_block_step_unchanged(g0: GameOfLife, g1: GameOfLife, ax: int, ay: int)
    requires
        g0.width() >= 4,
        g0.height() >= 4,
        0 <= ax,
        ax + 1 < g0.width(),
        0 <= ay,
        ay + 1 < g0.height(),
        block_exactly_at(g0, ax, ay),
        step_of(g0, g1),
    ensures
        same_cells(g0, g1),
{
    assert forall|x: int, y: int| g0.in_bounds(x, y) implies g0.cell(x, y) == g1.cell(x, y) by {
        lemma_block_still_life(g0, ax, ay, x, y);
    }
}

/// The grid holds exactly a horizontal blinker centered at `(cx, cy)`: the
/// three live cells `(cx-1, cy)`, `(cx, cy)` and `(cx+1, cy)`.
pub open spec fn horizontal_blinker_at(g: GameOfLife, cx: int, cy: int) -> bool {
    forall|x: int, y: int|
        g.in_bounds(x, y) ==> g.cell(x, y) == (y == cy && cx - 1 <= x <= cx + 1)
}

/// The grid holds exactly a vertical blinker centered at `(cx, cy)`: the
/// three live cells `(cx, cy-1)`, `(cx, cy)` and `(cx, cy+1)`.
pub open spec fn vertical_blinker_at(g: GameOfLife, cx: int, cy: int) -> bool {
    forall|x: int, y: int|
        g.in_bounds(x, y) ==> g.cell(x, y) == (x == cx && cy - 1 <= y <= cy + 1)
}

/// One step turns a horizontal blinker (kept away from the seam, so a grid
/// of at least 5 by 5) into the vertical blinker on the same center.
pub proof fn lemma_blinker_flips(g: GameOfLife, cx: int, cy: int, x: int, y: int)
    requires
        2 <= cx,
        cx <= g.width() - 3,
        2 <= cy,
        cy <= g.height() - 3,
        horizontal_blinker_at(g, cx, cy),
        g.in_bounds(x, y),
    ensures
        g.next_cell(x, y) == (x == cx && cy - 1 <= y <= cy + 1),
{
    reveal(crate::life::wrap1);
    let w = g.width();
    let h = g.height();
    let xm = wrap1(x - 1, w);
    let xp = wrap1(x + 1, w);
    let ym = wrap1(y - 1, h);
    let yp = wrap1(y + 1, h);
    lemma_neighbor_count_parts(g, x, y, xm, xp, ym, yp);
    assert(g.in_bounds(xm, ym) && g.in_bounds(x, ym) && g.in_bounds(xp, ym) && g.in_bounds(xm, y)
        && g.in_bounds(xp, y) && g.in_bounds(xm, yp) && g.in_bounds(x, yp) && g.in_bounds(xp, yp));
    assert(g.cell(xm, ym) == (ym == cy && cx - 1 <= xm <= cx + 1));
    assert(g.cell(x, ym) == (ym == cy && cx - 1 <= x <= cx + 1));
    assert(g.cell(xp, ym) == (ym == cy && cx - 1 <= xp <= cx + 1));
    assert(g.cell(xm, y) == (y == cy && cx - 1 <= xm <= cx + 1));
    assert(g.cell(xp, y) == (y == cy && cx - 1 <= xp <= cx + 1));
    assert(g.cell(xm, yp) == (yp == cy && cx - 1 <= xm <= cx + 1));
    assert(g.cell(x, yp) == (yp == cy && cx - 1 <= x <= cx + 1));
    assert(g.cell(xp, yp) == (yp == cy && cx - 1 <= xp <= cx + 1));
    assert(g.cell(x, y) == (y == cy && cx - 1 <= x <= cx + 1));
}

/// One step turns a vertical blinker (kept away from the seam) back into the
/// horizontal blinker on the same center.
pub proof fn lemma_blinker_flips_back(g: GameOfLife, cx: int, cy: int, x: int, y: int)
    requires
        2 <= cx,
        cx <= g.width() - 3,
        2 <= cy,
        cy <= g.height() - 3,
        vertical_blinker_at(g, cx, cy),
        g.in_bounds(x, y),
    ensures
        g.next_cell(x, y) == (y == cy && cx - 1 <= x <= cx + 1),
{
    reveal(crate::life::wrap1);
    let w = g.width();
    let h = g.height();
    let xm = wrap1(x - 1, w);
    let xp = wrap1(x + 1, w);
    let ym = wrap1(y - 1, h);
    let yp = wrap1(y + 1, h);
    lemma_neighbor_count_parts(g, x, y, xm, xp, ym, yp);
    assert(g.in_bounds(xm, ym) && g.in_bounds(x, ym) && g.in_bounds(xp, ym) && g.in_bounds(xm, y)
        && g.in_bounds(xp, y) && g.in_bounds(xm, yp) && g.in_bounds(x, yp) && g.in_bounds(xp, yp));
    assert(g.cell(xm, ym) == (xm == cx && cy - 1 <= ym <= cy + 1));
    assert(g.cell(x, ym) == (x == cx && cy - 1 <= ym <= cy + 1));
    assert(g.cell(xp, ym) == (xp == cx && cy - 1 <= ym <= cy + 1));
    assert(g.cell(xm, y) == (xm == cx && cy - 1 <= y <= cy + 1));
    assert(g.cell(xp, y) == (xp == cx && cy - 1 <= y <= cy + 1));
    assert(g.cell(xm, yp) == (xm == cx && cy - 1 <= yp <= cy + 1));
    assert(g.cell(x, yp) == (x == cx && cy - 1 <= yp <= cy + 1));
    assert(g.cell(xp, yp) == (xp == cx && cy - 1 <= yp <= cy + 1));
    assert(g.cell(x, y) == (x == cx && cy - 1 <= y <= cy + 1));
}

/// The blinker oscillates with period 2: starting from a horizontal blinker
/// away from the seam, one step yields the vertical blinker on the same
/// center and a second step restores the original configuration.
pub proof fn lemma_blinker_period_two(g0: GameOfLife, g1: GameOfLife, g2: GameOfLife, cx: int, cy: int)
    requires
        2 <= cx,
        cx <= g0.width() - 3,
        2 <= cy,
        cy <= g0.height() - 3,
        horizontal_blinker_at(g0, cx, cy),
        step_of(g0, g1),
        step_of(g1, g2),
    ensures
        vertical_blinker_at(g1, cx, cy),
        same_cells(g0, g2),
{
    assert forall|x: int, y: int| g1.in_bounds(x, y) implies g1.cell(x, y) == (x == cx && cy - 1
        <= y <= cy + 1) by {
        assert(g0.in_bounds(x, y));
        lemma_blinker_flips(g0, cx, cy, x, y);
    }
    assert forall|x: int, y: int| g0.in_bounds(x, y) implies g0.cell(x, y) == g2.cell(x, y) by {
        assert(g1.in_bounds(x, y));
        lemma_blinker_flips_back(g1, cx, cy, x, y);
        assert(g2.cell(x, y) == (y == cy && cx - 1 <= x <= cx + 1));
        assert(g0.cell(x, y) == (y == cy && cx - 1 <= x <= cx + 1));
    }
}

/// The five cells of the glider in its starting orientation, anchored at
/// the top-left corner `(ax, ay)` of its bounding box.
pub open spec fn glider_member(ax: int, ay: int, x: int, y: int) -> bool {
    (x == ax + 1 && y == ay) || (x == ax + 2 && y == ay + 1) || (x == ax && y == ay + 2) || (x == ax + 1 && y == ay + 2) || (x == ax + 2 && y == ay + 2)
}

/// The grid holds exactly this glider phase, and nothing else.
pub open spec fn glider_exactly_at(g: GameOfLife, ax: int, ay: int) -> bool {
    forall|x: int, y: int| g.in_bounds(x, y) ==> g.cell(x, y) == glider_member(ax, ay, x, y)
}

/// The glider one generation after its starting orientation.
pub open spec fn glider_phase1_member(ax: int, ay: int, x: int, y: int) -> bool {
    (x == ax && y == ay + 1) || (x == ax + 2 && y == ay + 1) || (x == ax + 1 && y == ay + 2) || (x == ax + 2 && y == ay + 2) || (x == ax + 1 && y == ay + 3)
}

/// The grid holds exactly this glider phase, and nothing else.
pub open spec fn glider_phase1_at(g: GameOfLife, ax: int, ay: int) -> bool {
    forall|x: int, y: int| g.in_bounds(x, y) ==> g.cell(x, y) == glider_phase1_member(ax, ay, x, y)
}

/// The glider two generations after its starting orientation.
pub open spec fn glider_phase2_member(ax: int, ay: int, x: int, y: int) -> bool {
    (x == ax && y == ay + 2) || (x == ax + 2 && y == ay + 1) || (x == ax + 2 && y == ay + 2) || (x == ax + 2 && y == ay + 3) || (x == ax + 1 && y == ay + 3)
}

/// The grid holds exactly this glider phase, and nothing else.
pub open spec fn glider_phase2_at(g: GameOfLife, ax: int, ay: int) -> bool {
    forall|x: int, y: int| g.in_bounds(x, y) ==> g.cell(x, y) == glider_phase2_member(ax, ay, x, y)
}

/// The glider three generations after its starting orientation.
pub open spec fn glider_phase3_member(ax: int, ay: int, x: int, y: int) -> bool {
    (x == ax + 1 && y == ay + 1) || (x == ax + 2 && y == ay + 2) || (x == ax + 3 && y == ay + 2) || (x == ax + 1 && y == ay + 3) || (x == ax + 2 && y == ay + 3)
}

/// The grid holds exactly this glider phase, and nothing else.
pub open spec fn glider_phase3_at(g: GameOfLife, ax: int, ay: int) -> bool {
    forall|x: int, y: int| g.in_bounds(x, y) ==> g.cell(x, y) == glider_phase3_member(ax, ay, x, y)
}

/// One step advances the glider from phase 0 to phase 1 (kept away
/// from the seam).
pub proof fn lemma_glider_step0(g: GameOfLife, ax: int, ay: int, x: int, y: int)
    requires
        1 <= ax,
        ax + 4 <= g.width() - 1,
        1 <= ay,
        ay + 4 <= g.height() - 1,
        glider_exactly_at(g, ax, ay),
        g.in_bounds(x, y),
    ensures
        g.next_cell(x, y) == glider_phase1_member(ax, ay, x, y),
{
    reveal(crate::life::wrap1);
    let w = g.width();
    let h = g.height();
    let xm = wrap1(x - 1, w);
    let xp = wrap1(x + 1, w);
    let ym = wrap1(y - 1, h);
    let yp = wrap1(y + 1, h);
    lemma_neighbor_count_parts(g, x, y, xm, xp, ym, yp);
    assert(g.in_bounds(xm, ym) && g.in_bounds(x, ym) && g.in_bounds(xp, ym) && g.in_bounds(xm, y)
        && g.in_bounds(xp, y) && g.in_bounds(xm, yp) && g.in_bounds(x, yp) && g.in_bounds(xp, yp));
    assert(g.cell(xm, ym) == glider_member(ax, ay, xm, ym));
    assert(g.cell(x, ym) == glider_member(ax, ay, x, ym));
    assert(g.cell(xp, ym) == glider_member(ax, ay, xp, ym));
    assert(g.cell(xm, y) == glider_member(ax, ay, xm, y));
    assert(g.cell(xp, y) == glider_member(ax, ay, xp, y));
    assert(g.cell(xm, yp) == glider_member(ax, ay, xm, yp));
    assert(g.cell(x, yp) == glider_member(ax, ay, x, yp));
    assert(g.cell(xp, yp) == glider_member(ax, ay, xp, yp));
    assert(g.cell(x, y) == glider_member(ax, ay, x, y));
}

/// One step advances the glider from phase 1 to phase 2 (kept away
/// from the seam).
pub proof fn lemma_glider_step1(g: GameOfLife, ax: int, ay: int, x: int, y: int)
    requires
        1 <= ax,
        ax + 4 <= g.width() - 1,
        1 <= ay,
        ay + 4 <= g.height() - 1,
        glider_phase1_at(g, ax, ay),
        g.in_bounds(x, y),
    ensures
        g.next_cell(x, y) == glider_phase2_member(ax, ay, x, y),
{
    reveal(crate::life::wrap1);
    let w = g.width();
    let h = g.height();
    let xm = wrap1(x - 1, w);
    let xp = wrap1(x + 1, w);
    let ym = wrap1(y - 1, h);
    let yp = wrap1(y + 1, h);
    lemma_neighbor_count_parts(g, x, y, xm, xp, ym, yp);
    assert(g.in_bounds(xm, ym) && g.in_bounds(x, ym) && g.in_bounds(xp, ym) && g.in_bounds(xm, y)
        && g.in_bounds(xp, y) && g.in_bounds(xm, yp) && g.in_bounds(x, yp) && g.in_bounds(xp, yp));
    assert(g.cell(xm, ym) == glider_phase1_member(ax, ay, xm, ym));
    assert(g.cell(x, ym) == glider_phase1_member(ax, ay, x, ym));
    assert(g.cell(xp, ym) == glider_phase1_member(ax, ay, xp, ym));
    assert(g.cell(xm, y) == glider_phase1_member(ax, ay, xm, y));
    assert(g.cell(xp, y) == glider_phase1_member(ax, ay, xp, y));
    assert(g.cell(xm, yp) == glider_phase1_member(ax, ay, xm, yp));
    assert(g.cell(x, yp) == glider_phase1_member(ax, ay, x, yp));
    assert(g.cell(xp, yp) == glider_phase1_member(ax, ay, xp, yp));
    assert(g.cell(x, y) == glider_phase1_member(ax, ay, x, y));
}

/// One step advances the glider from phase 2 to phase 3 (kept away
/// from the seam).
pub proof fn lemma_glider_step2(g: GameOfLife, ax: int, ay: int, x: int, y: int)
    requires
        1 <= ax,
        ax + 4 <= g.width() - 1,
        1 <= ay,
        ay + 4 <= g.height() - 1,
        glider_phase2_at(g, ax, ay),
        g.in_bounds(x, y),
    ensures
        g.next_cell(x, y) == glider_phase3_member(ax, ay, x, y),
{
    reveal(crate::life::wrap1);
    let w = g.width();
    let h = g.height();
    let xm = wrap1(x - 1, w);
    let xp = wrap1(x + 1, w);
    let ym = wrap1(y - 1, h);
    let yp = wrap1(y + 1, h);
    lemma_neighbor_count_parts(g, x, y, xm, xp, ym, yp);
    assert(g.in_bounds(xm, ym) && g.in_bounds(x, ym) && g.in_bounds(xp, ym) && g.in_bounds(xm, y)
        && g.in_bounds(xp, y) && g.in_bounds(xm, yp) && g.in_bounds(x, yp) && g.in_bounds(xp, yp));
    assert(g.cell(xm, ym) == glider_phase2_member(ax, ay, xm, ym));
    assert(g.cell(x, ym) == glider_phase2_member(ax, ay, x, ym));
    assert(g.cell(xp, ym) == glider_phase2_member(ax, ay, xp, ym));
    assert(g.cell(xm, y) == glider_phase2_member(ax, ay, xm, y));
    assert(g.cell(xp, y) == glider_phase2_member(ax, ay, xp, y));
    assert(g.cell(xm, yp) == glider_phase2_member(ax, ay, xm, yp));
    assert(g.cell(x, yp) == glider_phase2_member(ax, ay, x, yp));
    assert(g.cell(xp, yp) == glider_phase2_member(ax, ay, xp, yp));
    assert(g.cell(x, y) == glider_phase2_member(ax, ay, x, y));
}

/// One step advances the glider from phase 3 to phase 4 (kept away
/// from the seam).
pub proof fn lemma_glider_step3(g: GameOfLife, ax: int, ay: int, x: int, y: int)
    requires
        1 <= ax,
        ax + 4 <= g.width() - 1,
        1 <= ay,
        ay + 4 <= g.height() - 1,
        glider_phase3_at(g, ax, ay),
        g.in_bounds(x, y),
    ensures
        g.next_cell(x, y) == glider_member(ax + 1, ay + 1, x, y),
{
    reveal(crate::life::wrap1);
    let w = g.width();
    let h = g.height();
    let xm = wrap1(x - 1, w);
    let xp = wrap1(x + 1, w);
    let ym = wrap1(y - 1, h);
    let yp = wrap1(y + 1, h);
    lemma_neighbor_count_parts(g, x, y, xm, xp, ym, yp);
    assert(g.in_bounds(xm, ym) && g.in_bounds(x, ym) && g.in_bounds(xp, ym) && g.in_bounds(xm, y)
        && g.in_bounds(xp, y) && g.in_bounds(xm, yp) && g.in_bounds(x, yp) && g.in_bounds(xp, yp));
    assert(g.cell(xm, ym) == glider_phase3_member(ax, ay, xm, ym));
    assert(g.cell(x, ym) == glider_phase3_member(ax, ay, x, ym));
    assert(g.cell(xp, ym) == glider_phase3_member(ax, ay, xp, ym));
    assert(g.cell(xm, y) == glider_phase3_member(ax, ay, xm, y));
    assert(g.cell(xp, y) == glider_phase3_member(ax, ay, xp, y));
    assert(g.cell(xm, yp) == glider_phase3_member(ax, ay, xm, yp));
    assert(g.cell(x, yp) == glider_phase3_member(ax, ay, x, yp));
    assert(g.cell(xp, yp) == glider_phase3_member(ax, ay, xp, yp));
    assert(g.cell(x, y) == glider_phase3_member(ax, ay, x, y));
}

/// The glider translates: starting from a glider kept away from the seam,
/// four steps reproduce the original shape moved one cell right and one
/// cell down.
pub proof fn lemma_glider_translates(
    g0: GameOfLife,
    g1: GameOfLife,
    g2: GameOfLife,
    g3: GameOfLife,
    g4: GameOfLife,
    ax: int,
    ay: int,
)
    requires
        1 <= ax,
        ax + 4 <= g0.width() - 1,
        1 <= ay,
        ay + 4 <= g0.height() - 1,
        glider_exactly_at(g0, ax, ay),
        step_of(g0, g1),
        step_of(g1, g2),
        step_of(g2, g3),
        step_of(g3, g4),
    ensures
        glider_exactly_at(g4, ax + 1, ay + 1),
{
    assert forall|x: int, y: int| g1.in_bounds(x, y) implies g1.cell(x, y)
        == glider_phase1_member(ax, ay, x, y) by {
        assert(g0.in_bounds(x, y));
        lemma_glider_step0(g0, ax, ay, x, y);
    }
    assert forall|x: int, y: int| g2.in_bounds(x, y) implies g2.cell(x, y)
        == glider_phase2_member(ax, ay, x, y) by {
        assert(g1.in_bounds(x, y));
        lemma_glider_step1(g1, ax, ay, x, y);
    }
    assert forall|x: int, y: int| g3.in_bounds(x, y) implies g3.cell(x, y)
        == glider_phase3_member(ax, ay, x, y) by {
        assert(g2.in_bounds(x, y));
        lemma_glider_step2(g2, ax, ay, x, y);
    }
    assert forall|x: int, y: int| g4.in_bounds(x, y) implies g4.cell(x, y)
        == glider_member(ax + 1, ay + 1, x, y) by {
        assert(g3.in_bounds(x, y));
        lemma_glider_step3(g3, ax, ay, x, y);
    }
}

} // verus!
