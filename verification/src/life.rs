//! The simulation engine: grid state, toroidal neighbor counting, the
//! generation step, and pattern seeding.

use vstd::prelude::*;

verus! {

/// Error raised when a grid is constructed with an unusable size.
#[derive(Clone, Copy, Debug, PartialEq, Eq, Structural)]
pub enum GridError {
    /// The requested width or height is zero, or the cell count does not fit
    /// in a `usize`.
    InvalidConfiguration,
}

/// Wraps a coordinate that is at most one step outside `[0, m)` back into
/// `[0, m)`. For `-m <= v < 2 * m` this agrees with the Euclidean remainder
/// of `v` by `m`, stated without `%` so that all reasoning stays linear.
#[verifier::opaque]
pub open spec fn wrap1(v: int, m: int) -> int {
    if v < 0 {
        v + m
    } else if v >= m {
        v - m
    } else {
        v
    }
}

/// A live cell contributes 1 to a neighbor count, a dead cell 0.
pub open spec fn live_as_int(b: bool) -> int {
    if b {
        1
    } else {
        0
    }
}

/// The standard Game of Life transition rule, as a function of the cell's
/// current state and its live-neighbor count: a live cell survives with 2 or
/// 3 live neighbors (fewer is underpopulation, more is overpopulation), and a
/// dead cell is born with exactly 3.
pub open spec fn life_rule(alive: bool, n: int) -> bool {
    if alive {
        2 <= n && n <= 3
    } else {
        n == 3
    }
}

/// A Game of Life grid on a fixed-size torus, together with the run state the
/// driver loop reads and writes between generations.
///
/// The grid keeps two parallel row-major byte buffers of length
/// `width * height`: the authoritative "current" generation and a scratch
/// buffer for the next one. `step` fills the scratch buffer from a frozen
/// snapshot of the current one and then swaps their roles.
pub struct GameOfLife {
    w: usize,
    h: usize,
    curr: Vec<u8>,
    next: Vec<u8>,
    /// Whether the driver loop should stop advancing generations.
    pub paused: bool,
    /// One-shot request to advance a single generation while paused.
    pub step_once: bool,
    /// Delay between generations, in milliseconds; policy of the driver loop.
    pub delay_ms: u64,
}

impl GameOfLife {
    /// Internal well-formedness: positive dimensions, both buffers of length
    /// `width * height`, and every cell byte either 0 (dead) or 1 (alive).
    pub closed spec fn wf(&self) -> bool {
        &&& 1 <= self.w
        &&& 1 <= self.h
        &&& self.w * self.h <= usize::MAX
        &&& self.curr@.len() == self.w * self.h
        &&& self.next@.len() == self.w * self.h
        &&& forall|i: int| 0 <= i < self.curr@.len() ==> self.curr@[i] == 0 || self.curr@[i] == 1
        &&& forall|i: int| 0 <= i < self.next@.len() ==> self.next@[i] == 0 || self.next@[i] == 1
    }

    /// Number of columns of the grid.
    pub closed spec fn width(&self) -> int {
        self.w as int
    }

    /// Number of rows of the grid.
    pub closed spec fn height(&self) -> int {
        self.h as int
    }

    /// Whether the driver loop is paused.
    pub closed spec fn is_paused(&self) -> bool {
        self.paused
    }

    /// Whether a one-shot single step is pending.
    pub closed spec fn wants_step_once(&self) -> bool {
        self.step_once
    }

    /// The configured inter-generation delay in milliseconds.
    pub closed spec fn delay(&self) -> u64 {
        self.delay_ms
    }

    /// Whether `(x, y)` is a coordinate on the grid.
    pub open spec fn in_bounds(&self, x: int, y: int) -> bool {
        0 <= x < self.width() && 0 <= y < self.height()
    }

    /// Whether the cell at in-bounds `(x, y)` is alive in the current
    /// generation.
    #[verifier::opaque]
    pub closed spec fn cell(&self, x: int, y: int) -> bool {
        self.curr@[y * self.width() + x] == 1
    }

    /// The number of live cells among the 8 toroidal neighbors of `(x, y)`:
    /// each coordinate of each offset in `{-1, 0, 1} x {-1, 0, 1}` except
    /// `(0, 0)` is wrapped around the corresponding grid edge.
    pub open spec fn neighbor_count(&self, x: int, y: int) -> int {
        let xm = wrap1(x - 1, self.width());
        let xp = wrap1(x + 1, self.width());
        let ym = wrap1(y - 1, self.height());
        let yp = wrap1(y + 1, self.height());
        live_as_int(self.cell(xm, ym)) + live_as_int(self.cell(x, ym)) + live_as_int(
            self.cell(xp, ym),
        ) + live_as_int(self.cell(xm, y)) + live_as_int(self.cell(xp, y)) + live_as_int(
            self.cell(xm, yp),
        ) + live_as_int(self.cell(x, yp)) + live_as_int(self.cell(xp, yp))
    }

    /// The state the cell at in-bounds `(x, y)` takes in the next generation.
    pub open spec fn next_cell(&self, x: int, y: int) -> bool {
        life_rule(self.cell(x, y), self.neighbor_count(x, y))
    }
}

/// The two grids have the same width and height.
pub open spec fn same_dims(a: GameOfLife, b: GameOfLife) -> bool {
    a.width() == b.width() && a.height() == b.height()
}

/// Every cell of `a` has the same state in `b` (`a`'s coordinate range is
/// used; together with `same_dims` this makes the two generations equal).
pub open spec fn same_cells(a: GameOfLife, b: GameOfLife) -> bool {
    forall|x: int, y: int| a.in_bounds(x, y) ==> a.cell(x, y) == b.cell(x, y)
}

/// The driver-facing run state (pause flag, single-step request, delay) is
/// the same in both values.
pub closed spec fn same_controls(a: GameOfLife, b: GameOfLife) -> bool {
    a.paused == b.paused && a.step_once == b.step_once && a.delay_ms == b.delay_ms
}

/// `b` is exactly one generation after `a`: same dimensions, and every cell
/// of `b` is the transition rule applied to `a` at that coordinate.
pub open spec fn step_of(a: GameOfLife, b: GameOfLife) -> bool {
    same_dims(a, b) && forall|x: int, y: int|
        a.in_bounds(x, y) ==> b.cell(x, y) == a.next_cell(x, y)
}

/// A row-major index stays within a `w`-by-`h` buffer.
pub proof fn lemma_grid_index(w: int, h: int, x: int, y: int)
    requires
        0 <= x < w,
        0 <= y < h,
    ensures
        0 <= y * w + x,
        y * w + x < w * h,
{
    assert(0 <= y * w + x && y * w + x < w * h) by (nonlinear_arith)
        requires
            0 <= x < w,
            0 <= y < h,
    ;
}

/// Row-major indexing is injective on in-bounds coordinates.
pub proof fn lemma_grid_index_injective(w: int, x1: int, y1: int, x2: int, y2: int)
    requires
        0 <= x1 < w,
        0 <= x2 < w,
    ensures
        (y1 * w + x1 == y2 * w + x2) <==> (x1 == x2 && y1 == y2),
{
    assert((y1 * w + x1 == y2 * w + x2) <==> (x1 == x2 && y1 == y2)) by (nonlinear_arith)
        requires
            0 <= x1 < w,
            0 <= x2 < w,
    ;
}

/// Spells out the neighbor count of `(x, y)` over the four wrapped
/// coordinates around it.
pub proof fn lemma_neighbor_count_parts(g: GameOfLife, x: int, y: int, xm: int, xp: int, ym: int, yp: int)
    requires
        xm == wrap1(x - 1, g.width()),
        xp == wrap1(x + 1, g.width()),
        ym == wrap1(y - 1, g.height()),
        yp == wrap1(y + 1, g.height()),
    ensures
        g.neighbor_count(x, y) == live_as_int(g.cell(xm, ym)) + live_as_int(g.cell(x, ym))
            + live_as_int(g.cell(xp, ym)) + live_as_int(g.cell(xm, y)) + live_as_int(g.cell(xp, y))
            + live_as_int(g.cell(xm, yp)) + live_as_int(g.cell(x, yp)) + live_as_int(
            g.cell(xp, yp),
        ),
{
}

/// Two grids with the same dimensions and the same current buffer agree on
/// every cell, every neighbor count and every next state.
proof fn lemma_same_generation(a: GameOfLife, b: GameOfLife)
    requires
        a.curr@ == b.curr@,
        a.w == b.w,
        a.h == b.h,
    ensures
        forall|x: int, y: int| #[trigger] a.cell(x, y) == b.cell(x, y),
        forall|x: int, y: int| #[trigger] a.neighbor_count(x, y) == b.neighbor_count(x, y),
        forall|x: int, y: int| #[trigger] a.next_cell(x, y) == b.next_cell(x, y),
{
    assert forall|x: int, y: int| #[trigger] a.cell(x, y) == b.cell(x, y) by {
        reveal(GameOfLife::cell);
    }
    assert forall|x: int, y: int| #[trigger] a.neighbor_count(x, y) == b.neighbor_count(x, y) by {
        assert(a.cell(x, y) == b.cell(x, y));
    }
}

/// Decrements `v` by one step around a ring of size `m`.
fn ring_down(v: usize, m: usize) -> (r: usize)
    requires
        v < m,
    ensures
        r as int == wrap1(v as int - 1, m as int),
        r < m,
{
    proof {
        reveal(wrap1);
    }
    if v == 0 {
        m - 1
    } else {
        v - 1
    }
}

/// Increments `v` by one step around a ring of size `m`.
fn ring_up(v: usize, m: usize) -> (r: usize)
    requires
        v < m,
    ensures
        r as int == wrap1(v as int + 1, m as int),
        r < m,
{
    proof {
        reveal(wrap1);
    }
    if v + 1 == m {
        0
    } else {
        v + 1
    }
}

/// Whether `(x, y)` is one of the cells set alive by seeding the offset list
/// `rel` at origin `(ox, oy)` on a `w`-by-`h` torus: offsets are added to the
/// origin and wrapped by the grid dimensions.
pub open spec fn seeded(
    rel: Seq<(usize, usize)>,
    ox: int,
    oy: int,
    w: int,
    h: int,
    x: int,
    y: int,
) -> bool {
    exists|k: int|
        0 <= k < rel.len() && x == (ox + rel[k].0 as int) % w && y == (oy + rel[k].1 as int) % h
}

/// The row of the character at position `i` of an ASCII-art pattern: the
/// number of newline characters before it.
pub open spec fn line_of(s: Seq<char>, i: int) -> int
    decreases i,
{
    if i <= 0 {
        0
    } else {
        line_of(s, i - 1) + (if s[i - 1] == '\n' {
            1int
        } else {
            0int
        })
    }
}

/// The column of the character at position `i` of an ASCII-art pattern: its
/// distance from the start of its row.
pub open spec fn col_of(s: Seq<char>, i: int) -> int
    decreases i,
{
    if i <= 0 {
        0
    } else if s[i - 1] == '\n' {
        0
    } else {
        col_of(s, i - 1) + 1
    }
}

/// Whether `(x, y)` is one of the cells seeded by the first `n` characters
/// of the ASCII-art pattern `s` placed at origin `(ox, oy)`: every marker
/// character equal to `alive` seeds the cell at its (column, row) offset from
/// the origin, wrapped by the grid dimensions.
pub open spec fn ascii_seeded_upto(
    s: Seq<char>,
    n: int,
    alive: char,
    ox: int,
    oy: int,
    w: int,
    h: int,
    x: int,
    y: int,
) -> bool {
    exists|i: int|
        0 <= i < n && i < s.len() && s[i] == alive && s[i] != '\n' && x == (ox + col_of(s, i)) % w
            && y == (oy + line_of(s, i)) % h
}

/// Whether `(x, y)` is one of the cells seeded by the whole ASCII-art
/// pattern `s` placed at origin `(ox, oy)`.
pub open spec fn ascii_seeded(
    s: Seq<char>,
    alive: char,
    ox: int,
    oy: int,
    w: int,
    h: int,
    x: int,
    y: int,
) -> bool {
    ascii_seeded_upto(s, s.len() as int, alive, ox, oy, w, h, x, y)
}

/// Adds `a` and `b` modulo `m` without overflowing.
fn add_mod(a: usize, b: usize, m: usize) -> (r: usize)
    requires
        1 <= m,
    ensures
        r as int == (a as int + b as int) % (m as int),
        r < m,
{
    let ra = a % m;
    let rb = b % m;
    proof {
        vstd::arithmetic::div_mod::lemma_add_mod_noop(a as int, b as int, m as int);
        if ra < m - rb {
            vstd::arithmetic::div_mod::lemma_small_mod((ra + rb) as nat, m as nat);
        } else {
            vstd::arithmetic::div_mod::lemma_mod_sub_multiples_vanish((ra + rb) as int, m as int);
            vstd::arithmetic::div_mod::lemma_small_mod((ra + rb - m) as nat, m as nat);
        }
    }
    if ra < m - rb {
        ra + rb
    } else {
        ra - (m - rb)
    }
}

/// A fresh all-zero byte buffer of the requested length.
fn zero_buffer(n: usize) -> (r: Vec<u8>)
    ensures
        r@.len() == n,
        forall|i: int| 0 <= i < n ==> r@[i] == 0,
{
    let mut v: Vec<u8> = Vec::new();
    while v.len() < n
        invariant
            v@.len() <= n,
            forall|i: int| 0 <= i < v@.len() ==> v@[i] == 0,
        decreases n - v@.len(),
    {
        v.push(0);
    }
    v
}

/// Overwrites every byte of the buffer with zero, keeping its length.
fn fill_zero(v: &mut Vec<u8>)
    ensures
        final(v)@.len() == old(v)@.len(),
        forall|i: int| 0 <= i < final(v)@.len() ==> final(v)@[i] == 0,
{
    let n = v.len();
    let mut i: usize = 0;
    while i < n
        invariant
            i <= n,
            v@.len() == n,
            forall|j: int| 0 <= j < i ==> v@[j] == 0,
        decreases n - i,
    {
        v[i] = 0;
        i += 1;
    }
}

/// Relies on rand's `thread_rng` and `Rng::gen_ratio`: draws one Bernoulli
/// sample that is true with probability `num / den`. Its source returns a
/// constant for the two degenerate ratios: never true for 0, always true
/// for 1; nothing else is promised of a random draw.
#[verifier::external_body]
fn coin(num: u32, den: u32) -> (r: bool)
    requires
        0 < den,
        num <= den,
    ensures
        num == 0 ==> !r,
        num == den ==> r,
{
    rand::Rng::gen_ratio(&mut rand::thread_rng(), num, den)
}

impl GameOfLife {
    /// Creates a grid of the given size with every cell dead, unpaused, with
    /// no pending single step and the default inter-generation delay.
    /// Rejects a width or height of zero, and a cell count that does not fit
    /// in `usize`, with `GridError::InvalidConfiguration`.
    pub fn new(w: usize, h: usize) -> (r: Result<GameOfLife, GridError>)
        ensures
            r is Ok <==> (1 <= w && 1 <= h && w * h <= usize::MAX),
            r is Err ==> r == Result::<GameOfLife, GridError>::Err(GridError::InvalidConfiguration),
            r is Ok ==> ({
                let g = r->Ok_0;
                &&& g.wf()
                &&& g.width() == w
                &&& g.height() == h
                &&& !g.is_paused()
                &&& !g.wants_step_once()
                &&& g.delay() == 100
                &&& forall|x: int, y: int| g.in_bounds(x, y) ==> !g.cell(x, y)
            }),
    {
        if w == 0 || h == 0 {
            return Err(GridError::InvalidConfiguration);
        }
        let n = match w.checked_mul(h) {
            Some(n) => n,
            None => {
                return Err(GridError::InvalidConfiguration);
            },
        };
        let g = GameOfLife {
            w,
            h,
            curr: zero_buffer(n),
            next: zero_buffer(n),
            paused: false,
            step_once: false,
            delay_ms: 100,
        };
        proof {
            assert forall|x: int, y: int| g.in_bounds(x, y) implies !g.cell(x, y) by {
                reveal(GameOfLife::cell);
                lemma_grid_index(w as int, h as int, x, y);
            }
        }
        Ok(g)
    }

    /// Row-major index of the in-bounds coordinate `(x, y)`.
    pub fn idx(&self, x: usize, y: usize) -> (i: usize)
        requires
            self.wf(),
            self.in_bounds(x as int, y as int),
        ensures
            i == y * self.width() + x,
            i < self.width() * self.height(),
    {
        proof {
            lemma_grid_index(self.width(), self.height(), x as int, y as int);
        }
        y * self.w + x
    }

    /// The byte of the current buffer at in-bounds `(x, y)`.
    fn cell_u8(&self, x: usize, y: usize) -> (c: u8)
        requires
            self.wf(),
            self.in_bounds(x as int, y as int),
        ensures
            c == (if self.cell(x as int, y as int) {
                1u8
            } else {
                0u8
            }),
    {
        proof {
            reveal(GameOfLife::cell);
        }
        let i = self.idx(x, y);
        self.curr[i]
    }

    /// Reports whether the cell at `(x, y)` is alive; coordinates outside the
    /// grid read as dead rather than failing.
    pub fn is_alive(&self, x: usize, y: usize) -> (r: bool)
        requires
            self.wf(),
        ensures
            r == (self.in_bounds(x as int, y as int) && self.cell(x as int, y as int)),
    {
        if x < self.w && y < self.h {
            self.cell_u8(x, y) == 1
        } else {
            false
        }
    }

    /// Writes `value` into the current buffer at `(x, y)`; coordinates
    /// outside the grid are silently ignored.
    fn put_cell(&mut self, x: usize, y: usize, value: u8)
        requires
            old(self).wf(),
            value == 0 || value == 1,
        ensures
            final(self).wf(),
            same_dims(*old(self), *final(self)),
            same_controls(*old(self), *final(self)),
            forall|a: int, b: int|
                old(self).in_bounds(a, b) ==> final(self).cell(a, b) == (if a == x as int && b
                    == y as int {
                    value == 1
                } else {
                    old(self).cell(a, b)
                }),
    {
        if x < self.w && y < self.h {
            let i = self.idx(x, y);
            self.curr[i] = value;
            proof {
                assert forall|a: int, b: int| old(self).in_bounds(a, b) implies final(self).cell(
                    a,
                    b,
                ) == (if a == x as int && b == y as int {
                    value == 1
                } else {
                    old(self).cell(a, b)
                }) by {
                    reveal(GameOfLife::cell);
                    lemma_grid_index(self.width(), self.height(), a, b);
                    lemma_grid_index_injective(self.width(), a, b, x as int, y as int);
                }
            }
        }
    }

    /// Sets the cell at `(x, y)` alive; out-of-bounds coordinates are
    /// silently ignored.
    pub fn set_alive(&mut self, x: usize, y: usize)
        requires
            old(self).wf(),
        ensures
            final(self).wf(),
            same_dims(*old(self), *final(self)),
            same_controls(*old(self), *final(self)),
            forall|a: int, b: int|
                old(self).in_bounds(a, b) ==> final(self).cell(a, b) == (old(self).cell(a, b) || (a
                    == x as int && b == y as int)),
    {
        self.put_cell(x, y, 1);
    }

    /// Sets the cell at `(x, y)` dead; out-of-bounds coordinates are
    /// silently ignored.
    pub fn set_dead(&mut self, x: usize, y: usize)
        requires
            old(self).wf(),
        ensures
            final(self).wf(),
            same_dims(*old(self), *final(self)),
            same_controls(*old(self), *final(self)),
            forall|a: int, b: int|
                old(self).in_bounds(a, b) ==> final(self).cell(a, b) == (old(self).cell(a, b) && !(
                a == x as int && b == y as int)),
    {
        self.put_cell(x, y, 0);
    }

    /// Sets every cell of both buffers to dead. Idempotent: a second call
    /// leaves an already-cleared grid unchanged.
    pub fn clear(&mut self)
        requires
            old(self).wf(),
        ensures
            final(self).wf(),
            same_dims(*old(self), *final(self)),
            same_controls(*old(self), *final(self)),
            forall|a: int, b: int| old(self).in_bounds(a, b) ==> !final(self).cell(a, b),
    {
        fill_zero(&mut self.curr);
        fill_zero(&mut self.next);
        proof {
            assert forall|a: int, b: int| old(self).in_bounds(a, b) implies !final(self).cell(
                a,
                b,
            ) by {
                reveal(GameOfLife::cell);
                lemma_grid_index(self.width(), self.height(), a, b);
            }
        }
    }

    /// Counts the live cells among the 8 toroidal neighbors of the in-bounds
    /// cell `(x, y)`.
    pub fn live_neighbors(&self, x: usize, y: usize) -> (n: u8)
        requires
            self.wf(),
            self.in_bounds(x as int, y as int),
        ensures
            n as int == self.neighbor_count(x as int, y as int),
            n <= 8,
    {
        let xm = ring_down(x, self.w);
        let xp = ring_up(x, self.w);
        let ym = ring_down(y, self.h);
        let yp = ring_up(y, self.h);
        let c1 = self.cell_u8(xm, ym);
        let c2 = self.cell_u8(x, ym);
        let c3 = self.cell_u8(xp, ym);
        let c4 = self.cell_u8(xm, y);
        let c5 = self.cell_u8(xp, y);
        let c6 = self.cell_u8(xm, yp);
        let c7 = self.cell_u8(x, yp);
        let c8 = self.cell_u8(xp, yp);
        let n = c1 + c2 + c3 + c4 + c5 + c6 + c7 + c8;
        proof {
            lemma_neighbor_count_parts(
                *self,
                x as int,
                y as int,
                xm as int,
                xp as int,
                ym as int,
                yp as int,
            );
        }
        n
    }

    /// Advances the whole grid by one generation: every cell's next state is
    /// computed from a frozen snapshot of the current generation (written to
    /// the scratch buffer), and then the two buffers swap roles. A pure
    /// function of the current grid state.
    pub fn step(&mut self)
        requires
            old(self).wf(),
        ensures
            final(self).wf(),
            same_controls(*old(self), *final(self)),
            step_of(*old(self), *final(self)),
    {
        let w = self.w;
        let h = self.h;
        let mut y: usize = 0;
        while y < h
            invariant
                self.wf(),
                w == self.w,
                h == self.h,
                y <= h,
                self.curr == old(self).curr,
                self.w == old(self).w,
                self.h == old(self).h,
                same_controls(*old(self), *self),
                forall|a: int, b: int|
                    0 <= a < w && 0 <= b < y ==> self.next@[b * w + a] == (if old(self).next_cell(
                        a,
                        b,
                    ) {
                        1u8
                    } else {
                        0u8
                    }),
            decreases h - y,
        {
            let mut x: usize = 0;
            while x < w
                invariant
                    self.wf(),
                    w == self.w,
                    h == self.h,
                    x <= w,
                    y < h,
                    self.curr == old(self).curr,
                    self.w == old(self).w,
                    self.h == old(self).h,
                    same_controls(*old(self), *self),
                    forall|a: int, b: int|
                        0 <= a < w && 0 <= b < y ==> self.next@[b * w + a] == (if old(
                            self,
                        ).next_cell(a, b) {
                            1u8
                        } else {
                            0u8
                        }),
                    forall|a: int|
                        0 <= a < x ==> self.next@[y * w + a] == (if old(self).next_cell(
                            a,
                            y as int,
                        ) {
                            1u8
                        } else {
                            0u8
                        }),
                decreases w - x,
            {
                let alive = self.cell_u8(x, y) == 1;
                let n = self.live_neighbors(x, y);
                proof {
                    lemma_same_generation(*self, *old(self));
                    assert(alive == old(self).cell(x as int, y as int));
                    assert(n as int == old(self).neighbor_count(x as int, y as int));
                }
                let ns: u8 = if alive {
                    if n < 2 {
                        0  // underpopulation
                    } else if n <= 3 {
                        1  // survival
                    } else {
                        0  // overpopulation
                    }
                } else if n == 3 {
                    1  // reproduction
                } else {
                    0
                };
                let i = self.idx(x, y);
                self.next[i] = ns;
                proof {
                    assert forall|a: int, b: int| 0 <= a < w && 0 <= b < y implies self.next@[b * w
                        + a] == (if old(self).next_cell(a, b) {
                        1u8
                    } else {
                        0u8
                    }) by {
                        lemma_grid_index(w as int, h as int, a, b);
                        lemma_grid_index_injective(w as int, a, b, x as int, y as int);
                    }
                    assert forall|a: int| 0 <= a <= x implies self.next@[y * w + a] == (if old(
                        self,
                    ).next_cell(a, y as int) {
                        1u8
                    } else {
                        0u8
                    }) by {
                        lemma_grid_index(w as int, h as int, a, y as int);
                        lemma_grid_index_injective(w as int, a, y as int, x as int, y as int);
                    }
                }
                x += 1;
            }
            y += 1;
        }
        core::mem::swap(&mut self.curr, &mut self.next);
        proof {
            assert forall|a: int, b: int| old(self).in_bounds(a, b) implies final(self).cell(a, b)
                == old(self).next_cell(a, b) by {
                reveal(GameOfLife::cell);
                lemma_grid_index(w as int, h as int, a, b);
            }
        }
    }

    /// Independently re-draws every cell: alive with probability
    /// `num / den`, dead otherwise, from a uniform random source. Two calls
    /// may produce different grids; a ratio of 0 leaves every cell dead and a
    /// ratio of 1 leaves every cell alive. The probability is a rational in
    /// `[0, 1]`; callers expressing it as a float pick a numerator and
    /// denominator for it.
    pub fn randomize(&mut self, num: u32, den: u32)
        requires
            old(self).wf(),
            0 < den,
            num <= den,
        ensures
            final(self).wf(),
            same_dims(*old(self), *final(self)),
            same_controls(*old(self), *final(self)),
            num == 0 ==> forall|a: int, b: int|
                old(self).in_bounds(a, b) ==> !final(self).cell(a, b),
            num == den ==> forall|a: int, b: int|
                old(self).in_bounds(a, b) ==> final(self).cell(a, b),
    {
        let n = self.curr.len();
        let mut i: usize = 0;
        while i < n
            invariant
                self.wf(),
                i <= n,
                self.curr@.len() == n,
                self.w == old(self).w,
                self.h == old(self).h,
                self.next@.len() == old(self).next@.len(),
                same_controls(*old(self), *self),
                0 < den,
                num <= den,
                num == 0 ==> forall|j: int| 0 <= j < i ==> self.curr@[j] == 0,
                num == den ==> forall|j: int| 0 <= j < i ==> self.curr@[j] == 1,
            decreases n - i,
        {
            let c: u8 = if coin(num, den) {
                1
            } else {
                0
            };
            self.curr[i] = c;
            i += 1;
        }
        proof {
            if num == 0 {
                assert forall|a: int, b: int| old(self).in_bounds(a, b) implies !final(self).cell(
                    a,
                    b,
                ) by {
                    reveal(GameOfLife::cell);
                    lemma_grid_index(self.width(), self.height(), a, b);
                }
            }
            if num == den {
                assert forall|a: int, b: int| old(self).in_bounds(a, b) implies final(self).cell(
                    a,
                    b,
                ) by {
                    reveal(GameOfLife::cell);
                    lemma_grid_index(self.width(), self.height(), a, b);
                }
            }
        }
    }

    /// Sets the cell at offset `(dx, dy)` from origin `(ox, oy)` alive, with
    /// both coordinates wrapped by the grid dimensions.
    fn seed_at(&mut self, ox: usize, oy: usize, dx: usize, dy: usize)
        requires
            old(self).wf(),
        ensures
            final(self).wf(),
            same_dims(*old(self), *final(self)),
            same_controls(*old(self), *final(self)),
            forall|a: int, b: int|
                old(self).in_bounds(a, b) ==> final(self).cell(a, b) == (old(self).cell(a, b) || (a
                    == (ox as int + dx as int) % old(self).width() && b == (oy as int + dy as int)
                    % old(self).height())),
    {
        let x = add_mod(ox, dx, self.w);
        let y = add_mod(oy, dy, self.h);
        self.put_cell(x, y, 1);
    }

    /// Seeds a pattern given as relative offsets: every `(dx, dy)` in `rel`
    /// sets the cell at `((ox + dx) mod width, (oy + dy) mod height)` alive.
    /// Seeding is additive: no cell is ever cleared, and offsets that alias
    /// after wrapping simply seed the same cell twice.
    pub fn spawn(&mut self, rel: &[(usize, usize)], ox: usize, oy: usize)
        requires
            old(self).wf(),
        ensures
            final(self).wf(),
            same_dims(*old(self), *final(self)),
            same_controls(*old(self), *final(self)),
            forall|a: int, b: int|
                old(self).in_bounds(a, b) ==> final(self).cell(a, b) == (old(self).cell(a, b)
                    || seeded(
                    rel@,
                    ox as int,
                    oy as int,
                    old(self).width(),
                    old(self).height(),
                    a,
                    b,
                )),
    {
        let ghost w = old(self).width();
        let ghost h = old(self).height();
        let n = rel.len();
        let mut k: usize = 0;
        while k < n
            invariant
                self.wf(),
                k <= n,
                n == rel@.len(),
                w == old(self).width(),
                h == old(self).height(),
                self.width() == w,
                self.height() == h,
                same_controls(*old(self), *self),
                forall|a: int, b: int|
                    old(self).in_bounds(a, b) ==> self.cell(a, b) == (old(self).cell(a, b)
                        || seeded(rel@.take(k as int), ox as int, oy as int, w, h, a, b)),
            decreases n - k,
        {
            let (dx, dy) = rel[k];
            let ghost pre = *self;
            self.seed_at(ox, oy, dx, dy);
            proof {
                assert forall|a: int, b: int| old(self).in_bounds(a, b) implies self.cell(a, b) == (
                old(self).cell(a, b) || seeded(
                    rel@.take(k as int + 1),
                    ox as int,
                    oy as int,
                    w,
                    h,
                    a,
                    b,
                )) by {
                    let prev = rel@.take(k as int);
                    let cur = rel@.take(k as int + 1);
                    assert(pre.cell(a, b) == (old(self).cell(a, b) || seeded(
                        prev,
                        ox as int,
                        oy as int,
                        w,
                        h,
                        a,
                        b,
                    )));
                    assert(pre.in_bounds(a, b));
                    assert(self.cell(a, b) == (pre.cell(a, b) || (a == (ox as int + dx as int) % w
                        && b == (oy as int + dy as int) % h)));
                    if seeded(prev, ox as int, oy as int, w, h, a, b) {
                        let i = choose|i: int|
                            0 <= i < prev.len() && a == (ox as int + prev[i].0 as int) % w && b == (
                            oy as int + prev[i].1 as int) % h;
                        assert(cur[i] == prev[i]);
                        assert(seeded(cur, ox as int, oy as int, w, h, a, b));
                    }
                    if a == (ox as int + dx as int) % w && b == (oy as int + dy as int) % h {
                        assert(cur[k as int] == (dx, dy));
                        assert(seeded(cur, ox as int, oy as int, w, h, a, b));
                    }
                    if seeded(cur, ox as int, oy as int, w, h, a, b) {
                        let i = choose|i: int|
                            0 <= i < cur.len() && a == (ox as int + cur[i].0 as int) % w && b == (oy
                                as int + cur[i].1 as int) % h;
                        if i < k as int {
                            assert(prev[i] == cur[i]);
                            assert(seeded(prev, ox as int, oy as int, w, h, a, b));
                        } else {
                            assert(cur[i] == (dx, dy));
                        }
                    }
                }
            }
            k += 1;
        }
        proof {
            assert(rel@.take(n as int) =~= rel@);
        }
    }

    /// Seeds a pattern given as ASCII art: each line of `pattern` (lines are
    /// separated by `'\n'`) is a row, and every character equal to `alive`
    /// seeds the cell at its (column, row) offset from `(ox, oy)`, wrapped by
    /// the grid dimensions. Other characters, and rows shorter than the
    /// widest, contribute nothing.
    pub fn spawn_pattern_ascii(&mut self, ox: usize, oy: usize, pattern: &str, alive: char)
        requires
            old(self).wf(),
        ensures
            final(self).wf(),
            same_dims(*old(self), *final(self)),
            same_controls(*old(self), *final(self)),
            forall|a: int, b: int|
                old(self).in_bounds(a, b) ==> final(self).cell(a, b) == (old(self).cell(a, b)
                    || ascii_seeded(
                    pattern@,
                    alive,
                    ox as int,
                    oy as int,
                    old(self).width(),
                    old(self).height(),
                    a,
                    b,
                )),
    {
        let ghost w = old(self).width();
        let ghost h = old(self).height();
        let ghost s = pattern@;
        let len = pattern.unicode_len();
        let mut i: usize = 0;
        let mut dx: usize = 0;
        let mut dy: usize = 0;
        while i < len
            invariant
                self.wf(),
                i <= len,
                len == s.len(),
                s == pattern@,
                w == old(self).width(),
                h == old(self).height(),
                self.width() == w,
                self.height() == h,
                same_controls(*old(self), *self),
                dx <= i,
                dy <= i,
                dx as int == col_of(s, i as int),
                dy as int == line_of(s, i as int),
                forall|a: int, b: int|
                    old(self).in_bounds(a, b) ==> self.cell(a, b) == (old(self).cell(a, b)
                        || ascii_seeded_upto(
                        s,
                        i as int,
                        alive,
                        ox as int,
                        oy as int,
                        w,
                        h,
                        a,
                        b,
                    )),
            decreases len - i,
        {
            let c = pattern.get_char(i);
            proof {
                assert(col_of(s, i as int + 1) == (if s[i as int] == '\n' {
                    0int
                } else {
                    col_of(s, i as int) + 1
                }));
                assert(line_of(s, i as int + 1) == line_of(s, i as int) + (if s[i as int] == '\n' {
                    1int
                } else {
                    0int
                }));
            }
            let ghost pre = *self;
            let ghost dcol = col_of(s, i as int);
            let ghost drow = line_of(s, i as int);
            if c == '\n' {
                dy += 1;
                dx = 0;
            } else {
                if c == alive {
                    self.seed_at(ox, oy, dx, dy);
                }
                dx += 1;
            }
            proof {
                assert forall|a: int, b: int| old(self).in_bounds(a, b) implies self.cell(a, b) == (
                old(self).cell(a, b) || ascii_seeded_upto(
                    s,
                    i as int + 1,
                    alive,
                    ox as int,
                    oy as int,
                    w,
                    h,
                    a,
                    b,
                )) by {
                    assert(pre.cell(a, b) == (old(self).cell(a, b) || ascii_seeded_upto(
                        s,
                        i as int,
                        alive,
                        ox as int,
                        oy as int,
                        w,
                        h,
                        a,
                        b,
                    )));
                    if s[i as int] == alive && s[i as int] != '\n' {
                        assert(pre.in_bounds(a, b));
                        assert(self.cell(a, b) == (pre.cell(a, b) || (a == (ox as int + dcol) % w
                            && b == (oy as int + drow) % h)));
                    } else {
                        assert(*self == pre);
                    }
                    if ascii_seeded_upto(s, i as int, alive, ox as int, oy as int, w, h, a, b) {
                        assert(ascii_seeded_upto(
                            s,
                            i as int + 1,
                            alive,
                            ox as int,
                            oy as int,
                            w,
                            h,
                            a,
                            b,
                        ));
                    }
                    if ascii_seeded_upto(s, i as int + 1, alive, ox as int, oy as int, w, h, a, b) {
                        let j = choose|j: int|
                            0 <= j < i as int + 1 && j < s.len() && s[j] == alive && s[j] != '\n'
                                && a == (ox as int + col_of(s, j)) % w && b == (oy as int + line_of(
                                s,
                                j,
                            )) % h;
                        if j == i as int {
                            assert(s[i as int] == alive && s[i as int] != '\n');
                        }
                    }
                }
            }
            i += 1;
        }
    }

    /// Read-only view of the current generation in row-major order, one byte
    /// per cell: 1 for alive, 0 for dead. Sufficient for a renderer to map
    /// the whole grid in one pass.
    pub fn cells(&self) -> (r: &Vec<u8>)
        requires
            self.wf(),
        ensures
            r@.len() == self.width() * self.height(),
            forall|x: int, y: int|
                self.in_bounds(x, y) ==> r@[y * self.width() + x] == (if self.cell(x, y) {
                    1u8
                } else {
                    0u8
                }),
    {
        proof {
            assert forall|x: int, y: int| self.in_bounds(x, y) implies self.curr@[y * self.width()
                + x] == (if self.cell(x, y) {
                1u8
            } else {
                0u8
            }) by {
                reveal(GameOfLife::cell);
                lemma_grid_index(self.width(), self.height(), x, y);
            }
        }
        &self.curr
    }

    /// Draws the current generation into the pixel buffer: every grid cell
    /// that is also a pixel of the buffer becomes `ALIVE` or `DEAD` by its
    /// state; pixels outside the grid keep their colors.
    pub fn render_to(&self, fb: &mut crate::framebuffer::Framebuffer)
        requires
            self.wf(),
            old(fb).wf(),
        ensures
            final(fb).wf(),
            final(fb).width() == old(fb).width(),
            final(fb).height() == old(fb).height(),
            forall|a: int, b: int|
                old(fb).in_bounds(a, b) ==> final(fb).pixel(a, b) == (if self.in_bounds(a, b) {
                    if self.cell(a, b) {
                        crate::framebuffer::ALIVE
                    } else {
                        crate::framebuffer::DEAD
                    }
                } else {
                    old(fb).pixel(a, b)
                }),
    {
        let w = self.w;
        let h = self.h;
        let mut y: usize = 0;
        while y < h
            invariant
                self.wf(),
                w == self.w,
                h == self.h,
                y <= h,
                fb.wf(),
                fb.width() == old(fb).width(),
                fb.height() == old(fb).height(),
                forall|a: int, b: int|
                    old(fb).in_bounds(a, b) ==> fb.pixel(a, b) == (if self.in_bounds(a, b) && b < y {
                        if self.cell(a, b) {
                            crate::framebuffer::ALIVE
                        } else {
                            crate::framebuffer::DEAD
                        }
                    } else {
                        old(fb).pixel(a, b)
                    }),
            decreases h - y,
        {
            let mut x: usize = 0;
            while x < w
                invariant
                    self.wf(),
                    w == self.w,
                    h == self.h,
                    y < h,
                    x <= w,
                    fb.wf(),
                    fb.width() == old(fb).width(),
                    fb.height() == old(fb).height(),
                    forall|a: int, b: int|
                        old(fb).in_bounds(a, b) ==> fb.pixel(a, b) == (if self.in_bounds(a, b) && (b
                            < y || (b == y && a < x)) {
                            if self.cell(a, b) {
                                crate::framebuffer::ALIVE
                            } else {
                                crate::framebuffer::DEAD
                            }
                        } else {
                            old(fb).pixel(a, b)
                        }),
                decreases w - x,
            {
                let color = if self.is_alive(x, y) {
                    crate::framebuffer::ALIVE
                } else {
                    crate::framebuffer::DEAD
                };
                fb.point(x, y, color);
                x += 1;
            }
            y += 1;
        }
    }

    /// The grid's width and height, in cells.
    pub fn dims(&self) -> (r: (usize, usize))
        ensures
            r.0 == self.width(),
            r.1 == self.height(),
    {
        (self.w, self.h)
    }
}

} // verus!
