//! The catalog of classic Game of Life patterns, each seeded through the
//! grid's additive `spawn` operations.

use vstd::prelude::*;
use crate::life::ascii_seeded;
use crate::life::seeded;
use crate::life::same_controls;
use crate::life::same_dims;
use crate::life::GameOfLife;

verus! {

/// The relative cell offsets of the block, a still life: a 2-by-2 square, unchanged from one generation to the next.
pub open spec fn block_offsets() -> Seq<(usize, usize)> {
    seq![(0usize, 0usize), (1, 0), (0, 1), (1, 1)]
}

/// The relative cell offsets of the beehive, a still life: six cells around a hollow center.
pub open spec fn beehive_offsets() -> Seq<(usize, usize)> {
    seq![(1usize, 0usize), (2, 0), (0, 1), (3, 1), (1, 2), (2, 2)]
}

/// The relative cell offsets of the loaf, a still life: seven cells in a loaf shape.
pub open spec fn loaf_offsets() -> Seq<(usize, usize)> {
    seq![(1usize, 0usize), (2, 0), (0, 1), (3, 1), (1, 2), (3, 2), (2, 3)]
}

/// The relative cell offsets of the boat, a still life: five cells in a boat shape.
pub open spec fn boat_offsets() -> Seq<(usize, usize)> {
    seq![(0usize, 0usize), (1, 0), (0, 1), (2, 1), (1, 2)]
}

/// The relative cell offsets of the tub, a still life: four cells around a hollow center.
pub open spec fn tub_offsets() -> Seq<(usize, usize)> {
    seq![(1usize, 0usize), (0, 1), (2, 1), (1, 2)]
}

/// The relative cell offsets of the blinker, an oscillator of period 2: three cells in a row.
pub open spec fn blinker_offsets() -> Seq<(usize, usize)> {
    seq![(0usize, 0usize), (1, 0), (2, 0)]
}

/// The relative cell offsets of the toad, an oscillator of period 2: two offset rows of three.
pub open spec fn toad_offsets() -> Seq<(usize, usize)> {
    seq![(1usize, 0usize), (2, 0), (3, 0), (0, 1), (1, 1), (2, 1)]
}

/// The relative cell offsets of the beacon, an oscillator of period 2: two diagonal blocks.
pub open spec fn beacon_offsets() -> Seq<(usize, usize)> {
    seq![(0usize, 0usize), (1, 0), (0, 1), (1, 1), (2, 2), (3, 2), (2, 3), (3, 3)]
}

/// The relative cell offsets of the pulsar, an oscillator of period 3: a large fourfold-symmetric ring arrangement.
pub open spec fn pulsar_offsets() -> Seq<(usize, usize)> {
    seq![(2usize, 0usize), (3, 0), (4, 0), (8, 0), (9, 0), (10, 0), (0, 2), (5, 2), (7, 2), (12, 2), (0, 3), (5, 3), (7, 3), (12, 3), (0, 4), (5, 4), (7, 4), (12, 4), (2, 5), (3, 5), (4, 5), (8, 5), (9, 5), (10, 5), (2, 7), (3, 7), (4, 7), (8, 7), (9, 7), (10, 7), (0, 8), (5, 8), (7, 8), (12, 8), (0, 9), (5, 9), (7, 9), (12, 9), (0, 10), (5, 10), (7, 10), (12, 10), (2, 12), (3, 12), (4, 12), (8, 12), (9, 12), (10, 12)]
}

/// The relative cell offsets of the pentadecathlon drawing: a long
/// arrangement of paired cells that settles into the period-15 oscillator.
pub open spec fn pentadecathlon_offsets() -> Seq<(usize, usize)> {
    seq![(1usize, 0usize), (2, 0), (1, 1), (2, 1), (1, 3), (2, 3), (1, 4), (2, 4), (1, 5), (2, 5), (1, 6), (2, 6), (1, 8), (2, 8), (1, 9), (2, 9)]
}

/// The relative cell offsets of the glider, a spaceship: five cells that travel one cell diagonally every four generations.
pub open spec fn glider_offsets() -> Seq<(usize, usize)> {
    seq![(1usize, 0usize), (2, 1), (0, 2), (1, 2), (2, 2)]
}

/// The relative cell offsets of the lwss, a lightweight spaceship: nine cells that travel horizontally.
pub open spec fn lwss_offsets() -> Seq<(usize, usize)> {
    seq![(1usize, 0usize), (4, 0), (0, 1), (0, 2), (4, 2), (0, 3), (1, 3), (2, 3), (3, 3)]
}

impl GameOfLife {

    /// Seeds the block (still life) with its top-left offset at
    /// `(x, y)`, wrapped by the grid dimensions; existing live cells stay.
    pub fn spawn_block(&mut self, x: usize, y: usize)
        requires
            old(self).wf(),
        ensures
            final(self).wf(),
            same_dims(*old(self), *final(self)),
            same_controls(*old(self), *final(self)),
            forall|a: int, b: int|
                old(self).in_bounds(a, b) ==> final(self).cell(a, b) == (old(self).cell(a, b)
                    || seeded(
                    block_offsets(),
                    x as int,
                    y as int,
                    old(self).width(),
                    old(self).height(),
                    a,
                    b,
                )),
    {
        let mut v: Vec<(usize, usize)> = Vec::new();
        v.push((0, 0));
        v.push((1, 0));
        v.push((0, 1));
        v.push((1, 1));
        proof {
            assert(v@ =~= block_offsets());
        }
        self.spawn(v.as_slice(), x, y);
    }

    /// Seeds the beehive (still life) with its top-left offset at
    /// `(x, y)`, wrapped by the grid dimensions; existing live cells stay.
    pub fn spawn_beehive(&mut self, x: usize, y: usize)
        requires
            old(self).wf(),
        ensures
            final(self).wf(),
            same_dims(*old(self), *final(self)),
            same_controls(*old(self), *final(self)),
            forall|a: int, b: int|
                old(self).in_bounds(a, b) ==> final(self).cell(a, b) == (old(self).cell(a, b)
                    || seeded(
                    beehive_offsets(),
                    x as int,
                    y as int,
                    old(self).width(),
                    old(self).height(),
                    a,
                    b,
                )),
    {
        let mut v: Vec<(usize, usize)> = Vec::new();
        v.push((1, 0));
        v.push((2, 0));
        v.push((0, 1));
        v.push((3, 1));
        v.push((1, 2));
        v.push((2, 2));
        proof {
            assert(v@ =~= beehive_offsets());
        }
        self.spawn(v.as_slice(), x, y);
    }

    /// Seeds the loaf (still life) with its top-left offset at
    /// `(x, y)`, wrapped by the grid dimensions; existing live cells stay.
    pub fn spawn_loaf(&mut self, x: usize, y: usize)
        requires
            old(self).wf(),
        ensures
            final(self).wf(),
            same_dims(*old(self), *final(self)),
            same_controls(*old(self), *final(self)),
            forall|a: int, b: int|
                old(self).in_bounds(a, b) ==> final(self).cell(a, b) == (old(self).cell(a, b)
                    || seeded(
                    loaf_offsets(),
                    x as int,
                    y as int,
                    old(self).width(),
                    old(self).height(),
                    a,
                    b,
                )),
    {
        let mut v: Vec<(usize, usize)> = Vec::new();
        v.push((1, 0));
        v.push((2, 0));
        v.push((0, 1));
        v.push((3, 1));
        v.push((1, 2));
        v.push((3, 2));
        v.push((2, 3));
        proof {
            assert(v@ =~= loaf_offsets());
        }
        self.spawn(v.as_slice(), x, y);
    }

    /// Seeds the boat (still life) with its top-left offset at
    /// `(x, y)`, wrapped by the grid dimensions; existing live cells stay.
    pub fn spawn_boat(&mut self, x: usize, y: usize)
        requires
            old(self).wf(),
        ensures
            final(self).wf(),
            same_dims(*old(self), *final(self)),
            same_controls(*old(self), *final(self)),
            forall|a: int, b: int|
                old(self).in_bounds(a, b) ==> final(self).cell(a, b) == (old(self).cell(a, b)
                    || seeded(
                    boat_offsets(),
                    x as int,
                    y as int,
                    old(self).width(),
                    old(self).height(),
                    a,
                    b,
                )),
    {
        let mut v: Vec<(usize, usize)> = Vec::new();
        v.push((0, 0));
        v.push((1, 0));
        v.push((0, 1));
        v.push((2, 1));
        v.push((1, 2));
        proof {
            assert(v@ =~= boat_offsets());
        }
        self.spawn(v.as_slice(), x, y);
    }

    /// Seeds the tub (still life) with its top-left offset at
    /// `(x, y)`, wrapped by the grid dimensions; existing live cells stay.
    pub fn spawn_tub(&mut self, x: usize, y: usize)
        requires
            old(self).wf(),
        ensures
            final(self).wf(),
            same_dims(*old(self), *final(self)),
            same_controls(*old(self), *final(self)),
            forall|a: int, b: int|
                old(self).in_bounds(a, b) ==> final(self).cell(a, b) == (old(self).cell(a, b)
                    || seeded(
                    tub_offsets(),
                    x as int,
                    y as int,
                    old(self).width(),
                    old(self).height(),
                    a,
                    b,
                )),
    {
        let mut v: Vec<(usize, usize)> = Vec::new();
        v.push((1, 0));
        v.push((0, 1));
        v.push((2, 1));
        v.push((1, 2));
        proof {
            assert(v@ =~= tub_offsets());
        }
        self.spawn(v.as_slice(), x, y);
    }

    /// Seeds the blinker (oscillator of period 2) with its top-left offset at
    /// `(x, y)`, wrapped by the grid dimensions; existing live cells stay.
    pub fn spawn_blinker(&mut self, x: usize, y: usize)
        requires
            old(self).wf(),
        ensures
            final(self).wf(),
            same_dims(*old(self), *final(self)),
            same_controls(*old(self), *final(self)),
            forall|a: int, b: int|
                old(self).in_bounds(a, b) ==> final(self).cell(a, b) == (old(self).cell(a, b)
                    || seeded(
                    blinker_offsets(),
                    x as int,
                    y as int,
                    old(self).width(),
                    old(self).height(),
                    a,
                    b,
                )),
    {
        let mut v: Vec<(usize, usize)> = Vec::new();
        v.push((0, 0));
        v.push((1, 0));
        v.push((2, 0));
        proof {
            assert(v@ =~= blinker_offsets());
        }
        self.spawn(v.as_slice(), x, y);
    }

    /// Seeds the toad (oscillator of period 2) with its top-left offset at
    /// `(x, y)`, wrapped by the grid dimensions; existing live cells stay.
    pub fn spawn_toad(&mut self, x: usize, y: usize)
        requires
            old(self).wf(),
        ensures
            final(self).wf(),
            same_dims(*old(self), *final(self)),
            same_controls(*old(self), *final(self)),
            forall|a: int, b: int|
                old(self).in_bounds(a, b) ==> final(self).cell(a, b) == (old(self).cell(a, b)
                    || seeded(
                    toad_offsets(),
                    x as int,
                    y as int,
                    old(self).width(),
                    old(self).height(),
                    a,
                    b,
                )),
    {
        let mut v: Vec<(usize, usize)> = Vec::new();
        v.push((1, 0));
        v.push((2, 0));
        v.push((3, 0));
        v.push((0, 1));
        v.push((1, 1));
        v.push((2, 1));
        proof {
            assert(v@ =~= toad_offsets());
        }
        self.spawn(v.as_slice(), x, y);
    }

    /// Seeds the beacon (oscillator of period 2) with its top-left offset at
    /// `(x, y)`, wrapped by the grid dimensions; existing live cells stay.
    pub fn spawn_beacon(&mut self, x: usize, y: usize)
        requires
            old(self).wf(),
        ensures
            final(self).wf(),
            same_dims(*old(self), *final(self)),
            same_controls(*old(self), *final(self)),
            forall|a: int, b: int|
                old(self).in_bounds(a, b) ==> final(self).cell(a, b) == (old(self).cell(a, b)
                    || seeded(
                    beacon_offsets(),
                    x as int,
                    y as int,
                    old(self).width(),
                    old(self).height(),
                    a,
                    b,
                )),
    {
        let mut v: Vec<(usize, usize)> = Vec::new();
        v.push((0, 0));
        v.push((1, 0));
        v.push((0, 1));
        v.push((1, 1));
        v.push((2, 2));
        v.push((3, 2));
        v.push((2, 3));
        v.push((3, 3));
        proof {
            assert(v@ =~= beacon_offsets());
        }
        self.spawn(v.as_slice(), x, y);
    }

    /// Seeds the pulsar (oscillator of period 3) with its top-left offset at
    /// `(x, y)`, wrapped by the grid dimensions; existing live cells stay.
    pub fn spawn_pulsar(&mut self, x: usize, y: usize)
        requires
            old(self).wf(),
        ensures
            final(self).wf(),
            same_dims(*old(self), *final(self)),
            same_controls(*old(self), *final(self)),
            forall|a: int, b: int|
                old(self).in_bounds(a, b) ==> final(self).cell(a, b) == (old(self).cell(a, b)
                    || seeded(
                    pulsar_offsets(),
                    x as int,
                    y as int,
                    old(self).width(),
                    old(self).height(),
                    a,
                    b,
                )),
    {
        let mut v: Vec<(usize, usize)> = Vec::new();
        v.push((2, 0));
        v.push((3, 0));
        v.push((4, 0));
        v.push((8, 0));
        v.push((9, 0));
        v.push((10, 0));
        v.push((0, 2));
        v.push((5, 2));
        v.push((7, 2));
        v.push((12, 2));
        v.push((0, 3));
        v.push((5, 3));
        v.push((7, 3));
        v.push((12, 3));
        v.push((0, 4));
        v.push((5, 4));
        v.push((7, 4));
        v.push((12, 4));
        v.push((2, 5));
        v.push((3, 5));
        v.push((4, 5));
        v.push((8, 5));
        v.push((9, 5));
        v.push((10, 5));
        v.push((2, 7));
        v.push((3, 7));
        v.push((4, 7));
        v.push((8, 7));
        v.push((9, 7));
        v.push((10, 7));
        v.push((0, 8));
        v.push((5, 8));
        v.push((7, 8));
        v.push((12, 8));
        v.push((0, 9));
        v.push((5, 9));
        v.push((7, 9));
        v.push((12, 9));
        v.push((0, 10));
        v.push((5, 10));
        v.push((7, 10));
        v.push((12, 10));
        v.push((2, 12));
        v.push((3, 12));
        v.push((4, 12));
        v.push((8, 12));
        v.push((9, 12));
        v.push((10, 12));
        proof {
            assert(v@ =~= pulsar_offsets());
        }
        self.spawn(v.as_slice(), x, y);
    }

    /// Seeds this catalog's pentadecathlon drawing (two columns of paired
    /// cells) with its top-left offset at `(x, y)`, wrapped by the grid
    /// dimensions; existing live cells stay.
    pub fn spawn_pentadecathlon(&mut self, x: usize, y: usize)
        requires
            old(self).wf(),
        ensures
            final(self).wf(),
            same_dims(*old(self), *final(self)),
            same_controls(*old(self), *final(self)),
            forall|a: int, b: int|
                old(self).in_bounds(a, b) ==> final(self).cell(a, b) == (old(self).cell(a, b)
                    || seeded(
                    pentadecathlon_offsets(),
                    x as int,
                    y as int,
                    old(self).width(),
                    old(self).height(),
                    a,
                    b,
                )),
    {
        let mut v: Vec<(usize, usize)> = Vec::new();
        v.push((1, 0));
        v.push((2, 0));
        v.push((1, 1));
        v.push((2, 1));
        v.push((1, 3));
        v.push((2, 3));
        v.push((1, 4));
        v.push((2, 4));
        v.push((1, 5));
        v.push((2, 5));
        v.push((1, 6));
        v.push((2, 6));
        v.push((1, 8));
        v.push((2, 8));
        v.push((1, 9));
        v.push((2, 9));
        proof {
            assert(v@ =~= pentadecathlon_offsets());
        }
        self.spawn(v.as_slice(), x, y);
    }

    /// Seeds the glider (spaceship) with its top-left offset at
    /// `(x, y)`, wrapped by the grid dimensions; existing live cells stay.
    pub fn spawn_glider(&mut self, x: usize, y: usize)
        requires
            old(self).wf(),
        ensures
            final(self).wf(),
            same_dims(*old(self), *final(self)),
            same_controls(*old(self), *final(self)),
            forall|a: int, b: int|
                old(self).in_bounds(a, b) ==> final(self).cell(a, b) == (old(self).cell(a, b)
                    || seeded(
                    glider_offsets(),
                    x as int,
                    y as int,
                    old(self).width(),
                    old(self).height(),
                    a,
                    b,
                )),
    {
        let mut v: Vec<(usize, usize)> = Vec::new();
        v.push((1, 0));
        v.push((2, 1));
        v.push((0, 2));
        v.push((1, 2));
        v.push((2, 2));
        proof {
            assert(v@ =~= glider_offsets());
        }
        self.spawn(v.as_slice(), x, y);
    }

    /// Seeds the lwss (lightweight spaceship) with its top-left offset at
    /// `(x, y)`, wrapped by the grid dimensions; existing live cells stay.
    pub fn spawn_lwss(&mut self, x: usize, y: usize)
        requires
            old(self).wf(),
        ensures
            final(self).wf(),
            same_dims(*old(self), *final(self)),
            same_controls(*old(self), *final(self)),
            forall|a: int, b: int|
                old(self).in_bounds(a, b) ==> final(self).cell(a, b) == (old(self).cell(a, b)
                    || seeded(
                    lwss_offsets(),
                    x as int,
                    y as int,
                    old(self).width(),
                    old(self).height(),
                    a,
                    b,
                )),
    {
        let mut v: Vec<(usize, usize)> = Vec::new();
        v.push((1, 0));
        v.push((4, 0));
        v.push((0, 1));
        v.push((0, 2));
        v.push((4, 2));
        v.push((0, 3));
        v.push((1, 3));
        v.push((2, 3));
        v.push((3, 3));
        proof {
            assert(v@ =~= lwss_offsets());
        }
        self.spawn(v.as_slice(), x, y);
    }

    /// Seeds this catalog's "mwss" drawing from its ASCII art, with its
    /// top-left corner at `(x, y)`, wrapped by the grid dimensions; existing
    /// live cells stay.
    pub fn spawn_mwss(&mut self, x: usize, y: usize)
        requires
            old(self).wf(),
        ensures
            final(self).wf(),
            same_dims(*old(self), *final(self)),
            same_controls(*old(self), *final(self)),
            forall|a: int, b: int|
                old(self).in_bounds(a, b) ==> final(self).cell(a, b) == (old(self).cell(a, b)
                    || ascii_seeded(
                    ("..####.\n.#....#\n#.....#\n#....#.\n.#####.")@,
                    '#',
                    x as int,
                    y as int,
                    old(self).width(),
                    old(self).height(),
                    a,
                    b,
                )),
    {
        let pat = "..####.\n.#....#\n#.....#\n#....#.\n.#####.";
        self.spawn_pattern_ascii(x, y, pat, '#');
    }

    /// Seeds this catalog's "hwss" drawing from its ASCII art, with its
    /// top-left corner at `(x, y)`, wrapped by the grid dimensions; existing
    /// live cells stay.
    pub fn spawn_hwss(&mut self, x: usize, y: usize)
        requires
            old(self).wf(),
        ensures
            final(self).wf(),
            same_dims(*old(self), *final(self)),
            same_controls(*old(self), *final(self)),
            forall|a: int, b: int|
                old(self).in_bounds(a, b) ==> final(self).cell(a, b) == (old(self).cell(a, b)
                    || ascii_seeded(
                    ("..#####.\n.#.....#\n#......#\n#.....#.\n.######.")@,
                    '#',
                    x as int,
                    y as int,
                    old(self).width(),
                    old(self).height(),
                    a,
                    b,
                )),
    {
        let pat = "..#####.\n.#.....#\n#......#\n#.....#.\n.######.";
        self.spawn_pattern_ascii(x, y, pat, '#');
    }

    /// Seeds the r pentomino (methuselah) from its ASCII art, with its
    /// top-left corner at `(x, y)`, wrapped by the grid dimensions; existing
    /// live cells stay.
    pub fn spawn_r_pentomino(&mut self, x: usize, y: usize)
        requires
            old(self).wf(),
        ensures
            final(self).wf(),
            same_dims(*old(self), *final(self)),
            same_controls(*old(self), *final(self)),
            forall|a: int, b: int|
                old(self).in_bounds(a, b) ==> final(self).cell(a, b) == (old(self).cell(a, b)
                    || ascii_seeded(
                    (".##\n##.\n.#.")@,
                    '#',
                    x as int,
                    y as int,
                    old(self).width(),
                    old(self).height(),
                    a,
                    b,
                )),
    {
        let pat = ".##\n##.\n.#.";
        self.spawn_pattern_ascii(x, y, pat, '#');
    }

    /// Seeds the diehard (pattern that dies out after 130 generations) from its ASCII art, with its
    /// top-left corner at `(x, y)`, wrapped by the grid dimensions; existing
    /// live cells stay.
    pub fn spawn_diehard(&mut self, x: usize, y: usize)
        requires
            old(self).wf(),
        ensures
            final(self).wf(),
            same_dims(*old(self), *final(self)),
            same_controls(*old(self), *final(self)),
            forall|a: int, b: int|
                old(self).in_bounds(a, b) ==> final(self).cell(a, b) == (old(self).cell(a, b)
                    || ascii_seeded(
                    ("......#.\n##......\n.#...###")@,
                    '#',
                    x as int,
                    y as int,
                    old(self).width(),
                    old(self).height(),
                    a,
                    b,
                )),
    {
        let pat = "......#.\n##......\n.#...###";
        self.spawn_pattern_ascii(x, y, pat, '#');
    }

    /// Seeds the acorn (methuselah) from its ASCII art, with its
    /// top-left corner at `(x, y)`, wrapped by the grid dimensions; existing
    /// live cells stay.
    pub fn spawn_acorn(&mut self, x: usize, y: usize)
        requires
            old(self).wf(),
        ensures
            final(self).wf(),
            same_dims(*old(self), *final(self)),
            same_controls(*old(self), *final(self)),
            forall|a: int, b: int|
                old(self).in_bounds(a, b) ==> final(self).cell(a, b) == (old(self).cell(a, b)
                    || ascii_seeded(
                    (".#.....\n...#...\n##..###")@,
                    '#',
                    x as int,
                    y as int,
                    old(self).width(),
                    old(self).height(),
                    a,
                    b,
                )),
    {
        let pat = ".#.....\n...#...\n##..###";
        self.spawn_pattern_ascii(x, y, pat, '#');
    }

}

} // verus!
