use vstd::prelude::*;

use crate::colors::Rgba;
use crate::grid::{bucket, Grid, MAX_DIM};

verus! {

/// Particles spawned at the start of an outer tick while below capacity.
pub const SPAWN_BATCH: usize = 10;

/// Integration sub-steps per outer tick.
pub const SUBSTEPS: usize = 8;

/// The population target for bounds of `w` by `h`: `floor(w * h * 1.14)`.
pub open spec fn max_objects_for(w: int, h: int) -> int {
    (w * h * 114) / 100
}

/// The population after one spawn from `pop` toward the target `max`:
/// one more batch, but never past the target.
pub open spec fn spawn_step(pop: int, max: int) -> int {
    if pop >= max {
        pop
    } else if pop + SPAWN_BATCH < max {
        pop + SPAWN_BATCH
    } else {
        max
    }
}

/// The population after `n` ticks from an empty start toward the target `max`.
pub open spec fn population_after(max: int, n: nat) -> int
    decreases n,
{
    if n == 0 {
        0
    } else {
        spawn_step(population_after(max, (n - 1) as nat), max)
    }
}

/// Capacity convergence: from an empty start the population grows by one
/// full batch per tick until the next batch would pass the target, the
/// last batch stops at the target, and from then on it stays there.
pub proof fn lemma_population_converges(max: int, n: nat)
    requires
        max >= 0,
    ensures
        population_after(max, n) == (if n * SPAWN_BATCH < max { n * SPAWN_BATCH as int } else { max }),
        population_after(max, n) < max ==> population_after(max, n + 1) == (if population_after(
            max,
            n,
        ) + SPAWN_BATCH < max {
            population_after(max, n) + SPAWN_BATCH
        } else {
            max
        }),
        population_after(max, n) == max ==> population_after(max, n + 1) == max,
    decreases n,
{
    if n > 0 {
        lemma_population_converges(max, (n - 1) as nat);
    }
}

/// The solver's state apart from the particles' positions: the bounds, the
/// population target, the broad-phase grid, the optional palette, and how many
/// particles have been spawned.
pub struct Solver {
    width: u16,
    height: u16,
    max_objects: u32,
    grid: Grid,
    colors: Option<Vec<Rgba>>,
    population: usize,
}

/// Whether a palette of `len` colors covers every particle that can be spawned.
pub open spec fn palette_fits(len: int, population: int, max: int) -> bool {
    len >= population && len >= max
}

impl Solver {
    pub closed spec fn spec_width(&self) -> int {
        self.width as int
    }

    pub closed spec fn spec_height(&self) -> int {
        self.height as int
    }

    pub closed spec fn spec_max_objects(&self) -> int {
        self.max_objects as int
    }

    pub closed spec fn spec_population(&self) -> int {
        self.population as int
    }

    pub closed spec fn spec_colors(&self) -> Option<Seq<Rgba>> {
        match &self.colors {
            Some(v) => Some(v@),
            None => None,
        }
    }

    pub closed spec fn spec_grid(&self) -> Grid {
        self.grid
    }

    pub closed spec fn wf(&self) -> bool {
        &&& self.width <= MAX_DIM
        &&& self.height <= MAX_DIM
        &&& self.grid.wf()
        &&& self.grid.spec_width() == self.width
        &&& self.grid.spec_height() == self.height
        &&& self.max_objects == max_objects_for(self.width as int, self.height as int)
        &&& self.population <= self.max_objects
        &&& match &self.colors {
            Some(v) => v@.len() >= self.max_objects,
            None => true,
        }
    }

    fn compute_max_objects(width: u16, height: u16) -> (r: u32)
        requires
            width <= MAX_DIM,
            height <= MAX_DIM,
        ensures
            r == max_objects_for(width as int, height as int),
    {
        let w = width as u64;
        let h = height as u64;
        proof {
            assert(w * h * 114 <= 32767 * 32767 * 114) by (nonlinear_arith)
                requires
                    w <= 32767,
                    h <= 32767,
            ;
            assert(0 <= w * h) by (nonlinear_arith)
                requires
                    0 <= w,
                    0 <= h,
            ;
        }
        (w * h * 114 / 100) as u32
    }

    /// A solver for bounds of `width` by `height` cells, with no particles
    /// and no palette.
    pub fn new(width: u16, height: u16) -> (r: Solver)
        requires
            width <= MAX_DIM,
            height <= MAX_DIM,
        ensures
            r.wf(),
            r.spec_width() == width,
            r.spec_height() == height,
            r.spec_max_objects() == max_objects_for(width as int, height as int),
            r.spec_population() == 0,
            r.spec_colors() is None,
            r.spec_grid()@.len() == width * height,
    {
        Solver {
            width,
            height,
            max_objects: Solver::compute_max_objects(width, height),
            grid: Grid::new(width, height),
            colors: None,
            population: 0,
        }
    }

    /// Takes `colors` as the palette if it has a color for every particle that
    /// is or can be spawned; otherwise the solver is left with no palette.
    pub fn set_colors(&mut self, colors: Option<Vec<Rgba>>)
        requires
            old(self).wf(),
        ensures
            final(self).wf(),
            final(self).spec_colors() == (match colors {
                Some(v) => if palette_fits(
                    v@.len() as int,
                    old(self).spec_population(),
                    old(self).spec_max_objects(),
                ) {
                    Some(v@)
                } else {
                    None
                },
                None => None,
            }),
            final(self).spec_width() == old(self).spec_width(),
            final(self).spec_height() == old(self).spec_height(),
            final(self).spec_max_objects() == old(self).spec_max_objects(),
            final(self).spec_population() == old(self).spec_population(),
            final(self).spec_grid() == old(self).spec_grid(),
    {
        let needed = if self.population > self.max_objects as usize {
            self.population
        } else {
            self.max_objects as usize
        };
        match colors {
            Some(v) => {
                if v.len() >= needed {
                    self.colors = Some(v);
                } else {
                    self.colors = None;
                }
            },
            None => {
                self.colors = None;
            },
        }
    }

    /// Whether a palette is set.
    pub fn has_colors(&self) -> (r: bool)
        ensures
            r == self.spec_colors() is Some,
    {
        self.colors.is_some()
    }

    /// How many particles have been spawned since the last reset.
    pub fn population(&self) -> (r: usize)
        ensures
            r == self.spec_population(),
    {
        self.population
    }

    /// The broad-phase grid as last rebuilt.
    pub fn get_grid(&self) -> (r: &Grid)
        ensures
            *r == self.spec_grid(),
    {
        &self.grid
    }

    /// The population target.
    pub fn max_objects(&self) -> (r: u32)
        ensures
            r == self.spec_max_objects(),
    {
        self.max_objects
    }

    /// The bounds, width then height.
    pub fn get_size(&self) -> (r: (u16, u16))
        ensures
            r.0 == self.spec_width(),
            r.1 == self.spec_height(),
    {
        (self.width, self.height)
    }

    /// Discards all particles; bounds, target and palette stay.
    pub fn reset(&mut self)
        requires
            old(self).wf(),
        ensures
            final(self).wf(),
            final(self).spec_population() == 0,
            final(self).spec_colors() == old(self).spec_colors(),
            final(self).spec_width() == old(self).spec_width(),
            final(self).spec_height() == old(self).spec_height(),
            final(self).spec_max_objects() == old(self).spec_max_objects(),
            final(self).spec_grid() == old(self).spec_grid(),
    {
        self.population = 0;
    }

    /// Replaces the bounds: a new grid and target, no palette, no particles.
    pub fn set_size(&mut self, width: u16, height: u16)
        requires
            width <= MAX_DIM,
            height <= MAX_DIM,
        ensures
            final(self).wf(),
            final(self).spec_width() == width,
            final(self).spec_height() == height,
            final(self).spec_max_objects() == max_objects_for(width as int, height as int),
            final(self).spec_population() == 0,
            final(self).spec_colors() is None,
            final(self).spec_grid()@.len() == width * height,
    {
        *self = Solver::new(width, height);
    }

    /// The spawn of an outer tick: below the target, one batch is added, cut
    /// short at the target. Returns, for each new particle in spawn order, its
    /// palette color, or `None` where no palette is set.
    pub fn add_objects(&mut self) -> (r: Vec<Option<Rgba>>)
        requires
            old(self).wf(),
        ensures
            final(self).wf(),
            final(self).spec_population() == spawn_step(
                old(self).spec_population(),
                old(self).spec_max_objects(),
            ),
            r@.len() == final(self).spec_population() - old(self).spec_population(),
            forall|i: int|
                0 <= i < r@.len() ==> #[trigger] r@[i] == (match old(self).spec_colors() {
                    Some(p) => Some(p[old(self).spec_population() + i]),
                    None => None,
                }),
            final(self).spec_colors() == old(self).spec_colors(),
            final(self).spec_width() == old(self).spec_width(),
            final(self).spec_height() == old(self).spec_height(),
            final(self).spec_max_objects() == old(self).spec_max_objects(),
            final(self).spec_grid() == old(self).spec_grid(),
    {
        let max = self.max_objects as usize;
        let start = self.population;
        let target = if start >= max {
            start
        } else if max - start > SPAWN_BATCH {
            start + SPAWN_BATCH
        } else {
            max
        };
        let mut r: Vec<Option<Rgba>> = Vec::new();
        let mut index = start;
        while index < target
            invariant
                self.wf(),
                start == old(self).spec_population(),
                self.colors == old(self).colors,
                self.max_objects == old(self).max_objects,
                max == self.max_objects,
                start <= index <= target <= max,
                r@.len() == index - start,
                forall|i: int|
                    0 <= i < r@.len() ==> #[trigger] r@[i] == (match old(self).spec_colors() {
                        Some(p) => Some(p[start + i]),
                        None => None,
                    }),
            decreases target - index,
        {
            let c = match &self.colors {
                Some(p) => Some(p[index]),
                None => None,
            };
            r.push(c);
            index = index + 1;
        }
        self.population = target;
        r
    }

    /// Rebuilds the grid from scratch: particle `i`, whose position truncates
    /// to column `cells[i].0`, row `cells[i].1`, is added to that cell, in
    /// index order, each cell keeping the first four it is given.
    pub fn update_grid(&mut self, cells: &Vec<(usize, usize)>)
        requires
            old(self).wf(),
            forall|i: int|
                0 <= i < cells@.len() ==> (#[trigger] cells@[i]).0 < old(self).spec_width()
                    && cells@[i].1 < old(self).spec_height(),
        ensures
            final(self).wf(),
            final(self).spec_grid()@ == Seq::new(
                (old(self).spec_width() * old(self).spec_height()) as nat,
                |c: int| bucket(cells@, old(self).spec_width(), cells@.len() as int, c),
            ),
            final(self).spec_colors() == old(self).spec_colors(),
            final(self).spec_width() == old(self).spec_width(),
            final(self).spec_height() == old(self).spec_height(),
            final(self).spec_max_objects() == old(self).spec_max_objects(),
            final(self).spec_population() == old(self).spec_population(),
    {
        self.grid.clear();
        proof {
            self.grid.lemma_view_len();
        }
        let ghost w = self.width as int;
        let ghost area = (self.width as int) * (self.height as int);
        assert(self.grid@ =~= Seq::new(area as nat, |c: int| bucket(cells@, w, 0, c)));
        let mut i: usize = 0;
        while i < cells.len()
            invariant
                self.wf(),
                w == self.width,
                area == self.width * self.height,
                self.colors == old(self).colors,
                self.width == old(self).width,
                self.height == old(self).height,
                self.max_objects == old(self).max_objects,
                self.population == old(self).population,
                i <= cells@.len(),
                forall|t: int|
                    0 <= t < cells@.len() ==> (#[trigger] cells@[t]).0 < w && cells@[t].1
                        < self.height,
                self.grid@ == Seq::new(area as nat, |c: int| bucket(cells@, w, i as int, c)),
            decreases cells@.len() - i,
        {
            let (x, y) = cells[i];
            let ghost before = self.grid@;
            self.grid.add_index(i, x, y);
            proof {
                self.grid.lemma_view_len();
                assert forall|c: int| 0 <= c < area implies #[trigger] self.grid@[c] == bucket(
                    cells@,
                    w,
                    i + 1,
                    c,
                ) by {
                    assert(before[c] == bucket(cells@, w, i as int, c));
                    let c0 = y * w + x;
                    assert(self.grid@ == before.update(c0, if before[c0].len() < 4 {
                        before[c0].push(i)
                    } else {
                        before[c0]
                    }));
                    let h = self.height as int;
                    assert(0 <= c0 < area) by (nonlinear_arith)
                        requires
                            c0 == y * w + x,
                            area == w * h,
                            0 <= x < w,
                            0 <= y < h,
                    ;
                    if c == c0 {
                        assert(self.grid@[c] == (if before[c0].len() < 4 {
                            before[c0].push(i)
                        } else {
                            before[c0]
                        }));
                    } else {
                        assert(self.grid@[c] == before[c]);
                    }
                    assert(cells@[i as int] == (x, y));
                    assert(bucket(cells@, w, i + 1, c) == (if y * w + x == c && bucket(
                        cells@,
                        w,
                        i as int,
                        c,
                    ).len() < 4 {
                        bucket(cells@, w, i as int, c).push(i)
                    } else {
                        bucket(cells@, w, i as int, c)
                    }));
                }
            }
            assert(self.grid@ =~= Seq::new(
                area as nat,
                |c: int| bucket(cells@, w, i + 1, c),
            ));
            i = i + 1;
        }
    }
}

} // verus!
