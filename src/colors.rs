use vstd::prelude::*;

use crate::grid::Grid;

verus! {

/// A display color: red, green, blue and alpha channels.
#[derive(Clone, Copy, Debug, PartialEq, Eq, Structural)]
pub struct Rgba {
    pub r: u8,
    pub g: u8,
    pub b: u8,
    pub a: u8,
}

impl Rgba {
    pub open spec fn spec_black() -> Rgba {
        Rgba { r: 0, g: 0, b: 0, a: 255 }
    }

    /// Opaque black.
    pub fn black() -> (r: Rgba)
        ensures
            r == Rgba::spec_black(),
    {
        Rgba { r: 0, g: 0, b: 0, a: 255 }
    }
}

/// The color particle `j` gets from the first `n` pixels, pixel `i` standing
/// for cell `i`: that of the last such cell holding `j`, or black.
pub open spec fn mapped_color(pixels: Seq<Rgba>, cells: Seq<Seq<usize>>, n: int, j: usize) -> Rgba
    decreases n,
{
    if n <= 0 {
        Rgba::spec_black()
    } else if cells[n - 1].contains(j) {
        pixels[n - 1]
    } else {
        mapped_color(pixels, cells, n - 1, j)
    }
}

/// A palette of `max_size` colors for the particles: each particle occupying
/// grid cell `i` takes the color of pixel `i`; the others stay black.
pub fn map_colors(pixels: &Vec<Rgba>, grid: &Grid, max_size: usize) -> (r: Vec<Rgba>)
    requires
        grid.wf(),
        pixels@.len() <= grid@.len(),
    ensures
        r@.len() == max_size,
        forall|j: int|
            0 <= j < max_size ==> #[trigger] r@[j] == mapped_color(
                pixels@,
                grid@,
                pixels@.len() as int,
                j as usize,
            ),
{
    let mut colors: Vec<Rgba> = Vec::with_capacity(max_size);
    let mut j: usize = 0;
    while j < max_size
        invariant
            j <= max_size,
            colors@.len() == j,
            forall|t: int| 0 <= t < j ==> #[trigger] colors@[t] == Rgba::spec_black(),
        decreases max_size - j,
    {
        colors.push(Rgba::black());
        j = j + 1;
    }
    let mut i: usize = 0;
    while i < pixels.len()
        invariant
            grid.wf(),
            pixels@.len() <= grid@.len(),
            i <= pixels@.len(),
            colors@.len() == max_size,
            forall|t: int|
                0 <= t < max_size ==> #[trigger] colors@[t] == mapped_color(
                    pixels@,
                    grid@,
                    i as int,
                    t as usize,
                ),
        decreases pixels@.len() - i,
    {
        let color = pixels[i];
        let held = grid.cell(i).iter();
        let mut k: usize = 0;
        while k < held.len()
            invariant
                i < pixels@.len(),
                color == pixels@[i as int],
                held@ == grid@[i as int],
                k <= held@.len(),
                colors@.len() == max_size,
                forall|t: int|
                    0 <= t < max_size ==> #[trigger] colors@[t] == (if held@.subrange(
                        0,
                        k as int,
                    ).contains(t as usize) {
                        color
                    } else {
                        mapped_color(pixels@, grid@, i as int, t as usize)
                    }),
            decreases held@.len() - k,
        {
            let p = held[k];
            if p < max_size {
                colors.set(p, color);
            }
            proof {
                assert forall|t: int| 0 <= t < max_size implies #[trigger] colors@[t] == (if held@.subrange(
                    0,
                    k + 1,
                ).contains(t as usize) {
                    color
                } else {
                    mapped_color(pixels@, grid@, i as int, t as usize)
                }) by {
                    let s0 = held@.subrange(0, k as int);
                    let s1 = held@.subrange(0, k + 1);
                    assert(s1 =~= s0.push(p));
                    if s0.contains(t as usize) {
                        let q = choose|q: int| 0 <= q < s0.len() && s0[q] == t as usize;
                        assert(s1[q] == t as usize);
                    }
                    if s1.contains(t as usize) && t as usize != p {
                        let q = choose|q: int| 0 <= q < s1.len() && s1[q] == t as usize;
                        assert(s0[q] == t as usize);
                    }
                    if t as usize == p {
                        assert(s1[k as int] == p);
                    }
                }
            }
            k = k + 1;
        }
        proof {
            assert(held@.subrange(0, held@.len() as int) =~= held@);
        }
        i = i + 1;
    }
    colors
}

} // verus!
