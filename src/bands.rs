use vstd::prelude::*;

verus! {

/// Rows of cells per band of the collision pass. It must exceed twice the
/// one-row reach of the neighbour lookup for same-phase bands to stay apart.
pub const BAND_ROWS: usize = 4;

/// Band `k` of a grid `width` cells wide with `area` cells: the half-open
/// range of flat cell indices it covers.
pub open spec fn band(width: int, area: int, k: int) -> (usize, usize) {
    let b = width * 4;
    ((k * b) as usize, (if (k + 1) * b < area { (k + 1) * b } else { area }) as usize)
}

/// The collision schedule: the bands of `BAND_ROWS` full rows each, split
/// into the even bands (first phase) and the odd bands (second phase). Bands
/// of one phase may be processed concurrently; the second phase starts after
/// the first has finished.
pub fn collision_bands(width: usize, area: usize) -> (r: (Vec<(usize, usize)>, Vec<(usize, usize)>))
    requires
        width <= 32767,
        area + 4 * width <= usize::MAX,
    ensures
        width == 0 ==> r.0@.len() == 0 && r.1@.len() == 0,
        width > 0 ==> ({
            let n = r.0@.len() + r.1@.len();
            &&& r.0@.len() == (n + 1) / 2
            &&& r.1@.len() == n / 2
            &&& n * (4 * width) >= area
            &&& n == 0 || (n - 1) * (4 * width) < area
        }),
        forall|j: int| 0 <= j < r.0@.len() ==> #[trigger] r.0@[j] == band(width as int, area as int, 2 * j),
        forall|j: int|
            0 <= j < r.1@.len() ==> #[trigger] r.1@[j] == band(width as int, area as int, 2 * j + 1),
{
    let mut even: Vec<(usize, usize)> = Vec::new();
    let mut odd: Vec<(usize, usize)> = Vec::new();
    if width == 0 {
        return (even, odd);
    }
    let b = width * BAND_ROWS;
    let mut start: usize = 0;
    let mut k: usize = 0;
    while start < area
        invariant
            width > 0,
            b == width * 4,
            area + b <= usize::MAX,
            start == k * b,
            k <= start,
            k == 0 || (k - 1) * b < area,
            start <= area + b,
            even@.len() == (k + 1) / 2,
            odd@.len() == k / 2,
            forall|j: int| 0 <= j < even@.len() ==> #[trigger] even@[j] == band(width as int, area as int, 2 * j),
            forall|j: int|
                0 <= j < odd@.len() ==> #[trigger] odd@[j] == band(width as int, area as int, 2 * j + 1),
        decreases area + b - start,
    {
        let end = if start + b < area { start + b } else { area };
        proof {
            assert((k + 1) * b == k * b + b) by (nonlinear_arith);
        }
        if k % 2 == 0 {
            even.push((start, end));
        } else {
            odd.push((start, end));
        }
        k = k + 1;
        start = start + b;
    }
    (even, odd)
}

/// A cell in band `k` lies in one of that band's `BAND_ROWS` rows.
proof fn lemma_band_rows(width: int, k: int, c: int)
    requires
        width > 0,
        k >= 0,
        k * (width * 4) <= c < (k + 1) * (width * 4),
    ensures
        4 * k <= c / width < 4 * k + 4,
{
    let q = c / width;
    let r = c % width;
    assert(c == q * width + r && 0 <= r < width) by {
        vstd::arithmetic::div_mod::lemma_fundamental_div_mod(c, width);
    }
    assert(4 * k <= q < 4 * k + 4) by (nonlinear_arith)
        requires
            width > 0,
            c == q * width + r,
            0 <= r < width,
            k * (width * 4) <= c < (k + 1) * (width * 4),
    ;
}

/// Two distinct bands of the same phase are out of each other's reach:
/// processing a cell reads and moves the particles of its own row and of the
/// rows just above and below, and no row reached from a cell of one band is
/// reached from a cell of the other. So workers on the bands of one phase
/// never touch the same cell, nor the same particle.
pub proof fn lemma_same_phase_bands_apart(width: int, k1: int, k2: int, c1: int, c2: int)
    requires
        width > 0,
        k1 >= 0,
        k2 >= 0,
        k1 != k2,
        k1 % 2 == k2 % 2,
        k1 * (width * 4) <= c1 < (k1 + 1) * (width * 4),
        k2 * (width * 4) <= c2 < (k2 + 1) * (width * 4),
    ensures
        forall|d1: int, d2: int|
            -1 <= d1 <= 1 && -1 <= d2 <= 1 ==> #[trigger] (c1 / width + d1) != #[trigger] (c2 / width
                + d2),
{
    lemma_band_rows(width, k1, c1);
    lemma_band_rows(width, k2, c2);
}

/// The bands cover the grid: each cell lies in band `c / (4 * width)`,
/// which the first phase runs when that number is even and the second when odd.
pub proof fn lemma_cell_in_band(width: int, area: int, c: int)
    requires
        width > 0,
        0 <= c < area <= usize::MAX,
    ensures
        ({
            let (s, e) = band(width, area, c / (width * 4));
            s <= c < e
        }),
{
    let b = width * 4;
    let k = c / b;
    vstd::arithmetic::div_mod::lemma_fundamental_div_mod(c, b);
    assert(k * b <= c < (k + 1) * b) by (nonlinear_arith)
        requires
            b > 0,
            c == b * k + c % b,
            0 <= c % b < b,
    ;
    assert(0 <= k) by (nonlinear_arith)
        requires
            b > 0,
            c >= 0,
            k == c / b,
    ;
    assert(0 <= k * b) by (nonlinear_arith)
        requires
            b > 0,
            k >= 0,
    ;
}

} // verus!
