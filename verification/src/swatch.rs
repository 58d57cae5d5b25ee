//! Layout of the palette preview swatch image.
//!
//! The swatch shows 20 hues, each in three chroma columns of 16 lightness rows,
//! followed by a greyscale column. Which (hue, chroma, lightness) slots exist
//! in the palette is decided by an sRGB gamut test on the OKLCH color of the
//! slot; that float computation happens outside this module and arrives here
//! as a [`SlotGrid`].

use vstd::prelude::*;

verus! {

pub const HUE_COUNT: usize = 20;
pub const GRAYSCALE_COUNT: usize = 16;
pub const CHROMA_LEVELS: usize = 3;
pub const LIGHTNESS_LEVELS: usize = 16;
/// Slots per hue: chroma levels times lightness levels.
pub const SLOTS_PER_HUE: usize = 48;
/// Swatch width: three columns per hue plus the greyscale column.
pub const SWATCH_WIDTH: usize = 61;
/// Swatch height: one row per lightness level.
pub const SWATCH_HEIGHT: usize = 16;

/// Which palette slots exist: `valid[(hue * 3 + chroma) * 16 + lightness]`.
pub struct SlotGrid {
    valid: Vec<bool>,
}

impl View for SlotGrid {
    type V = Seq<bool>;

    closed spec fn view(&self) -> Seq<bool> {
        self.valid@
    }
}

/// Slot `(hue, chroma, lightness)` exists in the grid.
pub open spec fn slot_valid(grid: Seq<bool>, hue: int, chroma: int, lightness: int) -> bool {
    grid[(hue * 3 + chroma) * 16 + lightness]
}

/// Number of existing slots of `hue` among its first `k` cells, cells taken
/// chroma level by chroma level, lightness by lightness.
pub open spec fn valid_before(grid: Seq<bool>, hue: int, k: int) -> nat
    decreases k,
{
    if k <= 0 {
        0
    } else {
        valid_before(grid, hue, k - 1) + if grid[hue * 48 + k - 1] {
            1nat
        } else {
            0nat
        }
    }
}

/// Number of palette colors in `hue`.
pub open spec fn spec_colors_in_hue(grid: Seq<bool>, hue: int) -> nat {
    valid_before(grid, hue, 48)
}

/// Palette index of the first color of `hue`: the greys, then every earlier hue.
pub open spec fn hue_base(grid: Seq<bool>, hue: int) -> nat
    decreases hue,
{
    if hue <= 0 {
        GRAYSCALE_COUNT as nat
    } else {
        hue_base(grid, hue - 1) + spec_colors_in_hue(grid, hue - 1)
    }
}

/// The chroma level shown in visual column `column` of `hue`: odd hues run
/// from low to high chroma, even hues from high to low.
pub open spec fn column_chroma(hue: int, column: int) -> int {
    if hue % 2 == 1 {
        column
    } else {
        2 - column
    }
}

/// The palette index in swatch pixel `(x, y)`.
pub open spec fn swatch_pixel(grid: Seq<bool>, x: int, y: int) -> u8 {
    if x == 60 {
        (15 - y) as u8
    } else {
        let hue = x / 3;
        let chroma = column_chroma(hue, x % 3);
        let lightness = 15 - y;
        if slot_valid(grid, hue, chroma, lightness) {
            ((hue_base(grid, hue) + valid_before(grid, hue, chroma * 16 + lightness)) % 256) as u8
        } else {
            0
        }
    }
}

impl SlotGrid {
    /// A grid from one flag per slot; `None` unless there are exactly 960 flags.
    pub fn new(valid: Vec<bool>) -> (r: Option<SlotGrid>)
        ensures
            valid@.len() == 960 ==> r is Some && r->0@ == valid@,
            valid@.len() != 960 ==> r is None,
    {
        if valid.len() == 960 {
            Some(SlotGrid { valid })
        } else {
            None
        }
    }

    pub open spec fn wf(&self) -> bool {
        self@.len() == 960
    }

    /// Whether slot `(hue, chroma, lightness)` exists.
    pub fn is_valid_palette_slot(&self, hue: usize, chroma: usize, lightness: usize) -> (b: bool)
        requires
            self.wf(),
            hue < 20,
            chroma < 3,
            lightness < 16,
        ensures
            b == slot_valid(self@, hue as int, chroma as int, lightness as int),
    {
        self.valid[(hue * 3 + chroma) * 16 + lightness]
    }
}

/// Counts the existing slots of `hue` among its first `k` cells.
fn count_valid(grid: &SlotGrid, hue: usize, k: usize) -> (n: usize)
    requires
        grid.wf(),
        hue < 20,
        k <= 48,
    ensures
        n == valid_before(grid@, hue as int, k as int),
        n <= k,
{
    let mut n: usize = 0;
    let mut i: usize = 0;
    while i < k
        invariant
            i <= k <= 48,
            hue < 20,
            grid.wf(),
            n == valid_before(grid@, hue as int, i as int),
            n <= i,
        decreases k - i,
    {
        let chroma = i / 16;
        let lightness = i % 16;
        assert((hue * 3 + chroma) * 16 + lightness == hue * 48 + i);
        if grid.is_valid_palette_slot(hue, chroma, lightness) {
            n = n + 1;
        }
        i = i + 1;
    }
    n
}

/// Number of palette colors in `hue`.
pub fn colors_in_hue(grid: &SlotGrid, hue: usize) -> (n: usize)
    requires
        grid.wf(),
        hue < 20,
    ensures
        n == spec_colors_in_hue(grid@, hue as int),
        n <= 48,
{
    count_valid(grid, hue, SLOTS_PER_HUE)
}

/// The palette index of slot `(hue, chroma, lightness)`, given the index of
/// the first color of `hue`; `None` when the slot does not exist.
pub fn compact_palette_index(
    grid: &SlotGrid,
    hue: usize,
    hue_base: usize,
    chroma: usize,
    lightness: usize,
) -> (r: Option<usize>)
    requires
        grid.wf(),
        hue < 20,
        chroma < 3,
        lightness < 16,
        hue_base <= usize::MAX - 48,
    ensures
        r == (if slot_valid(grid@, hue as int, chroma as int, lightness as int) {
            Some((hue_base + valid_before(grid@, hue as int, chroma * 16 + lightness)) as usize)
        } else {
            None::<usize>
        }),
{
    if !grid.is_valid_palette_slot(hue, chroma, lightness) {
        return None;
    }
    let offset = count_valid(grid, hue, chroma * 16 + lightness);
    Some(hue_base + offset)
}

/// The greyscale palette index shown in swatch row `y`: white at the top,
/// black at the bottom.
pub fn greyscale_index_for_row(y: usize) -> (index: u8)
    requires
        y < 16,
    ensures
        index == 15 - y,
{
    if y == 0 {
        (GRAYSCALE_COUNT - 1) as u8
    } else if y == GRAYSCALE_COUNT - 1 {
        0
    } else {
        (GRAYSCALE_COUNT - 1 - y) as u8
    }
}

proof fn lemma_hue_base_bound(grid: Seq<bool>, hue: int)
    requires
        0 <= hue <= 20,
        grid.len() == 960,
    ensures
        hue_base(grid, hue) <= 16 + 48 * hue,
    decreases hue,
{
    if hue > 0 {
        lemma_hue_base_bound(grid, hue - 1);
        lemma_valid_before_bound(grid, hue - 1, 48);
    }
}

proof fn lemma_valid_before_bound(grid: Seq<bool>, hue: int, k: int)
    requires
        0 <= k,
    ensures
        valid_before(grid, hue, k) <= k,
    decreases k,
{
    if k > 0 {
        lemma_valid_before_bound(grid, hue, k - 1);
    }
}

/// The swatch pixels, row by row: for every hue its three chroma columns, in
/// the hue's column order, with the palette index of each existing slot (its
/// lightness counted from the bottom row) and 0 elsewhere, then the greyscale
/// column.
pub fn palette_swatch_pixels(grid: &SlotGrid) -> (pixels: Vec<u8>)
    requires
        grid.wf(),
    ensures
        pixels@.len() == SWATCH_WIDTH * SWATCH_HEIGHT,
        forall|x: int, y: int|
            0 <= x < 61 && 0 <= y < 16 ==> #[trigger] pixels@[y * 61 + x] == swatch_pixel(
                grid@,
                x,
                y,
            ),
{
    let mut pixels: Vec<u8> = Vec::new();
    let mut y: usize = 0;
    while y < SWATCH_HEIGHT
        invariant
            y <= 16,
            grid.wf(),
            pixels@.len() == y * 61,
            forall|py: int, px: int|
                0 <= py < y && 0 <= px < 61 ==> #[trigger] pixels@[py * 61 + px] == swatch_pixel(
                    grid@,
                    px,
                    py,
                ),
        decreases 16 - y,
    {
        let lightness = GRAYSCALE_COUNT - 1 - y;
        let mut hue: usize = 0;
        let mut base: usize = GRAYSCALE_COUNT;
        while hue < HUE_COUNT
            invariant
                y < 16,
                lightness == 15 - y,
                hue <= 20,
                grid.wf(),
                base == hue_base(grid@, hue as int),
                pixels@.len() == y * 61 + hue * 3,
                forall|py: int, px: int|
                    0 <= py < y && 0 <= px < 61 ==> #[trigger] pixels@[py * 61 + px]
                        == swatch_pixel(grid@, px, py),
                forall|px: int|
                    0 <= px < hue * 3 ==> #[trigger] pixels@[y * 61 + px] == swatch_pixel(
                        grid@,
                        px,
                        y as int,
                    ),
            decreases 20 - hue,
        {
            proof {
                lemma_hue_base_bound(grid@, hue as int);
            }
            let mut column: usize = 0;
            while column < CHROMA_LEVELS
                invariant
                    y < 16,
                    lightness == 15 - y,
                    hue < 20,
                    column <= 3,
                    grid.wf(),
                    base == hue_base(grid@, hue as int),
                    base <= 16 + 48 * hue,
                    pixels@.len() == y * 61 + hue * 3 + column,
                    forall|py: int, px: int|
                        0 <= py < y && 0 <= px < 61 ==> #[trigger] pixels@[py * 61 + px]
                            == swatch_pixel(grid@, px, py),
                    forall|px: int|
                        0 <= px < hue * 3 + column ==> #[trigger] pixels@[y * 61 + px]
                            == swatch_pixel(grid@, px, y as int),
                decreases 3 - column,
            {
                let chroma = if hue % 2 == 1 {
                    column
                } else {
                    CHROMA_LEVELS - 1 - column
                };
                let value: u8 = match compact_palette_index(grid, hue, base, chroma, lightness) {
                    Some(index) => (index % 256) as u8,
                    None => 0,
                };
                let ghost x = (hue * 3 + column) as int;
                assert(x / 3 == hue && x % 3 == column);
                assert(x < 60);
                assert(column_chroma(hue as int, column as int) == chroma);
                proof {
                    lemma_valid_before_bound(grid@, hue as int, chroma * 16 + lightness);
                }
                assert(value == swatch_pixel(grid@, x, y as int));
                pixels.push(value);
                assert(pixels@[y * 61 + x] == swatch_pixel(grid@, x, y as int));
                column = column + 1;
            }
            let count = colors_in_hue(grid, hue);
            base = base + count;
            hue = hue + 1;
        }
        pixels.push(greyscale_index_for_row(y));
        assert(pixels@[y * 61 + 60] == swatch_pixel(grid@, 60, y as int));
        assert forall|py: int, px: int|
            0 <= py < y + 1 && 0 <= px < 61 implies #[trigger] pixels@[py * 61 + px]
                == swatch_pixel(grid@, px, py) by {
            if py == y {
                assert(py * 61 + px == y * 61 + px);
            }
        }
        y = y + 1;
    }
    pixels
}

} // verus!
