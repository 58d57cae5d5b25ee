//! The palette editor of the preview window: the palette being edited, the
//! selected cell, whether a pick from the raw preview is armed, whether edits
//! wait for a rebake, and the status line shown under the palette.
//!
//! The OKLCH picker and the lab settings are single-precision values and stay
//! beside this state; every change of the palette goes through it.

use vstd::prelude::*;
use crate::lab_html::{decimal_text, push_count};
use crate::preview_debug::{align_copy_bytes_per_row, aligned_row_bytes, readback_offset};

verus! {

/// Number of cells in the preview palette.
pub const PREVIEW_PALETTE_CELLS: usize = 256;

/// The color a missing cell shows: opaque black.
pub open spec fn blank_cell() -> [u8; 4] {
    [0, 0, 0, 255]
}

/// `colors` cut or filled with opaque black to exactly 256 cells.
pub open spec fn padded_spec(colors: Seq<[u8; 4]>) -> Seq<[u8; 4]> {
    if colors.len() >= 256 {
        colors.take(256)
    } else {
        colors + Seq::new((256 - colors.len()) as nat, |i: int| blank_cell())
    }
}

/// The palette cut or filled with opaque black to exactly 256 cells.
pub fn padded_preview_palette(colors: Vec<[u8; 4]>) -> (r: Vec<[u8; 4]>)
    ensures
        r@ == padded_spec(colors@),
{
    let ghost given = colors@;
    let mut colors = colors;
    colors.truncate(PREVIEW_PALETTE_CELLS);
    let ghost start = colors@;
    assert(start == (if given.len() >= 256 {
        given.take(256)
    } else {
        given
    }));
    assert(colors@ =~= start + Seq::new(0, |i: int| blank_cell()));
    while colors.len() < PREVIEW_PALETTE_CELLS
        invariant
            start.len() <= colors@.len() <= 256,
            start.len() <= 256,
            colors@ == start + Seq::new((colors@.len() - start.len()) as nat, |i: int| blank_cell()),
        decreases 256 - colors@.len(),
    {
        colors.push([0, 0, 0, 255]);
        assert(colors@ =~= start + Seq::new((colors@.len() - start.len()) as nat, |i: int| blank_cell()));
    }
    proof {
        if given.len() >= 256 {
            assert(colors@ =~= given.take(256));
        } else {
            assert(colors@ =~= padded_spec(given));
        }
    }
    colors
}

/// `cell` clamped to the last cell of a palette of `len` cells (0 when empty).
pub open spec fn clamp_cell(cell: int, len: int) -> int {
    if len == 0 {
        0
    } else if cell < len {
        cell
    } else {
        len - 1
    }
}

fn clamp_cell_exec(cell: usize, len: usize) -> (r: usize)
    ensures
        r == clamp_cell(cell as int, len as int),
{
    if len == 0 {
        0
    } else if cell < len {
        cell
    } else {
        len - 1
    }
}

/// An upper-case hex digit.
pub open spec fn hex_upper(n: u8) -> char {
    if n < 10 {
        (48 + n) as char
    } else {
        (55 + n) as char
    }
}

/// `RRGGBB` in upper-case hex for the first three bytes of a color.
pub open spec fn rgb_hex(c: [u8; 4]) -> Seq<char> {
    seq![
        hex_upper(c[0] / 16),
        hex_upper(c[0] % 16),
        hex_upper(c[1] / 16),
        hex_upper(c[1] % 16),
        hex_upper(c[2] / 16),
        hex_upper(c[2] % 16),
    ]
}

fn push_hex_byte(out: &mut String, b: u8)
    ensures
        final(out)@ == old(out)@ + seq![hex_upper(b / 16), hex_upper(b % 16)],
{
    push_hex_digit(out, b / 16);
    push_hex_digit(out, b % 16);
}

fn push_hex_digit(out: &mut String, n: u8)
    requires
        n < 16,
    ensures
        final(out)@ == old(out)@ + seq![hex_upper(n)],
{
    let s = match n {
        0 => "0",
        1 => "1",
        2 => "2",
        3 => "3",
        4 => "4",
        5 => "5",
        6 => "6",
        7 => "7",
        8 => "8",
        9 => "9",
        10 => "A",
        11 => "B",
        12 => "C",
        13 => "D",
        14 => "E",
        _ => "F",
    };
    proof {
        reveal_strlit("0");
        reveal_strlit("1");
        reveal_strlit("2");
        reveal_strlit("3");
        reveal_strlit("4");
        reveal_strlit("5");
        reveal_strlit("6");
        reveal_strlit("7");
        reveal_strlit("8");
        reveal_strlit("9");
        reveal_strlit("A");
        reveal_strlit("B");
        reveal_strlit("C");
        reveal_strlit("D");
        reveal_strlit("E");
        reveal_strlit("F");
    }
    out.append(s);
}

fn push_rgb_hex(out: &mut String, c: [u8; 4])
    ensures
        final(out)@ == old(out)@ + rgb_hex(c),
{
    push_hex_byte(out, c[0]);
    push_hex_byte(out, c[1]);
    push_hex_byte(out, c[2]);
    assert(out@ =~= old(out)@ + rgb_hex(c));
}

fn with_cell(colors: &Vec<[u8; 4]>, i: usize, color: [u8; 4]) -> (r: Vec<[u8; 4]>)
    requires
        i < colors@.len(),
    ensures
        r@ == colors@.update(i as int, color),
{
    let mut r: Vec<[u8; 4]> = Vec::new();
    let n = colors.len();
    let mut k: usize = 0;
    while k < n
        invariant
            k <= n,
            n == colors@.len(),
            i < n,
            r@.len() == k,
            forall|j: int| 0 <= j < k ==> r@[j] == colors@.update(i as int, color)[j],
        decreases n - k,
    {
        if k == i {
            r.push(color);
        } else {
            r.push(colors[k]);
        }
        k = k + 1;
    }
    assert(r@ =~= colors@.update(i as int, color));
    r
}

/// The status after a cell was set from the raw preview.
pub open spec fn raw_pick_status(cell: nat, c: [u8; 4]) -> Seq<char> {
    "Set cell "@ + decimal_text(cell) + " from raw #"@ + rgb_hex(c) + "; rebake needed"@
}

/// The status after a raw pick landed outside the readback.
pub open spec fn raw_pick_out_of_range_status(x: nat, y: nat) -> Seq<char> {
    "Raw pick out of range at "@ + decimal_text(x) + ", "@ + decimal_text(y)
}

/// The editor's palette state.
pub struct PreviewPaletteEditor {
    colors: Vec<[u8; 4]>,
    selected: usize,
    pick_raw_next_click: bool,
    dirty: bool,
    status: String,
}

impl PreviewPaletteEditor {
    /// The selected cell is a cell of the palette (or 0 when it is empty).
    #[verifier::type_invariant]
    spec fn selected_in_palette(self) -> bool {
        self.selected == 0 || self.selected < self.colors@.len()
    }

    /// The palette.
    pub closed spec fn colors_spec(&self) -> Seq<[u8; 4]> {
        self.colors@
    }

    /// The selected cell.
    pub closed spec fn selected_spec(&self) -> nat {
        self.selected as nat
    }

    /// A click on the raw preview will pick the selected cell's color.
    pub closed spec fn picking_spec(&self) -> bool {
        self.pick_raw_next_click
    }

    /// Edits wait for a rebake.
    pub closed spec fn dirty_spec(&self) -> bool {
        self.dirty
    }

    /// The status line.
    pub closed spec fn status_spec(&self) -> Seq<char> {
        self.status@
    }

    /// An editor of `colors` with cell 0 selected, nothing armed or pending.
    pub fn new(colors: Vec<[u8; 4]>) -> (e: Self)
        ensures
            e.colors_spec() == colors@,
            e.selected_spec() == 0,
            !e.picking_spec(),
            !e.dirty_spec(),
            e.status_spec() == "Palette editor ready"@,
    {
        PreviewPaletteEditor {
            colors,
            selected: 0,
            pick_raw_next_click: false,
            dirty: false,
            status: String::from_str("Palette editor ready"),
        }
    }

    pub fn colors(&self) -> (c: &[[u8; 4]])
        ensures
            c@ == self.colors_spec(),
    {
        self.colors.as_slice()
    }

    pub fn selected(&self) -> (s: usize)
        ensures
            s == self.selected_spec(),
    {
        self.selected
    }

    pub fn dirty(&self) -> (d: bool)
        ensures
            d == self.dirty_spec(),
    {
        self.dirty
    }

    pub fn picking_raw(&self) -> (p: bool)
        ensures
            p == self.picking_spec(),
    {
        self.pick_raw_next_click
    }

    pub fn status(&self) -> (s: &str)
        ensures
            s@ == self.status_spec(),
    {
        self.status.as_str()
    }

    /// Replaces the status line.
    pub fn set_status(&mut self, status: String)
        ensures
            final(self).status_spec() == status@,
            final(self).colors_spec() == old(self).colors_spec(),
            final(self).selected_spec() == old(self).selected_spec(),
            final(self).picking_spec() == old(self).picking_spec(),
            final(self).dirty_spec() == old(self).dirty_spec(),
    {
        proof {
            use_type_invariant(&*self);
        }
        self.status = status;
    }

    /// A press on cell `cell`: it becomes selected, clamped to the palette.
    pub fn select_cell(&mut self, cell: usize)
        ensures
            final(self).selected_spec() == clamp_cell(cell as int, old(self).colors_spec().len() as int),
            final(self).status_spec() == "Selected cell "@ + decimal_text(final(self).selected_spec()),
            final(self).colors_spec() == old(self).colors_spec(),
            final(self).picking_spec() == old(self).picking_spec(),
            final(self).dirty_spec() == old(self).dirty_spec(),
    {
        proof {
            use_type_invariant(&*self);
        }
        let selected = clamp_cell_exec(cell, self.colors.len());
        let mut status = String::from_str("Selected cell ");
        push_count(&mut status, selected);
        self.selected = selected;
        self.status = status;
    }

    /// Sets the selected cell to `color` (when the palette has that cell) and
    /// marks the palette as waiting for a rebake.
    pub fn set_color(&mut self, color: [u8; 4], status: String)
        ensures
            final(self).colors_spec() == (if old(self).selected_spec() < old(self).colors_spec().len() {
                old(self).colors_spec().update(old(self).selected_spec() as int, color)
            } else {
                old(self).colors_spec()
            }),
            final(self).selected_spec() == old(self).selected_spec(),
            final(self).dirty_spec(),
            final(self).status_spec() == status@,
            final(self).picking_spec() == old(self).picking_spec(),
    {
        proof {
            use_type_invariant(&*self);
        }
        if self.selected < self.colors.len() {
            let updated = with_cell(&self.colors, self.selected, color);
            self.colors = updated;
        }
        self.dirty = true;
        self.status = status;
    }

    /// Replaces the palette with `colors`, cut to the current number of cells
    /// (at least one); an empty palette is refused with a status only.
    pub fn set_colors(&mut self, colors: Vec<[u8; 4]>, status: String)
        ensures
            colors@.len() == 0 ==> {
                &&& final(self).status_spec() == "Loaded palette was empty"@
                &&& final(self).colors_spec() == old(self).colors_spec()
                &&& final(self).selected_spec() == old(self).selected_spec()
                &&& final(self).dirty_spec() == old(self).dirty_spec()
            },
            colors@.len() > 0 ==> {
                let keep = if old(self).colors_spec().len() > 1 {
                    old(self).colors_spec().len()
                } else {
                    1
                };
                let kept = if colors@.len() <= keep {
                    colors@
                } else {
                    colors@.take(keep as int)
                };
                &&& final(self).colors_spec() == kept
                &&& final(self).selected_spec() == clamp_cell(
                    old(self).selected_spec() as int,
                    kept.len() as int,
                )
                &&& final(self).dirty_spec()
                &&& final(self).status_spec() == status@ + "; rebake needed"@
            },
            final(self).picking_spec() == old(self).picking_spec(),
    {
        proof {
            use_type_invariant(&*self);
        }
        if colors.len() == 0 {
            self.status = String::from_str("Loaded palette was empty");
            return;
        }
        let keep = if self.colors.len() > 1 {
            self.colors.len()
        } else {
            1
        };
        let mut colors = colors;
        colors.truncate(keep);
        let selected = clamp_cell_exec(self.selected, colors.len());
        let mut text = status;
        text.append("; rebake needed");
        self.selected = 0;
        self.colors = colors;
        self.selected = selected;
        self.dirty = true;
        self.status = text;
    }

    /// Takes a loaded palette whose lookup came with it: the palette becomes
    /// `colors` padded to 256 cells and nothing waits for a rebake.
    pub fn load_committed(&mut self, colors: Vec<[u8; 4]>)
        ensures
            final(self).colors_spec() == padded_spec(colors@),
            final(self).selected_spec() == clamp_cell(old(self).selected_spec() as int, 256),
            !final(self).dirty_spec(),
            final(self).status_spec() == old(self).status_spec(),
            final(self).picking_spec() == old(self).picking_spec(),
    {
        proof {
            use_type_invariant(&*self);
        }
        let colors = padded_preview_palette(colors);
        let selected = clamp_cell_exec(self.selected, colors.len());
        self.selected = 0;
        self.colors = colors;
        self.selected = selected;
        self.dirty = false;
    }

    /// The palette was handed to the pipeline and a rebake queued.
    pub fn mark_committed(&mut self)
        ensures
            !final(self).dirty_spec(),
            final(self).status_spec() == "IPSMAP6 rebake queued"@,
            final(self).colors_spec() == old(self).colors_spec(),
            final(self).selected_spec() == old(self).selected_spec(),
            final(self).picking_spec() == old(self).picking_spec(),
    {
        proof {
            use_type_invariant(&*self);
        }
        self.dirty = false;
        self.status = String::from_str("IPSMAP6 rebake queued");
    }

    /// The pick button: the next click on the raw preview picks a color.
    pub fn arm_raw_pick(&mut self)
        ensures
            final(self).picking_spec(),
            final(self).status_spec() == "Click the raw preview to sample a source color"@,
            final(self).colors_spec() == old(self).colors_spec(),
            final(self).selected_spec() == old(self).selected_spec(),
            final(self).dirty_spec() == old(self).dirty_spec(),
    {
        proof {
            use_type_invariant(&*self);
        }
        self.pick_raw_next_click = true;
        self.status = String::from_str("Click the raw preview to sample a source color");
    }

    /// A click on the preview while a pick may be armed. Returns whether the
    /// pick took the click; a click inside the raw preview then disarms it
    /// (its pixel is read back next), one outside it only says so.
    pub fn raw_pick_click(&mut self, inside_raw: bool) -> (taken: bool)
        ensures
            taken == old(self).picking_spec(),
            final(self).picking_spec() == (old(self).picking_spec() && !inside_raw),
            final(self).status_spec() == (if old(self).picking_spec() && !inside_raw {
                "Pick Raw is armed: click inside the raw preview"@
            } else {
                old(self).status_spec()
            }),
            final(self).colors_spec() == old(self).colors_spec(),
            final(self).selected_spec() == old(self).selected_spec(),
            final(self).dirty_spec() == old(self).dirty_spec(),
    {
        proof {
            use_type_invariant(&*self);
        }
        if !self.pick_raw_next_click {
            return false;
        }
        if inside_raw {
            self.pick_raw_next_click = false;
        } else {
            self.status = String::from_str("Pick Raw is armed: click inside the raw preview");
        }
        true
    }

    /// The readback of a raw pick at `(x, y)` in a frame `width` pixels wide
    /// arrived as BGRA rows padded to the copy alignment: the selected cell
    /// takes that pixel's color, or the status says it was out of range.
    pub fn finish_raw_pick(&mut self, x: u32, y: u32, width: u32, data: &[u8])
        requires
            4 * width + 255 <= usize::MAX,
        ensures
            ({
                let offset = readback_offset(x, y, width);
                if offset + 3 >= data@.len() {
                    &&& final(self).status_spec() == raw_pick_out_of_range_status(x as nat, y as nat)
                    &&& final(self).colors_spec() == old(self).colors_spec()
                    &&& final(self).dirty_spec() == old(self).dirty_spec()
                } else {
                    let c = [data@[offset + 2], data@[offset + 1], data@[offset], data@[offset + 3]];
                    &&& final(self).colors_spec() == (if old(self).selected_spec()
                        < old(self).colors_spec().len() {
                        old(self).colors_spec().update(old(self).selected_spec() as int, c)
                    } else {
                        old(self).colors_spec()
                    })
                    &&& final(self).dirty_spec()
                    &&& final(self).status_spec() == raw_pick_status(old(self).selected_spec(), c)
                }
            }),
            final(self).selected_spec() == old(self).selected_spec(),
            final(self).picking_spec() == old(self).picking_spec(),
    {
        proof {
            use_type_invariant(&*self);
        }
        let aligned = align_copy_bytes_per_row(width as usize * 4);
        assert(aligned < 0x1_0000_0000 * 4 + 256);
        assert((y as u128) * (aligned as u128) <= 0xffff_ffff * 0x5_0000_0000) by (nonlinear_arith)
            requires
                y <= 0xffff_ffff,
                aligned <= 0x5_0000_0000,
        ;
        let offset: u128 = (y as u128) * (aligned as u128) + 4 * (x as u128);
        assert(offset == readback_offset(x, y, width)) by (nonlinear_arith)
            requires
                offset == (y as u128) * (aligned as u128) + 4 * (x as u128),
                aligned == aligned_row_bytes(4 * width),
        ;
        if offset + 3 >= data.len() as u128 {
            let mut status = String::from_str("Raw pick out of range at ");
            push_count(&mut status, x as usize);
            status.append(", ");
            push_count(&mut status, y as usize);
            self.status = status;
            return;
        }
        let o = offset as usize;
        let color = [data[o + 2], data[o + 1], data[o], data[o + 3]];
        let mut status = String::from_str("Set cell ");
        push_count(&mut status, self.selected);
        status.append(" from raw #");
        push_rgb_hex(&mut status, color);
        status.append("; rebake needed");
        self.set_color(color, status);
    }

    /// The line shown under the palette: the selected cell, its color (opaque
    /// black when the palette has no such cell) and the status.
    pub fn status_line(&self) -> (line: String)
        ensures
            line@ == "Cell "@ + decimal_text(self.selected_spec()) + " #"@ + rgb_hex(
                if self.selected_spec() < self.colors_spec().len() {
                    self.colors_spec()[self.selected_spec() as int]
                } else {
                    blank_cell()
                },
            ) + "  "@ + self.status_spec(),
    {
        let color = if self.selected < self.colors.len() {
            self.colors[self.selected]
        } else {
            [0, 0, 0, 255]
        };
        let mut line = String::from_str("Cell ");
        push_count(&mut line, self.selected);
        line.append(" #");
        push_rgb_hex(&mut line, color);
        line.append("  ");
        line.append(self.status.as_str());
        line
    }
}

} // verus!
