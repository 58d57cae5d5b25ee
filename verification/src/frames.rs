//! A captured BGRA frame as frame processors see it: the pixel bytes, which
//! they may change in place, and the frame's size and row stride.

use vstd::prelude::*;

verus! {

/// A borrowed BGRA frame.
pub struct DirectStreamFrame<'a> {
    bgra: &'a mut [u8],
    width: u32,
    height: u32,
    row_bytes: usize,
}

impl<'a> DirectStreamFrame<'a> {
    /// The frame's pixel bytes as they are now.
    pub closed spec fn bytes(&self) -> Seq<u8> {
        self.bgra@
    }

    /// The frame's width in pixels.
    pub closed spec fn spec_width(&self) -> u32 {
        self.width
    }

    /// The frame's height in pixels.
    pub closed spec fn spec_height(&self) -> u32 {
        self.height
    }

    /// The distance in bytes between the starts of two rows.
    pub closed spec fn spec_row_bytes(&self) -> usize {
        self.row_bytes
    }

    /// A frame over `bgra` of the given size and stride.
    pub fn new(bgra: &'a mut [u8], width: u32, height: u32, row_bytes: usize) -> (f: Self)
        ensures
            f.bytes() == old(bgra)@,
            f.spec_width() == width,
            f.spec_height() == height,
            f.spec_row_bytes() == row_bytes,
    {
        DirectStreamFrame { bgra, width, height, row_bytes }
    }

    /// The frame's width in pixels.
    pub fn width(&self) -> (w: u32)
        ensures
            w == self.spec_width(),
    {
        self.width
    }

    /// The frame's height in pixels.
    pub fn height(&self) -> (h: u32)
        ensures
            h == self.spec_height(),
    {
        self.height
    }

    /// The distance in bytes between the starts of two rows.
    pub fn row_bytes(&self) -> (n: usize)
        ensures
            n == self.spec_row_bytes(),
    {
        self.row_bytes
    }
    /// The frame's pixel bytes, to change in place.
    pub fn bgra_mut(&mut self) -> (b: &mut [u8])
        ensures
            b@ == old(self).bytes(),
            final(self).bytes() == final(b)@,
            final(self).spec_width() == old(self).spec_width(),
            final(self).spec_height() == old(self).spec_height(),
            final(self).spec_row_bytes() == old(self).spec_row_bytes(),
    {
        &mut *self.bgra
    }
}

} // verus!
