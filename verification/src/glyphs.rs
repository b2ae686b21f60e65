//! Glyph lookup for text drawing.
//!
//! A glyph source hands the canvas a packed monochrome bitmap for a
//! character at a given font size, or reports that it has none. Each
//! bitmap is row-major, most significant bit first, its width a multiple
//! of 8 derivable as `length / fontsize * 8`.
use vstd::prelude::*;

verus! {

/// An opaque lookup from character and font size to a packed glyph
/// bitmap. The canvas only consumes this byte-array contract; where the
/// glyphs come from is the implementor's business.
pub trait GlyphSource {
    /// Invariant the implementing table maintains.
    spec fn inv(&self) -> bool;

    /// Which font sizes this source can render.
    spec fn supported_spec(&self, fontsize: usize) -> bool;

    /// The bitmap this source holds for `ch` at `fontsize`, if any.
    spec fn glyph_spec(&self, fontsize: usize, ch: char) -> Option<Seq<u8>>;

    /// Whether `fontsize` is one of the supported sizes.
    fn supported(&self, fontsize: usize) -> (r: bool)
        requires
            self.inv(),
        ensures
            r == self.supported_spec(fontsize),
    ;

    /// Looks the character up; `None` means the source has no glyph for
    /// it at this size.
    fn glyph(&self, fontsize: usize, ch: char) -> (r: Option<&Vec<u8>>)
        requires
            self.inv(),
            self.supported_spec(fontsize),
        ensures
            match r {
                Some(v) => self.glyph_spec(fontsize, ch) == Some(v@),
                None => self.glyph_spec(fontsize, ch) is None,
            },
    ;
}

/// A glyph table for one fixed font size: a list of characters and, in
/// parallel, their packed bitmaps.
pub struct GlyphSet {
    pub fontsize: usize,
    pub chars: Vec<char>,
    pub bitmaps: Vec<Vec<u8>>,
}

impl GlyphSet {
    /// The font size is positive, the two lists run in parallel, and no
    /// character appears twice.
    pub open spec fn wf(self) -> bool {
        &&& 0 < self.fontsize
        &&& self.chars@.len() == self.bitmaps@.len()
        &&& forall|i: int, j: int|
            0 <= i < j < self.chars@.len() ==> self.chars@[i] != self.chars@[j]
    }

    /// Whether the table holds a glyph for `ch`.
    pub open spec fn has_char(self, ch: char) -> bool {
        exists|k: int| 0 <= k < self.chars@.len() && self.chars@[k] == ch
    }

    /// The index of `ch` in the table (unique, since characters do not
    /// repeat).
    pub open spec fn char_index(self, ch: char) -> int {
        choose|k: int| 0 <= k < self.chars@.len() && self.chars@[k] == ch
    }

    /// An empty table for the given font size.
    pub fn new(fontsize: usize) -> (r: GlyphSet)
        requires
            0 < fontsize,
        ensures
            r.wf(),
            r.fontsize == fontsize,
            r.chars@.len() == 0,
    {
        GlyphSet { fontsize, chars: Vec::new(), bitmaps: Vec::new() }
    }

    /// Adds a glyph; returns `false` (table unchanged) when the
    /// character is already present.
    pub fn add_glyph(&mut self, ch: char, data: Vec<u8>) -> (r: bool)
        requires
            old(self).wf(),
        ensures
            final(self).wf(),
            final(self).fontsize == old(self).fontsize,
            r == !old(self).has_char(ch),
            r ==> final(self).chars@ == old(self).chars@.push(ch) && final(self).bitmaps@ == old(
                self,
            ).bitmaps@.push(data),
            !r ==> *final(self) == *old(self),
    {
        let mut k: usize = 0;
        while k < self.chars.len()
            invariant
                k <= self.chars@.len(),
                forall|j: int| 0 <= j < k ==> self.chars@[j] != ch,
            decreases self.chars@.len() - k,
        {
            if self.chars[k] == ch {
                return false;
            }
            k = k + 1;
        }
        self.chars.push(ch);
        self.bitmaps.push(data);
        true
    }
}

impl GlyphSource for GlyphSet {
    open spec fn inv(&self) -> bool {
        self.wf()
    }

    open spec fn supported_spec(&self, fontsize: usize) -> bool {
        fontsize == self.fontsize
    }

    open spec fn glyph_spec(&self, fontsize: usize, ch: char) -> Option<Seq<u8>> {
        if fontsize == self.fontsize && self.has_char(ch) {
            Some(self.bitmaps@[self.char_index(ch)]@)
        } else {
            None
        }
    }

    fn supported(&self, fontsize: usize) -> (r: bool) {
        fontsize == self.fontsize
    }

    fn glyph(&self, fontsize: usize, ch: char) -> (r: Option<&Vec<u8>>) {
        let mut k: usize = 0;
        while k < self.chars.len()
            invariant
                k <= self.chars@.len(),
                forall|j: int| 0 <= j < k ==> self.chars@[j] != ch,
            decreases self.chars@.len() - k,
        {
            if self.chars[k] == ch {
                proof {
                    assert(self.has_char(ch));
                    assert(self.char_index(ch) == k as int) by {
                        let k2 = self.char_index(ch);
                        assert(0 <= k2 < self.chars@.len() && self.chars@[k2] == ch);
                    }
                }
                return Some(&self.bitmaps[k]);
            }
            k = k + 1;
        }
        None
    }
}

} // verus!
