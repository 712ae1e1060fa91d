use vstd::prelude::*;

verus! {

/// Brightness of a fully lit cell.
pub const ON_FULL: u8 = 60;

/// Brightness of a dimly lit cell.
pub const ON_DIM: u8 = 30;

/// Brightness of a dark cell.
pub const OFF: u8 = 0;

/// The rectangular extent of a widget's bitmap: `x` cells wide, `y` cells tall.
#[derive(Clone, Copy, PartialEq, Eq, Structural, Debug)]
pub struct Shape {
    pub x: usize,
    pub y: usize,
}

/// The capability contract for a data source that renders itself as a
/// rectangular brightness bitmap.
///
/// `bitmap_spec` abstracts the row-major bitmap produced by the most recent
/// `update`; `shape_spec` abstracts the widget's fixed extent, which never
/// changes over the widget's lifetime.
pub trait Widget {
    /// The widget's own well-formedness: constructors establish it and
    /// every method preserves it.
    spec fn wf(&self) -> bool;

    /// The widget's fixed extent.
    spec fn shape_spec(&self) -> Shape;

    /// The row-major bitmap computed by the most recent `update`.
    spec fn bitmap_spec(&self) -> Seq<u8>;

    /// Refresh the bitmap from the widget's data source. The shape never
    /// changes, and afterwards the bitmap fills the shape exactly.
    fn update(&mut self)
        requires
            old(self).wf(),
        ensures
            final(self).wf(),
            final(self).shape_spec() == old(self).shape_spec(),
            final(self).bitmap_spec().len() == final(self).shape_spec().x as int
                * final(self).shape_spec().y as int,
    ;

    /// The bitmap computed by the most recent `update`.
    fn get_matrix(&self) -> (m: &Vec<u8>)
        ensures
            m@ == self.bitmap_spec(),
    ;

    /// The widget's fixed extent.
    fn get_shape(&self) -> (s: &Shape)
        ensures
            *s == self.shape_spec(),
    ;
}

/// `c` is one of the letters `A`..=`Z` or `a`..=`z`.
pub open spec fn is_ascii_letter(c: char) -> bool {
    ||| 0x41 <= c as u32 <= 0x5A
    ||| 0x61 <= c as u32 <= 0x7A
}

/// The cell that `write_char` paints at offset `k` (0..=8) for letter `c`:
/// a fully lit head cell, then the eight bits of the letter's code, most
/// significant bit first, bright for a set bit and faint for a clear one.
pub open spec fn char_cell(c: char, k: int) -> u8 {
    if k == 0 {
        ON_FULL
    } else if ((c as u32) as u8 >> (8 - k) as u8) & 1 == 1 {
        100u8
    } else {
        20u8
    }
}

/// Draw an ASCII letter on a row-major bitmap: nine cells starting at
/// `position`, as described by `char_cell`. Every other cell is untouched.
pub fn write_char(mat: &mut Vec<u8>, position: usize, character: char)
    requires
        is_ascii_letter(character),
        position + 9 <= old(mat)@.len(),
    ensures
        final(mat)@.len() == old(mat)@.len(),
        forall|k: int| 0 <= k < 9 ==> final(mat)@[position + k] == char_cell(character, k),
        forall|i: int|
            0 <= i < old(mat)@.len() && !(position <= i < position + 9) ==> final(mat)@[i] == old(
                mat,
            )@[i],
{
    let code: u8 = (character as u32) as u8;
    let len = mat.len();
    mat[position] = ON_FULL;
    let mut bit: u8 = 0;
    while bit < 8
        invariant
            is_ascii_letter(character),
            code == (character as u32) as u8,
            bit <= 8,
            position + 9 <= len,
            len == mat@.len(),
            mat@.len() == old(mat)@.len(),
            forall|k: int| 0 <= k < 1 + bit ==> mat@[position + k] == char_cell(character, k),
            forall|i: int|
                0 <= i < old(mat)@.len() && !(position <= i < position + 1 + bit) ==> mat@[i]
                    == old(mat)@[i],
        decreases 8 - bit,
    {
        let shift: u8 = 7 - bit;
        let is_on = (code >> shift) & 1 == 1;
        if is_on {
            mat[position + 1 + bit as usize] = 100;
        } else {
            mat[position + 1 + bit as usize] = 20;
        }
        proof {
            let k = 1 + bit as int;
            assert((8 - k) as u8 == shift);
            assert(mat@[position + k] == char_cell(character, k));
        }
        bit = bit + 1;
    }
}

} // verus!
