//! Decoded pictures as plain values: the pixels of a picture, column by
//! column, each pixel as its red, green, blue and alpha bytes.

use vstd::prelude::*;

verus! {

/// The pixels of `columns` as sequences of bytes.
pub open spec fn rgba_columns(columns: Seq<Vec<[u8; 4]>>) -> Seq<Seq<Seq<u8>>> {
    Seq::new(columns.len(), |x: int| Seq::new(columns[x]@.len(), |y: int| columns[x]@[y]@))
}

/// Whether all of `columns` are equally high.
pub open spec fn is_rectangular(columns: Seq<Vec<[u8; 4]>>) -> bool {
    forall|x: int| 0 <= x < columns.len() ==> (#[trigger] columns[x]).len() == columns[0].len()
}

/// A decoded picture. Its columns, left to right, are equally high; a column
/// holds its pixels top to bottom.
pub struct Picture {
    columns: Vec<Vec<[u8; 4]>>,
    height: usize,
}

impl View for Picture {
    type V = Seq<Seq<Seq<u8>>>;

    closed spec fn view(&self) -> Seq<Seq<Seq<u8>>> {
        rgba_columns(self.columns@)
    }
}

impl Picture {
    #[verifier::type_invariant]
    spec fn every_column_has_the_height(self) -> bool {
        forall|x: int|
            0 <= x < self.columns.len() ==> (#[trigger] self.columns[x]).len() == self.height
    }

    /// The picture with the given columns, if they are equally high.
    pub fn new(columns: Vec<Vec<[u8; 4]>>) -> (picture: Option<Self>)
        ensures
            picture is Some <==> is_rectangular(columns@),
            picture matches Some(made) ==> made@ == rgba_columns(columns@),
    {
        let height: usize = if columns.len() == 0 {
            0
        } else {
            columns[0].len()
        };
        let mut x: usize = 0;
        while x < columns.len()
            invariant
                x <= columns.len(),
                columns.len() > 0 ==> height == columns[0].len(),
                forall|c: int| 0 <= c < x ==> (#[trigger] columns[c]).len() == height,
            decreases columns.len() - x,
        {
            if columns[x].len() != height {
                return None;
            }
            x += 1;
        }
        Some(Picture { columns, height })
    }

    /// The number of columns.
    pub fn width(&self) -> (width: usize)
        ensures
            width == self@.len(),
    {
        self.columns.len()
    }

    /// The number of pixels in every column.
    pub fn height(&self) -> (height: usize)
        ensures
            forall|x: int| 0 <= x < self@.len() ==> (#[trigger] self@[x]).len() == height,
    {
        proof {
            use_type_invariant(self);
        }
        self.height
    }

    /// The pixel in column `x` and row `y`.
    pub fn pixel(&self, x: usize, y: usize) -> (rgba: [u8; 4])
        requires
            x < self@.len(),
            y < self@[x as int].len(),
        ensures
            rgba@ == self@[x as int][y as int],
    {
        self.columns[x][y]
    }
}

} // verus!
