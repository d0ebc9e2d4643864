use vstd::prelude::*;

use crate::color::Color;

verus! {

/// The three bytes (R, G, B) that stand for a color in the encoded image;
/// each channel is truncated to its low eight bits.
pub open spec fn color_bytes(c: Color) -> Seq<u8> {
    seq![c.r as u8, c.g as u8, c.b as u8]
}

/// The bytes of one row of pixels, left to right.
pub open spec fn row_bytes(row: Seq<Color>) -> Seq<u8>
    decreases row.len(),
{
    if row.len() == 0 {
        Seq::empty()
    } else {
        row_bytes(row.drop_last()) + color_bytes(row.last())
    }
}

/// The bytes of a whole raster, top row first.
pub open spec fn raster_bytes(rows: Seq<Seq<Color>>) -> Seq<u8>
    decreases rows.len(),
{
    if rows.len() == 0 {
        Seq::empty()
    } else {
        raster_bytes(rows.drop_last()) + row_bytes(rows.last())
    }
}

/// Every color of a row gives three bytes, and those of pixel `x` start at `3 * x`.
pub proof fn lemma_row_bytes(row: Seq<Color>)
    ensures
        row_bytes(row).len() == 3 * row.len(),
        forall|x: int|
            0 <= x < row.len() ==> row_bytes(row).subrange(3 * x, 3 * x + 3) == color_bytes(
                #[trigger] row[x],
            ),
    decreases row.len(),
{
    if row.len() > 0 {
        let init = row.drop_last();
        lemma_row_bytes(init);
        let a = row_bytes(init);
        let b = color_bytes(row.last());
        assert forall|x: int| 0 <= x < row.len() implies row_bytes(row).subrange(
            3 * x,
            3 * x + 3,
        ) == color_bytes(#[trigger] row[x]) by {
            if x < init.len() {
                assert(init[x] == row[x]);
                assert((a + b).subrange(3 * x, 3 * x + 3) =~= a.subrange(3 * x, 3 * x + 3));
            } else {
                assert((a + b).subrange(3 * x, 3 * x + 3) =~= b);
            }
        }
    }
}

/// In a raster whose rows all hold `width` colors, the bytes of pixel `(x, y)`
/// start at `3 * (y * width + x)`.
pub proof fn lemma_raster_bytes(rows: Seq<Seq<Color>>, width: int)
    requires
        width >= 0,
        forall|y: int| 0 <= y < rows.len() ==> (#[trigger] rows[y]).len() == width,
    ensures
        raster_bytes(rows).len() == 3 * width * rows.len(),
        forall|x: int, y: int|
            0 <= x < width && 0 <= y < rows.len() ==> raster_bytes(rows).subrange(
                3 * (y * width + x),
                3 * (y * width + x) + 3,
            ) == color_bytes(#[trigger] rows[y][x]),
    decreases rows.len(),
{
    if rows.len() > 0 {
        let n = rows.len() - 1;
        let init = rows.drop_last();
        assert forall|y: int| 0 <= y < init.len() implies (#[trigger] init[y]).len() == width by {
            assert(init[y] == rows[y]);
        }
        lemma_raster_bytes(init, width);
        lemma_row_bytes(rows.last());
        let a = raster_bytes(init);
        let b = row_bytes(rows.last());
        assert(a.len() == 3 * width * n);
        assert(3 * width * n + 3 * width == 3 * width * (n + 1)) by (nonlinear_arith);
        assert forall|x: int, y: int| 0 <= x < width && 0 <= y < rows.len() implies raster_bytes(
            rows,
        ).subrange(3 * (y * width + x), 3 * (y * width + x) + 3) == color_bytes(
            #[trigger] rows[y][x],
        ) by {
            let i = 3 * (y * width + x);
            if y < n {
                assert(init[y] == rows[y]);
                assert(i + 3 <= 3 * width * n) by (nonlinear_arith)
                    requires
                        0 <= x < width,
                        0 <= y < n,
                        i == 3 * (y * width + x),
                ;
                assert((a + b).subrange(i, i + 3) =~= a.subrange(i, i + 3));
            } else {
                assert(i == 3 * width * n + 3 * x) by (nonlinear_arith)
                    requires
                        y == n,
                        i == 3 * (y * width + x),
                ;
                assert((a + b).subrange(i, i + 3) =~= b.subrange(3 * x, 3 * x + 3));
            }
        }
    }
}

/// A raster of `height` rows of `width` colors each, indexed `matrix[y][x]`
/// with the origin at the top-left corner.
#[derive(Debug)]
pub struct Image {
    pub width: u32,
    pub height: u32,
    pub matrix: Vec<Vec<Color>>,
}

impl Image {
    /// The rows of the raster as sequences.
    pub open spec fn pixels(&self) -> Seq<Seq<Color>> {
        self.matrix@.map_values(|row: Vec<Color>| row@)
    }

    /// The raster has exactly `height` rows of exactly `width` colors.
    pub open spec fn wf(&self) -> bool {
        &&& self.matrix@.len() == self.height
        &&& forall|y: int| 0 <= y < self.height ==> (#[trigger] self.matrix@[y])@.len() == self.width
    }

    /// The color of pixel `(x, y)`.
    pub open spec fn pixel(&self, x: int, y: int) -> Color {
        self.matrix@[y]@[x]
    }

    /// A `width` by `height` raster filled with the background color.
    pub fn new(width: u32, height: u32) -> (img: Image)
        ensures
            img.wf(),
            img.width == width,
            img.height == height,
            forall|x: int, y: int|
                0 <= x < width && 0 <= y < height ==> #[trigger] img.pixel(x, y) == Color::black(),
    {
        let mut matrix: Vec<Vec<Color>> = Vec::new();
        let mut y: u32 = 0;
        while y < height
            invariant
                y <= height,
                matrix@.len() == y,
                forall|k: int| 0 <= k < y ==> (#[trigger] matrix@[k])@.len() == width,
                forall|k: int, x: int|
                    0 <= k < y && 0 <= x < width ==> #[trigger] matrix@[k]@[x] == Color::black(),
            decreases height - y,
        {
            let mut row: Vec<Color> = Vec::new();
            let mut x: u32 = 0;
            while x < width
                invariant
                    x <= width,
                    row@.len() == x,
                    forall|k: int| 0 <= k < x ==> #[trigger] row@[k] == Color::black(),
                decreases width - x,
            {
                row.push(Color::black());
                x = x + 1;
            }
            matrix.push(row);
            y = y + 1;
        }
        Image { width, height, matrix }
    }
    /// The raster as bytes, three (R, G, B) per pixel, rows top to bottom and
    /// pixels left to right within a row.
    pub fn convert_to_one_row_array(&self) -> (bytes: Vec<u8>)
        ensures
            bytes@ == raster_bytes(self.pixels()),
            self.wf() ==> bytes@.len() == 3 * self.width * self.height,
            self.wf() ==> forall|x: int, y: int|
                0 <= x < self.width && 0 <= y < self.height ==> bytes@.subrange(
                    3 * (y * self.width + x),
                    3 * (y * self.width + x) + 3,
                ) == color_bytes(#[trigger] self.pixel(x, y)),
    {
        let mut bytes: Vec<u8> = Vec::new();
        let mut y: usize = 0;
        while y < self.matrix.len()
            invariant
                y <= self.matrix@.len(),
                bytes@ == raster_bytes(self.pixels().take(y as int)),
            decreases self.matrix@.len() - y,
        {
            let row = &self.matrix[y];
            let mut x: usize = 0;
            while x < row.len()
                invariant
                    y < self.matrix@.len(),
                    row == self.matrix@[y as int],
                    x <= row@.len(),
                    bytes@ == raster_bytes(self.pixels().take(y as int)) + row_bytes(
                        row@.take(x as int),
                    ),
                decreases row@.len() - x,
            {
                let c = row[x];
                bytes.push(#[verifier::truncate] (c.r as u8));
                bytes.push(#[verifier::truncate] (c.g as u8));
                bytes.push(#[verifier::truncate] (c.b as u8));
                proof {
                    assert(row@.take(x + 1).drop_last() =~= row@.take(x as int));
                }
                x = x + 1;
            }
            proof {
                assert(row@.take(x as int) =~= row@);
                assert(self.pixels().take(y + 1).drop_last() =~= self.pixels().take(y as int));
            }
            y = y + 1;
        }
        proof {
            assert(self.pixels().take(y as int) =~= self.pixels());
            if self.wf() {
                let rows = self.pixels();
                assert forall|k: int| 0 <= k < rows.len() implies (#[trigger] rows[k]).len()
                    == self.width by {
                    assert(rows[k] == self.matrix@[k]@);
                }
                lemma_raster_bytes(rows, self.width as int);
                assert forall|x: int, y: int|
                    0 <= x < self.width && 0 <= y < self.height implies bytes@.subrange(
                    3 * (y * self.width + x),
                    3 * (y * self.width + x) + 3,
                ) == color_bytes(#[trigger] self.pixel(x, y)) by {
                    assert(rows[y][x] == self.pixel(x, y));
                }
            }
        }
        bytes
    }
}

} // verus!
