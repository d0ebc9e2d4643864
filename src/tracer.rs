use vstd::prelude::*;

use rayon::iter::{IntoParallelIterator, ParallelIterator};

use crate::color::Color;
use crate::image::Image;

verus! {

/// `img` is a `width` by `height` raster in which every pixel `(x, y)` holds
/// a color that `pixel` may return for `(x, y)`.
pub open spec fn rendered_by<F: Fn(u32, u32) -> Color>(
    img: Image,
    width: u32,
    height: u32,
    pixel: F,
) -> bool {
    &&& img.wf()
    &&& img.width == width
    &&& img.height == height
    &&& forall|x: int, y: int|
        0 <= x < width && 0 <= y < height ==> pixel.ensures(
            (x as u32, y as u32),
            #[trigger] img.pixel(x, y),
        )
}

/// `pixel` is a function of its arguments: it never returns two different
/// colors for the same pixel.
pub open spec fn deterministic<F: Fn(u32, u32) -> Color>(pixel: F) -> bool {
    forall|x: u32, y: u32, c: Color, d: Color|
        #[trigger] pixel.ensures((x, y), c) && #[trigger] pixel.ensures((x, y), d) ==> c == d
}

/// `row` holds `width` colors, and color `x` is one that `pixel` may return
/// for `(x, y)`.
pub open spec fn row_rendered<F: Fn(u32, u32) -> Color>(
    row: Seq<Color>,
    width: u32,
    y: u32,
    pixel: F,
) -> bool {
    &&& row.len() == width
    &&& forall|x: int| 0 <= x < width ==> pixel.ensures((x as u32, y), #[trigger] row[x])
}

/// `c` is a color that `pixel` may return for `(x, y)`.
pub open spec fn pixel_rendered<F: Fn(u32, u32) -> Color>(c: Color, x: u32, y: u32, pixel: F) -> bool {
    pixel.ensures((x, y), c)
}

/// Relies on rayon: `(0..count).into_par_iter().map(f).collect()` calls `f`
/// once on each index below `count` and collects the results into a vector in
/// index order.
#[verifier::external_body]
fn par_map_range<T: Send, F: Fn(u32) -> T + Sync + Send>(count: u32, f: F) -> (r: Vec<T>)
    requires
        forall|k: u32| k < count ==> #[trigger] f.requires((k,)),
    ensures
        r@.len() == count,
        forall|k: int| 0 <= k < count ==> f.ensures((k as u32,), #[trigger] r@[k]),
{
    (0..count).into_par_iter().map(f).collect()
}

/// The color that a pixel takes: that of the surface hit, or black where the
/// ray hits nothing.
pub fn pixel_color(hit: Option<Color>) -> (c: Color)
    ensures
        c == match hit {
            Some(h) => h,
            None => Color::black(),
        },
{
    match hit {
        Some(h) => h,
        None => Color::black(),
    }
}

/// `keys[k]` is the nearest hit: it is present, no present key is smaller,
/// and every present key before it is larger (the first of equal keys wins).
pub open spec fn is_nearest(keys: Seq<Option<u64>>, k: int) -> bool {
    &&& 0 <= k < keys.len()
    &&& keys[k] is Some
    &&& forall|i: int|
        0 <= i < keys.len() && (#[trigger] keys[i]) is Some ==> keys[k]->Some_0 <= keys[i]->Some_0
    &&& forall|i: int|
        0 <= i < k && (#[trigger] keys[i]) is Some ==> keys[k]->Some_0 < keys[i]->Some_0
}

/// Nearest-hit resolution. Each candidate is the ordering key of one
/// primitive's hit distance along the ray (smaller is nearer), or `None` where
/// that primitive is not hit in front of the ray origin. Returns the index of
/// the nearest hit, the first one on equal keys, or `None` where nothing is hit.
pub fn nearest_hit(keys: &Vec<Option<u64>>) -> (r: Option<usize>)
    ensures
        r is None <==> forall|i: int| 0 <= i < keys@.len() ==> (#[trigger] keys@[i]) is None,
        r matches Some(k) ==> is_nearest(keys@, k as int),
{
    let mut best: Option<usize> = None;
    let mut i: usize = 0;
    while i < keys.len()
        invariant
            i <= keys@.len(),
            best is None <==> forall|j: int| 0 <= j < i ==> (#[trigger] keys@[j]) is None,
            best matches Some(k) ==> is_nearest(keys@.take(i as int), k as int),
        decreases keys@.len() - i,
    {
        if let Some(t) = keys[i] {
            let closer = match best {
                None => true,
                Some(k) => match keys[k] {
                    Some(s) => t < s,
                    None => false,
                },
            };
            if closer {
                best = Some(i);
            }
        }
        proof {
            let prev = keys@.take(i as int);
            let next = keys@.take(i + 1);
            assert forall|j: int| 0 <= j < i implies #[trigger] next[j] == prev[j] by {}
            assert(next[i as int] == keys@[i as int]);
        }
        i = i + 1;
    }
    proof {
        assert(keys@.take(i as int) =~= keys@);
    }
    best
}

/// The renderer: casts one ray per pixel and assembles the raster.
#[derive(Debug)]
pub struct RayTracer {}

impl RayTracer {
    /// One row of the raster, left to right, computed in order.
    fn trace_row<F: Fn(u32, u32) -> Color>(width: u32, y: u32, pixel: &F) -> (row: Vec<Color>)
        requires
            forall|x: u32| x < width ==> #[trigger] pixel.requires((x, y)),
        ensures
            row@.len() == width,
            forall|x: int| 0 <= x < width ==> pixel.ensures((x as u32, y), #[trigger] row@[x]),
    {
        let mut row: Vec<Color> = Vec::new();
        let mut x: u32 = 0;
        while x < width
            invariant
                x <= width,
                row@.len() == x,
                forall|k: u32| k < width ==> #[trigger] pixel.requires((k, y)),
                forall|k: int| 0 <= k < x ==> pixel.ensures((k as u32, y), #[trigger] row@[k]),
            decreases width - x,
        {
            let c = pixel(x, y);
            row.push(c);
            x = x + 1;
        }
        row
    }

    /// Renders a `width` by `height` raster sequentially, in row-major order,
    /// giving pixel `(x, y)` the color `pixel(x, y)`.
    pub fn ray_trace<F: Fn(u32, u32) -> Color>(&self, width: u32, height: u32, pixel: F) -> (img:
        Image)
        requires
            forall|x: u32, y: u32| x < width && y < height ==> #[trigger] pixel.requires((x, y)),
        ensures
            rendered_by(img, width, height, pixel),
    {
        let mut matrix: Vec<Vec<Color>> = Vec::new();
        let mut y: u32 = 0;
        while y < height
            invariant
                y <= height,
                matrix@.len() == y,
                forall|x: u32, k: u32| x < width && k < height ==> #[trigger] pixel.requires((x, k)),
                forall|k: int| 0 <= k < y ==> (#[trigger] matrix@[k])@.len() == width,
                forall|x: int, k: int|
                    0 <= x < width && 0 <= k < y ==> pixel.ensures(
                        (x as u32, k as u32),
                        #[trigger] matrix@[k]@[x],
                    ),
            decreases height - y,
        {
            let row = Self::trace_row(width, y, &pixel);
            matrix.push(row);
            y = y + 1;
        }
        Image { width, height, matrix }
    }

    /// Renders a `width` by `height` raster on rayon's thread pool, rows and
    /// the pixels within a row in parallel, giving pixel `(x, y)` the color
    /// `pixel(x, y)`. Each pixel is written by exactly one task.
    pub fn ray_trace_par<F: Fn(u32, u32) -> Color + Sync + Send>(
        &self,
        width: u32,
        height: u32,
        pixel: F,
    ) -> (img: Image)
        requires
            forall|x: u32, y: u32| x < width && y < height ==> #[trigger] pixel.requires((x, y)),
        ensures
            rendered_by(img, width, height, pixel),
    {
        let pixel_ref = &pixel;
        let matrix = par_map_range(
            height,
            (|y: u32| -> (row: Vec<Color>)
                requires
                    y < height,
                ensures
                    row_rendered(row@, width, y, *pixel_ref),
                {
                    par_map_range(
                        width,
                        (|x: u32| -> (c: Color)
                            requires
                                x < width,
                            ensures
                                pixel_rendered(c, x, y, *pixel_ref),
                            { pixel_ref(x, y) }),
                    )
                }),
        );
        proof {
            assert forall|x: int, y: int| 0 <= x < width && 0 <= y < height implies pixel.ensures(
                (x as u32, y as u32),
                #[trigger] matrix@[y]@[x],
            ) by {
                assert(row_rendered(matrix@[y]@, width, y as u32, pixel));
            }
        }
        Image { width, height, matrix }
    }
}

/// Rendering is deterministic whenever the pixel function is: two rasters
/// rendered from the same function at the same size (sequentially or in
/// parallel) hold the same colors.
pub proof fn lemma_render_deterministic<F: Fn(u32, u32) -> Color>(
    pixel: F,
    width: u32,
    height: u32,
    a: Image,
    b: Image,
)
    requires
        deterministic(pixel),
        rendered_by(a, width, height, pixel),
        rendered_by(b, width, height, pixel),
    ensures
        a.width == b.width,
        a.height == b.height,
        a.pixels() == b.pixels(),
{
    assert forall|y: int| 0 <= y < height implies #[trigger] a.pixels()[y] == b.pixels()[y] by {
        assert forall|x: int| 0 <= x < width implies a.pixels()[y][x] == b.pixels()[y][x] by {
            assert(pixel.ensures((x as u32, y as u32), a.pixel(x, y)));
            assert(pixel.ensures((x as u32, y as u32), b.pixel(x, y)));
        }
        assert(a.pixels()[y] =~= b.pixels()[y]);
    }
    assert(a.pixels() =~= b.pixels());
}

} // verus!
