use vstd::prelude::*;

use crate::gamma::{gamma_code, is_gamma_code};

verus! {

/// One 8-bit RGB pixel.
#[derive(Clone, Copy, Debug, PartialEq, Eq, Structural)]
pub struct Pixel {
    pub r: u8,
    pub g: u8,
    pub b: u8,
}

impl Pixel {
    /// The colour of a pixel that nothing has written yet: magenta.
    pub open spec fn unset() -> Pixel {
        Pixel { r: 255, g: 0, b: 255 }
    }

    /// A pixel in the unset colour, so that forgotten pixels stand out.
    pub fn new() -> (p: Pixel)
        ensures
            p == Pixel::unset(),
    {
        Pixel { r: 255, g: 0, b: 255 }
    }
}

/// What an image is: its dimensions and its rows of pixels, top row first.
pub struct ImageView {
    pub width: nat,
    pub height: nat,
    pub rows: Seq<Seq<Pixel>>,
}

impl ImageView {
    /// Both dimensions are positive and every row is `width` pixels long.
    pub open spec fn wf(self) -> bool {
        &&& self.width > 0
        &&& self.height > 0
        &&& self.rows.len() == self.height
        &&& forall|i: int| 0 <= i < self.height ==> #[trigger] self.rows[i].len() == self.width
    }

    /// The pixel in row `row` (from the top) and column `col` (from the left).
    pub open spec fn at(self, row: int, col: int) -> Pixel {
        self.rows[row][col]
    }
}

/// A raster of `height` rows of `width` pixels.
pub struct Image {
    width: usize,
    height: usize,
    pixels: Vec<Vec<Pixel>>,
}

impl View for Image {
    type V = ImageView;

    closed spec fn view(&self) -> ImageView {
        ImageView {
            width: self.width as nat,
            height: self.height as nat,
            rows: Seq::new(self.pixels@.len(), |i: int| self.pixels@[i]@),
        }
    }
}

impl Image {
    pub open spec fn wf(&self) -> bool {
        self@.wf()
    }

    /// An image of `height` rows and `width` columns, every pixel unset.
    pub fn new(height: usize, width: usize) -> (img: Image)
        requires
            height > 0,
            width > 0,
        ensures
            img.wf(),
            img@.height == height,
            img@.width == width,
            forall|i: int, j: int|
                0 <= i < height && 0 <= j < width ==> #[trigger] img@.at(i, j) == Pixel::unset(),
    {
        let mut pixels: Vec<Vec<Pixel>> = Vec::with_capacity(height);
        let mut i: usize = 0;
        while i < height
            invariant
                i <= height,
                pixels@.len() == i,
                forall|a: int| 0 <= a < i ==> #[trigger] pixels@[a]@ == Seq::new(width as nat, |_j: int| Pixel::unset()),
            decreases height - i,
        {
            let mut row: Vec<Pixel> = Vec::with_capacity(width);
            let mut j: usize = 0;
            while j < width
                invariant
                    j <= width,
                    row@ == Seq::new(j as nat, |_j: int| Pixel::unset()),
                decreases width - j,
            {
                row.push(Pixel::new());
                j = j + 1;
                assert(row@ =~= Seq::new(j as nat, |_j: int| Pixel::unset()));
            }
            pixels.push(row);
            i = i + 1;
        }
        Image { width, height, pixels }
    }

    /// A test pattern: red grows from 0 to full left to right, green from 0
    /// to full top to bottom, blue is off; each channel is gamma coded.
    pub fn sample_image(height: usize, width: usize) -> (img: Image)
        requires
            height > 0,
            width > 0,
        ensures
            img.wf(),
            img@.height == height,
            img@.width == width,
            forall|i: int, j: int|
                0 <= i < height && 0 <= j < width ==> {
                    let p = #[trigger] img@.at(i, j);
                    &&& is_gamma_code(p.r as int, j, width - 1)
                    &&& is_gamma_code(p.g as int, i, height - 1)
                    &&& p.b == 0
                },
    {
        let mut reds: Vec<u8> = Vec::with_capacity(width);
        let mut j: usize = 0;
        while j < width
            invariant
                j <= width,
                reds@.len() == j,
                forall|c: int| 0 <= c < j ==> is_gamma_code(#[trigger] reds@[c] as int, c, width - 1),
            decreases width - j,
        {
            reds.push(gamma_code(j, width - 1));
            j = j + 1;
        }
        let mut pixels: Vec<Vec<Pixel>> = Vec::with_capacity(height);
        let mut i: usize = 0;
        while i < height
            invariant
                i <= height,
                reds@.len() == width,
                forall|c: int| 0 <= c < width ==> is_gamma_code(#[trigger] reds@[c] as int, c, width - 1),
                pixels@.len() == i,
                forall|a: int| 0 <= a < i ==> (#[trigger] pixels@[a])@.len() == width,
                forall|a: int, c: int|
                    0 <= a < i && 0 <= c < width ==> {
                        let p = #[trigger] pixels@[a]@[c];
                        &&& is_gamma_code(p.r as int, c, width - 1)
                        &&& is_gamma_code(p.g as int, a, height - 1)
                        &&& p.b == 0
                    },
            decreases height - i,
        {
            let green = gamma_code(i, height - 1);
            let mut row: Vec<Pixel> = Vec::with_capacity(width);
            let mut j: usize = 0;
            while j < width
                invariant
                    j <= width,
                    reds@.len() == width,
                    row@.len() == j,
                    forall|c: int|
                        0 <= c < j ==> #[trigger] row@[c] == (Pixel { r: reds@[c], g: green, b: 0 }),
                decreases width - j,
            {
                row.push(Pixel { r: reds[j], g: green, b: 0 });
                j = j + 1;
            }
            pixels.push(row);
            i = i + 1;
        }
        Image { width, height, pixels }
    }

    pub fn width(&self) -> (w: usize)
        ensures
            w == self@.width,
    {
        self.width
    }

    pub fn height(&self) -> (h: usize)
        ensures
            h == self@.height,
    {
        self.height
    }

    /// The pixel at row `row`, column `col`.
    pub fn pixel(&self, row: usize, col: usize) -> (p: Pixel)
        requires
            self.wf(),
            row < self@.height,
            col < self@.width,
        ensures
            p == self@.at(row as int, col as int),
    {
        assert(self@.rows[row as int].len() == self.width);
        self.pixels[row][col]
    }

    /// Replaces every pixel from `colors`, given row by row: the pixel at
    /// row `i`, column `j` becomes `colors[i * width + j]`.
    pub fn set_pixels(&mut self, colors: Vec<Pixel>)
        requires
            old(self).wf(),
            colors@.len() == old(self)@.height * old(self)@.width,
        ensures
            final(self).wf(),
            final(self)@.width == old(self)@.width,
            final(self)@.height == old(self)@.height,
            forall|i: int, j: int|
                0 <= i < final(self)@.height && 0 <= j < final(self)@.width ==>
                    #[trigger] final(self)@.at(i, j) == colors@[i * final(self)@.width + j],
    {
        let width = self.width;
        let height = self.height;
        let total = colors.len();
        let mut pixels: Vec<Vec<Pixel>> = Vec::with_capacity(height);
        let mut k: usize = 0;
        let mut i: usize = 0;
        while i < height
            invariant
                i <= height,
                width > 0,
                colors@.len() == height * width,
                total == colors@.len(),
                k == i * width,
                pixels@.len() == i,
                forall|a: int| 0 <= a < i ==> (#[trigger] pixels@[a])@.len() == width,
                forall|a: int, c: int|
                    0 <= a < i && 0 <= c < width ==> #[trigger] pixels@[a]@[c] == colors@[a * width + c],
            decreases height - i,
        {
            proof {
                assert((i + 1) * width <= height * width) by (nonlinear_arith)
                    requires
                        i < height,
                ;
                assert((i + 1) * width == i * width + width) by (nonlinear_arith);
            }
            let mut row: Vec<Pixel> = Vec::with_capacity(width);
            let mut j: usize = 0;
            while j < width
                invariant
                    j <= width,
                    k + width <= total,
                    total == colors@.len(),
                    row@.len() == j,
                    forall|c: int| 0 <= c < j ==> #[trigger] row@[c] == colors@[k + c],
                decreases width - j,
            {
                row.push(colors[k + j]);
                j = j + 1;
            }
            pixels.push(row);
            k = k + width;
            i = i + 1;
        }
        self.pixels = pixels;
        assert(self@.rows.len() == height);
    }

    /// Writes `p` at row `row`, column `col`.
    pub fn set_pixel(&mut self, row: usize, col: usize, p: Pixel)
        requires
            old(self).wf(),
            row < old(self)@.height,
            col < old(self)@.width,
        ensures
            final(self).wf(),
            final(self)@.width == old(self)@.width,
            final(self)@.height == old(self)@.height,
            final(self)@.rows == old(self)@.rows.update(row as int, old(self)@.rows[row as int].update(col as int, p)),
    {
        assert(self@.rows[row as int].len() == self.width);
        self.pixels[row].set(col, p);
        assert(self@.rows =~= old(self)@.rows.update(row as int, old(self)@.rows[row as int].update(col as int, p)));
    }
}

} // verus!
