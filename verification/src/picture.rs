//! Pictures: rows of pixels as a mathematical value, and the packed three-channel
//! image that holds one.
use vstd::arithmetic::div_mod::lemma_fundamental_div_mod;
use vstd::arithmetic::mul::lemma_mul_inequality;
use vstd::prelude::*;

verus! {

/// Red, green and blue.
pub type Rgb = (u8, u8, u8);

/// A picture: `height` rows of `width` pixels.
#[verifier::ext_equal]
pub struct Picture {
    pub width: nat,
    pub height: nat,
    pub rows: Seq<Seq<Rgb>>,
}

impl Picture {
    /// The picture of the given size whose pixel at column `x` of row `y` is
    /// `pixel(x, y)`.
    pub open spec fn new(width: nat, height: nat, pixel: spec_fn(int, int) -> Rgb) -> Picture {
        Picture {
            width,
            height,
            rows: Seq::new(height, |y: int| Seq::new(width, |x: int| pixel(x, y))),
        }
    }

    /// The pixel at column `x` of row `y`.
    pub open spec fn at(self, x: int, y: int) -> Rgb {
        self.rows[y][x]
    }

    /// Whether column `x` of row `y` lies in the picture.
    pub open spec fn has(self, x: int, y: int) -> bool {
        0 <= x < self.width && 0 <= y < self.height
    }

    /// The part of the picture that starts at column `x`, row `y`.
    pub open spec fn part(self, x: int, y: int, width: nat, height: nat) -> Picture {
        Picture::new(width, height, |i: int, j: int| self.at(x + i, y + j))
    }
}

/// An image of three bytes a pixel, row after row.
#[derive(Debug)]
pub struct RgbImage {
    pub width: u32,
    pub height: u32,
    pub pixels: Vec<u8>,
}

/// Where the bytes of column `x` of row `y` start.
pub open spec fn pixel_start(width: int, x: int, y: int) -> int {
    3 * cell(width, x, y)
}

impl RgbImage {
    /// Every pixel of the image has its three bytes.
    pub open spec fn wf(self) -> bool {
        3 * (self.width * self.height) <= self.pixels@.len()
    }

    /// The pixel at column `x` of row `y`.
    pub open spec fn pixel(self, x: int, y: int) -> Rgb {
        let start = pixel_start(self.width as int, x, y);
        (self.pixels@[start], self.pixels@[start + 1], self.pixels@[start + 2])
    }

    /// The pixel at column `x` of row `y`.
    pub fn get_pixel(&self, x: u32, y: u32) -> (pixel: Rgb)
        requires
            self.wf(),
            x < self.width,
            y < self.height,
        ensures
            pixel == self.pixel(x as int, y as int),
            pixel == self@.at(x as int, y as int),
    {
        let start: usize = self.start_of(x, y);
        (self.pixels[start], self.pixels[start + 1], self.pixels[start + 2])
    }

    /// Replaces the pixel at column `x` of row `y`.
    pub fn set_pixel(&mut self, x: u32, y: u32, pixel: Rgb)
        requires
            old(self).wf(),
            x < old(self).width,
            y < old(self).height,
        ensures
            final(self).wf(),
            final(self).width == old(self).width,
            final(self).height == old(self).height,
            final(self).pixels@.len() == old(self).pixels@.len(),
            final(self).pixels@.skip(3 * (old(self).width * old(self).height)) == old(
                self,
            ).pixels@.skip(3 * (old(self).width * old(self).height)),
            forall|i: int, j: int|
                #![trigger final(self).pixel(i, j)]
                old(self)@.has(i, j) ==> final(self).pixel(i, j) == if i == x && j == y {
                    pixel
                } else {
                    old(self).pixel(i, j)
                },
    {
        let start: usize = self.start_of(x, y);
        let ghost before = *self;
        self.pixels.set(start, pixel.0);
        self.pixels.set(start + 1, pixel.1);
        self.pixels.set(start + 2, pixel.2);
        proof {
            let end = 3 * (before.width * before.height);
            assert(self.pixels@.skip(end) =~= before.pixels@.skip(end));
            assert forall|i: int, j: int|
                #![trigger self.pixel(i, j)]
                before@.has(i, j) implies self.pixel(i, j) == if i == x && j == y {
                pixel
            } else {
                before.pixel(i, j)
            } by {
                cell_is_inside(before.width as int, before.height as int, i, j);
                if i != x || j != y {
                    cells_are_apart(before.width as int, i, j, x as int, y as int);
                }
            }
        }
    }

    /// Where the bytes of column `x` of row `y` start.
    fn start_of(&self, x: u32, y: u32) -> (start: usize)
        requires
            self.wf(),
            x < self.width,
            y < self.height,
        ensures
            start == pixel_start(self.width as int, x as int, y as int),
            start + 3 <= 3 * (self.width * self.height) <= self.pixels.len(),
    {
        proof {
            assert(self.pixels.len() == self.pixels@.len());
            cell_is_inside(self.width as int, self.height as int, x as int, y as int);
            assert(0 <= y * self.width) by (nonlinear_arith);
        }
        3 * (y as usize * self.width as usize + x as usize)
    }
}

impl View for RgbImage {
    type V = Picture;

    open spec fn view(&self) -> Picture {
        Picture::new(self.width as nat, self.height as nat, |x: int, y: int| self.pixel(x, y))
    }
}

/// A pixel of a picture, counted row after row.
pub open spec fn cell(width: int, x: int, y: int) -> int {
    y * width + x
}

/// The pixels of a picture are counted from zero, and there are `width * height`.
pub proof fn cell_is_inside(width: int, height: int, x: int, y: int)
    requires
        0 <= x < width,
        0 <= y < height,
    ensures
        0 <= cell(width, x, y) < width * height,
{
    assert(y * width + width <= width * height) by (nonlinear_arith)
        requires
            0 <= y < height,
            0 <= width,
    ;
    assert(0 <= y * width) by (nonlinear_arith)
        requires
            0 <= y,
            0 <= width,
    ;
}

/// Two pixels of a picture are counted apart.
pub proof fn cells_are_apart(width: int, x: int, y: int, i: int, j: int)
    requires
        0 <= x < width,
        0 <= i < width,
        x != i || y != j,
    ensures
        cell(width, x, y) != cell(width, i, j),
{
    if y < j {
        lemma_mul_inequality(y + 1, j, width);
        assert((y + 1) * width == y * width + width) by (nonlinear_arith);
    } else if j < y {
        lemma_mul_inequality(j + 1, y, width);
        assert((j + 1) * width == j * width + width) by (nonlinear_arith);
    }
}

/// An image whose pixels are those of `pixel` holds the picture of `pixel`.
pub proof fn picture_of(image: RgbImage, pixel: spec_fn(int, int) -> Rgb)
    requires
        forall|x: int, y: int|
            #![trigger image.pixel(x, y)]
            0 <= x < image.width && 0 <= y < image.height ==> image.pixel(x, y) == pixel(x, y),
    ensures
        image@ == Picture::new(image.width as nat, image.height as nat, pixel),
{
    let picture = Picture::new(image.width as nat, image.height as nat, pixel);
    assert forall|y: int| 0 <= y < image.height implies #[trigger] image@.rows[y]
        == picture.rows[y] by {
        assert forall|x: int| 0 <= x < image.width implies #[trigger] image@.rows[y][x]
            == picture.rows[y][x] by {
            assert(image.pixel(x, y) == pixel(x, y));
        }
        assert(image@.rows[y] =~= picture.rows[y]);
    }
    assert(image@.rows =~= picture.rows);
}

/// The bytes of a picture: three a pixel, row after row.
pub open spec fn bytes_of(picture: Picture) -> Seq<u8> {
    Seq::new(
        3 * (picture.width * picture.height),
        |i: int|
            {
                let pixel = picture.at(
                    (i / 3) % (picture.width as int),
                    (i / 3) / (picture.width as int),
                );
                if i % 3 == 0 {
                    pixel.0
                } else if i % 3 == 1 {
                    pixel.1
                } else {
                    pixel.2
                }
            },
    )
}

/// The bytes of an image's picture are the ones that the image begins with.
pub proof fn image_begins_with_its_bytes(image: RgbImage)
    requires
        image.wf(),
    ensures
        bytes_of(image@) == image.pixels@.take(3 * (image.width * image.height)),
{
    let w = image.width as int;
    let h = image.height as int;
    let bytes = bytes_of(image@);
    let held = image.pixels@.take(3 * (w * h));
    assert(0 <= w * h) by (nonlinear_arith)
        requires
            0 <= w,
            0 <= h,
    ;
    assert forall|i: int| 0 <= i < bytes.len() implies bytes[i] == held[i] by {
        let k = i / 3;
        assert(w > 0) by (nonlinear_arith)
            requires
                0 <= k < w * h,
                0 <= w,
        ;
        let x = k % w;
        let y = k / w;
        lemma_fundamental_div_mod(k, w);
        assert(0 <= x < w && 0 <= y < h && y * w + x == k) by (nonlinear_arith)
            requires
                k == w * y + x,
                x == k % w,
                y == k / w,
                0 <= k < w * h,
                w > 0,
        ;
        assert(image@.at(x, y) == image.pixel(x, y));
    }
    assert(bytes =~= held);
}

/// An image holds its pixels row after row from the top, each row from the left: red,
/// green and blue, one byte each.
pub proof fn pixels_stand_row_after_row(image: RgbImage, x: int, y: int)
    requires
        0 <= x < image.width,
        0 <= y < image.height,
    ensures
        image@.width == image.width,
        image@.height == image.height,
        image@.at(x, y).0 == image.pixels@[3 * (y * image.width + x)],
        image@.at(x, y).1 == image.pixels@[3 * (y * image.width + x) + 1],
        image@.at(x, y).2 == image.pixels@[3 * (y * image.width + x) + 2],
        image.pixel(x, y) == image@.at(x, y),
{
}

/// A part of a picture shows the picture from the part's corner on.
pub proof fn parts_show_the_picture(
    picture: Picture,
    x: int,
    y: int,
    width: nat,
    height: nat,
    i: int,
    j: int,
)
    requires
        0 <= i < width,
        0 <= j < height,
    ensures
        picture.part(x, y, width, height).width == width,
        picture.part(x, y, width, height).height == height,
        picture.part(x, y, width, height).at(i, j) == picture.at(x + i, y + j),
{
}

/// The bytes of a picture stand row after row from the top, each row from the left: red,
/// green and blue of each pixel.
pub proof fn bytes_stand_row_after_row(picture: Picture, x: int, y: int)
    requires
        0 <= x < picture.width,
        0 <= y < picture.height,
    ensures
        bytes_of(picture).len() == 3 * (picture.width * picture.height),
        bytes_of(picture)[3 * (y * picture.width + x)] == picture.at(x, y).0,
        bytes_of(picture)[3 * (y * picture.width + x) + 1] == picture.at(x, y).1,
        bytes_of(picture)[3 * (y * picture.width + x) + 2] == picture.at(x, y).2,
{
    let w = picture.width as int;
    let k = y * w + x;
    cell_is_inside(w, picture.height as int, x, y);
    assert(k / w == y && k % w == x) by {
        vstd::arithmetic::div_mod::lemma_fundamental_div_mod_converse(k, w, y, x);
    }
    assert((3 * k) / 3 == k && (3 * k + 1) / 3 == k && (3 * k + 2) / 3 == k);
    assert(bytes_of(picture)[3 * k] == picture.at(x, y).0);
    assert(bytes_of(picture)[3 * k + 1] == picture.at(x, y).1);
    assert(bytes_of(picture)[3 * k + 2] == picture.at(x, y).2);
}

} // verus!
