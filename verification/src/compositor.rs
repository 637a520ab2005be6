//! Turning a rendered page into the frame that fills the pane: unpacking its rows,
//! marking search hits, cutting off blank margins, and placing it.
use vstd::prelude::*;
use vstd::slice::slice_subrange;

use crate::geometry::{larger, smaller, GeometryError, WindowSize};
use crate::rounding::{deciding_side_fills_its_room, scale_side, scaled_side};
use crate::picture::{
    bytes_of, cell, cell_is_inside, cells_are_apart, image_begins_with_its_bytes, picture_of,
    Picture, Rgb, RgbImage,
};

verus! {

/// A rendered page: rows of three bytes a pixel, each row `row_stride` bytes after the
/// one before, and the places to highlight.
#[derive(Debug)]
pub struct PageImage {
    pub pixels: Vec<u8>,
    pub width: u32,
    pub height: u32,
    pub row_stride: usize,
    pub highlights: Vec<HighlightRect>,
}

/// A rectangle of pixels, without its right column and bottom row.
#[derive(Debug, Clone, Copy, PartialEq, Eq, Structural)]
pub struct HighlightRect {
    pub x0: u32,
    pub y0: u32,
    pub x1: u32,
    pub y1: u32,
}

/// How the page is moved and cropped before it is shown.
#[derive(Debug, Clone, Copy)]
pub struct ViewTransform {
    pub offset_x: u32,
    pub offset_y: u32,
    pub auto_crop: bool,
}

impl Default for ViewTransform {
    fn default() -> (transform: Self)
        ensures
            transform == (ViewTransform { offset_x: 0, offset_y: 0, auto_crop: false }),
    {
        ViewTransform { offset_x: 0, offset_y: 0, auto_crop: false }
    }
}

/// A frame that fills the page area, four bytes a pixel, and the size of what it shows
/// a part of.
#[derive(Debug)]
pub struct ComposedFrame {
    pub rgba: Vec<u8>,
    pub content_width: u32,
    pub content_height: u32,
}

/// Why a page cannot be shown.
#[derive(Debug, Clone, Copy, PartialEq, Eq, Structural)]
pub enum ComposeError {
    NoDrawablePixels,
    RowSizeOverflow,
    InvalidStride,
    BufferSizeOverflow,
    Truncated,
    EmptyPage,
    Viewport(GeometryError),
}

impl ComposeError {
    /// The words shown to the reader for this error.
    pub open spec fn words(self) -> Seq<char> {
        match self {
            ComposeError::NoDrawablePixels => "viewport has no drawable pixels"@,
            ComposeError::RowSizeOverflow => "page row size overflow"@,
            ComposeError::InvalidStride => "invalid page row stride"@,
            ComposeError::BufferSizeOverflow => "page buffer size overflow"@,
            ComposeError::Truncated => "page pixel buffer is truncated"@,
            ComposeError::EmptyPage => "page image is empty"@,
            ComposeError::Viewport(error) => error.words(),
        }
    }

    /// The words shown to the reader for this error.
    pub fn message(&self) -> (text: String)
        ensures
            text@ == self.words(),
    {
        match self {
            ComposeError::NoDrawablePixels => "viewport has no drawable pixels".to_owned(),
            ComposeError::RowSizeOverflow => "page row size overflow".to_owned(),
            ComposeError::InvalidStride => "invalid page row stride".to_owned(),
            ComposeError::BufferSizeOverflow => "page buffer size overflow".to_owned(),
            ComposeError::Truncated => "page pixel buffer is truncated".to_owned(),
            ComposeError::EmptyPage => "page image is empty".to_owned(),
            ComposeError::Viewport(error) => error.message(),
        }
    }
}

/// What a rendered page holds.
#[verifier::ext_equal]
pub struct PageView {
    pub pixels: Seq<u8>,
    pub width: u32,
    pub height: u32,
    pub row_stride: usize,
    pub highlights: Seq<HighlightRect>,
}

impl View for PageImage {
    type V = PageView;

    open spec fn view(&self) -> PageView {
        PageView {
            pixels: self.pixels@,
            width: self.width,
            height: self.height,
            row_stride: self.row_stride,
            highlights: self.highlights@,
        }
    }
}

impl Clone for PageImage {
    fn clone(&self) -> (copy: Self)
        ensures
            copy@ == self@,
    {
        let copy = PageImage {
            pixels: self.pixels.clone(),
            width: self.width,
            height: self.height,
            row_stride: self.row_stride,
            highlights: self.highlights.clone(),
        };
        proof {
            assert(copy.pixels@ =~= self.pixels@);
            assert(copy.highlights@ =~= self.highlights@);
        }
        copy
    }
}

impl PageView {
    /// The picture on the page, without its highlights.
    pub open spec fn picture(self) -> Picture {
        Picture::new(
            self.width as nat,
            self.height as nat,
            |x: int, y: int|
                {
                    let start = y * self.row_stride + 3 * x;
                    (self.pixels[start], self.pixels[start + 1], self.pixels[start + 2])
                },
        )
    }

    /// What is wrong with the page's rows, the first fault found.
    pub open spec fn fault(self) -> Option<ComposeError> {
        if 3 * self.width > usize::MAX {
            Some(ComposeError::RowSizeOverflow)
        } else if self.row_stride < 3 * self.width {
            Some(ComposeError::InvalidStride)
        } else if self.row_stride * self.height > usize::MAX {
            Some(ComposeError::BufferSizeOverflow)
        } else if self.pixels.len() < self.row_stride * self.height {
            Some(ComposeError::Truncated)
        } else {
            None
        }
    }
}

/// The first `len` bytes of each of `rows` rows, where the first row starts at `base`
/// and each row starts `stride` bytes after the one before.
pub open spec fn packed_rows(
    pixels: Seq<u8>,
    base: int,
    stride: int,
    len: int,
    rows: nat,
) -> Seq<u8>
    decreases rows,
{
    if rows == 0 {
        Seq::empty()
    } else {
        let start = base + (rows - 1) * stride;
        packed_rows(pixels, base, stride, len, (rows - 1) as nat) + pixels.subrange(
            start,
            start + len,
        )
    }
}

/// Byte `i` of packed row `y` is byte `i` of row `y`.
proof fn packed_byte(
    pixels: Seq<u8>,
    base: int,
    stride: int,
    len: int,
    rows: nat,
    y: int,
    i: int,
)
    requires
        0 <= base,
        0 <= len <= stride,
        rows == 0 || base + (rows - 1) * stride + len <= pixels.len(),
        0 <= y < rows,
        0 <= i < len,
    ensures
        packed_rows(pixels, base, stride, len, rows).len() == rows * len,
        0 <= y * len + i < rows * len,
        0 <= base + y * stride + i < pixels.len(),
        packed_rows(pixels, base, stride, len, rows)[y * len + i] == pixels[base + y * stride + i],
    decreases rows,
{
    assert((rows - 2) * stride <= (rows - 1) * stride) by (nonlinear_arith)
        requires
            0 <= stride,
    ;
    packed_len(pixels, base, stride, len, rows);
    packed_len(pixels, base, stride, len, (rows - 1) as nat);
    assert(y * len + len <= rows * len) by (nonlinear_arith)
        requires
            0 <= y < rows,
            0 <= len,
    ;
    assert(0 <= y * len) by (nonlinear_arith)
        requires
            0 <= y,
            0 <= len,
    ;
    assert(0 <= y * stride <= (rows - 1) * stride) by (nonlinear_arith)
        requires
            0 <= y <= rows - 1,
            0 <= stride,
    ;
    assert((rows - 1) * len == rows * len - len) by (nonlinear_arith);
    if y < rows - 1 {
        packed_byte(pixels, base, stride, len, (rows - 1) as nat, y, i);
    }
}

proof fn packed_len(pixels: Seq<u8>, base: int, stride: int, len: int, rows: nat)
    requires
        0 <= base,
        0 <= len <= stride,
        rows == 0 || base + (rows - 1) * stride + len <= pixels.len(),
    ensures
        packed_rows(pixels, base, stride, len, rows).len() == rows * len,
    decreases rows,
{
    if rows == 0 {
        assert(0 * len == 0);
    } else {
        assert((rows - 1) * len == rows * len - len) by (nonlinear_arith);
        assert(0 <= (rows - 1) * stride) by (nonlinear_arith)
            requires
                0 <= stride,
                rows >= 1,
        ;
        if rows >= 2 {
            assert((rows - 2) * stride <= (rows - 1) * stride) by (nonlinear_arith)
                requires
                    0 <= stride,
            ;
        }
        packed_len(pixels, base, stride, len, (rows - 1) as nat);
    }
}

/// Copies the first `len` bytes of each of `rows` rows.
fn pack_rows(pixels: &Vec<u8>, base: usize, stride: usize, len: usize, rows: u32) -> (packed: Vec<
    u8,
>)
    requires
        len <= stride,
        rows == 0 || base + (rows - 1) * stride + len <= pixels@.len(),
    ensures
        packed@ == packed_rows(pixels@, base as int, stride as int, len as int, rows as nat),
{
    let mut packed: Vec<u8> = Vec::new();
    let mut row: u32 = 0;
    let mut start: usize = base;
    while row < rows
        invariant
            row <= rows,
            len <= stride,
            rows == 0 || base + (rows - 1) * stride + len <= pixels@.len(),
            row < rows ==> start == base + row * stride,
            packed@ == packed_rows(pixels@, base as int, stride as int, len as int, row as nat),
        decreases rows - row,
    {
        proof {
            assert(pixels.len() == pixels@.len());
            assert(row * stride <= (rows - 1) * stride) by (nonlinear_arith)
                requires
                    row <= rows - 1,
                    0 <= stride,
            ;
        }
        let ghost before = packed@;
        packed.extend_from_slice(slice_subrange(pixels.as_slice(), start, start + len));
        proof {
            assert(packed@ =~= before + pixels@.subrange(start as int, start + len));
            assert((row + 1) * stride == row * stride + stride) by (nonlinear_arith);
        }
        row = row + 1;
        if row < rows {
            proof {
                assert(row * stride <= (rows - 1) * stride) by (nonlinear_arith)
                    requires
                        row <= rows - 1,
                        0 <= stride,
                ;
            }
            start = start + stride;
        }
    }
    packed
}

impl PageImage {
    /// The page as a packed image.
    pub fn into_rgb(self) -> (image: Result<RgbImage, ComposeError>)
        ensures
            match image {
                Err(error) => self@.fault() == Some(error),
                Ok(image) => {
                    &&& self@.fault() is None
                    &&& image.wf()
                    &&& image@ == self@.picture()
                    &&& image.pixels@ == if self.row_stride == 3 * self.width {
                        self.pixels@
                    } else {
                        packed_rows(
                            self.pixels@,
                            0,
                            self.row_stride as int,
                            3 * self.width,
                            self.height as nat,
                        )
                    }
                },
            },
    {
        let tight_stride: usize = match (self.width as usize).checked_mul(3) {
            Some(tight_stride) => tight_stride,
            None => {
                return Err(ComposeError::RowSizeOverflow);
            },
        };
        if self.row_stride < tight_stride {
            return Err(ComposeError::InvalidStride);
        }
        let required: usize = match self.row_stride.checked_mul(self.height as usize) {
            Some(required) => required,
            None => {
                return Err(ComposeError::BufferSizeOverflow);
            },
        };
        if self.pixels.len() < required {
            return Err(ComposeError::Truncated);
        }
        let ghost page = self@;
        proof {
            assert(3 * (self.width * self.height) <= self.row_stride * self.height)
                by (nonlinear_arith)
                requires
                    3 * self.width <= self.row_stride,
            ;
            if self.height > 0 {
                assert((self.height - 1) * self.row_stride == self.row_stride * self.height
                    - self.row_stride) by (nonlinear_arith);
            }
            packed_len_of(page);
        }
        let image = if self.row_stride == tight_stride {
            RgbImage { width: self.width, height: self.height, pixels: self.pixels }
        } else {
            RgbImage {
                width: self.width,
                height: self.height,
                pixels: pack_rows(&self.pixels, 0, self.row_stride, tight_stride, self.height),
            }
        };
        proof {
            let pixel = |x: int, y: int|
                {
                    let start = y * page.row_stride + 3 * x;
                    (page.pixels[start], page.pixels[start + 1], page.pixels[start + 2])
                };
            let tight = tight_stride as int;
            assert forall|x: int, y: int|
                #![trigger image.pixel(x, y)]
                0 <= x < image.width && 0 <= y < image.height implies image.pixel(x, y) == pixel(
                x,
                y,
            ) by {
                assert(3 * cell(page.width as int, x, y) == y * tight + 3 * x) by (nonlinear_arith)
                    requires
                        tight == 3 * page.width,
                        cell(page.width as int, x, y) == y * page.width + x,
                ;
                if page.row_stride != tight {
                    let stride = page.row_stride as int;
                    let rows = page.height as nat;
                    packed_byte(page.pixels, 0, stride, tight, rows, y, 3 * x);
                    packed_byte(page.pixels, 0, stride, tight, rows, y, 3 * x + 1);
                    packed_byte(page.pixels, 0, stride, tight, rows, y, 3 * x + 2);
                }
            }
            picture_of(image, pixel);
            assert(image@ == page.picture());
        }
        Ok(image)
    }
}

proof fn packed_len_of(page: PageView)
    requires
        page.fault() is None,
    ensures
        page.row_stride * page.height <= page.pixels.len(),
        packed_rows(
            page.pixels,
            0,
            page.row_stride as int,
            3 * page.width,
            page.height as nat,
        ).len() == 3 * (page.width * page.height),
{
    if page.height > 0 {
        assert((page.height - 1) * page.row_stride == page.row_stride * page.height
            - page.row_stride) by (nonlinear_arith);
    }
    packed_len(page.pixels, 0, page.row_stride as int, 3 * page.width, page.height as nat);
    assert(page.height * (3 * page.width) == 3 * (page.width * page.height)) by (nonlinear_arith);
}

/// Brightness added to red and green where a search hit is marked.
pub const HIGHLIGHT_GAIN: u8 = 80;

/// A pixel marked once: brighter red and green, half the blue.
pub open spec fn marked(pixel: Rgb) -> Rgb {
    (
        smaller(pixel.0 + HIGHLIGHT_GAIN, 255) as u8,
        smaller(pixel.1 + HIGHLIGHT_GAIN, 255) as u8,
        pixel.2 / 2,
    )
}

impl HighlightRect {
    /// Whether the rectangle covers column `x` of row `y`.
    pub open spec fn covers(self, x: int, y: int) -> bool {
        self.x0 <= x < self.x1 && self.y0 <= y < self.y1
    }
}

/// A pixel after the first `count` rectangles have marked it, each one that covers it
/// once.
pub open spec fn marked_by(
    pixel: Rgb,
    rects: Seq<HighlightRect>,
    count: nat,
    x: int,
    y: int,
) -> Rgb
    decreases count,
{
    if count == 0 {
        pixel
    } else {
        let before = marked_by(pixel, rects, (count - 1) as nat, x, y);
        if rects[count - 1].covers(x, y) {
            marked(before)
        } else {
            before
        }
    }
}

/// A picture with its search hits marked.
pub open spec fn highlighted(picture: Picture, rects: Seq<HighlightRect>) -> Picture {
    Picture::new(
        picture.width,
        picture.height,
        |x: int, y: int| marked_by(picture.at(x, y), rects, rects.len(), x, y),
    )
}

/// Marks the pixels that the rectangles cover.
pub fn apply_highlights(image: &mut RgbImage, highlights: &Vec<HighlightRect>)
    requires
        old(image).wf(),
    ensures
        final(image).wf(),
        final(image)@ == highlighted(old(image)@, highlights@),
        final(image).pixels@.len() == old(image).pixels@.len(),
{
    let ghost before = *image;
    let ghost rects = highlights@;
    let mut index: usize = 0;
    while index < highlights.len()
        invariant
            rects == highlights@,
            index <= rects.len(),
            image.wf(),
            image.width == before.width,
            image.height == before.height,
            image.pixels@.len() == before.pixels@.len(),
            forall|i: int, j: int|
                #![trigger image.pixel(i, j)]
                before@.has(i, j) ==> image.pixel(i, j) == marked_by(
                    before.pixel(i, j),
                    rects,
                    index as nat,
                    i,
                    j,
                ),
        decreases rects.len() - index,
    {
        let rect: HighlightRect = highlights[index];
        let x0: u32 = rect.x0.min(image.width);
        let x1: u32 = rect.x1.min(image.width);
        let y0: u32 = rect.y0.min(image.height);
        let y1: u32 = rect.y1.min(image.height);
        let mut y: u32 = y0;
        while y < y1
            invariant
                rects == highlights@,
                index < rects.len(),
                rect == rects[index as int],
                image.wf(),
                image.width == before.width,
                image.height == before.height,
                image.pixels@.len() == before.pixels@.len(),
                x0 == smaller(rect.x0 as int, before.width as int),
                x1 == smaller(rect.x1 as int, before.width as int),
                y0 == smaller(rect.y0 as int, before.height as int),
                y1 == smaller(rect.y1 as int, before.height as int),
                y0 <= y,
                y0 < y1 ==> y <= y1,
                forall|i: int, j: int|
                    #![trigger image.pixel(i, j)]
                    before@.has(i, j) ==> image.pixel(i, j) == marked_by(
                        before.pixel(i, j),
                        rects,
                        if j < y {
                            (index + 1) as nat
                        } else {
                            index as nat
                        },
                        i,
                        j,
                    ),
            decreases y1 - y,
        {
            let mut x: u32 = x0;
            while x < x1
                invariant
                    rects == highlights@,
                    index < rects.len(),
                    rect == rects[index as int],
                    image.wf(),
                    image.width == before.width,
                    image.height == before.height,
                    image.pixels@.len() == before.pixels@.len(),
                    x0 == smaller(rect.x0 as int, before.width as int),
                    x1 == smaller(rect.x1 as int, before.width as int),
                    y0 == smaller(rect.y0 as int, before.height as int),
                    y1 == smaller(rect.y1 as int, before.height as int),
                    y0 <= y < y1,
                    x0 <= x,
                    x0 < x1 ==> x <= x1,
                    forall|i: int, j: int|
                        #![trigger image.pixel(i, j)]
                        before@.has(i, j) ==> image.pixel(i, j) == marked_by(
                            before.pixel(i, j),
                            rects,
                            if j < y || (j == y && i < x) {
                                (index + 1) as nat
                            } else {
                                index as nat
                            },
                            i,
                            j,
                        ),
                decreases x1 - x,
            {
                let pixel: Rgb = image.get_pixel(x, y);
                let ghost held = *image;
                proof {
                    assert(held.pixel(x as int, y as int) == pixel);
                }
                image.set_pixel(
                    x,
                    y,
                    (
                        pixel.0.saturating_add(HIGHLIGHT_GAIN),
                        pixel.1.saturating_add(HIGHLIGHT_GAIN),
                        pixel.2 / 2,
                    ),
                );
                x = x + 1;
                proof {
                    assert forall|i: int, j: int|
                        #![trigger image.pixel(i, j)]
                        before@.has(i, j) implies image.pixel(i, j) == marked_by(
                        before.pixel(i, j),
                        rects,
                        if j < y || (j == y && i < x) {
                            (index + 1) as nat
                        } else {
                            index as nat
                        },
                        i,
                        j,
                    ) by {
                        assert(held@.has(i, j));
                        let _ = held.pixel(i, j);
                    }
                }
            }
            y = y + 1;
        }
        index = index + 1;
    }
    proof {
        picture_of(
            *image,
            |x: int, y: int| marked_by(before@.at(x, y), rects, rects.len(), x, y),
        );
    }
}

/// A channel below this value is ink.
pub const INK_THRESHOLD: u8 = 240;

/// Pixels of blank margin that cropping leaves around the ink.
pub const CROP_MARGIN: u32 = 8;

/// Whether a pixel holds ink: a channel that is not nearly white.
pub open spec fn is_ink(pixel: Rgb) -> bool {
    pixel.0 < INK_THRESHOLD || pixel.1 < INK_THRESHOLD || pixel.2 < INK_THRESHOLD
}

impl Picture {
    /// Whether there is ink at column `x` of row `y`.
    pub open spec fn ink(self, x: int, y: int) -> bool {
        self.has(x, y) && is_ink(self.at(x, y))
    }

    /// Whether `(left, top, right, bottom)` is the smallest box, its edges included,
    /// that holds all ink of the picture.
    pub open spec fn is_ink_box(self, bounds: (int, int, int, int)) -> bool {
        &&& forall|x: int, y: int| #[trigger]
            self.ink(x, y) ==> bounds.0 <= x <= bounds.2 && bounds.1 <= y <= bounds.3
        &&& exists|y: int| #[trigger] self.ink(bounds.0, y)
        &&& exists|x: int| #[trigger] self.ink(x, bounds.1)
        &&& exists|y: int| #[trigger] self.ink(bounds.2, y)
        &&& exists|x: int| #[trigger] self.ink(x, bounds.3)
    }

    /// Whether the picture holds any ink.
    pub open spec fn has_ink(self) -> bool {
        exists|x: int, y: int| #[trigger] self.ink(x, y)
    }

    /// The part that cropping keeps: the ink and a margin around it, as far as the
    /// picture reaches. Column, row, width and height; nothing where there is no ink.
    pub open spec fn kept_part(self) -> Option<(int, int, int, int)> {
        if self.has_ink() {
            let bounds = choose|bounds: (int, int, int, int)| self.is_ink_box(bounds);
            let x0 = larger(bounds.0 - CROP_MARGIN, 0);
            let y0 = larger(bounds.1 - CROP_MARGIN, 0);
            let x1 = smaller(bounds.2 + CROP_MARGIN + 1, self.width as int);
            let y1 = smaller(bounds.3 + CROP_MARGIN + 1, self.height as int);
            Some((x0, y0, x1 - x0, y1 - y0))
        } else {
            None
        }
    }

    /// The picture without its blank margins; all of it where it holds no ink.
    pub open spec fn cropped(self) -> Picture {
        match self.kept_part() {
            Some((x, y, width, height)) => self.part(x, y, width as nat, height as nat),
            None => self,
        }
    }
}

/// A picture has one smallest box of ink.
pub proof fn ink_box_is_unique(
    picture: Picture,
    a: (int, int, int, int),
    b: (int, int, int, int),
)
    requires
        picture.is_ink_box(a),
        picture.is_ink_box(b),
    ensures
        a == b,
{
}

/// Of the numbers below `end` with a property, there is a least and a greatest.
proof fn extremes(property: spec_fn(int) -> bool, end: nat, witness: int) -> (found: (int, int))
    requires
        0 <= witness < end,
        property(witness),
    ensures
        0 <= found.0 <= found.1 < end,
        property(found.0),
        property(found.1),
        forall|k: int| 0 <= k < end && #[trigger] property(k) ==> found.0 <= k <= found.1,
    decreases end,
{
    if exists|k: int| 0 <= k < end - 1 && #[trigger] property(k) {
        let k = choose|k: int| 0 <= k < end - 1 && #[trigger] property(k);
        let below = extremes(property, (end - 1) as nat, k);
        if property(end - 1) {
            (below.0, end - 1)
        } else {
            below
        }
    } else {
        (end - 1, end - 1)
    }
}

/// A picture with ink has a smallest box that holds it.
pub proof fn ink_box_exists(picture: Picture)
    requires
        picture.has_ink(),
    ensures
        exists|bounds: (int, int, int, int)| #[trigger] picture.is_ink_box(bounds),
{
    let (x, y) = choose|x: int, y: int| #[trigger] picture.ink(x, y);
    let in_column = |x: int| exists|y: int| #[trigger] picture.ink(x, y);
    let in_row = |y: int| exists|x: int| #[trigger] picture.ink(x, y);
    assert(in_column(x));
    assert(in_row(y));
    let columns = extremes(in_column, picture.width, x);
    let rows = extremes(in_row, picture.height, y);
    let bounds = (columns.0, rows.0, columns.1, rows.1);
    assert forall|i: int, j: int| #[trigger] picture.ink(i, j) implies bounds.0 <= i <= bounds.2
        && bounds.1 <= j <= bounds.3 by {
        assert(in_column(i));
        assert(in_row(j));
    }
    assert(picture.is_ink_box(bounds));
}

/// The part that cropping keeps of a picture with ink is not empty and lies inside the
/// picture.
pub proof fn kept_part_is_inside(picture: Picture)
    requires
        picture.has_ink(),
    ensures
        picture.kept_part() is Some,
        ({
            let (x, y, width, height) = picture.kept_part()->0;
            &&& 0 <= x
            &&& 0 <= y
            &&& 1 <= width
            &&& 1 <= height
            &&& x + width <= picture.width
            &&& y + height <= picture.height
        }),
{
    ink_box_exists(picture);
    let bounds = choose|bounds: (int, int, int, int)| picture.is_ink_box(bounds);
    let left = choose|y: int| #[trigger] picture.ink(bounds.0, y);
    let top = choose|x: int| #[trigger] picture.ink(x, bounds.1);
    let right = choose|y: int| #[trigger] picture.ink(bounds.2, y);
    let bottom = choose|x: int| #[trigger] picture.ink(x, bounds.3);
    assert(picture.ink(bounds.0, left));
    assert(picture.ink(top, bounds.1));
    assert(picture.ink(bounds.2, right));
    assert(picture.ink(bottom, bounds.3));
}

/// Cropping a cropped picture changes nothing.
pub proof fn cropping_twice_is_cropping_once(picture: Picture)
    ensures
        picture.cropped().cropped() == picture.cropped(),
{
    if picture.has_ink() {
        ink_box_exists(picture);
        kept_part_is_inside(picture);
        let bounds = choose|bounds: (int, int, int, int)| picture.is_ink_box(bounds);
        let (x, y, width, height) = picture.kept_part()->0;
        let once = picture.cropped();
        assert forall|i: int, j: int| #[trigger] once.ink(i, j) == (once.has(i, j) && picture.ink(
            x + i,
            y + j,
        )) by {
            if once.has(i, j) {
                assert(once.at(i, j) == picture.at(x + i, y + j));
            }
        }
        let left = choose|j: int| #[trigger] picture.ink(bounds.0, j);
        let top = choose|i: int| #[trigger] picture.ink(i, bounds.1);
        let right = choose|j: int| #[trigger] picture.ink(bounds.2, j);
        let bottom = choose|i: int| #[trigger] picture.ink(i, bounds.3);
        assert(once.ink(bounds.0 - x, left - y));
        assert(once.ink(top - x, bounds.1 - y));
        assert(once.ink(bounds.2 - x, right - y));
        assert(once.ink(bottom - x, bounds.3 - y));
        let moved = (bounds.0 - x, bounds.1 - y, bounds.2 - x, bounds.3 - y);
        assert forall|i: int, j: int| #[trigger] once.ink(i, j) implies moved.0 <= i <= moved.2
            && moved.1 <= j <= moved.3 by {
            assert(picture.ink(x + i, y + j));
        }
        assert(once.is_ink_box(moved));
        let chosen = choose|bounds: (int, int, int, int)| once.is_ink_box(bounds);
        ink_box_is_unique(once, moved, chosen);
        assert(once.kept_part() == Some((0int, 0int, width, height)));
        let twice = once.part(0, 0, width as nat, height as nat);
        assert forall|j: int| 0 <= j < height implies #[trigger] twice.rows[j] == once.rows[j] by {
            assert(twice.rows[j] =~= once.rows[j]);
        }
        assert(twice.rows =~= once.rows);
    }
}

/// The part of the image that cropping keeps: column, row, width and height; nothing
/// where the image holds no ink.
pub fn whitespace_bounds(image: &RgbImage) -> (bounds: Option<(u32, u32, u32, u32)>)
    requires
        image.wf(),
    ensures
        match (bounds, image@.kept_part()) {
            (Some(bounds), Some(part)) => {
                &&& bounds.0 == part.0
                &&& bounds.1 == part.1
                &&& bounds.2 == part.2
                &&& bounds.3 == part.3
                &&& 1 <= bounds.2
                &&& 1 <= bounds.3
                &&& bounds.0 + bounds.2 <= image.width
                &&& bounds.1 + bounds.3 <= image.height
            },
            (None, None) => true,
            _ => false,
        },
{
    let ghost picture = image@;
    let mut min_x: u32 = image.width;
    let mut min_y: u32 = image.height;
    let mut max_x: u32 = 0;
    let mut max_y: u32 = 0;
    let mut found: bool = false;
    let ghost mut left: int = 0;
    let ghost mut top: int = 0;
    let ghost mut right: int = 0;
    let ghost mut bottom: int = 0;
    let mut y: u32 = 0;
    while y < image.height
        invariant
            image.wf(),
            picture == image@,
            y <= image.height,
            found ==> picture.ink(min_x as int, left),
            found ==> picture.ink(top, min_y as int),
            found ==> picture.ink(max_x as int, right),
            found ==> picture.ink(bottom, max_y as int),
            !found ==> min_x == image.width && min_y == image.height && max_x == 0 && max_y == 0,
            forall|i: int, j: int|
                #![trigger picture.ink(i, j)]
                j < y && picture.ink(i, j) ==> found && min_x <= i <= max_x && min_y <= j <= max_y,
        decreases image.height - y,
    {
        let mut x: u32 = 0;
        while x < image.width
            invariant
                image.wf(),
                picture == image@,
                x <= image.width,
                y < image.height,
                found ==> picture.ink(min_x as int, left),
                found ==> picture.ink(top, min_y as int),
                found ==> picture.ink(max_x as int, right),
                found ==> picture.ink(bottom, max_y as int),
                !found ==> min_x == image.width && min_y == image.height && max_x == 0 && max_y
                    == 0,
                forall|i: int, j: int|
                    #![trigger picture.ink(i, j)]
                    (j < y || (j == y && i < x)) && picture.ink(i, j) ==> found && min_x <= i
                        <= max_x && min_y <= j <= max_y,
            decreases image.width - x,
        {
            let pixel: Rgb = image.get_pixel(x, y);
            if pixel.0 < INK_THRESHOLD || pixel.1 < INK_THRESHOLD || pixel.2 < INK_THRESHOLD {
                proof {
                    assert(picture.ink(x as int, y as int));
                    if !found || x < min_x {
                        left = y as int;
                    }
                    if !found || y < min_y {
                        top = x as int;
                    }
                    if !found || x > max_x {
                        right = y as int;
                    }
                    if !found || y > max_y {
                        bottom = x as int;
                    }
                }
                found = true;
                min_x = min_x.min(x);
                min_y = min_y.min(y);
                max_x = max_x.max(x);
                max_y = max_y.max(y);
            }
            x = x + 1;
        }
        y = y + 1;
    }
    if found {
        proof {
            let bounds = (min_x as int, min_y as int, max_x as int, max_y as int);
            assert(picture.ink(bounds.0, left));
            assert(picture.ink(top, bounds.1));
            assert(picture.ink(bounds.2, right));
            assert(picture.ink(bottom, bounds.3));
            assert forall|i: int, j: int| #[trigger] picture.ink(i, j) implies bounds.0 <= i
                <= bounds.2 && bounds.1 <= j <= bounds.3 by {
                assert(j < y);
            }
            assert(picture.is_ink_box(bounds));
            let chosen = choose|bounds: (int, int, int, int)| picture.is_ink_box(bounds);
            ink_box_is_unique(picture, bounds, chosen);
            kept_part_is_inside(picture);
        }
        let x0: u32 = min_x.saturating_sub(CROP_MARGIN);
        let y0: u32 = min_y.saturating_sub(CROP_MARGIN);
        let x1: u32 = max_x.saturating_add(CROP_MARGIN).saturating_add(1).min(image.width);
        let y1: u32 = max_y.saturating_add(CROP_MARGIN).saturating_add(1).min(image.height);
        Some((x0, y0, x1 - x0, y1 - y0))
    } else {
        proof {
            assert forall|i: int, j: int| !#[trigger] picture.ink(i, j) by {}
        }
        None
    }
}

/// The image without its blank margins.
pub fn crop_whitespace_image(image: RgbImage) -> (cropped: RgbImage)
    requires
        image.wf(),
    ensures
        cropped.wf(),
        cropped@ == image@.cropped(),
        image@.has_ink() ==> cropped.pixels@.len() == 3 * (cropped.width * cropped.height),
        !image@.has_ink() ==> cropped == image,
{
    match whitespace_bounds(&image) {
        None => image,
        Some((x, y, width, height)) => {
            let ghost w = image.width as int;
            let ghost h = image.height as int;
            let ghost base = 3 * cell(w, x as int, y as int);
            let ghost stride = 3 * w;
            let ghost len = 3 * width as int;
            proof {
                assert(image.pixels.len() == image.pixels@.len());
                cell_is_inside(w, h, x as int, y as int);
                cell_is_inside(w, h, x as int, y + height - 1);
                assert(w <= w * h) by (nonlinear_arith)
                    requires
                        1 <= h,
                        0 <= w,
                ;
                assert(cell(w, x as int, y + height - 1) == cell(w, x as int, y as int) + (height
                    - 1) * w) by (nonlinear_arith)
                    requires
                        cell(w, x as int, y + height - 1) == (y + height - 1) * w + x,
                        cell(w, x as int, y as int) == y * w + x,
                ;
                assert((height - 1) * stride == 3 * ((height - 1) * w)) by (nonlinear_arith)
                    requires
                        stride == 3 * w,
                ;
                cell_is_inside(w, h, x + width - 1, y + height - 1);
                assert(cell(w, x + width - 1, y + height - 1) == cell(w, x as int, y + height - 1)
                    + (width - 1));
                assert(0 <= y * w) by (nonlinear_arith)
                    requires
                        0 <= y,
                        0 <= w,
                ;
            }
            let packed: Vec<u8> = pack_rows(
                &image.pixels,
                3 * (y as usize * image.width as usize + x as usize),
                3 * image.width as usize,
                3 * width as usize,
                height,
            );
            let cropped = RgbImage { width, height, pixels: packed };
            proof {
                packed_len(image.pixels@, base, stride, len, height as nat);
                assert(height * len == 3 * (width * height)) by (nonlinear_arith)
                    requires
                        len == 3 * width,
                ;
                let picture = image@;
                let pixel = |i: int, j: int| picture.at(x as int + i, y as int + j);
                assert forall|i: int, j: int|
                    #![trigger cropped.pixel(i, j)]
                    0 <= i < cropped.width && 0 <= j < cropped.height implies cropped.pixel(i, j)
                    == pixel(i, j) by {
                    let rows = height as nat;
                    packed_byte(image.pixels@, base, stride, len, rows, j, 3 * i);
                    packed_byte(image.pixels@, base, stride, len, rows, j, 3 * i + 1);
                    packed_byte(image.pixels@, base, stride, len, rows, j, 3 * i + 2);
                    assert(3 * cell(width as int, i, j) == j * len + 3 * i) by (nonlinear_arith)
                        requires
                            len == 3 * width,
                            cell(width as int, i, j) == j * width + i,
                    ;
                    assert(3 * cell(w, x + i, y + j) == base + j * stride + 3 * i)
                        by (nonlinear_arith)
                        requires
                            base == 3 * cell(w, x as int, y as int),
                            cell(w, x as int, y as int) == y * w + x,
                            cell(w, x + i, y + j) == (y + j) * w + (x + i),
                            stride == 3 * w,
                    ;
                    assert(picture.at(x + i, y + j) == image.pixel(x + i, y + j));
                }
                picture_of(cropped, pixel);
                assert(cropped@ == picture.cropped());
            }
            cropped
        },
    }
}

/// The first column or row of the content that is shown: the wanted offset, as far as
/// the content reaches past the room.
pub open spec fn source_start(offset: int, content: int, room: int) -> int {
    smaller(offset, larger(content - room, 0))
}

/// How many columns or rows of the content are shown.
pub open spec fn drawn(offset: int, content: int, room: int) -> int {
    smaller(content - source_start(offset, content, room), room)
}

/// Blank columns or rows before the content, which is shown in the middle of the room.
pub open spec fn lead(offset: int, content: int, room: int) -> int {
    (room - drawn(offset, content, room)) / 2
}

/// The pixel at column `x` of row `y` of a frame.
pub open spec fn frame_pixel(rgba: Seq<u8>, width: int, x: int, y: int) -> (u8, u8, u8, u8) {
    let start = 4 * cell(width, x, y);
    (rgba[start], rgba[start + 1], rgba[start + 2], rgba[start + 3])
}

/// The pixel at column `x` of row `y` of the frame that shows a picture: the picture's
/// pixel, opaque, where the picture is drawn, and nothing beside it.
pub open spec fn placed_pixel(
    picture: Picture,
    viewport: WindowSize,
    transform: ViewTransform,
    x: int,
    y: int,
) -> (u8, u8, u8, u8) {
    let room = (viewport.spec_area_width(), viewport.spec_area_height());
    let content = (picture.width as int, picture.height as int);
    let offset = (transform.offset_x as int, transform.offset_y as int);
    let i = x - lead(offset.0, content.0, room.0);
    let j = y - lead(offset.1, content.1, room.1);
    if 0 <= i < drawn(offset.0, content.0, room.0) && 0 <= j < drawn(
        offset.1,
        content.1,
        room.1,
    ) {
        let pixel = picture.at(
            i + source_start(offset.0, content.0, room.0),
            j + source_start(offset.1, content.1, room.1),
        );
        (pixel.0, pixel.1, pixel.2, 255)
    } else {
        (0, 0, 0, 0)
    }
}

impl ComposedFrame {
    /// Whether the frame is the one that shows the picture.
    pub open spec fn shows(
        self,
        picture: Picture,
        viewport: WindowSize,
        transform: ViewTransform,
    ) -> bool {
        let width = viewport.spec_area_width();
        let height = viewport.spec_area_height();
        &&& self.content_width == picture.width
        &&& self.content_height == picture.height
        &&& self.rgba@.len() == 4 * (width * height)
        &&& forall|x: int, y: int|
            #![trigger frame_pixel(self.rgba@, width, x, y)]
            0 <= x < width && 0 <= y < height ==> frame_pixel(self.rgba@, width, x, y)
                == placed_pixel(picture, viewport, transform, x, y)
    }
}

/// The frame that shows an image.
pub fn place_view(image: &RgbImage, viewport: WindowSize, transform: ViewTransform) -> (frame:
    Result<ComposedFrame, ComposeError>)
    requires
        image.wf(),
    ensures
        match frame {
            Ok(frame) => viewport.spec_frame_fault() is None && frame.shows(
                image@,
                viewport,
                transform,
            ),
            Err(error) => viewport.spec_frame_fault() matches Some(fault) && error
                == ComposeError::Viewport(fault),
        },
{
    let width: u32 = viewport.page_area_width_px();
    let height: u32 = viewport.page_area_height_px();
    let bytes: usize = match viewport.framebuffer_len() {
        Ok(bytes) => bytes,
        Err(error) => {
            return Err(ComposeError::Viewport(error));
        },
    };
    let mut rgba: Vec<u8> = vec![0u8; bytes];
    let source_x: u32 = transform.offset_x.min(image.width.saturating_sub(width));
    let source_y: u32 = transform.offset_y.min(image.height.saturating_sub(height));
    let draw_width: u32 = image.width.saturating_sub(source_x).min(width);
    let draw_height: u32 = image.height.saturating_sub(source_y).min(height);
    let destination_x: u32 = width.saturating_sub(draw_width) / 2;
    let destination_y: u32 = height.saturating_sub(draw_height) / 2;
    let ghost w = width as int;
    let ghost h = height as int;
    let ghost picture = image@;
    let mut y: u32 = 0;
    proof {
        assert forall|i: int, j: int|
            #![trigger frame_pixel(rgba@, w, i, j)]
            0 <= i < w && 0 <= j < h implies frame_pixel(rgba@, w, i, j) == (0u8, 0u8, 0u8, 0u8) by {
            cell_is_inside(w, h, i, j);
        }
    }
    while y < draw_height
        invariant
            image.wf(),
            picture == image@,
            w == width == viewport.spec_area_width(),
            h == height == viewport.spec_area_height(),
            bytes == 4 * (w * h),
            rgba@.len() == bytes,
            source_x + draw_width <= image.width,
            source_y + draw_height <= image.height,
            destination_x + draw_width <= width,
            destination_y + draw_height <= height,
            y <= draw_height,
            forall|i: int, j: int|
                #![trigger frame_pixel(rgba@, w, i, j)]
                0 <= i < w && 0 <= j < h ==> frame_pixel(rgba@, w, i, j) == if 0 <= i
                    - destination_x < draw_width && 0 <= j - destination_y < y {
                    let pixel = picture.at(
                        i - destination_x + source_x,
                        j - destination_y + source_y,
                    );
                    (pixel.0, pixel.1, pixel.2, 255u8)
                } else {
                    (0u8, 0u8, 0u8, 0u8)
                },
        decreases draw_height - y,
    {
        let mut x: u32 = 0;
        while x < draw_width
            invariant
                image.wf(),
                picture == image@,
                w == width == viewport.spec_area_width(),
                h == height == viewport.spec_area_height(),
                bytes == 4 * (w * h),
                rgba@.len() == bytes,
                source_x + draw_width <= image.width,
                source_y + draw_height <= image.height,
                destination_x + draw_width <= width,
                destination_y + draw_height <= height,
                y < draw_height,
                x <= draw_width,
                forall|i: int, j: int|
                    #![trigger frame_pixel(rgba@, w, i, j)]
                    0 <= i < w && 0 <= j < h ==> frame_pixel(rgba@, w, i, j) == if 0 <= i
                        - destination_x < draw_width && 0 <= j - destination_y && (j
                        - destination_y < y || (j - destination_y == y && i - destination_x < x)) {
                        let pixel = picture.at(
                            i - destination_x + source_x,
                            j - destination_y + source_y,
                        );
                        (pixel.0, pixel.1, pixel.2, 255u8)
                    } else {
                        (0u8, 0u8, 0u8, 0u8)
                    },
            decreases draw_width - x,
        {
            let pixel: Rgb = image.get_pixel(x + source_x, y + source_y);
            let ghost at_x = x + destination_x;
            let ghost at_y = y + destination_y;
            let ghost before = rgba@;
            proof {
                cell_is_inside(w, h, at_x, at_y);
                assert(0 <= at_y * w) by (nonlinear_arith)
                    requires
                        0 <= at_y,
                        0 <= w,
                ;
            }
            let index: usize = ((y + destination_y) as usize * width as usize + (x
                + destination_x) as usize) * 4;
            rgba.set(index, pixel.0);
            rgba.set(index + 1, pixel.1);
            rgba.set(index + 2, pixel.2);
            rgba.set(index + 3, 255);
            proof {
                assert forall|i: int, j: int|
                    #![trigger frame_pixel(rgba@, w, i, j)]
                    0 <= i < w && 0 <= j < h implies frame_pixel(rgba@, w, i, j) == if i == at_x
                    && j == at_y {
                    (pixel.0, pixel.1, pixel.2, 255u8)
                } else {
                    frame_pixel(before, w, i, j)
                } by {
                    cell_is_inside(w, h, i, j);
                    if i != at_x || j != at_y {
                        cells_are_apart(w, i, j, at_x, at_y);
                    }
                }
            }
            x = x + 1;
        }
        y = y + 1;
    }
    let frame = ComposedFrame { rgba, content_width: image.width, content_height: image.height };
    Ok(frame)
}

/// The longest side of an image that is scaled.
pub const MAX_SCALED_SIDE: u32 = 0x10_0000;

/// Whether `resized` is something that scaling an image of three bytes a pixel to a new
/// size with the Lanczos filter of three lobes may come to.
pub uninterp spec fn resizes_to(
    pixels: Seq<u8>,
    width: u32,
    height: u32,
    new_width: u32,
    new_height: u32,
    resized: Seq<u8>,
) -> bool;

/// `image::imageops::resize` with the Lanczos filter of three lobes, on an image of
/// three bytes a pixel.
///
/// The result is something that scaling these pixels between these sizes may come to, it
/// has three bytes for each pixel of the new size, and an image that has that size
/// already is copied. Which colours come out otherwise is not stated, nor that they are
/// the same every time: the filter computes sines, whose last bits differ from machine to
/// machine. Images that are not empty, with sides up to `MAX_SCALED_SIDE`, so that their
/// columns and rows are told apart in single precision, are scaled without a panic if the
/// new image and an intermediate one (the old width by the new height, sixteen bytes a
/// pixel) can be allocated.
#[verifier::external_body]
fn resize_lanczos3(
    pixels: Vec<u8>,
    width: u32,
    height: u32,
    new_width: u32,
    new_height: u32,
) -> (resized: Vec<u8>)
    requires
        1 <= width <= MAX_SCALED_SIDE,
        1 <= height <= MAX_SCALED_SIDE,
        1 <= new_width,
        1 <= new_height,
        3 * (width * height) <= pixels@.len(),
        16 * (width * new_height) <= isize::MAX,
        3 * (new_width * new_height) <= isize::MAX,
    ensures
        resizes_to(
            pixels@.take(3 * (width * height)),
            width,
            height,
            new_width,
            new_height,
            resized@,
        ),
        resized@.len() == 3 * (new_width * new_height),
        new_width == width && new_height == height ==> resized@ == pixels@.take(
            3 * (width * height),
        ),
{
    let source = image::RgbImage::from_raw(width, height, pixels).unwrap();
    let filter = image::imageops::FilterType::Lanczos3;
    image::imageops::resize(&source, new_width, new_height, filter).into_raw()
}

/// The page's picture as it is shown: hits marked and, where asked, margins cut off.
pub open spec fn prepared(page: PageView, auto_crop: bool) -> Picture {
    let picture = highlighted(page.picture(), page.highlights);
    if auto_crop {
        picture.cropped()
    } else {
        picture
    }
}

/// Whether a prepared picture is scaled to the page area: only a cropped one is, and
/// only where it leaves room on both axes.
pub open spec fn is_scaled(
    picture: Picture,
    viewport: WindowSize,
    transform: ViewTransform,
) -> bool {
    &&& transform.auto_crop
    &&& picture.width <= viewport.spec_area_width()
    &&& picture.height <= viewport.spec_area_height()
}

/// The smaller of the two ratios of the page area to the picture.
pub open spec fn smaller_ratio(picture: Picture, viewport: WindowSize) -> (nat, nat) {
    let room = (viewport.spec_area_width() as nat, viewport.spec_area_height() as nat);
    if room.0 * picture.height <= room.1 * picture.width {
        (room.0, picture.width)
    } else {
        (room.1, picture.height)
    }
}

/// The size to which a picture is scaled: by the double nearest to the smaller of the
/// two ratios of the page area to the picture.
pub open spec fn scaled_size(picture: Picture, viewport: WindowSize) -> (int, int) {
    let room = (viewport.spec_area_width() as nat, viewport.spec_area_height() as nat);
    let (num, den) = smaller_ratio(picture, viewport);
    (
        scaled_side(picture.width, num, den, room.0),
        scaled_side(picture.height, num, den, room.1),
    )
}

/// Whether `shown` is a picture that scaling may make of `picture`: one of the scaled
/// size, whose bytes the filter may make of the picture's, and the picture itself where
/// that has the size already.
pub open spec fn may_scale_to(picture: Picture, viewport: WindowSize, shown: Picture) -> bool {
    let size = scaled_size(picture, viewport);
    &&& shown.width == size.0
    &&& shown.height == size.1
    &&& resizes_to(
        bytes_of(picture),
        picture.width as u32,
        picture.height as u32,
        size.0 as u32,
        size.1 as u32,
        bytes_of(shown),
    )
    &&& size == (picture.width as int, picture.height as int) ==> shown == picture
}

/// Whether a picture can be scaled to the page area: its sides are short enough for the
/// filter, and both the scaled image and the one on the way to it, of the old width and
/// the new height with sixteen bytes a pixel, can be allocated.
pub open spec fn can_scale(picture: Picture, viewport: WindowSize) -> bool {
    let size = scaled_size(picture, viewport);
    &&& picture.width <= MAX_SCALED_SIDE
    &&& picture.height <= MAX_SCALED_SIDE
    &&& 16 * (picture.width * size.1) <= isize::MAX
    &&& 3 * (size.0 * size.1) <= isize::MAX
}

/// Why a page cannot be shown in a pane, the first reason found.
pub open spec fn compose_fault(page: PageView, viewport: WindowSize) -> Option<ComposeError> {
    if viewport.spec_area_width() == 0 || viewport.spec_area_height() == 0 {
        Some(ComposeError::NoDrawablePixels)
    } else if page.fault() is Some {
        page.fault()
    } else if page.width == 0 || page.height == 0 {
        Some(ComposeError::EmptyPage)
    } else {
        match viewport.spec_frame_fault() {
            Some(fault) => Some(ComposeError::Viewport(fault)),
            None => None,
        }
    }
}

/// The size to which an image is scaled.
fn fitted_size(image: &RgbImage, viewport: WindowSize) -> (size: (u32, u32))
    requires
        1 <= image.width <= viewport.spec_area_width(),
        1 <= image.height <= viewport.spec_area_height(),
    ensures
        size.0 == scaled_size(image@, viewport).0,
        size.1 == scaled_size(image@, viewport).1,
        1 <= size.0 <= viewport.spec_area_width(),
        1 <= size.1 <= viewport.spec_area_height(),
{
    let room_width: u32 = viewport.page_area_width_px();
    let room_height: u32 = viewport.page_area_height_px();
    proof {
        assert(room_width * image.height <= u64::MAX) by (nonlinear_arith)
            requires
                room_width <= u32::MAX,
                image.height <= u32::MAX,
        ;
        assert(room_height * image.width <= u64::MAX) by (nonlinear_arith)
            requires
                room_height <= u32::MAX,
                image.width <= u32::MAX,
        ;
    }
    let across: bool = room_width as u64 * image.height as u64 <= room_height as u64
        * image.width as u64;
    let (num, den): (u32, u32) = if across {
        (room_width, image.width)
    } else {
        (room_height, image.height)
    };
    (
        scale_side(image.width, num, den, room_width),
        scale_side(image.height, num, den, room_height),
    )
}

/// The image scaled to a size within the page area.
fn scale_to(image: RgbImage, viewport: WindowSize) -> (scaled: RgbImage)
    requires
        image.wf(),
        1 <= image.width <= viewport.spec_area_width(),
        1 <= image.height <= viewport.spec_area_height(),
        can_scale(image@, viewport),
    ensures
        scaled.wf(),
        may_scale_to(image@, viewport, scaled@),
{
    let (new_width, new_height): (u32, u32) = fitted_size(&image, viewport);
    let ghost source = image;
    let scaled = RgbImage {
        width: new_width,
        height: new_height,
        pixels: resize_lanczos3(image.pixels, image.width, image.height, new_width, new_height),
    };
    proof {
        image_begins_with_its_bytes(source);
        image_begins_with_its_bytes(scaled);
        assert(scaled.pixels@.take(3 * (new_width * new_height)) =~= scaled.pixels@);
        if new_width == source.width && new_height == source.height {
            assert forall|x: int, y: int|
                #![trigger scaled.pixel(x, y)]
                0 <= x < scaled.width && 0 <= y < scaled.height implies scaled.pixel(x, y)
                == source.pixel(x, y) by {
                cell_is_inside(source.width as int, source.height as int, x, y);
            }
            picture_of(scaled, |x: int, y: int| source.pixel(x, y));
            picture_of(source, |x: int, y: int| source.pixel(x, y));
        }
    }
    scaled
}

/// Whether a page can be composed: either it is not scaled, or it can be.
pub open spec fn can_compose(
    page: PageView,
    viewport: WindowSize,
    transform: ViewTransform,
) -> bool {
    let picture = prepared(page, transform.auto_crop);
    compose_fault(page, viewport) is None && is_scaled(picture, viewport, transform) ==> can_scale(
        picture,
        viewport,
    )
}

/// Whether `frame` is what composing a page comes to: the first reason against it, or a
/// frame that shows the prepared picture, scaled where it is to be.
pub open spec fn composes(
    page: PageView,
    viewport: WindowSize,
    transform: ViewTransform,
    frame: Result<ComposedFrame, ComposeError>,
) -> bool {
    match frame {
        Err(error) => compose_fault(page, viewport) == Some(error),
        Ok(frame) => {
            let picture = prepared(page, transform.auto_crop);
            &&& compose_fault(page, viewport) is None
            &&& if is_scaled(picture, viewport, transform) {
                exists|shown: Picture| #[trigger]
                    may_scale_to(picture, viewport, shown) && frame.shows(
                        shown,
                        viewport,
                        transform,
                    )
            } else {
                frame.shows(picture, viewport, transform)
            }
        },
    }
}

/// The page's image as it is shown, or why there is none.
fn prepare(page: PageImage, auto_crop: bool) -> (image: Result<RgbImage, ComposeError>)
    ensures
        match image {
            Ok(image) => {
                &&& page@.fault() is None
                &&& image.wf()
                &&& image@ == prepared(page@, auto_crop)
                &&& 1 <= image.width <= page.width
                &&& 1 <= image.height <= page.height
            },
            Err(error) => if page@.fault() is Some {
                page@.fault() == Some(error)
            } else {
                (page.width == 0 || page.height == 0) && error == ComposeError::EmptyPage
            },
        },
{
    let ghost view = page@;
    let highlights: Vec<HighlightRect> = page.highlights.clone();
    proof {
        assert(highlights@ =~= view.highlights);
    }
    let mut image: RgbImage = match page.into_rgb() {
        Ok(image) => image,
        Err(error) => {
            return Err(error);
        },
    };
    if image.width == 0 || image.height == 0 {
        return Err(ComposeError::EmptyPage);
    }
    apply_highlights(&mut image, &highlights);
    if auto_crop {
        proof {
            if image@.has_ink() {
                kept_part_is_inside(image@);
            }
        }
        image = crop_whitespace_image(image);
    }
    Ok(image)
}

/// A page can be composed whatever is cut off if it could be scaled as a whole, to all of
/// the page area.
proof fn small_pages_can_be_composed(
    page: PageView,
    viewport: WindowSize,
    transform: ViewTransform,
)
    requires
        page.width <= MAX_SCALED_SIDE,
        page.height <= MAX_SCALED_SIDE,
        16 * (page.width * viewport.spec_area_height()) <= isize::MAX,
        3 * (viewport.spec_area_width() * viewport.spec_area_height()) <= isize::MAX,
    ensures
        can_compose(page, viewport, transform),
{
    let picture = prepared(page, transform.auto_crop);
    if compose_fault(page, viewport) is None && is_scaled(picture, viewport, transform) {
        let whole = highlighted(page.picture(), page.highlights);
        if whole.has_ink() {
            kept_part_is_inside(whole);
        }
        let size = scaled_size(picture, viewport);
        let room = (viewport.spec_area_width(), viewport.spec_area_height());
        assert(picture.width * size.1 <= page.width * room.1) by (nonlinear_arith)
            requires
                0 <= picture.width <= page.width,
                0 <= size.1 <= room.1,
        ;
        assert(size.0 * size.1 <= room.0 * room.1) by (nonlinear_arith)
            requires
                0 <= size.0 <= room.0,
                0 <= size.1 <= room.1,
        ;
    }
}

/// Whether a page can be composed: either it is not scaled, or it can be.
pub fn is_composable(page: &PageImage, viewport: WindowSize, transform: ViewTransform) -> (
composable: bool)
    ensures
        composable == can_compose(page@, viewport, transform),
{
    let width: u32 = viewport.page_area_width_px();
    let height: u32 = viewport.page_area_height_px();
    if !transform.auto_crop || width == 0 || height == 0 || viewport.framebuffer_len().is_err() {
        return true;
    }
    let limit: u128 = isize::MAX as u128;
    proof {
        assert(0 <= page.width * height <= 0xffff_ffff * 0xffff_ffff) by (nonlinear_arith)
            requires
                0 <= page.width <= 0xffff_ffff,
                0 <= height <= 0xffff_ffff,
        ;
        assert(0 <= width * height <= 0xffff_ffff * 0xffff_ffff) by (nonlinear_arith)
            requires
                0 <= width <= 0xffff_ffff,
                0 <= height <= 0xffff_ffff,
        ;
    }
    if page.width <= MAX_SCALED_SIDE && page.height <= MAX_SCALED_SIDE && 16 * (page.width as u128
        * height as u128) <= limit && 3 * (width as u128 * height as u128) <= limit {
        proof {
            small_pages_can_be_composed(page@, viewport, transform);
        }
        return true;
    }
    match prepare(page.clone(), transform.auto_crop) {
        Err(_) => true,
        Ok(image) => {
            if image.width > width || image.height > height {
                return true;
            }
            let (new_width, new_height): (u32, u32) = fitted_size(&image, viewport);
            proof {
                assert(0 <= image.width * new_height <= 0xffff_ffff * 0xffff_ffff)
                    by (nonlinear_arith)
                    requires
                        0 <= image.width <= 0xffff_ffff,
                        0 <= new_height <= 0xffff_ffff,
                ;
                assert(0 <= new_width * new_height <= 0xffff_ffff * 0xffff_ffff)
                    by (nonlinear_arith)
                    requires
                        0 <= new_width <= 0xffff_ffff,
                        0 <= new_height <= 0xffff_ffff,
                ;
            }
            image.width <= MAX_SCALED_SIDE && image.height <= MAX_SCALED_SIDE && 16 * (
            image.width as u128 * new_height as u128) <= limit && 3 * (new_width as u128
                * new_height as u128) <= limit
        },
    }
}

/// The frame that shows a page: its hits marked, its margins cut off and the rest
/// scaled up where that is asked for, moved by the offsets, in the middle of the pane.
pub fn compose_view(page: PageImage, viewport: WindowSize, transform: ViewTransform) -> (frame:
    Result<ComposedFrame, ComposeError>)
    requires
        can_compose(page@, viewport, transform),
    ensures
        composes(page@, viewport, transform, frame),
{
    let width: u32 = viewport.page_area_width_px();
    let height: u32 = viewport.page_area_height_px();
    if width == 0 || height == 0 {
        return Err(ComposeError::NoDrawablePixels);
    }
    let ghost picture = prepared(page@, transform.auto_crop);
    let mut image: RgbImage = match prepare(page, transform.auto_crop) {
        Ok(image) => image,
        Err(error) => {
            return Err(error);
        },
    };
    if transform.auto_crop && image.width <= width && image.height <= height {
        match viewport.framebuffer_len() {
            Ok(_) => {},
            Err(error) => {
                return Err(ComposeError::Viewport(error));
            },
        }
        image = scale_to(image, viewport);
        proof {
            assert(may_scale_to(picture, viewport, image@));
        }
    }
    place_view(&image, viewport, transform)
}

/// The double by which a picture is scaled is the smaller of those nearest to the two
/// ratios of the page area to the picture.
pub proof fn picture_is_scaled_by_the_smaller_double(picture: Picture, viewport: WindowSize)
    requires
        1 <= picture.width <= viewport.spec_area_width(),
        1 <= picture.height <= viewport.spec_area_height(),
    ensures
        ({
            let (num, den) = smaller_ratio(picture, viewport);
            let (count, unit) = crate::rounding::nearest_double(num, den);
            let across = crate::rounding::nearest_double(
                viewport.spec_area_width() as nat,
                picture.width,
            );
            let down = crate::rounding::nearest_double(
                viewport.spec_area_height() as nat,
                picture.height,
            );
            &&& (count, unit) == across || (count, unit) == down
            &&& count * across.1 <= across.0 * unit
            &&& count * down.1 <= down.0 * unit
        }),
{
    let width = viewport.spec_area_width() as u32;
    let height = viewport.spec_area_height() as u32;
    if width * picture.height <= height * picture.width {
        crate::rounding::rounded_ratios_keep_their_order(
            width,
            picture.width as u32,
            height,
            picture.height as u32,
        );
    } else {
        crate::rounding::rounded_ratios_keep_their_order(
            height,
            picture.height as u32,
            width,
            picture.width as u32,
        );
    }
}

/// A cropped picture that leaves room on both axes is scaled until it fills the page
/// area on one of them.
pub proof fn scaled_picture_fills_an_axis(picture: Picture, viewport: WindowSize)
    requires
        1 <= picture.width <= viewport.spec_area_width(),
        1 <= picture.height <= viewport.spec_area_height(),
    ensures
        ({
            let size = scaled_size(picture, viewport);
            size.0 == viewport.spec_area_width() || size.1 == viewport.spec_area_height()
        }),
{
    let room = (viewport.spec_area_width() as nat, viewport.spec_area_height() as nat);
    if room.0 * picture.height <= room.1 * picture.width {
        deciding_side_fills_its_room(room.0 as u32, picture.width as u32);
    } else {
        deciding_side_fills_its_room(room.1 as u32, picture.height as u32);
    }
}

/// A picture no larger than the page area is shown whole, whatever the offsets: none of
/// its pixels is cut off, and the blank columns beside it differ by at most one.
pub proof fn small_picture_is_centred(offset: int, content: int, room: int)
    requires
        0 <= offset,
        0 <= content <= room,
    ensures
        source_start(offset, content, room) == 0,
        drawn(offset, content, room) == content,
        ({
            let before = lead(offset, content, room);
            let after = room - content - before;
            0 <= before <= after <= before + 1
        }),
{
}

/// A picture larger than the page area leaves no blank columns, and the largest offset
/// that has an effect shows its last column.
pub proof fn large_picture_fills_the_room(offset: int, content: int, room: int)
    requires
        0 <= offset,
        0 <= room <= content,
    ensures
        drawn(offset, content, room) == room,
        lead(offset, content, room) == 0,
        source_start(offset, content, room) + room <= content,
        offset >= content - room ==> source_start(offset, content, room) + room == content,
{
}

/// Every pixel outside the part that cropping keeps is nearly white: its red, green and
/// blue are all 240 or more. Nothing is kept exactly where that holds of all pixels.
pub proof fn nothing_but_white_is_cut_off(picture: Picture, x: int, y: int)
    requires
        0 <= x < picture.width,
        0 <= y < picture.height,
    ensures
        picture.kept_part() is None ==> picture.at(x, y).0 >= 240 && picture.at(x, y).1 >= 240
            && picture.at(x, y).2 >= 240,
        picture.kept_part() matches Some((left, top, width, height)) && (x < left || left + width
            <= x || y < top || top + height <= y) ==> picture.at(x, y).0 >= 240 && picture.at(
            x,
            y,
        ).1 >= 240 && picture.at(x, y).2 >= 240,
        picture.at(x, y).0 < 240 || picture.at(x, y).1 < 240 || picture.at(x, y).2 < 240
            ==> picture.kept_part() is Some,
{
    if picture.at(x, y).0 < 240 || picture.at(x, y).1 < 240 || picture.at(x, y).2 < 240 {
        assert(picture.ink(x, y));
        ink_box_exists(picture);
        let bounds = choose|bounds: (int, int, int, int)| picture.is_ink_box(bounds);
        assert(picture.is_ink_box(bounds));
    }
}

/// Cropping keeps eight pixels beside the outermost pixels that have a channel below
/// 240, or as many as there are. Those pixels stand in the columns `left` and `right`
/// and in the rows `top` and `bottom`.
pub proof fn eight_pixels_of_margin_are_kept(
    picture: Picture,
    left: (int, int),
    top: (int, int),
    right: (int, int),
    bottom: (int, int),
)
    requires
        picture.has(left.0, left.1) && picture.has(top.0, top.1),
        picture.has(right.0, right.1) && picture.has(bottom.0, bottom.1),
        picture.at(left.0, left.1).0 < 240 || picture.at(left.0, left.1).1 < 240 || picture.at(
            left.0,
            left.1,
        ).2 < 240,
        picture.at(top.0, top.1).0 < 240 || picture.at(top.0, top.1).1 < 240 || picture.at(
            top.0,
            top.1,
        ).2 < 240,
        picture.at(right.0, right.1).0 < 240 || picture.at(right.0, right.1).1 < 240 || picture.at(
            right.0,
            right.1,
        ).2 < 240,
        picture.at(bottom.0, bottom.1).0 < 240 || picture.at(bottom.0, bottom.1).1 < 240
            || picture.at(bottom.0, bottom.1).2 < 240,
        forall|x: int, y: int|
            0 <= x < picture.width && 0 <= y < picture.height && ((#[trigger] picture.at(x, y)).0
                < 240 || picture.at(x, y).1 < 240 || picture.at(x, y).2 < 240) ==> left.0 <= x
                <= right.0 && top.1 <= y <= bottom.1,
    ensures
        picture.kept_part() matches Some((x, y, width, height)) && {
            &&& x == if left.0 >= 8 {
                left.0 - 8
            } else {
                0
            }
            &&& y == if top.1 >= 8 {
                top.1 - 8
            } else {
                0
            }
            &&& x + width == if right.0 + 9 <= picture.width {
                right.0 + 9
            } else {
                picture.width as int
            }
            &&& y + height == if bottom.1 + 9 <= picture.height {
                bottom.1 + 9
            } else {
                picture.height as int
            }
        },
{
    let bounds = (left.0, top.1, right.0, bottom.1);
    assert(picture.ink(left.0, left.1));
    assert(picture.ink(top.0, top.1));
    assert(picture.ink(right.0, right.1));
    assert(picture.ink(bottom.0, bottom.1));
    assert forall|x: int, y: int| #[trigger] picture.ink(x, y) implies bounds.0 <= x <= bounds.2
        && bounds.1 <= y <= bounds.3 by {
        assert(picture.at(x, y).0 < 240 || picture.at(x, y).1 < 240 || picture.at(x, y).2 < 240);
    }
    assert(picture.is_ink_box(bounds));
    let chosen = choose|bounds: (int, int, int, int)| picture.is_ink_box(bounds);
    ink_box_is_unique(picture, bounds, chosen);
}

/// The cropped picture is the kept part, pixel by pixel, and all of the picture where
/// nothing is kept.
pub proof fn cropping_shows_the_kept_part(picture: Picture, i: int, j: int)
    ensures
        picture.kept_part() is None ==> picture.cropped() == picture,
        picture.kept_part() matches Some((x, y, width, height)) ==> {
            &&& picture.cropped().width == width
            &&& picture.cropped().height == height
            &&& 0 <= i < width && 0 <= j < height ==> picture.cropped().at(i, j) == picture.at(
                x + i,
                y + j,
            )
        },
{
    if picture.has_ink() {
        kept_part_is_inside(picture);
    }
}

/// A page's pixels are read from its rows: row `y` starts `y` strides into the page's
/// bytes, and each pixel is three of them.
pub proof fn pages_are_read_by_their_stride(page: PageImage, x: int, y: int)
    requires
        0 <= x < page.width,
        0 <= y < page.height,
    ensures
        page@.picture().width == page.width,
        page@.picture().height == page.height,
        page@.picture().at(x, y).0 == page.pixels@[y * page.row_stride + 3 * x],
        page@.picture().at(x, y).1 == page.pixels@[y * page.row_stride + 3 * x + 1],
        page@.picture().at(x, y).2 == page.pixels@[y * page.row_stride + 3 * x + 2],
{
}

/// A page can be read exactly if its rows have room for their pixels and its bytes for
/// all of the rows, and otherwise the first of these that fails is told.
pub proof fn pages_need_room_for_their_rows(page: PageImage)
    ensures
        page@.fault() is None <==> 3 * page.width <= page.row_stride && page.row_stride * page.height
            <= page.pixels@.len() && page.row_stride * page.height <= usize::MAX,
        page@.fault() == Some(ComposeError::RowSizeOverflow) <==> 3 * page.width > usize::MAX,
        page@.fault() == Some(ComposeError::InvalidStride) <==> page.row_stride < 3 * page.width
            <= usize::MAX,
        page@.fault() == Some(ComposeError::BufferSizeOverflow) <==> 3 * page.width
            <= page.row_stride && page.row_stride * page.height > usize::MAX,
        page@.fault() == Some(ComposeError::Truncated) <==> 3 * page.width <= page.row_stride
            && page.pixels@.len() < page.row_stride * page.height <= usize::MAX,
{
}

/// What is known of a page is all that it holds.
pub proof fn pages_are_known_whole(a: PageImage, b: PageImage)
    ensures
        a@ == b@ <==> a.pixels@ == b.pixels@ && a.width == b.width && a.height == b.height
            && a.row_stride == b.row_stride && a.highlights@ == b.highlights@,
{
}

proof fn marks_of_none(pixel: Rgb, rects: Seq<HighlightRect>, count: nat, x: int, y: int)
    requires
        count <= rects.len(),
        forall|i: int| 0 <= i < count ==> !(#[trigger] rects[i]).covers(x, y),
    ensures
        marked_by(pixel, rects, count, x, y) == pixel,
    decreases count,
{
    if count > 0 {
        marks_of_none(pixel, rects, (count - 1) as nat, x, y);
    }
}

proof fn marks_of_one(
    pixel: Rgb,
    rects: Seq<HighlightRect>,
    count: nat,
    one: int,
    x: int,
    y: int,
)
    requires
        0 <= one < count <= rects.len(),
        rects[one].covers(x, y),
        forall|i: int| 0 <= i < count && i != one ==> !(#[trigger] rects[i]).covers(x, y),
    ensures
        marked_by(pixel, rects, count, x, y) == marked(pixel),
    decreases count,
{
    if one == count - 1 {
        marks_of_none(pixel, rects, (count - 1) as nat, x, y);
    } else {
        marks_of_one(pixel, rects, (count - 1) as nat, one, x, y);
    }
}

/// A pixel that no search hit covers keeps its colour.
pub proof fn pixels_beside_hits_keep_their_colour(
    picture: Picture,
    rects: Seq<HighlightRect>,
    x: int,
    y: int,
)
    requires
        0 <= x < picture.width,
        0 <= y < picture.height,
        forall|i: int|
            0 <= i < rects.len() ==> x < (#[trigger] rects[i]).x0 || rects[i].x1 <= x || y
                < rects[i].y0 || rects[i].y1 <= y,
    ensures
        highlighted(picture, rects).width == picture.width,
        highlighted(picture, rects).height == picture.height,
        highlighted(picture, rects).at(x, y) == picture.at(x, y),
{
    marks_of_none(picture.at(x, y), rects, rects.len(), x, y);
}

/// A pixel that one search hit covers has eighty more red and green, at most 255, and
/// half its blue: white turns yellow, and every pixel with any blue changes.
pub proof fn hits_are_marked_yellow(
    picture: Picture,
    rects: Seq<HighlightRect>,
    one: int,
    x: int,
    y: int,
)
    requires
        0 <= x < picture.width,
        0 <= y < picture.height,
        0 <= one < rects.len(),
        rects[one].x0 <= x < rects[one].x1,
        rects[one].y0 <= y < rects[one].y1,
        forall|i: int|
            0 <= i < rects.len() && i != one ==> x < (#[trigger] rects[i]).x0 || rects[i].x1 <= x
                || y < rects[i].y0 || rects[i].y1 <= y,
    ensures
        ({
            let old_colour = picture.at(x, y);
            let colour = highlighted(picture, rects).at(x, y);
            &&& colour.0 == if old_colour.0 + 80 <= 255 {
                old_colour.0 + 80
            } else {
                255
            }
            &&& colour.1 == if old_colour.1 + 80 <= 255 {
                old_colour.1 + 80
            } else {
                255
            }
            &&& 2 * colour.2 <= old_colour.2 <= 2 * colour.2 + 1
            &&& old_colour == (255u8, 255u8, 255u8) ==> colour == (255u8, 255u8, 127u8)
            &&& old_colour.2 > 0 ==> colour != old_colour
        }),
{
    marks_of_one(picture.at(x, y), rects, rects.len(), one, x, y);
}

/// A further search hit marks the pixels it covers once more, and no others.
pub proof fn each_hit_marks_once_more(
    picture: Picture,
    rects: Seq<HighlightRect>,
    rect: HighlightRect,
    x: int,
    y: int,
)
    requires
        0 <= x < picture.width,
        0 <= y < picture.height,
    ensures
        ({
            let old_colour = highlighted(picture, rects).at(x, y);
            let colour = highlighted(picture, rects.push(rect)).at(x, y);
            if rect.x0 <= x < rect.x1 && rect.y0 <= y < rect.y1 {
                &&& colour.0 == if old_colour.0 <= 175 {
                    old_colour.0 + 80
                } else {
                    255
                }
                &&& colour.1 == if old_colour.1 <= 175 {
                    old_colour.1 + 80
                } else {
                    255
                }
                &&& 2 * colour.2 <= old_colour.2 <= 2 * colour.2 + 1
            } else {
                colour == old_colour
            }
        }),
{
    let pushed = rects.push(rect);
    earlier_marks_stay(picture.at(x, y), rects, pushed, rects.len(), x, y);
}

proof fn earlier_marks_stay(
    pixel: Rgb,
    a: Seq<HighlightRect>,
    b: Seq<HighlightRect>,
    count: nat,
    x: int,
    y: int,
)
    requires
        count <= a.len(),
        count <= b.len(),
        forall|i: int| 0 <= i < count ==> #[trigger] a[i] == b[i],
    ensures
        marked_by(pixel, a, count, x, y) == marked_by(pixel, b, count, x, y),
    decreases count,
{
    if count > 0 {
        earlier_marks_stay(pixel, a, b, (count - 1) as nat, x, y);
        assert(a[count - 1] == b[count - 1]);
    }
}

/// A frame has four bytes for each pixel of the page area, and tells the size of the
/// picture that it shows.
pub proof fn frames_fill_the_page_area(
    frame: ComposedFrame,
    picture: Picture,
    viewport: WindowSize,
    transform: ViewTransform,
)
    requires
        frame.shows(picture, viewport, transform),
    ensures
        frame.rgba@.len() == viewport.spec_area_width() * viewport.spec_area_height() * 4,
        frame.content_width == picture.width,
        frame.content_height == picture.height,
{
}

/// Where pixel `(i, j)` of a picture is seen in a frame. A picture at least as large as
/// the page area is seen from the offset on, or from as far as it reaches; a smaller one
/// stands in the middle, the odd pixel of room after it. Each of the two axes goes by
/// itself, and every pixel that is seen is opaque.
pub proof fn pictures_are_seen_from_the_offsets(
    frame: ComposedFrame,
    picture: Picture,
    viewport: WindowSize,
    transform: ViewTransform,
    x: int,
    y: int,
    i: int,
    j: int,
)
    requires
        frame.shows(picture, viewport, transform),
        0 <= x < viewport.spec_area_width(),
        0 <= y < viewport.spec_area_height(),
        0 <= i < picture.width,
        0 <= j < picture.height,
        picture.width < viewport.spec_area_width() ==> x == i + (viewport.spec_area_width()
            - picture.width) / 2,
        picture.width >= viewport.spec_area_width() && transform.offset_x
            + viewport.spec_area_width() <= picture.width ==> i == x + transform.offset_x,
        picture.width >= viewport.spec_area_width() && transform.offset_x
            + viewport.spec_area_width() > picture.width ==> i == x + picture.width
            - viewport.spec_area_width(),
        picture.height < viewport.spec_area_height() ==> y == j + (viewport.spec_area_height()
            - picture.height) / 2,
        picture.height >= viewport.spec_area_height() && transform.offset_y
            + viewport.spec_area_height() <= picture.height ==> j == y + transform.offset_y,
        picture.height >= viewport.spec_area_height() && transform.offset_y
            + viewport.spec_area_height() > picture.height ==> j == y + picture.height
            - viewport.spec_area_height(),
    ensures
        ({
            let start = 4 * (y * viewport.spec_area_width() + x);
            &&& frame.rgba@[start] == picture.at(i, j).0
            &&& frame.rgba@[start + 1] == picture.at(i, j).1
            &&& frame.rgba@[start + 2] == picture.at(i, j).2
            &&& frame.rgba@[start + 3] == 255
        }),
{
    assert(frame_pixel(frame.rgba@, viewport.spec_area_width(), x, y) == placed_pixel(
        picture,
        viewport,
        transform,
        x,
        y,
    ));
}

/// A page scrolled down and to the right by no more than what lies outside the page area
/// is seen from that row and column on.
pub proof fn scrolling_shows_what_lies_below(
    frame: ComposedFrame,
    picture: Picture,
    viewport: WindowSize,
    transform: ViewTransform,
    x: int,
    y: int,
)
    requires
        frame.shows(picture, viewport, transform),
        0 <= x < viewport.spec_area_width(),
        0 <= y < viewport.spec_area_height(),
        transform.offset_x + viewport.spec_area_width() <= picture.width,
        transform.offset_y + viewport.spec_area_height() <= picture.height,
    ensures
        ({
            let start = 4 * (y * viewport.spec_area_width() + x);
            let pixel = picture.at(x + transform.offset_x, y + transform.offset_y);
            &&& frame.rgba@[start] == pixel.0
            &&& frame.rgba@[start + 1] == pixel.1
            &&& frame.rgba@[start + 2] == pixel.2
            &&& frame.rgba@[start + 3] == 255
        }),
{
    pictures_are_seen_from_the_offsets(
        frame,
        picture,
        viewport,
        transform,
        x,
        y,
        x + transform.offset_x,
        y + transform.offset_y,
    );
}

/// Beside a picture that is smaller than the page area nothing is drawn.
pub proof fn nothing_is_drawn_beside_small_pictures(
    frame: ComposedFrame,
    picture: Picture,
    viewport: WindowSize,
    transform: ViewTransform,
    x: int,
    y: int,
)
    requires
        frame.shows(picture, viewport, transform),
        0 <= x < viewport.spec_area_width(),
        0 <= y < viewport.spec_area_height(),
        (picture.width < viewport.spec_area_width() && (x < (viewport.spec_area_width()
            - picture.width) / 2 || x >= (viewport.spec_area_width() - picture.width) / 2
            + picture.width)) || (picture.height < viewport.spec_area_height() && (y < (
        viewport.spec_area_height() - picture.height) / 2 || y >= (viewport.spec_area_height()
            - picture.height) / 2 + picture.height)),
    ensures
        ({
            let start = 4 * (y * viewport.spec_area_width() + x);
            &&& frame.rgba@[start] == 0
            &&& frame.rgba@[start + 1] == 0
            &&& frame.rgba@[start + 2] == 0
            &&& frame.rgba@[start + 3] == 0
        }),
{
    assert(frame_pixel(frame.rgba@, viewport.spec_area_width(), x, y) == placed_pixel(
        picture,
        viewport,
        transform,
        x,
        y,
    ));
}

/// A composed frame shows the page with its hits marked; with its margins cut off as well
/// where that is asked for, and then scaled exactly if the rest is no larger than the page
/// area on either axis.
pub proof fn frames_show_the_marked_page(
    page: PageImage,
    viewport: WindowSize,
    transform: ViewTransform,
    frame: ComposedFrame,
)
    requires
        composes(page@, viewport, transform, Ok(frame)),
    ensures
        ({
            let whole = highlighted(page@.picture(), page.highlights@);
            let rest = whole.cropped();
            &&& !transform.auto_crop ==> frame.shows(whole, viewport, transform)
            &&& transform.auto_crop && (rest.width > viewport.spec_area_width() || rest.height
                > viewport.spec_area_height()) ==> frame.shows(rest, viewport, transform)
            &&& transform.auto_crop && rest.width <= viewport.spec_area_width() && rest.height
                <= viewport.spec_area_height() ==> exists|shown: Picture| #[trigger]
                may_scale_to(rest, viewport, shown) && frame.shows(shown, viewport, transform)
        }),
{
}

/// A scaled picture is made of the bytes of the picture, between these two sizes, and it
/// is the picture itself where the sizes are the same. It is no larger than the page area
/// and as large as that on one axis.
pub proof fn scaled_pictures_come_from_the_picture(
    picture: Picture,
    viewport: WindowSize,
    shown: Picture,
)
    requires
        1 <= picture.width <= viewport.spec_area_width(),
        1 <= picture.height <= viewport.spec_area_height(),
        may_scale_to(picture, viewport, shown),
    ensures
        resizes_to(
            bytes_of(picture),
            picture.width as u32,
            picture.height as u32,
            shown.width as u32,
            shown.height as u32,
            bytes_of(shown),
        ),
        shown.width == picture.width && shown.height == picture.height ==> shown == picture,
        1 <= shown.width <= viewport.spec_area_width(),
        1 <= shown.height <= viewport.spec_area_height(),
        shown.width == viewport.spec_area_width() || shown.height == viewport.spec_area_height(),
{
    scaled_picture_fills_an_axis(picture, viewport);
}

/// A frame shows a page that is neither cropped nor searched byte by byte: what stands at
/// column `x` of row `y` of a frame is what stands that much further right and down in
/// the page.
pub proof fn plain_pages_are_shown_byte_by_byte(
    page: PageImage,
    viewport: WindowSize,
    transform: ViewTransform,
    frame: ComposedFrame,
    x: int,
    y: int,
    channel: int,
)
    requires
        composes(page@, viewport, transform, Ok(frame)),
        !transform.auto_crop,
        page.highlights@.len() == 0,
        0 <= x < viewport.spec_area_width(),
        0 <= y < viewport.spec_area_height(),
        0 <= channel < 3,
        transform.offset_x + viewport.spec_area_width() <= page.width,
        transform.offset_y + viewport.spec_area_height() <= page.height,
    ensures
        frame.rgba@[4 * (y * viewport.spec_area_width() + x) + channel] == page.pixels@[(y
            + transform.offset_y) * page.row_stride + 3 * (x + transform.offset_x) + channel],
{
    let whole = highlighted(page@.picture(), page.highlights@);
    frames_show_the_marked_page(page, viewport, transform, frame);
    pixels_beside_hits_keep_their_colour(
        page@.picture(),
        page.highlights@,
        x + transform.offset_x,
        y + transform.offset_y,
    );
    pages_are_read_by_their_stride(page, x + transform.offset_x, y + transform.offset_y);
    scrolling_shows_what_lies_below(frame, whole, viewport, transform, x, y);
}

/// A page is composed exactly if the page area has pixels, the page can be read and has
/// pixels, and a frame of that size can be had. Otherwise the first of these that fails is
/// told.
pub proof fn pages_are_composed_unless_something_fails(page: PageImage, viewport: WindowSize)
    ensures
        compose_fault(page@, viewport) is None <==> viewport.spec_area_width() > 0
            && viewport.spec_area_height() > 0 && page@.fault() is None && page.width > 0
            && page.height > 0 && viewport.spec_frame_fault() is None,
        compose_fault(page@, viewport) == Some(ComposeError::NoDrawablePixels) <==> (
        viewport.spec_area_width() == 0 || viewport.spec_area_height() == 0),
        viewport.spec_area_width() > 0 && viewport.spec_area_height() > 0 && page@.fault() is Some
            ==> compose_fault(page@, viewport) == page@.fault(),
        viewport.spec_area_width() > 0 && viewport.spec_area_height() > 0 && page@.fault() is None
            && (page.width == 0 || page.height == 0) ==> compose_fault(page@, viewport) == Some(
            ComposeError::EmptyPage,
        ),
        compose_fault(page@, viewport) matches Some(ComposeError::Viewport(fault))
            ==> viewport.spec_frame_fault() == Some(fault),
{
    if viewport.spec_area_width() < 0 || viewport.spec_area_height() < 0 {
        assert(0 <= viewport.cols * viewport.cell_width_px) by (nonlinear_arith);
        assert(0 <= viewport.spec_page_rows() * viewport.cell_height_px) by (nonlinear_arith)
            requires
                viewport.spec_page_rows() >= 0,
        ;
    }
}

/// Composing fails exactly where there is a reason against it, and tells that reason.
pub proof fn composing_fails_for_its_reason(
    page: PageImage,
    viewport: WindowSize,
    transform: ViewTransform,
    frame: Result<ComposedFrame, ComposeError>,
)
    requires
        composes(page@, viewport, transform, frame),
    ensures
        frame is Err <==> compose_fault(page@, viewport) is Some,
        frame matches Err(error) ==> compose_fault(page@, viewport) == Some(error),
{
}

/// A page that is not to be cropped can always be composed, and so can one whose sides are
/// no longer than 2^20 pixels, if memory for it in full can be addressed.
pub proof fn ordinary_pages_can_be_composed(
    page: PageImage,
    viewport: WindowSize,
    transform: ViewTransform,
)
    ensures
        !transform.auto_crop ==> can_compose(page@, viewport, transform),
        page.width <= 0x10_0000 && page.height <= 0x10_0000 && 16 * (page.width
            * viewport.spec_area_height()) <= isize::MAX && 3 * (viewport.spec_area_width()
            * viewport.spec_area_height()) <= isize::MAX ==> can_compose(
            page@,
            viewport,
            transform,
        ),
{
    if page.width <= 0x10_0000 && page.height <= 0x10_0000 && 16 * (page.width
        * viewport.spec_area_height()) <= isize::MAX && 3 * (viewport.spec_area_width()
        * viewport.spec_area_height()) <= isize::MAX {
        small_pages_can_be_composed(page@, viewport, transform);
    }
}

/// Rows are packed one after another without what lies between them: a byte stands as
/// many whole rows and bytes behind the start as it stood.
pub proof fn rows_are_packed_one_after_another(
    pixels: Seq<u8>,
    base: int,
    stride: int,
    len: int,
    rows: nat,
    y: int,
    i: int,
)
    requires
        0 <= base,
        0 <= len <= stride,
        base + (rows - 1) * stride + len <= pixels.len(),
        0 <= y < rows,
        0 <= i < len,
    ensures
        packed_rows(pixels, base, stride, len, rows).len() == rows * len,
        packed_rows(pixels, base, stride, len, rows)[y * len + i] == pixels[base + y * stride + i],
{
    packed_byte(pixels, base, stride, len, rows, y, i);
}

/// What is wrong with the pane is told in the pane's own words.
pub proof fn faults_of_the_pane_are_passed_on(fault: GeometryError)
    ensures
        ComposeError::Viewport(fault).words() == fault.words(),
{
}

/// A scaled picture keeps its proportions. Where the pane is the narrower of the two, the
/// picture becomes as wide as the page area and as much higher as it becomes wider;
/// otherwise it becomes as high as the page area and as much wider as it becomes higher.
/// The other side is the nearest number of pixels, give or take a thousandth of a pixel,
/// inside the page area and never nothing.
pub proof fn scaled_pictures_keep_their_proportions(
    picture: Picture,
    viewport: WindowSize,
    shown: Picture,
)
    requires
        1 <= picture.width <= viewport.spec_area_width(),
        1 <= picture.height <= viewport.spec_area_height(),
        may_scale_to(picture, viewport, shown),
    ensures
        ({
            let width = viewport.spec_area_width();
            let height = viewport.spec_area_height();
            if width * picture.height <= height * picture.width {
                &&& shown.width == width
                &&& shown.height < height ==> 1024 * (picture.height * width - shown.height
                    * picture.width) <= 513 * picture.width
                &&& shown.height > 1 ==> 1024 * (shown.height * picture.width - picture.height
                    * width) <= 513 * picture.width
            } else {
                &&& shown.height == height
                &&& shown.width < width ==> 1024 * (picture.width * height - shown.width
                    * picture.height) <= 513 * picture.height
                &&& shown.width > 1 ==> 1024 * (shown.width * picture.height - picture.width
                    * height) <= 513 * picture.height
            }
        }),
{
    let width = viewport.spec_area_width() as u32;
    let height = viewport.spec_area_height() as u32;
    if width * picture.height <= height * picture.width {
        crate::rounding::deciding_side_fills_its_room(width, picture.width as u32);
        crate::rounding::sides_are_scaled_to_the_nearest_pixel(
            picture.height as u32,
            width,
            picture.width as u32,
            height,
        );
    } else {
        crate::rounding::deciding_side_fills_its_room(height, picture.height as u32);
        crate::rounding::sides_are_scaled_to_the_nearest_pixel(
            picture.width as u32,
            height,
            picture.height as u32,
            width,
        );
    }
}

} // verus!
