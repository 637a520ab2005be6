//! The size of the reader's pane: terminal cells, the pixels they cover, and the
//! part of them that shows the page.
use vstd::prelude::*;

verus! {

/// Cell width used when the presenter does not report one.
pub const DEFAULT_CELL_WIDTH_PX: u32 = 10;

/// Cell height used when the presenter does not report one.
pub const DEFAULT_CELL_HEIGHT_PX: u32 = 20;

/// What a presenter reports about the display it draws on.
#[derive(Debug, Clone, Copy, PartialEq, Eq, Structural)]
pub struct DisplayState {
    pub grid_columns: u32,
    pub grid_rows: u32,
    pub cell_width: u32,
    pub cell_height: u32,
}

/// Why a pane size cannot be used.
#[derive(Debug, Clone, Copy, PartialEq, Eq, Structural)]
pub enum GeometryError {
    /// Neither the presenter nor the terminal reported a usable column count.
    ZeroColumns,
    /// Neither the presenter nor the terminal reported two rows or more.
    TooFewRows,
    /// The frame's byte count does not fit in 64 bits.
    ByteCountOverflow,
    /// The frame's byte count does not fit in an address.
    AddressSpace,
}

impl GeometryError {
    /// The words shown to the reader for this error.
    pub open spec fn words(self) -> Seq<char> {
        match self {
            GeometryError::ZeroColumns => "presenter and terminal reported zero columns"@,
            GeometryError::TooFewRows => "vvrd requires at least two terminal rows"@,
            GeometryError::ByteCountOverflow => "viewport byte count overflow"@,
            GeometryError::AddressSpace => "viewport buffer exceeds address space"@,
        }
    }

    /// The words shown to the reader for this error.
    pub fn message(&self) -> (text: String)
        ensures
            text@ == self.words(),
    {
        match self {
            GeometryError::ZeroColumns => "presenter and terminal reported zero columns".to_owned(),
            GeometryError::TooFewRows => "vvrd requires at least two terminal rows".to_owned(),
            GeometryError::ByteCountOverflow => "viewport byte count overflow".to_owned(),
            GeometryError::AddressSpace => "viewport buffer exceeds address space".to_owned(),
        }
    }
}

/// A pane, in cells and in pixels per cell.
#[derive(Debug, Clone, Copy, PartialEq, Eq, Structural)]
pub struct WindowSize {
    pub cols: u16,
    pub rows: u16,
    pub cell_width_px: u32,
    pub cell_height_px: u32,
}

/// The larger of two integers.
pub open spec fn larger(a: int, b: int) -> int {
    if a >= b {
        a
    } else {
        b
    }
}

/// The smaller of two integers.
pub open spec fn smaller(a: int, b: int) -> int {
    if a <= b {
        a
    } else {
        b
    }
}

/// A count of cells as reported: by the presenter where it is at least `least` and
/// fits in sixteen bits, else by the terminal where that is at least `least`.
pub open spec fn reported_cells(presenter: u32, terminal: u16, least: int) -> Option<u16> {
    if least <= presenter <= u16::MAX {
        Some(presenter as u16)
    } else if terminal >= least {
        Some(terminal)
    } else {
        None
    }
}

impl WindowSize {
    /// Rows of cells that show the page: all but the status row, and never none.
    pub open spec fn spec_page_rows(self) -> int {
        larger(self.rows - 1, 1)
    }

    /// Width of the page area in pixels, capped at the largest `u32`.
    pub open spec fn spec_area_width(self) -> int {
        smaller(self.cols * self.cell_width_px, u32::MAX as int)
    }

    /// Height of the page area in pixels, capped at the largest `u32`.
    pub open spec fn spec_area_height(self) -> int {
        smaller(self.spec_page_rows() * self.cell_height_px, u32::MAX as int)
    }

    /// Bytes of one four-channel frame that fills the page area.
    pub open spec fn spec_frame_bytes(self) -> int {
        4 * (self.spec_area_width() * self.spec_area_height())
    }

    /// Why no buffer can hold a frame of this size.
    pub open spec fn spec_frame_fault(self) -> Option<GeometryError> {
        if self.spec_frame_bytes() > u64::MAX {
            Some(GeometryError::ByteCountOverflow)
        } else if self.spec_frame_bytes() > usize::MAX {
            Some(GeometryError::AddressSpace)
        } else {
            None
        }
    }

    /// A size that `current` and `from_cells` produce: something to draw on, and a
    /// row left for the status line.
    pub open spec fn usable(self) -> bool {
        &&& self.cols >= 1
        &&& self.rows >= 2
        &&& self.cell_width_px >= 1
        &&& self.cell_height_px >= 1
    }

    /// The pane size for what the presenter reports and, where that is not usable,
    /// for the size `(columns, rows)` that the terminal itself reports.
    pub fn current(display: DisplayState, terminal: (u16, u16)) -> (size: Result<
        Self,
        GeometryError,
    >)
        ensures
            match (
                reported_cells(display.grid_columns, terminal.0, 1),
                reported_cells(display.grid_rows, terminal.1, 2),
            ) {
                (None, _) => size == Err::<Self, GeometryError>(GeometryError::ZeroColumns),
                (Some(_), None) => size == Err::<Self, GeometryError>(GeometryError::TooFewRows),
                (Some(cols), Some(rows)) => size == Ok::<Self, GeometryError>(
                    WindowSize {
                        cols,
                        rows,
                        cell_width_px: if display.cell_width == 0 {
                            DEFAULT_CELL_WIDTH_PX
                        } else {
                            display.cell_width
                        },
                        cell_height_px: if display.cell_height == 0 {
                            DEFAULT_CELL_HEIGHT_PX
                        } else {
                            display.cell_height
                        },
                    },
                ),
            },
            size matches Ok(found) ==> found.usable(),
    {
        let max_cells: u32 = 65535;
        let cols: u16 = if 1 <= display.grid_columns && display.grid_columns <= max_cells {
            display.grid_columns as u16
        } else if terminal.0 > 0 {
            terminal.0
        } else {
            return Err(GeometryError::ZeroColumns);
        };
        let rows: u16 = if 2 <= display.grid_rows && display.grid_rows <= max_cells {
            display.grid_rows as u16
        } else if terminal.1 > 1 {
            terminal.1
        } else {
            return Err(GeometryError::TooFewRows);
        };
        Ok(
            WindowSize {
                cols,
                rows,
                cell_width_px: if display.cell_width == 0 {
                    DEFAULT_CELL_WIDTH_PX
                } else {
                    display.cell_width
                },
                cell_height_px: if display.cell_height == 0 {
                    DEFAULT_CELL_HEIGHT_PX
                } else {
                    display.cell_height
                },
            },
        )
    }

    /// The pane with the given cells, each count raised to the least that works.
    pub fn from_cells(cols: u16, rows: u16, cell_width_px: u32, cell_height_px: u32) -> (size: Self)
        ensures
            size.cols == larger(cols as int, 1),
            size.rows == larger(rows as int, 2),
            size.cell_width_px == larger(cell_width_px as int, 1),
            size.cell_height_px == larger(cell_height_px as int, 1),
            size.usable(),
    {
        WindowSize {
            cols: cols.max(1),
            rows: rows.max(2),
            cell_width_px: cell_width_px.max(1),
            cell_height_px: cell_height_px.max(1),
        }
    }

    /// Rows of cells that show the page.
    pub fn page_rows(self) -> (rows: u16)
        ensures
            rows == self.spec_page_rows(),
            rows >= 1,
    {
        self.rows.saturating_sub(1).max(1)
    }

    /// Width of the page area in pixels.
    pub fn page_area_width_px(self) -> (width: u32)
        ensures
            width == self.spec_area_width(),
    {
        saturating_product(self.cols, self.cell_width_px)
    }

    /// Height of the page area in pixels.
    pub fn page_area_height_px(self) -> (height: u32)
        ensures
            height == self.spec_area_height(),
    {
        saturating_product(self.page_rows(), self.cell_height_px)
    }

    /// Bytes of one frame: four for each pixel of the page area.
    pub fn framebuffer_len(self) -> (len: Result<usize, GeometryError>)
        ensures
            match len {
                Ok(bytes) => self.spec_frame_fault() is None && bytes == self.spec_frame_bytes(),
                Err(error) => self.spec_frame_fault() == Some(error),
            },
    {
        let width: u64 = self.page_area_width_px() as u64;
        let height: u64 = self.page_area_height_px() as u64;
        assert(width * height <= u64::MAX) by (nonlinear_arith)
            requires
                width <= u32::MAX,
                height <= u32::MAX,
        ;
        let pixels: u64 = width * height;
        match pixels.checked_mul(4) {
            None => Err(GeometryError::ByteCountOverflow),
            Some(bytes) => if bytes <= usize::MAX as u64 {
                Ok(bytes as usize)
            } else {
                Err(GeometryError::AddressSpace)
            },
        }
    }
}

/// `count * each`, capped at the largest `u32`.
fn saturating_product(count: u16, each: u32) -> (product: u32)
    ensures
        product == smaller(count * each, u32::MAX as int),
{
    assert(count * each <= u64::MAX) by (nonlinear_arith)
        requires
            count <= u16::MAX,
            each <= u32::MAX,
    ;
    let exact: u64 = count as u64 * each as u64;
    if exact <= u32::MAX as u64 {
        exact as u32
    } else {
        u32::MAX
    }
}

/// A usable pane always has pixels to draw a page on.
pub proof fn usable_pane_is_drawable(size: WindowSize)
    requires
        size.usable(),
    ensures
        size.spec_area_width() >= 1,
        size.spec_area_height() >= 1,
{
    assert(size.cols * size.cell_width_px >= 1) by (nonlinear_arith)
        requires
            size.cols >= 1,
            size.cell_width_px >= 1,
    ;
    assert(size.spec_page_rows() * size.cell_height_px >= 1) by (nonlinear_arith)
        requires
            size.spec_page_rows() >= 1,
            size.cell_height_px >= 1,
    ;
}

/// The page area and the status line share out the rows of a usable pane: the page
/// never covers the last row.
pub proof fn status_row_is_reserved(size: WindowSize)
    requires
        size.usable(),
    ensures
        size.spec_page_rows() + 1 == size.rows,
{
}

/// The page area is as wide as all columns of the pane and as high as all its rows but
/// one, in pixels; a pane of a single row gives that row to the page. What does not fit
/// in thirty-two bits is cut to the largest number that does.
pub proof fn page_area_is_made_of_cells(size: WindowSize)
    ensures
        size.cols * size.cell_width_px < 0x1_0000_0000 ==> size.spec_area_width() == size.cols
            * size.cell_width_px,
        size.cols * size.cell_width_px >= 0x1_0000_0000 ==> size.spec_area_width() == 0xffff_ffff,
        size.rows >= 2 ==> size.spec_page_rows() == size.rows - 1,
        size.rows < 2 ==> size.spec_page_rows() == 1,
        size.rows >= 2 && (size.rows - 1) * size.cell_height_px < 0x1_0000_0000
            ==> size.spec_area_height() == (size.rows - 1) * size.cell_height_px,
        size.rows >= 2 && (size.rows - 1) * size.cell_height_px >= 0x1_0000_0000
            ==> size.spec_area_height() == 0xffff_ffff,
        size.rows < 2 ==> size.spec_area_height() == size.cell_height_px,
{
    assert(1 * size.cell_height_px == size.cell_height_px);
}

/// A frame has four bytes for each pixel of the page area, and it is refused exactly
/// where that many bytes cannot be counted in sixty-four bits or not be addressed.
pub proof fn frames_have_four_bytes_a_pixel(size: WindowSize)
    ensures
        size.spec_frame_bytes() == size.spec_area_width() * size.spec_area_height() * 4,
        size.spec_frame_fault() == Some(GeometryError::ByteCountOverflow) <==> size.spec_area_width()
            * size.spec_area_height() * 4 >= 0x1_0000_0000_0000_0000,
        size.spec_frame_fault() is None <==> size.spec_area_width() * size.spec_area_height() * 4
            < 0x1_0000_0000_0000_0000 && size.spec_area_width() * size.spec_area_height() * 4
            <= usize::MAX,
        size.spec_frame_fault() is None || size.spec_frame_fault() == Some(
            GeometryError::ByteCountOverflow,
        ) || size.spec_frame_fault() == Some(GeometryError::AddressSpace),
{
}

/// The presenter's count of cells is taken if it is at least the least and fits in
/// sixteen bits. Otherwise the terminal's is, if it is at least the least, and there is
/// none if it is not.
pub proof fn the_presenter_counts_first(presenter: u32, terminal: u16, least: int)
    ensures
        least <= presenter && presenter < 0x1_0000 ==> (reported_cells(presenter, terminal, least)
            matches Some(cells) && cells == presenter),
        (presenter < least || presenter >= 0x1_0000) && least <= terminal ==> reported_cells(
            presenter,
            terminal,
            least,
        ) == Some(terminal),
        (presenter < least || presenter >= 0x1_0000) && terminal < least ==> reported_cells(
            presenter,
            terminal,
            least,
        ) is None,
{
}

} // verus!
