use vvrd::geometry::{DisplayState, GeometryError, WindowSize};

#[test]
fn reserves_the_last_row_for_status() {
    let size = WindowSize::from_cells(80, 24, 10, 20);
    assert_eq!(size.page_rows(), 23);
    assert_eq!(size.page_area_width_px(), 800);
    assert_eq!(size.page_area_height_px(), 460);
    assert_eq!(size.framebuffer_len().unwrap(), 800 * 460 * 4);
}

#[test]
fn tiny_panes_still_have_a_page_row() {
    let size = WindowSize::from_cells(1, 1, 0, 0);
    assert_eq!(size.rows, 2);
    assert_eq!(size.page_rows(), 1);
}

fn display(grid_columns: u32, grid_rows: u32, cell_width: u32, cell_height: u32) -> DisplayState {
    DisplayState { grid_columns, grid_rows, cell_width, cell_height }
}

#[test]
fn the_presenter_decides_the_pane_size() {
    let size = WindowSize::current(display(100, 40, 9, 18), (80, 24)).unwrap();
    assert_eq!(size, WindowSize { cols: 100, rows: 40, cell_width_px: 9, cell_height_px: 18 });
}

#[test]
fn the_terminal_fills_in_for_the_presenter() {
    let size = WindowSize::current(display(0, 1, 0, 0), (80, 24)).unwrap();
    assert_eq!(size, WindowSize { cols: 80, rows: 24, cell_width_px: 10, cell_height_px: 20 });
    let size = WindowSize::current(display(65536, 65536, 7, 0), (80, 24)).unwrap();
    assert_eq!(size, WindowSize { cols: 80, rows: 24, cell_width_px: 7, cell_height_px: 20 });
}

#[test]
fn unusable_sizes_are_refused() {
    let error = WindowSize::current(display(0, 0, 0, 0), (0, 0)).unwrap_err();
    assert_eq!(error, GeometryError::ZeroColumns);
    assert_eq!(error.message(), "presenter and terminal reported zero columns");
    let error = WindowSize::current(display(80, 1, 0, 0), (80, 1)).unwrap_err();
    assert_eq!(error, GeometryError::TooFewRows);
    assert_eq!(error.message(), "vvrd requires at least two terminal rows");
}

#[test]
fn oversized_areas_saturate_and_overflow() {
    let size = WindowSize::from_cells(65535, 65535, u32::MAX, u32::MAX);
    assert_eq!(size.page_area_width_px(), u32::MAX);
    assert_eq!(size.page_area_height_px(), u32::MAX);
    assert_eq!(size.framebuffer_len(), Err(GeometryError::ByteCountOverflow));
    assert_eq!(GeometryError::ByteCountOverflow.message(), "viewport byte count overflow");
    assert_eq!(GeometryError::AddressSpace.message(), "viewport buffer exceeds address space");
}
