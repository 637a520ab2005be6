use vvrd::compositor::{
    compose_view, crop_whitespace_image, is_composable, ComposeError, HighlightRect, PageImage,
    ViewTransform,
};
use vvrd::geometry::{GeometryError, WindowSize};
use vvrd::picture::RgbImage;

fn page(pixels: Vec<u8>, width: u32, height: u32, row_stride: usize) -> PageImage {
    PageImage { pixels, width, height, row_stride, highlights: Vec::new() }
}

#[test]
fn centers_a_page_without_changing_viewport_size() {
    let page = page(vec![255, 0, 0, 255, 0, 0], 2, 1, 6);
    let viewport = WindowSize::from_cells(1, 2, 4, 4);
    let frame = compose_view(page, viewport, ViewTransform::default()).unwrap().rgba;
    assert_eq!(frame.len(), 4 * 4 * 4);
    assert_eq!(&frame[0..4], &[0, 0, 0, 0]);
    assert!(frame.chunks_exact(4).any(|pixel| pixel == [255, 0, 0, 255]));
}

#[test]
fn accepts_padded_rgb_rows() {
    let page = page(vec![1, 2, 3, 99, 4, 5, 6, 99], 1, 2, 4);
    assert!(compose_view(page, WindowSize::from_cells(1, 2, 1, 2), ViewTransform::default())
        .is_ok());
}

#[test]
fn view_offsets_crop_a_large_page() {
    let page = page((0..8).flat_map(|value| [value, 0, 0]).collect(), 8, 1, 24);
    let frame = compose_view(
        page,
        WindowSize::from_cells(1, 2, 4, 1),
        ViewTransform { offset_x: 3, offset_y: 0, auto_crop: false },
    )
    .unwrap();
    assert_eq!(frame.content_width, 8);
    assert_eq!(frame.rgba[0], 3);
}

#[test]
fn pages_stand_in_the_middle() {
    let viewport = WindowSize::from_cells(1, 2, 4, 4);
    let frame = compose_view(
        page(vec![1, 2, 3, 4, 5, 6], 2, 1, 6),
        viewport,
        ViewTransform { offset_x: 9, offset_y: 9, auto_crop: false },
    )
    .unwrap();
    let mut expected = vec![0u8; 64];
    expected[20..24].copy_from_slice(&[1, 2, 3, 255]);
    expected[24..28].copy_from_slice(&[4, 5, 6, 255]);
    assert_eq!(frame.rgba, expected);
    assert_eq!((frame.content_width, frame.content_height), (2, 1));
}

#[test]
fn offsets_stop_at_the_last_column() {
    let pixels: Vec<u8> = (0..8).flat_map(|value| [value, 0, 0]).collect();
    let frame = compose_view(
        page(pixels, 8, 1, 24),
        WindowSize::from_cells(1, 2, 4, 1),
        ViewTransform { offset_x: 100, offset_y: 100, auto_crop: false },
    )
    .unwrap();
    let reds: Vec<u8> = frame.rgba.chunks_exact(4).map(|pixel| pixel[0]).collect();
    assert_eq!(reds, vec![4, 5, 6, 7]);
}

#[test]
fn search_hits_are_marked() {
    let mut hit = page(vec![100, 200, 51, 100, 200, 51, 100, 200, 51], 3, 1, 9);
    hit.highlights.push(HighlightRect { x0: 1, y0: 0, x1: 9, y1: 9 });
    hit.highlights.push(HighlightRect { x0: 2, y0: 0, x1: 3, y1: 1 });
    hit.highlights.push(HighlightRect { x0: 2, y0: 1, x1: 3, y1: 9 });
    let frame =
        compose_view(hit, WindowSize::from_cells(1, 2, 3, 1), ViewTransform::default()).unwrap();
    assert_eq!(
        frame.rgba,
        vec![100, 200, 51, 255, 180, 255, 25, 255, 255, 255, 12, 255],
    );
}

#[test]
fn every_fault_is_reported() {
    let viewport = WindowSize::from_cells(1, 2, 4, 4);
    let fault = |page: PageImage| {
        compose_view(page, viewport, ViewTransform::default()).map(|_| ()).unwrap_err()
    };
    assert_eq!(fault(page(vec![0; 6], 2, 1, 5)), ComposeError::InvalidStride);
    assert_eq!(fault(page(vec![0; 5], 2, 1, 6)), ComposeError::Truncated);
    assert_eq!(fault(page(vec![], 2, u32::MAX, usize::MAX)), ComposeError::BufferSizeOverflow);
    assert_eq!(fault(page(vec![], 0, 1, 0)), ComposeError::EmptyPage);
    let flat = WindowSize { cols: 0, rows: 2, cell_width_px: 4, cell_height_px: 4 };
    let shown = compose_view(page(vec![0; 3], 1, 1, 3), flat, ViewTransform::default());
    assert_eq!(shown.map(|_| ()), Err(ComposeError::NoDrawablePixels));
    let vast = WindowSize::from_cells(65535, 65535, u32::MAX, u32::MAX);
    let shown = compose_view(page(vec![0; 3], 1, 1, 3), vast, ViewTransform::default());
    assert_eq!(
        shown.map(|_| ()),
        Err(ComposeError::Viewport(GeometryError::ByteCountOverflow)),
    );
}

#[test]
fn faults_have_words() {
    assert_eq!(ComposeError::NoDrawablePixels.message(), "viewport has no drawable pixels");
    assert_eq!(ComposeError::RowSizeOverflow.message(), "page row size overflow");
    assert_eq!(ComposeError::InvalidStride.message(), "invalid page row stride");
    assert_eq!(ComposeError::BufferSizeOverflow.message(), "page buffer size overflow");
    assert_eq!(ComposeError::Truncated.message(), "page pixel buffer is truncated");
    assert_eq!(ComposeError::EmptyPage.message(), "page image is empty");
    assert_eq!(
        ComposeError::Viewport(GeometryError::ByteCountOverflow).message(),
        "viewport byte count overflow",
    );
}

fn blot(width: u32, height: u32, x: u32, y: u32) -> Vec<u8> {
    let mut pixels = vec![255u8; (width * height * 3) as usize];
    let start = ((y * width + x) * 3) as usize;
    pixels[start..start + 3].copy_from_slice(&[0, 0, 0]);
    pixels
}

#[test]
fn margins_are_cut_off() {
    let image = RgbImage { width: 40, height: 30, pixels: blot(40, 30, 20, 10) };
    let cropped = crop_whitespace_image(image);
    assert_eq!((cropped.width, cropped.height), (17, 17));
    assert_eq!(cropped.pixels, blot(17, 17, 8, 8));
    let corner = RgbImage { width: 40, height: 30, pixels: blot(40, 30, 39, 2) };
    let cropped = crop_whitespace_image(corner);
    assert_eq!((cropped.width, cropped.height), (9, 11));
    assert_eq!(cropped.pixels, blot(9, 11, 8, 2));
}

#[test]
fn blank_pages_keep_their_margins() {
    let image = RgbImage { width: 4, height: 3, pixels: vec![255; 36] };
    let cropped = crop_whitespace_image(image);
    assert_eq!((cropped.width, cropped.height), (4, 3));
}

#[test]
fn cropped_pages_fill_the_pane() {
    let viewport = WindowSize::from_cells(60, 61, 1, 1);
    let frame = compose_view(
        page(blot(40, 30, 20, 10), 40, 30, 120),
        viewport,
        ViewTransform { offset_x: 0, offset_y: 0, auto_crop: true },
    )
    .unwrap();
    assert_eq!((frame.content_width, frame.content_height), (60, 60));
    assert_eq!(frame.rgba.len(), 60 * 60 * 4);
    assert!(frame.rgba.chunks_exact(4).any(|pixel| pixel[3] == 255 && pixel[0] < 128));
}

#[test]
fn rows_are_unpacked() {
    let image = page(vec![1, 2, 3, 99, 4, 5, 6, 99], 1, 2, 4).into_rgb().unwrap();
    assert_eq!((image.width, image.height), (1, 2));
    assert_eq!(image.pixels, vec![1, 2, 3, 4, 5, 6]);
}

#[test]
fn scaled_sizes_match_the_hardware() {
    for (width, height) in [(1u32, 1u32), (3, 7), (10, 3), (11, 13), (29, 31), (40, 40)] {
        for (cols, rows) in [(40u32, 41u32), (61, 47), (97, 89), (128, 50)] {
            let viewport = WindowSize::from_cells(cols as u16, rows as u16 + 1, 1, 1);
            let frame = compose_view(
                page(vec![0; (width * height * 3) as usize], width, height, width as usize * 3),
                viewport,
                ViewTransform { offset_x: 0, offset_y: 0, auto_crop: true },
            )
            .unwrap();
            let scale =
                (f64::from(cols) / f64::from(width)).min(f64::from(rows) / f64::from(height));
            let side = |length: u32, limit: u32| {
                ((f64::from(length) * scale).round() as u32).clamp(1, limit)
            };
            assert_eq!(frame.content_width, side(width, cols));
            assert_eq!(frame.content_height, side(height, rows));
        }
    }
}

#[test]
fn pictures_of_the_right_size_are_kept_as_they_are() {
    let pixels: Vec<u8> = (0..48).collect();
    let frame = compose_view(
        page(pixels.clone(), 4, 4, 12),
        WindowSize::from_cells(4, 5, 1, 1),
        ViewTransform { offset_x: 0, offset_y: 0, auto_crop: true },
    )
    .unwrap();
    let shown: Vec<u8> =
        frame.rgba.chunks_exact(4).flat_map(|pixel| pixel[..3].to_vec()).collect();
    assert_eq!(shown, pixels);
}

#[test]
fn pages_too_large_to_scale_are_told_apart() {
    let cropping = ViewTransform { offset_x: 0, offset_y: 0, auto_crop: true };
    let tall = WindowSize::from_cells(1, 3, 1, 1 << 30);
    assert!(is_composable(&page(vec![0; 3], 1, 1, 3), tall, cropping));
    let row = page(vec![0; 3 << 21], 1 << 21, 1, 3 << 21);
    let wide = WindowSize::from_cells(1, 2, 1 << 21, 1);
    assert!(!is_composable(&row, wide, cropping));
    assert!(is_composable(&row, wide, ViewTransform::default()));
    let narrow = WindowSize::from_cells(1, 2, 100, 1);
    assert!(is_composable(&row, narrow, cropping));
    let vast = WindowSize::from_cells(65535, 65535, u32::MAX, u32::MAX);
    assert!(is_composable(&row, vast, cropping));
    assert!(is_composable(&page(vec![], 1, 1, 3), wide, cropping));
}

#[test]
fn long_pages_are_shown_where_nothing_is_scaled() {
    let row = page(vec![7; 3 << 21], 1 << 21, 1, 3 << 21);
    let frame = compose_view(
        row,
        WindowSize::from_cells(1, 2, 2, 1),
        ViewTransform { offset_x: 0, offset_y: 0, auto_crop: true },
    )
    .unwrap();
    assert_eq!(frame.rgba, vec![7, 7, 7, 255, 7, 7, 7, 255]);
}

#[test]
fn scaling_shows_the_colors_of_the_page() {
    let shown = |color: [u8; 3]| {
        let pixels: Vec<u8> = (0..12).flat_map(|_| color).collect();
        compose_view(
            page(pixels, 4, 3, 12),
            WindowSize::from_cells(16, 13, 1, 1),
            ViewTransform { offset_x: 0, offset_y: 0, auto_crop: true },
        )
        .unwrap()
    };
    for color in [[10, 120, 200], [200, 30, 60]] {
        let frame = shown(color);
        assert_eq!((frame.content_width, frame.content_height), (16, 12));
        assert!(frame.rgba.chunks_exact(4).all(|pixel| pixel[..3] == color));
    }
}

#[test]
fn cropping_twice_is_cropping_once() {
    let image = RgbImage { width: 40, height: 30, pixels: blot(40, 30, 20, 3) };
    let once = crop_whitespace_image(image);
    let size = (once.width, once.height);
    let pixels = once.pixels.clone();
    let twice = crop_whitespace_image(once);
    assert_eq!((twice.width, twice.height), size);
    assert_eq!(twice.pixels, pixels);
}
