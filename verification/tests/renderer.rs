use std::collections::VecDeque;

use vvrd::compositor::PageImage;
use vvrd::error::RenderError;
use vvrd::geometry::WindowSize;
use vvrd::renderer::{
    document_kind, document_page_count, export_picture, lies_on_its_side, next_render_command,
    page_to_render, page_total, panic_message, render_page, render_with_isolation, tint_colors,
    turned_by, unwritable, DocumentKind, RenderCmd, RenderOptions, MUPDF_BLACK, MUPDF_WHITE,
    TINT_BLACK, TINT_WHITE,
};

fn image(value: u8) -> PageImage {
    PageImage {
        pixels: vec![value; 3],
        width: 1,
        height: 1,
        row_stride: 3,
        highlights: Vec::new(),
    }
}

#[test]
fn render_requests_coalesce_without_crossing_queries() {
    let (sender, receiver) = flume::unbounded();
    let viewport = WindowSize::from_cells(80, 24, 10, 20);
    for generation in [1, 2] {
        sender
            .send(RenderCmd::Render {
                page: generation as usize,
                options: RenderOptions::for_viewport(viewport, generation),
            })
            .unwrap();
    }
    sender.send(RenderCmd::GetLinks(2)).unwrap();
    sender
        .send(RenderCmd::Render {
            page: 3,
            options: RenderOptions::for_viewport(viewport, 3),
        })
        .unwrap();
    let mut commands: VecDeque<RenderCmd> = receiver.drain().collect();
    let mut deferred = VecDeque::new();
    assert!(matches!(
        next_render_command(&mut commands, &mut deferred),
        Some(RenderCmd::Render { page: 2, .. })
    ));
    assert!(matches!(
        next_render_command(&mut commands, &mut deferred),
        Some(RenderCmd::GetLinks(2))
    ));
    assert!(matches!(
        next_render_command(&mut commands, &mut deferred),
        Some(RenderCmd::Render { page: 3, .. })
    ));
    assert!(next_render_command(&mut commands, &mut deferred).is_none());
}

#[test]
fn queries_are_taken_in_order() {
    let viewport = WindowSize::from_cells(80, 24, 10, 20);
    let render = |page| RenderCmd::Render {
        page,
        options: RenderOptions::for_viewport(viewport, 1),
    };
    let mut commands = VecDeque::from(vec![
        RenderCmd::ClearCache,
        render(1),
        RenderCmd::Search("a".to_owned()),
        RenderCmd::GetLinks(4),
        render(2),
        render(3),
    ]);
    let mut deferred = VecDeque::new();
    let mut taken = Vec::new();
    while let Some(command) = next_render_command(&mut commands, &mut deferred) {
        assert!(deferred.len() <= 1);
        taken.push(match command {
            RenderCmd::Render { page, .. } => format!("render {page}"),
            RenderCmd::Search(term) => format!("search {term}"),
            RenderCmd::ClearCache => "clear".to_owned(),
            RenderCmd::GetLinks(page) => format!("links {page}"),
            RenderCmd::Export { .. } => unreachable!(),
            RenderCmd::Shutdown => unreachable!(),
        });
    }
    assert_eq!(taken, vec!["clear", "render 1", "search a", "links 4", "render 3"]);
}

#[test]
fn options_fill_the_page_area() {
    let options = RenderOptions::for_viewport(WindowSize::from_cells(80, 24, 10, 20), 9);
    assert_eq!(f32::from_bits(options.width_px), 800.0);
    assert_eq!(f32::from_bits(options.height_px), 460.0);
    assert_eq!(f32::from_bits(options.epub_font_size), 11.0);
    assert_eq!((options.black, options.white, options.generation), (0, 0xff_ffff, 9));
    assert!(options.search_term.is_none());
}

#[test]
fn colors_are_big_endian() {
    assert_eq!(MUPDF_BLACK, 0);
    assert_eq!(MUPDF_WHITE, i32::from_be_bytes([0, 0xff, 0xff, 0xff]));
    assert_eq!(TINT_BLACK, i32::from_be_bytes([0, 0x70, 0x42, 0x14]));
    assert_eq!(TINT_WHITE, i32::from_be_bytes([0, 0xF5, 0xE6, 0xC8]));
}

#[test]
fn pages_are_tinted_where_their_colors_change() {
    let mut options = RenderOptions::for_viewport(WindowSize::from_cells(80, 24, 10, 20), 1);
    assert_eq!(tint_colors(&options), None);
    options.inverted = true;
    assert_eq!(tint_colors(&options), Some((MUPDF_WHITE, MUPDF_BLACK)));
    options.tinted = true;
    assert_eq!(tint_colors(&options), Some((TINT_WHITE, TINT_BLACK)));
    options.inverted = false;
    assert_eq!(tint_colors(&options), Some((TINT_BLACK, TINT_WHITE)));
    options.tinted = false;
    options.black = 7;
    assert_eq!(tint_colors(&options), Some((7, MUPDF_WHITE)));
}

#[test]
fn turns_are_taken_apart() {
    assert!(lies_on_its_side(90) && lies_on_its_side(270));
    assert!(!lies_on_its_side(0) && !lies_on_its_side(180) && !lies_on_its_side(360));
    assert_eq!((turned_by(450), turned_by(270), turned_by(360)), (90, 270, 0));
}

#[test]
fn page_counts_are_checked() {
    assert_eq!((page_total(None), page_total(Some(-3)), page_total(Some(5))), (0, 0, 5));
    assert!(matches!(document_page_count(Ok(4)), Ok(4)));
    assert!(matches!(document_page_count(Ok(0)), Err(RenderError::EmptyDocument)));
    assert!(matches!(document_page_count(Ok(-1)), Err(RenderError::EmptyDocument)));
    let failed = document_page_count(Err(RenderError::Mupdf("cannot open".to_owned())));
    assert_eq!(failed.unwrap_err().message(), "mupdf error: cannot open");
    assert_eq!(document_kind(Some(true)), DocumentKind::Reflowable);
    assert_eq!(document_kind(Some(false)), DocumentKind::Fixed);
    assert_eq!(document_kind(None), DocumentKind::Fixed);
}

#[test]
fn requests_beyond_the_document_get_its_last_page() {
    assert!(matches!(page_to_render(9, 3), Ok(2)));
    assert!(matches!(page_to_render(1, 3), Ok(1)));
    assert!(matches!(page_to_render(0, 0), Err(RenderError::EmptyDocument)));
    let document = render_page(9, 3, Ok(image(1))).ok().unwrap();
    assert_eq!((document.page_num, document.n_pages), (2, 3));
    assert_eq!(document.page.pixels, vec![1; 3]);
    let error = render_page(0, 0, Ok(image(1))).err().unwrap();
    assert_eq!(error.message(), "document has no pages");
    let error = render_page(0, 1, Err(RenderError::Converting("x".to_owned()))).err().unwrap();
    assert_eq!(error.message(), "conversion error: x");
}

#[test]
fn panics_become_errors() {
    assert_eq!(panic_message(Some("boom"), None), "boom");
    assert_eq!(panic_message(None, Some("bang".to_owned())), "bang");
    assert_eq!(panic_message(None, None), "unknown panic");
    let error = render_with_isolation(4, Err("boom".to_owned())).unwrap_err();
    assert_eq!(error.message(), "rendering page 5 panicked: boom");
    assert_eq!(render_with_isolation(4, Ok(Ok(image(2)))).unwrap().pixels, vec![2; 3]);
}

#[test]
fn exported_pictures_may_be_cropped() {
    let mut page = PageImage {
        pixels: vec![255; 40 * 40 * 3],
        width: 40,
        height: 40,
        row_stride: 120,
        highlights: Vec::new(),
    };
    page.pixels[(20 * 40 + 20) * 3] = 0;
    assert_eq!(export_picture(page.clone(), false).unwrap().width, 40);
    assert!(export_picture(page.clone(), true).unwrap().width < 40);
    page.row_stride = 1;
    assert_eq!(
        export_picture(page, true).unwrap_err().message(),
        "conversion error: invalid page row stride",
    );
    assert_eq!(
        unwritable("/tmp/x.png", "denied").message(),
        "conversion error: cannot write /tmp/x.png: denied",
    );
}
