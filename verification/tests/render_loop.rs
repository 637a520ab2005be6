use std::path::PathBuf;

use vvrd::compositor::PageImage;
use vvrd::document::{MetadataName, Outline};
use vvrd::error::RenderError;
use vvrd::geometry::WindowSize;
use vvrd::render_loop::{opening_failed, RenderLoop, RenderPhase};
use vvrd::renderer::{DocumentKind, LinkInfo, RenderCmd, RenderEvent, RenderOptions};

fn viewport() -> WindowSize {
    WindowSize::from_cells(80, 24, 10, 20)
}

fn opened(kind: DocumentKind, viewport: WindowSize) -> RenderLoop {
    let opening = RenderLoop::new(kind, viewport);
    assert!(matches!(opening.phase, RenderPhase::Opening));
    opening.opened(true)
}

fn options(generation: u64) -> RenderOptions {
    RenderOptions::for_viewport(viewport(), generation)
}

fn image(value: u8) -> PageImage {
    PageImage {
        pixels: vec![value; 3],
        width: 1,
        height: 1,
        row_stride: 3,
        highlights: Vec::new(),
    }
}

fn render(page: usize, generation: u64) -> Option<RenderCmd> {
    Some(RenderCmd::Render { page, options: options(generation) })
}

fn assert_page(event: Option<RenderEvent>, page: usize, generation: u64, value: u8) {
    match event {
        Some(RenderEvent::Page { page: shown, generation: of, image }) => {
            assert_eq!((shown, of, image.pixels[0]), (page, generation, value));
        }
        _ => panic!("no page was answered with"),
    }
}

fn assert_error(event: Option<RenderEvent>, words: &str) {
    match event {
        Some(RenderEvent::Error(text)) => assert_eq!(text, words),
        _ => panic!("no error was told"),
    }
}

#[test]
fn pages_are_rendered_once() {
    let idle = opened(DocumentKind::Fixed, viewport());
    assert!(idle.layout.is_none());
    let (busy, event) = idle.command(render(4, 1));
    assert!(event.is_none());
    assert!(matches!(busy.phase, RenderPhase::Rendering { page: 4, .. }));
    let (sending, event) = busy.rendered(Ok(image(9)));
    assert_page(event, 4, 1, 9);
    let checking = sending.sent(true);
    assert!(matches!(checking.phase, RenderPhase::CheckingQueue { page: 4, .. }));
    let idle = checking.queue_checked(false, 10);
    let (sending, event) = idle.command(render(4, 7));
    assert_page(event, 4, 7, 9);
    assert!(matches!(sending.phase, RenderPhase::Sending { answer: true, .. }));
    let idle = sending.sent(true).queue_checked(false, 10);
    let (idle, event) = idle.command(Some(RenderCmd::ClearCache));
    assert!(event.is_none());
    let (busy, _) = idle.command(render(4, 8));
    assert!(matches!(busy.phase, RenderPhase::Rendering { page: 4, .. }));
}

fn shown(page: usize) -> RenderLoop {
    let (busy, _) = opened(DocumentKind::Fixed, viewport()).command(render(page, 1));
    busy.rendered(Ok(image(0))).0.sent(true)
}

#[test]
fn neighbors_are_rendered_ahead() {
    let ahead = shown(4).queue_checked(true, 10);
    assert!(matches!(ahead.phase, RenderPhase::Prerendering { page: 5, other: Some(3), .. }));
    let behind = ahead.prerendered(Some(image(5)));
    assert!(matches!(behind.phase, RenderPhase::Prerendering { page: 3, other: None, .. }));
    let idle = behind.prerendered(None);
    assert!(matches!(idle.phase, RenderPhase::Waiting));
    let (sending, event) = idle.command(render(5, 2));
    assert_page(event, 5, 2, 5);
    let ahead = sending.sent(true).queue_checked(true, 10);
    assert!(matches!(ahead.phase, RenderPhase::Prerendering { page: 6, other: Some(4), .. }));
    let idle = ahead.prerendered(Some(image(6)));
    assert!(matches!(idle.phase, RenderPhase::Waiting));
}

#[test]
fn nothing_beyond_the_ends_is_rendered_ahead() {
    let behind = shown(9).queue_checked(true, 10);
    assert!(matches!(behind.phase, RenderPhase::Prerendering { page: 8, other: None, .. }));
    let ahead = shown(0).queue_checked(true, 2);
    assert!(matches!(ahead.phase, RenderPhase::Prerendering { page: 1, other: None, .. }));
    let idle = shown(0).queue_checked(true, 1);
    assert!(matches!(idle.phase, RenderPhase::Waiting));
}

#[test]
fn a_new_size_lays_the_document_out_again() {
    let idle = opened(DocumentKind::Reflowable, viewport());
    let (busy, _) = idle.command(render(0, 1));
    assert!(matches!(busy.phase, RenderPhase::Rendering { .. }));
    let idle = busy.rendered(Ok(image(1))).0.sent(true).queue_checked(false, 1);
    let mut larger = options(2);
    larger.epub_font_size = 12.0f32.to_bits();
    let (busy, event) =
        idle.command(Some(RenderCmd::Render { page: 0, options: larger.clone() }));
    assert!(event.is_none());
    assert!(matches!(busy.phase, RenderPhase::LayingOut { page: 0, .. }));
    let (busy, event) = busy.laid_out(Ok(DocumentKind::Reflowable));
    assert!(event.is_none());
    assert!(matches!(busy.phase, RenderPhase::Announcing { .. }));
    assert_eq!(busy.cache.len(), 0);
    let (busy, _) = busy.announced();
    assert!(matches!(busy.phase, RenderPhase::Rendering { .. }));
    let idle = busy.rendered(Ok(image(2))).0.sent(true).queue_checked(false, 1);
    let (_, event) = idle.command(Some(RenderCmd::Render { page: 0, options: larger }));
    assert_page(event, 0, 2, 2);
}

#[test]
fn a_failed_layout_is_told() {
    let idle = opened(DocumentKind::Reflowable, WindowSize::from_cells(1, 2, 1, 1));
    let (busy, _) = idle.command(render(0, 1));
    let (sending, event) = busy.laid_out(Err("no fonts".to_owned()));
    assert_error(event, "no fonts");
    assert!(matches!(sending.sent(false).phase, RenderPhase::Waiting));
}

#[test]
fn both_zeros_are_one_layout() {
    let mut idle = opened(DocumentKind::Reflowable, viewport());
    idle.layout = Some((0.0f32.to_bits(), 0.0f32.to_bits(), 0.0f32.to_bits()));
    let mut zero = options(1);
    zero.width_px = (-0.0f32).to_bits();
    zero.height_px = 0.0f32.to_bits();
    zero.epub_font_size = (-0.0f32).to_bits();
    let (busy, _) = idle.command(Some(RenderCmd::Render { page: 0, options: zero }));
    assert!(matches!(busy.phase, RenderPhase::Rendering { .. }));
}

#[test]
fn errors_are_told_and_end_nothing() {
    let idle = opened(DocumentKind::Fixed, viewport());
    let (busy, _) = idle.command(render(2, 1));
    let panicked = RenderError::Panicked { page: 2, message: "boom".to_owned() };
    let (sending, event) = busy.rendered(Err(panicked));
    assert_error(event, "rendering page 3 panicked: boom");
    let idle = sending.sent(false);
    let (busy, _) = idle.command(Some(RenderCmd::Search("needle".to_owned())));
    assert!(matches!(&busy.phase, RenderPhase::Searching(term) if term == "needle"));
    let (sending, event) = busy.searched(Err(RenderError::EmptyDocument));
    assert_error(event, "document has no pages");
    assert!(matches!(sending.sent(false).phase, RenderPhase::Waiting));
}

#[test]
fn queries_are_answered() {
    let idle = opened(DocumentKind::Fixed, viewport());
    let (busy, _) = idle.command(Some(RenderCmd::Search("needle".to_owned())));
    let (sending, event) = busy.searched(Ok(vec![0, 2]));
    assert!(matches!(event, Some(RenderEvent::SearchComplete(counts)) if counts == vec![0, 2]));
    let (busy, _) = sending.sent(true).command(Some(RenderCmd::GetLinks(3)));
    assert!(matches!(busy.phase, RenderPhase::FindingLinks(3)));
    let link = LinkInfo { text: "Page 1".to_owned(), uri: "#1".to_owned(), page: Some(0) };
    let (sending, event) = busy.links_found(vec![link.clone()]);
    assert!(matches!(event, Some(RenderEvent::Links(links)) if links == vec![link]));
    let (busy, _) = sending.sent(true).command(Some(RenderCmd::Export {
        page: 1,
        output: PathBuf::from("/tmp/x.png"),
        options: options(1),
        auto_crop: true,
    }));
    assert!(matches!(busy.phase, RenderPhase::Exporting { page: 1, auto_crop: true, .. }));
    let (sending, event) = busy.exported(Ok(()));
    match event {
        Some(RenderEvent::Exported(path)) => assert_eq!(path, PathBuf::from("/tmp/x.png")),
        _ => panic!("the export was not told of"),
    }
    assert!(matches!(sending.sent(true).phase, RenderPhase::Waiting));
}

#[test]
fn a_failed_export_is_told() {
    let idle = opened(DocumentKind::Fixed, viewport());
    let (busy, _) = idle.command(Some(RenderCmd::Export {
        page: 1,
        output: PathBuf::from("/tmp/x.png"),
        options: options(1),
        auto_crop: false,
    }));
    let (_, event) = busy.exported(Err(RenderError::Converting("disk full".to_owned())));
    assert_error(event, "conversion error: disk full");
}

#[test]
fn the_loop_ends_when_nobody_listens() {
    let idle = opened(DocumentKind::Fixed, viewport());
    let (busy, _) = idle.command(render(0, 1));
    let stopped = busy.rendered(Ok(image(0))).0.sent(false);
    assert!(matches!(stopped.phase, RenderPhase::Stopped));
    let idle = opened(DocumentKind::Fixed, viewport());
    assert!(matches!(idle.command(Some(RenderCmd::Shutdown)).0.phase, RenderPhase::Stopped));
    let idle = opened(DocumentKind::Fixed, viewport());
    assert!(matches!(idle.command(None).0.phase, RenderPhase::Stopped));
}

#[test]
fn the_document_is_announced_first_and_the_end_last() {
    let outlines = vec![Outline { title: "One".to_owned(), page: Some(2), down: Vec::new() }];
    let read = vec![(MetadataName::Title, Some("Paper".to_owned()))];
    let (opening, event) =
        RenderLoop::open(DocumentKind::Fixed, viewport(), Some(5), Some(outlines), &read);
    match event {
        RenderEvent::Opened { kind, n_pages, toc, metadata } => {
            assert_eq!((kind, n_pages), (DocumentKind::Fixed, 5));
            assert_eq!((toc[0].title.as_str(), toc[0].page), ("One", 2));
            assert_eq!(metadata, vec![("Title".to_owned(), "Paper".to_owned())]);
        }
        _ => panic!("the document was not announced"),
    }
    let (stopped, _) = opening.opened(true).command(None);
    assert!(matches!(stopped.last_event(), Some(RenderEvent::Stopped)));
}

#[test]
fn nothing_is_told_where_nobody_hears_of_the_document() {
    let abandoned = RenderLoop::new(DocumentKind::Fixed, viewport()).opened(false);
    assert!(matches!(abandoned.phase, RenderPhase::Abandoned));
    assert!(abandoned.last_event().is_none());
}

#[test]
fn documents_that_do_not_open_are_told_of() {
    let events = opening_failed(RenderError::EmptyDocument);
    assert_eq!(events.len(), 2);
    assert!(matches!(&events[0], RenderEvent::Error(text) if text == "document has no pages"));
    assert!(matches!(events[1], RenderEvent::Stopped));
}
