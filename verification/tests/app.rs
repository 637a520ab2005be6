use vvrd::app::{App, InputMode, ScrollAction, StatusMsg};
use vvrd::geometry::WindowSize;
use vvrd::renderer::DocumentKind;

fn viewport() -> WindowSize {
    WindowSize::from_cells(80, 25, 10, 20)
}

#[test]
fn navigation_resets_view_offsets() {
    let mut app = App::new(0);
    app.set_document(DocumentKind::Fixed, 3);
    app.scroll_y = 10;
    app.pan_x = 20;
    assert!(app.next_page());
    assert_eq!((app.page, app.scroll_y, app.pan_x), (1, 0, 0));
}

#[test]
fn scrolling_turns_at_page_boundaries() {
    let mut app = App::new(0);
    app.set_document(DocumentKind::Fixed, 2);
    app.set_rendered_size(800, 900, viewport());
    assert_eq!(app.scroll_down(viewport(), 1000), ScrollAction::Scrolled);
    assert_eq!(app.scroll_down(viewport(), 10), ScrollAction::TurnNext);
    assert!(app.next_page());
    assert_eq!(app.scroll_up(10), ScrollAction::TurnPrev);
}

#[test]
fn reflowable_documents_disable_zoom() {
    let mut app = App::new(0);
    app.zoom_mode = true;
    app.zoom_level = 3;
    app.set_document(DocumentKind::Reflowable, 10);
    assert!(!app.zoom_mode);
    assert_eq!(app.zoom_level, 0);
}

#[test]
fn search_navigation_wraps() {
    let mut app = App::new(2);
    app.set_document(DocumentKind::Fixed, 4);
    app.search_term = Some("needle".to_owned());
    app.set_search_counts(vec![0, 2, 0, 0]);
    assert!(app.next_search_result(false));
    assert_eq!(app.page, 1);
}

#[test]
fn search_stays_where_the_only_match_is() {
    let mut app = App::new(1);
    app.set_document(DocumentKind::Fixed, 4);
    app.set_search_counts(vec![0, 2]);
    assert_eq!(app.search_counts, vec![Some(0), Some(2), Some(0), Some(0)]);
    assert!(!app.next_search_result(false));
    app.search_term = Some("needle".to_owned());
    assert!(!app.next_search_result(false));
    assert!(!app.next_search_result(true));
    assert_eq!(app.page, 1);
    app.clear_search_results();
    assert_eq!(app.search_counts, vec![None, None, None, None]);
    assert!(!app.next_search_result(true));
}

#[test]
fn search_directions_undo_each_other() {
    let mut app = App::new(1);
    app.set_document(DocumentKind::Fixed, 5);
    app.search_term = Some("needle".to_owned());
    app.set_search_counts(vec![1, 2, 0, 0, 1]);
    assert!(app.next_search_result(true));
    assert_eq!(app.page, 0);
    assert!(app.next_search_result(true));
    assert_eq!(app.page, 4);
    assert!(app.next_search_result(false));
    assert_eq!(app.page, 0);
    assert!(app.next_search_result(false));
    assert_eq!(app.page, 1);
}

#[test]
fn documents_keep_the_page_within_them() {
    let mut app = App::new(9);
    app.set_document(DocumentKind::Fixed, 4);
    assert_eq!((app.page, app.n_pages), (3, 4));
    app.set_document(DocumentKind::Fixed, 0);
    assert_eq!((app.page, app.n_pages), (0, 1));
    assert_eq!(app.search_counts, vec![None]);
    assert!(!app.next_page());
    assert!(!app.prev_page());
    assert!(!app.go_to_page(1));
}

#[test]
fn page_turns_undo_each_other() {
    let mut app = App::new(1);
    app.set_document(DocumentKind::Fixed, 3);
    app.scroll_y = 7;
    assert!(app.next_page());
    assert!(app.prev_page());
    assert_eq!((app.page, app.scroll_y, app.generation), (1, 0, 3));
    assert!(app.go_to_page(0));
    assert!(!app.go_to_page(0));
    assert!(!app.prev_page_at_bottom(viewport()));
}

#[test]
fn turning_back_shows_the_bottom() {
    let mut app = App::new(1);
    app.set_document(DocumentKind::Fixed, 2);
    app.set_rendered_size(1000, 900, viewport());
    assert!(app.prev_page_at_bottom(viewport()));
    assert_eq!((app.page, app.scroll_y), (0, 420));
}

#[test]
fn scrolling_and_panning_stop_at_the_edges() {
    let mut app = App::new(0);
    app.set_rendered_size(1000, 900, viewport());
    assert_eq!((app.max_pan_x(viewport()), app.max_scroll_y(viewport())), (200, 420));
    assert_eq!(app.scroll_down(viewport(), 100), ScrollAction::Scrolled);
    assert_eq!(app.scroll_y, 100);
    assert_eq!(app.scroll_down(viewport(), u32::MAX), ScrollAction::Scrolled);
    assert_eq!(app.scroll_y, 420);
    assert_eq!(app.scroll_down(viewport(), 1), ScrollAction::Nothing);
    assert_eq!(app.scroll_up(500), ScrollAction::Scrolled);
    assert_eq!(app.scroll_up(500), ScrollAction::Nothing);
    assert!(app.pan_right(viewport(), 150));
    assert!(app.pan_right(viewport(), 150));
    assert_eq!(app.pan_x, 200);
    assert!(!app.pan_right(viewport(), 1));
    assert!(app.pan_left(250));
    assert!(!app.pan_left(1));
    app.scroll_y = 400;
    app.pan_x = 150;
    app.set_rendered_size(850, 500, viewport());
    assert_eq!((app.scroll_y, app.pan_x), (20, 50));
}

#[test]
fn zoom_is_bounded_and_marks_pages_stale() {
    let mut app = App::new(0);
    app.toggle_zoom();
    assert!(app.zoom_mode);
    assert!(!app.zoom_out(viewport()));
    for _ in 0..20 {
        assert!(app.zoom_in());
    }
    assert!(!app.zoom_in());
    assert_eq!((app.zoom_level, app.generation), (20, 22));
    assert_eq!(app.render_area(viewport()), (800, 480, 20));
    app.rendered_width = 900;
    app.pan_x = 500;
    assert!(app.zoom_out(viewport()));
    assert_eq!((app.zoom_level, app.pan_x), (19, 100));
    app.toggle_zoom();
    assert_eq!((app.zoom_mode, app.zoom_level, app.pan_x), (false, 0, 0));
}

#[test]
fn reflowable_documents_render_for_the_plain_area() {
    let mut app = App::new(0);
    app.document_kind = DocumentKind::Reflowable;
    app.zoom_level = 5;
    assert!(!app.supports_zoom());
    assert_eq!(app.render_area(viewport()), (800, 480, 0));
}

#[test]
fn generations_skip_zero() {
    let mut app = App::new(0);
    app.generation = u64::MAX;
    app.invalidate();
    assert_eq!(app.generation, 1);
    app.invalidate();
    assert_eq!(app.generation, 2);
}

#[test]
fn status_lines_name_the_page() {
    assert_eq!(
        StatusMsg::Hint.text(0, 0, true),
        "1/1  [ZOOM] ? help  q quit  ←/→ page  ↑/↓ scroll  i invert  r rotate  z zoom",
    );
    let mut app = App::new(11);
    app.show_info("Inverted".to_owned());
    assert_eq!(app.msg.text(app.page, 120, false), "12/120  Inverted");
    assert_eq!(app.input_mode, InputMode::Normal);
}

#[test]
fn the_default_font_size_is_eleven_points() {
    assert_eq!(f32::from_bits(App::new(0).epub_font_size), 11.0);
}

#[test]
fn moves_undo_each_other() {
    let mut app = App::new(0);
    app.set_rendered_size(1000, 900, viewport());
    app.scroll_y = 30;
    app.pan_x = 40;
    app.scroll_down(viewport(), 100);
    app.scroll_up(100);
    app.pan_right(viewport(), 60);
    app.pan_left(60);
    assert_eq!((app.scroll_y, app.pan_x), (30, 40));
}

#[test]
fn zooming_out_undoes_zooming_in() {
    let mut app = App::new(0);
    app.set_rendered_size(1000, 900, viewport());
    app.scroll_y = 30;
    assert!(app.zoom_in());
    assert!(app.zoom_out(viewport()));
    assert_eq!((app.zoom_level, app.scroll_y, app.generation), (0, 30, 3));
}

#[test]
fn searches_go_round_the_longest_document() {
    let mut app = App::new(usize::MAX - 1);
    app.n_pages = usize::MAX;
    app.search_term = Some("needle".to_owned());
    app.search_counts = vec![Some(1), Some(0), Some(2)];
    assert!(app.next_search_result(false));
    assert_eq!(app.page, 0);
    assert!(app.next_search_result(false));
    assert_eq!(app.page, 2);
    assert!(app.next_search_result(true));
    assert_eq!(app.page, 0);
}
