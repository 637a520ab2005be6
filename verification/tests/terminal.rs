use vvrd::geometry::WindowSize;
use vvrd::renderer::{LinkInfo, TocEntry};
use vvrd::terminal::{
    clear_page_area, draw_help, draw_links, draw_loading, draw_metadata, draw_status, draw_toc,
    toc_window, DrawStep,
};

fn pane(cols: u16, rows: u16) -> WindowSize {
    WindowSize::from_cells(cols, rows, 10, 20)
}

fn printed(steps: &[DrawStep]) -> Vec<(u16, u16, String)> {
    steps
        .iter()
        .filter_map(|step| match step {
            DrawStep::ClearRow(_) => None,
            DrawStep::Print { column, row, text } => Some((*column, *row, text.clone())),
        })
        .collect()
}

fn blanked(steps: &[DrawStep]) -> Vec<u16> {
    steps
        .iter()
        .filter_map(|step| match step {
            DrawStep::ClearRow(row) => Some(*row),
            DrawStep::Print { .. } => None,
        })
        .collect()
}

fn line(row: u16, text: &str) -> (u16, u16, String) {
    (0, row, text.to_owned())
}

#[test]
fn the_page_area_is_blanked_without_the_status_row() {
    assert_eq!(blanked(&clear_page_area(pane(80, 4))), vec![0, 1, 2]);
    assert!(printed(&clear_page_area(pane(80, 4))).is_empty());
}

#[test]
fn status_fills_the_last_row() {
    assert_eq!(printed(&draw_status(pane(8, 5), "1/2")), vec![line(4, "1/2     ")]);
    assert_eq!(printed(&draw_status(pane(4, 5), "←→↑↓x")), vec![line(4, "←→↑ ")]);
}

#[test]
fn loading_is_announced_in_the_middle() {
    assert_eq!(printed(&draw_loading(pane(30, 10))), vec![(10, 4, "Loading...".to_owned())]);
    assert_eq!(printed(&draw_loading(pane(5, 2))), vec![(0, 0, "Loading...".to_owned())]);
    assert_eq!(blanked(&draw_loading(pane(5, 3))), vec![0, 1]);
}

#[test]
fn contents_scroll_to_the_selected_entry() {
    let toc: Vec<TocEntry> = (0..5)
        .map(|index| TocEntry { title: format!("Part {index}"), page: index, level: index % 2 })
        .collect();
    assert_eq!(
        printed(&draw_toc(pane(40, 4), &toc, 3, 2)),
        vec![line(0, "   Part 1  (p.2)"), line(1, "*Part 2  (p.3)"), line(2, ">  Part 3  (p.4)")],
    );
    assert_eq!(toc_window(pane(40, 4), 5, 3), (1, 3));
    assert_eq!(toc_window(pane(40, 4), 0, 9), (7, 0));
    assert_eq!(printed(&draw_toc(pane(6, 3), &toc, 0, 9)), vec![
        line(0, ">Part "),
        line(1, "   Par"),
    ]);
}

#[test]
fn metadata_stands_below_its_title() {
    let metadata = vec![
        ("Title".to_owned(), "Paper".to_owned()),
        ("Author".to_owned(), "Someone".to_owned()),
    ];
    assert_eq!(
        printed(&draw_metadata(pane(40, 4), &metadata)),
        vec![line(0, "Document Metadata (Esc to close)"), line(2, "Title: Paper")],
    );
}

#[test]
fn links_are_numbered() {
    let link = |text: &str| LinkInfo { text: text.to_owned(), uri: String::new(), page: None };
    let links = vec![link("Page 4"), link("https://example.org")];
    assert_eq!(
        printed(&draw_links(pane(40, 6), &links, "2", 8)),
        vec![
            line(0, "Links on page 9 (Esc to close)"),
            line(2, "1: Page 4"),
            line(3, "2: https://example.org"),
            line(4, "Enter number to follow: 2"),
        ],
    );
}

#[test]
fn help_is_cut_to_the_page_area() {
    let shown = printed(&draw_help(pane(12, 3)));
    assert_eq!(shown, vec![line(0, "vvrd keys (E"), line(1, "←/→, h/l   p")]);
    assert_eq!(printed(&draw_help(pane(80, 50))).len(), 8);
}
