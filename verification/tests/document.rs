use vvrd::compositor::HighlightRect;
use vvrd::document::{
    copy_pixmap_rgb, extract_links, extract_metadata, flatten_outlines, is_sought, link_info,
    opened_event, MetadataName, Outline, PageSearch,
};
use vvrd::error::RenderError;
use vvrd::renderer::{DocumentKind, LinkInfo, RenderEvent, TocEntry};

fn outline(title: &str, page: Option<u32>, down: Vec<Outline>) -> Outline {
    Outline { title: title.to_owned(), page, down }
}

fn entry(title: &str, page: usize, level: usize) -> TocEntry {
    TocEntry { title: title.to_owned(), page, level }
}

fn sample() -> Vec<Outline> {
    vec![
        outline(
            "One",
            Some(0),
            vec![outline("One.a", Some(1), vec![outline("Deep", None, vec![])])],
        ),
        outline("Two", Some(5), vec![]),
    ]
}

#[test]
fn outlines_are_listed_depth_first() {
    let mut toc = vec![entry("Before", 9, 0)];
    flatten_outlines(&sample(), 1, &mut toc);
    assert_eq!(
        toc,
        vec![
            entry("Before", 9, 0),
            entry("One", 0, 1),
            entry("One.a", 1, 2),
            entry("Deep", 0, 3),
            entry("Two", 5, 1),
        ],
    );
}

#[test]
fn metadata_is_trimmed_and_blank_values_left_out() {
    let read = vec![
        (MetadataName::Format, Some(" PDF 1.7 ".to_owned())),
        (MetadataName::Encryption, None),
        (MetadataName::Title, Some(" \t".to_owned())),
        (MetadataName::ModDate, Some("D:2024".to_owned())),
    ];
    assert_eq!(
        extract_metadata(&read),
        vec![
            ("Format".to_owned(), "PDF 1.7".to_owned()),
            ("Modification Date".to_owned(), "D:2024".to_owned()),
        ],
    );
    let labels: Vec<String> = MetadataName::all().iter().map(|name| name.label_text()).collect();
    assert_eq!(
        labels,
        vec![
            "Format",
            "Encryption",
            "Title",
            "Author",
            "Subject",
            "Keywords",
            "Creator",
            "Producer",
            "Creation Date",
            "Modification Date",
        ],
    );
}

#[test]
fn links_name_their_page_or_address() {
    let read = vec![
        ("#page=4".to_owned(), Some(3)),
        ("https://example.org".to_owned(), None),
        ("#last".to_owned(), Some(u32::MAX)),
    ];
    let links = extract_links(Some(read));
    assert_eq!(
        links[0],
        LinkInfo { text: "Page 4".to_owned(), uri: "#page=4".to_owned(), page: Some(3) },
    );
    assert_eq!(links[1].text, "https://example.org");
    assert_eq!(links[1].page, None);
    assert_eq!(links[2].text, "Page 4294967296");
    assert_eq!(links.len(), 3);
    assert!(extract_links(None).is_empty());
    assert_eq!(link_info("x".to_owned(), None).uri, "x");
}

#[test]
fn pixmaps_lose_their_alpha() {
    let rects = vec![HighlightRect { x0: 1, y0: 2, x1: 3, y1: 4 }];
    let page = copy_pixmap_rgb(2, 1, 4, vec![1, 2, 3, 9, 4, 5, 6, 9, 7], rects.clone()).unwrap();
    assert_eq!(page.pixels, vec![1, 2, 3, 4, 5, 6]);
    assert_eq!((page.width, page.height, page.row_stride), (2, 1, 6));
    assert_eq!(page.highlights, rects);
    let page = copy_pixmap_rgb(2, 1, 3, vec![1, 2, 3, 4, 5, 6, 7], vec![]).unwrap();
    assert_eq!(page.pixels, vec![1, 2, 3, 4, 5, 6, 7]);
}

#[test]
fn other_pixmaps_are_refused() {
    let error = copy_pixmap_rgb(1, 1, 1, vec![0], vec![]).unwrap_err();
    assert!(matches!(error, RenderError::Converting(_)));
    assert_eq!(
        error.message(),
        "conversion error: unsupported MuPDF pixmap with 1 components",
    );
}

#[test]
fn searches_go_through_every_page() {
    let mut search = PageSearch::new(3);
    let mut visited = Vec::new();
    while let Some(page) = search.next_page() {
        visited.push(page);
        search.found(page * 2);
    }
    assert_eq!(visited, vec![0, 1, 2]);
    assert_eq!(search.counts, vec![0, 2, 4]);
    assert_eq!(PageSearch::new(0).next_page(), None);
    assert!(is_sought(Some("a")));
    assert!(!is_sought(Some("")));
    assert!(!is_sought(None));
}

#[test]
fn opened_documents_have_a_page() {
    let read = vec![(MetadataName::Author, Some("A".to_owned()))];
    match opened_event(DocumentKind::Reflowable, Some(-1), Some(sample()), &read) {
        RenderEvent::Opened { kind, n_pages, toc, metadata } => {
            assert_eq!(kind, DocumentKind::Reflowable);
            assert_eq!(n_pages, 1);
            assert_eq!(toc.len(), 4);
            assert_eq!(metadata, vec![("Author".to_owned(), "A".to_owned())]);
        }
        _ => unreachable!(),
    }
    match opened_event(DocumentKind::Fixed, Some(7), None, &Vec::new()) {
        RenderEvent::Opened { n_pages, toc, .. } => {
            assert_eq!(n_pages, 7);
            assert!(toc.is_empty());
        }
        _ => unreachable!(),
    }
}
