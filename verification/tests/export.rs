use vvrd::export::{sanitized_stem, ExportNames};

#[test]
fn export_name_is_sanitized_and_padded() {
    let names = ExportNames::new(Some("Long Paper Title"), 2, 120);
    assert_eq!(names.file_name(), "long-paper-title-page-003.png");
}

#[test]
fn taken_names_are_counted_up() {
    let mut names = ExportNames::new(Some("a"), 0, 0);
    assert_eq!(names.file_name(), "a-page-1.png");
    names.taken();
    assert_eq!(names.file_name(), "a-page-1-2.png");
    names.taken();
    assert_eq!(names.file_name(), "a-page-1-3.png");
}

#[test]
fn stems_hold_plain_characters() {
    assert_eq!(sanitized_stem(Some("__Über  (Größe)_v1.2--")), "ber-gr-e-_v1.2");
    assert_eq!(sanitized_stem(Some("...")), "document");
    assert_eq!(sanitized_stem(None), "document");
    let long = "x".repeat(60);
    assert_eq!(sanitized_stem(Some(&long)).len(), 48);
}

#[test]
fn pages_get_names_of_their_own() {
    assert_eq!(ExportNames::new(Some("a"), 8, 10).base, "a-page-09");
    assert_eq!(ExportNames::new(Some("a"), 9, 10).base, "a-page-10");
    assert_eq!(
        ExportNames::new(Some("a"), usize::MAX, 1).base,
        format!("a-page-{}", usize::MAX),
    );
}
