use vvrd::state::{state_file_name, state_path, SavedState};

#[test]
fn state_names_are_stable_and_distinct() {
    assert_eq!(state_path("/a.pdf"), state_path("/a.pdf"));
    assert_ne!(state_path("/a.pdf"), state_path("/b.pdf"));
}

#[test]
fn state_names_are_digests() {
    assert_eq!(state_path("/a.pdf"), "02da7b0cd3d4a6b6f6f26842268f9437.json");
    assert_eq!(state_path("/home/reader/Größe.epub"), "378ae785c3a2e5edbb9c907bbdc7abd2.json");
    assert_eq!(state_path(""), "d41d8cd98f00b204e9800998ecf8427e.json");
}

#[test]
fn digests_are_written_in_hexadecimal() {
    assert_eq!(state_file_name(&vec![0x00, 0x9f, 0xa0, 0xff]), "009fa0ff.json");
}

#[test]
fn nothing_is_remembered_at_first() {
    let state = SavedState::default();
    assert_eq!((state.page, state.rotation), (0, 0));
    assert!(!state.inverted && !state.auto_crop && !state.tinted);
    assert_eq!(state.epub_font_size, None);
}
