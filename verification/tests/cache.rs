use vvrd::cache::{CacheKey, RenderCache, MAX_BYTES, MAX_PAGES};
use vvrd::compositor::PageImage;
use vvrd::geometry::WindowSize;
use vvrd::renderer::RenderOptions;

fn options() -> RenderOptions {
    RenderOptions::for_viewport(WindowSize::from_cells(80, 24, 10, 20), 1)
}

fn image(bytes: usize, value: u8) -> PageImage {
    PageImage {
        pixels: vec![value; bytes],
        width: 1,
        height: 1,
        row_stride: 3,
        highlights: Vec::new(),
    }
}

#[test]
fn render_cache_is_page_bounded() {
    let mut cache = RenderCache::new();
    let options = options();
    for page in 0..MAX_PAGES + 3 {
        cache.insert(
            CacheKey::new(page, &options),
            PageImage {
                pixels: vec![0; 3],
                width: 1,
                height: 1,
                row_stride: 3,
                highlights: Vec::new(),
            },
        );
    }
    assert_eq!(cache.len(), MAX_PAGES);
    assert!(!cache.contains_key(&CacheKey::new(0, &options)));
}

#[test]
fn used_pages_stay_longest() {
    let mut cache = RenderCache::new();
    let options = options();
    for page in 0..MAX_PAGES {
        cache.insert(CacheKey::new(page, &options), image(3, page as u8));
    }
    assert_eq!(cache.get(&CacheKey::new(0, &options)).unwrap().pixels, vec![0; 3]);
    cache.insert(CacheKey::new(100, &options), image(3, 100));
    assert!(cache.contains_key(&CacheKey::new(0, &options)));
    assert!(!cache.contains_key(&CacheKey::new(1, &options)));
    assert!(cache.get(&CacheKey::new(1, &options)).is_none());
    cache.clear();
    assert_eq!(cache.len(), 0);
}

#[test]
fn a_page_is_kept_once() {
    let mut cache = RenderCache::new();
    let options = options();
    cache.insert(CacheKey::new(3, &options), image(3, 1));
    cache.insert(CacheKey::new(3, &options), image(6, 2));
    assert_eq!(cache.len(), 1);
    assert_eq!(cache.get(&CacheKey::new(3, &options)).unwrap().pixels, vec![2; 6]);
}

#[test]
fn keys_ignore_the_generation_alone() {
    let mut later = options();
    later.generation = 7;
    assert!(CacheKey::new(1, &options()).same(&CacheKey::new(1, &later)));
    assert!(!CacheKey::new(1, &options()).same(&CacheKey::new(2, &options())));
    later.inverted = true;
    assert!(!CacheKey::new(1, &options()).same(&CacheKey::new(1, &later)));
    let mut sought = options();
    sought.search_term = Some("needle".to_owned());
    assert!(!CacheKey::new(1, &options()).same(&CacheKey::new(1, &sought)));
    assert!(CacheKey::new(1, &sought).same(&CacheKey::new(1, &sought.clone())));
}

#[test]
fn bytes_are_bounded_too() {
    let mut cache = RenderCache::new();
    let options = options();
    cache.insert(CacheKey::new(0, &options), image(MAX_BYTES / 2, 0));
    cache.insert(CacheKey::new(1, &options), image(MAX_BYTES / 2, 0));
    assert_eq!(cache.len(), 2);
    cache.insert(CacheKey::new(2, &options), image(1, 0));
    assert_eq!(cache.len(), 2);
    assert!(!cache.contains_key(&CacheKey::new(0, &options)));
    cache.insert(CacheKey::new(3, &options), image(MAX_BYTES + 1, 0));
    assert_eq!(cache.len(), 0);
}
