//! Rendered pages, kept until there are too many of them: the page that was used least
//! recently goes first.
use vstd::prelude::*;

use crate::compositor::{PageImage, PageView};
use crate::renderer::RenderOptions;

verus! {

/// Everything that decides how a rendered page looks.
#[derive(Debug)]
pub struct CacheKey {
    pub page: usize,
    pub width: u32,
    pub height: u32,
    pub rotation: u16,
    pub inverted: bool,
    pub tinted: bool,
    pub black: i32,
    pub white: i32,
    pub epub_font_size: u32,
    pub search_term: Option<String>,
}

/// What a cache key holds.
#[verifier::ext_equal]
pub struct KeyView {
    pub page: usize,
    pub width: u32,
    pub height: u32,
    pub rotation: u16,
    pub inverted: bool,
    pub tinted: bool,
    pub black: i32,
    pub white: i32,
    pub epub_font_size: u32,
    pub search_term: Option<Seq<char>>,
}

/// The characters of an optional text.
pub open spec fn term_view(term: Option<String>) -> Option<Seq<char>> {
    match term {
        Some(term) => Some(term@),
        None => None,
    }
}

/// The key of a page rendered with the given options: all of them but the generation.
pub open spec fn key_of(page: usize, options: RenderOptions) -> KeyView {
    KeyView {
        page,
        width: options.width_px,
        height: options.height_px,
        rotation: options.rotation,
        inverted: options.inverted,
        tinted: options.tinted,
        black: options.black,
        white: options.white,
        epub_font_size: options.epub_font_size,
        search_term: term_view(options.search_term),
    }
}

impl View for CacheKey {
    type V = KeyView;

    open spec fn view(&self) -> KeyView {
        KeyView {
            page: self.page,
            width: self.width,
            height: self.height,
            rotation: self.rotation,
            inverted: self.inverted,
            tinted: self.tinted,
            black: self.black,
            white: self.white,
            epub_font_size: self.epub_font_size,
            search_term: term_view(self.search_term),
        }
    }
}

impl CacheKey {
    /// The key of a page rendered with the given options.
    pub fn new(page: usize, options: &RenderOptions) -> (key: Self)
        ensures
            key@ == key_of(page, *options),
    {
        CacheKey {
            page,
            width: options.width_px,
            height: options.height_px,
            rotation: options.rotation,
            inverted: options.inverted,
            tinted: options.tinted,
            black: options.black,
            white: options.white,
            epub_font_size: options.epub_font_size,
            search_term: match &options.search_term {
                Some(term) => Some(term.clone()),
                None => None,
            },
        }
    }

    /// Whether two keys are the same.
    pub fn same(&self, other: &CacheKey) -> (same: bool)
        ensures
            same == (self@ == other@),
    {
        let same_term: bool = match (&self.search_term, &other.search_term) {
            (Some(a), Some(b)) => *a == *b,
            (None, None) => true,
            _ => false,
        };
        self.page == other.page && self.width == other.width && self.height == other.height
            && self.rotation == other.rotation && self.inverted == other.inverted && self.tinted
            == other.tinted && self.black == other.black && self.white == other.white
            && self.epub_font_size == other.epub_font_size && same_term
    }
}

/// A kept page and its key.
#[derive(Debug)]
pub struct CacheEntry {
    pub key: CacheKey,
    pub image: PageImage,
}

/// The kept pages, the one that was used least recently first.
#[derive(Debug)]
pub struct RenderCache {
    entries: Vec<CacheEntry>,
    bytes: usize,
}

/// The most pages that are kept.
pub const MAX_PAGES: usize = 24;

/// The most bytes of pixels that are kept.
pub const MAX_BYTES: usize = 0x1000_0000;

/// Bytes of pixels of the given pages.
pub open spec fn total_bytes(pages: Seq<(KeyView, PageView)>) -> nat
    decreases pages.len(),
{
    if pages.len() == 0 {
        0
    } else {
        pages.first().1.pixels.len() + total_bytes(pages.drop_first())
    }
}

/// Whether `index` is where the page with the key stands.
pub open spec fn is_at(pages: Seq<(KeyView, PageView)>, key: KeyView, index: int) -> bool {
    0 <= index < pages.len() && pages[index].0 == key
}

/// Whether a page with the key is among the given ones.
pub open spec fn has_key(pages: Seq<(KeyView, PageView)>, key: KeyView) -> bool {
    exists|index: int| #[trigger] is_at(pages, key, index)
}

/// Where the page with the key stands.
pub open spec fn place_of(pages: Seq<(KeyView, PageView)>, key: KeyView) -> int {
    choose|index: int| #[trigger] is_at(pages, key, index)
}

/// The given pages but the one with the key.
pub open spec fn without_key(pages: Seq<(KeyView, PageView)>, key: KeyView) -> Seq<
    (KeyView, PageView),
> {
    if has_key(pages, key) {
        pages.remove(place_of(pages, key))
    } else {
        pages
    }
}

/// What is left when the first page goes as long as there are too many pages or too
/// many bytes.
pub open spec fn kept(pages: Seq<(KeyView, PageView)>) -> Seq<(KeyView, PageView)>
    decreases pages.len(),
{
    if pages.len() > 0 && (pages.len() > MAX_PAGES || total_bytes(pages) > MAX_BYTES) {
        kept(pages.drop_first())
    } else {
        pages
    }
}

/// Whether no two of the given pages have the same key.
pub open spec fn keys_differ(pages: Seq<(KeyView, PageView)>) -> bool {
    forall|i: int, j: int| 0 <= i < j < pages.len() ==> (#[trigger] pages[i]).0 != (
    #[trigger] pages[j]).0
}

impl View for RenderCache {
    type V = Seq<(KeyView, PageView)>;

    closed spec fn view(&self) -> Seq<(KeyView, PageView)> {
        self.entries@.map_values(|entry: CacheEntry| (entry.key@, entry.image@))
    }
}

impl RenderCache {
    /// Each key stands for one page, the byte count is right, and both bounds hold.
    pub closed spec fn wf(self) -> bool {
        &&& keys_differ(self@)
        &&& self.bytes == total_bytes(self@)
        &&& self@.len() <= MAX_PAGES
        &&& total_bytes(self@) <= MAX_BYTES
    }

    /// What every cache keeps to: one page for a key, and both bounds.
    pub proof fn bounds(&self)
        requires
            self.wf(),
        ensures
            keys_differ(self@),
            self@.len() <= MAX_PAGES,
            total_bytes(self@) <= MAX_BYTES,
    {
    }

    /// A cache without pages.
    pub fn new() -> (cache: Self)
        ensures
            cache.wf(),
            cache@ == Seq::<(KeyView, PageView)>::empty(),
    {
        let cache = RenderCache { entries: Vec::new(), bytes: 0 };
        proof {
            assert(cache@ =~= Seq::empty());
        }
        cache
    }

    /// How many pages are kept.
    pub fn len(&self) -> (len: usize)
        ensures
            len == self@.len(),
    {
        self.entries.len()
    }

    /// Where the page with the key stands.
    fn find(&self, key: &CacheKey) -> (found: Option<usize>)
        requires
            self.wf(),
        ensures
            match found {
                Some(index) => has_key(self@, key@) && is_at(self@, key@, index as int)
                    && place_of(self@, key@) == index && index < self.entries@.len(),
                None => !has_key(self@, key@),
            },
    {
        let mut index: usize = 0;
        while index < self.entries.len()
            invariant
                self.wf(),
                index <= self.entries@.len(),
                forall|i: int| 0 <= i < index ==> !#[trigger] is_at(self@, key@, i),
            decreases self.entries@.len() - index,
        {
            proof {
                assert(self@[index as int] == (
                    self.entries@[index as int].key@,
                    self.entries@[index as int].image@,
                ));
            }
            if self.entries[index].key.same(key) {
                proof {
                    assert(is_at(self@, key@, index as int));
                    let place = place_of(self@, key@);
                    assert(is_at(self@, key@, place));
                    if place < index {
                        assert(self@[place].0 != self@[index as int].0);
                    } else if index < place {
                        assert(self@[index as int].0 != self@[place].0);
                    }
                }
                return Some(index);
            }
            index = index + 1;
        }
        None
    }

    /// Whether a page with the key is kept.
    pub fn contains_key(&self, key: &CacheKey) -> (kept: bool)
        requires
            self.wf(),
        ensures
            kept == has_key(self@, key@),
    {
        self.find(key).is_some()
    }

    /// A copy of the page with the key, which becomes the one that was used last.
    pub fn get(&mut self, key: &CacheKey) -> (image: Option<PageImage>)
        requires
            old(self).wf(),
        ensures
            final(self).wf(),
            match image {
                Some(image) => {
                    let place = place_of(old(self)@, key@);
                    &&& has_key(old(self)@, key@)
                    &&& image@ == old(self)@[place].1
                    &&& final(self)@ == old(self)@.remove(place).push(old(self)@[place])
                },
                None => !has_key(old(self)@, key@) && final(self)@ == old(self)@,
            },
    {
        match self.find(key) {
            None => None,
            Some(index) => {
                let ghost before = self@;
                let entry: CacheEntry = self.entries.remove(index);
                let image: PageImage = entry.image.clone();
                self.entries.push(entry);
                proof {
                    let moved = before.remove(index as int).push(before[index as int]);
                    assert(self@ =~= moved);
                    total_after_remove(before, index as int);
                    total_after_push(before.remove(index as int), before[index as int]);
                    assert(keys_differ(moved)) by {
                        assert forall|i: int, j: int| 0 <= i < j < moved.len() implies (
                        #[trigger] moved[i]).0 != (#[trigger] moved[j]).0 by {
                            let a = if i < index {
                                i
                            } else {
                                i + 1
                            };
                            let b = if j == moved.len() - 1 {
                                index as int
                            } else if j < index {
                                j
                            } else {
                                j + 1
                            };
                            assert(moved[i] == before[a]);
                            assert(moved[j] == before[b]);
                        }
                    }
                }
                Some(image)
            },
        }
    }

    /// Keeps a page, in place of one with the same key, and lets go of those that were
    /// used least recently until both bounds hold.
    pub fn insert(&mut self, key: CacheKey, image: PageImage)
        requires
            old(self).wf(),
        ensures
            final(self).wf(),
            final(self)@ == kept(without_key(old(self)@, key@).push((key@, image@))),
    {
        let ghost before = self@;
        if let Some(index) = self.find(&key) {
            let previous: CacheEntry = self.entries.remove(index);
            proof {
                assert(self@ =~= before.remove(index as int));
                total_after_remove(before, index as int);
            }
            self.bytes = self.bytes.saturating_sub(previous.image.pixels.len());
        }
        let ghost rest = self@;
        let ghost added = (key@, image@);
        let ghost grown = rest.push(added);
        proof {
            assert(rest == without_key(before, key@));
            assert(self.bytes == total_bytes(rest));
            assert(keys_differ(grown)) by {
                assert forall|i: int, j: int| 0 <= i < j < grown.len() implies (
                #[trigger] grown[i]).0 != (#[trigger] grown[j]).0 by {
                    rest_lacks_key(before, key@, i);
                    rest_keys_differ(before, key@);
                }
            }
            total_after_push(rest, added);
            assert(image.pixels@.len() == image.pixels.len());
        }
        let ghost slack: int = if total_bytes(grown) > usize::MAX {
            total_bytes(grown) - usize::MAX
        } else {
            0
        };
        self.bytes = self.bytes.saturating_add(image.pixels.len());
        self.entries.push(CacheEntry { key, image });
        proof {
            assert(self@ =~= grown);
            assert(grown.drop_last() =~= rest);
            assert(total_bytes(rest) <= MAX_BYTES);
        }
        while self.entries.len() > MAX_PAGES || self.bytes > MAX_BYTES
            invariant
                keys_differ(self@),
                slack >= 0,
                self@.len() == 0 ==> self.bytes == 0,
                self@.len() > 0 ==> self.bytes + slack == total_bytes(self@),
                self@.len() > 0 && slack > 0 ==> {
                    &&& self@.last() == added
                    &&& self.bytes > MAX_BYTES
                    &&& self.bytes + MAX_BYTES >= usize::MAX + total_bytes(self@.drop_last())
                },
                kept(grown) == kept(self@),
            decreases self@.len(),
        {
            proof {
                assert(self@.len() == self.entries@.len());
                assert(self@[0] == (self.entries@[0].key@, self.entries@[0].image@));
            }
            let ghost held = self@;
            let oldest: CacheEntry = self.entries.remove(0);
            proof {
                assert(self@ =~= held.drop_first());
                assert(oldest.image.pixels@.len() == oldest.image.pixels.len());
                if held.len() > 1 {
                    assert(held.drop_first().last() == held.last());
                    assert(held.drop_last().drop_first() =~= held.drop_first().drop_last());
                    assert(held.drop_last().first() == held.first());
                }
                assert(keys_differ(self@)) by {
                    assert forall|i: int, j: int| 0 <= i < j < self@.len() implies (
                    #[trigger] self@[i]).0 != (#[trigger] self@[j]).0 by {
                        assert(self@[i] == held[i + 1]);
                        assert(self@[j] == held[j + 1]);
                    }
                }
                assert(total_bytes(held) == held.first().1.pixels.len() + total_bytes(self@));
            }
            self.bytes = self.bytes.saturating_sub(oldest.image.pixels.len());
        }
        proof {
            assert(self@.len() == self.entries@.len());
        }
    }

    /// Lets go of all pages.
    pub fn clear(&mut self)
        ensures
            final(self).wf(),
            final(self)@ == Seq::<(KeyView, PageView)>::empty(),
    {
        self.entries.clear();
        self.bytes = 0;
        proof {
            assert(self@ =~= Seq::empty());
        }
    }
}

proof fn total_after_push(pages: Seq<(KeyView, PageView)>, page: (KeyView, PageView))
    ensures
        total_bytes(pages.push(page)) == total_bytes(pages) + page.1.pixels.len(),
    decreases pages.len(),
{
    if pages.len() > 0 {
        assert(pages.push(page).first() == pages.first());
        assert(pages.push(page).drop_first() =~= pages.drop_first().push(page));
        total_after_push(pages.drop_first(), page);
    } else {
        assert(pages.push(page).first() == page);
        assert(pages.push(page).drop_first() =~= pages);
    }
}

proof fn total_after_remove(pages: Seq<(KeyView, PageView)>, index: int)
    requires
        0 <= index < pages.len(),
    ensures
        total_bytes(pages.remove(index)) == total_bytes(pages) - pages[index].1.pixels.len(),
    decreases pages.len(),
{
    if index == 0 {
        assert(pages.remove(0) =~= pages.drop_first());
    } else {
        assert(pages.remove(index).drop_first() =~= pages.drop_first().remove(index - 1));
        assert(pages.remove(index).first() == pages.first());
        total_after_remove(pages.drop_first(), index - 1);
    }
}

proof fn rest_lacks_key(pages: Seq<(KeyView, PageView)>, key: KeyView, index: int)
    requires
        keys_differ(pages),
        0 <= index < without_key(pages, key).len(),
    ensures
        without_key(pages, key)[index].0 != key,
{
    if has_key(pages, key) {
        let place = place_of(pages, key);
        assert(is_at(pages, key, place));
        if index < place {
            assert(pages[index].0 != pages[place].0);
        } else {
            assert(pages[place].0 != pages[index + 1].0);
        }
    } else {
        assert(!is_at(pages, key, index));
    }
}

proof fn rest_keys_differ(pages: Seq<(KeyView, PageView)>, key: KeyView)
    requires
        keys_differ(pages),
    ensures
        keys_differ(without_key(pages, key)),
{
    let rest = without_key(pages, key);
    if has_key(pages, key) {
        let place = place_of(pages, key);
        assert(is_at(pages, key, place));
        assert forall|i: int, j: int| 0 <= i < j < rest.len() implies (#[trigger] rest[i]).0 != (
        #[trigger] rest[j]).0 by {
            let a = if i < place {
                i
            } else {
                i + 1
            };
            let b = if j < place {
                j
            } else {
                j + 1
            };
            assert(rest[i] == pages[a]);
            assert(rest[j] == pages[b]);
        }
    }
}

/// What is kept are the pages used last: the end of the sequence, within both bounds,
/// and as much of it as they allow.
pub proof fn kept_is_the_recent_end(pages: Seq<(KeyView, PageView)>)
    ensures
        kept(pages).len() <= pages.len(),
        kept(pages) == pages.skip(pages.len() - kept(pages).len()),
        kept(pages).len() <= MAX_PAGES,
        total_bytes(kept(pages)) <= MAX_BYTES,
        forall|start: int|
            0 <= start < pages.len() - kept(pages).len() ==> pages.len() - start > MAX_PAGES
                || total_bytes(#[trigger] pages.skip(start)) > MAX_BYTES,
    decreases pages.len(),
{
    if pages.len() > 0 && (pages.len() > MAX_PAGES || total_bytes(pages) > MAX_BYTES) {
        let rest = pages.drop_first();
        kept_is_the_recent_end(rest);
        assert(rest.skip(rest.len() - kept(rest).len()) =~= pages.skip(
            pages.len() - kept(rest).len(),
        ));
        assert forall|start: int|
            0 <= start < pages.len() - kept(pages).len() implies pages.len() - start > MAX_PAGES
            || total_bytes(#[trigger] pages.skip(start)) > MAX_BYTES by {
            if start == 0 {
                assert(pages.skip(0) =~= pages);
            } else {
                assert(pages.skip(start) =~= rest.skip(start - 1));
            }
        }
    } else {
        assert(pages.skip(0) =~= pages);
    }
}

/// A page that is kept is found again under its key, unless its pixels alone are more
/// than may be kept.
pub proof fn inserted_page_is_found(
    pages: Seq<(KeyView, PageView)>,
    key: KeyView,
    image: PageView,
)
    requires
        keys_differ(pages),
        image.pixels.len() <= MAX_BYTES,
    ensures
        ({
            let after = kept(without_key(pages, key).push((key, image)));
            &&& has_key(after, key)
            &&& after[place_of(after, key)] == (key, image)
        }),
{
    let grown = without_key(pages, key).push((key, image));
    let after = kept(grown);
    kept_is_the_recent_end(grown);
    last_page_stays(grown);
    assert(is_at(after, key, after.len() - 1));
    let place = place_of(after, key);
    assert(is_at(after, key, place));
    if place < after.len() - 1 {
        let index = place + grown.len() - after.len();
        assert(after[place] == grown[index]);
        rest_lacks_key(pages, key, index);
    }
}

/// The page used last stays, unless its pixels alone are more than may be kept.
proof fn last_page_stays(pages: Seq<(KeyView, PageView)>)
    requires
        pages.len() > 0,
        pages.last().1.pixels.len() <= MAX_BYTES,
    ensures
        kept(pages).len() > 0,
        kept(pages).last() == pages.last(),
    decreases pages.len(),
{
    if pages.len() > MAX_PAGES || total_bytes(pages) > MAX_BYTES {
        if pages.len() == 1 {
            assert(pages.drop_first() =~= Seq::empty());
            assert(total_bytes(pages.drop_first()) == 0);
        } else {
            last_page_stays(pages.drop_first());
        }
    }
}

/// A page whose pixels alone are more than may be kept drives out every page, and is
/// not kept itself.
pub proof fn oversized_page_empties_the_cache(pages: Seq<(KeyView, PageView)>)
    requires
        pages.len() > 0,
        pages.last().1.pixels.len() > MAX_BYTES,
    ensures
        kept(pages) == Seq::<(KeyView, PageView)>::empty(),
    decreases pages.len(),
{
    total_after_push(pages.drop_last(), pages.last());
    assert(pages.drop_last().push(pages.last()) =~= pages);
    if pages.len() == 1 {
        assert(pages.drop_first() =~= Seq::empty());
        assert(kept(pages.drop_first()) == pages.drop_first());
    } else {
        oversized_page_empties_the_cache(pages.drop_first());
    }
}

/// Two requests stand for the same rendered page exactly if they agree in the page, in
/// the area, the turn, the colours, the font size and the text that is marked. Their
/// generations do not matter.
pub proof fn keys_agree_where_requests_do(
    page: usize,
    options: RenderOptions,
    other_page: usize,
    other: RenderOptions,
)
    ensures
        key_of(page, options) == key_of(other_page, other) <==> {
            &&& page == other_page
            &&& options.width_px == other.width_px
            &&& options.height_px == other.height_px
            &&& options.rotation == other.rotation
            &&& options.inverted == other.inverted
            &&& options.tinted == other.tinted
            &&& options.black == other.black
            &&& options.white == other.white
            &&& options.epub_font_size == other.epub_font_size
            &&& options.search_term is Some <==> other.search_term is Some
            &&& options.search_term is Some ==> options.search_term->0@ == other.search_term->0@
        },
{
    let a = key_of(page, options);
    let b = key_of(other_page, other);
    assert(a == b ==> a.search_term == b.search_term);
}

/// Two keys are the same exactly if they agree in every field.
pub proof fn keys_are_known_whole(a: CacheKey, b: CacheKey)
    ensures
        a@ == b@ <==> {
            &&& a.page == b.page
            &&& a.width == b.width
            &&& a.height == b.height
            &&& a.rotation == b.rotation
            &&& a.inverted == b.inverted
            &&& a.tinted == b.tinted
            &&& a.black == b.black
            &&& a.white == b.white
            &&& a.epub_font_size == b.epub_font_size
            &&& a.search_term is Some <==> b.search_term is Some
            &&& a.search_term is Some ==> a.search_term->0@ == b.search_term->0@
        },
{
    assert(a@ == b@ ==> a@.search_term == b@.search_term);
}

/// A page is among the kept ones exactly if one of them has its key, and it is found
/// there.
pub proof fn pages_are_found_by_their_key(
    pages: Seq<(KeyView, PageView)>,
    key: KeyView,
    index: int,
)
    requires
        0 <= index < pages.len(),
    ensures
        pages[index].0 == key ==> has_key(pages, key),
        has_key(pages, key) ==> 0 <= place_of(pages, key) < pages.len() && pages[place_of(
            pages,
            key,
        )].0 == key,
        keys_differ(pages) && pages[index].0 == key ==> place_of(pages, key) == index,
{
    if pages[index].0 == key {
        assert(is_at(pages, key, index));
    }
    if has_key(pages, key) {
        let place = place_of(pages, key);
        assert(is_at(pages, key, place));
        if keys_differ(pages) && pages[index].0 == key && place != index {
            if place < index {
                assert(pages[place].0 != pages[index].0);
            } else {
                assert(pages[index].0 != pages[place].0);
            }
        }
    }
}

/// The bytes that are kept are those of all pages together.
pub proof fn bytes_of_pages_add_up(
    pages: Seq<(KeyView, PageView)>,
    page: (KeyView, PageView),
)
    ensures
        total_bytes(Seq::<(KeyView, PageView)>::empty()) == 0,
        total_bytes(pages.push(page)) == total_bytes(pages) + page.1.pixels.len(),
{
    total_after_push(pages, page);
}

/// No more than twenty-four pages and 268,435,456 bytes are kept, and a page goes only
/// where one more would be too many: of up to so many pages and bytes all are kept, and
/// otherwise the one that was used least recently is not.
pub proof fn pages_go_only_where_there_are_too_many(pages: Seq<(KeyView, PageView)>)
    ensures
        kept(pages).len() <= 24,
        total_bytes(kept(pages)) <= 268_435_456,
        pages.len() <= 24 && total_bytes(pages) <= 268_435_456 ==> kept(pages) == pages,
        pages.len() > 0 && (pages.len() > 24 || total_bytes(pages) > 268_435_456) ==> kept(pages)
            == kept(pages.skip(1)),
{
    kept_is_the_recent_end(pages);
    if pages.len() > 0 {
        assert(pages.skip(1) =~= pages.drop_first());
    }
}

/// Keeping a page takes no other request's page away but to stay within the bounds, and
/// puts it last.
pub proof fn other_pages_stay_beside_a_new_one(pages: Seq<(KeyView, PageView)>, key: KeyView)
    requires
        keys_differ(pages),
    ensures
        forall|i: int|
            0 <= i < pages.len() && (#[trigger] pages[i]).0 != key ==> without_key(
                pages,
                key,
            ).contains(pages[i]),
        forall|i: int|
            0 <= i < without_key(pages, key).len() ==> (#[trigger] without_key(pages, key)[i]).0
                != key,
        !has_key(pages, key) ==> without_key(pages, key) == pages,
        forall|i: int|
            0 <= i < pages.len() && (#[trigger] pages[i]).0 == key ==> without_key(pages, key)
                == pages.take(i) + pages.skip(i + 1),
{
    let rest = without_key(pages, key);
    assert forall|i: int| 0 <= i < pages.len() && (#[trigger] pages[i]).0
        != key implies rest.contains(pages[i]) by {
        if has_key(pages, key) {
            let place = place_of(pages, key);
            assert(is_at(pages, key, place));
            if i < place {
                assert(rest[i] == pages[i]);
            } else {
                assert(rest[i - 1] == pages[i]);
            }
        } else {
            assert(rest[i] == pages[i]);
        }
    }
    assert forall|i: int| 0 <= i < rest.len() implies (#[trigger] rest[i]).0 != key by {
        rest_lacks_key(pages, key, i);
    }
}

} // verus!
