//! The reader's state: which page is shown, from where, and how.
use vstd::arithmetic::div_mod::{
    lemma_add_mod_noop, lemma_mod_add_multiples_vanish, lemma_mod_bound,
    lemma_mod_sub_multiples_vanish, lemma_small_mod, lemma_sub_mod_noop,
};
use vstd::prelude::*;
use vstd::string::StringExecFns;

use crate::geometry::WindowSize;
use crate::renderer::{DocumentKind, LinkInfo, TocEntry};
use crate::text::push_decimal;

verus! {

/// The largest number of zoom steps.
pub const MAX_ZOOM_LEVEL: i16 = 20;

/// The single-precision encoding of eleven points.
pub const DEFAULT_FONT_SIZE: u32 = 0x4130_0000;

/// What the keyboard acts on.
#[derive(Debug, Clone, PartialEq, Eq)]
pub enum InputMode {
    Normal,
    GoToPage(String),
    Search(String),
    Toc { selected: usize },
    Metadata,
    Links { links: Vec<LinkInfo>, input: String },
    Help,
}

/// What the status line says after the page number.
#[derive(Debug, Clone)]
pub enum StatusMsg {
    Hint,
    Info(String),
}

impl StatusMsg {
    /// The status line: the page, counted from one, of at least one page, a mark while
    /// zoom mode is on, and the message.
    pub open spec fn line(self, page: int, n_pages: int, zoom_mode: bool) -> Seq<char> {
        let prefix = crate::text::decimal((page + 1) as nat) + "/"@ + crate::text::decimal(
            crate::geometry::larger(n_pages, 1) as nat,
        ) + "  "@ + if zoom_mode {
            "[ZOOM] "@
        } else {
            Seq::empty()
        };
        prefix + match self {
            StatusMsg::Hint =>
                "? help  q quit  ←/→ page  ↑/↓ scroll  i invert  r rotate  z zoom"@,
            StatusMsg::Info(info) => info@,
        }
    }

    /// The status line.
    pub fn text(&self, page: usize, n_pages: usize, zoom_mode: bool) -> (text: String)
        requires
            page < usize::MAX,
        ensures
            text@ == self.line(page as int, n_pages as int, zoom_mode),
    {
        let mut text = String::new();
        push_decimal(&mut text, (page + 1) as u64);
        text.append("/");
        push_decimal(&mut text, n_pages.max(1) as u64);
        text.append("  ");
        if zoom_mode {
            text.append("[ZOOM] ");
        }
        match self {
            StatusMsg::Hint => {
                text.append(
                    "? help  q quit  ←/→ page  ↑/↓ scroll  i invert  r rotate  z zoom",
                );
            },
            StatusMsg::Info(info) => {
                text.append(info.as_str());
            },
        }
        proof {
            assert(text@ =~= self.line(page as int, n_pages as int, zoom_mode));
        }
        text
    }
}

/// What a scroll request came to.
#[derive(Debug, Clone, Copy, PartialEq, Eq, Structural)]
pub enum ScrollAction {
    Scrolled,
    TurnNext,
    TurnPrev,
    Nothing,
}

/// The reader's state. Pages are counted from zero; `epub_font_size` is a
/// single-precision encoding.
pub struct App {
    pub page: usize,
    pub n_pages: usize,
    pub document_kind: DocumentKind,
    pub input_mode: InputMode,
    pub msg: StatusMsg,
    pub zoom_mode: bool,
    pub zoom_level: i16,
    pub scroll_y: u32,
    pub pan_x: u32,
    pub rendered_width: u32,
    pub rendered_height: u32,
    pub rotation: u16,
    pub inverted: bool,
    pub tinted: bool,
    pub auto_crop: bool,
    pub epub_font_size: u32,
    pub toc: Vec<TocEntry>,
    pub metadata: Vec<(String, String)>,
    pub search_term: Option<String>,
    pub search_counts: Vec<Option<usize>>,
    pub visible: bool,
    pub generation: u64,
}

/// The generation after `generation`: one more, and never zero.
pub open spec fn next_generation(generation: u64) -> u64 {
    if generation == u64::MAX {
        1
    } else {
        (generation + 1) as u64
    }
}

impl App {
    /// What holds from the start on: there is a page, each has a search count, the zoom
    /// level is in range, and no generation is zero.
    pub open spec fn wf(self) -> bool {
        &&& self.n_pages >= 1
        &&& self.search_counts@.len() == self.n_pages
        &&& 0 <= self.zoom_level <= MAX_ZOOM_LEVEL
        &&& self.generation >= 1
    }

    /// What holds once a document is open: the page is one of its pages.
    pub open spec fn on_a_page(self) -> bool {
        self.page < self.n_pages
    }

    /// Rows of the rendered page below the pane.
    pub open spec fn spec_max_scroll_y(self, viewport: WindowSize) -> int {
        crate::geometry::larger(self.rendered_height - viewport.spec_area_height(), 0)
    }

    /// Columns of the rendered page beside the pane.
    pub open spec fn spec_max_pan_x(self, viewport: WindowSize) -> int {
        crate::geometry::larger(self.rendered_width - viewport.spec_area_width(), 0)
    }

    /// Whether the view does not reach past the rendered page.
    pub open spec fn in_view(self, viewport: WindowSize) -> bool {
        &&& self.scroll_y <= self.spec_max_scroll_y(viewport)
        &&& self.pan_x <= self.spec_max_pan_x(viewport)
    }

    /// The state after turning to another page.
    pub open spec fn turned_to(self, page: usize) -> App {
        App {
            page,
            scroll_y: 0,
            pan_x: 0,
            generation: next_generation(self.generation),
            ..self
        }
    }

    /// The state after scrolling down as far as the page reaches.
    pub open spec fn scrolled_down(self, viewport: WindowSize, amount: u32) -> App {
        App {
            scroll_y: crate::geometry::smaller(
                self.scroll_y + amount,
                self.spec_max_scroll_y(viewport),
            ) as u32,
            ..self
        }
    }

    /// The state after scrolling up as far as the page reaches.
    pub open spec fn scrolled_up(self, amount: u32) -> App {
        App { scroll_y: crate::geometry::larger(self.scroll_y - amount, 0) as u32, ..self }
    }

    /// The state after moving the view right as far as the page reaches.
    pub open spec fn panned_right(self, viewport: WindowSize, amount: u32) -> App {
        App {
            pan_x: crate::geometry::smaller(
                self.pan_x + amount,
                self.spec_max_pan_x(viewport),
            ) as u32,
            ..self
        }
    }

    /// The state after moving the view left as far as the page reaches.
    pub open spec fn panned_left(self, amount: u32) -> App {
        App { pan_x: crate::geometry::larger(self.pan_x - amount, 0) as u32, ..self }
    }

    /// The state after enlarging the page by one step.
    pub open spec fn zoomed_in(self) -> App {
        App {
            zoom_level: (self.zoom_level + 1) as i16,
            generation: next_generation(self.generation),
            ..self
        }
    }

    /// The state after shrinking the page by one step, the view being kept on it.
    pub open spec fn zoomed_out(self, viewport: WindowSize) -> App {
        App {
            zoom_level: (self.zoom_level - 1) as i16,
            scroll_y: crate::geometry::smaller(
                self.scroll_y as int,
                self.spec_max_scroll_y(viewport),
            ) as u32,
            pan_x: crate::geometry::smaller(
                self.pan_x as int,
                self.spec_max_pan_x(viewport),
            ) as u32,
            generation: next_generation(self.generation),
            ..self
        }
    }

    /// The state before any document is open, asking for a page.
    pub fn new(page: usize) -> (app: Self)
        ensures
            app.wf(),
            app.page == page,
            app.n_pages == 1,
            app.document_kind == DocumentKind::Fixed,
            app.input_mode == InputMode::Normal,
            app.msg == StatusMsg::Hint,
            !app.zoom_mode,
            app.zoom_level == 0,
            app.scroll_y == 0,
            app.pan_x == 0,
            app.rendered_width == 0,
            app.rendered_height == 0,
            app.rotation == 0,
            !app.inverted,
            !app.tinted,
            !app.auto_crop,
            app.epub_font_size == DEFAULT_FONT_SIZE,
            app.toc@ == Seq::<TocEntry>::empty(),
            app.metadata@ == Seq::<(String, String)>::empty(),
            app.search_term is None,
            app.search_counts@ == seq![None::<usize>],
            app.visible,
            app.generation == 1,
    {
        App {
            page,
            n_pages: 1,
            document_kind: DocumentKind::Fixed,
            input_mode: InputMode::Normal,
            msg: StatusMsg::Hint,
            zoom_mode: false,
            zoom_level: 0,
            scroll_y: 0,
            pan_x: 0,
            rendered_width: 0,
            rendered_height: 0,
            rotation: 0,
            inverted: false,
            tinted: false,
            auto_crop: false,
            epub_font_size: DEFAULT_FONT_SIZE,
            toc: Vec::new(),
            metadata: Vec::new(),
            search_term: None,
            search_counts: vec![None],
            visible: true,
            generation: 1,
        }
    }

    /// Takes over a document that was opened or laid out anew.
    pub fn set_document(&mut self, kind: DocumentKind, n_pages: usize)
        ensures
            final(self).n_pages == crate::geometry::larger(n_pages as int, 1),
            final(self).page == crate::geometry::smaller(
                old(self).page as int,
                final(self).n_pages - 1,
            ),
            final(self).search_counts@ == Seq::new(
                final(self).n_pages as nat,
                |i: int|
                    if i < old(self).search_counts@.len() {
                        old(self).search_counts@[i]
                    } else {
                        None
                    },
            ),
            *final(self) == (App {
                page: final(self).page,
                n_pages: final(self).n_pages,
                document_kind: kind,
                zoom_mode: old(self).zoom_mode && kind == DocumentKind::Fixed,
                zoom_level: if kind == DocumentKind::Fixed {
                    old(self).zoom_level
                } else {
                    0
                },
                search_counts: final(self).search_counts,
                ..*old(self)
            }),
            final(self).on_a_page(),
            old(self).wf() ==> final(self).wf(),
    {
        let ghost before = self.search_counts@;
        self.document_kind = kind;
        self.n_pages = n_pages.max(1);
        self.page = self.page.min(self.n_pages - 1);
        self.search_counts.resize(self.n_pages, None);
        proof {
            let wanted = Seq::new(
                self.n_pages as nat,
                |i: int|
                    if i < before.len() {
                        before[i]
                    } else {
                        None
                    },
            );
            assert forall|i: int| 0 <= i < self.n_pages implies #[trigger] self.search_counts@[i]
                == wanted[i] by {
                if self.n_pages > before.len() && i < before.len() {
                    assert(self.search_counts@.subrange(0, before.len() as int)[i] == before[i]);
                }
            }
            assert(self.search_counts@ =~= wanted);
        }
        match kind {
            DocumentKind::Reflowable => {
                self.zoom_mode = false;
                self.zoom_level = 0;
            },
            DocumentKind::Fixed => {},
        }
    }

    /// The area to render a page for: the page area in pixels, and how many zoom steps
    /// it is enlarged by.
    pub fn render_area(&self, viewport: WindowSize) -> (area: (u32, u32, i16))
        ensures
            area.0 == viewport.spec_area_width(),
            area.1 == viewport.spec_area_height(),
            area.2 == if self.document_kind == DocumentKind::Fixed {
                self.zoom_level
            } else {
                0
            },
    {
        let steps: i16 = if self.supports_zoom() {
            self.zoom_level
        } else {
            0
        };
        (viewport.page_area_width_px(), viewport.page_area_height_px(), steps)
    }

    /// Whether the document can be enlarged: one that is laid out anew cannot.
    pub fn supports_zoom(&self) -> (zoomable: bool)
        ensures
            zoomable == (self.document_kind == DocumentKind::Fixed),
    {
        match self.document_kind {
            DocumentKind::Fixed => true,
            DocumentKind::Reflowable => false,
        }
    }

    /// Starts a new generation: pages rendered for an earlier one are out of date.
    pub fn invalidate(&mut self)
        ensures
            *final(self) == (App { generation: next_generation(old(self).generation), ..*old(self)
            }),
            final(self).generation != old(self).generation,
            final(self).generation >= 1,
    {
        self.generation = self.generation.wrapping_add(1).max(1);
    }

    /// Turns to a page of the document, from its top; false where that is no page or
    /// the current one.
    pub fn go_to_page(&mut self, page: usize) -> (turned: bool)
        ensures
            turned == (page < old(self).n_pages && page != old(self).page),
            *final(self) == if turned {
                old(self).turned_to(page)
            } else {
                *old(self)
            },
            old(self).wf() ==> final(self).wf(),
    {
        if page >= self.n_pages || page == self.page {
            return false;
        }
        self.page = page;
        self.scroll_y = 0;
        self.pan_x = 0;
        self.invalidate();
        true
    }

    /// Turns to the next page; false on the last.
    pub fn next_page(&mut self) -> (turned: bool)
        ensures
            turned == (old(self).page + 1 < old(self).n_pages),
            *final(self) == if turned {
                old(self).turned_to((old(self).page + 1) as usize)
            } else {
                *old(self)
            },
            old(self).wf() ==> final(self).wf(),
    {
        self.go_to_page(self.page.saturating_add(1))
    }

    /// Turns to the page before; false on the first.
    pub fn prev_page(&mut self) -> (turned: bool)
        ensures
            turned == (1 <= old(self).page <= old(self).n_pages),
            *final(self) == if turned {
                old(self).turned_to((old(self).page - 1) as usize)
            } else {
                *old(self)
            },
            old(self).wf() ==> final(self).wf(),
    {
        match self.page.checked_sub(1) {
            Some(page) => self.go_to_page(page),
            None => false,
        }
    }

    /// Turns to the page before and shows its bottom.
    pub fn prev_page_at_bottom(&mut self, viewport: WindowSize) -> (turned: bool)
        ensures
            turned == (1 <= old(self).page <= old(self).n_pages),
            *final(self) == if turned {
                App {
                    scroll_y: old(self).spec_max_scroll_y(viewport) as u32,
                    ..old(self).turned_to((old(self).page - 1) as usize)
                }
            } else {
                *old(self)
            },
            old(self).wf() ==> final(self).wf(),
    {
        if !self.prev_page() {
            return false;
        }
        self.scroll_y = self.max_scroll_y(viewport);
        true
    }

    /// Rows of the rendered page below the pane.
    pub fn max_scroll_y(&self, viewport: WindowSize) -> (rows: u32)
        ensures
            rows == self.spec_max_scroll_y(viewport),
    {
        self.rendered_height.saturating_sub(viewport.page_area_height_px())
    }

    /// Columns of the rendered page beside the pane.
    pub fn max_pan_x(&self, viewport: WindowSize) -> (columns: u32)
        ensures
            columns == self.spec_max_pan_x(viewport),
    {
        self.rendered_width.saturating_sub(viewport.page_area_width_px())
    }

    /// Scrolls down as far as the page reaches; at its bottom, asks for the next page.
    pub fn scroll_down(&mut self, viewport: WindowSize, amount: u32) -> (action: ScrollAction)
        requires
            old(self).scroll_y >= old(self).spec_max_scroll_y(viewport) ==> old(self).page
                < usize::MAX,
        ensures
            action == if old(self).scroll_y < old(self).spec_max_scroll_y(viewport) {
                ScrollAction::Scrolled
            } else if old(self).page + 1 < old(self).n_pages {
                ScrollAction::TurnNext
            } else {
                ScrollAction::Nothing
            },
            *final(self) == if action == ScrollAction::Scrolled {
                old(self).scrolled_down(viewport, amount)
            } else {
                *old(self)
            },
            old(self).in_view(viewport) ==> final(self).in_view(viewport),
            old(self).wf() ==> final(self).wf(),
    {
        let max: u32 = self.max_scroll_y(viewport);
        if self.scroll_y < max {
            self.scroll_y = self.scroll_y.saturating_add(amount).min(max);
            ScrollAction::Scrolled
        } else if self.page + 1 < self.n_pages {
            ScrollAction::TurnNext
        } else {
            ScrollAction::Nothing
        }
    }

    /// Scrolls up as far as the page reaches; at its top, asks for the page before.
    pub fn scroll_up(&mut self, amount: u32) -> (action: ScrollAction)
        ensures
            action == if old(self).scroll_y > 0 {
                ScrollAction::Scrolled
            } else if old(self).page > 0 {
                ScrollAction::TurnPrev
            } else {
                ScrollAction::Nothing
            },
            *final(self) == old(self).scrolled_up(amount),
            forall|viewport: WindowSize| #[trigger]
                old(self).in_view(viewport) ==> final(self).in_view(viewport),
            old(self).wf() ==> final(self).wf(),
    {
        if self.scroll_y > 0 {
            self.scroll_y = self.scroll_y.saturating_sub(amount);
            ScrollAction::Scrolled
        } else if self.page > 0 {
            ScrollAction::TurnPrev
        } else {
            ScrollAction::Nothing
        }
    }

    /// Moves the view right as far as the page reaches; whether it moved.
    pub fn pan_right(&mut self, viewport: WindowSize, amount: u32) -> (moved: bool)
        ensures
            *final(self) == old(self).panned_right(viewport, amount),
            moved == (final(self).pan_x != old(self).pan_x),
            old(self).in_view(viewport) ==> final(self).in_view(viewport),
            old(self).wf() ==> final(self).wf(),
    {
        let before: u32 = self.pan_x;
        self.pan_x = self.pan_x.saturating_add(amount).min(self.max_pan_x(viewport));
        before != self.pan_x
    }

    /// Moves the view left as far as the page reaches; whether it moved.
    pub fn pan_left(&mut self, amount: u32) -> (moved: bool)
        ensures
            *final(self) == old(self).panned_left(amount),
            moved == (final(self).pan_x != old(self).pan_x),
            forall|viewport: WindowSize| #[trigger]
                old(self).in_view(viewport) ==> final(self).in_view(viewport),
            old(self).wf() ==> final(self).wf(),
    {
        let before: u32 = self.pan_x;
        self.pan_x = self.pan_x.saturating_sub(amount);
        before != self.pan_x
    }

    /// Enters zoom mode, or leaves it and shows the whole page from its top.
    pub fn toggle_zoom(&mut self)
        ensures
            *final(self) == if old(self).zoom_mode {
                App {
                    zoom_mode: false,
                    zoom_level: 0,
                    scroll_y: 0,
                    pan_x: 0,
                    generation: next_generation(old(self).generation),
                    ..*old(self)
                }
            } else {
                App {
                    zoom_mode: true,
                    generation: next_generation(old(self).generation),
                    ..*old(self)
                }
            },
            old(self).wf() ==> final(self).wf(),
    {
        self.zoom_mode = !self.zoom_mode;
        if !self.zoom_mode {
            self.zoom_level = 0;
            self.scroll_y = 0;
            self.pan_x = 0;
        }
        self.invalidate();
    }

    /// Enlarges the page by one step; false at the largest.
    pub fn zoom_in(&mut self) -> (zoomed: bool)
        ensures
            zoomed == (old(self).zoom_level < MAX_ZOOM_LEVEL),
            *final(self) == if zoomed {
                old(self).zoomed_in()
            } else {
                *old(self)
            },
            old(self).wf() ==> final(self).wf(),
    {
        if self.zoom_level >= MAX_ZOOM_LEVEL {
            return false;
        }
        self.zoom_level = self.zoom_level + 1;
        self.invalidate();
        true
    }

    /// Shrinks the page by one step and keeps the view on it; false where it is not
    /// enlarged.
    pub fn zoom_out(&mut self, viewport: WindowSize) -> (zoomed: bool)
        ensures
            zoomed == (old(self).zoom_level > 0),
            *final(self) == if zoomed {
                old(self).zoomed_out(viewport)
            } else {
                *old(self)
            },
            zoomed ==> final(self).in_view(viewport),
            old(self).wf() ==> final(self).wf(),
    {
        if self.zoom_level <= 0 {
            return false;
        }
        self.zoom_level = self.zoom_level - 1;
        self.scroll_y = self.scroll_y.min(self.max_scroll_y(viewport));
        self.pan_x = self.pan_x.min(self.max_pan_x(viewport));
        self.invalidate();
        true
    }

    /// Takes over the size of the rendered page and keeps the view on it.
    pub fn set_rendered_size(&mut self, width: u32, height: u32, viewport: WindowSize)
        ensures
            final(self).rendered_width == width,
            final(self).rendered_height == height,
            final(self).scroll_y == crate::geometry::smaller(
                old(self).scroll_y as int,
                final(self).spec_max_scroll_y(viewport),
            ),
            final(self).pan_x == crate::geometry::smaller(
                old(self).pan_x as int,
                final(self).spec_max_pan_x(viewport),
            ),
            *final(self) == (App {
                rendered_width: width,
                rendered_height: height,
                scroll_y: final(self).scroll_y,
                pan_x: final(self).pan_x,
                ..*old(self)
            }),
            final(self).in_view(viewport),
            old(self).wf() ==> final(self).wf(),
    {
        self.rendered_width = width;
        self.rendered_height = height;
        self.scroll_y = self.scroll_y.min(self.max_scroll_y(viewport));
        self.pan_x = self.pan_x.min(self.max_pan_x(viewport));
    }

    /// Forgets what a search found.
    pub fn clear_search_results(&mut self)
        ensures
            final(self).search_counts@ == Seq::new(old(self).n_pages as nat, |i: int| None::<usize>),
            *final(self) == (App { search_counts: final(self).search_counts, ..*old(self) }),
            old(self).wf() ==> final(self).wf(),
    {
        self.search_counts.clear();
        self.search_counts.resize(self.n_pages, None);
        proof {
            assert(self.search_counts@ =~= Seq::new(self.n_pages as nat, |i: int| None::<usize>));
        }
    }

    /// Takes over how often the term was found on each page; pages without a count have
    /// none of it.
    pub fn set_search_counts(&mut self, counts: Vec<usize>)
        ensures
            final(self).search_counts@ == Seq::new(
                old(self).n_pages as nat,
                |i: int|
                    Some(
                        if i < counts@.len() {
                            counts@[i]
                        } else {
                            0
                        },
                    ),
            ),
            *final(self) == (App { search_counts: final(self).search_counts, ..*old(self) }),
            old(self).wf() ==> final(self).wf(),
    {
        let mut found: Vec<Option<usize>> = Vec::new();
        let mut page: usize = 0;
        while page < self.n_pages
            invariant
                page <= self.n_pages,
                *self == *old(self),
                found@ == Seq::new(
                    page as nat,
                    |i: int|
                        Some(
                            if i < counts@.len() {
                                counts@[i]
                            } else {
                                0
                            },
                        ),
                ),
            decreases self.n_pages - page,
        {
            let count: usize = if page < counts.len() {
                counts[page]
            } else {
                0
            };
            found.push(Some(count));
            page = page + 1;
            proof {
                assert(found@ =~= Seq::new(
                    page as nat,
                    |i: int|
                        Some(
                            if i < counts@.len() {
                                counts@[i]
                            } else {
                                0
                            },
                        ),
                ));
            }
        }
        self.search_counts = found;
    }

    /// Whether the search found the term on a page.
    pub open spec fn matches_on(self, page: int) -> bool {
        &&& 0 <= page < self.search_counts@.len()
        &&& self.search_counts@[page] matches Some(count) && count > 0
    }

    /// The page `offset` pages after the current one, or before it, where the last page
    /// is followed by the first.
    pub open spec fn page_around(self, reverse: bool, offset: int) -> int {
        if reverse {
            (self.page - offset) % (self.n_pages as int)
        } else {
            (self.page + offset) % (self.n_pages as int)
        }
    }

    /// The first page with a match at `offset` or further on, back to the current page
    /// at most.
    pub open spec fn match_from(self, reverse: bool, offset: int) -> Option<int>
        decreases self.n_pages + 1 - offset,
    {
        if offset > self.n_pages {
            None
        } else if self.matches_on(self.page_around(reverse, offset)) {
            Some(self.page_around(reverse, offset))
        } else {
            self.match_from(reverse, offset + 1)
        }
    }

    /// Whether a search leads to another page.
    pub open spec fn finds(self, reverse: bool) -> bool {
        &&& self.search_term is Some
        &&& self.n_pages > 0
        &&& self.match_from(reverse, 1) matches Some(page) && page != self.page
    }

    /// The state after turning to the next page with a match, or the one before, if the
    /// search leads to another page.
    pub open spec fn searched(self, reverse: bool) -> App {
        if self.finds(reverse) {
            self.turned_to(self.match_from(reverse, 1)->0 as usize)
        } else {
            self
        }
    }

    /// Turns to the next page with a match, or the one before; false where that is the
    /// current page or there is none.
    pub fn next_search_result(&mut self, reverse: bool) -> (turned: bool)
        ensures
            turned == old(self).finds(reverse),
            *final(self) == old(self).searched(reverse),
            old(self).wf() ==> final(self).wf(),
    {
        if self.search_term.is_none() || self.n_pages == 0 {
            return false;
        }
        let n: usize = self.n_pages;
        let here: usize = self.page % n;
        let mut offset: usize = 1;
        while offset <= n
            invariant
                *self == *old(self),
                n == self.n_pages,
                n > 0,
                here == self.page as int % n as int,
                1 <= offset <= n + 1,
                n < usize::MAX || offset <= n,
                self.search_term is Some,
                self.match_from(reverse, 1) == self.match_from(reverse, offset as int),
            decreases n + 1 - offset,
        {
            let step: usize = offset % n;
            proof {
                lemma_mod_bound(self.page as int, n as int);
                lemma_mod_bound(offset as int, n as int);
                around_by_remainders(self.page as int, offset as int, n as int);
            }
            let page: usize = if reverse {
                if here >= step {
                    here - step
                } else {
                    n - (step - here)
                }
            } else {
                if here < n - step {
                    here + step
                } else {
                    here - (n - step)
                }
            };
            let count: usize = if page < self.search_counts.len() {
                match self.search_counts[page] {
                    Some(count) => count,
                    None => 0,
                }
            } else {
                0
            };
            if count > 0 {
                return self.go_to_page(page);
            }
            if offset == n {
                proof {
                    assert(self.match_from(reverse, offset + 1) is None);
                }
                return false;
            }
            offset = offset + 1;
        }
        false
    }

    /// Replaces the status message.
    pub fn show_info(&mut self, message: String)
        ensures
            *final(self) == (App { msg: StatusMsg::Info(message), ..*old(self) }),
            old(self).wf() ==> final(self).wf(),
    {
        self.msg = StatusMsg::Info(message);
    }
}

/// Going round a document of `n` pages, with remainders in place of sums.
proof fn around_by_remainders(page: int, offset: int, n: int)
    requires
        n > 0,
    ensures
        ({
            let here = page % n;
            let step = offset % n;
            &&& (page + offset) % n == if here < n - step {
                here + step
            } else {
                here - (n - step)
            }
            &&& (page - offset) % n == if here >= step {
                here - step
            } else {
                n - (step - here)
            }
        }),
{
    let here = page % n;
    let step = offset % n;
    lemma_mod_bound(page, n);
    lemma_mod_bound(offset, n);
    lemma_add_mod_noop(page, offset, n);
    lemma_sub_mod_noop(page, offset, n);
    if here < n - step {
        lemma_small_mod((here + step) as nat, n as nat);
    } else {
        lemma_mod_sub_multiples_vanish(here + step, n);
        lemma_small_mod((here + step - n) as nat, n as nat);
    }
    if here >= step {
        lemma_small_mod((here - step) as nat, n as nat);
    } else {
        lemma_mod_add_multiples_vanish(here - step, n);
        lemma_small_mod((here - step + n) as nat, n as nat);
    }
}

/// The offset at which the search stops: the first one with a match.
proof fn match_offset(app: App, reverse: bool, from: int) -> (offset: int)
    requires
        1 <= from,
        app.match_from(reverse, from) is Some,
    ensures
        from <= offset <= app.n_pages,
        app.match_from(reverse, from) == Some(app.page_around(reverse, offset)),
        app.matches_on(app.page_around(reverse, offset)),
        forall|k: int|
            from <= k < offset ==> !app.matches_on(#[trigger] app.page_around(reverse, k)),
    decreases app.n_pages + 1 - from,
{
    if app.matches_on(app.page_around(reverse, from)) {
        from
    } else {
        match_offset(app, reverse, from + 1)
    }
}

/// The search stops at the first offset with a match.
proof fn stops_at_first_match(app: App, reverse: bool, from: int, offset: int)
    requires
        1 <= from <= offset <= app.n_pages,
        app.matches_on(app.page_around(reverse, offset)),
    ensures
        app.match_from(reverse, from) is Some,
        (forall|k: int|
            from <= k < offset ==> !app.matches_on(#[trigger] app.page_around(reverse, k)))
            ==> app.match_from(reverse, from) == Some(app.page_around(reverse, offset)),
    decreases offset - from,
{
    if from < offset {
        stops_at_first_match(app, reverse, from + 1, offset);
    }
}

/// Going round by less than all pages leads to another page, and going round by all of
/// them leads back.
proof fn around_the_document(app: App, reverse: bool, offset: int)
    requires
        app.on_a_page(),
        1 <= offset <= app.n_pages,
    ensures
        0 <= app.page_around(reverse, offset) < app.n_pages,
        app.page_around(reverse, offset) == app.page <==> offset == app.n_pages,
        app.page_around(reverse, offset) == if reverse {
            if offset <= app.page {
                app.page - offset
            } else {
                app.page - offset + app.n_pages
            }
        } else {
            if app.page + offset < app.n_pages {
                app.page + offset
            } else {
                app.page + offset - app.n_pages
            }
        },
{
    let n = app.n_pages as int;
    if reverse {
        lemma_mod_add_multiples_vanish(app.page - offset, n);
    } else {
        lemma_mod_sub_multiples_vanish(app.page + offset, n);
    }
    if reverse && offset > app.page {
        lemma_small_mod((app.page - offset + n) as nat, n as nat);
    } else if reverse {
        lemma_small_mod((app.page - offset) as nat, n as nat);
    } else if app.page + offset < n {
        lemma_small_mod((app.page + offset) as nat, n as nat);
    } else {
        lemma_small_mod((app.page + offset - n) as nat, n as nat);
    }
}

/// The search turns the page exactly where the term was found on another page than the
/// current one, in either direction: it reaches every page, going round past the ends
/// of the document.
pub proof fn search_reaches_every_page(app: App, reverse: bool)
    requires
        app.search_counts@.len() == app.n_pages,
        app.on_a_page(),
        app.search_term is Some,
    ensures
        app.finds(reverse) <==> exists|page: int|
            page != app.page && #[trigger] app.matches_on(page),
{
    let n = app.n_pages as int;
    if app.match_from(reverse, 1) is Some {
        let offset = match_offset(app, reverse, 1);
        assert(app.matches_on(app.page_around(reverse, offset)));
    }
    if exists|page: int| page != app.page && #[trigger] app.matches_on(page) {
        let page = choose|page: int| page != app.page && #[trigger] app.matches_on(page);
        let offset = if reverse {
            if page < app.page {
                app.page - page
            } else {
                app.page - page + n
            }
        } else {
            if page > app.page {
                page - app.page
            } else {
                page - app.page + n
            }
        };
        around_the_document(app, reverse, offset);
        assert(app.page_around(reverse, offset) == page);
        stops_at_first_match(app, reverse, 1, offset);
        let first = match_offset(app, reverse, 1);
        if first > offset {
            assert(!app.matches_on(app.page_around(reverse, offset)));
        }
        around_the_document(app, reverse, first);
    }
}

/// From a page with a match, a search that leads to another page is undone by one in the
/// other direction: that leads to another page too, and back to the first.
pub proof fn search_directions_undo_each_other(app: App, reverse: bool)
    requires
        app.search_counts@.len() == app.n_pages,
        app.on_a_page(),
        app.matches_on(app.page as int),
        app.finds(reverse),
    ensures
        app.searched(reverse).finds(!reverse),
        app.searched(reverse).searched(!reverse).page == app.page,
{
    let back = !reverse;
    let offset = match_offset(app, reverse, 1);
    around_the_document(app, reverse, offset);
    let there = app.searched(reverse);
    assert(there.page == app.page_around(reverse, offset));
    around_the_document(there, back, offset);
    assert(there.page_around(back, offset) == app.page);
    assert(there.matches_on(app.page as int));
    assert forall|k: int| 1 <= k < offset implies !there.matches_on(
        #[trigger] there.page_around(back, k),
    ) by {
        around_the_document(there, back, k);
        around_the_document(app, reverse, offset - k);
        assert(there.page_around(back, k) == app.page_around(reverse, offset - k));
        assert(!app.matches_on(app.page_around(reverse, offset - k)));
    }
    stops_at_first_match(there, back, 1, offset);
}

/// Turning to the next page and then to the one before leads back to the page, shown
/// from its top.
pub proof fn page_turns_undo_each_other(app: App)
    requires
        app.page + 1 < app.n_pages,
    ensures
        ({
            let there = app.turned_to((app.page + 1) as usize);
            let back = there.turned_to((there.page - 1) as usize);
            &&& 1 <= there.page <= there.n_pages
            &&& back.page == app.page
            &&& back.n_pages == app.n_pages
            &&& back.scroll_y == 0
            &&& back.pan_x == 0
        }),
{
}

/// Scrolling up undoes scrolling down, and the other way round, as long as neither
/// reaches an edge of the page; the same holds of moving right and left.
pub proof fn moves_undo_each_other(app: App, viewport: WindowSize, amount: u32)
    requires
        app.in_view(viewport),
    ensures
        app.scroll_y + amount <= app.spec_max_scroll_y(viewport) ==> app.scrolled_down(
            viewport,
            amount,
        ).scrolled_up(amount) == app,
        amount <= app.scroll_y ==> app.scrolled_up(amount).scrolled_down(viewport, amount) == app,
        app.pan_x + amount <= app.spec_max_pan_x(viewport) ==> app.panned_right(
            viewport,
            amount,
        ).panned_left(amount) == app,
        amount <= app.pan_x ==> app.panned_left(amount).panned_right(viewport, amount) == app,
{
}

/// Enlarging the page by one step and shrinking it again changes nothing but the
/// generation, if the view is on the page.
pub proof fn zooming_out_undoes_zooming_in(app: App, viewport: WindowSize)
    requires
        app.wf(),
        app.zoom_level < MAX_ZOOM_LEVEL,
        app.in_view(viewport),
    ensures
        app.zoomed_in().zoomed_out(viewport) == (App {
            generation: next_generation(next_generation(app.generation)),
            ..app
        }),
{
}

/// No generation is zero, and each differs from the one before: a page rendered for
/// the generation before is always told apart.
pub proof fn generations_differ(generation: u64)
    ensures
        next_generation(generation) != generation,
        next_generation(generation) >= 1,
{
}

/// What a status line says: the page counted from one, how many there are, a mark in zoom
/// mode, and then the message.
pub proof fn status_names_the_page(
    message: StatusMsg,
    page: usize,
    n_pages: usize,
    zoom_mode: bool,
)
    requires
        n_pages >= 1,
    ensures
        ({
            let line = message.line(page as int, n_pages as int, zoom_mode);
            let first = crate::text::decimal((page + 1) as nat);
            let second = crate::text::decimal(n_pages as nat);
            let shown = first + "/"@ + second + "  "@;
            &&& zoom_mode ==> shown + "[ZOOM] "@ == line.take((shown.len() + "[ZOOM] "@.len()) as int)
            &&& shown == line.take(shown.len() as int)
            &&& message matches StatusMsg::Info(info) ==> {
                &&& !zoom_mode ==> line == shown + info@
                &&& zoom_mode ==> line == shown + "[ZOOM] "@ + info@
            }
        }),
{
    let line = message.line(page as int, n_pages as int, zoom_mode);
    let shown = crate::text::decimal((page + 1) as nat) + "/"@ + crate::text::decimal(
        n_pages as nat,
    ) + "  "@;
    assert(line.take(shown.len() as int) =~= shown);
    if zoom_mode {
        assert(line.take((shown.len() + "[ZOOM] "@.len()) as int) =~= shown + "[ZOOM] "@);
    }
    if let StatusMsg::Info(info) = message {
        if zoom_mode {
            assert(line =~= shown + "[ZOOM] "@ + info@);
        } else {
            assert(line =~= shown + info@);
        }
    }
}

/// Turning to a page shows that page from its top left corner, in a new generation, and
/// changes nothing else.
pub proof fn turning_shows_the_page_from_its_top(app: App, page: usize)
    ensures
        ({
            let turned = app.turned_to(page);
            &&& turned.page == page
            &&& turned.scroll_y == 0
            &&& turned.pan_x == 0
            &&& app.generation < 0xffff_ffff_ffff_ffff ==> turned.generation == app.generation + 1
            &&& app.generation == 0xffff_ffff_ffff_ffff ==> turned.generation == 1
            &&& turned == (App {
                page: turned.page,
                scroll_y: turned.scroll_y,
                pan_x: turned.pan_x,
                generation: turned.generation,
                ..app
            })
        }),
{
}

/// Generations count up by one, and start over at one.
pub proof fn generations_count_up(generation: u64)
    ensures
        generation < 0xffff_ffff_ffff_ffff ==> next_generation(generation) == generation + 1,
        generation == 0xffff_ffff_ffff_ffff ==> next_generation(generation) == 1,
{
}

/// The view can be moved as far as the rendered page is larger than the page area, and not
/// at all where it is not.
pub proof fn views_reach_the_edges_of_the_page(app: App, viewport: WindowSize)
    ensures
        app.rendered_height >= viewport.spec_area_height() ==> app.spec_max_scroll_y(viewport)
            + viewport.spec_area_height() == app.rendered_height,
        app.rendered_height < viewport.spec_area_height() ==> app.spec_max_scroll_y(viewport) == 0,
        app.rendered_width >= viewport.spec_area_width() ==> app.spec_max_pan_x(viewport)
            + viewport.spec_area_width() == app.rendered_width,
        app.rendered_width < viewport.spec_area_width() ==> app.spec_max_pan_x(viewport) == 0,
        app.in_view(viewport) <==> (app.scroll_y == 0 || app.scroll_y + viewport.spec_area_height()
            <= app.rendered_height) && (app.pan_x == 0 || app.pan_x + viewport.spec_area_width()
            <= app.rendered_width),
{
}

/// Scrolling and moving change the view by the amount, or take it to the edge of the page
/// if that is nearer, and change nothing else.
pub proof fn moves_go_as_far_as_the_page(app: App, viewport: WindowSize, amount: u32)
    ensures
        ({
            let down = app.scrolled_down(viewport, amount);
            &&& down == (App { scroll_y: down.scroll_y, ..app })
            &&& app.scroll_y + amount + viewport.spec_area_height() <= app.rendered_height
                ==> down.scroll_y == app.scroll_y + amount
            &&& app.scroll_y + amount + viewport.spec_area_height() > app.rendered_height
                && app.rendered_height >= viewport.spec_area_height() ==> down.scroll_y
                + viewport.spec_area_height() == app.rendered_height
            &&& app.rendered_height < viewport.spec_area_height() ==> down.scroll_y == 0
        }),
        ({
            let up = app.scrolled_up(amount);
            &&& up == (App { scroll_y: up.scroll_y, ..app })
            &&& amount <= app.scroll_y ==> up.scroll_y + amount == app.scroll_y
            &&& amount > app.scroll_y ==> up.scroll_y == 0
        }),
        ({
            let right = app.panned_right(viewport, amount);
            &&& right == (App { pan_x: right.pan_x, ..app })
            &&& app.pan_x + amount + viewport.spec_area_width() <= app.rendered_width
                ==> right.pan_x == app.pan_x + amount
            &&& app.pan_x + amount + viewport.spec_area_width() > app.rendered_width
                && app.rendered_width >= viewport.spec_area_width() ==> right.pan_x
                + viewport.spec_area_width() == app.rendered_width
            &&& app.rendered_width < viewport.spec_area_width() ==> right.pan_x == 0
        }),
        ({
            let left = app.panned_left(amount);
            &&& left == (App { pan_x: left.pan_x, ..app })
            &&& amount <= app.pan_x ==> left.pan_x + amount == app.pan_x
            &&& amount > app.pan_x ==> left.pan_x == 0
        }),
{
    assert(0 <= viewport.spec_area_height()) by {
        assert(0 <= viewport.spec_page_rows() * viewport.cell_height_px) by (nonlinear_arith)
            requires
                viewport.spec_page_rows() >= 0,
        ;
    }
    assert(0 <= viewport.spec_area_width()) by {
        assert(0 <= viewport.cols * viewport.cell_width_px) by (nonlinear_arith);
    }
}

/// Enlarging and shrinking go by one step, in a new generation. Enlarging leaves the view
/// where it is; shrinking takes it back to the edges of the page. Nothing else changes, and
/// there are twenty steps.
pub proof fn zooming_goes_by_one_step(app: App, viewport: WindowSize)
    requires
        0 <= app.zoom_level <= 20,
    ensures
        MAX_ZOOM_LEVEL == 20,
        ({
            let larger = app.zoomed_in();
            &&& larger.zoom_level == app.zoom_level + 1
            &&& app.generation < 0xffff_ffff_ffff_ffff ==> larger.generation == app.generation + 1
            &&& app.generation == 0xffff_ffff_ffff_ffff ==> larger.generation == 1
            &&& larger == (App {
                zoom_level: larger.zoom_level,
                generation: larger.generation,
                ..app
            })
        }),
        app.zoom_level > 0 ==> {
            let smaller = app.zoomed_out(viewport);
            &&& smaller.zoom_level == app.zoom_level - 1
            &&& app.generation < 0xffff_ffff_ffff_ffff ==> smaller.generation == app.generation + 1
            &&& app.generation == 0xffff_ffff_ffff_ffff ==> smaller.generation == 1
            &&& app.in_view(viewport) ==> smaller.scroll_y == app.scroll_y && smaller.pan_x
                == app.pan_x
            &&& smaller.scroll_y <= app.scroll_y && smaller.pan_x <= app.pan_x
            &&& smaller.scroll_y == 0 || smaller.scroll_y + viewport.spec_area_height()
                <= app.rendered_height
            &&& smaller.pan_x == 0 || smaller.pan_x + viewport.spec_area_width()
                <= app.rendered_width
            &&& smaller.scroll_y < app.scroll_y && app.rendered_height
                >= viewport.spec_area_height() ==> smaller.scroll_y + viewport.spec_area_height()
                == app.rendered_height
            &&& smaller.pan_x < app.pan_x && app.rendered_width >= viewport.spec_area_width()
                ==> smaller.pan_x + viewport.spec_area_width() == app.rendered_width
            &&& smaller == (App {
                zoom_level: smaller.zoom_level,
                scroll_y: smaller.scroll_y,
                pan_x: smaller.pan_x,
                generation: smaller.generation,
                ..app
            })
        },
{
    assert(0 <= viewport.spec_area_height()) by {
        assert(0 <= viewport.spec_page_rows() * viewport.cell_height_px) by (nonlinear_arith)
            requires
                viewport.spec_page_rows() >= 0,
        ;
    }
    assert(0 <= viewport.spec_area_width()) by {
        assert(0 <= viewport.cols * viewport.cell_width_px) by (nonlinear_arith);
    }
}

/// A search leads to a page on which the text was found, and to the nearest such page in
/// its direction: no page with a match lies between, going on past the ends of the
/// document.
pub proof fn searches_lead_to_the_nearest_match(app: App, reverse: bool, page: int)
    requires
        app.search_counts@.len() == app.n_pages,
        app.page < app.n_pages,
        app.search_term is Some,
        0 <= page < app.n_pages,
        page != app.page,
        app.search_counts@[page] matches Some(count) && count > 0,
    ensures
        app.finds(reverse),
        ({
            let found = app.searched(reverse).page;
            let n = app.n_pages as int;
            &&& app.searched(reverse) == app.turned_to(found)
            &&& found < n && found != app.page
            &&& app.search_counts@[found as int] matches Some(count) && count > 0
            &&& !reverse ==> (found - app.page) % n <= (page - app.page) % n
            &&& reverse ==> (app.page - found) % n <= (app.page - page) % n
        }),
{
    assert(app.matches_on(page));
    search_reaches_every_page(app, reverse);
    let n = app.n_pages as int;
    let first = match_offset(app, reverse, 1);
    around_the_document(app, reverse, first);
    let offset = if reverse {
        if page < app.page {
            app.page - page
        } else {
            app.page - page + n
        }
    } else {
        if page > app.page {
            page - app.page
        } else {
            page - app.page + n
        }
    };
    around_the_document(app, reverse, offset);
    assert(app.page_around(reverse, offset) == page);
    if first > offset {
        assert(!app.matches_on(app.page_around(reverse, offset)));
    }
    let found = app.page_around(reverse, first);
    if reverse {
        lemma_mod_add_multiples_vanish(app.page - page, n);
        lemma_mod_add_multiples_vanish(app.page - found, n);
        lemma_small_mod(offset as nat, n as nat);
        lemma_small_mod(first as nat, n as nat);
    } else {
        lemma_mod_add_multiples_vanish(page - app.page, n);
        lemma_mod_add_multiples_vanish(found - app.page, n);
        lemma_small_mod(offset as nat, n as nat);
        lemma_small_mod(first as nat, n as nat);
    }
}

/// A search stays where it is if it has no text, or if the text was found on no other page.
pub proof fn searches_without_a_match_stay(app: App, reverse: bool)
    requires
        app.search_counts@.len() == app.n_pages,
        app.page < app.n_pages,
        app.search_term is None || forall|page: int|
            0 <= page < app.n_pages && page != app.page ==> (#[trigger] app.search_counts@[page]
                is None || app.search_counts@[page] == Some(0usize)),
    ensures
        !app.finds(reverse),
        app.searched(reverse) == app,
{
    if app.search_term is Some {
        search_reaches_every_page(app, reverse);
        assert forall|page: int| page != app.page implies !#[trigger] app.matches_on(page) by {
            if 0 <= page < app.search_counts@.len() {
                assert(app.search_counts@[page] is None || app.search_counts@[page] == Some(
                    0usize,
                ));
            }
        }
    }
}

} // verus!
