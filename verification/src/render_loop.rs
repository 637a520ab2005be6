//! The renderer's decisions: what to do for each command, when a page has to be
//! rendered, what to answer, and what to render ahead of time.
use std::path::PathBuf;

use vstd::prelude::*;

use crate::app::DEFAULT_FONT_SIZE;
use crate::cache::{CacheKey, KeyView, RenderCache};
use crate::compositor::{PageImage, PageView};
use crate::document::{opened_event, MetadataName, Outline};
use crate::error::RenderError;
use crate::geometry::WindowSize;
use crate::renderer::{DocumentKind, LinkInfo, RenderCmd, RenderEvent, RenderOptions};
use crate::rounding::{same_single, single_bits};

verus! {

/// What the renderer has to do next, and with what.
pub enum RenderPhase {
    /// Send the event that announces the document.
    Opening,
    /// Take the next command.
    Waiting,
    /// Lay the document out for the options.
    LayingOut { page: usize, options: RenderOptions },
    /// Announce the document anew.
    Announcing { page: usize, options: RenderOptions },
    /// Render the page.
    Rendering { page: usize, options: RenderOptions },
    /// Search the document for the text.
    Searching(String),
    /// Read the links of the page.
    FindingLinks(usize),
    /// Write the page to the file.
    Exporting { page: usize, output: PathBuf, options: RenderOptions, auto_crop: bool },
    /// Send the event handed out with this phase. If it is an answer, not being able to
    /// send it ends the loop. The page whose neighbors may be rendered ahead comes with
    /// it.
    Sending { answer: bool, prerender: Option<(usize, RenderOptions)> },
    /// See whether commands are waiting, and count the pages.
    CheckingQueue { page: usize, options: RenderOptions },
    /// Render the page ahead of time, then perhaps the other one.
    Prerendering { page: usize, options: RenderOptions, other: Option<usize> },
    /// Stop, and say so.
    Stopped,
    /// Stop without a word: nobody was there to be told of the document.
    Abandoned,
}

/// The renderer between two steps. The layout is the area and the font size, as
/// single-precision encodings, for which a reflowable document was laid out last.
pub struct RenderLoop {
    pub kind: DocumentKind,
    pub layout: Option<(u32, u32, u32)>,
    pub cache: RenderCache,
    pub phase: RenderPhase,
}

/// Whether a document laid out as given can show a page with the options as it is.
pub open spec fn is_laid_out(layout: Option<(u32, u32, u32)>, options: RenderOptions) -> bool {
    layout matches Some(layout) && crate::rounding::singles_equal(layout.0, options.width_px)
        && crate::rounding::singles_equal(layout.1, options.height_px)
        && crate::rounding::singles_equal(layout.2, options.epub_font_size)
}

/// Whether an encoding is the same as another or compares equal to it.
pub open spec fn alike(a: u32, b: u32) -> bool {
    a == b || crate::rounding::singles_equal(a, b)
}

/// Whether a page of the given size belongs to a layout.
pub open spec fn of_layout(
    layout: Option<(u32, u32, u32)>,
    width: u32,
    height: u32,
    epub_font_size: u32,
) -> bool {
    layout matches Some(layout) && alike(layout.0, width) && alike(layout.1, height) && alike(
        layout.2,
        epub_font_size,
    )
}

/// The kept pages after a page was rendered for the options.
pub open spec fn with_page(
    pages: Seq<(KeyView, PageView)>,
    page: usize,
    options: RenderOptions,
    image: PageView,
) -> Seq<(KeyView, PageView)> {
    let key = crate::cache::key_of(page, options);
    crate::cache::kept(crate::cache::without_key(pages, key).push((key, image)))
}

/// The page after the given one, if the document has it.
pub open spec fn page_after(page: usize, count: usize) -> Option<usize> {
    if page + 1 < count {
        Some((page + 1) as usize)
    } else {
        None
    }
}

/// The page before the given one, if there is one.
pub open spec fn page_before(page: usize) -> Option<usize> {
    if page > 0 {
        Some((page - 1) as usize)
    } else {
        None
    }
}

/// Whether a page is to be rendered ahead of time: it is there and not kept yet.
pub open spec fn is_missing(
    pages: Seq<(KeyView, PageView)>,
    page: Option<usize>,
    options: RenderOptions,
) -> bool {
    page matches Some(page) && !crate::cache::has_key(pages, crate::cache::key_of(page, options))
}

/// What comes after one page was rendered ahead of time, or needed not to be: the other
/// page, if it is missing.
pub open spec fn then_other(
    pages: Seq<(KeyView, PageView)>,
    options: RenderOptions,
    other: Option<usize>,
) -> RenderPhase {
    if is_missing(pages, other, options) {
        RenderPhase::Prerendering { page: other.unwrap(), options, other: None }
    } else {
        RenderPhase::Waiting
    }
}

/// What is rendered ahead of time around a page: the page after it, then the one before.
pub open spec fn neighbors(
    pages: Seq<(KeyView, PageView)>,
    page: usize,
    options: RenderOptions,
    count: usize,
) -> RenderPhase {
    if is_missing(pages, page_after(page, count), options) {
        RenderPhase::Prerendering {
            page: page_after(page, count).unwrap(),
            options,
            other: page_before(page),
        }
    } else {
        then_other(pages, options, page_before(page))
    }
}

/// Whether an event is the given page, for the request with the options.
pub open spec fn shows_page(
    event: Option<RenderEvent>,
    page: usize,
    options: RenderOptions,
    image: PageView,
) -> bool {
    event matches Some(RenderEvent::Page { page: shown, generation, image: sent }) && shown == page
        && generation == options.generation && sent@ == image
}

/// Whether an event is an error with the given words.
pub open spec fn tells_error(event: Option<RenderEvent>, words: Seq<char>) -> bool {
    event matches Some(RenderEvent::Error(text)) && text@ == words
}

impl RenderPhase {
    /// At most how many steps it takes until the next command is taken.
    pub open spec fn steps_left(self) -> nat {
        match self {
            RenderPhase::LayingOut { .. } => 7,
            RenderPhase::Announcing { .. } => 6,
            RenderPhase::Rendering { .. } => 5,
            RenderPhase::Searching(_) => 5,
            RenderPhase::FindingLinks(_) => 5,
            RenderPhase::Exporting { .. } => 5,
            RenderPhase::Sending { .. } => 4,
            RenderPhase::CheckingQueue { .. } => 3,
            RenderPhase::Prerendering { other, .. } => if other is Some {
                2
            } else {
                1
            },
            RenderPhase::Opening => 1,
            RenderPhase::Waiting => 0,
            RenderPhase::Stopped => 0,
            RenderPhase::Abandoned => 0,
        }
    }

    /// The options of the page that the phase is about, if it is about one.
    pub open spec fn options(self) -> Option<RenderOptions> {
        match self {
            RenderPhase::Announcing { options, .. } => Some(options),
            RenderPhase::Rendering { options, .. } => Some(options),
            RenderPhase::Sending { prerender, .. } => match prerender {
                Some(prerender) => Some(prerender.1),
                None => None,
            },
            RenderPhase::CheckingQueue { options, .. } => Some(options),
            RenderPhase::Prerendering { options, .. } => Some(options),
            _ => None,
        }
    }
}

impl RenderLoop {
    /// While the document is laid out for the pane, every kept page, and every page on
    /// its way, belongs to the current layout.
    pub open spec fn wf(self) -> bool {
        &&& self.cache.wf()
        &&& self.kind == DocumentKind::Reflowable ==> {
            &&& forall|i: int|
                0 <= i < self.cache@.len() ==> {
                    let key = (#[trigger] self.cache@[i]).0;
                    of_layout(self.layout, key.width, key.height, key.epub_font_size)
                }
            &&& self.phase.options() matches Some(options) ==> of_layout(
                self.layout,
                options.width_px,
                options.height_px,
                options.epub_font_size,
            )
        }
    }

    /// Whether the loop went on from `self` to `next` by serving a page: from the kept
    /// pages if it is among them, and by rendering it otherwise.
    pub open spec fn serves(
        self,
        next: RenderLoop,
        event: Option<RenderEvent>,
        page: usize,
        options: RenderOptions,
    ) -> bool {
        let key = crate::cache::key_of(page, options);
        let place = crate::cache::place_of(self.cache@, key);
        &&& next.kind == self.kind
        &&& next.layout == self.layout
        &&& if crate::cache::has_key(self.cache@, key) {
            &&& next.cache@ == self.cache@.remove(place).push(self.cache@[place])
            &&& next.phase == (RenderPhase::Sending {
                answer: true,
                prerender: Some((page, options)),
            })
            &&& shows_page(event, page, options, self.cache@[place].1)
        } else {
            &&& next.cache@ == self.cache@
            &&& next.phase == (RenderPhase::Rendering { page, options })
            &&& event is None
        }
    }

    /// Whether the loop went on from `self` to `next` with nothing but a new phase.
    pub open spec fn turns_to(self, next: RenderLoop, phase: RenderPhase) -> bool {
        &&& next.kind == self.kind
        &&& next.layout == self.layout
        &&& next.cache@ == self.cache@
        &&& next.phase == phase
    }

    /// The renderer of a document that was opened for a pane.
    pub fn new(kind: DocumentKind, viewport: WindowSize) -> (fresh: Self)
        ensures
            fresh.wf(),
            fresh.kind == kind,
            fresh.phase == RenderPhase::Opening,
            fresh.cache@.len() == 0,
            kind == DocumentKind::Fixed ==> fresh.layout is None,
            kind == DocumentKind::Reflowable ==> {
                &&& fresh.layout matches Some(layout)
                &&& layout.0 == crate::renderer::single_px(viewport.spec_area_width())
                &&& layout.1 == crate::renderer::single_px(viewport.spec_area_height())
                &&& layout.2 == DEFAULT_FONT_SIZE
            },
    {
        let layout: Option<(u32, u32, u32)> = match kind {
            DocumentKind::Fixed => None,
            DocumentKind::Reflowable => Some(
                (
                    single_bits(viewport.page_area_width_px()),
                    single_bits(viewport.page_area_height_px()),
                    DEFAULT_FONT_SIZE,
                ),
            ),
        };
        RenderLoop { kind, layout, cache: RenderCache::new(), phase: RenderPhase::Opening }
    }

    /// The renderer of a document that was opened for a pane and of which this was read,
    /// and the event that announces the document.
    pub fn open(
        kind: DocumentKind,
        viewport: WindowSize,
        counted: Option<i32>,
        outlines: Option<Vec<Outline>>,
        metadata: &Vec<(MetadataName, Option<String>)>,
    ) -> (opened: (Self, RenderEvent))
        requires
            outlines matches Some(outlines) ==> crate::document::depth(outlines@) <= usize::MAX,
        ensures
            opened.0.wf(),
            opened.0.kind == kind,
            opened.0.phase == RenderPhase::Opening,
            opened.0.cache@.len() == 0,
            kind == DocumentKind::Fixed ==> opened.0.layout is None,
            kind == DocumentKind::Reflowable ==> {
                &&& opened.0.layout matches Some(layout)
                &&& layout.0 == crate::renderer::single_px(viewport.spec_area_width())
                &&& layout.1 == crate::renderer::single_px(viewport.spec_area_height())
                &&& layout.2 == DEFAULT_FONT_SIZE
            },
            crate::document::announces(opened.1, kind, counted, outlines, metadata@),
    {
        (Self::new(kind, viewport), opened_event(kind, counted, outlines, metadata))
    }

    /// The document was announced, or nobody was there to be told of it.
    pub fn opened(self, delivered: bool) -> (next: Self)
        requires
            self.wf(),
            self.phase is Opening,
        ensures
            next.wf(),
            next.phase.steps_left() < self.phase.steps_left(),
            self.turns_to(
                next,
                if delivered {
                    RenderPhase::Waiting
                } else {
                    RenderPhase::Abandoned
                },
            ),
    {
        let mut next = self;
        next.phase = if delivered {
            RenderPhase::Waiting
        } else {
            RenderPhase::Abandoned
        };
        next
    }

    /// What is told last, once the loop is over.
    pub fn last_event(&self) -> (event: Option<RenderEvent>)
        requires
            self.phase is Stopped || self.phase is Abandoned,
        ensures
            event == if self.phase is Stopped {
                Some(RenderEvent::Stopped)
            } else {
                None
            },
    {
        match self.phase {
            RenderPhase::Stopped => Some(RenderEvent::Stopped),
            _ => None,
        }
    }

    fn serve(self, page: usize, options: RenderOptions) -> (next: (Self, Option<RenderEvent>))
        requires
            self.wf(),
            self.kind == DocumentKind::Reflowable ==> of_layout(
                self.layout,
                options.width_px,
                options.height_px,
                options.epub_font_size,
            ),
        ensures
            next.0.wf(),
            self.serves(next.0, next.1, page, options),
    {
        let RenderLoop { kind, layout, mut cache, phase: _ } = self;
        let key: CacheKey = CacheKey::new(page, &options);
        let ghost before = cache@;
        match cache.get(&key) {
            Some(image) => {
                let generation: u64 = options.generation;
                let next = RenderLoop {
                    kind,
                    layout,
                    cache,
                    phase: RenderPhase::Sending { answer: true, prerender: Some((page, options)) },
                };
                proof {
                    let place = crate::cache::place_of(before, key@);
                    assert(crate::cache::is_at(before, key@, place));
                    let after = next.cache@;
                    assert forall|i: int| 0 <= i < after.len() implies exists|j: int|
                        0 <= j < before.len() && #[trigger] before[j] == #[trigger] after[i] by {
                        let j = if i == before.len() - 1 {
                            place
                        } else if i < place {
                            i
                        } else {
                            i + 1
                        };
                        assert(before[j] == after[i]);
                    }
                }
                (next, Some(RenderEvent::Page { page, generation, image }))
            },
            None => (
                RenderLoop { kind, layout, cache, phase: RenderPhase::Rendering { page, options } },
                None,
            ),
        }
    }

    /// Takes a command, or learns that there are no more. A page is served at once,
    /// unless the document has to be laid out for it first.
    pub fn command(self, command: Option<RenderCmd>) -> (next: (Self, Option<RenderEvent>))
        requires
            self.wf(),
            self.phase is Waiting,
        ensures
            next.0.wf(),
            next.1 is Some <==> next.0.phase is Sending,
            match command {
                Some(RenderCmd::Render { page, options }) => if self.kind
                    == DocumentKind::Reflowable && !is_laid_out(self.layout, options) {
                    self.turns_to(next.0, RenderPhase::LayingOut { page, options }) && next.1
                        is None
                } else {
                    self.serves(next.0, next.1, page, options)
                },
                Some(RenderCmd::Search(term)) => self.turns_to(
                    next.0,
                    RenderPhase::Searching(term),
                ) && next.1 is None,
                Some(RenderCmd::ClearCache) => {
                    &&& next.0.kind == self.kind
                    &&& next.0.layout == self.layout
                    &&& next.0.cache@.len() == 0
                    &&& next.0.phase is Waiting
                    &&& next.1 is None
                },
                Some(RenderCmd::GetLinks(page)) => self.turns_to(
                    next.0,
                    RenderPhase::FindingLinks(page),
                ) && next.1 is None,
                Some(RenderCmd::Export { page, output, options, auto_crop }) => self.turns_to(
                    next.0,
                    RenderPhase::Exporting { page, output, options, auto_crop },
                ) && next.1 is None,
                Some(RenderCmd::Shutdown) => self.turns_to(next.0, RenderPhase::Stopped) && next.1
                    is None,
                None => self.turns_to(next.0, RenderPhase::Stopped) && next.1 is None,
            },
    {
        let mut next = self;
        match command {
            Some(RenderCmd::Render { page, options }) => {
                if let DocumentKind::Reflowable = next.kind {
                    let laid_out: bool = match next.layout {
                        Some((width, height, size)) => same_single(width, options.width_px)
                            && same_single(height, options.height_px) && same_single(
                            size,
                            options.epub_font_size,
                        ),
                        None => false,
                    };
                    if !laid_out {
                        next.phase = RenderPhase::LayingOut { page, options };
                        return (next, None);
                    }
                }
                return next.serve(page, options);
            },
            Some(RenderCmd::Search(term)) => {
                next.phase = RenderPhase::Searching(term);
            },
            Some(RenderCmd::ClearCache) => {
                next.cache.clear();
            },
            Some(RenderCmd::GetLinks(page)) => {
                next.phase = RenderPhase::FindingLinks(page);
            },
            Some(RenderCmd::Export { page, output, options, auto_crop }) => {
                next.phase = RenderPhase::Exporting { page, output, options, auto_crop };
            },
            Some(RenderCmd::Shutdown) => {
                next.phase = RenderPhase::Stopped;
            },
            None => {
                next.phase = RenderPhase::Stopped;
            },
        }
        (next, None)
    }

    /// The document was laid out anew, and is of the given kind now, or it could not be.
    pub fn laid_out(self, result: Result<DocumentKind, String>) -> (next: (
        Self,
        Option<RenderEvent>,
    ))
        requires
            self.wf(),
            self.phase is LayingOut,
        ensures
            next.0.wf(),
            next.1 is Some <==> next.0.phase is Sending,
            next.0.phase.steps_left() < self.phase.steps_left(),
            self.phase matches RenderPhase::LayingOut { page, options } && match result {
                Ok(kind) => {
                    &&& next.0.kind == kind
                    &&& next.0.layout == Some(
                        (options.width_px, options.height_px, options.epub_font_size),
                    )
                    &&& next.0.cache@.len() == 0
                    &&& next.0.phase == (RenderPhase::Announcing { page, options })
                    &&& next.1 is None
                },
                Err(cause) => self.turns_to(
                    next.0,
                    RenderPhase::Sending { answer: false, prerender: None },
                ) && tells_error(next.1, cause@),
            },
    {
        let RenderLoop { kind, layout, mut cache, phase } = self;
        match phase {
            RenderPhase::LayingOut { page, options } => match result {
                Ok(kind) => {
                    cache.clear();
                    let layout: Option<(u32, u32, u32)> = Some(
                        (options.width_px, options.height_px, options.epub_font_size),
                    );
                    (
                        RenderLoop {
                            kind,
                            layout,
                            cache,
                            phase: RenderPhase::Announcing { page, options },
                        },
                        None,
                    )
                },
                Err(cause) => {
                    let phase = RenderPhase::Sending { answer: false, prerender: None };
                    (RenderLoop { kind, layout, cache, phase }, Some(RenderEvent::Error(cause)))
                },
            },
            phase => (RenderLoop { kind, layout, cache, phase }, None),
        }
    }

    /// The document was announced anew, as far as that was possible.
    pub fn announced(self) -> (next: (Self, Option<RenderEvent>))
        requires
            self.wf(),
            self.phase is Announcing,
        ensures
            next.0.wf(),
            next.1 is Some <==> next.0.phase is Sending,
            next.0.phase.steps_left() < self.phase.steps_left(),
            self.phase matches RenderPhase::Announcing { page, options } && self.serves(
                next.0,
                next.1,
                page,
                options,
            ),
    {
        let RenderLoop { kind, layout, cache, phase } = self;
        match phase {
            RenderPhase::Announcing { page, options } => {
                let rest = RenderLoop { kind, layout, cache, phase: RenderPhase::Waiting };
                rest.serve(page, options)
            },
            phase => (RenderLoop { kind, layout, cache, phase }, None),
        }
    }

    /// The page was rendered, and is kept and answered with, or it could not be.
    pub fn rendered(self, result: Result<PageImage, RenderError>) -> (next: (
        Self,
        Option<RenderEvent>,
    ))
        requires
            self.wf(),
            self.phase is Rendering,
            result matches Err(error) ==> error.countable(),
        ensures
            next.0.wf(),
            next.1 is Some <==> next.0.phase is Sending,
            next.0.phase.steps_left() < self.phase.steps_left(),
            self.phase matches RenderPhase::Rendering { page, options } && match result {
                Ok(image) => {
                    &&& next.0.kind == self.kind
                    &&& next.0.layout == self.layout
                    &&& next.0.cache@ == with_page(self.cache@, page, options, image@)
                    &&& next.0.phase == (RenderPhase::Sending {
                        answer: true,
                        prerender: Some((page, options)),
                    })
                    &&& shows_page(next.1, page, options, image@)
                },
                Err(error) => self.turns_to(
                    next.0,
                    RenderPhase::Sending { answer: false, prerender: None },
                ) && tells_error(next.1, error.words()),
            },
    {
        let RenderLoop { kind, layout, mut cache, phase } = self;
        match phase {
            RenderPhase::Rendering { page, options } => match result {
                Ok(image) => {
                    let key: CacheKey = CacheKey::new(page, &options);
                    let generation: u64 = options.generation;
                    proof {
                        cache.bounds();
                        pages_stay_or_come(cache@, page, options, image@);
                    }
                    cache.insert(key, image.clone());
                    let phase = RenderPhase::Sending {
                        answer: true,
                        prerender: Some((page, options)),
                    };
                    (
                        RenderLoop { kind, layout, cache, phase },
                        Some(RenderEvent::Page { page, generation, image }),
                    )
                },
                Err(error) => {
                    let phase = RenderPhase::Sending { answer: false, prerender: None };
                    (
                        RenderLoop { kind, layout, cache, phase },
                        Some(RenderEvent::Error(error.message())),
                    )
                },
            },
            phase => (RenderLoop { kind, layout, cache, phase }, None),
        }
    }

    fn replied(self, result: Result<RenderEvent, RenderError>) -> (next: (
        Self,
        Option<RenderEvent>,
    ))
        requires
            self.wf(),
            result matches Err(error) ==> error.countable(),
        ensures
            next.0.wf(),
            match result {
                Ok(event) => self.turns_to(
                    next.0,
                    RenderPhase::Sending { answer: true, prerender: None },
                ) && next.1 == Some(event),
                Err(error) => self.turns_to(
                    next.0,
                    RenderPhase::Sending { answer: false, prerender: None },
                ) && tells_error(next.1, error.words()),
            },
    {
        let mut next = self;
        match result {
            Ok(event) => {
                next.phase = RenderPhase::Sending { answer: true, prerender: None };
                (next, Some(event))
            },
            Err(error) => {
                next.phase = RenderPhase::Sending { answer: false, prerender: None };
                (next, Some(RenderEvent::Error(error.message())))
            },
        }
    }

    /// The document was searched: how often the text occurs on each page.
    pub fn searched(self, result: Result<Vec<usize>, RenderError>) -> (next: (
        Self,
        Option<RenderEvent>,
    ))
        requires
            self.wf(),
            self.phase is Searching,
            result matches Err(error) ==> error.countable(),
        ensures
            next.0.wf(),
            next.1 is Some <==> next.0.phase is Sending,
            next.0.phase.steps_left() < self.phase.steps_left(),
            match result {
                Ok(counts) => self.turns_to(
                    next.0,
                    RenderPhase::Sending { answer: true, prerender: None },
                ) && next.1 == Some(RenderEvent::SearchComplete(counts)),
                Err(error) => self.turns_to(
                    next.0,
                    RenderPhase::Sending { answer: false, prerender: None },
                ) && tells_error(next.1, error.words()),
            },
    {
        self.replied(
            match result {
                Ok(counts) => Ok(RenderEvent::SearchComplete(counts)),
                Err(error) => Err(error),
            },
        )
    }

    /// The links of the page were read.
    pub fn links_found(self, links: Vec<LinkInfo>) -> (next: (Self, Option<RenderEvent>))
        requires
            self.wf(),
            self.phase is FindingLinks,
        ensures
            next.0.wf(),
            next.1 is Some <==> next.0.phase is Sending,
            next.0.phase.steps_left() < self.phase.steps_left(),
            self.turns_to(next.0, RenderPhase::Sending { answer: true, prerender: None }),
            next.1 == Some(RenderEvent::Links(links)),
    {
        self.replied(Ok(RenderEvent::Links(links)))
    }

    /// The page was written to its file, or it could not be.
    pub fn exported(self, result: Result<(), RenderError>) -> (next: (Self, Option<RenderEvent>))
        requires
            self.wf(),
            self.phase is Exporting,
            result matches Err(error) ==> error.countable(),
        ensures
            next.0.wf(),
            next.1 is Some <==> next.0.phase is Sending,
            next.0.phase.steps_left() < self.phase.steps_left(),
            match result {
                Ok(()) => {
                    &&& self.turns_to(
                        next.0,
                        RenderPhase::Sending { answer: true, prerender: None },
                    )
                    &&& self.phase matches RenderPhase::Exporting { output, .. } && next.1 == Some(
                        RenderEvent::Exported(output),
                    )
                },
                Err(error) => self.turns_to(
                    next.0,
                    RenderPhase::Sending { answer: false, prerender: None },
                ) && tells_error(next.1, error.words()),
            },
    {
        let RenderLoop { kind, layout, cache, phase } = self;
        match phase {
            RenderPhase::Exporting { output, .. } => {
                let rest = RenderLoop { kind, layout, cache, phase: RenderPhase::Waiting };
                rest.replied(
                    match result {
                        Ok(()) => Ok(RenderEvent::Exported(output)),
                        Err(error) => Err(error),
                    },
                )
            },
            phase => (RenderLoop { kind, layout, cache, phase }, None),
        }
    }

    /// The event was sent, or could not be. An answer that nobody receives ends the loop.
    pub fn sent(self, delivered: bool) -> (next: Self)
        requires
            self.wf(),
            self.phase is Sending,
        ensures
            next.wf(),
            next.phase.steps_left() < self.phase.steps_left(),
            self.phase matches RenderPhase::Sending { answer, prerender } && self.turns_to(
                next,
                if answer && !delivered {
                    RenderPhase::Stopped
                } else {
                    match prerender {
                        Some((page, options)) => RenderPhase::CheckingQueue { page, options },
                        None => RenderPhase::Waiting,
                    }
                },
            ),
    {
        let RenderLoop { kind, layout, cache, phase } = self;
        let phase = match phase {
            RenderPhase::Sending { answer, prerender } => if answer && !delivered {
                RenderPhase::Stopped
            } else {
                match prerender {
                    Some((page, options)) => RenderPhase::CheckingQueue { page, options },
                    None => RenderPhase::Waiting,
                }
            },
            phase => phase,
        };
        RenderLoop { kind, layout, cache, phase }
    }

    fn after_other(self, options: RenderOptions, other: Option<usize>) -> (next: Self)
        requires
            self.wf(),
            self.kind == DocumentKind::Reflowable ==> of_layout(
                self.layout,
                options.width_px,
                options.height_px,
                options.epub_font_size,
            ),
        ensures
            next.wf(),
            self.turns_to(next, then_other(self.cache@, options, other)),
    {
        let mut next = self;
        let missing: bool = match other {
            Some(page) => !next.cache.contains_key(&CacheKey::new(page, &options)),
            None => false,
        };
        next.phase = match other {
            Some(page) if missing => RenderPhase::Prerendering { page, options, other: None },
            _ => RenderPhase::Waiting,
        };
        next
    }

    /// Nothing is rendered ahead of time while commands are waiting. Otherwise the
    /// neighbors of the page that was shown are, of `count` pages.
    pub fn queue_checked(self, idle: bool, count: usize) -> (next: Self)
        requires
            self.wf(),
            self.phase is CheckingQueue,
        ensures
            next.wf(),
            next.phase.steps_left() < self.phase.steps_left(),
            self.phase matches RenderPhase::CheckingQueue { page, options } && self.turns_to(
                next,
                if idle {
                    neighbors(self.cache@, page, options, count)
                } else {
                    RenderPhase::Waiting
                },
            ),
    {
        let RenderLoop { kind, layout, cache, phase } = self;
        match phase {
            RenderPhase::CheckingQueue { page, options } => {
                if !idle {
                    return RenderLoop { kind, layout, cache, phase: RenderPhase::Waiting };
                }
                let before: Option<usize> = if page > 0 {
                    Some(page - 1)
                } else {
                    None
                };
                if count > 0 && page < count - 1 {
                    let after: usize = page + 1;
                    if !cache.contains_key(&CacheKey::new(after, &options)) {
                        return RenderLoop {
                            kind,
                            layout,
                            cache,
                            phase: RenderPhase::Prerendering {
                                page: after,
                                options,
                                other: before,
                            },
                        };
                    }
                }
                let rest = RenderLoop { kind, layout, cache, phase: RenderPhase::Waiting };
                rest.after_other(options, before)
            },
            phase => RenderLoop { kind, layout, cache, phase },
        }
    }

    /// A page was rendered ahead of time and is kept, or it could not be rendered, which
    /// nobody is told of.
    pub fn prerendered(self, image: Option<PageImage>) -> (next: Self)
        requires
            self.wf(),
            self.phase is Prerendering,
        ensures
            next.wf(),
            next.phase.steps_left() < self.phase.steps_left(),
            next.kind == self.kind,
            next.layout == self.layout,
            self.phase matches RenderPhase::Prerendering { page, options, other } && {
                &&& next.cache@ == match image {
                    Some(image) => with_page(self.cache@, page, options, image@),
                    None => self.cache@,
                }
                &&& next.phase == then_other(next.cache@, options, other)
            },
    {
        let RenderLoop { kind, layout, mut cache, phase } = self;
        match phase {
            RenderPhase::Prerendering { page, options, other } => {
                if let Some(image) = image {
                    proof {
                        cache.bounds();
                        pages_stay_or_come(cache@, page, options, image@);
                    }
                    cache.insert(CacheKey::new(page, &options), image);
                }
                let rest = RenderLoop { kind, layout, cache, phase: RenderPhase::Waiting };
                rest.after_other(options, other)
            },
            phase => RenderLoop { kind, layout, cache, phase },
        }
    }
}

/// What is told of a document that could not be opened: why, and that nothing more comes.
pub fn opening_failed(error: RenderError) -> (events: Vec<RenderEvent>)
    requires
        error.countable(),
    ensures
        events@.len() == 2,
        events@[0] matches RenderEvent::Error(text) && text@ == error.words(),
        events@[1] is Stopped,
{
    vec![RenderEvent::Error(error.message()), RenderEvent::Stopped]
}

/// Keeping a page brings no other page in.
proof fn pages_stay_or_come(
    pages: Seq<(KeyView, PageView)>,
    page: usize,
    options: RenderOptions,
    image: PageView,
)
    ensures
        forall|i: int|
            0 <= i < with_page(pages, page, options, image).len() ==> {
                let kept = (#[trigger] with_page(pages, page, options, image)[i]);
                kept.0 == crate::cache::key_of(page, options) || exists|j: int|
                    0 <= j < pages.len() && #[trigger] pages[j] == kept
            },
{
    let key = crate::cache::key_of(page, options);
    let rest = crate::cache::without_key(pages, key);
    let grown = rest.push((key, image));
    let after = with_page(pages, page, options, image);
    crate::cache::kept_is_the_recent_end(grown);
    assert forall|i: int| 0 <= i < after.len() implies {
        let kept = (#[trigger] after[i]);
        kept.0 == key || exists|j: int| 0 <= j < pages.len() && #[trigger] pages[j] == kept
    } by {
        let index = i + grown.len() - after.len();
        assert(after[i] == grown[index]);
        if index < rest.len() {
            let place = crate::cache::place_of(pages, key);
            if crate::cache::has_key(pages, key) {
                assert(crate::cache::is_at(pages, key, place));
            }
            let j = if crate::cache::has_key(pages, key) && index >= place {
                index + 1
            } else {
                index
            };
            assert(pages[j] == after[i]);
        }
    }
}

/// Whether two requests differ in nothing but their generation.
pub open spec fn same_request(a: RenderOptions, b: RenderOptions) -> bool {
    crate::cache::key_of(0, a) == crate::cache::key_of(0, b)
}

/// A page that was rendered is found when it is asked for again, whatever the
/// generation of the request, unless its pixels alone are more than may be kept.
pub proof fn rendered_page_is_found_again(
    pages: Seq<(KeyView, PageView)>,
    page: usize,
    options: RenderOptions,
    image: PageView,
    again: RenderOptions,
)
    requires
        crate::cache::keys_differ(pages),
        same_request(options, again),
        image.pixels.len() <= crate::cache::MAX_BYTES,
    ensures
        ({
            let after = with_page(pages, page, options, image);
            let key = crate::cache::key_of(page, again);
            &&& crate::cache::has_key(after, key)
            &&& after[crate::cache::place_of(after, key)].1 == image
        }),
{
    let key = crate::cache::key_of(page, options);
    assert(crate::cache::key_of(page, again) == key) by {
        let a = crate::cache::key_of(0, options);
        let b = crate::cache::key_of(0, again);
        assert(a.search_term == b.search_term);
    }
    crate::cache::inserted_page_is_found(pages, key, image);
}

/// While no page is kept, every page is rendered when it is asked for.
pub proof fn nothing_kept_means_rendering(
    before: RenderLoop,
    next: RenderLoop,
    event: Option<RenderEvent>,
    page: usize,
    options: RenderOptions,
)
    requires
        before.cache@.len() == 0,
        before.serves(next, event, page, options),
    ensures
        next.phase == (RenderPhase::Rendering { page, options }),
{
    assert forall|i: int| !#[trigger] crate::cache::is_at(
        before.cache@,
        crate::cache::key_of(page, options),
        i,
    ) by {}
}

/// A page of a reflowable document that is answered with from the kept pages was
/// rendered for the layout that the document has.
pub proof fn kept_pages_match_the_layout(
    before: RenderLoop,
    next: RenderLoop,
    event: Option<RenderEvent>,
    page: usize,
    options: RenderOptions,
)
    requires
        before.wf(),
        before.kind == DocumentKind::Reflowable,
        before.serves(next, event, page, options),
        event is Some,
    ensures
        of_layout(before.layout, options.width_px, options.height_px, options.epub_font_size),
{
    let key = crate::cache::key_of(page, options);
    let place = crate::cache::place_of(before.cache@, key);
    assert(crate::cache::is_at(before.cache@, key, place));
    assert(before.cache@[place].0 == key);
}

/// Only pages of the document are rendered ahead of time, and only such as are next to
/// the page that was shown and not kept yet, as long as that page is in the document.
pub proof fn only_missing_neighbors_are_rendered_ahead(
    pages: Seq<(KeyView, PageView)>,
    page: usize,
    options: RenderOptions,
    count: usize,
)
    requires
        page < count,
    ensures
        neighbors(pages, page, options, count) matches RenderPhase::Prerendering {
            page: neighbor,
            options: used,
            other,
        } ==> {
            &&& neighbor < count
            &&& neighbor == page + 1 || neighbor == page - 1
            &&& used == options
            &&& !crate::cache::has_key(pages, crate::cache::key_of(neighbor, options))
            &&& other matches Some(other) ==> other == page - 1 && neighbor == page + 1
        },
{
}

/// Rendering a page for one request answers no other: a request that asks for another
/// page, area, turn, colour, font size or marked text, and that no kept page was rendered
/// for, is not answered from the kept pages afterwards either.
pub proof fn rendered_pages_answer_their_own_request(
    pages: Seq<(KeyView, PageView)>,
    page: usize,
    options: RenderOptions,
    image: PageView,
    other_page: usize,
    other: RenderOptions,
)
    requires
        !crate::cache::has_key(pages, crate::cache::key_of(other_page, other)),
        page != other_page || options.width_px != other.width_px || options.height_px
            != other.height_px || options.rotation != other.rotation || options.inverted
            != other.inverted || options.tinted != other.tinted || options.black != other.black
            || options.white != other.white || options.epub_font_size != other.epub_font_size
            || options.search_term is Some != other.search_term is Some || (options.search_term
            is Some && options.search_term->0@ != other.search_term->0@),
    ensures
        !crate::cache::has_key(
            with_page(pages, page, options, image),
            crate::cache::key_of(other_page, other),
        ),
{
    let key = crate::cache::key_of(other_page, other);
    let after = with_page(pages, page, options, image);
    crate::cache::keys_agree_where_requests_do(page, options, other_page, other);
    pages_stay_or_come(pages, page, options, image);
    assert forall|i: int| !#[trigger] crate::cache::is_at(after, key, i) by {
        if crate::cache::is_at(after, key, i) {
            let held = after[i];
            assert(held.0 == crate::cache::key_of(page, options) || exists|j: int|
                0 <= j < pages.len() && #[trigger] pages[j] == held);
            if held.0 != crate::cache::key_of(page, options) {
                let j = choose|j: int| 0 <= j < pages.len() && #[trigger] pages[j] == held;
                assert(crate::cache::is_at(pages, key, j));
            }
        }
    }
}

/// A page that was rendered is answered with when the same is asked for again, in a later
/// generation too, unless it has more than 268,435,456 bytes.
pub proof fn the_same_request_is_answered_again(
    pages: Seq<(KeyView, PageView)>,
    page: usize,
    options: RenderOptions,
    image: PageView,
    again: RenderOptions,
)
    requires
        crate::cache::keys_differ(pages),
        image.pixels.len() <= 268_435_456,
        again == (RenderOptions { generation: again.generation, ..options }),
    ensures
        ({
            let after = with_page(pages, page, options, image);
            let key = crate::cache::key_of(page, again);
            &&& crate::cache::has_key(after, key)
            &&& after[crate::cache::place_of(after, key)].1 == image
        }),
{
    rendered_page_is_found_again(pages, page, options, image, again);
}

/// A page that is served is the one asked for, of the generation that asked; it is
/// rendered exactly if it is not among the kept ones, with the very options of the
/// request; and serving it changes neither the document's kind nor its layout.
pub proof fn the_page_asked_for_is_served(
    before: RenderLoop,
    next: RenderLoop,
    event: Option<RenderEvent>,
    page: usize,
    options: RenderOptions,
)
    requires
        before.serves(next, event, page, options),
    ensures
        next.kind == before.kind,
        next.layout == before.layout,
        event is Some <==> crate::cache::has_key(
            before.cache@,
            crate::cache::key_of(page, options),
        ),
        event is None ==> next.phase == (RenderPhase::Rendering { page, options }) && next.cache@
            == before.cache@,
        event matches Some(event) ==> {
            let place = crate::cache::place_of(
                before.cache@,
                crate::cache::key_of(page, options),
            );
            &&& event matches RenderEvent::Page { page: shown, generation, image } && shown == page
                && generation == options.generation && image@ == before.cache@[place].1
            &&& next.phase == (RenderPhase::Sending {
                answer: true,
                prerender: Some((page, options)),
            })
            &&& next.cache@.last() == before.cache@[place]
            &&& next.cache@.drop_last() == before.cache@.take(place) + before.cache@.skip(place + 1)
            &&& next.cache@.len() == before.cache@.len()
        },
{
    let key = crate::cache::key_of(page, options);
    if crate::cache::has_key(before.cache@, key) {
        assert(crate::cache::is_at(before.cache@, key, crate::cache::place_of(before.cache@, key)));
    }
}

/// An answer with a page holds the page asked for, the generation that asked, and the
/// image; an error holds its words.
pub proof fn events_tell_what_they_are_about(
    event: RenderEvent,
    page: usize,
    options: RenderOptions,
    image: PageView,
    words: Seq<char>,
)
    ensures
        shows_page(Some(event), page, options, image) <==> (event matches RenderEvent::Page {
            page: shown,
            generation,
            image: sent,
        } && shown == page && generation == options.generation && sent@ == image),
        tells_error(Some(event), words) <==> (event matches RenderEvent::Error(text) && text@
            == words),
{
}

/// A step that only turns to another phase leaves the document's kind, its layout and the
/// kept pages as they are.
pub proof fn turning_keeps_the_rest(before: RenderLoop, next: RenderLoop, phase: RenderPhase)
    requires
        before.turns_to(next, phase),
    ensures
        next.kind == before.kind,
        next.layout == before.layout,
        next.cache@ == before.cache@,
        next.phase == phase,
{
}

/// A document is laid out for a request exactly if area and font size are those of its
/// layout. Encodings of numbers other than zero are compared as they are; both zeros are
/// the same; and what is no number is the same as nothing.
pub proof fn layouts_are_compared_as_numbers(
    layout: (u32, u32, u32),
    options: RenderOptions,
)
    ensures
        !is_laid_out(None, options),
        is_laid_out(Some(layout), options) <==> {
            &&& layout.0 % 0x8000_0000 <= 0x7f80_0000 && options.width_px % 0x8000_0000
                <= 0x7f80_0000
            &&& layout.1 % 0x8000_0000 <= 0x7f80_0000 && options.height_px % 0x8000_0000
                <= 0x7f80_0000
            &&& layout.2 % 0x8000_0000 <= 0x7f80_0000 && options.epub_font_size % 0x8000_0000
                <= 0x7f80_0000
            &&& layout.0 == options.width_px || (layout.0 % 0x8000_0000 == 0 && options.width_px
                % 0x8000_0000 == 0)
            &&& layout.1 == options.height_px || (layout.1 % 0x8000_0000 == 0 && options.height_px
                % 0x8000_0000 == 0)
            &&& layout.2 == options.epub_font_size || (layout.2 % 0x8000_0000 == 0
                && options.epub_font_size % 0x8000_0000 == 0)
        },
{
}

/// The page after the one shown is rendered ahead of time first, if the document has it
/// and it is not kept; otherwise the one before, on the same terms; otherwise nothing.
/// After the first of the two comes the second.
pub proof fn the_next_page_is_rendered_ahead_first(
    pages: Seq<(KeyView, PageView)>,
    page: usize,
    options: RenderOptions,
    count: usize,
)
    ensures
        ({
            let phase = neighbors(pages, page, options, count);
            let ahead = page + 1 < count && !crate::cache::has_key(
                pages,
                crate::cache::key_of((page + 1) as usize, options),
            );
            let behind = page > 0 && !crate::cache::has_key(
                pages,
                crate::cache::key_of((page - 1) as usize, options),
            );
            &&& ahead ==> phase == (RenderPhase::Prerendering {
                page: (page + 1) as usize,
                options,
                other: if page > 0 {
                    Some((page - 1) as usize)
                } else {
                    None
                },
            })
            &&& !ahead && behind ==> phase == (RenderPhase::Prerendering {
                page: (page - 1) as usize,
                options,
                other: None,
            })
            &&& !ahead && !behind ==> phase == RenderPhase::Waiting
        }),
{
}

/// Once one page was rendered ahead of time the other one is, if there is one and it is
/// not kept, and then no more.
pub proof fn the_other_page_comes_second(
    pages: Seq<(KeyView, PageView)>,
    options: RenderOptions,
    other: usize,
)
    ensures
        then_other(pages, options, None) == RenderPhase::Waiting,
        then_other(pages, options, Some(other)) == if crate::cache::has_key(
            pages,
            crate::cache::key_of(other, options),
        ) {
            RenderPhase::Waiting
        } else {
            RenderPhase::Prerendering { page: other, options, other: None }
        },
{
}

/// A kept page is of the layout whose three numbers it was rendered with, the two zeros
/// being one number, and of no other; without a layout it is of none.
pub proof fn pages_are_of_one_layout(
    layout: (u32, u32, u32),
    width: u32,
    height: u32,
    epub_font_size: u32,
)
    ensures
        !of_layout(None, width, height, epub_font_size),
        of_layout(Some(layout), width, height, epub_font_size) <==> {
            &&& layout.0 == width || (layout.0 % 0x8000_0000 == 0 && width % 0x8000_0000 == 0)
            &&& layout.1 == height || (layout.1 % 0x8000_0000 == 0 && height % 0x8000_0000 == 0)
            &&& layout.2 == epub_font_size || (layout.2 % 0x8000_0000 == 0 && epub_font_size
                % 0x8000_0000 == 0)
        },
{
}

/// A rendered page comes last among the kept pages, in place of what was kept for the same
/// request, and behind the others in their order. Where that is too much, pages go from the
/// front.
pub proof fn rendered_pages_come_last(
    pages: Seq<(KeyView, PageView)>,
    page: usize,
    options: RenderOptions,
    image: PageView,
    index: int,
)
    requires
        crate::cache::keys_differ(pages),
        0 <= index < pages.len(),
        pages[index].0 == crate::cache::key_of(page, options),
    ensures
        with_page(pages, page, options, image) == crate::cache::kept(
            (pages.take(index) + pages.skip(index + 1)).push((pages[index].0, image)),
        ),
{
    crate::cache::other_pages_stay_beside_a_new_one(pages, pages[index].0);
}

/// A page that was not kept comes behind all that were.
pub proof fn new_pages_come_last(
    pages: Seq<(KeyView, PageView)>,
    page: usize,
    options: RenderOptions,
    image: PageView,
)
    requires
        forall|i: int|
            0 <= i < pages.len() ==> (#[trigger] pages[i]).0 != crate::cache::key_of(page, options),
    ensures
        with_page(pages, page, options, image) == crate::cache::kept(
            pages.push((crate::cache::key_of(page, options), image)),
        ),
{
    let key = crate::cache::key_of(page, options);
    assert(!crate::cache::has_key(pages, key)) by {
        assert forall|i: int| !#[trigger] crate::cache::is_at(pages, key, i) by {}
    }
}

} // verus!
