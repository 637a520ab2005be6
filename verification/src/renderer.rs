//! Documents and their pages: what is asked of the renderer and what it answers.
use std::collections::VecDeque;
use std::path::PathBuf;

use vstd::prelude::*;
use vstd::string::StringExecFns;

use crate::app::DEFAULT_FONT_SIZE;
use crate::compositor::{crop_whitespace_image, PageImage};
use crate::error::RenderError;
use crate::geometry::WindowSize;
use crate::picture::RgbImage;
use crate::queue::{next_queued, QueuedCommand};
use crate::rounding::{rounded_to_bits, single_bits, single_encoding, SINGLE_BITS};

verus! {

/// Whether a document's pages are fixed or laid out for the pane.
#[derive(Debug, Clone, Copy, PartialEq, Eq, Structural)]
pub enum DocumentKind {
    Fixed,
    Reflowable,
}

/// A link on a page: what is listed for it, its address, and the page it leads to.
#[derive(Debug, Clone, PartialEq, Eq)]
pub struct LinkInfo {
    pub text: String,
    pub uri: String,
    pub page: Option<usize>,
}

/// An entry of the table of contents.
#[derive(Debug, Clone, PartialEq, Eq)]
pub struct TocEntry {
    pub title: String,
    pub page: usize,
    pub level: usize,
}

/// The colour that renders as black.
pub const MUPDF_BLACK: i32 = 0;

/// The colour that renders as white.
pub const MUPDF_WHITE: i32 = 0x00ff_ffff;

/// What stands for black while the page is tinted.
pub const TINT_BLACK: i32 = 0x0070_4214;

/// What stands for white while the page is tinted.
pub const TINT_WHITE: i32 = 0x00f5_e6c8;

/// How a page is rendered. The area and the font size are single-precision encodings.
#[derive(Debug)]
pub struct RenderOptions {
    pub width_px: u32,
    pub height_px: u32,
    pub rotation: u16,
    pub inverted: bool,
    pub tinted: bool,
    pub black: i32,
    pub white: i32,
    pub epub_font_size: u32,
    pub search_term: Option<String>,
    pub generation: u64,
}

impl Clone for RenderOptions {
    fn clone(&self) -> (copy: Self)
        ensures
            copy == *self,
    {
        RenderOptions {
            width_px: self.width_px,
            height_px: self.height_px,
            rotation: self.rotation,
            inverted: self.inverted,
            tinted: self.tinted,
            black: self.black,
            white: self.white,
            epub_font_size: self.epub_font_size,
            search_term: match &self.search_term {
                Some(term) => Some(term.clone()),
                None => None,
            },
            generation: self.generation,
        }
    }
}

/// The single-precision encoding of a number of pixels.
pub open spec fn single_px(pixels: int) -> nat {
    single_encoding(rounded_to_bits(pixels as nat, SINGLE_BITS as nat))
}

impl RenderOptions {
    /// A page that fills the page area: upright, in its own colours.
    pub fn for_viewport(viewport: WindowSize, generation: u64) -> (options: Self)
        ensures
            options.width_px == single_px(viewport.spec_area_width()),
            options.height_px == single_px(viewport.spec_area_height()),
            options == (RenderOptions {
                width_px: options.width_px,
                height_px: options.height_px,
                rotation: 0,
                inverted: false,
                tinted: false,
                black: MUPDF_BLACK,
                white: MUPDF_WHITE,
                epub_font_size: DEFAULT_FONT_SIZE,
                search_term: None,
                generation,
            }),
    {
        RenderOptions {
            width_px: single_bits(viewport.page_area_width_px()),
            height_px: single_bits(viewport.page_area_height_px()),
            rotation: 0,
            inverted: false,
            tinted: false,
            black: MUPDF_BLACK,
            white: MUPDF_WHITE,
            epub_font_size: DEFAULT_FONT_SIZE,
            search_term: None,
            generation,
        }
    }
}

/// `std::path::PathBuf`, a file's path: carried along, never looked into.
#[verifier::external_type_specification]
#[verifier::external_body]
pub struct ExPathBuf(PathBuf);

/// What the renderer is asked to do.
pub enum RenderCmd {
    Render { page: usize, options: RenderOptions },
    Search(String),
    ClearCache,
    GetLinks(usize),
    Export { page: usize, output: PathBuf, options: RenderOptions, auto_crop: bool },
    Shutdown,
}

/// What the renderer answers.
pub enum RenderEvent {
    Opened {
        kind: DocumentKind,
        n_pages: usize,
        toc: Vec<TocEntry>,
        metadata: Vec<(String, String)>,
    },
    Page { page: usize, generation: u64, image: PageImage },
    SearchComplete(Vec<usize>),
    Links(Vec<LinkInfo>),
    Exported(PathBuf),
    Notice(String),
    Error(String),
    Stopped,
}

/// A newer request to render stands for the ones right before it.
impl QueuedCommand for RenderCmd {
    open spec fn spec_replaceable(&self) -> bool {
        *self is Render
    }

    fn replaceable(&self) -> (replaceable: bool) {
        match self {
            RenderCmd::Render { .. } => true,
            _ => false,
        }
    }
}

/// Takes the renderer's next command: a deferred one, or else the first that came in.
/// Of requests to render that follow each other only the last is taken, and what stands
/// behind them is deferred.
pub fn next_render_command(
    commands: &mut VecDeque<RenderCmd>,
    deferred: &mut VecDeque<RenderCmd>,
) -> (command: Option<RenderCmd>)
    ensures
        match crate::queue::taken(old(deferred)@, old(commands)@) {
            Some(next) => {
                &&& command == Some(next.command)
                &&& final(deferred)@ == next.deferred
                &&& final(commands)@ == next.incoming
            },
            None => {
                &&& command is None
                &&& final(deferred)@ == old(deferred)@
                &&& final(commands)@ == old(commands)@
            },
        },
{
    next_queued(commands, deferred)
}

/// A page of a document, rendered for the pane.
pub struct RenderedDocument {
    pub page: PageImage,
    pub page_num: usize,
    pub n_pages: usize,
}

/// How many pages a document has, from the count that its library gives, if it gives
/// one: none where the count is missing or negative.
pub fn page_total(counted: Option<i32>) -> (total: usize)
    ensures
        total == match counted {
            Some(count) => crate::geometry::larger(count as int, 0),
            None => 0,
        },
{
    match counted {
        Some(count) if count > 0 => count as usize,
        _ => 0,
    }
}

/// How many pages an opened document has. One without pages is refused.
pub fn document_page_count(counted: Result<i32, RenderError>) -> (pages: Result<
    usize,
    RenderError,
>)
    ensures
        match counted {
            Err(error) => pages == Err::<usize, _>(error),
            Ok(count) => if count <= 0 {
                pages == Err::<usize, _>(RenderError::EmptyDocument)
            } else {
                pages == Ok::<_, RenderError>(count as usize)
            },
        },
{
    match counted {
        Err(error) => Err(error),
        Ok(count) => if count <= 0 {
            Err(RenderError::EmptyDocument)
        } else {
            Ok(count as usize)
        },
    }
}

/// Whether a document is laid out for the pane, as far as its library can tell.
pub fn document_kind(reflowable: Option<bool>) -> (kind: DocumentKind)
    ensures
        kind == if reflowable == Some(true) {
            DocumentKind::Reflowable
        } else {
            DocumentKind::Fixed
        },
{
    match reflowable {
        Some(true) => DocumentKind::Reflowable,
        _ => DocumentKind::Fixed,
    }
}

/// Which of `count` pages is rendered for the requested one: the last, if the request
/// goes beyond it.
pub fn page_to_render(requested: usize, count: usize) -> (page: Result<usize, RenderError>)
    ensures
        page == if count == 0 {
            Err::<usize, _>(RenderError::EmptyDocument)
        } else {
            Ok::<_, RenderError>(crate::geometry::smaller(requested as int, count - 1) as usize)
        },
{
    if count == 0 {
        Err(RenderError::EmptyDocument)
    } else {
        Ok(requested.min(count - 1))
    }
}

/// What is handed out for a requested page of a document with `n_pages` pages, once the
/// page to render for it came out as `rendered`.
pub fn render_page(
    requested_page: usize,
    n_pages: usize,
    rendered: Result<PageImage, RenderError>,
) -> (document: Result<RenderedDocument, RenderError>)
    ensures
        document == if n_pages == 0 {
            Err::<RenderedDocument, _>(RenderError::EmptyDocument)
        } else {
            match rendered {
                Err(error) => Err::<RenderedDocument, _>(error),
                Ok(page) => Ok::<_, RenderError>(
                    (RenderedDocument {
                        page,
                        page_num: crate::geometry::smaller(
                            requested_page as int,
                            n_pages - 1,
                        ) as usize,
                        n_pages,
                    }),
                ),
            }
        },
{
    match page_to_render(requested_page, n_pages) {
        Err(error) => Err(error),
        Ok(page_num) => match rendered {
            Err(error) => Err(error),
            Ok(page) => Ok(RenderedDocument { page, page_num, n_pages }),
        },
    }
}

/// Whether a page turned by so many degrees lies on its side.
pub fn lies_on_its_side(rotation: u16) -> (sideways: bool)
    ensures
        sideways == (rotation % 180 != 0),
{
    rotation % 180 != 0
}

/// By how many degrees a page is turned, without full turns.
pub fn turned_by(rotation: u16) -> (degrees: u16)
    ensures
        degrees == rotation % 360,
{
    rotation % 360
}

/// The colours that stand for black and white in the given order: exchanged where the
/// page is inverted, nothing where the page keeps its colours.
pub open spec fn tint(options: RenderOptions) -> Option<(i32, i32)> {
    let black = if options.tinted {
        TINT_BLACK
    } else {
        options.black
    };
    let white = if options.tinted {
        TINT_WHITE
    } else {
        options.white
    };
    if options.inverted {
        Some((white, black))
    } else if black == MUPDF_BLACK && white == MUPDF_WHITE {
        None
    } else {
        Some((black, white))
    }
}

/// The colours to tint a page with, if it is to be tinted.
pub fn tint_colors(options: &RenderOptions) -> (colors: Option<(i32, i32)>)
    ensures
        colors == tint(*options),
{
    let black: i32 = if options.tinted {
        TINT_BLACK
    } else {
        options.black
    };
    let white: i32 = if options.tinted {
        TINT_WHITE
    } else {
        options.white
    };
    if options.inverted {
        Some((white, black))
    } else if black != MUPDF_BLACK || white != MUPDF_WHITE {
        Some((black, white))
    } else {
        None
    }
}

/// The words of a panic, from what it carried: a literal, a text, or anything else.
pub fn panic_message(literal: Option<&str>, text: Option<String>) -> (message: String)
    ensures
        message@ == match literal {
            Some(literal) => literal@,
            None => match text {
                Some(text) => text@,
                None => "unknown panic"@,
            },
        },
{
    match literal {
        Some(literal) => literal.to_owned(),
        None => match text {
            Some(text) => text,
            None => "unknown panic".to_owned(),
        },
    }
}

/// What rendering a page came to: its result, or the message of the panic that ended it.
pub fn render_with_isolation(
    page: usize,
    outcome: Result<Result<PageImage, RenderError>, String>,
) -> (result: Result<PageImage, RenderError>)
    ensures
        result == match outcome {
            Ok(result) => result,
            Err(message) => Err::<PageImage, _>(RenderError::Panicked { page, message }),
        },
{
    match outcome {
        Ok(result) => result,
        Err(message) => Err(RenderError::Panicked { page, message }),
    }
}

/// The picture that is exported for a rendered page, without its blank margins if
/// `auto_crop` says so.
pub fn export_picture(page: PageImage, auto_crop: bool) -> (picture: Result<
    RgbImage,
    RenderError,
>)
    ensures
        match picture {
            Ok(picture) => {
                &&& page@.fault() is None
                &&& picture.wf()
                &&& picture@ == if auto_crop {
                    page@.picture().cropped()
                } else {
                    page@.picture()
                }
            },
            Err(error) => {
                &&& page@.fault() is Some
                &&& error matches RenderError::Converting(cause) && cause@
                    == page@.fault().unwrap().words()
            },
        },
{
    match page.into_rgb() {
        Err(error) => Err(RenderError::Converting(error.message())),
        Ok(picture) => Ok(
            if auto_crop {
                crop_whitespace_image(picture)
            } else {
                picture
            },
        ),
    }
}

/// The error for a page that could not be written to a file.
pub fn unwritable(file: &str, cause: &str) -> (error: RenderError)
    ensures
        error matches RenderError::Converting(text) && text@ == "cannot write "@ + file@ + ": "@
            + cause@,
{
    let mut text = String::new();
    text.append("cannot write ");
    text.append(file);
    text.append(": ");
    text.append(cause);
    proof {
        assert(text@ =~= "cannot write "@ + file@ + ": "@ + cause@);
    }
    RenderError::Converting(text)
}

/// A page in its own colours is not tinted. A tinted one has brown for black and cream for
/// white, whatever its own colours are, and another one has its own; an inverted page has
/// the two exchanged.
pub proof fn colours_follow_the_options(options: RenderOptions)
    ensures
        options.tinted && !options.inverted ==> tint(options) == Some(
            (0x70_4214i32, 0xf5_e6c8i32),
        ),
        options.tinted && options.inverted ==> tint(options) == Some((0xf5_e6c8i32, 0x70_4214i32)),
        !options.tinted && options.inverted ==> tint(options) == Some(
            (options.white, options.black),
        ),
        !options.tinted && !options.inverted && (options.black != 0 || options.white != 0xff_ffff)
            ==> tint(options) == Some((options.black, options.white)),
        !options.tinted && !options.inverted && options.black == 0 && options.white == 0xff_ffff
            ==> tint(options) is None,
{
}

/// Inverting a page that is tinted in some way exchanges its two colours.
pub proof fn inverting_exchanges_the_colours(options: RenderOptions)
    requires
        !options.inverted,
    ensures
        ({
            let inverted = tint(RenderOptions { inverted: true, ..options });
            &&& inverted is Some
            &&& tint(options) matches Some((black, white)) ==> inverted == Some((white, black))
            &&& tint(options) is None ==> inverted == Some((0xff_ffffi32, 0i32))
        }),
{
}

/// Only requests to render stand for one another: searches, exports and all other commands
/// are each carried out.
pub proof fn only_renderings_are_replaced(command: RenderCmd)
    ensures
        command.spec_replaceable() <==> (command matches RenderCmd::Render { .. }),
{
}

/// A size of up to twenty-four bits reaches the renderer exactly: the power of two just
/// below it above the twenty-three bits that follow its leading one. A larger size is
/// rounded to twenty-four bits first.
pub proof fn sizes_are_encoded_bit_by_bit(pixels: u32)
    requires
        pixels >= 1,
    ensures
        single_px(0) == 0,
        pixels < 0x100_0000 ==> {
            let exponent = (single_px(pixels as int) / 0x80_0000 - 127) as nat;
            let parts = 0x80_0000 + single_px(pixels as int) % 0x80_0000;
            &&& vstd::arithmetic::power2::pow2(exponent) <= pixels < 2
                * vstd::arithmetic::power2::pow2(exponent)
            &&& parts * vstd::arithmetic::power2::pow2(exponent) <= pixels * 0x80_0000 < (parts + 1)
                * vstd::arithmetic::power2::pow2(exponent)
        },
        single_px(pixels as int) == single_encoding(rounded_to_bits(pixels as nat, 24)),
{
    vstd::arithmetic::power2::lemma2_to64();
    crate::rounding::numbers_are_rounded_to_their_bits(0, 24);
    crate::rounding::numbers_are_rounded_to_their_bits(pixels as nat, 24);
    crate::rounding::encodings_stand_for_their_number(pixels as nat);
}

} // verus!
