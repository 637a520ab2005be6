//! What is read out of a document: its outline, its metadata, its links, the pixels of
//! its pages, and where a text occurs in it.
use vstd::prelude::*;
use vstd::string::StringExecFns;

use crate::compositor::{HighlightRect, PageImage};
use crate::error::RenderError;
use crate::renderer::{page_total, DocumentKind, LinkInfo, RenderEvent, TocEntry};
use crate::text::{push_decimal, trim_text, Margin};

verus! {

/// An entry of a document's outline, with the entries below it. The page is missing
/// where the entry leads nowhere in the document.
#[derive(Debug)]
pub struct Outline {
    pub title: String,
    pub page: Option<u32>,
    pub down: Vec<Outline>,
}

/// How many levels deep an outline goes.
pub open spec fn depth(outlines: Seq<Outline>) -> nat
    decreases outlines,
{
    if outlines.len() == 0 {
        0
    } else {
        let rest = depth(outlines.drop_last());
        let last = 1 + depth(outlines.last().down@);
        if rest > last {
            rest
        } else {
            last
        }
    }
}

/// The entry of the table of contents for one entry of the outline.
pub open spec fn toc_entry(outline: Outline, level: int) -> TocEntry {
    TocEntry {
        title: outline.title,
        page: match outline.page {
            Some(page) => page as usize,
            None => 0,
        },
        level: level as usize,
    }
}

/// The table of contents of an outline: each entry before those below it, which stand
/// one level deeper.
pub open spec fn flattened(outlines: Seq<Outline>, level: int) -> Seq<TocEntry>
    decreases outlines,
{
    if outlines.len() == 0 {
        Seq::empty()
    } else {
        flattened(outlines.drop_last(), level) + seq![toc_entry(outlines.last(), level)]
            + flattened(outlines.last().down@, level + 1)
    }
}

/// Appends an outline to the table of contents.
pub fn flatten_outlines(outlines: &Vec<Outline>, level: usize, output: &mut Vec<TocEntry>)
    requires
        level + depth(outlines@) <= usize::MAX,
    ensures
        final(output)@ == old(output)@ + flattened(outlines@, level as int),
    decreases outlines,
{
    let mut index: usize = 0;
    let ghost before = output@;
    proof {
        assert(outlines@.take(0) =~= Seq::empty());
        assert(output@ =~= before + flattened(outlines@.take(0), level as int));
    }
    while index < outlines.len()
        invariant
            index <= outlines@.len(),
            level + depth(outlines@) <= usize::MAX,
            output@ == before + flattened(outlines@.take(index as int), level as int),
        decreases outlines@.len() - index,
    {
        let ghost done = outlines@.take(index as int);
        let ghost next = outlines@.take(index + 1);
        let ghost start = output@;
        let outline: &Outline = &outlines[index];
        proof {
            assert(next.drop_last() =~= done);
            assert(next.last() == *outline);
            deeper_than_each(outlines@, index as int);
        }
        output.push(
            TocEntry {
                title: outline.title.clone(),
                page: match outline.page {
                    Some(page) => page as usize,
                    None => 0,
                },
                level,
            },
        );
        flatten_outlines(&outline.down, level + 1, output);
        proof {
            assert(output@ =~= before + flattened(next, level as int));
        }
        index = index + 1;
    }
    proof {
        assert(outlines@.take(outlines@.len() as int) =~= outlines@);
    }
}

proof fn deeper_than_each(outlines: Seq<Outline>, index: int)
    requires
        0 <= index < outlines.len(),
    ensures
        depth(outlines) >= 1 + depth(outlines[index].down@),
    decreases outlines.len(),
{
    if index < outlines.len() - 1 {
        deeper_than_each(outlines.drop_last(), index);
    }
}

/// How many entries an outline has, on all its levels.
pub open spec fn entries(outlines: Seq<Outline>) -> nat
    decreases outlines,
{
    if outlines.len() == 0 {
        0
    } else {
        entries(outlines.drop_last()) + 1 + entries(outlines.last().down@)
    }
}

/// Every entry of an outline is listed once in the table of contents, which starts on
/// the outline's own level, never goes above it, and goes at most one level deeper from
/// one entry to the next.
pub proof fn contents_list_the_outline(outlines: Seq<Outline>, level: int)
    requires
        0 <= level,
        level + depth(outlines) <= usize::MAX,
    ensures
        flattened(outlines, level).len() == entries(outlines),
        outlines.len() > 0 ==> flattened(outlines, level).first().level == level,
        forall|i: int|
            0 <= i < flattened(outlines, level).len() ==> level <= (#[trigger] flattened(
                outlines,
                level,
            )[i]).level < level + depth(outlines),
        forall|i: int, j: int|
            0 <= i && j == i + 1 && j < flattened(outlines, level).len() ==> (
            #[trigger] flattened(outlines, level)[j]).level <= (#[trigger] flattened(
                outlines,
                level,
            )[i]).level + 1,
    decreases outlines,
{
    if outlines.len() > 0 {
        let before = outlines.drop_last();
        let down = outlines.last().down@;
        contents_list_the_outline(before, level);
        contents_list_the_outline(down, level + 1);
        let all = flattened(outlines, level);
        let head = flattened(before, level);
        let tail = flattened(down, level + 1);
        if before.len() == 0 {
            assert(head =~= Seq::empty());
        } else {
            assert(entries(before) >= 1);
            assert(all[0] == head[0]);
        }
        assert forall|i: int| 0 <= i < all.len() implies level <= (#[trigger] all[i]).level < level
            + depth(outlines) by {
            if i < head.len() {
                assert(all[i] == head[i]);
            } else if i > head.len() {
                assert(all[i] == tail[i - head.len() - 1]);
            }
        }
        assert forall|i: int, j: int| 0 <= i && j == i + 1 && j < all.len() implies (
        #[trigger] all[j]).level <= (#[trigger] all[i]).level + 1 by {
            if j < head.len() {
                assert(all[i] == head[i]);
                assert(all[j] == head[j]);
            } else if i > head.len() {
                assert(all[i] == tail[i - head.len() - 1]);
                assert(all[j] == tail[j - head.len() - 1]);
            } else if i == head.len() {
                assert(all[j] == tail[0]);
                assert(down.len() > 0);
            }
        }
    }
}

/// What a document may say about itself.
#[derive(Debug, Clone, Copy, PartialEq, Eq, Structural)]
pub enum MetadataName {
    Format,
    Encryption,
    Title,
    Author,
    Subject,
    Keywords,
    Creator,
    Producer,
    CreationDate,
    ModDate,
}

impl MetadataName {
    /// What is shown in front of the value.
    pub open spec fn label(self) -> Seq<char> {
        match self {
            MetadataName::Format => "Format"@,
            MetadataName::Encryption => "Encryption"@,
            MetadataName::Title => "Title"@,
            MetadataName::Author => "Author"@,
            MetadataName::Subject => "Subject"@,
            MetadataName::Keywords => "Keywords"@,
            MetadataName::Creator => "Creator"@,
            MetadataName::Producer => "Producer"@,
            MetadataName::CreationDate => "Creation Date"@,
            MetadataName::ModDate => "Modification Date"@,
        }
    }

    /// What is shown in front of the value.
    pub fn label_text(&self) -> (text: String)
        ensures
            text@ == self.label(),
    {
        match self {
            MetadataName::Format => "Format".to_owned(),
            MetadataName::Encryption => "Encryption".to_owned(),
            MetadataName::Title => "Title".to_owned(),
            MetadataName::Author => "Author".to_owned(),
            MetadataName::Subject => "Subject".to_owned(),
            MetadataName::Keywords => "Keywords".to_owned(),
            MetadataName::Creator => "Creator".to_owned(),
            MetadataName::Producer => "Producer".to_owned(),
            MetadataName::CreationDate => "Creation Date".to_owned(),
            MetadataName::ModDate => "Modification Date".to_owned(),
        }
    }

    /// The names that are looked up in a document, in the order in which they are shown.
    pub fn all() -> (names: Vec<MetadataName>)
        ensures
            names@ == seq![
                MetadataName::Format,
                MetadataName::Encryption,
                MetadataName::Title,
                MetadataName::Author,
                MetadataName::Subject,
                MetadataName::Keywords,
                MetadataName::Creator,
                MetadataName::Producer,
                MetadataName::CreationDate,
                MetadataName::ModDate,
            ],
    {
        vec![
            MetadataName::Format,
            MetadataName::Encryption,
            MetadataName::Title,
            MetadataName::Author,
            MetadataName::Subject,
            MetadataName::Keywords,
            MetadataName::Creator,
            MetadataName::Producer,
            MetadataName::CreationDate,
            MetadataName::ModDate,
        ]
    }
}

/// The characters of shown labels and values.
pub open spec fn shown_pairs(pairs: Seq<(String, String)>) -> Seq<(Seq<char>, Seq<char>)> {
    pairs.map_values(|pair: (String, String)| (pair.0@, pair.1@))
}

/// What is shown of values that were looked up: those that are there and are more than
/// white space, without the white space around them.
pub open spec fn metadata_pairs(read: Seq<(MetadataName, Option<String>)>) -> Seq<
    (Seq<char>, Seq<char>),
>
    decreases read.len(),
{
    if read.len() == 0 {
        Seq::empty()
    } else {
        let before = metadata_pairs(read.drop_last());
        match read.last().1 {
            None => before,
            Some(value) => {
                let value = crate::text::trimmed(value@, Margin::Blank);
                if value.len() == 0 {
                    before
                } else {
                    before.push((read.last().0.label(), value))
                }
            },
        }
    }
}

/// The labels and values that are shown for what was looked up.
pub fn extract_metadata(read: &Vec<(MetadataName, Option<String>)>) -> (pairs: Vec<
    (String, String),
>)
    ensures
        shown_pairs(pairs@) == metadata_pairs(read@),
{
    let mut pairs: Vec<(String, String)> = Vec::new();
    let mut index: usize = 0;
    proof {
        assert(shown_pairs(pairs@) =~= metadata_pairs(read@.take(0)));
    }
    while index < read.len()
        invariant
            index <= read@.len(),
            shown_pairs(pairs@) == metadata_pairs(read@.take(index as int)),
        decreases read@.len() - index,
    {
        let ghost next = read@.take(index + 1);
        proof {
            assert(next.drop_last() =~= read@.take(index as int));
        }
        let ghost before = pairs@;
        let name: MetadataName = read[index].0;
        if let Some(value) = &read[index].1 {
            let value: String = trim_text(value.as_str(), Margin::Blank);
            if value.as_str().unicode_len() > 0 {
                pairs.push((name.label_text(), value));
                proof {
                    assert(shown_pairs(pairs@) =~= shown_pairs(before).push(
                        (name.label(), value@),
                    ));
                }
            }
        }
        index = index + 1;
    }
    proof {
        assert(read@.take(read@.len() as int) =~= read@);
    }
    pairs
}

/// What is listed for a link with the given address, to the given page if it leads to
/// one in the document.
pub open spec fn link_text(uri: Seq<char>, page: Option<u32>) -> Seq<char> {
    match page {
        Some(page) => "Page "@ + crate::text::decimal((page + 1) as nat),
        None => uri,
    }
}

/// What is listed for a link.
pub fn link_info(uri: String, page: Option<u32>) -> (link: LinkInfo)
    ensures
        link.text@ == link_text(uri@, page),
        link.uri@ == uri@,
        link.page == match page {
            Some(page) => Some(page as usize),
            None => None,
        },
{
    match page {
        Some(page) => {
            let mut text = String::new();
            text.append("Page ");
            push_decimal(&mut text, page as u64 + 1);
            proof {
                assert(text@ =~= link_text(uri@, Some(page)));
            }
            LinkInfo { text, uri, page: Some(page as usize) }
        },
        None => LinkInfo { text: uri.clone(), uri, page: None },
    }
}

/// The links of a page, each with its address and the page that it leads to; none where
/// they cannot be read.
pub fn extract_links(read: Option<Vec<(String, Option<u32>)>>) -> (links: Vec<LinkInfo>)
    ensures
        read is None ==> links@.len() == 0,
        read matches Some(read) ==> {
            &&& links@.len() == read@.len()
            &&& forall|i: int|
                0 <= i < read@.len() ==> {
                    &&& (#[trigger] links@[i]).text@ == link_text(read@[i].0@, read@[i].1)
                    &&& links@[i].uri@ == read@[i].0@
                    &&& links@[i].page == match read@[i].1 {
                        Some(page) => Some(page as usize),
                        None => None,
                    }
                }
        },
{
    let mut links: Vec<LinkInfo> = Vec::new();
    if let Some(read) = read {
        let mut index: usize = 0;
        while index < read.len()
            invariant
                index <= read@.len(),
                links@.len() == index,
                forall|i: int|
                    0 <= i < index ==> {
                        &&& (#[trigger] links@[i]).text@ == link_text(read@[i].0@, read@[i].1)
                        &&& links@[i].uri@ == read@[i].0@
                        &&& links@[i].page == match read@[i].1 {
                            Some(page) => Some(page as usize),
                            None => None,
                        }
                    },
            decreases read@.len() - index,
        {
            links.push(link_info(read[index].0.clone(), read[index].1));
            index = index + 1;
        }
    }
    links
}

/// Pixels of three bytes, from pixels of four bytes of which the last is left out.
pub open spec fn without_alpha(samples: Seq<u8>) -> Seq<u8> {
    Seq::new(3 * (samples.len() / 4), |i: int| samples[4 * (i / 3) + i % 3])
}

/// The page whose pixels are the given samples, `components` of them a pixel.
pub fn copy_pixmap_rgb(
    width: u32,
    height: u32,
    components: u8,
    samples: Vec<u8>,
    highlights: Vec<HighlightRect>,
) -> (page: Result<PageImage, RenderError>)
    requires
        3 * width <= usize::MAX,
    ensures
        match page {
            Ok(page) => {
                &&& components == 3 || components == 4
                &&& page.pixels@ == if components == 3 {
                    samples@
                } else {
                    without_alpha(samples@)
                }
                &&& page.width == width
                &&& page.height == height
                &&& page.row_stride == 3 * width
                &&& page.highlights == highlights
            },
            Err(error) => {
                &&& components != 3 && components != 4
                &&& error matches RenderError::Converting(cause) && cause@
                    == "unsupported MuPDF pixmap with "@ + crate::text::decimal(components as nat)
                    + " components"@
            },
        },
{
    let row_stride: usize = width as usize * 3;
    let pixels: Vec<u8> = match components {
        3 => samples,
        4 => {
            let mut rgb: Vec<u8> = Vec::new();
            let whole: usize = samples.len() / 4;
            let mut pixel: usize = 0;
            proof {
                assert(samples.len() == samples@.len());
            }
            while pixel < whole
                invariant
                    pixel <= whole,
                    whole == samples@.len() / 4,
                    samples@.len() <= usize::MAX,
                    rgb@ == Seq::new((3 * pixel) as nat, |i: int| samples@[4 * (i / 3) + i % 3]),
                decreases whole - pixel,
            {
                rgb.push(samples[4 * pixel]);
                rgb.push(samples[4 * pixel + 1]);
                rgb.push(samples[4 * pixel + 2]);
                pixel = pixel + 1;
                proof {
                    assert(rgb@ =~= Seq::new(
                        (3 * pixel) as nat,
                        |i: int| samples@[4 * (i / 3) + i % 3],
                    ));
                }
            }
            proof {
                assert(rgb@ =~= without_alpha(samples@));
            }
            rgb
        },
        other => {
            let mut text = String::new();
            text.append("unsupported MuPDF pixmap with ");
            push_decimal(&mut text, other as u64);
            text.append(" components");
            proof {
                assert(text@ =~= "unsupported MuPDF pixmap with "@ + crate::text::decimal(
                    components as nat,
                ) + " components"@);
            }
            return Err(RenderError::Converting(text));
        },
    };
    Ok(PageImage { pixels, width, height, row_stride, highlights })
}

/// Whether there is anything to look for on a page.
pub fn is_sought(term: Option<&str>) -> (sought: bool)
    ensures
        sought == (term matches Some(term) && term@.len() > 0),
{
    match term {
        Some(term) => term.unicode_len() > 0,
        None => false,
    }
}

/// A search through a document, page by page from the first.
#[derive(Debug)]
pub struct PageSearch {
    pub total: usize,
    pub counts: Vec<usize>,
}

impl PageSearch {
    /// No more pages have been searched than there are.
    pub open spec fn wf(self) -> bool {
        self.counts@.len() <= self.total
    }

    /// A search through so many pages.
    pub fn new(total: usize) -> (search: Self)
        ensures
            search.wf(),
            search.total == total,
            search.counts@ == Seq::<usize>::empty(),
    {
        PageSearch { total, counts: Vec::new() }
    }

    /// The page to search next, or nothing once all have been searched.
    pub fn next_page(&self) -> (page: Option<usize>)
        requires
            self.wf(),
        ensures
            page == if self.counts@.len() < self.total {
                Some(self.counts@.len() as usize)
            } else {
                None
            },
    {
        if self.counts.len() < self.total {
            Some(self.counts.len())
        } else {
            None
        }
    }

    /// Takes down how often the text occurs on the next page.
    pub fn found(&mut self, hits: usize)
        requires
            old(self).wf(),
            old(self).counts@.len() < old(self).total,
        ensures
            final(self).wf(),
            final(self).total == old(self).total,
            final(self).counts@ == old(self).counts@.push(hits),
    {
        self.counts.push(hits);
    }
}

/// Whether an event announces a document of which this was read.
pub open spec fn announces(
    event: RenderEvent,
    kind: DocumentKind,
    counted: Option<i32>,
    outlines: Option<Vec<Outline>>,
    metadata: Seq<(MetadataName, Option<String>)>,
) -> bool {
    event matches RenderEvent::Opened { kind: told, n_pages, toc, metadata: pairs } && {
        &&& told == kind
        &&& n_pages == match counted {
            Some(count) => crate::geometry::larger(count as int, 1),
            None => 1,
        }
        &&& toc@ == match outlines {
            Some(outlines) => flattened(outlines@, 0),
            None => Seq::empty(),
        }
        &&& shown_pairs(pairs@) == metadata_pairs(metadata)
    }
}

/// The event that announces an opened document: at least one page, and an empty table
/// of contents where the outline cannot be read.
pub fn opened_event(
    kind: DocumentKind,
    counted: Option<i32>,
    outlines: Option<Vec<Outline>>,
    metadata: &Vec<(MetadataName, Option<String>)>,
) -> (event: RenderEvent)
    requires
        outlines matches Some(outlines) ==> depth(outlines@) <= usize::MAX,
    ensures
        announces(event, kind, counted, outlines, metadata@),
{
    let total: usize = page_total(counted);
    let n_pages: usize = if total < 1 {
        1
    } else {
        total
    };
    let mut toc: Vec<TocEntry> = Vec::new();
    if let Some(outlines) = outlines {
        flatten_outlines(&outlines, 0, &mut toc);
        proof {
            assert(toc@ =~= flattened(outlines@, 0));
        }
    }
    RenderEvent::Opened { kind, n_pages, toc, metadata: extract_metadata(metadata) }
}

/// The table of contents of an outline ends with its last entry and what stands below
/// that: the entry has the same title, the very page that the outline leads to, the first
/// page where it leads nowhere, and the level; and the rest stands one level deeper.
pub proof fn contents_hold_the_titles_and_pages(outlines: Seq<Outline>, level: int)
    requires
        outlines.len() > 0,
        0 <= level <= usize::MAX,
    ensures
        ({
            let outline = outlines.last();
            let before = flattened(outlines.drop_last(), level);
            let all = flattened(outlines, level);
            &&& all.len() > before.len()
            &&& all.take(before.len() as int) == before
            &&& all[before.len() as int].title@ == outline.title@
            &&& outline.page matches Some(page) ==> all[before.len() as int].page == page as int
            &&& outline.page is None ==> all[before.len() as int].page == 0
            &&& all[before.len() as int].level == level
            &&& all.skip((before.len() + 1) as int) == flattened(outline.down@, level + 1)
        }),
        flattened(Seq::<Outline>::empty(), level).len() == 0,
{
    let before = flattened(outlines.drop_last(), level);
    let all = flattened(outlines, level);
    assert(all.take(before.len() as int) =~= before);
    assert(all.skip((before.len() + 1) as int) =~= flattened(outlines.last().down@, level + 1));
}

/// An outline without lower levels is listed entry by entry: each has its own title, page
/// and level.
pub proof fn flat_outlines_are_listed_one_to_one(outlines: Seq<Outline>, level: int)
    requires
        0 <= level <= usize::MAX,
        forall|i: int| 0 <= i < outlines.len() ==> (#[trigger] outlines[i]).down@.len() == 0,
    ensures
        flattened(outlines, level).len() == outlines.len(),
        forall|i: int|
            0 <= i < outlines.len() ==> {
                let entry = #[trigger] flattened(outlines, level)[i];
                &&& entry.title@ == outlines[i].title@
                &&& entry.level == level
                &&& outlines[i].page matches Some(page) ==> entry.page == page as int
                &&& outlines[i].page is None ==> entry.page == 0
            },
    decreases outlines.len(),
{
    if outlines.len() > 0 {
        let before = outlines.drop_last();
        assert forall|i: int| 0 <= i < before.len() implies (#[trigger] before[i]).down@.len()
            == 0 by {
            assert(before[i] == outlines[i]);
        }
        flat_outlines_are_listed_one_to_one(before, level);
        assert(outlines[outlines.len() - 1].down@.len() == 0);
        assert(flattened(outlines.last().down@, level + 1).len() == 0);
        assert forall|i: int| 0 <= i < outlines.len() implies {
            let entry = #[trigger] flattened(outlines, level)[i];
            &&& entry.title@ == outlines[i].title@
            &&& entry.level == level
            &&& outlines[i].page matches Some(page) ==> entry.page == page as int
            &&& outlines[i].page is None ==> entry.page == 0
        } by {
            if i < before.len() {
                assert(flattened(outlines, level)[i] == flattened(before, level)[i]);
                assert(before[i] == outlines[i]);
            }
        }
    }
}

/// A value that was looked up is shown behind its label if there is more to it than white
/// space, and without the white space around it. Nothing is shown for the others, and the
/// order stays.
pub proof fn metadata_shows_what_was_read(
    read: Seq<(MetadataName, Option<String>)>,
    name: MetadataName,
    value: String,
)
    ensures
        metadata_pairs(Seq::<(MetadataName, Option<String>)>::empty()).len() == 0,
        metadata_pairs(read.push((name, None))) == metadata_pairs(read),
        ({
            let kept = crate::text::trimmed(value@, Margin::Blank);
            metadata_pairs(read.push((name, Some(value)))) == if kept.len() == 0 {
                metadata_pairs(read)
            } else {
                metadata_pairs(read).push((name.label(), kept))
            }
        }),
{
    assert(read.push((name, None)).drop_last() =~= read);
    assert(read.push((name, Some(value))).drop_last() =~= read);
}

/// The characters of shown labels and values are those of the texts.
pub proof fn pairs_are_shown_as_they_are(pairs: Seq<(String, String)>, index: int)
    requires
        0 <= index < pairs.len(),
    ensures
        shown_pairs(pairs).len() == pairs.len(),
        shown_pairs(pairs)[index].0 == pairs[index].0@,
        shown_pairs(pairs)[index].1 == pairs[index].1@,
{
}

/// A link into the document names its page counted from one; another one its address.
pub proof fn links_name_where_they_lead(uri: Seq<char>, page: u32)
    ensures
        link_text(uri, None) == uri,
        link_text(uri, Some(page)) == "Page "@ + crate::text::decimal((page + 1) as nat),
        link_text(uri, Some(page)).take(5) == "Page "@,
        crate::text::number(link_text(uri, Some(page)).skip(5)) == page + 1,
{
    reveal_strlit("Page ");
    let text = link_text(uri, Some(page));
    crate::text::decimals_are_plain_digits((page + 1) as nat);
    assert(text.take(5) =~= "Page "@);
    assert(text.skip(5) =~= crate::text::decimal((page + 1) as nat));
}

/// Of each four bytes the first three are kept, in their order, and the fourth is not.
pub proof fn alpha_alone_is_left_out(samples: Seq<u8>, pixel: int, channel: int)
    requires
        0 <= pixel,
        4 * pixel + 4 <= samples.len(),
        0 <= channel < 3,
    ensures
        without_alpha(samples).len() == 3 * (samples.len() / 4),
        without_alpha(samples)[3 * pixel + channel] == samples[4 * pixel + channel],
{
    assert((3 * pixel + channel) / 3 == pixel && (3 * pixel + channel) % 3 == channel);
}

/// A document is announced with its kind, its pages, of which there is at least one, its
/// whole table of contents from the first level on, and its metadata.
pub proof fn documents_are_announced_whole(
    event: RenderEvent,
    kind: DocumentKind,
    counted: Option<i32>,
    outlines: Option<Vec<Outline>>,
    metadata: Seq<(MetadataName, Option<String>)>,
)
    requires
        announces(event, kind, counted, outlines, metadata),
    ensures
        event matches RenderEvent::Opened { kind: told, n_pages, toc, metadata: pairs } && {
            &&& told == kind
            &&& n_pages >= 1
            &&& counted is None ==> n_pages == 1
            &&& counted is Some && counted->0 >= 1 ==> n_pages == counted->0
            &&& counted is Some && counted->0 < 1 ==> n_pages == 1
            &&& outlines matches Some(outlines) ==> toc@ == flattened(outlines@, 0)
            &&& outlines is None ==> toc@.len() == 0
            &&& shown_pairs(pairs@) == metadata_pairs(metadata)
        },
{
}

/// Each piece of metadata is shown under its own name.
pub proof fn metadata_is_named()
    ensures
        MetadataName::Format.label() == "Format"@,
        MetadataName::Encryption.label() == "Encryption"@,
        MetadataName::Title.label() == "Title"@,
        MetadataName::Author.label() == "Author"@,
        MetadataName::Subject.label() == "Subject"@,
        MetadataName::Keywords.label() == "Keywords"@,
        MetadataName::Creator.label() == "Creator"@,
        MetadataName::Producer.label() == "Producer"@,
        MetadataName::CreationDate.label() == "Creation Date"@,
        MetadataName::ModDate.label() == "Modification Date"@,
{
}

} // verus!
