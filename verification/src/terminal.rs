//! What the reader writes on the terminal: the status line and the lists that cover the
//! page area, as drawing steps.
use vstd::prelude::*;
use vstd::string::StringExecFns;

use crate::geometry::WindowSize;
use crate::renderer::{LinkInfo, TocEntry};
use crate::text::{push_decimal, push_repeated, take_chars};

verus! {

/// One step of drawing on the terminal.
#[derive(Debug)]
pub enum DrawStep {
    /// Blanks a row.
    ClearRow(u16),
    /// Writes a text from a cell on.
    Print { column: u16, row: u16, text: String },
}

/// What a drawing step does.
pub enum Drawn {
    ClearRow(int),
    Print { column: int, row: int, text: Seq<char> },
}

impl View for DrawStep {
    type V = Drawn;

    open spec fn view(&self) -> Drawn {
        match self {
            DrawStep::ClearRow(row) => Drawn::ClearRow(*row as int),
            DrawStep::Print { column, row, text } => Drawn::Print {
                column: *column as int,
                row: *row as int,
                text: text@,
            },
        }
    }
}

/// What drawing steps do, one after the other.
pub open spec fn drawing(steps: Seq<DrawStep>) -> Seq<Drawn> {
    steps.map_values(|step: DrawStep| step@)
}

/// Blanking every row of the page area.
pub open spec fn cleared(size: WindowSize) -> Seq<Drawn> {
    Seq::new(size.spec_page_rows() as nat, |row: int| Drawn::ClearRow(row))
}

/// Writing as much of a text as fits in a row.
pub open spec fn line_at(size: WindowSize, row: int, text: Seq<char>) -> Drawn {
    Drawn::Print { column: 0, row, text: crate::text::first_chars(text, size.cols as nat) }
}

/// A text at the left of the status row, which keeps its last cell blank: cut to fit,
/// and filled up with blanks.
pub open spec fn status_line(size: WindowSize, text: Seq<char>) -> Seq<char> {
    let shown = crate::text::first_chars(
        text,
        crate::geometry::larger(size.cols - 1, 0) as nat,
    );
    shown + crate::text::repeated(' ', (size.cols - shown.len()) as nat)
}

proof fn drawing_push(steps: Seq<DrawStep>, step: DrawStep)
    ensures
        drawing(steps.push(step)) == drawing(steps).push(step@),
{
    assert(drawing(steps.push(step)) =~= drawing(steps).push(step@));
}

/// Blanks every row of the page area.
pub fn clear_page_area(size: WindowSize) -> (steps: Vec<DrawStep>)
    ensures
        drawing(steps@) == cleared(size),
{
    let rows: u16 = size.page_rows();
    let mut steps: Vec<DrawStep> = Vec::new();
    let mut row: u16 = 0;
    while row < rows
        invariant
            row <= rows,
            drawing(steps@) == Seq::new(row as nat, |row: int| Drawn::ClearRow(row)),
        decreases rows - row,
    {
        proof {
            drawing_push(steps@, DrawStep::ClearRow(row));
        }
        steps.push(DrawStep::ClearRow(row));
        row = row + 1;
        proof {
            assert(drawing(steps@) =~= Seq::new(row as nat, |row: int| Drawn::ClearRow(row)));
        }
    }
    steps
}

/// Writes the status line on the pane's last row.
pub fn draw_status(size: WindowSize, text: &str) -> (steps: Vec<DrawStep>)
    ensures
        drawing(steps@) == seq![
            Drawn::Print {
                column: 0,
                row: crate::geometry::larger(size.rows - 1, 0),
                text: status_line(size, text@),
            },
        ],
        status_line(size, text@).len() == size.cols,
{
    let width: usize = size.cols as usize;
    let shown: usize = width.saturating_sub(1);
    let mut line: String = take_chars(text, shown);
    let len: usize = line.as_str().unicode_len();
    push_repeated(&mut line, ' ', width - len);
    let mut steps: Vec<DrawStep> = Vec::new();
    let step = DrawStep::Print { column: 0, row: size.rows.saturating_sub(1), text: line };
    proof {
        drawing_push(steps@, step);
        assert(drawing(steps@) =~= Seq::empty());
        assert(drawing(steps@).push(step@) =~= seq![step@]);
    }
    steps.push(step);
    steps
}

/// Covers the page area with a note that the page is being rendered.
pub fn draw_loading(size: WindowSize) -> (steps: Vec<DrawStep>)
    ensures
        drawing(steps@) == cleared(size).push(
            Drawn::Print {
                column: crate::geometry::larger(size.cols - 10, 0) / 2,
                row: size.spec_page_rows() / 2,
                text: "Loading..."@,
            },
        ),
        "Loading..."@.len() == 10,
{
    proof {
        reveal_strlit("Loading...");
    }
    let mut steps: Vec<DrawStep> = clear_page_area(size);
    let step = DrawStep::Print {
        column: size.cols.saturating_sub(10) / 2,
        row: size.page_rows() / 2,
        text: "Loading...".to_owned(),
    };
    proof {
        drawing_push(steps@, step);
    }
    steps.push(step);
    steps
}

/// Writes as much of a text as fits in a row.
fn draw_line(steps: &mut Vec<DrawStep>, size: WindowSize, row: u16, text: &str)
    ensures
        drawing(final(steps)@) == drawing(old(steps)@).push(line_at(size, row as int, text@)),
{
    let step = DrawStep::Print { column: 0, row, text: take_chars(text, size.cols as usize) };
    proof {
        drawing_push(steps@, step);
    }
    steps.push(step);
}

/// The first entry of the table of contents that is shown: late enough for the selected
/// one to be on the last row, and no later.
pub open spec fn toc_start(size: WindowSize, selected: int) -> int {
    crate::geometry::larger(selected - (size.spec_page_rows() - 1), 0)
}

/// How many entries of the table of contents are shown.
pub open spec fn toc_shown(size: WindowSize, len: int, selected: int) -> int {
    crate::geometry::smaller(
        size.spec_page_rows(),
        crate::geometry::larger(len - toc_start(size, selected), 0),
    )
}

/// An entry of the table of contents: a mark for the selected one or for those on the
/// current page, indented by its level, with its page counted from one.
pub open spec fn toc_line(entry: TocEntry, selected: bool, current_page: int) -> Seq<char> {
    (if selected {
        ">"@
    } else if entry.page == current_page {
        "*"@
    } else {
        " "@
    }) + crate::text::repeated(' ', (2 * entry.level) as nat) + entry.title@ + "  (p."@
        + crate::text::decimal((entry.page + 1) as nat) + ")"@
}

/// The first entry of the table of contents that is shown, and how many are.
pub fn toc_window(size: WindowSize, len: usize, selected: usize) -> (window: (usize, usize))
    ensures
        window.0 == toc_start(size, selected as int),
        window.1 == toc_shown(size, len as int, selected as int),
{
    let rows: usize = size.page_rows() as usize;
    let start: usize = selected.saturating_sub(rows.saturating_sub(1));
    (start, rows.min(len.saturating_sub(start)))
}

/// Covers the page area with the table of contents.
pub fn draw_toc(size: WindowSize, toc: &Vec<TocEntry>, selected: usize, current_page: usize) -> (
steps: Vec<DrawStep>)
    requires
        forall|i: int|
            #![trigger toc@[i]]
            toc_start(size, selected as int) <= i < toc_start(size, selected as int) + toc_shown(
                size,
                toc@.len() as int,
                selected as int,
            ) ==> toc@[i].page < usize::MAX && toc@[i].level <= usize::MAX / 2,
    ensures
        drawing(steps@) == cleared(size) + Seq::new(
            toc_shown(size, toc@.len() as int, selected as int) as nat,
            |row: int|
                {
                    let index = toc_start(size, selected as int) + row;
                    line_at(
                        size,
                        row,
                        toc_line(toc@[index], index == selected, current_page as int),
                    )
                },
        ),
{
    let ghost start_at = toc_start(size, selected as int);
    let ghost shown = toc_shown(size, toc@.len() as int, selected as int);
    let ghost line = |row: int|
        {
            let index = start_at + row;
            line_at(size, row, toc_line(toc@[index], index == selected, current_page as int))
        };
    let mut steps: Vec<DrawStep> = clear_page_area(size);
    let (start, rows): (usize, usize) = toc_window(size, toc.len(), selected);
    let mut row: usize = 0;
    proof {
        assert(drawing(steps@) =~= cleared(size) + Seq::new(0, line));
    }
    while row < rows
        invariant
            rows == shown,
            start == start_at == toc_start(size, selected as int),
            shown == toc_shown(size, toc@.len() as int, selected as int),
            row <= shown,
            line == (|row: int|
                {
                    let index = start_at + row;
                    line_at(
                        size,
                        row,
                        toc_line(toc@[index], index == selected, current_page as int),
                    )
                }),
            forall|i: int|
                #![trigger toc@[i]]
                start_at <= i < start_at + shown ==> toc@[i].page < usize::MAX && toc@[i].level
                    <= usize::MAX / 2,
            drawing(steps@) == cleared(size) + Seq::new(row as nat, line),
        decreases rows - row,
    {
        let index: usize = start + row;
        let entry: &TocEntry = &toc[index];
        let mut text = String::new();
        if index == selected {
            text.append(">");
        } else if entry.page == current_page {
            text.append("*");
        } else {
            text.append(" ");
        }
        push_repeated(&mut text, ' ', 2 * entry.level);
        text.append(entry.title.as_str());
        text.append("  (p.");
        push_decimal(&mut text, (entry.page + 1) as u64);
        text.append(")");
        proof {
            assert(text@ =~= toc_line(*entry, index == selected, current_page as int));
        }
        draw_line(&mut steps, size, row as u16, text.as_str());
        row = row + 1;
        proof {
            assert(drawing(steps@) =~= cleared(size) + Seq::new(row as nat, line));
        }
    }
    steps
}

/// A line of the metadata list.
pub open spec fn metadata_line(entry: (String, String)) -> Seq<char> {
    entry.0@ + ": "@ + entry.1@
}

/// How many metadata lines are shown: all rows but the title and the blank below it.
pub open spec fn metadata_shown(size: WindowSize, len: int) -> int {
    crate::geometry::smaller(len, crate::geometry::larger(size.spec_page_rows() - 2, 0))
}

/// Covers the page area with the document's metadata.
pub fn draw_metadata(size: WindowSize, metadata: &Vec<(String, String)>) -> (steps: Vec<DrawStep>)
    ensures
        drawing(steps@) == cleared(size).push(
            line_at(size, 0, "Document Metadata (Esc to close)"@),
        ) + Seq::new(
            metadata_shown(size, metadata@.len() as int) as nat,
            |row: int| line_at(size, row + 2, metadata_line(metadata@[row])),
        ),
{
    let ghost title = cleared(size).push(line_at(size, 0, "Document Metadata (Esc to close)"@));
    let ghost line = |row: int| line_at(size, row + 2, metadata_line(metadata@[row]));
    let mut steps: Vec<DrawStep> = clear_page_area(size);
    draw_line(&mut steps, size, 0, "Document Metadata (Esc to close)");
    let rows: usize = size.page_rows().saturating_sub(2) as usize;
    let mut row: usize = 0;
    proof {
        assert(drawing(steps@) =~= title + Seq::new(0, line));
    }
    while row < rows && row < metadata.len()
        invariant
            rows == crate::geometry::larger(size.spec_page_rows() - 2, 0),
            rows <= 65533,
            row <= metadata_shown(size, metadata@.len() as int),
            line == (|row: int| line_at(size, row + 2, metadata_line(metadata@[row]))),
            drawing(steps@) == title + Seq::new(row as nat, line),
        decreases rows - row,
    {
        let entry: &(String, String) = &metadata[row];
        let mut text = String::new();
        text.append(entry.0.as_str());
        text.append(": ");
        text.append(entry.1.as_str());
        proof {
            assert(text@ =~= metadata_line(*entry));
        }
        draw_line(&mut steps, size, row as u16 + 2, text.as_str());
        row = row + 1;
        proof {
            assert(drawing(steps@) =~= title + Seq::new(row as nat, line));
        }
    }
    steps
}

/// The title of the list of links; pages are counted from one.
pub open spec fn links_title(page: int) -> Seq<char> {
    "Links on page "@ + crate::text::decimal((page + 1) as nat) + " (Esc to close)"@
}

/// A line of the list of links, counted from one.
pub open spec fn link_line(index: int, link: LinkInfo) -> Seq<char> {
    crate::text::decimal((index + 1) as nat) + ": "@ + link.text@
}

/// How many links are shown: all rows but the title, the blank below it and the prompt.
pub open spec fn links_shown(size: WindowSize, len: int) -> int {
    crate::geometry::smaller(len, crate::geometry::larger(size.spec_page_rows() - 3, 0))
}

/// Covers the page area with the page's links and the number typed so far.
pub fn draw_links(size: WindowSize, links: &Vec<LinkInfo>, input: &str, page: usize) -> (steps: Vec<
    DrawStep,
>)
    requires
        page < usize::MAX,
    ensures
        drawing(steps@) == (cleared(size).push(line_at(size, 0, links_title(page as int)))
            + Seq::new(
            links_shown(size, links@.len() as int) as nat,
            |row: int| line_at(size, row + 2, link_line(row, links@[row])),
        )).push(
            line_at(
                size,
                size.spec_page_rows() - 1,
                "Enter number to follow: "@ + input@,
            ),
        ),
{
    let ghost title = cleared(size).push(line_at(size, 0, links_title(page as int)));
    let ghost line = |row: int| line_at(size, row + 2, link_line(row, links@[row]));
    let mut steps: Vec<DrawStep> = clear_page_area(size);
    let mut text = String::new();
    text.append("Links on page ");
    push_decimal(&mut text, (page + 1) as u64);
    text.append(" (Esc to close)");
    proof {
        assert(text@ =~= links_title(page as int));
    }
    draw_line(&mut steps, size, 0, text.as_str());
    let rows: usize = size.page_rows().saturating_sub(3) as usize;
    let mut row: usize = 0;
    proof {
        assert(drawing(steps@) =~= title + Seq::new(0, line));
    }
    while row < rows && row < links.len()
        invariant
            rows == crate::geometry::larger(size.spec_page_rows() - 3, 0),
            rows <= 65533,
            row <= links_shown(size, links@.len() as int),
            line == (|row: int| line_at(size, row + 2, link_line(row, links@[row]))),
            drawing(steps@) == title + Seq::new(row as nat, line),
        decreases rows - row,
    {
        let mut text = String::new();
        push_decimal(&mut text, (row + 1) as u64);
        text.append(": ");
        text.append(links[row].text.as_str());
        proof {
            assert(text@ =~= link_line(row as int, links@[row as int]));
        }
        draw_line(&mut steps, size, row as u16 + 2, text.as_str());
        row = row + 1;
        proof {
            assert(drawing(steps@) =~= title + Seq::new(row as nat, line));
        }
    }
    let mut prompt = String::new();
    prompt.append("Enter number to follow: ");
    prompt.append(input);
    proof {
        assert(prompt@ =~= "Enter number to follow: "@ + input@);
    }
    draw_line(&mut steps, size, size.page_rows().saturating_sub(1), prompt.as_str());
    steps
}

/// The lines of the help screen.
pub open spec fn help_lines() -> Seq<Seq<char>> {
    seq![
        "vvrd keys (Esc or ? to close)"@,
        "←/→, h/l   previous/next page (pan with h/l in zoom)"@,
        "↑/↓        scroll; j/k always turn pages"@,
        "PgUp/PgDn viewport/page; Space next page; g go to page"@,
        "z zoom mode; o/O zoom in/out; r rotate; i invert"@,
        "c auto-crop; d warm tint; </> EPUB font size"@,
        "/ search; n/N next/previous result; t table of contents"@,
        "M metadata; f links; e export PNG; R/F5 refresh; q quit"@,
    ]
}

/// Covers the page area with the list of keys, as far as it fits.
pub fn draw_help(size: WindowSize) -> (steps: Vec<DrawStep>)
    ensures
        drawing(steps@) == cleared(size) + Seq::new(
            crate::geometry::smaller(help_lines().len() as int, size.spec_page_rows()) as nat,
            |row: int| line_at(size, row, help_lines()[row]),
        ),
{
    let lines: Vec<&str> = vec![
        "vvrd keys (Esc or ? to close)",
        "←/→, h/l   previous/next page (pan with h/l in zoom)",
        "↑/↓        scroll; j/k always turn pages",
        "PgUp/PgDn viewport/page; Space next page; g go to page",
        "z zoom mode; o/O zoom in/out; r rotate; i invert",
        "c auto-crop; d warm tint; </> EPUB font size",
        "/ search; n/N next/previous result; t table of contents",
        "M metadata; f links; e export PNG; R/F5 refresh; q quit",
    ];
    let ghost line = |row: int| line_at(size, row, help_lines()[row]);
    let mut steps: Vec<DrawStep> = clear_page_area(size);
    let rows: usize = size.page_rows() as usize;
    let mut row: usize = 0;
    proof {
        assert(drawing(steps@) =~= cleared(size) + Seq::new(0, line));
        assert forall|i: int| 0 <= i < 8 implies (#[trigger] lines@[i])@ == help_lines()[i] by {}
    }
    while row < rows && row < lines.len()
        invariant
            rows == size.spec_page_rows(),
            rows <= 65535,
            lines@.len() == 8,
            help_lines().len() == 8,
            row <= crate::geometry::smaller(8, size.spec_page_rows()),
            line == (|row: int| line_at(size, row, help_lines()[row])),
            forall|i: int| 0 <= i < 8 ==> (#[trigger] lines@[i])@ == help_lines()[i],
            drawing(steps@) == cleared(size) + Seq::new(row as nat, line),
        decreases rows - row,
    {
        draw_line(&mut steps, size, row as u16, lines[row]);
        row = row + 1;
        proof {
            assert(drawing(steps@) =~= cleared(size) + Seq::new(row as nat, line));
        }
    }
    steps
}

/// The selected entry of the table of contents is always shown.
pub proof fn selected_entry_is_shown(size: WindowSize, len: int, selected: int)
    requires
        0 <= selected < len,
    ensures
        toc_start(size, selected) <= selected < toc_start(size, selected) + toc_shown(
            size,
            len,
            selected,
        ),
{
}

/// The lists never reach past the page area, and the prompt below the links is on a row
/// of its own.
pub proof fn lists_stay_in_the_page_area(size: WindowSize, len: int, selected: int)
    requires
        0 <= len,
        0 <= selected,
    ensures
        0 <= toc_shown(size, len, selected) <= size.spec_page_rows(),
        0 <= metadata_shown(size, len),
        metadata_shown(size, len) > 0 ==> metadata_shown(size, len) + 2 <= size.spec_page_rows(),
        0 <= links_shown(size, len),
        links_shown(size, len) > 0 ==> links_shown(size, len) + 2 <= size.spec_page_rows() - 1,
{
}

/// A drawing step says which row it blanks, or which text it writes where.
pub proof fn steps_say_what_is_drawn(row: u16, column: u16, text: String)
    ensures
        DrawStep::ClearRow(row)@ == Drawn::ClearRow(row as int),
        (DrawStep::Print { column, row, text })@ == (Drawn::Print {
            column: column as int,
            row: row as int,
            text: text@,
        }),
{
}

/// Steps are carried out in their order.
pub proof fn steps_are_drawn_in_order(steps: Seq<DrawStep>, index: int)
    requires
        0 <= index < steps.len(),
    ensures
        drawing(steps).len() == steps.len(),
        drawing(steps)[index] == steps[index]@,
{
}

/// Every row of a usable pane but the last is blanked, from the top down.
pub proof fn all_rows_but_the_last_are_blanked(size: WindowSize, row: int)
    requires
        size.rows >= 2,
        0 <= row < size.rows - 1,
    ensures
        cleared(size).len() == size.rows - 1,
        cleared(size)[row] == Drawn::ClearRow(row),
{
}

/// A line is written at the left of its row and cut where the pane ends.
pub proof fn lines_are_cut_at_the_edge(size: WindowSize, row: int, text: Seq<char>)
    ensures
        line_at(size, row, text) matches Drawn::Print { column, row: at, text: shown } && {
            &&& column == 0
            &&& at == row
            &&& shown.len() == if text.len() <= size.cols {
                text.len()
            } else {
                size.cols as nat
            }
            &&& forall|i: int| 0 <= i < shown.len() ==> #[trigger] shown[i] == text[i]
        },
{
}

/// The status line fills its row: as much of the text as leaves the last cell free, and
/// blanks behind it.
pub proof fn status_fills_its_row(size: WindowSize, text: Seq<char>, column: int)
    requires
        size.cols >= 1,
        0 <= column < size.cols,
    ensures
        status_line(size, text).len() == size.cols,
        column < text.len() && column < size.cols - 1 ==> status_line(size, text)[column]
            == text[column],
        column >= text.len() || column == size.cols - 1 ==> status_line(size, text)[column] == ' ',
{
}

/// The table of contents is shown from its start as long as the selected entry is among
/// the first that fit; from there on the selected one is the last that is shown. As many
/// entries are shown as fit or as there are.
pub proof fn contents_scroll_with_the_selection(size: WindowSize, len: int, selected: int)
    requires
        size.rows >= 2,
        0 <= selected < len,
    ensures
        selected < size.rows - 1 ==> toc_start(size, selected) == 0,
        selected >= size.rows - 1 ==> toc_start(size, selected) + (size.rows - 2) == selected,
        len - toc_start(size, selected) >= size.rows - 1 ==> toc_shown(size, len, selected)
            == size.rows - 1,
        len - toc_start(size, selected) < size.rows - 1 ==> toc_shown(size, len, selected) == len
            - toc_start(size, selected),
{
}

/// A line of the table of contents: a mark for the selected entry, another for those on
/// the current page, a blank for the rest; two blanks a level; the title; and the page
/// counted from one.
pub proof fn contents_name_title_and_page(
    entry: TocEntry,
    selected: bool,
    current_page: int,
    column: int,
)
    requires
        0 <= column < 2 * entry.level,
    ensures
        ({
            let line = toc_line(entry, selected, current_page);
            let rest = line.skip(1 + 2 * entry.level as int);
            &&& selected ==> line[0] == '>'
            &&& !selected && entry.page == current_page ==> line[0] == '*'
            &&& !selected && entry.page != current_page ==> line[0] == ' '
            &&& line[1 + column] == ' '
            &&& rest == entry.title@ + "  (p."@ + crate::text::decimal((entry.page + 1) as nat)
                + ")"@
        }),
{
    contents_begin_with_a_mark(entry, selected, current_page);
    let line = toc_line(entry, selected, current_page);
    reveal_strlit(">");
    reveal_strlit("*");
    reveal_strlit(" ");
    assert(line[1 + column] == ' ');
}

/// A line of the table of contents begins with its mark, and behind two blanks a level come
/// the title and the page counted from one.
pub proof fn contents_begin_with_a_mark(entry: TocEntry, selected: bool, current_page: int)
    ensures
        ({
            let line = toc_line(entry, selected, current_page);
            &&& line.len() >= 1 + 2 * entry.level
            &&& selected ==> line[0] == '>'
            &&& !selected && entry.page == current_page ==> line[0] == '*'
            &&& !selected && entry.page != current_page ==> line[0] == ' '
            &&& line.skip(1 + 2 * entry.level as int) == entry.title@ + "  (p."@
                + crate::text::decimal((entry.page + 1) as nat) + ")"@
        }),
{
    reveal_strlit(">");
    reveal_strlit("*");
    reveal_strlit(" ");
    let line = toc_line(entry, selected, current_page);
    assert(line.skip(1 + 2 * entry.level as int) =~= entry.title@ + "  (p."@
        + crate::text::decimal((entry.page + 1) as nat) + ")"@);
}

/// Metadata fills the rows below its title and a blank one; links leave the last row to the
/// prompt as well.
pub proof fn lists_fill_the_rows_below_their_title(size: WindowSize, len: int)
    requires
        size.rows >= 2,
        0 <= len,
    ensures
        metadata_shown(size, len) == if len + 3 <= size.rows {
            len
        } else if size.rows >= 3 {
            size.rows - 3
        } else {
            0
        },
        links_shown(size, len) == if len + 4 <= size.rows {
            len
        } else if size.rows >= 4 {
            size.rows - 4
        } else {
            0
        },
{
}

/// The lines of the lists: a label and its value; the page counted from one; and a link's
/// number counted from one with its text.
pub proof fn list_lines_say_what_they_list(
    pair: (String, String),
    page: usize,
    index: int,
    link: LinkInfo,
)
    requires
        0 <= index,
    ensures
        metadata_line(pair) == pair.0@ + ": "@ + pair.1@,
        links_title(page as int) == "Links on page "@ + crate::text::decimal((page + 1) as nat)
            + " (Esc to close)"@,
        link_line(index, link) == crate::text::decimal((index + 1) as nat) + ": "@ + link.text@,
{
}

/// The help names the keys, two or three kinds to a line.
pub proof fn help_names_the_keys()
    ensures
        help_lines().len() == 8,
        help_lines()[0] == "vvrd keys (Esc or ? to close)"@,
        help_lines()[1] == "←/→, h/l   previous/next page (pan with h/l in zoom)"@,
        help_lines()[2] == "↑/↓        scroll; j/k always turn pages"@,
        help_lines()[3] == "PgUp/PgDn viewport/page; Space next page; g go to page"@,
        help_lines()[4] == "z zoom mode; o/O zoom in/out; r rotate; i invert"@,
        help_lines()[5] == "c auto-crop; d warm tint; </> EPUB font size"@,
        help_lines()[6] == "/ search; n/N next/previous result; t table of contents"@,
        help_lines()[7] == "M metadata; f links; e export PNG; R/F5 refresh; q quit"@,
{
}

} // verus!
