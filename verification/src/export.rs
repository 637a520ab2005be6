//! The names of files that pages are exported to.
use vstd::prelude::*;
use vstd::string::StringExecFns;

use crate::text::{decimal_len, padded_decimal_text, push_decimal, take_chars, trim_text, Margin};

verus! {

/// How many characters of a document's name go into the names of its exported pages.
pub const MAX_STEM_CHARS: usize = 48;

/// What stands for a character of a document's name: a hyphen, unless it is an ASCII
/// letter or digit, an underscore or a dot. Letters are put in lower case.
pub open spec fn slug_char(character: char) -> char {
    if 'A' <= character <= 'Z' {
        (character as u8 + 0x20) as char
    } else if 'a' <= character <= 'z' || '0' <= character <= '9' || character == '_' || character
        == '.' {
        character
    } else {
        '-'
    }
}

/// What stands for a text: hyphens that follow each other become one.
pub open spec fn slug(text: Seq<char>) -> Seq<char>
    decreases text.len(),
{
    if text.len() == 0 {
        Seq::empty()
    } else {
        let before = slug(text.drop_last());
        let character = slug_char(text.last());
        if character == '-' && before.len() > 0 && before.last() == '-' {
            before
        } else {
            before.push(character)
        }
    }
}

/// What the names of a document's exported pages begin with.
pub open spec fn stem(name: Option<Seq<char>>) -> Seq<char> {
    let raw = match name {
        Some(name) => name,
        None => "document"@,
    };
    let kept = crate::text::trimmed(
        slug(crate::text::first_chars(raw, MAX_STEM_CHARS as nat)),
        Margin::Joint,
    );
    if kept.len() == 0 {
        "document"@
    } else {
        kept
    }
}

fn slug_of(character: char) -> (slug: char)
    ensures
        slug == slug_char(character),
{
    if 'A' <= character && character <= 'Z' {
        (character as u8 + 0x20) as char
    } else if ('a' <= character && character <= 'z') || ('0' <= character && character <= '9')
        || character == '_' || character == '.' {
        character
    } else {
        '-'
    }
}

/// What the names of a document's exported pages begin with, from the name of its file
/// without the extension, if that can be read.
pub fn sanitized_stem(name: Option<&str>) -> (text: String)
    ensures
        text@ == stem(
            match name {
                Some(name) => Some(name@),
                None => None,
            },
        ),
{
    let raw: &str = match name {
        Some(name) => name,
        None => "document",
    };
    let raw: String = take_chars(raw, MAX_STEM_CHARS);
    let mut output = String::new();
    let mut dash: bool = false;
    for character in it: raw.as_str().chars()
        invariant
            it.seq() == raw@,
            output@ == slug(raw@.take(it.index())),
            dash == (output@.len() > 0 && output@.last() == '-'),
    {
        proof {
            let next = raw@.take(it.index() + 1);
            assert(next.drop_last() =~= raw@.take(it.index()));
            assert(next.last() == character);
        }
        let character: char = slug_of(character);
        if character == '-' {
            if !dash {
                output.push(character);
            }
            dash = true;
        } else {
            output.push(character);
            dash = false;
        }
    }
    proof {
        assert(raw@.take(raw@.len() as int) =~= raw@);
    }
    let kept: String = trim_text(output.as_str(), Margin::Joint);
    if kept.as_str().is_empty() {
        "document".to_owned()
    } else {
        kept
    }
}

/// A page's number as it stands in a file's name: counted from one, with as many digits
/// as the number of pages has.
pub open spec fn page_number(page: int, n_pages: int) -> Seq<char> {
    crate::text::padded_decimal(
        crate::geometry::smaller(page + 1, usize::MAX as int) as nat,
        crate::text::decimal(crate::geometry::larger(n_pages, 1) as nat).len(),
    )
}

/// What the names of the files for an exported page begin with.
pub open spec fn base_name(name: Option<Seq<char>>, page: int, n_pages: int) -> Seq<char> {
    stem(name) + "-page-"@ + page_number(page, n_pages)
}

/// The name to try for a page, the given attempt being counted from one.
pub open spec fn candidate(base: Seq<char>, attempt: int) -> Seq<char> {
    if attempt <= 1 {
        base + ".png"@
    } else {
        base + "-"@ + crate::text::decimal(attempt as nat) + ".png"@
    }
}

/// The names to try for an exported page, one after the other.
#[derive(Debug)]
pub struct ExportNames {
    pub base: String,
    pub attempt: u32,
}

impl ExportNames {
    /// The names for a page of a document, whose file has the given name without the
    /// extension.
    pub fn new(name: Option<&str>, page: usize, n_pages: usize) -> (names: Self)
        ensures
            names.base@ == base_name(
                match name {
                    Some(name) => Some(name@),
                    None => None,
                },
                page as int,
                n_pages as int,
            ),
            names.attempt == 1,
    {
        let mut base: String = sanitized_stem(name);
        let ghost start = base@;
        let pages: usize = if n_pages < 1 {
            1
        } else {
            n_pages
        };
        let width: usize = decimal_len(pages as u64);
        let number: String = padded_decimal_text(page.saturating_add(1) as u64, width);
        base.append("-page-");
        base.append(number.as_str());
        proof {
            assert(base@ =~= start + "-page-"@ + number@);
        }
        ExportNames { base, attempt: 1 }
    }

    /// The name to try now.
    pub fn file_name(&self) -> (name: String)
        ensures
            name@ == candidate(self.base@, self.attempt as int),
    {
        let mut name: String = self.base.clone();
        if self.attempt > 1 {
            name.append("-");
            push_decimal(&mut name, self.attempt as u64);
        }
        name.append(".png");
        proof {
            assert(name@ =~= candidate(self.base@, self.attempt as int));
        }
        name
    }

    /// The name is taken: the next one is tried.
    pub fn taken(&mut self)
        requires
            old(self).attempt < u32::MAX,
        ensures
            *final(self) == (ExportNames {
                attempt: (old(self).attempt + 1) as u32,
                ..*old(self)
            }),
    {
        self.attempt = self.attempt + 1;
    }
}

/// No name is tried twice.
pub proof fn candidates_differ(base: Seq<char>, a: int, b: int)
    requires
        1 <= a < b,
    ensures
        candidate(base, a) != candidate(base, b),
{
    reveal_strlit("-");
    reveal_strlit(".png");
    let png = ".png"@;
    let first = candidate(base, a);
    let second = candidate(base, b);
    if first == second {
        crate::text::decimal_is_not_empty(b as nat);
        if a == 1 {
            assert(first.len() == base.len() + 4);
            assert(second.len() > base.len() + 4);
        } else {
            let da = crate::text::decimal(a as nat);
            let db = crate::text::decimal(b as nat);
            assert(first.len() == base.len() + 1 + da.len() + 4);
            assert(second.len() == base.len() + 1 + db.len() + 4);
            assert forall|i: int| 0 <= i < da.len() implies da[i] == db[i] by {
                assert(first[base.len() + 1 + i] == da[i]);
                assert(second[base.len() + 1 + i] == db[i]);
            }
            assert(da =~= db);
            crate::text::decimal_is_injective(a as nat, b as nat);
        }
    }
}

/// The files for two pages of a document begin differently.
pub proof fn base_names_differ(name: Option<Seq<char>>, a: int, b: int, n_pages: int)
    requires
        0 <= a < b < usize::MAX,
    ensures
        base_name(name, a, n_pages) != base_name(name, b, n_pages),
{
    let head = stem(name) + "-page-"@;
    let na = page_number(a, n_pages);
    let nb = page_number(b, n_pages);
    if head + na == head + nb {
        assert((head + na).len() == head.len() + na.len());
        assert((head + nb).len() == head.len() + nb.len());
        assert forall|i: int| 0 <= i < na.len() implies na[i] == nb[i] by {
            assert((head + na)[head.len() + i] == na[i]);
            assert((head + nb)[head.len() + i] == nb[i]);
        }
        assert(na =~= nb);
        let width = crate::text::decimal(crate::geometry::larger(n_pages, 1) as nat).len();
        crate::text::padded_decimal_is_the_number((a + 1) as nat, width);
        crate::text::padded_decimal_is_the_number((b + 1) as nat, width);
    }
}

/// Whether a character may stand in the name of a file for an exported page.
pub open spec fn is_clean(character: char) -> bool {
    'a' <= character <= 'z' || '0' <= character <= '9' || character == '_' || character == '.'
        || character == '-'
}

/// What names begin with is never empty, holds no more characters than are taken from
/// the document's name or stand in the word used without one, all of them lower-case
/// letters, digits, hyphens, underscores and dots, has none of the last three at either
/// end, and no two hyphens that follow each other.
pub proof fn stem_is_clean(name: Option<Seq<char>>)
    ensures
        1 <= stem(name).len() <= MAX_STEM_CHARS,
        forall|i: int| 0 <= i < stem(name).len() ==> is_clean(#[trigger] stem(name)[i]),
        !Margin::Joint.spec_holds(stem(name).first()),
        !Margin::Joint.spec_holds(stem(name).last()),
        forall|i: int, j: int|
            0 <= i && j == i + 1 && j < stem(name).len() ==> !(#[trigger] stem(name)[i] == '-'
                && #[trigger] stem(name)[j] == '-'),
{
    reveal_strlit("document");
    let raw = match name {
        Some(name) => name,
        None => "document"@,
    };
    let text = crate::text::first_chars(raw, MAX_STEM_CHARS as nat);
    slug_is_clean(text);
    let all = slug(text);
    crate::text::only_margins_are_cut(all, Margin::Joint);
    let kept = crate::text::trimmed(all, Margin::Joint);
    let (start, end) = choose|start: int, end: int|
        {
            &&& 0 <= start <= end <= all.len()
            &&& kept == #[trigger] all.subrange(start, end)
            &&& forall|i: int|
                (0 <= i < start || end <= i < all.len()) ==> Margin::Joint.spec_holds(
                    #[trigger] all[i],
                )
        };
    assert forall|i: int| 0 <= i < kept.len() implies is_clean(#[trigger] kept[i]) by {
        assert(kept[i] == all[start + i]);
    }
    assert forall|i: int, j: int| 0 <= i && j == i + 1 && j < kept.len() implies !(
    #[trigger] kept[i] == '-' && #[trigger] kept[j] == '-') by {
        assert(kept[i] == all[start + i]);
        assert(kept[j] == all[start + j]);
    }
    let word = "document"@;
    assert(word.len() == 8);
    assert(word[0] == 'd' && word[1] == 'o' && word[2] == 'c' && word[3] == 'u' && word[4] == 'm'
        && word[5] == 'e' && word[6] == 'n' && word[7] == 't');
}

proof fn slug_is_clean(text: Seq<char>)
    ensures
        slug(text).len() <= text.len(),
        forall|i: int| 0 <= i < slug(text).len() ==> is_clean(#[trigger] slug(text)[i]),
        forall|i: int, j: int|
            0 <= i && j == i + 1 && j < slug(text).len() ==> !(#[trigger] slug(text)[i] == '-'
                && #[trigger] slug(text)[j] == '-'),
    decreases text.len(),
{
    if text.len() > 0 {
        slug_is_clean(text.drop_last());
    }
}

/// Letters go into file names in lower case; lower-case letters, digits, underscores and
/// dots as they are; and any other character as a hyphen.
pub proof fn characters_are_kept_or_made_hyphens(character: char)
    ensures
        'a' <= character <= 'z' || '0' <= character <= '9' || character == '_' || character == '.'
            ==> slug_char(character) == character,
        'A' <= character <= 'Z' ==> slug_char(character) as int == character as int + 32,
        !('a' <= character <= 'z') && !('A' <= character <= 'Z') && !('0' <= character <= '9')
            && character != '_' && character != '.' ==> slug_char(character) == '-',
{
}

/// A further character goes to the end of the name, unless it is one more hyphen behind a
/// hyphen.
pub proof fn names_grow_at_their_end(text: Seq<char>, character: char)
    ensures
        slug(Seq::<char>::empty()).len() == 0,
        slug_char(character) == '-' && slug(text).len() > 0 && slug(text).last() == '-' ==> slug(
            text.push(character),
        ) == slug(text),
        slug_char(character) != '-' || slug(text).len() == 0 || slug(text).last() != '-' ==> slug(
            text.push(character),
        ) == slug(text).push(slug_char(character)),
{
    assert(text.push(character).drop_last() =~= text);
}

/// A plain name of up to forty-eight lower-case letters and digits is used as it is.
pub proof fn plain_names_are_used_as_they_are(name: Seq<char>)
    requires
        1 <= name.len() <= 48,
        forall|i: int|
            0 <= i < name.len() ==> 'a' <= (#[trigger] name[i]) <= 'z' || '0' <= name[i] <= '9',
    ensures
        stem(Some(name)) == name,
{
    plain_slug(name);
    assert(crate::text::first_chars(name, 48) == name);
    assert(!Margin::Joint.spec_holds(name[0]));
    assert(!Margin::Joint.spec_holds(name[name.len() - 1]));
}

proof fn plain_slug(name: Seq<char>)
    requires
        forall|i: int|
            0 <= i < name.len() ==> 'a' <= (#[trigger] name[i]) <= 'z' || '0' <= name[i] <= '9',
    ensures
        slug(name) == name,
    decreases name.len(),
{
    if name.len() > 0 {
        let before = name.drop_last();
        assert forall|i: int| 0 <= i < before.len() implies 'a' <= (#[trigger] before[i]) <= 'z'
            || '0' <= before[i] <= '9' by {
            assert(before[i] == name[i]);
        }
        plain_slug(before);
        assert('a' <= name[name.len() - 1] <= 'z' || '0' <= name[name.len() - 1] <= '9');
        assert(slug(name) =~= name);
    }
}

/// Only the first forty-eight characters of a document's name count.
pub proof fn long_names_are_cut(name: Seq<char>)
    requires
        name.len() > 48,
    ensures
        stem(Some(name)) == stem(Some(name.take(48))),
{
    assert(crate::text::first_chars(name, 48) =~= crate::text::first_chars(name.take(48), 48));
}

/// A document without a name is called by the word for it, and so is one of whose name
/// nothing is left. What is left otherwise is the name in plain characters without the
/// joints around it.
pub proof fn stems_are_what_is_left_of_the_name(name: Seq<char>)
    requires
        name.len() <= 48,
    ensures
        stem(None) == "document"@,
        ({
            let left = crate::text::trimmed(slug(name), Margin::Joint);
            stem(Some(name)) == if left.len() == 0 {
                "document"@
            } else {
                left
            }
        }),
{
    reveal_strlit("document");
    let word = "document"@;
    assert(word.len() == 8);
    assert(word[0] == 'd' && word[1] == 'o' && word[2] == 'c' && word[3] == 'u' && word[4] == 'm'
        && word[5] == 'e' && word[6] == 'n' && word[7] == 't');
    assert forall|i: int| 0 <= i < word.len() implies 'a' <= (#[trigger] word[i]) <= 'z' || '0'
        <= word[i] <= '9' by {
        assert(i == 0 || i == 1 || i == 2 || i == 3 || i == 4 || i == 5 || i == 6 || i == 7);
    }
    plain_names_are_used_as_they_are(word);
}

/// The number in a file's name is the page counted from one, with as many digits as the
/// number of pages has or the page needs.
pub proof fn files_are_numbered_by_their_page(page: usize, n_pages: usize)
    requires
        page < usize::MAX,
        n_pages >= 1,
    ensures
        crate::text::number(page_number(page as int, n_pages as int)) == page + 1,
        page_number(page as int, n_pages as int).len() >= crate::text::decimal(
            n_pages as nat,
        ).len(),
        page < n_pages ==> page_number(page as int, n_pages as int).len() == crate::text::decimal(
            n_pages as nat,
        ).len(),
{
    let width = crate::text::decimal(n_pages as nat).len();
    crate::text::padded_decimal_is_the_number((page + 1) as nat, width);
    crate::text::padding_is_zeros((page + 1) as nat, width);
    if page < n_pages {
        crate::text::decimal_len_is_monotone((page + 1) as nat, n_pages as nat);
    }
}

/// A file's name is made of the document's, the page's number and, from the second attempt
/// on, the attempt's.
pub proof fn files_are_named_after_document_and_page(
    name: Option<Seq<char>>,
    page: int,
    n_pages: int,
    attempt: int,
)
    ensures
        base_name(name, page, n_pages) == stem(name) + "-page-"@ + page_number(page, n_pages),
        candidate(base_name(name, page, n_pages), 1) == base_name(name, page, n_pages) + ".png"@,
        attempt >= 2 ==> candidate(base_name(name, page, n_pages), attempt) == base_name(
            name,
            page,
            n_pages,
        ) + "-"@ + crate::text::decimal(attempt as nat) + ".png"@,
{
}

} // verus!
