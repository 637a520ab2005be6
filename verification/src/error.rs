//! What can go wrong while a document is rendered.
use vstd::prelude::*;
use vstd::string::StringExecFns;

use crate::text::push_decimal;

verus! {

/// A failed operation on a document.
#[derive(Debug)]
pub enum RenderError {
    /// The document library reported an error, in its own words.
    Mupdf(String),
    /// The document has no pages.
    EmptyDocument,
    /// Pixels could not be brought into the wanted form, or not be written.
    Converting(String),
    /// Rendering a page, counted from zero, panicked.
    Panicked { page: usize, message: String },
}

impl RenderError {
    /// The words shown to the reader for this error; pages are counted from one.
    pub open spec fn words(self) -> Seq<char> {
        match self {
            RenderError::Mupdf(cause) => "mupdf error: "@ + cause@,
            RenderError::EmptyDocument => "document has no pages"@,
            RenderError::Converting(cause) => "conversion error: "@ + cause@,
            RenderError::Panicked { page, message } => "rendering page "@ + crate::text::decimal(
                (page + 1) as nat,
            ) + " panicked: "@ + message@,
        }
    }

    /// Whether the page that the error names can be counted from one.
    pub open spec fn countable(self) -> bool {
        self matches RenderError::Panicked { page, .. } ==> page < usize::MAX
    }

    /// The words shown to the reader for this error.
    pub fn message(&self) -> (text: String)
        requires
            self.countable(),
        ensures
            text@ == self.words(),
    {
        let mut text = String::new();
        match self {
            RenderError::Mupdf(cause) => {
                text.append("mupdf error: ");
                text.append(cause.as_str());
            },
            RenderError::EmptyDocument => {
                text.append("document has no pages");
            },
            RenderError::Converting(cause) => {
                text.append("conversion error: ");
                text.append(cause.as_str());
            },
            RenderError::Panicked { page, message } => {
                text.append("rendering page ");
                push_decimal(&mut text, (*page + 1) as u64);
                text.append(" panicked: ");
                text.append(message.as_str());
            },
        }
        proof {
            assert(text@ =~= self.words());
        }
        text
    }
}

/// A panic is told with the page counted from one and its own message.
pub proof fn panics_name_the_page(page: usize, message: String)
    ensures
        (RenderError::Panicked { page, message }).words() == "rendering page "@
            + crate::text::decimal((page + 1) as nat) + " panicked: "@ + message@,
{
}

/// Errors that have a cause end with it.
pub proof fn errors_end_with_their_cause(cause: String)
    ensures
        RenderError::Mupdf(cause).words() == "mupdf error: "@ + cause@,
        RenderError::Converting(cause).words() == "conversion error: "@ + cause@,
{
}

} // verus!
