//! The structured metadata record the classification service returns
//! for a document, and the naming scheme derived from it.

use vstd::prelude::*;

verus! {

/// What `str::to_lowercase` returns: a function of the characters alone.
pub uninterp spec fn lower_of(s: Seq<char>) -> Seq<char>;

/// Relies on str::to_lowercase: the result depends on the characters alone.
#[verifier::external_body]
fn lowercase(s: &str) -> (r: String)
    ensures
        r@ == lower_of(s@),
{
    s.to_lowercase()
}

/// The metadata record of one classified document.
#[derive(Debug, Clone)]
pub struct DocumentData {
    /// The transcribed content, where the service provided one.
    pub content: Option<String>,
    /// The service's summary of the content.
    pub summary: String,
    /// The class assigned to the document.
    pub class: String,
    /// The source (author, sender, issuer) assigned to the document.
    pub source: String,
    /// The keywords assigned to the document.
    pub keywords: Vec<String>,
    /// The title assigned to the document.
    pub title: String,
    /// The date assigned to the document, `YYYY-MM-DD`.
    pub date: String,
}

impl DocumentData {
    /// The filename of the final artifact: date, title and the given
    /// suffix, in `date-title.suffix` form.
    pub open spec fn spec_filename(&self, suffix: Seq<char>) -> Seq<char> {
        self.date@ + "-"@ + self.title@ + "."@ + suffix
    }

    /// The class/source subdirectory the artifact is filed under,
    /// both parts lower-cased.
    pub open spec fn spec_path(&self) -> Seq<char> {
        lower_of(self.class@) + "/"@ + lower_of(self.source@)
    }

    pub fn make_filename(&self, suffix: &str) -> (r: String)
        ensures
            r@ == self.spec_filename(suffix@),
    {
        self.date.clone().concat("-").concat(self.title.as_str()).concat(".").concat(suffix)
    }

    pub fn make_path(&self) -> (r: String)
        ensures
            r@ == self.spec_path(),
    {
        lowercase(self.class.as_str()).concat("/").concat(lowercase(self.source.as_str()).as_str())
    }
}

} // verus!
