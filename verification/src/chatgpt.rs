//! What the classification service is asked and how its answer is taken
//! apart: the instruction text built from the discovered vocabulary, the
//! page images encoded for transport, and the decision on the returned
//! tool call. The network call itself happens outside.

use vstd::prelude::*;

use crate::error::Error;
use crate::util::join_strings;
use crate::util::join_with;
use crate::util::views_of;

verus! {

/// What base64's standard alphabet encodes: a function of the bytes alone.
pub uninterp spec fn base64_of(data: Seq<u8>) -> Seq<char>;

/// Relies on base64's STANDARD engine through Engine::encode: four output
/// characters for every started group of three input bytes, padded; a
/// function of the bytes alone.
#[verifier::external_body]
fn base64_encode(data: &Vec<u8>) -> (r: String)
    ensures
        r@ == base64_of(data@),
        r@.len() == 4 * ((data@.len() + 2) / 3),
{
    base64::Engine::encode(&base64::engine::general_purpose::STANDARD, data.as_slice())
}

/// The transport form of one page image: a data URL of the given MIME
/// type around the standard base64 encoding of the bytes.
pub fn data_url(mime: &str, data: &Vec<u8>) -> (r: String)
    ensures
        r@ == "data:"@ + mime@ + ";base64,"@ + base64_of(data@),
{
    "data:".to_owned().concat(mime).concat(";base64,").concat(base64_encode(data).as_str())
}

/// Every page image, in page order, as a data URL of the given MIME type.
pub fn encode_pages(pages: &Vec<Vec<u8>>, mime: &str) -> (r: Vec<String>)
    ensures
        r@.len() == pages@.len(),
        forall|i: int|
            0 <= i < r@.len() ==> r@[i]@ == "data:"@ + mime@ + ";base64,"@ + base64_of(
                pages@[i]@,
            ),
{
    let mut urls: Vec<String> = Vec::new();
    let mut i: usize = 0;
    while i < pages.len()
        invariant
            i <= pages@.len(),
            urls@.len() == i,
            forall|j: int|
                0 <= j < i ==> urls@[j]@ == "data:"@ + mime@ + ";base64,"@ + base64_of(
                    pages@[j]@,
                ),
        decreases pages@.len() - i,
    {
        urls.push(data_url(mime, &pages[i]));
        i = i + 1;
    }
    urls
}

/// The seven outputs the service is asked to produce for each document.
pub open spec fn spec_outputs() -> Seq<Seq<char>> {
    seq![
        "* A transcription of the contents of the document. If the document is too large to provide a full transcription, you may omit this."@,
        "* A summary of the content of the entire document."@,
        "* A classification of the document. Please use rather broad and general concepts as classes. The class must be usable as part of a filename and must not contain whitespaces or non-ascii characters. Please favor using hyphens over underscores as separators. The grammatical number of the word used as class should be singular if possible."@,
        "* The source of the document. This could be the author, creator, sender or issuer of the document. The source must be usable as part of a filename and must not contain whitespaces or non-ascii characters."@,
        "* Between 2 and 4 keywords describing the content of the document."@,
        "* A title describing the document. It should be sufficiently specific to differentiate this particular document from other documents of this class and source, but it should not duplicate words that are already found as class or source. The title must be usable as part of a filename and must not contain whitespaces or non-ascii characters."@,
        "* A date to be associated with the document. Please favor the date when the document was issued over any other dates found."@,
    ]
}

/// The seven outputs the service is asked to produce for each document.
pub fn make_outputs() -> (r: Vec<String>)
    ensures
        views_of(r@) == spec_outputs(),
{
    let mut v: Vec<String> = Vec::new();
    v.push(
        "* A transcription of the contents of the document. If the document is too large to provide a full transcription, you may omit this.".to_owned(),
    );
    v.push("* A summary of the content of the entire document.".to_owned());
    v.push(
        "* A classification of the document. Please use rather broad and general concepts as classes. The class must be usable as part of a filename and must not contain whitespaces or non-ascii characters. Please favor using hyphens over underscores as separators. The grammatical number of the word used as class should be singular if possible.".to_owned(),
    );
    v.push(
        "* The source of the document. This could be the author, creator, sender or issuer of the document. The source must be usable as part of a filename and must not contain whitespaces or non-ascii characters.".to_owned(),
    );
    v.push("* Between 2 and 4 keywords describing the content of the document.".to_owned());
    v.push(
        "* A title describing the document. It should be sufficiently specific to differentiate this particular document from other documents of this class and source, but it should not duplicate words that are already found as class or source. The title must be usable as part of a filename and must not contain whitespaces or non-ascii characters.".to_owned(),
    );
    v.push(
        "* A date to be associated with the document. Please favor the date when the document was issued over any other dates found.".to_owned(),
    );
    proof {
        assert(views_of(v@) =~= spec_outputs());
    }
    v
}

/// The line reminding the service of known classes, built around the
/// comma-joined vocabulary.
pub open spec fn spec_classes_line(classes: Seq<Seq<char>>) -> Seq<char> {
    "* When choosing the class of the document, check if any of these classes match before creating a new one: "@
        + join_with(classes, ", "@)
}

/// The line reminding the service of known sources.
pub open spec fn spec_sources_line(sources: Seq<Seq<char>>) -> Seq<char> {
    "* When choosing the source of the document, check if any of these sources match before creating a new one: "@
        + join_with(sources, ", "@)
}

/// The guidance lines built from the discovered vocabulary: the language
/// rule always, then one line per non-empty vocabulary.
pub open spec fn spec_guidance(classes: Seq<Seq<char>>, sources: Seq<Seq<char>>) -> Seq<
    Seq<char>,
> {
    let base = seq![
        "* Please make sure that the language of all outputs matches the language of the input document."@,
    ];
    let with_classes = if classes.len() > 0 {
        base.push(spec_classes_line(classes))
    } else {
        base
    };
    if sources.len() > 0 {
        with_classes.push(spec_sources_line(sources))
    } else {
        with_classes
    }
}

/// The guidance lines built from the discovered vocabulary: the language
/// rule always, then one line per non-empty vocabulary.
pub fn make_specs(classes: Vec<String>, sources: Vec<String>) -> (r: Vec<String>)
    ensures
        views_of(r@) == spec_guidance(views_of(classes@), views_of(sources@)),
{
    let mut result: Vec<String> = Vec::new();
    result.push(
        "* Please make sure that the language of all outputs matches the language of the input document.".to_owned(),
    );
    if classes.len() > 0 {
        result.push(
            "* When choosing the class of the document, check if any of these classes match before creating a new one: ".to_owned().concat(
                join_strings(&classes, ", ").as_str(),
            ),
        );
    }
    if sources.len() > 0 {
        result.push(
            "* When choosing the source of the document, check if any of these sources match before creating a new one: ".to_owned().concat(
                join_strings(&sources, ", ").as_str(),
            ),
        );
    }
    proof {
        assert(views_of(result@) =~= spec_guidance(views_of(classes@), views_of(sources@)));
    }
    result
}

/// The single built-in system instruction handed to the service: the
/// newline-joined outputs and guidance lines around the fixed preamble.
pub open spec fn spec_instructions(classes: Seq<Seq<char>>, sources: Seq<Seq<char>>) -> Seq<
    char,
> {
    "You will be given a scan of a document. It may consist of one or more pages. You shall provide as output in the language of the document:\n"@
        + join_with(spec_outputs(), "\n"@)
        + "\n\nWhen producing the output, you shall observe the following points:\n"@
        + join_with(spec_guidance(classes, sources), "\n"@) + "\n"@
}

/// The built-in system instructions handed to the service.
pub fn make_instructions(classes: Vec<String>, sources: Vec<String>) -> (r: Vec<String>)
    ensures
        r@.len() == 1,
        r@[0]@ == spec_instructions(views_of(classes@), views_of(sources@)),
{
    let outputs = join_strings(&make_outputs(), "\n");
    let specs = join_strings(&make_specs(classes, sources), "\n");
    let content =
        "You will be given a scan of a document. It may consist of one or more pages. You shall provide as output in the language of the document:\n".to_owned().concat(
        outputs.as_str(),
    ).concat("\n\nWhen producing the output, you shall observe the following points:\n").concat(
        specs.as_str(),
    ).concat("\n");
    let mut v: Vec<String> = Vec::new();
    v.push(content);
    v
}

/// The decision on the service's answer: an answer carrying no tool-call
/// arguments cannot be processed, and the raw response is retained for
/// diagnostics; otherwise the arguments are handed on for decoding.
pub fn require_tool_arguments(arguments: Option<String>, raw: Option<String>) -> (r: Result<
    String,
    Error,
>)
    ensures
        match r {
            Ok(a) => arguments matches Some(a2) && a == a2,
            Err(e) => arguments is None && (e matches Error::DoesNotProcessError(d) && d == raw),
        },
{
    match arguments {
        Some(a) => Ok(a),
        None => Err(Error::DoesNotProcessError(raw)),
    }
}

} // verus!
