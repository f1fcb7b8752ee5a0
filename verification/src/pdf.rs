//! The metadata block written into the final document: the textual
//! key/value entries the rewrite step feeds to the external tool. The
//! tool itself runs outside.

use vstd::prelude::*;

use crate::util::join_strings;
use crate::util::join_with;
use crate::util::views_of;

verus! {

/// One metadata entry, in the three-line form the rewrite tool reads.
pub open spec fn spec_metadata_entry(key: Seq<char>, value: Seq<char>) -> Seq<Seq<char>> {
    seq!["InfoBegin"@, "InfoKey: "@ + key, "InfoValue: "@ + value]
}

/// One metadata entry, in the three-line form the rewrite tool reads.
pub fn make_metdata_entry(key: String, value: String) -> (r: Vec<String>)
    ensures
        views_of(r@) == spec_metadata_entry(key@, value@),
{
    let mut v: Vec<String> = Vec::new();
    v.push("InfoBegin".to_owned());
    v.push("InfoKey: ".to_owned().concat(key.as_str()));
    v.push("InfoValue: ".to_owned().concat(value.as_str()));
    proof {
        assert(views_of(v@) =~= spec_metadata_entry(key@, value@));
    }
    v
}

/// The metadata text handed back to the rewrite tool: the dumped metadata
/// with one keywords entry appended, the keywords comma-joined.
pub open spec fn spec_updated_metadata(data: Seq<char>, keywords: Seq<Seq<char>>) -> Seq<char> {
    data + join_with(spec_metadata_entry("Keywords"@, join_with(keywords, ", "@)), "\n"@)
}

/// Appends the keywords entry to the dumped metadata text.
pub fn updated_metadata(data: String, keywords: &Vec<String>) -> (r: String)
    ensures
        r@ == spec_updated_metadata(data@, views_of(keywords@)),
{
    let joined = join_strings(keywords, ", ");
    let entry = make_metdata_entry("Keywords".to_owned(), joined);
    data.concat(join_strings(&entry, "\n").as_str())
}

} // verus!
