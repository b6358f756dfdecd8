//! A standalone front matter reader: parses a whole document and keeps only
//! the `title` and `layout` keys of its header, discarding everything else.
//! A document without a parsable header gives the empty metadata.

use vstd::prelude::*;

verus! {

/// What parsing a whole document's front matter yields: `None` when the
/// document has no parsable header, else its `title` and `layout` values.
pub uninterp spec fn yfm_title_layout(contents: Seq<char>) -> Option<
    (Option<Seq<char>>, Option<Seq<char>>),
>;

/// The metadata a document's front matter declares.
#[derive(Debug, PartialEq, Eq)]
pub struct FrontMatter {
    pub title: Option<String>,
    pub layout: Option<String>,
}

/// Relies on yaml_front_matter::YamlFrontMatter::parse (with serde_yaml's
/// document model): the parse depends on the input text alone; `None` is a
/// parse failure, else the components are the string values of the `title`
/// and `layout` keys of the header mapping, absent when a key is missing or
/// its value is not a string.
#[verifier::external_body]
fn parse_document(contents: &str) -> (r: Option<(Option<String>, Option<String>)>)
    ensures
        match r {
            Some(tl) => yfm_title_layout(contents@) == Some(
                (tl.0.deep_view(), tl.1.deep_view()),
            ),
            None => yfm_title_layout(contents@) is None,
        },
{
    let doc = match yaml_front_matter::YamlFrontMatter::parse::<serde_yaml::Value>(contents) {
        Ok(doc) => doc,
        Err(_) => return None,
    };
    let title = match doc.metadata.get("title") {
        Some(v) => v.as_str().map(str::to_owned),
        None => None,
    };
    let layout = match doc.metadata.get("layout") {
        Some(v) => v.as_str().map(str::to_owned),
        None => None,
    };
    Some((title, layout))
}

impl FrontMatter {
    /// Reads `title` and `layout` from a document's front matter; a document
    /// without a parsable header gives the empty metadata.
    pub fn from_str(contents: &str) -> (r: FrontMatter)
        ensures
            match yfm_title_layout(contents@) {
                Some(tl) => r.title.deep_view() == tl.0 && r.layout.deep_view() == tl.1,
                None => r.title is None && r.layout is None,
            },
    {
        match parse_document(contents) {
            Some((title, layout)) => FrontMatter { title, layout },
            None => FrontMatter { title: None, layout: None },
        }
    }
}

} // verus!
