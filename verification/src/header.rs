//! The header extractor: splits a raw document into its front matter header
//! and its body. The header block is opened by a first line consisting of the
//! marker `---` and closed by the next line consisting of `---`; the text
//! between the two is a key-value mapping from which only `title` and
//! `layout` are read. Extraction never fails: without a well-formed header
//! the whole input is the body and the metadata is empty.

use vstd::prelude::*;
use vstd::string::StrSliceExecFns;
use crate::page::FrontMatter;
use gray_matter::engine::Engine;

verus! {

/// The `title` and `layout` string values of the mapping written in a header
/// block's text.
pub uninterp spec fn yaml_title_layout(header: Seq<char>) -> (Option<Seq<char>>, Option<Seq<char>>);

/// The document opens with a marker line: `---` followed by a line break.
pub open spec fn spec_has_open_marker(raw: Seq<char>) -> bool {
    raw.len() >= 4 && raw[0] == '-' && raw[1] == '-' && raw[2] == '-' && raw[3] == '\n'
}

/// A closing marker line `---` starts at index `i`: it follows a line break
/// and runs to a line break or to the end of the document.
pub open spec fn spec_is_close_at(raw: Seq<char>, i: int) -> bool {
    &&& 4 <= i
    &&& i + 3 <= raw.len()
    &&& raw[i - 1] == '\n'
    &&& raw[i] == '-'
    &&& raw[i + 1] == '-'
    &&& raw[i + 2] == '-'
    &&& (i + 3 == raw.len() || raw[i + 3] == '\n')
}

/// The first closing marker at or after index `i`, if any.
pub open spec fn spec_find_close_from(raw: Seq<char>, i: int) -> Option<int>
    decreases raw.len() - i,
{
    if i + 3 > raw.len() {
        None
    } else if spec_is_close_at(raw, i) {
        Some(i)
    } else {
        spec_find_close_from(raw, i + 1)
    }
}

/// The text between the two marker lines, when both are present.
pub open spec fn spec_header_text(raw: Seq<char>) -> Option<Seq<char>> {
    if spec_has_open_marker(raw) {
        match spec_find_close_from(raw, 4) {
            Some(i) => Some(
                if i <= 4 {
                    Seq::empty()
                } else {
                    raw.subrange(4, i - 1)
                },
            ),
            None => None,
        }
    } else {
        None
    }
}

/// The body: everything after the closing marker line, or the whole input
/// when no well-formed header is present.
pub open spec fn spec_body_of(raw: Seq<char>) -> Seq<char> {
    if spec_has_open_marker(raw) {
        match spec_find_close_from(raw, 4) {
            Some(i) => if i + 3 == raw.len() {
                Seq::empty()
            } else {
                raw.subrange(i + 4, raw.len() as int)
            },
            None => raw,
        }
    } else {
        raw
    }
}

pub open spec fn spec_title_of(raw: Seq<char>) -> Option<Seq<char>> {
    match spec_header_text(raw) {
        Some(h) => yaml_title_layout(h).0,
        None => None,
    }
}

pub open spec fn spec_layout_of(raw: Seq<char>) -> Option<Seq<char>> {
    match spec_header_text(raw) {
        Some(h) => yaml_title_layout(h).1,
        None => None,
    }
}

/// Relies on gray_matter's YAML engine for the header mapping alone (the
/// marker lines are handled by `extract`): the mapping read from the header
/// text depends on that text alone; the components are the string values of
/// its `title` and `layout` keys, absent when the text is not a mapping, a
/// key is missing, or its value is not a string.
#[verifier::external_body]
fn parse_header_mapping(header: &str) -> (r: (Option<String>, Option<String>))
    ensures
        (r.0.deep_view(), r.1.deep_view()) == yaml_title_layout(header@),
{
    let pod = match gray_matter::engine::YAML::parse(header) {
        Ok(pod) => pod,
        Err(_) => return (None, None),
    };
    let map = match pod.as_hashmap() {
        Ok(map) => map,
        Err(_) => return (None, None),
    };
    let title = match map.get("title") { Some(v) => v.as_string().ok(), None => None };
    let layout = match map.get("layout") { Some(v) => v.as_string().ok(), None => None };
    (title, layout)
}

/// Splits a raw document into its metadata and its body. Never fails: when
/// the opening marker is absent, or no closing marker follows it, the
/// metadata is empty and the body is the input unchanged.
pub fn extract(raw: &str) -> (r: (FrontMatter, String))
    ensures
        r.1@ == spec_body_of(raw@),
        r.0.title.deep_view() == spec_title_of(raw@),
        r.0.layout.deep_view() == spec_layout_of(raw@),
{
    let n: usize = raw.unicode_len();
    if !(n >= 4 && raw.get_char(0) == '-' && raw.get_char(1) == '-' && raw.get_char(2) == '-'
        && raw.get_char(3) == '\n') {
        return (FrontMatter { title: None, layout: None }, raw.to_owned());
    }
    let mut i: usize = 4;
    loop
        invariant
            n == raw@.len(),
            4 <= i <= n,
            spec_has_open_marker(raw@),
            spec_find_close_from(raw@, 4) == spec_find_close_from(raw@, i as int),
        decreases n - i,
    {
        if i > n - 3 {
            proof {
                assert(spec_find_close_from(raw@, i as int) is None);
            }
            return (FrontMatter { title: None, layout: None }, raw.to_owned());
        }
        let close = raw.get_char(i - 1) == '\n' && raw.get_char(i) == '-' && raw.get_char(i + 1)
            == '-' && raw.get_char(i + 2) == '-' && (i + 3 == n || raw.get_char(i + 3) == '\n');
        if close {
            proof {
                assert(spec_is_close_at(raw@, i as int));
                assert(spec_find_close_from(raw@, i as int) == Some(i as int));
            }
            let hi: usize = if i <= 4 {
                4
            } else {
                i - 1
            };
            let header = raw.substring_char(4, hi);
            let (title, layout) = parse_header_mapping(header);
            proof {
                if i <= 4 {
                    assert(raw@.subrange(4, 4) =~= Seq::<char>::empty());
                }
            }
            let body: String = if i + 3 == n {
                String::new()
            } else {
                raw.substring_char(i + 4, n).to_owned()
            };
            return (FrontMatter { title, layout }, body);
        }
        proof {
            assert(!spec_is_close_at(raw@, i as int));
            assert(spec_find_close_from(raw@, i as int) == spec_find_close_from(raw@, i + 1));
        }
        i += 1;
    }
}

} // verus!
