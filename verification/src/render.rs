//! The format renderer: decides a document's format from its source path and
//! turns a body into HTML, either through the Markdown converter or through
//! the template evaluator with the single injected variable `content`.

use vstd::prelude::*;
use vstd::string::StrSliceExecFns;

verus! {

/// The format of a source document, decided by its file extension.
#[derive(Clone, Copy, Debug, PartialEq, Eq, Structural)]
pub enum Format {
    Markdown,
    Template,
    Unsupported,
}

pub open spec fn spec_ends_with(s: Seq<char>, suffix: Seq<char>) -> bool {
    suffix.len() <= s.len() && s.subrange(s.len() - suffix.len(), s.len() as int) == suffix
}

pub open spec fn spec_format_of(path: Seq<char>) -> Format {
    if spec_ends_with(path, ".md"@) {
        Format::Markdown
    } else if spec_ends_with(path, ".html"@) {
        Format::Template
    } else if spec_ends_with(path, ".liquid"@) {
        Format::Template
    } else {
        Format::Unsupported
    }
}

fn has_suffix(s: &str, suffix: &str) -> (r: bool)
    ensures
        r == spec_ends_with(s@, suffix@),
{
    let n: usize = s.unicode_len();
    let m: usize = suffix.unicode_len();
    if m > n {
        return false;
    }
    let mut i: usize = 0;
    while i < m
        invariant
            0 <= i <= m <= n,
            n == s@.len(),
            m == suffix@.len(),
            forall|j: int| 0 <= j < i ==> s@[n - m + j] == suffix@[j],
        decreases m - i,
    {
        if s.get_char(n - m + i) != suffix.get_char(i) {
            proof {
                if spec_ends_with(s@, suffix@) {
                    assert(s@.subrange(n - m, n as int)[i as int] == suffix@[i as int]);
                }
            }
            return false;
        }
        i += 1;
    }
    proof {
        assert(s@.subrange(n - m, n as int) =~= suffix@);
    }
    true
}

pub fn format_of(path: &str) -> (r: Format)
    ensures
        r == spec_format_of(path@),
{
    if has_suffix(path, ".md") {
        Format::Markdown
    } else if has_suffix(path, ".html") {
        Format::Template
    } else if has_suffix(path, ".liquid") {
        Format::Template
    } else {
        Format::Unsupported
    }
}

pub uninterp spec fn markdown_html(body: Seq<char>) -> Seq<char>;

/// Relies on pulldown_cmark: `Parser::new_ext` with all extensions enabled and
/// `html::push_html`. The conversion never fails, and the produced HTML is a
/// function of the input text alone.
#[verifier::external_body]
pub(crate) fn render_markdown(body: &str) -> (r: String)
    ensures
        r@ == markdown_html(body@),
{
    let parser = pulldown_cmark::Parser::new_ext(body, pulldown_cmark::Options::all());
    let mut out = String::new();
    pulldown_cmark::html::push_html(&mut out, parser);
    out
}

/// Whether the letters `date` occur in a template's text. Liquid's `date`
/// filter renders the clock for the inputs "now" and "today", and a filter is
/// reachable only from a template whose source spells its name; so a template
/// without these letters evaluates to a function of its text and variables.
pub open spec fn mentions_date(text: Seq<char>) -> bool {
    exists|i: int| 0 <= i && i + 4 <= text.len() && #[trigger] text.subrange(i, i + 4) == seq!['d', 'a', 't', 'e']
}

pub uninterp spec fn template_output(text: Seq<char>, content: Seq<char>) -> Option<Seq<char>>;

/// Relies on liquid: `ParserBuilder::with_stdlib`, `Parser::parse` and
/// `Template::render` against a namespace holding the single variable
/// `content`. `None` is a parse or evaluation failure. Of the standard tags
/// and filters only the `date` filter reads the clock, so for template text
/// that never spells `date` the outcome is a function of the text and the
/// injected `content` value alone.
#[verifier::external_body]
pub(crate) fn eval_template(text: &str, content: &str) -> (r: Option<String>)
    ensures
        !mentions_date(text@) ==> r.deep_view() == template_output(text@, content@),
{
    let parser = match liquid::ParserBuilder::with_stdlib().build() {
        Ok(p) => p,
        Err(_) => return None,
    };
    let template = match parser.parse(text) {
        Ok(t) => t,
        Err(_) => return None,
    };
    let mut globals = liquid::Object::new();
    globals.insert("content".into(), liquid::model::Value::scalar(content.to_owned()));
    match template.render(&globals) {
        Ok(s) => Some(s),
        Err(_) => None,
    }
}

pub open spec fn spec_content_or_empty(content: Option<Seq<char>>) -> Seq<char> {
    match content {
        Some(c) => c,
        None => Seq::empty(),
    }
}

/// One rendering step may produce `html` from a body in the given format.
/// For Markdown this pins the result exactly; for a template it pins it
/// whenever the template text cannot reach the clock.
pub open spec fn spec_rendered_ok(
    fmt: Format,
    body: Seq<char>,
    content: Option<Seq<char>>,
    html: Seq<char>,
) -> bool {
    match fmt {
        Format::Markdown => html == markdown_html(body),
        Format::Template => !mentions_date(body) ==> Some(html)
            == template_output(body, spec_content_or_empty(content)),
        Format::Unsupported => false,
    }
}

/// One rendering step may fail. Only template evaluation can fail; Markdown
/// conversion never does.
pub open spec fn spec_render_fails(fmt: Format, body: Seq<char>, content: Option<Seq<char>>) -> bool {
    fmt is Template && (!mentions_date(body) ==> template_output(
        body,
        spec_content_or_empty(content),
    ) is None)
}

} // verus!
