//! The laws the library states of itself: graceful degradation of the header
//! extractor, the body suffix invariant, determinism of rendering, and how
//! composition behaves without a layout, on an unsupported format, and on a
//! revisited layout.

use vstd::prelude::*;
use crate::header::{
    spec_body_of, spec_find_close_from, spec_has_open_marker, spec_header_text, spec_is_close_at,
    spec_layout_of, spec_title_of,
};
use crate::page::{lemma_push_wf, spec_compose_rel, spec_lookup, wf_visited, Outcome};
use crate::render::{
    markdown_html, mentions_date, spec_content_or_empty, spec_format_of, spec_render_fails,
    spec_rendered_ok, template_output, Format,
};

verus! {

/// A document without the opening marker line has no metadata and is all
/// body: extraction degrades, it never fails.
pub proof fn lemma_extract_without_marker(raw: Seq<char>)
    requires
        !spec_has_open_marker(raw),
    ensures
        spec_body_of(raw) == raw,
        spec_title_of(raw) is None,
        spec_layout_of(raw) is None,
{
}

/// An opening marker that no closing marker follows is no header: the whole
/// document is the body and the metadata is empty.
pub proof fn lemma_extract_unclosed_marker(raw: Seq<char>)
    requires
        spec_has_open_marker(raw),
        spec_find_close_from(raw, 4) is None,
    ensures
        spec_body_of(raw) == raw,
        spec_title_of(raw) is None,
        spec_layout_of(raw) is None,
{
}

proof fn lemma_find_close_valid(raw: Seq<char>, j: int, i: int)
    requires
        spec_find_close_from(raw, j) == Some(i),
    ensures
        spec_is_close_at(raw, i),
        j <= i,
    decreases raw.len() - j,
{
    if j + 3 > raw.len() {
    } else if spec_is_close_at(raw, j) {
    } else {
        lemma_find_close_valid(raw, j + 1, i);
    }
}

/// The body is a suffix of the raw document: a strict one under a well-formed
/// header, the whole document when there is none.
pub proof fn lemma_body_is_suffix(raw: Seq<char>)
    ensures
        spec_header_text(raw) is None ==> spec_body_of(raw) == raw,
        spec_header_text(raw) is Some ==> exists|k: int|
            0 < k <= raw.len() && spec_body_of(raw) == #[trigger] raw.subrange(
                k,
                raw.len() as int,
            ),
{
    if spec_header_text(raw) is Some {
        let i = choose|i: int| spec_find_close_from(raw, 4) == Some(i);
        lemma_find_close_valid(raw, 4, i);
        if i + 3 == raw.len() {
            assert(spec_body_of(raw) =~= raw.subrange(raw.len() as int, raw.len() as int));
        } else {
            assert(spec_body_of(raw) == raw.subrange(i + 4, raw.len() as int));
        }
    }
}

/// Markdown rendering is deterministic and takes nothing from the injected
/// content: one body has one HTML rendering.
pub proof fn lemma_markdown_deterministic(
    body: Seq<char>,
    c1: Option<Seq<char>>,
    c2: Option<Seq<char>>,
    h1: Seq<char>,
    h2: Seq<char>,
)
    requires
        spec_rendered_ok(Format::Markdown, body, c1, h1),
        spec_rendered_ok(Format::Markdown, body, c2, h2),
    ensures
        h1 == h2,
{
}

/// Template evaluation that cannot reach the clock is deterministic in the
/// template text and the injected content.
pub proof fn lemma_template_deterministic(
    body: Seq<char>,
    content: Option<Seq<char>>,
    h1: Seq<char>,
    h2: Seq<char>,
)
    requires
        !mentions_date(body),
        spec_rendered_ok(Format::Template, body, content, h1),
        spec_rendered_ok(Format::Template, body, content, h2),
    ensures
        h1 == h2,
{
}

/// A document that declares no layout composes to exactly the format
/// renderer's outcome: composition is a no-op.
pub proof fn lemma_compose_without_layout(
    path: Seq<char>,
    body: Seq<char>,
    content: Option<Seq<char>>,
    includes: Seq<(Seq<char>, Seq<char>)>,
    visited: Seq<Seq<char>>,
    o: Outcome,
)
    requires
        wf_visited(visited, includes),
    ensures
        spec_compose_rel(path, body, None, content, includes, visited, o) <==> ({
            let fmt = spec_format_of(path);
            if fmt is Unsupported {
                o == Outcome::Skip
            } else {
                ||| (spec_render_fails(fmt, body, content) && o == Outcome::TemplateFail)
                ||| (exists|h: Seq<char>|
                    #[trigger] spec_rendered_ok(fmt, body, content, h) && o == Outcome::Html(h))
            }
        }),
{
}

/// A document whose format is unsupported composes to a skip, never to an
/// error, whatever layout it declares.
pub proof fn lemma_unsupported_skips(
    path: Seq<char>,
    body: Seq<char>,
    layout: Option<Seq<char>>,
    content: Option<Seq<char>>,
    includes: Seq<(Seq<char>, Seq<char>)>,
    visited: Seq<Seq<char>>,
    o: Outcome,
)
    requires
        wf_visited(visited, includes),
        spec_format_of(path) is Unsupported,
    ensures
        spec_compose_rel(path, body, layout, content, includes, visited, o) <==> o
            == Outcome::Skip,
{
}

/// A layout chain that revisits an already-visited layout fails with the
/// cycle error; only a template whose evaluation failed first can mask it.
pub proof fn lemma_revisited_layout_cycles(
    path: Seq<char>,
    body: Seq<char>,
    l: Seq<char>,
    content: Option<Seq<char>>,
    includes: Seq<(Seq<char>, Seq<char>)>,
    visited: Seq<Seq<char>>,
    o: Outcome,
)
    requires
        wf_visited(visited, includes),
        visited.contains(l),
        spec_compose_rel(path, body, Some(l), content, includes, visited, o),
    ensures
        spec_format_of(path) is Markdown ==> o == Outcome::Cycle(l),
        spec_format_of(path) is Template ==> o == Outcome::Cycle(l) || o
            == Outcome::TemplateFail,
        spec_format_of(path) is Unsupported ==> o == Outcome::Skip,
{
}

/// The document at `path` with this body renders deterministically: it is
/// Markdown, or a template that cannot reach the clock.
pub open spec fn spec_doc_deterministic(path: Seq<char>, body: Seq<char>) -> bool {
    match spec_format_of(path) {
        Format::Markdown => true,
        Format::Template => !mentions_date(body),
        Format::Unsupported => false,
    }
}

/// What one deterministic rendering step yields: `None` is a failed template
/// evaluation.
pub open spec fn spec_render_fn(fmt: Format, body: Seq<char>, content: Seq<char>) -> Option<
    Seq<char>,
> {
    match fmt {
        Format::Markdown => Some(markdown_html(body)),
        Format::Template => template_output(body, content),
        Format::Unsupported => None,
    }
}

/// `chain` lists, innermost first, the layout documents a composition walks:
/// the document declares the first layout's name, each layout is present in
/// the snapshot under its name and declares the name after its own (the last
/// declares none), and no name repeats or was already visited.
pub open spec fn spec_is_chain(
    layout: Option<Seq<char>>,
    chain: Seq<(Seq<char>, Seq<char>)>,
    includes: Seq<(Seq<char>, Seq<char>)>,
    visited: Seq<Seq<char>>,
) -> bool {
    &&& (match layout {
        None => chain.len() == 0,
        Some(l) => chain.len() > 0 && chain[0].0 == l,
    })
    &&& forall|j: int|
        0 <= j < chain.len() ==> spec_lookup(includes, (#[trigger] chain[j]).0) == Some(chain[j].1)
    &&& forall|j: int|
        0 <= j < chain.len() ==> crate::header::spec_layout_of((#[trigger] chain[j]).1) == (
        if j + 1 < chain.len() {
            Some(chain[j + 1].0)
        } else {
            None
        })
    &&& forall|j: int| 0 <= j < chain.len() ==> !visited.contains((#[trigger] chain[j]).0)
    &&& forall|j: int, k: int|
        0 <= j < k < chain.len() ==> (#[trigger] chain[j]).0 != (#[trigger] chain[k]).0
}

/// Every layout of the chain renders deterministically.
pub open spec fn spec_chain_deterministic(chain: Seq<(Seq<char>, Seq<char>)>) -> bool {
    forall|j: int|
        0 <= j < chain.len() ==> spec_doc_deterministic(
            (#[trigger] chain[j]).0,
            spec_body_of(chain[j].1),
        )
}

/// The transitive substitution along the chain from level `j` on: each layout
/// renders with the HTML so far as its `content` variable, and the last
/// rendering is the outcome. One failed evaluation fails the whole chain.
pub open spec fn spec_chain_fold(
    chain: Seq<(Seq<char>, Seq<char>)>,
    j: int,
    h: Seq<char>,
) -> Outcome
    decreases chain.len() - j,
{
    if j < 0 || j >= chain.len() {
        Outcome::Html(h)
    } else {
        match spec_render_fn(spec_format_of(chain[j].0), spec_body_of(chain[j].1), h) {
            Some(h2) => spec_chain_fold(chain, j + 1, h2),
            None => Outcome::TemplateFail,
        }
    }
}

proof fn lemma_chain_fold_shift(chain: Seq<(Seq<char>, Seq<char>)>, j: int, h: Seq<char>)
    requires
        chain.len() > 0,
        0 <= j,
    ensures
        spec_chain_fold(chain.subrange(1, chain.len() as int), j, h) == spec_chain_fold(
            chain,
            j + 1,
            h,
        ),
    decreases chain.len() - j,
{
    let tail = chain.subrange(1, chain.len() as int);
    if j >= tail.len() {
    } else {
        assert(tail[j] == chain[j + 1]);
        match spec_render_fn(spec_format_of(tail[j].0), spec_body_of(tail[j].1), h) {
            Some(h2) => lemma_chain_fold_shift(chain, j + 1, h2),
            None => {},
        }
    }
}

/// A document whose declared layouts form a chain of `n` deterministic
/// layouts composes to exactly the transitive substitution along that chain:
/// the document's own rendering is handed to the first layout as `content`,
/// each layout's output to the next, and the outermost layout's output is the
/// result. The chain is walked once, level by level, in order.
pub proof fn lemma_chain_composition(
    path: Seq<char>,
    body: Seq<char>,
    layout: Option<Seq<char>>,
    content: Option<Seq<char>>,
    chain: Seq<(Seq<char>, Seq<char>)>,
    includes: Seq<(Seq<char>, Seq<char>)>,
    visited: Seq<Seq<char>>,
    o: Outcome,
)
    requires
        wf_visited(visited, includes),
        spec_doc_deterministic(path, body),
        spec_is_chain(layout, chain, includes, visited),
        spec_chain_deterministic(chain),
    ensures
        spec_compose_rel(path, body, layout, content, includes, visited, o) <==> o == (match
            spec_render_fn(spec_format_of(path), body, spec_content_or_empty(content)) {
            Some(h0) => spec_chain_fold(chain, 0, h0),
            None => Outcome::TemplateFail,
        }),
    decreases chain.len(),
{
    let fmt = spec_format_of(path);
    let c = spec_content_or_empty(content);
    match spec_render_fn(fmt, body, c) {
        None => {
            assert(fmt is Template);
            assert(spec_render_fails(fmt, body, content));
            assert forall|h: Seq<char>| !spec_rendered_ok(fmt, body, content, h) by {}
        },
        Some(h0) => {
            assert(spec_rendered_ok(fmt, body, content, h0));
            assert(!spec_render_fails(fmt, body, content));
            assert forall|h: Seq<char>| spec_rendered_ok(fmt, body, content, h) implies h == h0 by {}
            if chain.len() == 0 {
                assert(spec_chain_fold(chain, 0, h0) == Outcome::Html(h0));
            } else {
                let l = chain[0].0;
                let raw = chain[0].1;
                assert(!visited.contains(l));
                assert(spec_lookup(includes, l) == Some(raw));
                lemma_push_wf(visited, includes, l);
                let tail = chain.subrange(1, chain.len() as int);
                assert forall|j: int| 0 <= j < tail.len() implies #[trigger] tail[j] == chain[j
                    + 1] by {}
                assert(spec_is_chain(
                    spec_layout_of(raw),
                    tail,
                    includes,
                    visited.push(l),
                )) by {
                    assert forall|j: int| 0 <= j < tail.len() implies !visited.push(l).contains(
                        (#[trigger] tail[j]).0,
                    ) by {
                        assert(tail[j] == chain[j + 1]);
                        assert(chain[j + 1].0 != l);
                        if visited.contains(tail[j].0) {
                            assert(false);
                        }
                        assert forall|m: int|
                            0 <= m < visited.push(l).len() implies visited.push(l)[m] != tail[j].0
                            by {
                            if m < visited.len() {
                                assert(visited.push(l)[m] == visited[m]);
                            }
                        }
                    }
                }
                assert(spec_chain_deterministic(tail));
                lemma_chain_composition(
                    l,
                    spec_body_of(raw),
                    spec_layout_of(raw),
                    Some(h0),
                    tail,
                    includes,
                    visited.push(l),
                    o,
                );
                match spec_render_fn(spec_format_of(l), spec_body_of(raw), h0) {
                    Some(h1) => {
                        lemma_chain_fold_shift(chain, 0, h1);
                        assert(spec_chain_fold(chain, 0, h0) == spec_chain_fold(chain, 1, h1));
                    },
                    None => {
                        assert(spec_chain_fold(chain, 0, h0) == Outcome::TemplateFail);
                    },
                }
            }
        },
    }
}

} // verus!

