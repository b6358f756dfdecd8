//! The page composer: reads a document's metadata and body, renders the body
//! by its format, and recursively wraps the result in the chain of layouts
//! the metadata declares, with an explicit visited set guarding against
//! cycles. Layout documents are looked up in an immutable snapshot of the
//! includes directory, keyed by the name the `layout` key declares.

use vstd::prelude::*;
use vstd::seq_lib::*;
use vstd::set_lib::lemma_len_subset;
use crate::header::{extract, spec_body_of, spec_layout_of, spec_title_of};
use crate::render::{
    eval_template, format_of, render_markdown, spec_content_or_empty, spec_format_of,
    spec_render_fails, spec_rendered_ok, Format,
};

verus! {

/// The content handed down to a layout's template evaluation: the HTML the
/// inner document rendered to, absent for the innermost document.
#[derive(Debug)]
pub struct GlobalData {
    pub content: Option<String>,
}

impl GlobalData {
    pub fn empty() -> (g: GlobalData)
        ensures
            g.content is None,
    {
        GlobalData { content: None }
    }
}

/// The directories a site is built from and into.
#[derive(Debug)]
pub struct Dirs {
    pub output: String,
    pub input: String,
    pub includes: String,
}

/// The metadata read from a document's header.
#[derive(Debug, PartialEq, Eq)]
pub struct FrontMatter {
    pub title: Option<String>,
    pub layout: Option<String>,
}

/// One source document: its location, its unparsed contents, and the
/// metadata and body the header extractor read from them.
#[derive(Debug, PartialEq, Eq)]
pub struct Page {
    pub raw: String,
    pub data: FrontMatter,
    pub path: String,
    pub contents: String,
}

/// Why a composition failed.
#[derive(Debug)]
pub enum RenderError {
    /// A template failed to parse or to evaluate.
    TemplateEvaluation,
    /// A declared layout is not in the includes snapshot.
    LayoutNotFound(String),
    /// The layout chain revisited this layout.
    LayoutCycle(String),
}

/// A snapshot of the includes directory: layout names paired with the raw
/// contents of the layout documents, as the directory walker read them.
pub struct Includes {
    entries: Vec<(String, String)>,
}

impl View for Includes {
    type V = Seq<(Seq<char>, Seq<char>)>;

    closed spec fn view(&self) -> Seq<(Seq<char>, Seq<char>)> {
        self.entries@.map_values(|p: (String, String)| (p.0@, p.1@))
    }
}

/// The first entry for `name`, if any.
pub open spec fn spec_lookup(entries: Seq<(Seq<char>, Seq<char>)>, name: Seq<char>) -> Option<
    Seq<char>,
>
    decreases entries.len(),
{
    if entries.len() == 0 {
        None
    } else if entries[0].0 == name {
        Some(entries[0].1)
    } else {
        spec_lookup(entries.subrange(1, entries.len() as int), name)
    }
}

pub open spec fn spec_names(includes: Seq<(Seq<char>, Seq<char>)>) -> Seq<Seq<char>> {
    includes.map_values(|p: (Seq<char>, Seq<char>)| p.0)
}

/// The visited layouts are distinct and each is present in the snapshot;
/// this bounds the recursion.
pub open spec fn wf_visited(visited: Seq<Seq<char>>, includes: Seq<(Seq<char>, Seq<char>)>) -> bool {
    &&& visited.no_duplicates()
    &&& forall|k: int|
        0 <= k < visited.len() ==> spec_names(includes).contains(#[trigger] visited[k])
}

pub(crate) proof fn lemma_lookup_in_names(entries: Seq<(Seq<char>, Seq<char>)>, name: Seq<char>)
    requires
        spec_lookup(entries, name) is Some,
    ensures
        spec_names(entries).contains(name),
    decreases entries.len(),
{
    if entries.len() == 0 {
    } else if entries[0].0 == name {
        assert(spec_names(entries)[0] == name);
    } else {
        let tail = entries.subrange(1, entries.len() as int);
        lemma_lookup_in_names(tail, name);
        let j = choose|j: int| 0 <= j < tail.len() && spec_names(tail)[j] == name;
        assert(spec_names(entries)[j + 1] == name);
    }
}

pub(crate) proof fn lemma_visited_bound(visited: Seq<Seq<char>>, includes: Seq<(Seq<char>, Seq<char>)>)
    requires
        wf_visited(visited, includes),
    ensures
        visited.len() <= includes.len(),
{
    broadcast use seq_to_set_is_finite;

    let names = spec_names(includes);
    visited.unique_seq_to_set();
    names.lemma_cardinality_of_set();
    assert(visited.to_set() <= names.to_set()) by {
        assert forall|x: Seq<char>| visited.to_set().contains(x) implies names.to_set().contains(
            x,
        ) by {
            assert(visited.contains(x));
        }
    }
    lemma_len_subset(visited.to_set(), names.to_set());
}

pub(crate) proof fn lemma_push_wf(
    visited: Seq<Seq<char>>,
    includes: Seq<(Seq<char>, Seq<char>)>,
    l: Seq<char>,
)
    requires
        wf_visited(visited, includes),
        !visited.contains(l),
        spec_lookup(includes, l) is Some,
    ensures
        wf_visited(visited.push(l), includes),
        visited.push(l).len() <= includes.len(),
{
    lemma_lookup_in_names(includes, l);
    let v2 = visited.push(l);
    assert(v2.no_duplicates()) by {
        assert forall|p: int, q: int| 0 <= p < q < v2.len() implies v2[p] != v2[q] by {
            if q == visited.len() as int {
                assert(v2[p] == visited[p]);
                assert(!visited.contains(l));
            }
        }
    }
    assert forall|k: int| 0 <= k < v2.len() implies spec_names(includes).contains(
        #[trigger] v2[k],
    ) by {
        if k < visited.len() {
            assert(v2[k] == visited[k]);
        }
    }
    lemma_visited_bound(v2, includes);
}

/// The outcome of composing one document, over mathematical values.
pub enum Outcome {
    Html(Seq<char>),
    Skip,
    TemplateFail,
    Missing(Seq<char>),
    Cycle(Seq<char>),
}

pub open spec fn outcome_of(r: Result<Option<String>, RenderError>) -> Outcome {
    match r {
        Ok(Some(s)) => Outcome::Html(s@),
        Ok(None) => Outcome::Skip,
        Err(RenderError::TemplateEvaluation) => Outcome::TemplateFail,
        Err(RenderError::LayoutNotFound(l)) => Outcome::Missing(l@),
        Err(RenderError::LayoutCycle(l)) => Outcome::Cycle(l@),
    }
}

/// Composition may take the document at `path`, with the given body, declared
/// layout and injected content, to the outcome `o`. An unsupported format is
/// a skip; a failed render is a template failure; otherwise the rendered HTML
/// is returned as is when no layout is declared, and else handed as `content`
/// to the declared layout, which must be unvisited and present in the
/// snapshot. The relation pins the outcome except where a template can reach
/// the clock.
pub open spec fn spec_compose_rel(
    path: Seq<char>,
    body: Seq<char>,
    layout: Option<Seq<char>>,
    content: Option<Seq<char>>,
    includes: Seq<(Seq<char>, Seq<char>)>,
    visited: Seq<Seq<char>>,
    o: Outcome,
) -> bool
    decreases includes.len() - visited.len()
        when wf_visited(visited, includes)
        via spec_compose_rel_decreases
{
    let fmt = spec_format_of(path);
    if fmt is Unsupported {
        o == Outcome::Skip
    } else {
        ||| (spec_render_fails(fmt, body, content) && o == Outcome::TemplateFail)
        ||| (exists|h: Seq<char>|
            #[trigger] spec_rendered_ok(fmt, body, content, h) && match layout {
                None => o == Outcome::Html(h),
                Some(l) => if visited.contains(l) {
                    o == Outcome::Cycle(l)
                } else {
                    match spec_lookup(includes, l) {
                        None => o == Outcome::Missing(l),
                        Some(raw) => spec_compose_rel(
                            l,
                            spec_body_of(raw),
                            spec_layout_of(raw),
                            Some(h),
                            includes,
                            visited.push(l),
                            o,
                        ),
                    }
                },
            })
    }
}

#[via_fn]
proof fn spec_compose_rel_decreases(
    path: Seq<char>,
    body: Seq<char>,
    layout: Option<Seq<char>>,
    content: Option<Seq<char>>,
    includes: Seq<(Seq<char>, Seq<char>)>,
    visited: Seq<Seq<char>>,
    o: Outcome,
) {
    assert forall|l: Seq<char>|
        !visited.contains(l) && spec_lookup(includes, l) is Some implies 0 <= includes.len()
        - visited.push(l).len() < includes.len() - visited.len() by {
        lemma_push_wf(visited, includes, l);
    }
}

impl Includes {
    pub fn new() -> (r: Includes)
        ensures
            r@ == Seq::<(Seq<char>, Seq<char>)>::empty(),
    {
        let r = Includes { entries: Vec::new() };
        proof {
            assert(r@ =~= Seq::<(Seq<char>, Seq<char>)>::empty());
        }
        r
    }

    /// Records one layout document under the name layouts declare it by.
    pub fn add(&mut self, name: String, raw: String)
        ensures
            final(self)@ == old(self)@.push((name@, raw@)),
    {
        let ghost n = name@;
        let ghost rw = raw@;
        let ghost before = self@;
        self.entries.push((name, raw));
        proof {
            assert(self@ =~= before.push((n, rw)));
        }
    }

    fn get(&self, name: &String) -> (r: Option<&String>)
        ensures
            match r {
                Some(s) => spec_lookup(self@, name@) == Some(s@),
                None => spec_lookup(self@, name@) is None,
            },
    {
        let mut k: usize = 0;
        proof {
            assert(self@.subrange(0, self@.len() as int) =~= self@);
        }
        while k < self.entries.len()
            invariant
                0 <= k <= self.entries.len(),
                self@.len() == self.entries@.len(),
                spec_lookup(self@, name@) == spec_lookup(
                    self@.subrange(k as int, self@.len() as int),
                    name@,
                ),
            decreases self.entries.len() - k,
        {
            let ghost rest = self@.subrange(k as int, self@.len() as int);
            if self.entries[k].0 == *name {
                proof {
                    assert(rest[0] == self@[k as int]);
                    assert(spec_lookup(rest, name@) == Some(self@[k as int].1));
                }
                return Some(&self.entries[k].1);
            }
            proof {
                assert(rest[0] == self@[k as int]);
                assert(rest.subrange(1, rest.len() as int) =~= self@.subrange(
                    k + 1,
                    self@.len() as int,
                ));
            }
            k += 1;
        }
        proof {
            assert(self@.subrange(k as int, self@.len() as int).len() == 0);
        }
        None
    }
}

fn contains_string(v: &Vec<String>, x: &String) -> (r: bool)
    ensures
        r == v.deep_view().contains(x@),
{
    let mut k: usize = 0;
    while k < v.len()
        invariant
            0 <= k <= v@.len(),
            v.deep_view().len() == v@.len(),
            forall|j: int| 0 <= j < k ==> v.deep_view()[j] != x@,
        decreases v@.len() - k,
    {
        proof {
            assert(v.deep_view()[k as int] == v@[k as int]@);
        }
        if v[k] == *x {
            return true;
        }
        k += 1;
    }
    false
}

/// One level of composition: render the body at `path`, then either return
/// it, or look the declared layout up and recurse with the result injected.
fn render_at(
    path: &str,
    body: &str,
    layout: Option<String>,
    content: Option<String>,
    includes: &Includes,
    visited: Vec<String>,
) -> (r: Result<Option<String>, RenderError>)
    requires
        wf_visited(visited.deep_view(), includes@),
    ensures
        spec_compose_rel(
            path@,
            body@,
            layout.deep_view(),
            content.deep_view(),
            includes@,
            visited.deep_view(),
            outcome_of(r),
        ),
    decreases includes@.len() - visited@.len(),
{
    proof {
        lemma_visited_bound(visited.deep_view(), includes@);
        assert(visited.deep_view().len() == visited@.len());
    }
    let fmt = format_of(path);
    let rendered: String = match fmt {
        Format::Markdown => render_markdown(body),
        Format::Template => {
            let c: &str = match &content {
                Some(s) => s.as_str(),
                None => "",
            };
            proof {
                reveal_strlit("");
                assert(c@ == spec_content_or_empty(content.deep_view()));
            }
            match eval_template(body, c) {
                Some(h) => h,
                None => {
                    proof {
                        assert(spec_render_fails(Format::Template, body@, content.deep_view()));
                    }
                    return Err(RenderError::TemplateEvaluation);
                },
            }
        },
        Format::Unsupported => {
            return Ok(None);
        },
    };
    proof {
        assert(spec_rendered_ok(fmt, body@, content.deep_view(), rendered@));
    }
    match layout {
        None => Ok(Some(rendered)),
        Some(l) => {
            if contains_string(&visited, &l) {
                return Err(RenderError::LayoutCycle(l));
            }
            match includes.get(&l) {
                None => Err(RenderError::LayoutNotFound(l)),
                Some(raw) => {
                    let (fm, inner_body) = extract(raw.as_str());
                    let mut visited2 = visited;
                    visited2.push(l.clone());
                    proof {
                        assert(visited2.deep_view() =~= visited.deep_view().push(l@));
                        lemma_push_wf(visited.deep_view(), includes@, l@);
                    }
                    let out = render_at(
                        l.as_str(),
                        inner_body.as_str(),
                        fm.layout,
                        Some(rendered),
                        includes,
                        visited2,
                    );
                    out
                },
            }
        },
    }
}

impl Page {
    /// Builds a document from its location and its unparsed contents,
    /// splitting metadata from body.
    pub fn from_raw(path: String, raw: String) -> (p: Page)
        ensures
            p.path@ == path@,
            p.raw@ == raw@,
            p.contents@ == spec_body_of(raw@),
            p.data.title.deep_view() == spec_title_of(raw@),
            p.data.layout.deep_view() == spec_layout_of(raw@),
    {
        let (data, contents) = extract(raw.as_str());
        Page { raw, data, path, contents }
    }

    /// Composes this document: renders its body and wraps the result in the
    /// declared layout chain, reading layouts from the snapshot.
    pub fn render(&self, includes: &Includes, globals: GlobalData) -> (r: Result<
        Option<String>,
        RenderError,
    >)
        ensures
            spec_compose_rel(
                self.path@,
                self.contents@,
                self.data.layout.deep_view(),
                globals.content.deep_view(),
                includes@,
                Seq::empty(),
                outcome_of(r),
            ),
    {
        let visited: Vec<String> = Vec::new();
        proof {
            assert(visited.deep_view() =~= Seq::<Seq<char>>::empty());
        }
        let layout: Option<String> = match &self.data.layout {
            Some(l) => Some(l.clone()),
            None => None,
        };
        render_at(
            self.path.as_str(),
            self.contents.as_str(),
            layout,
            globals.content,
            includes,
            visited,
        )
    }
}

} // verus!
