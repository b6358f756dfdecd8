use sitegen::page::{GlobalData, Includes, Page, RenderError};

#[test]
fn markdown_heading_renders_exactly() {
    let page = Page::from_raw(String::from("page.md"), String::from("# Hi"));
    let includes = Includes::new();
    let out = page.render(&includes, GlobalData::empty());
    assert_eq!(out.unwrap(), Some(String::from("<h1>Hi</h1>\n")));
}

#[test]
fn template_layout_injects_content() {
    let page = Page::from_raw(
        String::from("page.html"),
        String::from("---\ntitle: T\nlayout: base.html\n---\nHello {{ content }}"),
    );
    let mut includes = Includes::new();
    includes.add(
        String::from("base.html"),
        String::from("<div>{{ content }}</div>"),
    );
    let out = page.render(&includes, GlobalData::empty());
    assert_eq!(out.unwrap(), Some(String::from("<div>Hello </div>")));
}

#[test]
fn two_level_layout_chain_substitutes_transitively() {
    let page = Page::from_raw(
        String::from("page.md"),
        String::from("---\nlayout: inner.html\n---\n# Hi"),
    );
    let mut includes = Includes::new();
    includes.add(
        String::from("inner.html"),
        String::from("---\nlayout: outer.html\n---\n<i>{{ content }}</i>"),
    );
    includes.add(
        String::from("outer.html"),
        String::from("<o>{{ content }}</o>"),
    );
    let out = page.render(&includes, GlobalData::empty());
    assert_eq!(out.unwrap(), Some(String::from("<o><i><h1>Hi</h1>\n</i></o>")));
}

#[test]
fn layout_cycle_is_detected() {
    let page = Page::from_raw(
        String::from("page.html"),
        String::from("---\nlayout: a.html\n---\nstart {{ content }}"),
    );
    let mut includes = Includes::new();
    includes.add(
        String::from("a.html"),
        String::from("---\nlayout: b.html\n---\nA {{ content }}"),
    );
    includes.add(
        String::from("b.html"),
        String::from("---\nlayout: a.html\n---\nB {{ content }}"),
    );
    match page.render(&includes, GlobalData::empty()) {
        Err(RenderError::LayoutCycle(l)) => assert_eq!(l, "a.html"),
        _ => panic!("expected the layout cycle to be detected"),
    }
}

#[test]
fn self_referential_layout_is_a_cycle() {
    let page = Page::from_raw(
        String::from("page.md"),
        String::from("---\nlayout: a.html\n---\n# Hi"),
    );
    let mut includes = Includes::new();
    includes.add(
        String::from("a.html"),
        String::from("---\nlayout: a.html\n---\n{{ content }}"),
    );
    match page.render(&includes, GlobalData::empty()) {
        Err(RenderError::LayoutCycle(l)) => assert_eq!(l, "a.html"),
        _ => panic!("expected the layout cycle to be detected"),
    }
}

#[test]
fn unsupported_extension_skips() {
    let page = Page::from_raw(String::from("note.txt"), String::from("plain text"));
    let includes = Includes::new();
    let out = page.render(&includes, GlobalData::empty());
    assert_eq!(out.unwrap(), None);
}

#[test]
fn missing_layout_is_a_distinct_error() {
    let page = Page::from_raw(
        String::from("page.md"),
        String::from("---\nlayout: missing.html\n---\n# Hi"),
    );
    let includes = Includes::new();
    match page.render(&includes, GlobalData::empty()) {
        Err(RenderError::LayoutNotFound(l)) => assert_eq!(l, "missing.html"),
        _ => panic!("expected the missing layout to be reported"),
    }
}

#[test]
fn broken_template_is_an_evaluation_error() {
    let page = Page::from_raw(String::from("page.html"), String::from("{% endif %}"));
    let includes = Includes::new();
    match page.render(&includes, GlobalData::empty()) {
        Err(RenderError::TemplateEvaluation) => (),
        _ => panic!("expected a template evaluation error"),
    }
}

#[test]
fn liquid_extension_renders_as_template() {
    let page = Page::from_raw(
        String::from("snippet.liquid"),
        String::from("{% if content == \"\" %}empty{% endif %}"),
    );
    let includes = Includes::new();
    let out = page.render(&includes, GlobalData::empty());
    assert_eq!(out.unwrap(), Some(String::from("empty")));
}

#[test]
fn template_iteration_is_supported() {
    let page = Page::from_raw(
        String::from("list.html"),
        String::from("{% for i in (1..3) %}{{ i }}{% endfor %}"),
    );
    let includes = Includes::new();
    let out = page.render(&includes, GlobalData::empty());
    assert_eq!(out.unwrap(), Some(String::from("123")));
}

#[test]
fn markdown_rendering_is_deterministic() {
    let raw = String::from("# A *heading*\n\n- one\n- two\n");
    let a = Page::from_raw(String::from("a.md"), raw.clone());
    let b = Page::from_raw(String::from("b.md"), raw);
    let includes = Includes::new();
    let out_a = a.render(&includes, GlobalData::empty()).unwrap();
    let out_b = b.render(&includes, GlobalData::empty()).unwrap();
    assert!(out_a.is_some());
    assert_eq!(out_a, out_b);
}
