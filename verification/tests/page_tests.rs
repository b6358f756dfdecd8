use sitegen::page::{FrontMatter, Page};

#[test]
fn keeps_raw_data_without_header() {
    let contents = String::from(
        "
	# My heading

	This is my content

	## Subheading

	This is my second-level content

	* List item 1
	* List item 2
	* List item 3
	",
    );

    let expected = Page {
        raw: String::from(&contents),
        data: FrontMatter { layout: None, title: None },
        path: String::from("/tmp/file.md"),
        contents: String::from(&contents),
    };

    assert_eq!(expected, Page::from_raw(String::from("/tmp/file.md"), String::from(&contents)));
}

#[test]
fn separates_frontmatter_from_data() {
    let contents = "---
title: My page title
layout: a-layout.liquid
---
# My heading

This is my content

## Subheading

This is my second-level content

* List item 1
* List item 2
* List item 3";

    let expected = Page {
        raw: String::from(contents),
        data: FrontMatter {
            title: Some(String::from("My page title")),
            layout: Some(String::from("a-layout.liquid")),
        },
        path: String::from("/tmp/file_2.md"),
        contents: String::from(
            "# My heading

This is my content

## Subheading

This is my second-level content

* List item 1
* List item 2
* List item 3",
        ),
    };

    assert_eq!(expected, Page::from_raw(String::from("/tmp/file_2.md"), String::from(contents)));
}

#[test]
fn malformed_header_becomes_body() {
    let contents = "---\ntitle: My page title\n# My heading";
    let page = Page::from_raw(String::from("note.md"), String::from(contents));
    assert_eq!(page.contents, contents);
    assert_eq!(page.data, FrontMatter { title: None, layout: None });
}

#[test]
fn empty_header_block_is_default_metadata() {
    let contents = "---\n---\nbody text";
    let page = Page::from_raw(String::from("note.md"), String::from(contents));
    assert_eq!(page.contents, "body text");
    assert_eq!(page.data, FrontMatter { title: None, layout: None });
}

#[test]
fn unknown_header_keys_are_discarded() {
    let contents = "---\ntitle: A title\nauthor: Somebody\nlayout: base.html\n---\nbody";
    let page = Page::from_raw(String::from("post.md"), String::from(contents));
    assert_eq!(page.contents, "body");
    assert_eq!(
        page.data,
        FrontMatter {
            title: Some(String::from("A title")),
            layout: Some(String::from("base.html")),
        }
    );
}
