use mdbook_blush::book::{BlushPreprocessor, Chapter, Document, Section};
use mdbook_blush::markdown::{check_nesting, rewrite_events, rewrite_markdown, rewrite_parsed, RewriteError};
use pulldown_cmark::{CowStr, Event, HeadingLevel, LinkType, Tag, TagEnd};

fn chapter(name: &str, content: &str, sub_items: Vec<Section>) -> Section {
    Section::Chapter(Chapter {
        name: name.to_string(),
        content: content.to_string(),
        sub_items,
    })
}

fn content_of(section: &Section) -> &str {
    match section {
        Section::Chapter(chapter) => &chapter.content,
        _ => panic!("not a chapter"),
    }
}

fn sub_items_of(section: &Section) -> &Vec<Section> {
    match section {
        Section::Chapter(chapter) => &chapter.sub_items,
        _ => panic!("not a chapter"),
    }
}

fn link<'a>() -> Tag<'a> {
    Tag::Link {
        link_type: LinkType::Inline,
        dest_url: CowStr::from("https://example.org"),
        title: CowStr::from(""),
        id: CowStr::from(""),
    }
}

fn heading<'a>() -> Tag<'a> {
    Tag::Heading {
        level: HeadingLevel::H1,
        id: None,
        classes: Vec::new(),
        attrs: Vec::new(),
    }
}

#[test]
fn name_is_fixed() {
    assert_eq!(BlushPreprocessor::new().name(), "mdbook-blush");
}

#[test]
fn html_is_the_only_renderer() {
    let preprocessor = BlushPreprocessor::new();
    assert!(preprocessor.supports_renderer("html"));
    assert!(!preprocessor.supports_renderer("pdf"));
    assert!(!preprocessor.supports_renderer("epub"));
    assert!(!preprocessor.supports_renderer(""));
    assert!(!preprocessor.supports_renderer("HTML"));
    assert!(!preprocessor.supports_renderer("html "));
    assert!(!preprocessor.supports_renderer("htm"));
    assert!(!preprocessor.supports_renderer("htmé"));
}

#[test]
fn preprocess_text_is_the_scanner() {
    let preprocessor = BlushPreprocessor::new();
    assert_eq!(
        preprocessor.preprocess_text("a==b==c"),
        "a<span class=\"small-caps\">b</span>c"
    );
    assert_eq!(preprocessor.preprocess_text("a===b"), "a===b");
}

#[test]
fn markdown_keeps_heading_and_wraps_span() {
    assert_eq!(
        rewrite_markdown("# Title\n\nThe ==Senate== voted."),
        Ok("# Title\n\nThe <span class=\"small-caps\">Senate</span> voted.".to_string())
    );
}

#[test]
fn markdown_without_span_is_kept() {
    assert_eq!(
        rewrite_markdown("Some *emphasis* and `code`."),
        Ok("Some *emphasis* and `code`.".to_string())
    );
    assert_eq!(rewrite_markdown(""), Ok(String::new()));
}

#[test]
fn code_is_not_rewritten() {
    assert_eq!(
        rewrite_markdown("Use `==x==` here, ==y== there."),
        Ok("Use `==x==` here, <span class=\"small-caps\">y</span> there.".to_string())
    );
}

#[test]
fn link_text_is_rewritten() {
    assert_eq!(
        rewrite_markdown("See [the ==Senate==](https://example.org)."),
        Ok("See [the <span class=\"small-caps\">Senate</span>](https://example.org).".to_string())
    );
}

#[test]
fn only_text_events_are_rewritten() {
    let events = vec![
        Event::Start(Tag::Paragraph),
        Event::Text(CowStr::from("a==b==c")),
        Event::Code(CowStr::from("==d==")),
        Event::SoftBreak,
        Event::End(TagEnd::Paragraph),
    ];
    let expected = vec![
        Event::Start(Tag::Paragraph),
        Event::Text(CowStr::from("a<span class=\"small-caps\">b</span>c")),
        Event::Code(CowStr::from("==d==")),
        Event::SoftBreak,
        Event::End(TagEnd::Paragraph),
    ];
    assert_eq!(rewrite_events(events), expected);
}

#[test]
fn parsed_events_are_written_out() {
    let events = vec![
        Event::Start(Tag::Paragraph),
        Event::Text(CowStr::from("The ==Senate== voted.")),
        Event::End(TagEnd::Paragraph),
    ];
    assert_eq!(
        rewrite_parsed(events),
        Ok("The <span class=\"small-caps\">Senate</span> voted.".to_string())
    );
}

#[test]
fn nesting_is_checked() {
    assert!(check_nesting(&Vec::new()));
    assert!(check_nesting(&vec![
        Event::Start(link()),
        Event::Text(CowStr::from("x")),
        Event::End(TagEnd::Link),
    ]));
    assert!(check_nesting(&vec![
        Event::Start(heading()),
        Event::End(TagEnd::Heading(HeadingLevel::H1)),
        Event::Start(heading()),
        Event::End(TagEnd::Heading(HeadingLevel::H1)),
    ]));
    assert!(!check_nesting(&vec![Event::End(TagEnd::Link)]));
    assert!(!check_nesting(&vec![Event::End(TagEnd::Image)]));
    assert!(!check_nesting(&vec![Event::End(TagEnd::Heading(HeadingLevel::H2))]));
    assert!(!check_nesting(&vec![Event::Start(heading()), Event::Start(heading())]));
    assert!(!check_nesting(&vec![
        Event::Start(link()),
        Event::End(TagEnd::Link),
        Event::End(TagEnd::Link),
    ]));
    assert!(!check_nesting(&vec![Event::Start(link()), Event::End(TagEnd::Image)]));
}

#[test]
fn bad_nesting_is_an_error() {
    assert_eq!(rewrite_parsed(vec![Event::End(TagEnd::Link)]), Err(RewriteError::BadNesting));
    assert_eq!(
        rewrite_parsed(vec![Event::Text(CowStr::from("==a==")), Event::End(TagEnd::Image)]),
        Err(RewriteError::BadNesting)
    );
    assert_eq!(
        rewrite_parsed(vec![Event::Start(heading()), Event::Start(heading())]),
        Err(RewriteError::BadNesting)
    );
}

#[test]
fn chapter_content_is_replaced() {
    let preprocessor = BlushPreprocessor::new();
    let mut item = chapter("One", "The ==Senate== voted.", Vec::new());
    assert_eq!(preprocessor.preprocess_bookitem(&mut item), Ok(()));
    assert_eq!(
        content_of(&item),
        "The <span class=\"small-caps\">Senate</span> voted."
    );
}

#[test]
fn separator_and_part_title_are_passed_over() {
    let preprocessor = BlushPreprocessor::new();
    let mut separator = Section::Separator;
    assert_eq!(preprocessor.preprocess_bookitem(&mut separator), Ok(()));
    assert!(matches!(separator, Section::Separator));
    let mut title = Section::PartTitle("==Part== one".to_string());
    assert_eq!(preprocessor.preprocess_bookitem(&mut title), Ok(()));
    match title {
        Section::PartTitle(text) => assert_eq!(text, "==Part== one"),
        _ => panic!("not a part title"),
    }
}

#[test]
fn every_depth_is_walked() {
    let book = Document {
        sections: vec![
            Section::PartTitle("==Part==".to_string()),
            chapter(
                "One",
                "==one==",
                vec![
                    chapter("One.One", "a ==two== b", vec![chapter("Deep", "c ==three==", Vec::new())]),
                    Section::Separator,
                    chapter("One.Two", "no span", Vec::new()),
                ],
            ),
            Section::Separator,
            chapter("Two", "d ==four== e", Vec::new()),
        ],
    };
    let done = match BlushPreprocessor::new().run(book) {
        Ok(done) => done,
        Err(_) => panic!("the walk failed"),
    };
    assert_eq!(done.sections.len(), 4);
    match &done.sections[0] {
        Section::PartTitle(text) => assert_eq!(text, "==Part=="),
        _ => panic!("not a part title"),
    }
    let one = &done.sections[1];
    assert_eq!(content_of(one), "\\<span class=\"small-caps\">one</span>");
    let nested = sub_items_of(one);
    assert_eq!(nested.len(), 3);
    assert_eq!(content_of(&nested[0]), "a <span class=\"small-caps\">two</span> b");
    assert_eq!(
        content_of(&sub_items_of(&nested[0])[0]),
        "c <span class=\"small-caps\">three</span>"
    );
    assert!(matches!(nested[1], Section::Separator));
    assert_eq!(content_of(&nested[2]), "no span");
    assert!(matches!(done.sections[2], Section::Separator));
    assert_eq!(content_of(&done.sections[3]), "d <span class=\"small-caps\">four</span> e");
}

#[test]
fn names_are_kept() {
    let preprocessor = BlushPreprocessor::new();
    let mut sections = vec![chapter("==Name==", "x ==y==", Vec::new())];
    assert_eq!(preprocessor.preprocess_sections(&mut sections), Ok(()));
    match &sections[0] {
        Section::Chapter(chapter) => {
            assert_eq!(chapter.name, "==Name==");
            assert_eq!(chapter.content, "x <span class=\"small-caps\">y</span>");
        }
        _ => panic!("not a chapter"),
    }
}

#[test]
fn empty_book_is_kept() {
    match BlushPreprocessor::new().run(Document { sections: Vec::new() }) {
        Ok(done) => assert!(done.sections.is_empty()),
        Err(_) => panic!("the walk failed"),
    }
}
