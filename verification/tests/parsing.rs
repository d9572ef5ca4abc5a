use rsdctl::article::{Section, WikiArticle};
use rsdctl::parser::parse;
use rsdctl::tokenizer::Token;

fn texts(tokens: &[Token]) -> Vec<String> {
    tokens.iter().map(|t| t.get_str().clone()).collect()
}

fn para_text(section: &Section) -> String {
    match section {
        Section::Paragraph(ts) => texts(ts).concat(),
        other => panic!("expected a paragraph, got {:?}", other),
    }
}

/// All word-token texts anywhere in the article, in traversal order.
fn all_words(article: &WikiArticle) -> Vec<String> {
    fn from_tokens(ts: &[Token], out: &mut Vec<String>) {
        for t in ts {
            if t.is_word() {
                out.push(t.get_str().clone());
            }
        }
    }
    fn from_sections(ss: &[Section], out: &mut Vec<String>) {
        for s in ss {
            match s {
                Section::Heading(_, ts) => from_tokens(ts, out),
                Section::Paragraph(ts) => from_tokens(ts, out),
                Section::UnorderedList(items) | Section::OrderedList(items) => {
                    for item in items {
                        from_sections(item, out);
                    }
                }
            }
        }
    }
    let mut out = Vec::new();
    from_tokens(&article.title, &mut out);
    from_sections(&article.content, &mut out);
    out
}

#[test]
fn title_is_tokenized() {
    let article = parse("Rust (language)", "");
    assert_eq!(texts(&article.title), ["Rust", " (", "language", ")"]);
}

#[test]
fn empty_markup_yields_empty_content() {
    let article = parse("Title", "");
    assert!(article.content.is_empty());
}

#[test]
fn heading_levels_come_from_marker_runs() {
    let article = parse("T", "== History ==\n=== Detail ===");
    match &article.content[0] {
        Section::Heading(level, ts) => {
            assert_eq!(*level, 2);
            assert_eq!(texts(ts), ["History"]);
        }
        other => panic!("expected a heading, got {:?}", other),
    }
    match &article.content[1] {
        Section::Heading(level, ts) => {
            assert_eq!(*level, 3);
            assert_eq!(texts(ts), ["Detail"]);
        }
        other => panic!("expected a heading, got {:?}", other),
    }
}

#[test]
fn oversized_heading_clamps_to_six() {
    let article = parse("T", "======== Deep ========");
    match &article.content[0] {
        Section::Heading(level, ts) => {
            assert_eq!(*level, 6);
            assert_eq!(texts(ts), ["Deep"]);
        }
        other => panic!("expected a heading, got {:?}", other),
    }
}

#[test]
fn adjacent_text_lines_join_into_one_paragraph() {
    let article = parse("T", "line one\nline two\n\nnext block");
    assert_eq!(article.content.len(), 2);
    assert_eq!(para_text(&article.content[0]), "line one line two");
    assert_eq!(para_text(&article.content[1]), "next block");
}

#[test]
fn unordered_list_with_nesting() {
    let article = parse("T", "* alpha\n** beta\n* gamma");
    assert_eq!(article.content.len(), 1);
    let items = match &article.content[0] {
        Section::UnorderedList(items) => items,
        other => panic!("expected an unordered list, got {:?}", other),
    };
    assert_eq!(items.len(), 2);
    assert_eq!(para_text(&items[0][0]), "alpha");
    match &items[0][1] {
        Section::UnorderedList(sub) => {
            assert_eq!(sub.len(), 1);
            assert_eq!(para_text(&sub[0][0]), "beta");
        }
        other => panic!("expected a nested list, got {:?}", other),
    }
    assert_eq!(para_text(&items[1][0]), "gamma");
}

#[test]
fn ordered_list_items() {
    let article = parse("T", "# one\n# two");
    let items = match &article.content[0] {
        Section::OrderedList(items) => items,
        other => panic!("expected an ordered list, got {:?}", other),
    };
    assert_eq!(items.len(), 2);
    assert_eq!(para_text(&items[0][0]), "one");
    assert_eq!(para_text(&items[1][0]), "two");
}

#[test]
fn mixed_marker_nesting() {
    let article = parse("T", "* item\n*# first\n*# second");
    let items = match &article.content[0] {
        Section::UnorderedList(items) => items,
        other => panic!("expected an unordered list, got {:?}", other),
    };
    assert_eq!(items.len(), 1);
    match &items[0][1] {
        Section::OrderedList(sub) => assert_eq!(sub.len(), 2),
        other => panic!("expected a nested ordered list, got {:?}", other),
    }
}

#[test]
fn emphasis_is_flattened() {
    let article = parse("T", "''italic'' and '''bold''' text");
    assert_eq!(para_text(&article.content[0]), "italic and bold text");
}

#[test]
fn links_keep_their_label() {
    let article = parse("T", "[[Rust (language)|Rust]] rocks [[stones]]");
    assert_eq!(para_text(&article.content[0]), "Rust rocks stones");
}

#[test]
fn media_links_are_dropped() {
    let article = parse("T", "[[File:diagram.png|thumb|A diagram]]visible");
    assert_eq!(para_text(&article.content[0]), "visible");
}

#[test]
fn citations_are_dropped() {
    let article = parse("T", "fact<ref>some source</ref> stands");
    assert_eq!(para_text(&article.content[0]), "fact stands");
}

#[test]
fn templates_are_dropped() {
    let article = parse("T", "before {{cite needed|x}} after");
    assert_eq!(para_text(&article.content[0]), "before  after");
}

#[test]
fn tables_contribute_no_text() {
    let article = parse("T", "{| class=x\n| cell\n|}\nafter the table");
    assert_eq!(article.content.len(), 1);
    assert_eq!(para_text(&article.content[0]), "after the table");
}

#[test]
fn unrecognized_markup_degrades_to_text() {
    let article = parse("T", "<<<~?; stray construct ;?~>>> survivor");
    let words = all_words(&article);
    assert!(words.contains(&"survivor".to_string()));
}

#[test]
fn malformed_markup_never_loses_all_text() {
    for markup in [
        "{{unclosed template\nplain words",
        "[[unclosed link\nplain words",
        "== half heading\nplain words",
        "***\nplain words",
    ] {
        let article = parse("T", markup);
        let words = all_words(&article);
        assert!(words.contains(&"plain".to_string()), "lost text in {:?}", markup);
        assert!(words.contains(&"words".to_string()), "lost text in {:?}", markup);
    }
}
