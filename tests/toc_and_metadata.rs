use vite_plugin_norg_parser::ast::{Node, Segment, Token};
use vite_plugin_norg_parser::error::NorgError;
use vite_plugin_norg_parser::metadata::metadata_source;
use vite_plugin_norg_parser::toc::{extract_toc, TocEntry};

fn text(s: &str) -> Segment {
    Segment::Token(Token::Text(s.to_string()))
}

fn verbatim(name: &[&str], content: &str) -> Node {
    Node::Verbatim {
        name: name.iter().map(|n| n.to_string()).collect(),
        parameters: vec![],
        content: content.to_string(),
    }
}

fn entry(level: u32, title: &str, id: &str) -> TocEntry {
    TocEntry { level, title: title.to_string(), id: id.to_string() }
}

#[test]
fn toc_lists_nested_headings_in_order() {
    let nodes = vec![
        Node::Heading {
            level: 1,
            title: vec![text("Main Heading")],
            content: vec![
                Node::Paragraph(vec![text("body")]),
                Node::Heading { level: 2, title: vec![text("Subheading")], content: vec![] },
            ],
        },
        Node::Paragraph(vec![text("x")]),
        Node::Heading { level: 1, title: vec![text("Second & Last")], content: vec![] },
    ];
    assert_eq!(
        extract_toc(&nodes),
        vec![
            entry(1, "Main Heading", "main-heading"),
            entry(2, "Subheading", "subheading"),
            entry(1, "Second &amp; Last", "second-amp-last"),
        ]
    );
}

#[test]
fn toc_of_document_without_headings_is_empty() {
    assert_eq!(extract_toc(&vec![Node::Paragraph(vec![text("Simple paragraph")])]), vec![]);
}

#[test]
fn metadata_extraction_tests_test_extract_metadata_empty() {
    assert_eq!(metadata_source(&vec![]), None);
}

#[test]
fn metadata_tests_test_extract_metadata_empty() {
    assert_eq!(metadata_source(&vec![]), None);
}

#[test]
fn metadata_extraction_tests_test_extract_metadata_non_document_meta() {
    let ast = vec![
        verbatim(&["code"], "title: Should not be extracted"),
        verbatim(&["document", "other"], "author: Should not be extracted"),
    ];
    assert_eq!(metadata_source(&ast), None);
}

#[test]
fn metadata_tests_test_extract_metadata_non_document_meta() {
    let ast = vec![
        verbatim(&["code"], "title: Should not be extracted"),
        verbatim(&["document", "other"], "author: Should not be extracted"),
    ];
    assert_eq!(metadata_source(&ast), None);
}

#[test]
fn first_top_level_meta_block_wins() {
    let ast = vec![
        Node::Heading {
            level: 1,
            title: vec![text("H")],
            content: vec![verbatim(&["document", "meta"], "nested: yes")],
        },
        verbatim(&["document", "meta"], "title: \"T\"\nauthor: \"A\""),
        verbatim(&["document", "meta"], "title: later"),
    ];
    assert_eq!(
        metadata_source(&ast),
        Some("title: \"T\"\nauthor: \"A\"".to_string())
    );
}

#[test]
fn error_messages_name_their_stage() {
    assert_eq!(NorgError::Parse("bad".to_string()).message(), "Parse error: bad");
    assert_eq!(NorgError::Io("gone".to_string()).message(), "IO error: gone");
    assert_eq!(NorgError::Unsupported("x".to_string()).message(), "Unsupported: x");
}

#[test]
fn wasm_tests_placeholder() {
    assert!(true);
}
