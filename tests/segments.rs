use vite_plugin_norg_parser::ast::{LinkTarget, Segment, Token};
use vite_plugin_norg_parser::segments::{convert_code_segments, convert_segments};

fn text(s: &str) -> Segment {
    Segment::Token(Token::Text(s.to_string()))
}

fn modifier(marker: char, content: Vec<Segment>) -> Segment {
    Segment::Modifier { marker, content }
}

fn link(target: LinkTarget, description: Option<Vec<Segment>>, filepath: Option<&str>) -> Segment {
    Segment::Link {
        targets: vec![target],
        description,
        filepath: filepath.map(|f| f.to_string()),
    }
}

#[test]
fn tokens_render_escaped() {
    let segs = vec![
        text("a<b"),
        Segment::Token(Token::Whitespace),
        Segment::Token(Token::Special('&')),
        Segment::Token(Token::Escape('*')),
    ];
    assert_eq!(convert_segments(&segs), "a&lt;b &amp;*");
}

#[test]
fn attached_modifiers_map_to_elements() {
    let segs = vec![
        modifier('*', vec![text("bold")]),
        modifier('_', vec![text("italic")]),
        modifier('^', vec![text("sup")]),
        modifier(',', vec![text("sub")]),
        modifier('-', vec![text("gone")]),
        modifier('!', vec![text("secret")]),
        modifier('$', vec![text("x")]),
        modifier('&', vec![text("v")]),
        modifier('/', vec![text("alt")]),
        modifier('=', vec![text("hi")]),
        modifier('%', vec![text("plain")]),
    ];
    assert_eq!(
        convert_segments(&segs),
        "<strong>bold</strong><em>italic</em><sup>sup</sup><sub>sub</sub><s>gone</s>\
<span class=\"spoiler\">secret</span><span class=\"math\">x</span><var>v</var><i>alt</i>\
<mark>hi</mark>plain"
    );
}

#[test]
fn nested_modifiers_render_recursively() {
    let segs = vec![modifier('*', vec![text("a "), modifier('_', vec![text("b")])])];
    assert_eq!(convert_segments(&segs), "<strong>a <em>b</em></strong>");
}

#[test]
fn inline_code_keeps_only_escaped_tokens() {
    let content = vec![text("x < y"), modifier('*', vec![text("not bold")])];
    assert_eq!(convert_code_segments(&content), "x &lt; y");
    let segs = vec![modifier('`', content)];
    assert_eq!(convert_segments(&segs), "<code>x &lt; y</code>");
}

#[test]
fn inline_verbatim_is_escaped_code() {
    let segs = vec![Segment::InlineVerbatim(vec![
        Token::Text("a<b".to_string()),
        Token::Whitespace,
        Token::Special('&'),
    ])];
    assert_eq!(convert_segments(&segs), "<code>a&lt;b &amp;</code>");
}

#[test]
fn external_links_open_in_a_new_tab() {
    let segs = vec![link(LinkTarget::Url("https://example.com".to_string()), None, None)];
    assert_eq!(
        convert_segments(&segs),
        "<a href=\"https://example.com\" target=\"_blank\">https://example.com</a>"
    );
}

#[test]
fn local_norg_links_point_to_html_pages() {
    let segs = vec![link(
        LinkTarget::Url("docs/page.norg".to_string()),
        Some(vec![text("Docs")]),
        None,
    )];
    assert_eq!(convert_segments(&segs), "<a href=\"docs/page.html\">Docs</a>");
    let other = vec![link(LinkTarget::Url("notes.txt".to_string()), None, None)];
    assert_eq!(convert_segments(&other), "<a href=\"notes.txt\">notes.txt</a>");
}

#[test]
fn file_path_overrides_the_url() {
    let segs = vec![link(
        LinkTarget::Url("http://example.com/a".to_string()),
        None,
        Some("/local/a.html"),
    )];
    assert_eq!(
        convert_segments(&segs),
        "<a href=\"/local/a.html\">http://example.com/a</a>"
    );
}

#[test]
fn heading_links_use_the_heading_slug() {
    let segs = vec![link(
        LinkTarget::Heading { title: vec![text("Main Heading")] },
        None,
        None,
    )];
    assert_eq!(convert_segments(&segs), "<a href=\"#main-heading\">Main Heading</a>");
}

#[test]
fn unsupported_links_and_segments_render_nothing() {
    let segs = vec![
        link(LinkTarget::Footnote, None, None),
        link(LinkTarget::Wiki, Some(vec![text("w")]), None),
        Segment::Link { targets: vec![], description: None, filepath: None },
        Segment::Unsupported,
        Segment::Anchor { content: vec![text("anchor")] },
    ];
    assert_eq!(convert_segments(&segs), "anchor");
}

#[test]
fn link_text_is_escaped_once() {
    let segs = vec![link(
        LinkTarget::Url("https://x.io".to_string()),
        Some(vec![text("a&b")]),
        None,
    )];
    assert_eq!(
        convert_segments(&segs),
        "<a href=\"https://x.io\" target=\"_blank\">a&amp;b</a>"
    );
    let bare = vec![link(LinkTarget::Url("a&b.norg".to_string()), None, None)];
    assert_eq!(convert_segments(&bare), "<a href=\"a&amp;b.html\">a&amp;b.norg</a>");
    let heading = vec![link(LinkTarget::Heading { title: vec![text("Q&A")] }, None, None)];
    assert_eq!(convert_segments(&heading), "<a href=\"#q-amp-a\">Q&amp;A</a>");
}

#[test]
fn escaped_characters_are_escaped_inside_inline_code() {
    let content = vec![Segment::Token(Token::Escape('<')), text("b")];
    assert_eq!(convert_code_segments(&content), "&lt;b");
    let outside = vec![Segment::Token(Token::Escape('<'))];
    assert_eq!(convert_segments(&outside), "<");
}
