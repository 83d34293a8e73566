use vite_plugin_norg_parser::ast::{
    DelimiterKind, Extension, FlatNode, RangeableKind, Segment, TodoStatus, Token,
};
use vite_plugin_norg_parser::blocks::{
    code_block, delimiter, heading_tag, nestable_modifier, paragraph, rangeable_modifier,
    verbatim_tag, wrap_lines,
};

fn text(s: &str) -> Segment {
    Segment::Token(Token::Text(s.to_string()))
}

fn strings(v: &[&str]) -> Vec<String> {
    v.iter().map(|s| s.to_string()).collect()
}

#[test]
fn heading_gets_slug_id() {
    assert_eq!(
        heading_tag(2, &vec![text("Sub Heading!")]),
        "<h2 id=\"sub-heading\">Sub Heading!</h2>"
    );
    assert_eq!(heading_tag(10, &vec![text("X")]), "<h10 id=\"x\">X</h10>");
}

#[test]
fn blank_paragraph_renders_nothing() {
    assert_eq!(paragraph(&vec![Segment::Token(Token::Whitespace)]), None);
    assert_eq!(paragraph(&vec![]), None);
    assert_eq!(
        paragraph(&vec![text("Simple paragraph")]),
        Some("<p>Simple paragraph</p>".to_string())
    );
}

#[test]
fn delimiters_map_to_rules() {
    assert_eq!(delimiter(&DelimiterKind::Weak), "<hr class=\"weak\" />");
    assert_eq!(delimiter(&DelimiterKind::Strong), "<hr class=\"strong\" />");
    assert_eq!(delimiter(&DelimiterKind::HorizontalRule), "<hr />");
}

#[test]
fn list_item_with_extensions() {
    let item = FlatNode::Paragraph(vec![text("task")]);
    let exts = vec![
        Extension::Todo(TodoStatus::Done),
        Extension::Priority("High A".to_string()),
        Extension::DueDate("2024-01-01".to_string()),
        Extension::StartDate("2023-12-01".to_string()),
        Extension::Timestamp("noon".to_string()),
    ];
    assert_eq!(
        nestable_modifier(&item, &exts),
        Some(
            "<li class=\"priority-high-a\" data-priority=\"High A\" data-due=\"2024-01-01\" \
data-start=\"2023-12-01\" data-timestamp=\"noon\"><input type=\"checkbox\" \
class=\"todo-status todo-done\" checked disabled /> task</li>"
                .to_string()
        )
    );
}

#[test]
fn recurring_todo_without_date_gets_class() {
    let item = FlatNode::Paragraph(vec![text("water plants")]);
    let exts = vec![
        Extension::Todo(TodoStatus::Recurring(None)),
        Extension::Todo(TodoStatus::Urgent),
    ];
    assert_eq!(
        nestable_modifier(&item, &exts),
        Some(
            "<li class=\"todo-recurring\"><span class=\"todo-status todo-recurring\">+</span> \
<span class=\"todo-status todo-urgent\">!</span> water plants</li>"
                .to_string()
        )
    );
}

#[test]
fn item_without_extensions_or_text() {
    let item = FlatNode::Paragraph(vec![text("plain")]);
    assert_eq!(nestable_modifier(&item, &vec![]), Some("<li>plain</li>".to_string()));
    assert_eq!(nestable_modifier(&FlatNode::Other, &vec![]), None);
    let empty = FlatNode::Paragraph(vec![Segment::Token(Token::Whitespace)]);
    assert_eq!(nestable_modifier(&empty, &vec![]), None);
}

#[test]
fn rangeable_blocks() {
    let body = vec![
        FlatNode::Paragraph(vec![text("Meaning")]),
        FlatNode::Other,
        FlatNode::Paragraph(vec![Segment::Token(Token::Whitespace)]),
    ];
    assert_eq!(
        rangeable_modifier(&RangeableKind::Definition, &vec![text("Term")], &body),
        "<dl><dt>Term</dt><dd><p>Meaning</p></dd></dl>"
    );
    assert_eq!(
        rangeable_modifier(&RangeableKind::Footnote, &vec![text("Note One")], &body),
        "<aside id=\"footnote-note-one\" class=\"footnote\"><strong>Note One</strong><p><p>Meaning</p></p></aside>"
    );
    assert_eq!(
        rangeable_modifier(&RangeableKind::Table, &vec![text("T")], &body),
        "<table><caption>T</caption><tbody><p>Meaning</p></tbody></table>"
    );
}

#[test]
fn rangeable_title_is_escaped_as_text() {
    assert_eq!(
        rangeable_modifier(&RangeableKind::Table, &vec![text("a<b")], &vec![]),
        "<table><caption>a&amp;lt;b</caption><tbody></tbody></table>"
    );
}

#[test]
fn wrap_lines_splits_like_str_lines() {
    assert_eq!(
        wrap_lines("a\r\nb\n"),
        "<span class=\"line\">a</span><span class=\"line\">b</span>"
    );
    assert_eq!(
        wrap_lines("a\n\nb"),
        "<span class=\"line\">a</span><span class=\"line\"></span><span class=\"line\">b</span>"
    );
    assert_eq!(wrap_lines(""), "");
}

#[test]
fn code_block_with_and_without_highlighting() {
    assert_eq!(
        code_block("rust", "a < b\nc", None),
        "<pre><code><span class=\"line\">a &lt; b</span><span class=\"line\">c</span></code></pre>"
    );
    assert_eq!(
        code_block("rust", "ignored", Some("<b>x</b>\ny".to_string())),
        "<pre class=\"arborium lang-rust\"><code><span class=\"line\"><b>x</b></span><span class=\"line\">y</span></code></pre>"
    );
}

#[test]
fn code_verbatim_is_dedented_and_escaped() {
    let out = verbatim_tag(
        &strings(&["code"]),
        &strings(&["no-such-language"]),
        "    if a < b {\n        go();\n    }\n",
    );
    assert_eq!(
        out,
        Some(
            "<pre><code><span class=\"line\">if a &lt; b {</span><span class=\"line\">    go();</span>\
<span class=\"line\">}</span></code></pre>"
                .to_string()
        )
    );
}

#[test]
fn code_verbatim_without_language() {
    let out = verbatim_tag(&strings(&["code"]), &vec![], "x");
    assert_eq!(
        out,
        Some("<pre><code><span class=\"line\">x</span></code></pre>".to_string())
    );
}

#[test]
fn image_paths() {
    let img = |p: &str, alt: &str| verbatim_tag(&strings(&["image"]), &strings(&[p]), alt);
    assert_eq!(
        img("pic.png", "  A picture \n"),
        Some("<img src=\"./pic.png\" alt=\"A picture\" />".to_string())
    );
    assert_eq!(
        img("/abs/pic.png", ""),
        Some("<img src=\"/abs/pic.png\" alt=\"\" />".to_string())
    );
    assert_eq!(
        img("https://x.org/a.png", "a&b"),
        Some("<img src=\"https://x.org/a.png\" alt=\"a&amp;b\" />".to_string())
    );
}

#[test]
fn image_without_path_renders_nothing() {
    assert_eq!(verbatim_tag(&strings(&["image"]), &strings(&[""]), "alt"), None);
    assert_eq!(verbatim_tag(&strings(&["image"]), &vec![], "alt"), None);
}

#[test]
fn meta_and_unknown_verbatim_tags() {
    assert_eq!(
        verbatim_tag(&strings(&["document", "meta"]), &vec![], "title: T"),
        None
    );
    assert_eq!(
        verbatim_tag(&strings(&["custom"]), &vec![], "<raw>"),
        Some("<div class=\"verbatim\">&lt;raw&gt;</div>".to_string())
    );
    assert_eq!(
        verbatim_tag(&strings(&["document", "other"]), &vec![], "x"),
        Some("<div class=\"verbatim\">x</div>".to_string())
    );
}

#[test]
fn code_language_is_written_as_given() {
    assert_eq!(
        code_block("c&c", "x", Some("y".to_string())),
        "<pre class=\"arborium lang-c&c\"><code><span class=\"line\">y</span></code></pre>"
    );
}
