use vite_plugin_norg_parser::ast::{FlatNode, LinkTarget, NestableKind, Node, Segment, Token};
use vite_plugin_norg_parser::diagnostics::Diagnostic;
use vite_plugin_norg_parser::transform::{
    heading, route_inline, transform, FailureMode, InlineComponent, InlineError, InlineRoute,
    TransformError, TransformOptions,
};

fn text(s: &str) -> Segment {
    Segment::Token(Token::Text(s.to_string()))
}

fn para(s: &str) -> Node {
    Node::Paragraph(vec![text(s)])
}

fn item(kind: NestableKind, s: &str) -> Node {
    Node::Nestable { kind, text: FlatNode::Paragraph(vec![text(s)]), extensions: vec![] }
}

fn inline(params: &[&str], content: &str) -> Node {
    Node::Verbatim {
        name: vec!["inline".to_string()],
        parameters: params.iter().map(|p| p.to_string()).collect(),
        content: content.to_string(),
    }
}

fn options(target: Option<&str>, failure_mode: FailureMode) -> TransformOptions {
    TransformOptions { target_framework: target.map(|t| t.to_string()), failure_mode }
}

fn some(s: &str) -> Option<String> {
    Some(s.to_string())
}

#[test]
fn empty_document_has_one_empty_fragment() {
    let out = transform(&vec![], &options(None, FailureMode::Abort)).unwrap();
    assert_eq!(out.fragments, vec!["".to_string()]);
    assert!(out.components.is_empty());
    assert_eq!(out.css, "");
}

#[test]
fn lists_are_grouped_by_kind() {
    let nodes = vec![
        Node::Heading { level: 1, title: vec![text("Title")], content: vec![] },
        item(NestableKind::UnorderedList, "a"),
        item(NestableKind::UnorderedList, "b"),
        item(NestableKind::OrderedList, "c"),
    ];
    let out = transform(&nodes, &options(None, FailureMode::Abort)).unwrap();
    assert_eq!(
        out.fragments,
        vec!["<h1 id=\"title\">Title</h1><ul><li>a</li><li>b</li></ul><ol><li>c</li></ol>".to_string()]
    );
}

#[test]
fn lists_under_a_heading_are_grouped() {
    let nodes = vec![Node::Heading {
        level: 1,
        title: vec![text("Title")],
        content: vec![
            item(NestableKind::UnorderedList, "a"),
            item(NestableKind::UnorderedList, "b"),
            item(NestableKind::OrderedList, "c"),
        ],
    }];
    let out = transform(&nodes, &options(None, FailureMode::Abort)).unwrap();
    assert_eq!(
        out.fragments,
        vec!["<h1 id=\"title\">Title</h1>\n<ul><li>a</li><li>b</li></ul><ol><li>c</li></ol>".to_string()]
    );
}

#[test]
fn quote_groups_split_by_other_nodes() {
    let nodes = vec![
        item(NestableKind::Quote, "q1"),
        para("between"),
        item(NestableKind::Quote, "q2"),
        Node::Nestable { kind: NestableKind::Quote, text: FlatNode::Other, extensions: vec![] },
        Node::Nestable { kind: NestableKind::OrderedList, text: FlatNode::Other, extensions: vec![] },
    ];
    let out = transform(&nodes, &options(None, FailureMode::Abort)).unwrap();
    assert_eq!(
        out.fragments,
        vec!["<blockquote><li>q1</li></blockquote><p>between</p><blockquote><li>q2</li></blockquote>"
            .to_string()]
    );
}

#[test]
fn components_split_the_fragments() {
    let nodes = vec![
        para("before"),
        inline(&["svelte"], "<Counter />"),
        para("middle"),
        inline(&["svelte"], "<Clock />"),
    ];
    let out = transform(&nodes, &options(None, FailureMode::Abort)).unwrap();
    assert_eq!(
        out.fragments,
        vec!["<p>before</p>".to_string(), "<p>middle</p>".to_string(), "".to_string()]
    );
    assert_eq!(
        out.components,
        vec![
            InlineComponent { index: 0, framework: "svelte".to_string(), code: "<Counter />".to_string() },
            InlineComponent { index: 1, framework: "svelte".to_string(), code: "<Clock />".to_string() },
        ]
    );
    assert_eq!(out.fragments.len(), out.components.len() + 1);
}

#[test]
fn components_inside_headings_split_too() {
    let nodes = vec![Node::Heading {
        level: 2,
        title: vec![text("Demo")],
        content: vec![inline(&[], "<X />"), para("after")],
    }];
    let out = transform(&nodes, &options(Some("vue"), FailureMode::Abort)).unwrap();
    assert_eq!(
        out.fragments,
        vec!["<h2 id=\"demo\">Demo</h2>\n".to_string(), "<p>after</p>".to_string()]
    );
    assert_eq!(out.components[0].framework, "vue");
}

#[test]
fn css_blocks_are_collected_without_split() {
    let nodes = vec![
        para("a"),
        inline(&["css"], ".a { color: red; }"),
        para("b"),
        inline(&["css"], ".b {}"),
    ];
    let out = transform(&nodes, &options(Some("svelte"), FailureMode::Abort)).unwrap();
    assert_eq!(out.fragments, vec!["<p>a</p><p>b</p>".to_string()]);
    assert!(out.components.is_empty());
    assert_eq!(out.css, ".a { color: red; }\n.b {}\n");
}

#[test]
fn mismatched_framework_aborts() {
    let nodes = vec![inline(&["vue"], "<V />")];
    let err = transform(&nodes, &options(Some("svelte"), FailureMode::Abort)).unwrap_err();
    assert_eq!(
        err,
        TransformError {
            occurrence: 1,
            error: InlineError::FrameworkMismatch {
                framework: "vue".to_string(),
                target: "svelte".to_string()
            }
        }
    );
    assert_eq!(err.message(), "@inline #1: framework vue does not match the target svelte");
}

#[test]
fn missing_and_invalid_frameworks_abort() {
    let err = transform(&vec![inline(&[], "x")], &options(None, FailureMode::Abort)).unwrap_err();
    assert_eq!(err, TransformError { occurrence: 1, error: InlineError::MissingFramework });
    assert_eq!(err.message(), "@inline #1: no framework given");
    let nodes = vec![inline(&["css"], "p {}"), inline(&["angular"], "x")];
    let err = transform(&nodes, &options(None, FailureMode::Abort)).unwrap_err();
    assert_eq!(
        err,
        TransformError {
            occurrence: 2,
            error: InlineError::InvalidFramework { framework: "angular".to_string() }
        }
    );
    assert_eq!(err.message(), "@inline #2: unsupported framework angular");
}

#[test]
fn annotated_failures_leave_an_error_element() {
    let nodes = vec![para("a"), inline(&["vue"], "<V />"), inline(&["<x>"], "y")];
    let out = transform(&nodes, &options(Some("svelte"), FailureMode::Annotate)).unwrap();
    assert_eq!(
        out.fragments,
        vec!["<p>a</p><div class=\"inline-error\">@inline #1: framework vue does not match the target svelte</div>\
<div class=\"inline-error\">@inline #2: unsupported framework &lt;x&gt;</div>"
            .to_string()]
    );
    assert!(out.components.is_empty());
}

#[test]
fn routing_of_inline_blocks() {
    assert_eq!(route_inline(&some("css"), &some("vue")), Ok(InlineRoute::Css));
    assert_eq!(route_inline(&None, &some("css")), Ok(InlineRoute::Css));
    assert_eq!(route_inline(&None, &None), Err(InlineError::MissingFramework));
    assert_eq!(route_inline(&some(""), &some("vue")), Err(InlineError::MissingFramework));
    assert_eq!(
        route_inline(&some("vue"), &some("svelte")),
        Err(InlineError::FrameworkMismatch { framework: "vue".to_string(), target: "svelte".to_string() })
    );
    assert_eq!(
        route_inline(&some("solid"), &None),
        Err(InlineError::InvalidFramework { framework: "solid".to_string() })
    );
    assert_eq!(route_inline(&some("react"), &None), Ok(InlineRoute::Component("react".to_string())));
    assert_eq!(route_inline(&None, &some("vue")), Ok(InlineRoute::Component("vue".to_string())));
    assert_eq!(
        route_inline(&some("svelte"), &some("svelte")),
        Ok(InlineRoute::Component("svelte".to_string()))
    );
}

#[test]
fn other_nodes_render_in_order() {
    let nodes = vec![
        Node::Verbatim {
            name: vec!["document".to_string(), "meta".to_string()],
            parameters: vec![],
            content: "title: T".to_string(),
        },
        Node::Unsupported,
        para("x"),
        Node::Delimiter(vite_plugin_norg_parser::ast::DelimiterKind::HorizontalRule),
        Node::Verbatim {
            name: vec!["image".to_string()],
            parameters: vec!["".to_string()],
            content: "no path".to_string(),
        },
        Node::Paragraph(vec![Segment::Token(Token::Whitespace)]),
    ];
    let out = transform(&nodes, &options(None, FailureMode::Abort)).unwrap();
    assert_eq!(out.fragments, vec!["<p>x</p><hr />".to_string()]);
}

#[test]
fn empty_heading_body_adds_nothing() {
    let nodes = vec![Node::Heading {
        level: 3,
        title: vec![text("Only")],
        content: vec![Node::Paragraph(vec![]), Node::Unsupported],
    }];
    let out = transform(&nodes, &options(None, FailureMode::Abort)).unwrap();
    assert_eq!(out.fragments, vec!["<h3 id=\"only\">Only</h3>".to_string()]);
}

#[test]
fn unsupported_parts_are_reported_in_order() {
    let nodes = vec![
        Node::Unsupported,
        Node::Paragraph(vec![
            text("see"),
            Segment::Link { targets: vec![LinkTarget::Footnote], description: None, filepath: None },
            Segment::Modifier { marker: '`', content: vec![Segment::Unsupported] },
        ]),
        Node::Heading {
            level: 1,
            title: vec![Segment::Unsupported],
            content: vec![Node::Nestable {
                kind: NestableKind::UnorderedList,
                text: FlatNode::Other,
                extensions: vec![],
            }],
        },
    ];
    let out = transform(&nodes, &options(None, FailureMode::Abort)).unwrap();
    assert_eq!(
        out.diagnostics,
        vec![
            Diagnostic::UnsupportedNode,
            Diagnostic::UnsupportedLinkTarget,
            Diagnostic::UnsupportedSegment,
            Diagnostic::MalformedListItem,
        ]
    );
    assert_eq!(out.fragments, vec!["<p>see<code></code></p><h1 id=\"\"></h1>".to_string()]);
}

#[test]
fn heading_renders_title_and_body() {
    let out = heading(
        2,
        &vec![text("Part One")],
        &vec![para("body"), inline(&["react"], "<App />")],
        &options(None, FailureMode::Abort),
    )
    .unwrap();
    assert_eq!(
        out.fragments,
        vec!["<h2 id=\"part-one\">Part One</h2>\n<p>body</p>".to_string(), "".to_string()]
    );
    assert_eq!(out.components.len(), 1);
    assert!(out.diagnostics.is_empty());
}

#[test]
fn heading_body_follows_a_line_break() {
    let nodes = vec![
        Node::Heading {
            level: 1,
            title: vec![text("A")],
            content: vec![
                Node::Heading { level: 2, title: vec![text("B")], content: vec![] },
                Node::Heading { level: 2, title: vec![text("C")], content: vec![para("c")] },
            ],
        },
        para("after"),
    ];
    let out = transform(&nodes, &options(None, FailureMode::Abort)).unwrap();
    assert_eq!(
        out.fragments,
        vec!["<h1 id=\"a\">A</h1>\n<h2 id=\"b\">B</h2><h2 id=\"c\">C</h2>\n<p>c</p><p>after</p>"
            .to_string()]
    );
}
