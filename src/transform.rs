//! The document transform: list grouping, block dispatch and the routing of
//! `@inline` blocks into components, CSS or errors, with the output split into
//! fragments around the components.
//!
//! A refused `@inline` block is handled as `TransformOptions::failure_mode` says:
//! `Abort` fails the whole transform with the block's occurrence number, and
//! `Annotate` leaves a visible error element in its place. The routing itself is
//! the same in both modes.

use crate::ast::{NestableKind, Node, Segment};
use crate::blocks::{
    decimal, delimiter, delimiter_html, flat_body_html, heading_tag, heading_tag_html, is_tag,
    nestable_html, nestable_modifier, paragraph, paragraph_html, push_decimal, rangeable_html,
    rangeable_modifier, tag_is, verbatim_html, verbatim_tag,
};
use crate::diagnostics::{
    collect_diagnostics, nodes_diagnostics, report_nodes, report_segments, segments_diagnostics,
    Diagnostic,
};
use crate::segments::segments_html;
use crate::text::{char_count, escape_html, escaped, same_text};
use vstd::prelude::*;
use vstd::string::*;

verus! {

/// Whether an inline component may target the framework `f`.
pub open spec fn is_supported_framework(f: Seq<char>) -> bool {
    f == "svelte"@ || f == "vue"@ || f == "react"@
}

/// Where an `@inline` block goes, or why it is refused.
pub enum Routing {
    Css,
    Component(Seq<char>),
    MissingFramework,
    InvalidFramework(Seq<char>),
    FrameworkMismatch(Seq<char>, Seq<char>),
}

/// The routing of an `@inline` block from its explicit framework and the configured
/// target: the explicit one wins, then the target, then none.
pub open spec fn routing(explicit: Option<Seq<char>>, target: Option<Seq<char>>) -> Routing {
    let framework = match explicit {
        Some(f) => f,
        None => match target {
            Some(t) => t,
            None => Seq::empty(),
        },
    };
    if framework == "css"@ {
        Routing::Css
    } else if framework.len() == 0 {
        Routing::MissingFramework
    } else if !is_supported_framework(framework) {
        Routing::InvalidFramework(framework)
    } else if target is Some && framework != target->0 {
        Routing::FrameworkMismatch(framework, target->0)
    } else {
        Routing::Component(framework)
    }
}

/// Why an `@inline` block was refused.
#[derive(Debug, Clone, PartialEq, Eq)]
pub enum InlineError {
    MissingFramework,
    InvalidFramework { framework: String },
    FrameworkMismatch { framework: String, target: String },
}

/// Where an accepted `@inline` block goes.
#[derive(Debug, Clone, PartialEq, Eq)]
pub enum InlineRoute {
    Css,
    Component(String),
}

/// The routing that an exec result stands for.
pub open spec fn routing_of(r: Result<InlineRoute, InlineError>) -> Routing {
    match r {
        Ok(InlineRoute::Css) => Routing::Css,
        Ok(InlineRoute::Component(f)) => Routing::Component(f@),
        Err(InlineError::MissingFramework) => Routing::MissingFramework,
        Err(InlineError::InvalidFramework { framework }) => Routing::InvalidFramework(framework@),
        Err(InlineError::FrameworkMismatch { framework, target }) => Routing::FrameworkMismatch(
            framework@,
            target@,
        ),
    }
}

/// The characters of an optional string.
pub open spec fn opt_view(o: Option<String>) -> Option<Seq<char>> {
    match o {
        Some(s) => Some(s@),
        None => None,
    }
}

/// Decides where an `@inline` block goes, from its explicit framework and the
/// configured target framework.
pub fn route_inline(explicit: &Option<String>, target: &Option<String>) -> (r: Result<InlineRoute, InlineError>)
    ensures
        routing_of(r) == routing(opt_view(*explicit), opt_view(*target)),
{
    let framework: String = match explicit {
        Some(f) => f.clone(),
        None => match target {
            Some(t) => t.clone(),
            None => String::new(),
        },
    };
    if same_text(framework.as_str(), "css") {
        return Ok(InlineRoute::Css);
    }
    if char_count(framework.as_str()) == 0 {
        return Err(InlineError::MissingFramework);
    }
    if !(same_text(framework.as_str(), "svelte") || same_text(framework.as_str(), "vue")
        || same_text(framework.as_str(), "react")) {
        return Err(InlineError::InvalidFramework { framework });
    }
    match target {
        Some(t) => {
            if !same_text(framework.as_str(), t.as_str()) {
                return Err(InlineError::FrameworkMismatch { framework, target: t.clone() });
            }
        },
        None => {},
    }
    Ok(InlineRoute::Component(framework))
}

/// What happens to an `@inline` block that is refused.
#[derive(Debug, Clone, Copy, PartialEq, Eq, Structural)]
pub enum FailureMode {
    /// The whole transform fails with the refused block's occurrence number.
    Abort,
    /// An error element takes the block's place and the transform goes on.
    Annotate,
}

/// How a document is transformed.
#[derive(Debug, Clone, PartialEq, Eq)]
pub struct TransformOptions {
    /// The framework that components must target; `None` accepts any supported one.
    pub target_framework: Option<String>,
    pub failure_mode: FailureMode,
}

/// A component taken out of the document; `index` is its position among the components.
#[derive(Debug, Clone, PartialEq, Eq)]
pub struct InlineComponent {
    pub index: usize,
    pub framework: String,
    pub code: String,
}

/// The HTML of a document in fragments, with the components that stand between them,
/// the CSS collected from `@inline css` blocks, and what rendered as nothing for
/// want of support.
#[derive(Debug, Clone, PartialEq, Eq)]
pub struct TransformOutput {
    pub fragments: Vec<String>,
    pub components: Vec<InlineComponent>,
    pub css: String,
    pub diagnostics: Vec<Diagnostic>,
}

/// A refused `@inline` block that aborted the transform; `occurrence` counts the
/// `@inline` blocks of the document from 1.
#[derive(Debug, Clone, PartialEq, Eq)]
pub struct TransformError {
    pub occurrence: usize,
    pub error: InlineError,
}

/// The state of a traversal: the HTML since the last component, the finished
/// fragments, the components (framework and code), the CSS, the number of
/// `@inline` blocks met, the list or quote group still open with its items, and
/// whether a line break is owed before the next output (after a heading's element).
pub struct RenderState {
    pub buffer: Seq<char>,
    pub fragments: Seq<Seq<char>>,
    pub components: Seq<(Seq<char>, Seq<char>)>,
    pub css: Seq<char>,
    pub seen: nat,
    pub group: Option<NestableKind>,
    pub items: Seq<char>,
    pub pending_break: bool,
}

/// The state before the first node: nothing written, no group open.
pub open spec fn initial_state() -> RenderState {
    RenderState {
        buffer: Seq::empty(),
        fragments: Seq::empty(),
        components: Seq::empty(),
        css: Seq::empty(),
        seen: 0,
        group: None,
        items: Seq::empty(),
        pending_break: false,
    }
}

/// `st` with the owed line break, if any, written to the current fragment.
pub open spec fn flush(st: RenderState) -> RenderState {
    if st.pending_break {
        RenderState { buffer: st.buffer + "\n"@, pending_break: false, ..st }
    } else {
        st
    }
}

/// `st` with `html` added to the current fragment, after the owed line break.
pub open spec fn emit(st: RenderState, html: Seq<char>) -> RenderState {
    RenderState { buffer: flush(st).buffer + html, ..flush(st) }
}

/// `st` after a heading's element: a line break is owed to its body, should the
/// body write anything.
pub open spec fn open_heading(st: RenderState, heading: Seq<char>) -> RenderState {
    RenderState { pending_break: true, ..emit(st, heading) }
}

/// The element that wraps a group of items of one kind.
pub open spec fn group_tag(kind: NestableKind) -> Seq<char> {
    match kind {
        NestableKind::UnorderedList => "ul"@,
        NestableKind::OrderedList => "ol"@,
        NestableKind::Quote => "blockquote"@,
    }
}

/// A group of items in its list or quote element.
pub open spec fn group_html(kind: NestableKind, items: Seq<char>) -> Seq<char> {
    "<"@ + group_tag(kind) + ">"@ + items + "</"@ + group_tag(kind) + ">"@
}

/// `st` with its open group, if any, written out; a group with no items writes nothing.
pub open spec fn close_group(st: RenderState) -> RenderState {
    match st.group {
        None => st,
        Some(kind) => {
            let closed = RenderState { group: None, items: Seq::empty(), ..st };
            if st.items.len() == 0 {
                closed
            } else {
                emit(closed, group_html(kind, st.items))
            }
        },
    }
}

/// `st` after an item of kind `kind`: it joins the open group of that kind, or
/// closes the open group and starts a new one.
pub open spec fn add_item(st: RenderState, kind: NestableKind, item: Option<Seq<char>>) -> RenderState {
    let st1 = if st.group == Some(kind) {
        st
    } else {
        RenderState { group: Some(kind), items: Seq::empty(), ..close_group(st) }
    };
    match item {
        Some(i) => RenderState { items: st1.items + i, ..st1 },
        None => st1,
    }
}

/// One more `@inline` block met; the count stops at the largest `usize`.
pub open spec fn count_one(seen: nat) -> nat {
    if seen < usize::MAX {
        seen + 1
    } else {
        seen
    }
}

/// Why a refused `@inline` block was refused, in words.
pub open spec fn failure_reason(r: Routing) -> Seq<char> {
    match r {
        Routing::InvalidFramework(f) => "unsupported framework "@ + f,
        Routing::FrameworkMismatch(f, t) => "framework "@ + f + " does not match the target "@ + t,
        _ => "no framework given"@,
    }
}

/// The message for the `occurrence`-th `@inline` block, refused for `r`.
pub open spec fn failure_message(occurrence: nat, r: Routing) -> Seq<char> {
    "@inline #"@ + decimal(occurrence) + ": "@ + failure_reason(r)
}

/// The element that takes the place of a refused block when failures are annotated.
pub open spec fn failure_html(occurrence: nat, r: Routing) -> Seq<char> {
    "<div class=\"inline-error\">"@ + escaped(failure_message(occurrence, r)) + "</div>"@
}

/// The configured target framework.
pub open spec fn target_of(options: TransformOptions) -> Option<Seq<char>> {
    opt_view(options.target_framework)
}

/// The framework that an `@inline` block names: its first parameter, if any.
pub open spec fn explicit_framework(parameters: Seq<String>) -> Option<Seq<char>> {
    if parameters.len() > 0 {
        Some(parameters[0]@)
    } else {
        None
    }
}

/// `st` after an `@inline` block: CSS is collected, a component closes the current
/// fragment and is added, and a refusal aborts or leaves an error element.
pub open spec fn inline_step(
    options: TransformOptions,
    st: RenderState,
    parameters: Seq<String>,
    content: Seq<char>,
) -> Result<RenderState, (nat, Routing)> {
    let n = count_one(st.seen);
    let st1 = RenderState { seen: n, ..st };
    let r = routing(explicit_framework(parameters), target_of(options));
    match r {
        Routing::Css => Ok(RenderState { css: st1.css + content + "\n"@, ..st1 }),
        Routing::Component(f) => {
            let st2 = flush(st1);
            Ok(
                RenderState {
                    fragments: st2.fragments.push(st2.buffer),
                    buffer: Seq::empty(),
                    components: st2.components.push((f, content)),
                    ..st2
                },
            )
        },
        _ => if options.failure_mode == FailureMode::Abort {
            Err((n, r))
        } else {
            Ok(emit(st1, failure_html(n, r)))
        },
    }
}

/// `st` after one node.
pub open spec fn render_node(options: TransformOptions, st: RenderState, node: Node) -> Result<RenderState, (nat, Routing)>
    decreases node,
{
    match node {
        Node::Nestable { kind, text, extensions } => Ok(
            add_item(st, kind, nestable_html(text, extensions@)),
        ),
        Node::Heading { level, title, content } => match render_nodes(
            options,
            open_heading(close_group(st), heading_tag_html(level, segments_html(title@))),
            content@,
        ) {
            Ok(st2) => Ok(RenderState { pending_break: false, ..st2 }),
            Err(e) => Err(e),
        },
        Node::Paragraph(segments) => Ok(
            match paragraph_html(segments@) {
                Some(p) => emit(close_group(st), p),
                None => close_group(st),
            },
        ),
        Node::Rangeable { kind, title, content } => Ok(
            emit(close_group(st), rangeable_html(kind, segments_html(title@), flat_body_html(content@))),
        ),
        Node::Verbatim { name, parameters, content } => if is_tag(name@, "inline"@) {
            inline_step(options, close_group(st), parameters@, content@)
        } else {
            Ok(
                match verbatim_html(name@, parameters@, content@) {
                    Some(h) => emit(close_group(st), h),
                    None => close_group(st),
                },
            )
        },
        Node::Delimiter(kind) => Ok(emit(close_group(st), delimiter_html(kind))),
        Node::Unsupported => Ok(close_group(st)),
    }
}

/// `st` after a sequence of sibling nodes; the group open at the end is closed.
pub open spec fn render_nodes(options: TransformOptions, st: RenderState, nodes: Seq<Node>) -> Result<RenderState, (nat, Routing)>
    decreases nodes,
{
    if nodes.len() == 0 {
        Ok(close_group(st))
    } else {
        match render_node(options, st, nodes[0]) {
            Ok(st1) => render_nodes(options, st1, nodes.skip(1)),
            Err(e) => Err(e),
        }
    }
}

/// An `@inline` block routed to CSS only adds its text, and a line break, to the
/// collected CSS: the current fragment, the fragments and the components stay as they were.
pub proof fn lemma_css_blocks_do_not_split(
    options: TransformOptions,
    st: RenderState,
    parameters: Seq<String>,
    content: Seq<char>,
)
    requires
        routing(explicit_framework(parameters), target_of(options)) is Css,
    ensures
        inline_step(options, st, parameters, content) == Ok::<RenderState, (nat, Routing)>(
            RenderState { css: st.css + content + "\n"@, seen: count_one(st.seen), ..st },
        ),
{
}

/// Whether every `@inline` block in a node, at any depth, is routed to CSS.
pub open spec fn node_inline_css_only(options: TransformOptions, node: Node) -> bool
    decreases node,
{
    match node {
        Node::Verbatim { name, parameters, .. } => is_tag(name@, "inline"@) ==> routing(
            explicit_framework(parameters@),
            target_of(options),
        ) is Css,
        Node::Heading { content, .. } => nodes_inline_css_only(options, content@),
        _ => true,
    }
}

/// Whether every `@inline` block in a sequence of nodes, at any depth, is routed to CSS.
pub open spec fn nodes_inline_css_only(options: TransformOptions, nodes: Seq<Node>) -> bool
    decreases nodes,
{
    nodes.len() == 0 || (node_inline_css_only(options, nodes[0]) && nodes_inline_css_only(
        options,
        nodes.skip(1),
    ))
}

proof fn lemma_node_css_only(options: TransformOptions, st: RenderState, node: Node)
    requires
        node_inline_css_only(options, node),
    ensures
        render_node(options, st, node) is Ok,
        render_node(options, st, node)->Ok_0.fragments == st.fragments,
        render_node(options, st, node)->Ok_0.components == st.components,
    decreases node,
{
    match node {
        Node::Heading { level, title, content } => {
            lemma_nodes_css_only(
                options,
                open_heading(close_group(st), heading_tag_html(level, segments_html(title@))),
                content@,
            );
        },
        _ => {},
    }
}

proof fn lemma_nodes_css_only(options: TransformOptions, st: RenderState, nodes: Seq<Node>)
    requires
        nodes_inline_css_only(options, nodes),
    ensures
        render_nodes(options, st, nodes) is Ok,
        render_nodes(options, st, nodes)->Ok_0.fragments == st.fragments,
        render_nodes(options, st, nodes)->Ok_0.components == st.components,
    decreases nodes,
{
    if nodes.len() > 0 {
        lemma_node_css_only(options, st, nodes[0]);
        let st1 = render_node(options, st, nodes[0])->Ok_0;
        lemma_nodes_css_only(options, st1, nodes.skip(1));
    }
}

/// A document whose `@inline` blocks, at any depth, all go to CSS renders without
/// failing, as one fragment and no component.
pub proof fn lemma_css_only_document_is_one_fragment(options: TransformOptions, nodes: Seq<Node>)
    requires
        nodes_inline_css_only(options, nodes),
    ensures
        render_document(options, nodes) is Ok,
        render_document(options, nodes)->Ok_0.0.len() == 1,
        render_document(options, nodes)->Ok_0.1.len() == 0,
{
    lemma_nodes_css_only(options, initial_state(), nodes);
}

/// The HTML, components and CSS of a whole document, or the refusal that aborted it.
pub open spec fn render_document(options: TransformOptions, nodes: Seq<Node>) -> Result<
    (Seq<Seq<char>>, Seq<(Seq<char>, Seq<char>)>, Seq<char>),
    (nat, Routing),
> {
    match render_nodes(options, initial_state(), nodes) {
        Ok(st) => Ok((st.fragments.push(st.buffer), st.components, st.css)),
        Err(e) => Err(e),
    }
}

/// The characters of each fragment.
pub open spec fn fragments_view(v: Seq<String>) -> Seq<Seq<char>> {
    v.map_values(|f: String| f@)
}

/// Each component as its framework and its code.
pub open spec fn components_view(v: Seq<InlineComponent>) -> Seq<(Seq<char>, Seq<char>)> {
    v.map_values(|c: InlineComponent| (c.framework@, c.code@))
}

/// Each component's index is its position.
pub open spec fn indexed(v: Seq<InlineComponent>) -> bool {
    forall|i: int| 0 <= i < v.len() ==> (#[trigger] v[i]).index == i
}

/// Whether an exec error stands for the refusal `e`.
pub open spec fn error_is(err: TransformError, e: (nat, Routing)) -> bool {
    err.occurrence == e.0 && routing_of(Err(err.error)) == e.1
}

/// As many finished fragments as components.
pub open spec fn balanced(st: RenderState) -> bool {
    st.fragments.len() == st.components.len()
}

/// Whether a step that succeeded left a balanced state.
pub open spec fn ends_balanced(r: Result<RenderState, (nat, Routing)>) -> bool {
    match r {
        Ok(st) => balanced(st),
        Err(_) => true,
    }
}

proof fn lemma_node_balanced(options: TransformOptions, st: RenderState, node: Node)
    requires
        balanced(st),
    ensures
        ends_balanced(render_node(options, st, node)),
    decreases node,
{
    match node {
        Node::Heading { level, title, content } => {
            lemma_nodes_balanced(
                options,
                open_heading(close_group(st), heading_tag_html(level, segments_html(title@))),
                content@,
            );
        },
        _ => {},
    }
}

proof fn lemma_nodes_balanced(options: TransformOptions, st: RenderState, nodes: Seq<Node>)
    requires
        balanced(st),
    ensures
        ends_balanced(render_nodes(options, st, nodes)),
    decreases nodes,
{
    if nodes.len() > 0 {
        lemma_node_balanced(options, st, nodes[0]);
        match render_node(options, st, nodes[0]) {
            Ok(st1) => lemma_nodes_balanced(options, st1, nodes.skip(1)),
            Err(_) => {},
        }
    }
}

/// A transformed document has exactly one fragment more than it has components:
/// the fragments and components alternate, starting and ending with a fragment.
pub proof fn lemma_fragments_surround_components(options: TransformOptions, nodes: Seq<Node>)
    ensures
        match render_document(options, nodes) {
            Ok((fragments, components, _)) => fragments.len() == components.len() + 1,
            Err(_) => true,
        },
{
    lemma_nodes_balanced(options, initial_state(), nodes);
}

/// The traversal's accumulator.
struct Accumulator {
    buffer: String,
    fragments: Vec<String>,
    components: Vec<InlineComponent>,
    css: String,
    seen: usize,
    group: Option<NestableKind>,
    items: String,
    pending_break: bool,
}

impl Accumulator {
    spec fn state(&self) -> RenderState {
        RenderState {
            buffer: self.buffer@,
            fragments: fragments_view(self.fragments@),
            components: components_view(self.components@),
            css: self.css@,
            seen: self.seen as nat,
            group: self.group,
            items: self.items@,
            pending_break: self.pending_break,
        }
    }

    spec fn wf(&self) -> bool {
        indexed(self.components@)
    }
}

/// Whether an exec step agrees with the spec step: the same state, or the same refusal.
spec fn agrees(r: Result<(), TransformError>, acc: Accumulator, expected: Result<RenderState, (nat, Routing)>) -> bool {
    match expected {
        Ok(st) => r is Ok && acc.state() == st && acc.wf(),
        Err(e) => match r {
            Ok(_) => false,
            Err(err) => error_is(err, e),
        },
    }
}

fn emit_html(acc: &mut Accumulator, html: &str)
    requires
        old(acc).wf(),
    ensures
        final(acc).state() == emit(old(acc).state(), html@),
        final(acc).wf(),
{
    write_break(acc);
    acc.buffer.append(html);
}

fn write_break(acc: &mut Accumulator)
    requires
        old(acc).wf(),
    ensures
        final(acc).state() == flush(old(acc).state()),
        final(acc).wf(),
{
    if acc.pending_break {
        acc.buffer.append("\n");
        acc.pending_break = false;
    }
}

fn close_open_group(acc: &mut Accumulator)
    requires
        old(acc).wf(),
    ensures
        final(acc).state() == close_group(old(acc).state()),
        final(acc).wf(),
{
    match acc.group {
        None => {},
        Some(kind) => {
            if char_count(acc.items.as_str()) > 0 {
                let tag = match kind {
                    NestableKind::UnorderedList => "ul",
                    NestableKind::OrderedList => "ol",
                    NestableKind::Quote => "blockquote",
                };
                let mut html = String::from_str("<");
                html.append(tag);
                html.append(">");
                html.append(acc.items.as_str());
                html.append("</");
                html.append(tag);
                html.append(">");
                emit_html(acc, html.as_str());
            }
            acc.group = None;
            acc.items = String::new();
        },
    }
}

fn add_group_item(acc: &mut Accumulator, kind: NestableKind, item: Option<String>)
    requires
        old(acc).wf(),
    ensures
        final(acc).state() == add_item(old(acc).state(), kind, opt_view(item)),
        final(acc).wf(),
{
    let same = match acc.group {
        Some(k) => k == kind,
        None => false,
    };
    if !same {
        close_open_group(acc);
        acc.group = Some(kind);
        acc.items = String::new();
    }
    match item {
        Some(i) => acc.items.append(i.as_str()),
        None => {},
    }
}

fn failure_text(occurrence: usize, error: &InlineError) -> (r: String)
    ensures
        r@ == failure_message(occurrence as nat, routing_of(Err(*error))),
{
    let mut r = String::from_str("@inline #");
    push_decimal(&mut r, occurrence);
    r.append(": ");
    match error {
        InlineError::MissingFramework => r.append("no framework given"),
        InlineError::InvalidFramework { framework } => {
            r.append("unsupported framework ");
            r.append(framework.as_str());
        },
        InlineError::FrameworkMismatch { framework, target } => {
            r.append("framework ");
            r.append(framework.as_str());
            r.append(" does not match the target ");
            r.append(target.as_str());
        },
    }
    r
}

impl TransformError {
    /// A readable description of the refusal.
    pub fn message(&self) -> (r: String)
        ensures
            r@ == failure_message(self.occurrence as nat, routing_of(Err(self.error))),
    {
        failure_text(self.occurrence, &self.error)
    }
}

/// Handles an `@inline` block.
fn inline_block(options: &TransformOptions, acc: &mut Accumulator, parameters: &Vec<String>, content: &String) -> (r: Result<(), TransformError>)
    requires
        old(acc).wf(),
    ensures
        agrees(r, *final(acc), inline_step(*options, old(acc).state(), parameters@, content@)),
{
    acc.seen = if acc.seen < usize::MAX {
        acc.seen + 1
    } else {
        acc.seen
    };
    let explicit = if parameters.len() > 0 {
        Some(parameters[0].clone())
    } else {
        None
    };
    let route = route_inline(&explicit, &options.target_framework);
    match route {
        Ok(InlineRoute::Css) => {
            acc.css.append(content.as_str());
            acc.css.append("\n");
            Ok(())
        },
        Ok(InlineRoute::Component(framework)) => {
            write_break(acc);
            let ghost before = acc.fragments@;
            let ghost comps = acc.components@;
            let mut fragment = String::new();
            std::mem::swap(&mut fragment, &mut acc.buffer);
            acc.fragments.push(fragment);
            let index = acc.components.len();
            acc.components.push(InlineComponent { index, framework, code: content.clone() });
            proof {
                assert(fragments_view(acc.fragments@) =~= fragments_view(before).push(fragment@));
                assert(components_view(acc.components@) =~= components_view(comps).push(
                    (framework@, content@),
                ));
                assert forall|i: int| 0 <= i < acc.components@.len() implies (
                #[trigger] acc.components@[i]).index == i by {
                    if i < comps.len() {
                        assert(acc.components@[i] == comps[i]);
                    }
                }
            }
            Ok(())
        },
        Err(error) => {
            if options.failure_mode == FailureMode::Abort {
                Err(TransformError { occurrence: acc.seen, error })
            } else {
                let message = failure_text(acc.seen, &error);
                let escaped_message = escape_html(message.as_str());
                let mut html = String::from_str("<div class=\"inline-error\">");
                html.append(escaped_message.as_str());
                html.append("</div>");
                emit_html(acc, html.as_str());
                    Ok(())
            }
        },
    }
}

/// Renders one node into the accumulator.
fn render_one(options: &TransformOptions, acc: &mut Accumulator, node: &Node) -> (r: Result<(), TransformError>)
    requires
        old(acc).wf(),
    ensures
        agrees(r, *final(acc), render_node(*options, old(acc).state(), *node)),
    decreases *node,
{
    match node {
        Node::Nestable { kind, text, extensions } => {
            let item = nestable_modifier(text, extensions);
            add_group_item(acc, *kind, item);
            Ok(())
        },
        Node::Heading { level, title, content } => {
            close_open_group(acc);
            let h = heading_tag(*level, title);
            emit_html(acc, h.as_str());
            acc.pending_break = true;
            let r = render_all(options, acc, content);
            acc.pending_break = false;
            r
        },
        Node::Paragraph(segments) => {
            close_open_group(acc);
            if let Some(p) = paragraph(segments) {
                emit_html(acc, p.as_str());
            }
            Ok(())
        },
        Node::Rangeable { kind, title, content } => {
            close_open_group(acc);
            let h = rangeable_modifier(kind, title, content);
            emit_html(acc, h.as_str());
            Ok(())
        },
        Node::Verbatim { name, parameters, content } => {
            close_open_group(acc);
            if tag_is(name, "inline") {
                inline_block(options, acc, parameters, content)
            } else {
                if let Some(h) = verbatim_tag(name, parameters, content.as_str()) {
                    emit_html(acc, h.as_str());
                }
                Ok(())
            }
        },
        Node::Delimiter(kind) => {
            close_open_group(acc);
            let h = delimiter(kind);
            emit_html(acc, h.as_str());
            Ok(())
        },
        Node::Unsupported => {
            close_open_group(acc);
            Ok(())
        },
    }
}

/// Renders a sequence of sibling nodes into the accumulator, grouping consecutive
/// list or quote items of one kind.
fn render_all(options: &TransformOptions, acc: &mut Accumulator, nodes: &Vec<Node>) -> (r: Result<(), TransformError>)
    requires
        old(acc).wf(),
    ensures
        agrees(r, *final(acc), render_nodes(*options, old(acc).state(), nodes@)),
    decreases nodes@,
{
    let ghost expected = render_nodes(*options, acc.state(), nodes@);
    let mut i: usize = 0;
    assert(nodes@.skip(0) == nodes@);
    while i < nodes.len()
        invariant
            i <= nodes@.len(),
            acc.wf(),
            expected == render_nodes(*options, acc.state(), nodes@.skip(i as int)),
            expected == render_nodes(*options, old(acc).state(), nodes@),
        decreases nodes.len() - i,
    {
        proof {
            vstd::seq::axiom_seq_index_decreases(nodes@, i as int);
            assert(nodes@.skip(i as int)[0] == nodes@[i as int]);
            assert(nodes@.skip(i as int).skip(1) == nodes@.skip(i + 1));
        }
        let ghost st = acc.state();
        let r = render_one(options, acc, &nodes[i]);
        if r.is_err() {
            assert(render_node(*options, st, nodes@[i as int]) is Err);
            assert(nodes@.skip(i as int).len() > 0);
            assert(expected == render_node(*options, st, nodes@[i as int]));
            return r;
        }
        i = i + 1;
    }
    close_open_group(acc);
    Ok(())
}

/// Renders a heading and the nodes under it, as `transform` renders a document that
/// holds only that heading.
pub fn heading(level: u16, title: &Vec<Segment>, content: &Vec<Node>, options: &TransformOptions) -> (r: Result<TransformOutput, TransformError>)
    ensures
        match render_nodes(
            *options,
            open_heading(initial_state(), heading_tag_html(level, segments_html(title@))),
            content@,
        ) {
            Ok(st) => match r {
                Ok(out) => fragments_view(out.fragments@) == st.fragments.push(st.buffer)
                    && components_view(out.components@) == st.components && out.css@ == st.css
                    && indexed(out.components@) && out.diagnostics@ == segments_diagnostics(title@)
                    + nodes_diagnostics(content@),
                Err(_) => false,
            },
            Err(e) => match r {
                Ok(_) => false,
                Err(err) => error_is(err, e),
            },
        },
{
    let mut acc = Accumulator {
        buffer: String::new(),
        fragments: Vec::new(),
        components: Vec::new(),
        css: String::new(),
        seen: 0,
        group: None,
        items: String::new(),
        pending_break: false,
    };
    assert(fragments_view(acc.fragments@) =~= Seq::<Seq<char>>::empty());
    assert(components_view(acc.components@) =~= Seq::<(Seq<char>, Seq<char>)>::empty());
    assert(acc.state() =~= initial_state());
    let h = heading_tag(level, title);
    emit_html(&mut acc, h.as_str());
    acc.pending_break = true;
    match render_all(options, &mut acc, content) {
        Err(e) => Err(e),
        Ok(()) => {
            let mut diagnostics = Vec::new();
            report_segments(title, &mut diagnostics);
            report_nodes(content, &mut diagnostics);
            assert(diagnostics@ =~= segments_diagnostics(title@) + nodes_diagnostics(content@));
            Ok(finish(acc, diagnostics))
        },
    }
}

/// The output of a finished traversal: the current fragment closes the list.
fn finish(acc: Accumulator, diagnostics: Vec<Diagnostic>) -> (out: TransformOutput)
    requires
        acc.wf(),
    ensures
        out.diagnostics == diagnostics,
        fragments_view(out.fragments@) == acc.state().fragments.push(acc.state().buffer),
        components_view(out.components@) == acc.state().components,
        out.css@ == acc.state().css,
        indexed(out.components@),
{
    let ghost before = acc.fragments@;
    let Accumulator { buffer, mut fragments, components, css, .. } = acc;
    fragments.push(buffer);
    assert(fragments_view(fragments@) =~= fragments_view(before).push(buffer@));
    TransformOutput { fragments, components, css, diagnostics }
}

/// Renders a document: its HTML in fragments, split where an `@inline` component was
/// taken out, the components in order, and the CSS of its `@inline css` blocks.
/// Fails only when `options` ask to abort on a refused `@inline` block.
pub fn transform(nodes: &Vec<Node>, options: &TransformOptions) -> (r: Result<TransformOutput, TransformError>)
    ensures
        match render_document(*options, nodes@) {
            Ok((fragments, components, css)) => match r {
                Ok(out) => fragments_view(out.fragments@) == fragments && components_view(
                    out.components@,
                ) == components && out.css@ == css && indexed(out.components@)
                    && out.fragments@.len() == out.components@.len() + 1
                    && out.diagnostics@ == nodes_diagnostics(nodes@),
                Err(_) => false,
            },
            Err(e) => match r {
                Ok(_) => false,
                Err(err) => error_is(err, e),
            },
        },
{
    let mut acc = Accumulator {
        buffer: String::new(),
        fragments: Vec::new(),
        components: Vec::new(),
        css: String::new(),
        seen: 0,
        group: None,
        items: String::new(),
        pending_break: false,
    };
    assert(fragments_view(acc.fragments@) =~= Seq::<Seq<char>>::empty());
    assert(components_view(acc.components@) =~= Seq::<(Seq<char>, Seq<char>)>::empty());
    assert(acc.state() =~= initial_state());
    proof {
        lemma_fragments_surround_components(*options, nodes@);
    }
    match render_all(options, &mut acc, nodes) {
        Err(e) => Err(e),
        Ok(()) => Ok(finish(acc, collect_diagnostics(nodes))),
    }
}

} // verus!
