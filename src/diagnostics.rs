//! Diagnostics: the parts of a document that render as nothing because the
//! renderer does not support them, listed in document order.

use crate::ast::{FlatNode, LinkTarget, Node, Segment};
use vstd::prelude::*;

verus! {

/// Why a part of the document renders as nothing.
#[derive(Debug, Clone, Copy, PartialEq, Eq, Structural)]
pub enum Diagnostic {
    /// A tag kind without a renderer.
    UnsupportedNode,
    /// An inline segment kind without a renderer.
    UnsupportedSegment,
    /// A link whose target kind is not rendered.
    UnsupportedLinkTarget,
    /// A list or quote item whose text is not a paragraph.
    MalformedListItem,
}

/// The diagnostics of one segment, in order. Inline code keeps only its tokens,
/// so nothing nested in it is reported.
pub open spec fn segment_diagnostics(seg: Segment) -> Seq<Diagnostic>
    decreases seg,
{
    match seg {
        Segment::Modifier { marker, content } => if marker == '`' {
            Seq::empty()
        } else {
            segments_diagnostics(content@)
        },
        Segment::Link { targets, description, .. } => {
            let from_description = match description {
                Some(d) => segments_diagnostics(d@),
                None => Seq::empty(),
            };
            from_description + target_diagnostics(targets@)
        },
        Segment::Anchor { content } => segments_diagnostics(content@),
        Segment::Unsupported => seq![Diagnostic::UnsupportedSegment],
        _ => Seq::empty(),
    }
}

/// The diagnostics of a sequence of segments, in order.
pub open spec fn segments_diagnostics(s: Seq<Segment>) -> Seq<Diagnostic>
    decreases s,
{
    if s.len() == 0 {
        Seq::empty()
    } else {
        segments_diagnostics(s.drop_last()) + segment_diagnostics(s.last())
    }
}

/// The diagnostics of the body of a rangeable block; lines that are not
/// paragraphs are left out by design and not reported.
pub open spec fn flat_diagnostics(s: Seq<FlatNode>) -> Seq<Diagnostic>
    decreases s.len(),
{
    if s.len() == 0 {
        Seq::empty()
    } else {
        flat_diagnostics(s.drop_last()) + match s.last() {
            FlatNode::Paragraph(segments) => segments_diagnostics(segments@),
            FlatNode::Other => Seq::empty(),
        }
    }
}

/// The diagnostics of one node and the nodes under it, in order.
pub open spec fn node_diagnostics(node: Node) -> Seq<Diagnostic>
    decreases node,
{
    match node {
        Node::Heading { title, content, .. } => segments_diagnostics(title@) + nodes_diagnostics(
            content@,
        ),
        Node::Paragraph(segments) => segments_diagnostics(segments@),
        Node::Nestable { text, .. } => match text {
            FlatNode::Paragraph(segments) => segments_diagnostics(segments@),
            FlatNode::Other => seq![Diagnostic::MalformedListItem],
        },
        Node::Rangeable { title, content, .. } => segments_diagnostics(title@) + flat_diagnostics(
            content@,
        ),
        Node::Unsupported => seq![Diagnostic::UnsupportedNode],
        _ => Seq::empty(),
    }
}

/// The diagnostics of a sequence of nodes, in order.
pub open spec fn nodes_diagnostics(nodes: Seq<Node>) -> Seq<Diagnostic>
    decreases nodes,
{
    if nodes.len() == 0 {
        Seq::empty()
    } else {
        nodes_diagnostics(nodes.drop_last()) + node_diagnostics(nodes.last())
    }
}

pub(crate) fn report_segments(segments: &Vec<Segment>, out: &mut Vec<Diagnostic>)
    ensures
        final(out)@ == old(out)@ + segments_diagnostics(segments@),
    decreases segments@, 0nat,
{
    let mut i: usize = 0;
    assert(segments@.take(0) =~= Seq::<Segment>::empty());
    assert(old(out)@ + Seq::<Diagnostic>::empty() =~= old(out)@);
    while i < segments.len()
        invariant
            i <= segments@.len(),
            out@ == old(out)@ + segments_diagnostics(segments@.take(i as int)),
        decreases segments.len() - i,
    {
        proof {
            vstd::seq::axiom_seq_index_decreases(segments@, i as int);
            assert(segments@.take(i + 1).drop_last() == segments@.take(i as int));
            assert(segments@.take(i + 1).last() == segments@[i as int]);
        }
        let ghost before = out@;
        report_segment(&segments[i], out);
        assert(out@ =~= old(out)@ + segments_diagnostics(segments@.take(i + 1)));
        i = i + 1;
    }
    assert(segments@.take(segments@.len() as int) == segments@);
}

fn report_segment(segment: &Segment, out: &mut Vec<Diagnostic>)
    ensures
        final(out)@ == old(out)@ + segment_diagnostics(*segment),
    decreases *segment, 0nat,
{
    match segment {
        Segment::Modifier { marker, content } => {
            if *marker != '`' {
                report_segments(content, out);
            } else {
                assert(old(out)@ + Seq::<Diagnostic>::empty() =~= old(out)@);
            }
        },
        Segment::Link { targets, description, .. } => {
            match description {
                Some(d) => report_segments(d, out),
                None => {
                    assert(old(out)@ + Seq::<Diagnostic>::empty() =~= old(out)@);
                },
            }
            report_link_target(targets, out);
            assert(out@ =~= old(out)@ + segment_diagnostics(*segment));
        },
        Segment::Anchor { content } => report_segments(content, out),
        Segment::Unsupported => {
            out.push(Diagnostic::UnsupportedSegment);
            assert(out@ =~= old(out)@ + seq![Diagnostic::UnsupportedSegment]);
        },
        _ => {
            assert(old(out)@ + Seq::<Diagnostic>::empty() =~= old(out)@);
        },
    }
}

/// The diagnostics that a link's targets add: those of a heading target's title,
/// or one for a target kind that is not rendered.
pub open spec fn target_diagnostics(targets: Seq<LinkTarget>) -> Seq<Diagnostic>
    decreases targets,
{
    if targets.len() == 0 {
        Seq::empty()
    } else {
        match targets[0] {
            LinkTarget::Url(_) => Seq::empty(),
            LinkTarget::Heading { title } => segments_diagnostics(title@),
            _ => seq![Diagnostic::UnsupportedLinkTarget],
        }
    }
}

fn report_link_target(targets: &Vec<LinkTarget>, out: &mut Vec<Diagnostic>)
    ensures
        final(out)@ == old(out)@ + target_diagnostics(targets@),
    decreases targets@, 1nat,
{
    if targets.len() == 0 {
        assert(old(out)@ + Seq::<Diagnostic>::empty() =~= old(out)@);
        return;
    }
    proof {
        vstd::seq::axiom_seq_index_decreases(targets@, 0);
    }
    match &targets[0] {
        LinkTarget::Url(_) => {
            assert(old(out)@ + Seq::<Diagnostic>::empty() =~= old(out)@);
        },
        LinkTarget::Heading { title } => report_segments(title, out),
        _ => {
            out.push(Diagnostic::UnsupportedLinkTarget);
            assert(out@ =~= old(out)@ + seq![Diagnostic::UnsupportedLinkTarget]);
        },
    }
}

fn report_flat(nodes: &Vec<FlatNode>, out: &mut Vec<Diagnostic>)
    ensures
        final(out)@ == old(out)@ + flat_diagnostics(nodes@),
{
    let mut i: usize = 0;
    assert(nodes@.take(0) =~= Seq::<FlatNode>::empty());
    assert(old(out)@ + Seq::<Diagnostic>::empty() =~= old(out)@);
    while i < nodes.len()
        invariant
            i <= nodes@.len(),
            out@ == old(out)@ + flat_diagnostics(nodes@.take(i as int)),
        decreases nodes.len() - i,
    {
        assert(nodes@.take(i + 1).drop_last() == nodes@.take(i as int));
        assert(nodes@.take(i + 1).last() == nodes@[i as int]);
        match &nodes[i] {
            FlatNode::Paragraph(segments) => report_segments(segments, out),
            FlatNode::Other => {},
        }
        assert(out@ =~= old(out)@ + flat_diagnostics(nodes@.take(i + 1)));
        i = i + 1;
    }
    assert(nodes@.take(nodes@.len() as int) == nodes@);
}

fn report_node(node: &Node, out: &mut Vec<Diagnostic>)
    ensures
        final(out)@ == old(out)@ + node_diagnostics(*node),
    decreases *node,
{
    match node {
        Node::Heading { title, content, .. } => {
            report_segments(title, out);
            report_nodes(content, out);
            assert(out@ =~= old(out)@ + node_diagnostics(*node));
        },
        Node::Paragraph(segments) => report_segments(segments, out),
        Node::Nestable { text, .. } => match text {
            FlatNode::Paragraph(segments) => report_segments(segments, out),
            FlatNode::Other => {
                out.push(Diagnostic::MalformedListItem);
                assert(out@ =~= old(out)@ + seq![Diagnostic::MalformedListItem]);
            },
        },
        Node::Rangeable { title, content, .. } => {
            report_segments(title, out);
            report_flat(content, out);
            assert(out@ =~= old(out)@ + node_diagnostics(*node));
        },
        Node::Unsupported => {
            out.push(Diagnostic::UnsupportedNode);
            assert(out@ =~= old(out)@ + seq![Diagnostic::UnsupportedNode]);
        },
        _ => {
            assert(old(out)@ + Seq::<Diagnostic>::empty() =~= old(out)@);
        },
    }
}

pub(crate) fn report_nodes(nodes: &Vec<Node>, out: &mut Vec<Diagnostic>)
    ensures
        final(out)@ == old(out)@ + nodes_diagnostics(nodes@),
    decreases nodes@,
{
    let mut i: usize = 0;
    assert(nodes@.take(0) =~= Seq::<Node>::empty());
    assert(old(out)@ + Seq::<Diagnostic>::empty() =~= old(out)@);
    while i < nodes.len()
        invariant
            i <= nodes@.len(),
            out@ == old(out)@ + nodes_diagnostics(nodes@.take(i as int)),
        decreases nodes.len() - i,
    {
        proof {
            vstd::seq::axiom_seq_index_decreases(nodes@, i as int);
            assert(nodes@.take(i + 1).drop_last() == nodes@.take(i as int));
            assert(nodes@.take(i + 1).last() == nodes@[i as int]);
        }
        report_node(&nodes[i], out);
        assert(out@ =~= old(out)@ + nodes_diagnostics(nodes@.take(i + 1)));
        i = i + 1;
    }
    assert(nodes@.take(nodes@.len() as int) == nodes@);
}

/// The diagnostics of a document: each part that renders as nothing because it is
/// not supported, in document order.
pub fn collect_diagnostics(nodes: &Vec<Node>) -> (r: Vec<Diagnostic>)
    ensures
        r@ == nodes_diagnostics(nodes@),
{
    let mut out = Vec::new();
    report_nodes(nodes, &mut out);
    assert(Seq::<Diagnostic>::empty() + nodes_diagnostics(nodes@) =~= nodes_diagnostics(nodes@));
    out
}

} // verus!
