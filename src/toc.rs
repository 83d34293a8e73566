//! The table of contents: one entry per heading, in document order.

use crate::ast::{Node, Segment};
use crate::blocks::{decimal, heading_tag_html};
use crate::segments::{convert_segments, heading_link_html, segments_html};
use crate::text::{escaped, into_slug, slug};
use vstd::prelude::*;

verus! {

/// An entry of the table of contents.
#[derive(Debug, Clone, PartialEq, Eq)]
pub struct TocEntry {
    pub level: u32,
    pub title: String,
    pub id: String,
}

/// The id of a heading: the slug of its rendered title.
pub open spec fn heading_id(title: Seq<Segment>) -> Seq<char> {
    slug(segments_html(title))
}

/// The entries that a node contributes: a heading and the headings under it, in
/// order; other nodes contribute none.
pub open spec fn node_toc(node: Node) -> Seq<(nat, Seq<char>, Seq<char>)>
    decreases node,
{
    match node {
        Node::Heading { level, title, content } => seq![
            (level as nat, segments_html(title@), heading_id(title@)),
        ] + nodes_toc(content@),
        _ => Seq::empty(),
    }
}

/// The entries of a sequence of sibling nodes.
pub open spec fn nodes_toc(nodes: Seq<Node>) -> Seq<(nat, Seq<char>, Seq<char>)>
    decreases nodes,
{
    if nodes.len() == 0 {
        Seq::empty()
    } else {
        nodes_toc(nodes.drop_last()) + node_toc(nodes.last())
    }
}

/// The entries as level, title and id.
pub open spec fn toc_view(entries: Seq<TocEntry>) -> Seq<(nat, Seq<char>, Seq<char>)> {
    entries.map_values(|e: TocEntry| (e.level as nat, e.title@, e.id@))
}

/// Collects the headings of a document, depth first, in the order they appear.
pub fn extract_toc(nodes: &Vec<Node>) -> (r: Vec<TocEntry>)
    ensures
        toc_view(r@) == nodes_toc(nodes@),
{
    let mut toc = Vec::new();
    assert(toc_view(toc@) =~= Seq::empty());
    extract_toc_recursive(nodes, &mut toc);
    assert(toc_view(Seq::<TocEntry>::empty()) + nodes_toc(nodes@) == nodes_toc(nodes@));
    toc
}

fn extract_toc_recursive(nodes: &Vec<Node>, toc: &mut Vec<TocEntry>)
    ensures
        toc_view(final(toc)@) == toc_view(old(toc)@) + nodes_toc(nodes@),
    decreases nodes@,
{
    let mut i: usize = 0;
    assert(nodes@.take(0) =~= Seq::<Node>::empty());
    assert(toc_view(old(toc)@) + nodes_toc(Seq::<Node>::empty()) =~= toc_view(old(toc)@));
    while i < nodes.len()
        invariant
            i <= nodes@.len(),
            toc_view(toc@) == toc_view(old(toc)@) + nodes_toc(nodes@.take(i as int)),
        decreases nodes.len() - i,
    {
        proof {
            vstd::seq::axiom_seq_index_decreases(nodes@, i as int);
            assert(nodes@.take(i + 1).drop_last() == nodes@.take(i as int));
            assert(nodes@.take(i + 1).last() == nodes@[i as int]);
        }
        let ghost before = toc_view(toc@);
        match &nodes[i] {
            Node::Heading { level, title, content } => {
                let text = convert_segments(title);
                let id = into_slug(text.as_str());
                let ghost pushed = toc@;
                toc.push(TocEntry { level: *level as u32, title: text, id });
                assert(toc_view(toc@) =~= toc_view(pushed).push((*level as nat, segments_html(title@), heading_id(title@))));
                let ghost mid = toc_view(toc@);
                extract_toc_recursive(content, toc);
                assert(toc_view(toc@) =~= before + node_toc(nodes@[i as int]));
            },
            _ => {
                assert(node_toc(nodes@[i as int]) =~= Seq::empty());
                assert(before + node_toc(nodes@[i as int]) =~= before);
            },
        }
        assert(toc_view(toc@) =~= toc_view(old(toc)@) + nodes_toc(nodes@.take(i + 1)));
        i = i + 1;
    }
    assert(nodes@.take(nodes@.len() as int) == nodes@);
}

/// For a heading and a link whose heading target renders to the same title text,
/// the heading's `id` attribute, its table-of-contents entry and the link's anchor
/// are one and the same slug.
pub proof fn lemma_heading_ids_agree(heading: Node, link_title: Seq<Segment>, description: Option<Seq<char>>)
    requires
        match heading {
            Node::Heading { title, .. } => segments_html(title@) == segments_html(link_title),
            _ => false,
        },
    ensures
        match heading {
            Node::Heading { level, title, .. } => {
                &&& node_toc(heading)[0].2 == heading_id(link_title)
                &&& heading_tag_html(level, segments_html(title@)) == "<h"@ + decimal(level as nat)
                    + " id=\""@ + heading_id(link_title) + "\">"@ + segments_html(title@) + "</h"@
                    + decimal(level as nat) + ">"@
                &&& heading_link_html(segments_html(link_title), description) == "<a href=\"#"@
                    + escaped(heading_id(link_title)) + "\">"@ + match description {
                    Some(d) => d,
                    None => segments_html(link_title),
                } + "</a>"@
            },
            _ => true,
        },
{
}

/// Whether each entry's id is the slug of its title.
pub open spec fn ids_are_title_slugs(entries: Seq<(nat, Seq<char>, Seq<char>)>) -> bool {
    forall|i: int| 0 <= i < entries.len() ==> (#[trigger] entries[i]).2 == slug(entries[i].1)
}

proof fn lemma_node_toc_ids(node: Node)
    ensures
        ids_are_title_slugs(node_toc(node)),
    decreases node,
{
    match node {
        Node::Heading { level, title, content } => {
            lemma_nodes_toc_ids(content@);
            let head = seq![(level as nat, segments_html(title@), heading_id(title@))];
            assert forall|i: int| 0 <= i < node_toc(node).len() implies (#[trigger] node_toc(
                node,
            )[i]).2 == slug(node_toc(node)[i].1) by {
                if i > 0 {
                    assert(node_toc(node)[i] == nodes_toc(content@)[i - 1]);
                }
            }
        },
        _ => {},
    }
}

proof fn lemma_nodes_toc_ids(nodes: Seq<Node>)
    ensures
        ids_are_title_slugs(nodes_toc(nodes)),
    decreases nodes,
{
    if nodes.len() > 0 {
        lemma_nodes_toc_ids(nodes.drop_last());
        lemma_node_toc_ids(nodes.last());
        let a = nodes_toc(nodes.drop_last());
        let b = node_toc(nodes.last());
        assert forall|i: int| 0 <= i < (a + b).len() implies (#[trigger] (a + b)[i]).2 == slug(
            (a + b)[i].1,
        ) by {
            if i < a.len() {
                assert((a + b)[i] == a[i]);
            } else {
                assert((a + b)[i] == b[i - a.len()]);
            }
        }
    }
}

/// Every entry of the table of contents, nested headings included, has as id the
/// slug of its title, which is the id that the heading's element carries.
pub proof fn lemma_toc_ids_are_title_slugs(nodes: Seq<Node>)
    ensures
        ids_are_title_slugs(nodes_toc(nodes)),
        forall|i: int|
            0 <= i < nodes_toc(nodes).len() ==> {
                let e = #[trigger] nodes_toc(nodes)[i];
                heading_tag_html(e.0 as u16, e.1) == "<h"@ + decimal((e.0 as u16) as nat)
                    + " id=\""@ + e.2 + "\">"@ + e.1 + "</h"@ + decimal((e.0 as u16) as nat)
                    + ">"@
            },
{
    lemma_nodes_toc_ids(nodes);
}

} // verus!
