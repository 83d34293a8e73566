//! Locating the front-matter block of a document.

use crate::ast::Node;
use crate::blocks::{is_meta_tag, meta_tag};
use vstd::prelude::*;

verus! {

/// Whether a node is a `@document.meta` block.
pub open spec fn is_meta_node(node: Node) -> bool {
    match node {
        Node::Verbatim { name, .. } => is_meta_tag(name@),
        _ => false,
    }
}

/// The text of a verbatim node.
pub open spec fn verbatim_content(node: Node) -> Seq<char> {
    match node {
        Node::Verbatim { content, .. } => content@,
        _ => Seq::empty(),
    }
}

/// The text of the first top-level `@document.meta` block, which holds the
/// document's front matter; later ones are ignored and nested ones are not searched.
pub fn metadata_source(nodes: &Vec<Node>) -> (r: Option<String>)
    ensures
        match r {
            Some(c) => exists|i: int|
                0 <= i < nodes@.len() && is_meta_node(#[trigger] nodes@[i]) && (forall|j: int|
                    0 <= j < i ==> !is_meta_node(#[trigger] nodes@[j])) && c@ == verbatim_content(
                    nodes@[i],
                ),
            None => forall|i: int| 0 <= i < nodes@.len() ==> !is_meta_node(#[trigger] nodes@[i]),
        },
{
    let mut i: usize = 0;
    while i < nodes.len()
        invariant
            i <= nodes@.len(),
            forall|j: int| 0 <= j < i ==> !is_meta_node(#[trigger] nodes@[j]),
        decreases nodes.len() - i,
    {
        match &nodes[i] {
            Node::Verbatim { name, content, .. } => {
                if meta_tag(name) {
                    return Some(content.clone());
                }
            },
            _ => {},
        }
        i = i + 1;
    }
    None
}

} // verus!
