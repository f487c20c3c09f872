//! Plain rendering of tree nodes to DOM nodes: elements keep all their attributes and
//! text stays text; fragments and expressions cannot be rendered this way.

use vstd::prelude::*;
use crate::ast::{Node, NodeModel, node_model, nodes_model};
use crate::dom::{DomNode, DomModel, dom_model, doms_model, lemma_doms_push};
use crate::lower::attr_pairs;

verus! {

/// Why a node could not be rendered.
#[derive(Debug, Clone, Copy, PartialEq, Eq)]
pub enum RenderError {
    /// A fragment or an expression, which this rendering does not handle.
    DomError,
}

/// The DOM form of a node, if every node in it is an element or text.
pub open spec fn render_node(n: NodeModel) -> Option<DomModel>
    decreases n, 1int,
{
    match n {
        NodeModel::Element { name, attrs, children } => match render_all(children) {
            Some(cs) => Some(
                DomModel::Element {
                    tag: name,
                    attributes: attrs,
                    class_names: Seq::empty(),
                    children: cs,
                    key: "auto_key"@,
                    inline_style: None,
                },
            ),
            None => None,
        },
        NodeModel::Text(s) => Some(DomModel::Text(s)),
        _ => None,
    }
}

/// The DOM forms of a sequence of nodes, if each has one.
pub open spec fn render_all(s: Seq<NodeModel>) -> Option<Seq<DomModel>>
    decreases s, 0int,
{
    if s.len() == 0 {
        Some(Seq::empty())
    } else {
        match (render_all(s.drop_last()), render_node(s.last())) {
            (Some(a), Some(b)) => Some(a.push(b)),
            _ => None,
        }
    }
}

fn render_ref(node: &Node) -> (r: Result<DomNode, RenderError>)
    ensures
        r is Ok <==> render_node(node_model(*node)) is Some,
        r is Ok ==> render_node(node_model(*node)) == Some(dom_model(r->Ok_0)),
    decreases node, 1int,
{
    match node {
        Node::Element { name, attrs, children } => {
            let cs = match render_refs(children) {
                Ok(cs) => cs,
                Err(e) => return Err(e),
            };
            let class_names: Vec<String> = Vec::new();
            assert(crate::ast::strings_model(class_names@) =~= Seq::<Seq<char>>::empty());
            Ok(
                DomNode::Element {
                    tag: name.clone(),
                    attributes: attr_pairs(attrs),
                    class_names,
                    children: cs,
                    key: String::from_str("auto_key"),
                    inline_style: None,
                },
            )
        },
        Node::Text(s) => Ok(DomNode::Text(s.clone())),
        _ => Err(RenderError::DomError),
    }
}

proof fn lemma_render_none_grows(c: Seq<Node>, j: int)
    requires
        0 <= j <= c.len(),
        render_all(nodes_model(c.take(j))) is None,
    ensures
        render_all(nodes_model(c)) is None,
    decreases c.len() - j,
{
    if j < c.len() {
        let m = nodes_model(c.take(j));
        assert(c.take(j + 1).drop_last() =~= c.take(j));
        assert(nodes_model(c.take(j + 1)) == m.push(node_model(c[j])));
        assert(m.push(node_model(c[j])).drop_last() =~= m);
        lemma_render_none_grows(c, j + 1);
    } else {
        assert(c.take(j) =~= c);
    }
}

fn render_refs(children: &Vec<Node>) -> (r: Result<Vec<DomNode>, RenderError>)
    ensures
        r is Ok <==> render_all(nodes_model(children@)) is Some,
        r is Ok ==> render_all(nodes_model(children@)) == Some(doms_model(r->Ok_0@)),
    decreases children, 0int,
{
    let mut out: Vec<DomNode> = Vec::new();
    let mut k: usize = 0;
    assert(children@.take(0) =~= Seq::<Node>::empty());
    assert(doms_model(out@) =~= Seq::<DomModel>::empty());
    while k < children.len()
        invariant
            k <= children@.len(),
            render_all(nodes_model(children@.take(k as int))) == Some(doms_model(out@)),
        decreases children.len() - k,
    {
        let ghost m = nodes_model(children@.take(k as int));
        proof {
            assert(children@.take(k + 1).drop_last() =~= children@.take(k as int));
            assert(nodes_model(children@.take(k + 1)) == m.push(node_model(children@[k as int])));
            assert(m.push(node_model(children@[k as int])).drop_last() =~= m);
            assert(decreases_to!(children => children@[k as int]));
        }
        match render_ref(&children[k]) {
            Ok(d) => {
                proof { lemma_doms_push(out@, d); }
                out.push(d);
            },
            Err(e) => {
                proof { lemma_render_none_grows(children@, k + 1); }
                return Err(e);
            },
        }
        k = k + 1;
    }
    assert(children@.take(children@.len() as int) =~= children@);
    Ok(out)
}

/// The DOM form of one node: an element with all its attributes and the key `auto_key`,
/// or text; a fragment or an expression is an error.
pub fn transform_node(node: Node) -> (r: Result<DomNode, RenderError>)
    ensures
        r is Ok <==> render_node(node_model(node)) is Some,
        r is Ok ==> render_node(node_model(node)) == Some(dom_model(r->Ok_0)),
{
    render_ref(&node)
}

/// The DOM forms of nodes that are all elements and text.
pub fn transform(nodes: Vec<Node>) -> (r: Vec<DomNode>)
    requires
        render_all(nodes_model(nodes@)) is Some,
    ensures
        render_all(nodes_model(nodes@)) == Some(doms_model(r@)),
{
    match render_refs(&nodes) {
        Ok(v) => v,
        Err(_) => {
            assert(false);
            Vec::new()
        },
    }
}

/// The same as `transform`.
pub fn render_nodes(nodes: Vec<Node>) -> (r: Vec<DomNode>)
    requires
        render_all(nodes_model(nodes@)) is Some,
    ensures
        render_all(nodes_model(nodes@)) == Some(doms_model(r@)),
{
    transform(nodes)
}

} // verus!
