//! Traversal of render trees by a visitor, and a visitor that writes an outline.

use vstd::prelude::*;
use crate::ast::{Node, NodeModel, node_model};
use crate::dom::{decimal, decimal_string};

verus! {

/// Receives each node of a tree, parents before children, with the node's parent.
pub trait NodeVisitor {
    fn visit_node(&mut self, node: &Node, parent: Option<&Node>);
}

impl Node {
    /// Visits this node and then, in order, the nodes below it.
    pub fn visit<V: NodeVisitor>(&self, visitor: &mut V) {
        self.visit_with_parent(visitor, None);
    }

    fn visit_with_parent<V: NodeVisitor>(&self, visitor: &mut V, parent: Option<&Node>)
        decreases self, 1int,
    {
        visitor.visit_node(self, parent);
        match self {
            Node::Element { children, .. } => visit_all(children, visitor, self),
            Node::Fragment(children) => visit_all(children, visitor, self),
            _ => {},
        }
    }
}

fn visit_all<V: NodeVisitor>(children: &Vec<Node>, visitor: &mut V, parent: &Node)
    decreases children, 0int,
{
    let mut k: usize = 0;
    while k < children.len()
        invariant
            k <= children@.len(),
        decreases children.len() - k,
    {
        proof {
            assert(decreases_to!(children => children@[k as int]));
        }
        children[k].visit_with_parent(visitor, Some(parent));
        k = k + 1;
    }
}

/// The outline line of one node.
pub open spec fn describe(n: NodeModel) -> Seq<char> {
    match n {
        NodeModel::Text(s) => "Text: \""@ + s + "\""@,
        NodeModel::Expr(e) => "Expr: {"@ + e + "}"@,
        NodeModel::Element { name, attrs, .. } => "Element: "@ + name + " ("@ + decimal(attrs.len())
            + " attrs)"@,
        NodeModel::Fragment(children) => "Fragment ("@ + decimal(children.len()) + " nodes)"@,
    }
}

/// `n` times two spaces.
pub open spec fn indentation(n: nat) -> Seq<char>
    decreases n,
{
    if n == 0 {
        Seq::empty()
    } else {
        indentation((n - 1) as nat) + "  "@
    }
}

/// A visitor that writes one outline line per node, each indented one step more than the
/// line before.
pub struct PrintVisitor {
    indent: usize,
    lines: Vec<String>,
}

impl PrintVisitor {
    pub fn new() -> (r: PrintVisitor)
        ensures
            r.depth() == 0,
            r.outline().len() == 0,
    {
        PrintVisitor { indent: 0, lines: Vec::new() }
    }

    pub closed spec fn depth(&self) -> nat {
        self.indent as nat
    }

    pub closed spec fn outline(&self) -> Seq<String> {
        self.lines@
    }

    /// The lines written so far.
    pub fn lines(&self) -> (r: &Vec<String>)
        ensures
            r@ == self.outline(),
    {
        &self.lines
    }

    /// The outline line of `node` at the current depth.
    pub fn line_for(&self, node: &Node) -> (r: String)
        ensures
            r@ == indentation(self.depth()) + describe(node_model(*node)),
    {
        let mut r = String::new();
        let mut k: usize = 0;
        while k < self.indent
            invariant
                k <= self.indent,
                r@ == indentation(k as nat),
            decreases self.indent - k,
        {
            r.append("  ");
            k = k + 1;
        }
        match node {
            Node::Text(s) => {
                r.append("Text: \"");
                r.append(s.as_str());
                r.append("\"");
            },
            Node::Expr(e) => {
                r.append("Expr: {");
                r.append(e.as_str());
                r.append("}");
            },
            Node::Element { name, attrs, .. } => {
                r.append("Element: ");
                r.append(name.as_str());
                r.append(" (");
                let d = decimal_string(attrs.len());
                r.append(d.as_str());
                r.append(" attrs)");
            },
            Node::Fragment(children) => {
                r.append("Fragment (");
                proof { crate::ast::lemma_nodes_model_len(children@); }
                let d = decimal_string(children.len());
                r.append(d.as_str());
                r.append(" nodes)");
            },
        }
        r
    }
}

impl NodeVisitor for PrintVisitor {
    fn visit_node(&mut self, node: &Node, _parent: Option<&Node>) {
        let line = self.line_for(node);
        self.lines.push(line);
        if self.indent < usize::MAX {
            self.indent = self.indent + 1;
        }
    }
}

} // verus!
