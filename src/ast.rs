//! The tree the parser builds: imports, pages, markup nodes and functions.

use vstd::prelude::*;

verus! {

/// A markup attribute.
#[derive(Debug, Clone, PartialEq, Eq)]
pub struct Attribute {
    pub name: String,
    pub value: String,
}

/// A node of a render tree.
#[derive(Debug, PartialEq, Eq)]
pub enum Node {
    Text(String),
    Element { name: String, attrs: Vec<Attribute>, children: Vec<Node> },
    Fragment(Vec<Node>),
    /// An embedded expression, as source text.
    Expr(String),
}

/// A callback of a page: its name, parameters and body text.
#[derive(Debug, Clone, PartialEq, Eq)]
pub struct Function {
    pub name: String,
    pub params: Vec<String>,
    pub body: Vec<String>,
}

/// `import { names } from "module"`.
#[derive(Debug, Clone, PartialEq, Eq)]
pub struct ImportDecl {
    pub names: Vec<String>,
    pub module: String,
}

/// A `page` block.
#[derive(Debug, PartialEq, Eq)]
pub struct PageDecl {
    pub name: String,
    pub layout: Option<String>,
    pub render: Vec<Node>,
    pub functions: Vec<Function>,
}

/// A top-level declaration.
#[derive(Debug, PartialEq, Eq)]
pub enum ASTNode {
    Import(ImportDecl),
    Page(PageDecl),
}

/// The mathematical value of a `Node`; attributes are name/value pairs.
pub enum NodeModel {
    Text(Seq<char>),
    Element { name: Seq<char>, attrs: Seq<(Seq<char>, Seq<char>)>, children: Seq<NodeModel> },
    Fragment(Seq<NodeModel>),
    Expr(Seq<char>),
}

pub struct FunctionModel {
    pub name: Seq<char>,
    pub params: Seq<Seq<char>>,
    pub body: Seq<Seq<char>>,
}

pub struct ImportModel {
    pub names: Seq<Seq<char>>,
    pub module: Seq<char>,
}

pub struct PageModel {
    pub name: Seq<char>,
    pub layout: Option<Seq<char>>,
    pub render: Seq<NodeModel>,
    pub functions: Seq<FunctionModel>,
}

pub enum DeclModel {
    Import(ImportModel),
    Page(PageModel),
}

pub open spec fn strings_model(v: Seq<String>) -> Seq<Seq<char>> {
    v.map_values(|s: String| s@)
}

pub open spec fn attrs_model(v: Seq<Attribute>) -> Seq<(Seq<char>, Seq<char>)> {
    v.map_values(|a: Attribute| (a.name@, a.value@))
}

pub open spec fn node_model(n: Node) -> NodeModel
    decreases n, 1int,
{
    match n {
        Node::Text(s) => NodeModel::Text(s@),
        Node::Element { name, attrs, children } => NodeModel::Element {
            name: name@,
            attrs: attrs_model(attrs@),
            children: nodes_model(children@),
        },
        Node::Fragment(children) => NodeModel::Fragment(nodes_model(children@)),
        Node::Expr(s) => NodeModel::Expr(s@),
    }
}

pub open spec fn nodes_model(s: Seq<Node>) -> Seq<NodeModel>
    decreases s, 0int,
{
    if s.len() == 0 {
        Seq::empty()
    } else {
        nodes_model(s.drop_last()).push(node_model(s.last()))
    }
}

pub proof fn lemma_nodes_model_len(s: Seq<Node>)
    ensures
        nodes_model(s).len() == s.len(),
    decreases s.len(),
{
    if s.len() > 0 {
        lemma_nodes_model_len(s.drop_last());
    }
}

pub open spec fn function_model(f: Function) -> FunctionModel {
    FunctionModel { name: f.name@, params: strings_model(f.params@), body: strings_model(f.body@) }
}

pub open spec fn functions_model(v: Seq<Function>) -> Seq<FunctionModel> {
    v.map_values(|f: Function| function_model(f))
}

pub open spec fn opt_string_model(o: Option<String>) -> Option<Seq<char>> {
    match o {
        Some(s) => Some(s@),
        None => None,
    }
}

pub open spec fn decl_model(d: ASTNode) -> DeclModel {
    match d {
        ASTNode::Import(i) => DeclModel::Import(
            ImportModel { names: strings_model(i.names@), module: i.module@ },
        ),
        ASTNode::Page(p) => DeclModel::Page(
            PageModel {
                name: p.name@,
                layout: opt_string_model(p.layout),
                render: nodes_model(p.render@),
                functions: functions_model(p.functions@),
            },
        ),
    }
}

pub open spec fn decls_model(v: Seq<ASTNode>) -> Seq<DeclModel> {
    v.map_values(|d: ASTNode| decl_model(d))
}

/// The strings of a vector of string slices.
pub fn owned_strings(v: Vec<&str>) -> (r: Vec<String>)
    ensures
        r@.len() == v@.len(),
        forall|i: int| 0 <= i < v@.len() ==> #[trigger] r@[i]@ == v@[i]@,
{
    let mut r: Vec<String> = Vec::new();
    let mut k: usize = 0;
    while k < v.len()
        invariant
            k <= v@.len(),
            r@.len() == k,
            forall|i: int| 0 <= i < k ==> #[trigger] r@[i]@ == v@[i]@,
        decreases v.len() - k,
    {
        r.push(String::from_str(v[k]));
        k = k + 1;
    }
    r
}

impl ImportDecl {
    pub fn new(names: Vec<&str>, module: &str) -> (r: ImportDecl)
        ensures
            r.names@.len() == names@.len(),
            forall|i: int| 0 <= i < names@.len() ==> #[trigger] r.names@[i]@ == names@[i]@,
            r.module@ == module@,
    {
        ImportDecl { names: owned_strings(names), module: String::from_str(module) }
    }
}

impl PageDecl {
    pub fn new(name: &str, layout: Option<&str>, render: Vec<Node>, functions: Vec<Function>) -> (r:
        PageDecl)
        ensures
            r.name@ == name@,
            layout is None ==> r.layout is None,
            layout is Some ==> r.layout is Some && r.layout->0@ == layout->0@,
            r.render == render,
            r.functions == functions,
    {
        let layout = match layout {
            Some(l) => Some(String::from_str(l)),
            None => None,
        };
        PageDecl { name: String::from_str(name), layout, render, functions }
    }
}

impl Attribute {
    pub fn new(name: &str, value: &str) -> (r: Attribute)
        ensures
            r.name@ == name@,
            r.value@ == value@,
    {
        Attribute { name: String::from_str(name), value: String::from_str(value) }
    }
}

impl Node {
    pub fn text(content: &str) -> (r: Node)
        ensures
            node_model(r) == NodeModel::Text(content@),
    {
        Node::Text(String::from_str(content))
    }

    pub fn element(name: &str, attrs: Vec<Attribute>, children: Vec<Node>) -> (r: Node)
        ensures
            r == (Node::Element { name: r->name, attrs, children }),
            r->name@ == name@,
    {
        Node::Element { name: String::from_str(name), attrs, children }
    }

    pub fn fragment(nodes: Vec<Node>) -> (r: Node)
        ensures
            r == Node::Fragment(nodes),
    {
        Node::Fragment(nodes)
    }
}

impl Function {
    pub fn new(name: &str, params: Vec<&str>, body: Vec<&str>) -> (r: Function)
        ensures
            r.name@ == name@,
            r.params@.len() == params@.len(),
            forall|i: int| 0 <= i < params@.len() ==> #[trigger] r.params@[i]@ == params@[i]@,
            r.body@.len() == body@.len(),
            forall|i: int| 0 <= i < body@.len() ==> #[trigger] r.body@[i]@ == body@[i]@,
    {
        Function { name: String::from_str(name), params: owned_strings(params), body: owned_strings(body) }
    }
}

impl ASTNode {
    pub fn import(names: Vec<&str>, module: &str) -> (r: ASTNode)
        ensures
            r is Import,
            r->Import_0.names@.len() == names@.len(),
            forall|i: int| 0 <= i < names@.len() ==> #[trigger] r->Import_0.names@[i]@ == names@[i]@,
            r->Import_0.module@ == module@,
    {
        ASTNode::Import(ImportDecl::new(names, module))
    }

    pub fn page(name: &str, layout: Option<&str>, render: Vec<Node>, functions: Vec<Function>) -> (r:
        ASTNode)
        ensures
            r is Page,
            r->Page_0.name@ == name@,
            layout is None ==> r->Page_0.layout is None,
            layout is Some ==> r->Page_0.layout is Some && r->Page_0.layout->0@ == layout->0@,
            r->Page_0.render == render,
            r->Page_0.functions == functions,
    {
        ASTNode::Page(PageDecl::new(name, layout, render, functions))
    }
}

} // verus!
