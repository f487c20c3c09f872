//! DOM nodes with keys and class names, a builder for them, and the transform from the
//! tree to DOM nodes that collects the class names it meets.

use vstd::prelude::*;
use crate::text::{is_white, white};
use crate::scan::{skip_ws, skip_ws_at, substring, trim, trim_string};
use crate::ast::{Node, Attribute, NodeModel, node_model, nodes_model, strings_model};
use crate::ir::pairs_model;

verus! {

/// A DOM node.
#[derive(Debug)]
pub enum DomNode {
    Element {
        tag: String,
        attributes: Vec<(String, String)>,
        class_names: Vec<String>,
        children: Vec<DomNode>,
        key: String,
        inline_style: Option<String>,
    },
    Text(String),
    Expression(String),
}

/// The mathematical value of a `DomNode`.
pub enum DomModel {
    Element {
        tag: Seq<char>,
        attributes: Seq<(Seq<char>, Seq<char>)>,
        class_names: Seq<Seq<char>>,
        children: Seq<DomModel>,
        key: Seq<char>,
        inline_style: Option<Seq<char>>,
    },
    Text(Seq<char>),
    Expression(Seq<char>),
}

pub open spec fn dom_model(n: DomNode) -> DomModel
    decreases n, 1int,
{
    match n {
        DomNode::Element { tag, attributes, class_names, children, key, inline_style } => DomModel::Element {
            tag: tag@,
            attributes: pairs_model(attributes@),
            class_names: strings_model(class_names@),
            children: doms_model(children@),
            key: key@,
            inline_style: crate::ast::opt_string_model(inline_style),
        },
        DomNode::Text(s) => DomModel::Text(s@),
        DomNode::Expression(s) => DomModel::Expression(s@),
    }
}

pub open spec fn doms_model(s: Seq<DomNode>) -> Seq<DomModel>
    decreases s, 0int,
{
    if s.len() == 0 {
        Seq::empty()
    } else {
        doms_model(s.drop_last()).push(dom_model(s.last()))
    }
}

pub proof fn lemma_doms_push(s: Seq<DomNode>, n: DomNode)
    ensures
        doms_model(s.push(n)) == doms_model(s).push(dom_model(n)),
{
    assert(s.push(n).drop_last() =~= s);
}

/// Builds an element node step by step.
pub struct DomNodeBuilder {
    pub tag: String,
    pub attributes: Vec<(String, String)>,
    pub class_names: Vec<String>,
    pub children: Vec<DomNode>,
    pub key: Option<String>,
    pub inline_style: Option<String>,
}

impl DomNode {
    /// A builder for an element with tag `tag` and nothing else yet.
    pub fn element(tag: &str) -> (r: DomNodeBuilder)
        ensures
            r.tag@ == tag@,
            r.attributes@.len() == 0,
            r.class_names@.len() == 0,
            r.children@.len() == 0,
            r.key is None,
            r.inline_style is None,
    {
        DomNodeBuilder {
            tag: String::from_str(tag),
            attributes: Vec::new(),
            class_names: Vec::new(),
            children: Vec::new(),
            key: None,
            inline_style: None,
        }
    }

    pub fn text(text: &str) -> (r: DomNode)
        ensures
            dom_model(r) == DomModel::Text(text@),
    {
        DomNode::Text(String::from_str(text))
    }

    pub fn expression(expr: &str) -> (r: DomNode)
        ensures
            dom_model(r) == DomModel::Expression(expr@),
    {
        DomNode::Expression(String::from_str(expr))
    }
}

impl DomNodeBuilder {
    pub fn attr(self, name: &str, value: &str) -> (r: DomNodeBuilder)
        ensures
            pairs_model(r.attributes@) == pairs_model(self.attributes@).push((name@, value@)),
            r.tag == self.tag && r.class_names == self.class_names && r.children == self.children,
            r.key == self.key && r.inline_style == self.inline_style,
    {
        let mut b = self;
        let ghost before = b.attributes@;
        b.attributes.push((String::from_str(name), String::from_str(value)));
        assert(pairs_model(b.attributes@) =~= pairs_model(before).push((name@, value@)));
        b
    }

    pub fn class(self, class_name: &str) -> (r: DomNodeBuilder)
        ensures
            strings_model(r.class_names@) == strings_model(self.class_names@).push(class_name@),
            r.tag == self.tag && r.attributes == self.attributes && r.children == self.children,
            r.key == self.key && r.inline_style == self.inline_style,
    {
        let mut b = self;
        let ghost before = b.class_names@;
        b.class_names.push(String::from_str(class_name));
        assert(strings_model(b.class_names@) =~= strings_model(before).push(class_name@));
        b
    }

    pub fn child(self, node: DomNode) -> (r: DomNodeBuilder)
        ensures
            r.children@ == self.children@.push(node),
            r.tag == self.tag && r.attributes == self.attributes && r.class_names == self.class_names,
            r.key == self.key && r.inline_style == self.inline_style,
    {
        let mut b = self;
        b.children.push(node);
        b
    }

    pub fn key(self, key: &str) -> (r: DomNodeBuilder)
        ensures
            r.key is Some && r.key->0@ == key@,
            r.tag == self.tag && r.attributes == self.attributes && r.class_names == self.class_names,
            r.children == self.children && r.inline_style == self.inline_style,
    {
        let mut b = self;
        b.key = Some(String::from_str(key));
        b
    }

    pub fn inline_style(self, style: &str) -> (r: DomNodeBuilder)
        ensures
            r.inline_style is Some && r.inline_style->0@ == style@,
            r.tag == self.tag && r.attributes == self.attributes && r.class_names == self.class_names,
            r.children == self.children && r.key == self.key,
    {
        let mut b = self;
        b.inline_style = Some(String::from_str(style));
        b
    }

    pub fn attributes(self, attrs: Vec<(String, String)>) -> (r: DomNodeBuilder)
        ensures
            r.attributes@ == self.attributes@ + attrs@,
            r.tag == self.tag && r.class_names == self.class_names && r.children == self.children,
            r.key == self.key && r.inline_style == self.inline_style,
    {
        let mut b = self;
        let mut attrs = attrs;
        b.attributes.append(&mut attrs);
        b
    }

    pub fn class_names(self, classes: Vec<String>) -> (r: DomNodeBuilder)
        ensures
            r.class_names@ == self.class_names@ + classes@,
            r.tag == self.tag && r.attributes == self.attributes && r.children == self.children,
            r.key == self.key && r.inline_style == self.inline_style,
    {
        let mut b = self;
        let mut classes = classes;
        b.class_names.append(&mut classes);
        b
    }

    pub fn children(self, children: Vec<DomNode>) -> (r: DomNodeBuilder)
        ensures
            r.children@ == self.children@ + children@,
            r.tag == self.tag && r.attributes == self.attributes && r.class_names == self.class_names,
            r.key == self.key && r.inline_style == self.inline_style,
    {
        let mut b = self;
        let mut children = children;
        b.children.append(&mut children);
        b
    }

    /// The element; without a key it gets the key `auto_key`.
    pub fn build(self) -> (r: DomNode)
        ensures
            r is Element,
            r->tag == self.tag && r->attributes == self.attributes && r->class_names == self.class_names,
            r->children == self.children && r->inline_style == self.inline_style,
            self.key is Some ==> r->key == self.key->0,
            self.key is None ==> r->key@ == "auto_key"@,
    {
        let key = match self.key {
            Some(k) => k,
            None => String::from_str("auto_key"),
        };
        DomNode::Element {
            tag: self.tag,
            attributes: self.attributes,
            class_names: self.class_names,
            children: self.children,
            key,
            inline_style: self.inline_style,
        }
    }
}

pub open spec fn digit_of(d: nat) -> char {
    if d == 0 {
        '0'
    } else if d == 1 {
        '1'
    } else if d == 2 {
        '2'
    } else if d == 3 {
        '3'
    } else if d == 4 {
        '4'
    } else if d == 5 {
        '5'
    } else if d == 6 {
        '6'
    } else if d == 7 {
        '7'
    } else if d == 8 {
        '8'
    } else {
        '9'
    }
}

/// The decimal digits of `n`.
pub open spec fn decimal(n: nat) -> Seq<char>
    decreases n,
{
    if n < 10 {
        seq![digit_of(n)]
    } else {
        decimal(n / 10).push(digit_of(n % 10))
    }
}

fn digit_char(d: usize) -> (r: char)
    requires
        d < 10,
    ensures
        r == digit_of(d as nat),
{
    if d == 0 {
        '0'
    } else if d == 1 {
        '1'
    } else if d == 2 {
        '2'
    } else if d == 3 {
        '3'
    } else if d == 4 {
        '4'
    } else if d == 5 {
        '5'
    } else if d == 6 {
        '6'
    } else if d == 7 {
        '7'
    } else if d == 8 {
        '8'
    } else {
        '9'
    }
}

fn decimal_chars(n: usize) -> (r: Vec<char>)
    ensures
        r@ == decimal(n as nat),
    decreases n,
{
    if n < 10 {
        vec![digit_char(n)]
    } else {
        let mut v = decimal_chars(n / 10);
        v.push(digit_char(n % 10));
        v
    }
}

/// The end of the run of non-whitespace characters that starts at `j`.
pub open spec fn word_end(s: Seq<char>, j: int) -> int
    decreases s.len() - j,
{
    if 0 <= j < s.len() && !is_white(s[j]) {
        word_end(s, j + 1)
    } else {
        j
    }
}

/// The whitespace-separated words of `s` from `i` on.
pub open spec fn words_from(s: Seq<char>, i: int) -> Seq<Seq<char>>
    decreases s.len() - i,
{
    let j = skip_ws(s, i);
    if i < 0 || j < i || j >= s.len() {
        Seq::empty()
    } else {
        let e = word_end(s, j);
        if j < e <= s.len() {
            seq![s.subrange(j, e)] + words_from(s, e)
        } else {
            Seq::empty()
        }
    }
}

/// The whitespace-separated words of `s`.
pub open spec fn words(s: Seq<char>) -> Seq<Seq<char>> {
    words_from(s, 0)
}

/// The whitespace-separated words of a string.
pub fn split_words(t: &str) -> (r: Vec<String>)
    ensures
        strings_model(r@) == words(t@),
{
    let s = crate::text::chars_of(t);
    let mut r: Vec<String> = Vec::new();
    let mut i: usize = 0;
    assert(strings_model(r@) =~= Seq::<Seq<char>>::empty());
    loop
        invariant
            i <= s@.len(),
            s@ == t@,
            words(s@) == strings_model(r@) + words_from(s@, i as int),
        decreases s@.len() - i,
    {
        let j = skip_ws_at(&s, i);
        if j >= s.len() {
            assert(strings_model(r@) + words_from(s@, i as int) =~= strings_model(r@));
            return r;
        }
        proof { crate::scan::lemma_skip_ws_stops(s@, i as int); }
        let mut e = j;
        while e < s.len() && !white(s[e])
            invariant
                j <= e <= s@.len(),
                word_end(s@, e as int) == word_end(s@, j as int),
            decreases s@.len() - e,
        {
            e = e + 1;
        }
        let ghost before = r@;
        r.push(substring(&s, j, e));
        assert(strings_model(r@) =~= strings_model(before).push(s@.subrange(j as int, e as int)));
        assert(strings_model(before) + words_from(s@, i as int) =~= strings_model(r@) + words_from(s@, e as int));
        i = e;
    }
}

/// The value of the last `class` attribute, if there is one.
pub open spec fn class_value(attrs: Seq<(Seq<char>, Seq<char>)>) -> Option<Seq<char>>
    decreases attrs.len(),
{
    if attrs.len() == 0 {
        None
    } else if attrs.last().0 == "class"@ {
        Some(attrs.last().1)
    } else {
        class_value(attrs.drop_last())
    }
}

/// The class names of an element: the words of its last `class` attribute.
pub open spec fn class_list(attrs: Seq<(Seq<char>, Seq<char>)>) -> Seq<Seq<char>> {
    match class_value(attrs) {
        Some(v) => words(v),
        None => Seq::empty(),
    }
}

/// The attributes other than `class`, in order.
pub open spec fn without_class(attrs: Seq<(Seq<char>, Seq<char>)>) -> Seq<(Seq<char>, Seq<char>)>
    decreases attrs.len(),
{
    if attrs.len() == 0 {
        Seq::empty()
    } else {
        without_class(attrs.drop_last()) + if attrs.last().0 == "class"@ {
            Seq::empty()
        } else {
            seq![attrs.last()]
        }
    }
}

/// Whether trimmed text has the form `{{ ... }}`.
pub open spec fn is_mustache(t: Seq<char>) -> bool {
    t.len() >= 4 && t[0] == '{' && t[1] == '{' && t[t.len() - 2] == '}' && t[t.len() - 1] == '}'
}

/// The DOM form of a text run: an expression when, trimmed, it has the form `{{ e }}`.
pub open spec fn text_dom(s: Seq<char>) -> DomModel {
    let t = trim(s);
    if is_mustache(t) {
        DomModel::Expression(trim(t.subrange(2, t.len() - 2)))
    } else {
        DomModel::Text(s)
    }
}

/// The DOM nodes of a tree node with key `key`. An element drops its `class` attributes
/// and carries their words as class names; its children are keyed `key-0`, `key-1`, ...;
/// a fragment's children stand in its place.
pub open spec fn dom_of(n: NodeModel, key: Seq<char>) -> Seq<DomModel>
    decreases n, 1int,
{
    match n {
        NodeModel::Text(s) => seq![text_dom(s)],
        NodeModel::Expr(e) => seq![DomModel::Expression(e)],
        NodeModel::Element { name, attrs, children } => seq![
            DomModel::Element {
                tag: name,
                attributes: without_class(attrs),
                class_names: class_list(attrs),
                children: dom_list(children, key + "-"@),
                key,
                inline_style: None,
            },
        ],
        NodeModel::Fragment(children) => dom_list(children, key + "-"@),
    }
}

/// The DOM nodes of a sequence of tree nodes, the `i`-th keyed `prefix` followed by `i`.
pub open spec fn dom_list(s: Seq<NodeModel>, prefix: Seq<char>) -> Seq<DomModel>
    decreases s, 0int,
{
    if s.len() == 0 {
        Seq::empty()
    } else {
        dom_list(s.drop_last(), prefix) + dom_of(s.last(), prefix + decimal((s.len() - 1) as nat))
    }
}

/// The class names met in a tree node, in document order.
pub open spec fn classes_of(n: NodeModel) -> Seq<Seq<char>>
    decreases n, 1int,
{
    match n {
        NodeModel::Element { attrs, children, .. } => class_list(attrs) + classes_list(children),
        NodeModel::Fragment(children) => classes_list(children),
        _ => Seq::empty(),
    }
}

pub open spec fn classes_list(s: Seq<NodeModel>) -> Seq<Seq<char>>
    decreases s, 0int,
{
    if s.len() == 0 {
        Seq::empty()
    } else {
        classes_list(s.drop_last()) + classes_of(s.last())
    }
}

fn class_value_of(attrs: &Vec<Attribute>) -> (r: Option<String>)
    ensures
        crate::ast::opt_string_model(r) == class_value(crate::ast::attrs_model(attrs@)),
{
    let ghost m = crate::ast::attrs_model(attrs@);
    let mut k = attrs.len();
    assert(m.take(k as int) =~= m);
    while k > 0
        invariant
            k <= attrs@.len(),
            m == crate::ast::attrs_model(attrs@),
            class_value(m) == class_value(m.take(k as int)),
        decreases k,
    {
        assert(m.take(k as int).drop_last() =~= m.take(k - 1));
        if crate::ir::same_text(attrs[k - 1].name.as_str(), "class") {
            return Some(attrs[k - 1].value.clone());
        }
        k = k - 1;
    }
    None
}

fn without_class_of(attrs: &Vec<Attribute>) -> (r: Vec<(String, String)>)
    ensures
        pairs_model(r@) == without_class(crate::ast::attrs_model(attrs@)),
{
    let ghost m = crate::ast::attrs_model(attrs@);
    let mut r: Vec<(String, String)> = Vec::new();
    let mut k: usize = 0;
    assert(pairs_model(r@) =~= without_class(m.take(0)));
    while k < attrs.len()
        invariant
            k <= attrs@.len(),
            m == crate::ast::attrs_model(attrs@),
            pairs_model(r@) == without_class(m.take(k as int)),
        decreases attrs.len() - k,
    {
        assert(m.take(k + 1).drop_last() =~= m.take(k as int));
        let ghost before = r@;
        if !crate::ir::same_text(attrs[k].name.as_str(), "class") {
            r.push((attrs[k].name.clone(), attrs[k].value.clone()));
            assert(pairs_model(r@) =~= pairs_model(before) + seq![m[k as int]]);
        } else {
            assert(pairs_model(r@) =~= pairs_model(before) + Seq::<(Seq<char>, Seq<char>)>::empty());
        }
        k = k + 1;
    }
    assert(m.take(attrs@.len() as int) =~= m);
    r
}

fn text_dom_of(text: &String) -> (r: DomNode)
    ensures
        dom_model(r) == text_dom(text@),
{
    let t = crate::text::chars_of(trim_string(text.as_str()).as_str());
    let n = t.len();
    if n >= 4 && t[0] == '{' && t[1] == '{' && t[n - 2] == '}' && t[n - 1] == '}' {
        let inner = substring(&t, 2, n - 2);
        DomNode::Expression(trim_string(inner.as_str()))
    } else {
        DomNode::Text(text.clone())
    }
}

/// The decimal digits of `n`, as a string.
pub fn decimal_string(n: usize) -> (r: String)
    ensures
        r@ == decimal(n as nat),
{
    let d = decimal_chars(n);
    crate::text::string_of(d.as_slice())
}

fn key_for(prefix: &String, k: usize) -> (r: String)
    ensures
        r@ == prefix@ + decimal(k as nat),
{
    let d = decimal_chars(k);
    let mut r = prefix.clone();
    let ds = crate::text::string_of(d.as_slice());
    r.append(ds.as_str());
    r
}

fn dom_of_node(node: &Node, key: &String, out: &mut Vec<DomNode>, classes: &mut Vec<String>)
    ensures
        doms_model(final(out)@) == doms_model(old(out)@) + dom_of(node_model(*node), key@),
        strings_model(final(classes)@) == strings_model(old(classes)@) + classes_of(node_model(*node)),
    decreases node, 1int,
{
    let ghost out0 = out@;
    let ghost cls0 = classes@;
    match node {
        Node::Text(s) => {
            let d = text_dom_of(s);
            proof { lemma_doms_push(out0, d); }
            out.push(d);
            assert(strings_model(classes@) =~= strings_model(cls0) + Seq::<Seq<char>>::empty());
        },
        Node::Expr(e) => {
            let d = DomNode::Expression(e.clone());
            proof { lemma_doms_push(out0, d); }
            out.push(d);
            assert(strings_model(classes@) =~= strings_model(cls0) + Seq::<Seq<char>>::empty());
        },
        Node::Element { name, attrs, children } => {
            let class_names = match class_value_of(attrs) {
                Some(v) => split_words(v.as_str()),
                None => {
                    let v: Vec<String> = Vec::new();
                    assert(strings_model(v@) =~= Seq::<Seq<char>>::empty());
                    v
                },
            };
            let mut k: usize = 0;
            while k < class_names.len()
                invariant
                    k <= class_names@.len(),
                    strings_model(classes@) == strings_model(cls0) + strings_model(class_names@).take(k as int),
                decreases class_names.len() - k,
            {
                let ghost before = classes@;
                let c = class_names[k].clone();
                classes.push(c);
                assert(strings_model(classes@) =~= strings_model(before).push(class_names@[k as int]@));
                assert(strings_model(class_names@).take(k + 1) =~= strings_model(class_names@).take(k as int).push(
                    class_names@[k as int]@,
                ));
                assert(strings_model(classes@) =~= strings_model(cls0) + strings_model(class_names@).take(k + 1));
                k = k + 1;
            }
            assert(strings_model(class_names@).take(class_names@.len() as int) =~= strings_model(class_names@));
            let mut prefix = key.clone();
            prefix.append("-");
            let mut kids: Vec<DomNode> = Vec::new();
            assert(doms_model(kids@) =~= Seq::<DomModel>::empty());
            dom_of_list(children, &prefix, &mut kids, classes);
            let d = DomNode::Element {
                tag: name.clone(),
                attributes: without_class_of(attrs),
                class_names,
                children: kids,
                key: key.clone(),
                inline_style: None,
            };
            proof { lemma_doms_push(out0, d); }
            out.push(d);
            assert(doms_model(kids@) =~= Seq::<DomModel>::empty() + dom_list(nodes_model(children@), prefix@));
            assert(strings_model(classes@) =~= strings_model(cls0) + classes_of(node_model(*node)));
        },
        Node::Fragment(children) => {
            let mut prefix = key.clone();
            prefix.append("-");
            dom_of_list(children, &prefix, out, classes);
        },
    }
}

fn dom_of_list(nodes: &Vec<Node>, prefix: &String, out: &mut Vec<DomNode>, classes: &mut Vec<String>)
    ensures
        doms_model(final(out)@) == doms_model(old(out)@) + dom_list(nodes_model(nodes@), prefix@),
        strings_model(final(classes)@) == strings_model(old(classes)@) + classes_list(nodes_model(nodes@)),
    decreases nodes, 0int,
{
    let ghost out0 = doms_model(out@);
    let ghost cls0 = strings_model(classes@);
    let mut k: usize = 0;
    assert(nodes@.take(0) =~= Seq::<Node>::empty());
    assert(doms_model(out@) =~= out0 + dom_list(nodes_model(nodes@.take(0)), prefix@));
    assert(strings_model(classes@) =~= cls0 + classes_list(nodes_model(nodes@.take(0))));
    while k < nodes.len()
        invariant
            k <= nodes@.len(),
            doms_model(out@) == out0 + dom_list(nodes_model(nodes@.take(k as int)), prefix@),
            strings_model(classes@) == cls0 + classes_list(nodes_model(nodes@.take(k as int))),
        decreases nodes.len() - k,
    {
        let ghost m = nodes_model(nodes@.take(k as int));
        let ghost c = node_model(nodes@[k as int]);
        proof {
            assert(nodes@.take(k + 1).drop_last() =~= nodes@.take(k as int));
            assert(nodes_model(nodes@.take(k + 1)) == m.push(c));
            assert(m.push(c).drop_last() =~= m);
            assert(decreases_to!(nodes => nodes@[k as int]));
        }
        let key = key_for(prefix, k);
        dom_of_node(&nodes[k], &key, out, classes);
        proof { crate::ast::lemma_nodes_model_len(nodes@.take(k as int)); }
        assert(dom_list(m.push(c), prefix@) == dom_list(m, prefix@) + dom_of(c, prefix@ + decimal(k as nat)));
        assert(doms_model(out@) =~= out0 + dom_list(nodes_model(nodes@.take(k + 1)), prefix@));
        assert(strings_model(classes@) =~= cls0 + classes_list(nodes_model(nodes@.take(k + 1))));
        k = k + 1;
    }
    assert(nodes@.take(nodes@.len() as int) =~= nodes@);
}

/// The DOM nodes of tree nodes, the `i`-th keyed `node` followed by `i`, with the class
/// names met on the way, in document order.
pub fn transform(nodes: Vec<Node>) -> (r: (Vec<DomNode>, Vec<String>))
    ensures
        doms_model(r.0@) == dom_list(nodes_model(nodes@), "node"@),
        strings_model(r.1@) == classes_list(nodes_model(nodes@)),
{
    let mut out: Vec<DomNode> = Vec::new();
    let mut classes: Vec<String> = Vec::new();
    assert(doms_model(out@) =~= Seq::<DomModel>::empty());
    assert(strings_model(classes@) =~= Seq::<Seq<char>>::empty());
    let prefix = String::from_str("node");
    dom_of_list(&nodes, &prefix, &mut out, &mut classes);
    assert(doms_model(out@) =~= dom_list(nodes_model(nodes@), "node"@));
    assert(strings_model(classes@) =~= classes_list(nodes_model(nodes@)));
    (out, classes)
}

/// The text outline of a DOM node whose lines start with `ind`; children are indented
/// two levels deeper.
pub open spec fn dom_text(n: DomModel, ind: Seq<char>) -> Seq<char>
    decreases n, 1int,
{
    match n {
        DomModel::Text(t) => ind + "Text: "@ + t + "\n"@,
        DomModel::Expression(e) => ind + "Expression: { "@ + e + " }\n"@,
        DomModel::Element { tag, attributes, class_names, children, key, inline_style } => ind
            + "Element: <"@ + tag + "> (key: "@ + key + ")\n"@ + attrs_block(attributes, ind)
            + classes_block(class_names, ind) + style_block(inline_style, ind) + if children.len() == 0 {
            ind + "  Children: None\n"@
        } else {
            ind + "  Children:\n"@ + children_text(children, ind + "    "@)
        },
    }
}

pub open spec fn attrs_block(attributes: Seq<(Seq<char>, Seq<char>)>, ind: Seq<char>) -> Seq<char> {
    if attributes.len() == 0 {
        Seq::empty()
    } else {
        ind + "  Attributes:\n"@ + attrs_text(attributes, ind)
    }
}

pub open spec fn classes_block(class_names: Seq<Seq<char>>, ind: Seq<char>) -> Seq<char> {
    if class_names.len() == 0 {
        Seq::empty()
    } else {
        ind + "  Class Names:\n"@ + classes_text(class_names, ind)
    }
}

pub open spec fn style_block(inline_style: Option<Seq<char>>, ind: Seq<char>) -> Seq<char> {
    match inline_style {
        Some(st) => ind + "  Inline Style: "@ + st + "\n"@,
        None => Seq::empty(),
    }
}

/// The outlines of DOM nodes, in order, each with lines starting with `ind`.
pub open spec fn children_text(s: Seq<DomModel>, ind: Seq<char>) -> Seq<char>
    decreases s, 0int,
{
    if s.len() == 0 {
        Seq::empty()
    } else {
        children_text(s.drop_last(), ind) + dom_text(s.last(), ind)
    }
}

/// One line `name = "value"` per attribute.
pub open spec fn attrs_text(s: Seq<(Seq<char>, Seq<char>)>, ind: Seq<char>) -> Seq<char>
    decreases s.len(),
{
    if s.len() == 0 {
        Seq::empty()
    } else {
        attrs_text(s.drop_last(), ind) + ind + "    "@ + s.last().0 + " = \""@ + s.last().1 + "\"\n"@
    }
}

/// One line per class name.
pub open spec fn classes_text(s: Seq<Seq<char>>, ind: Seq<char>) -> Seq<char>
    decreases s.len(),
{
    if s.len() == 0 {
        Seq::empty()
    } else {
        classes_text(s.drop_last(), ind) + ind + "    "@ + s.last() + "\n"@
    }
}

fn write_attrs(attributes: &Vec<(String, String)>, ind: &String, out: &mut String)
    ensures
        final(out)@ == old(out)@ + attrs_block(pairs_model(attributes@), ind@),
{
    let ghost start = out@;
    if attributes.len() == 0 {
        assert(out@ =~= start + attrs_block(pairs_model(attributes@), ind@));
        return;
    }
    out.append(ind.as_str());
    out.append("  Attributes:\n");
    let ghost h0 = out@;
    let mut k: usize = 0;
    assert(pairs_model(attributes@).take(0) =~= Seq::<(Seq<char>, Seq<char>)>::empty());
    while k < attributes.len()
        invariant
            k <= attributes@.len(),
            out@ == h0 + attrs_text(pairs_model(attributes@).take(k as int), ind@),
        decreases attributes.len() - k,
    {
        assert(pairs_model(attributes@).take(k + 1).drop_last() =~= pairs_model(attributes@).take(k as int));
        out.append(ind.as_str());
        out.append("    ");
        out.append(attributes[k].0.as_str());
        out.append(" = \"");
        out.append(attributes[k].1.as_str());
        out.append("\"\n");
        assert(out@ =~= h0 + attrs_text(pairs_model(attributes@).take(k + 1), ind@));
        k = k + 1;
    }
    assert(pairs_model(attributes@).take(attributes@.len() as int) =~= pairs_model(attributes@));
    assert(out@ =~= start + attrs_block(pairs_model(attributes@), ind@));
}

fn write_classes(class_names: &Vec<String>, ind: &String, out: &mut String)
    ensures
        final(out)@ == old(out)@ + classes_block(strings_model(class_names@), ind@),
{
    let ghost start = out@;
    if class_names.len() == 0 {
        assert(out@ =~= start + classes_block(strings_model(class_names@), ind@));
        return;
    }
    out.append(ind.as_str());
    out.append("  Class Names:\n");
    let ghost h0 = out@;
    let mut k: usize = 0;
    assert(strings_model(class_names@).take(0) =~= Seq::<Seq<char>>::empty());
    while k < class_names.len()
        invariant
            k <= class_names@.len(),
            out@ == h0 + classes_text(strings_model(class_names@).take(k as int), ind@),
        decreases class_names.len() - k,
    {
        assert(strings_model(class_names@).take(k + 1).drop_last() =~= strings_model(class_names@).take(k as int));
        out.append(ind.as_str());
        out.append("    ");
        out.append(class_names[k].as_str());
        out.append("\n");
        assert(out@ =~= h0 + classes_text(strings_model(class_names@).take(k + 1), ind@));
        k = k + 1;
    }
    assert(strings_model(class_names@).take(class_names@.len() as int) =~= strings_model(class_names@));
    assert(out@ =~= start + classes_block(strings_model(class_names@), ind@));
}

fn write_style(inline_style: &Option<String>, ind: &String, out: &mut String)
    ensures
        final(out)@ == old(out)@ + style_block(crate::ast::opt_string_model(*inline_style), ind@),
{
    let ghost start = out@;
    match inline_style {
        Some(st) => {
            out.append(ind.as_str());
            out.append("  Inline Style: ");
            out.append(st.as_str());
            out.append("\n");
        },
        None => {},
    }
    assert(out@ =~= start + style_block(crate::ast::opt_string_model(*inline_style), ind@));
}

fn write_element(
    tag: &String,
    attributes: &Vec<(String, String)>,
    class_names: &Vec<String>,
    children: &Vec<DomNode>,
    key: &String,
    inline_style: &Option<String>,
    ind: &String,
    out: &mut String,
)
    ensures
        final(out)@ == old(out)@ + (ind@ + "Element: <"@ + tag@ + "> (key: "@ + key@ + ")\n"@
            + attrs_block(pairs_model(attributes@), ind@) + classes_block(strings_model(class_names@), ind@)
            + style_block(crate::ast::opt_string_model(*inline_style), ind@) + if doms_model(children@).len()
            == 0 {
            ind@ + "  Children: None\n"@
        } else {
            ind@ + "  Children:\n"@ + children_text(doms_model(children@), ind@ + "    "@)
        }),
    decreases children, 1int,
{
    let ghost start = out@;
    out.append(ind.as_str());
    out.append("Element: <");
    out.append(tag.as_str());
    out.append("> (key: ");
    out.append(key.as_str());
    out.append(")\n");
    let ghost h0 = out@;
    write_attrs(attributes, ind, out);
    write_classes(class_names, ind, out);
    write_style(inline_style, ind, out);
    let ghost h3 = out@;
    proof { lemma_doms_len(children@); }
    if children.len() == 0 {
        out.append(ind.as_str());
        out.append("  Children: None\n");
    } else {
        out.append(ind.as_str());
        out.append("  Children:\n");
        let mut deeper = ind.clone();
        deeper.append("    ");
        write_nodes(children, &deeper, out);
    }
    let ghost tail = if doms_model(children@).len() == 0 {
        ind@ + "  Children: None\n"@
    } else {
        ind@ + "  Children:\n"@ + children_text(doms_model(children@), ind@ + "    "@)
    };
    assert(out@ =~= h3 + tail);
    assert(h0 =~= start + (ind@ + "Element: <"@ + tag@ + "> (key: "@ + key@ + ")\n"@));
}

fn write_node(n: &DomNode, ind: &String, out: &mut String)
    ensures
        final(out)@ == old(out)@ + dom_text(dom_model(*n), ind@),
    decreases n, 2int,
{
    let ghost start = out@;
    match n {
        DomNode::Text(t) => {
            out.append(ind.as_str());
            out.append("Text: ");
            out.append(t.as_str());
            out.append("\n");
            assert(out@ =~= start + dom_text(dom_model(*n), ind@));
        },
        DomNode::Expression(e) => {
            out.append(ind.as_str());
            out.append("Expression: { ");
            out.append(e.as_str());
            out.append(" }\n");
            assert(out@ =~= start + dom_text(dom_model(*n), ind@));
        },
        DomNode::Element { tag, attributes, class_names, children, key, inline_style } => {
            write_element(tag, attributes, class_names, children, key, inline_style, ind, out);
        },
    }
}

pub proof fn lemma_doms_len(s: Seq<DomNode>)
    ensures
        doms_model(s).len() == s.len(),
    decreases s.len(),
{
    if s.len() > 0 {
        lemma_doms_len(s.drop_last());
    }
}

fn write_nodes(nodes: &Vec<DomNode>, ind: &String, out: &mut String)
    ensures
        final(out)@ == old(out)@ + children_text(doms_model(nodes@), ind@),
    decreases nodes, 0int,
{
    let ghost start = out@;
    let mut k: usize = 0;
    assert(nodes@.take(0) =~= Seq::<DomNode>::empty());
    while k < nodes.len()
        invariant
            k <= nodes@.len(),
            out@ == start + children_text(doms_model(nodes@.take(k as int)), ind@),
        decreases nodes.len() - k,
    {
        let ghost m = doms_model(nodes@.take(k as int));
        let ghost c = dom_model(nodes@[k as int]);
        proof {
            assert(nodes@.take(k + 1).drop_last() =~= nodes@.take(k as int));
            assert(doms_model(nodes@.take(k + 1)) == m.push(c));
            assert(m.push(c).drop_last() =~= m);
            assert(decreases_to!(nodes => nodes@[k as int]));
        }
        write_node(&nodes[k], ind, out);
        assert(out@ =~= start + children_text(doms_model(nodes@.take(k + 1)), ind@));
        k = k + 1;
    }
    assert(nodes@.take(nodes@.len() as int) =~= nodes@);
}

impl DomNode {
    /// The text outline of this node and the nodes below it.
    pub fn to_text(&self) -> (r: String)
        ensures
            r@ == dom_text(dom_model(*self), Seq::empty()),
    {
        let mut out = String::new();
        let ind = String::new();
        write_node(self, &ind, &mut out);
        assert(out@ =~= dom_text(dom_model(*self), Seq::empty()));
        out
    }
}

} // verus!
