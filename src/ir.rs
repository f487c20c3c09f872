//! The intermediate representation: flattened node trees and instruction lists.

use vstd::prelude::*;
use crate::ast::{NodeModel, owned_strings};

verus! {

/// An instruction of a function body.
#[derive(Debug, Clone, PartialEq, Eq)]
pub enum Instruction {
    /// Load a constant, as text.
    LoadConst(String),
    /// Load the parameter with this index.
    LoadParam(usize),
    CallFunction(String),
    SetState(String),
    GetState(String),
    Return,
}

pub enum InstructionModel {
    LoadConst(Seq<char>),
    LoadParam(nat),
    CallFunction(Seq<char>),
    SetState(Seq<char>),
    GetState(Seq<char>),
    Return,
}

pub open spec fn instruction_model(i: Instruction) -> InstructionModel {
    match i {
        Instruction::LoadConst(s) => InstructionModel::LoadConst(s@),
        Instruction::LoadParam(n) => InstructionModel::LoadParam(n as nat),
        Instruction::CallFunction(s) => InstructionModel::CallFunction(s@),
        Instruction::SetState(s) => InstructionModel::SetState(s@),
        Instruction::GetState(s) => InstructionModel::GetState(s@),
        Instruction::Return => InstructionModel::Return,
    }
}

pub open spec fn instructions_model(v: Seq<Instruction>) -> Seq<InstructionModel> {
    v.map_values(|i: Instruction| instruction_model(i))
}

/// A function of the intermediate representation.
#[derive(Debug, Clone, PartialEq, Eq)]
pub struct IrFunction {
    pub name: String,
    pub params: Vec<String>,
    pub instructions: Vec<Instruction>,
}

impl IrFunction {
    pub fn new(name: &str, params: Vec<&str>, instructions: Vec<Instruction>) -> (r: IrFunction)
        ensures
            r.name@ == name@,
            r.params@.len() == params@.len(),
            forall|i: int| 0 <= i < params@.len() ==> #[trigger] r.params@[i]@ == params@[i]@,
            r.instructions == instructions,
    {
        IrFunction { name: String::from_str(name), params: owned_strings(params), instructions }
    }
}

/// A lowered node: as a tree node, with attributes as name/value pairs.
#[derive(Debug, PartialEq, Eq)]
pub enum IrNode {
    Text(String),
    Element { name: String, attrs: Vec<(String, String)>, children: Vec<IrNode> },
    Fragment(Vec<IrNode>),
    Expr(String),
}

pub open spec fn pairs_model(v: Seq<(String, String)>) -> Seq<(Seq<char>, Seq<char>)> {
    v.map_values(|p: (String, String)| (p.0@, p.1@))
}

pub open spec fn ir_model(n: IrNode) -> NodeModel
    decreases n, 1int,
{
    match n {
        IrNode::Text(s) => NodeModel::Text(s@),
        IrNode::Element { name, attrs, children } => NodeModel::Element {
            name: name@,
            attrs: pairs_model(attrs@),
            children: irs_model(children@),
        },
        IrNode::Fragment(children) => NodeModel::Fragment(irs_model(children@)),
        IrNode::Expr(s) => NodeModel::Expr(s@),
    }
}

pub open spec fn irs_model(s: Seq<IrNode>) -> Seq<NodeModel>
    decreases s, 0int,
{
    if s.len() == 0 {
        Seq::empty()
    } else {
        irs_model(s.drop_last()).push(ir_model(s.last()))
    }
}

pub proof fn lemma_irs_push(s: Seq<IrNode>, n: IrNode)
    ensures
        irs_model(s.push(n)) == irs_model(s).push(ir_model(n)),
{
    assert(s.push(n).drop_last() =~= s);
}

pub proof fn lemma_irs_append(s: Seq<IrNode>, t: Seq<IrNode>)
    ensures
        irs_model(s + t) == irs_model(s) + irs_model(t),
    decreases t.len(),
{
    if t.len() == 0 {
        assert(s + t =~= s);
        assert(irs_model(s) + irs_model(t) =~= irs_model(s));
    } else {
        lemma_irs_append(s, t.drop_last());
        assert((s + t).drop_last() =~= s + t.drop_last());
        assert(irs_model(s) + irs_model(t) =~= (irs_model(s) + irs_model(t.drop_last())).push(
            ir_model(t.last()),
        ));
    }
}

impl IrNode {
    pub fn text(content: &str) -> (r: IrNode)
        ensures
            ir_model(r) == NodeModel::Text(content@),
    {
        IrNode::Text(String::from_str(content))
    }

    pub fn element(name: &str, attrs: Vec<(String, String)>, children: Vec<IrNode>) -> (r: IrNode)
        ensures
            r == (IrNode::Element { name: r->name, attrs, children }),
            r->name@ == name@,
    {
        IrNode::Element { name: String::from_str(name), attrs, children }
    }

    pub fn fragment(children: Vec<IrNode>) -> (r: IrNode)
        ensures
            r == IrNode::Fragment(children),
    {
        IrNode::Fragment(children)
    }
}

/// A lowered page.
#[derive(Debug)]
pub struct IrPage {
    pub name: String,
    pub layout: Option<String>,
    pub render: Vec<IrNode>,
    pub functions: Vec<IrFunction>,
}

impl IrPage {
    pub fn new(name: &str, layout: Option<&str>, render: Vec<IrNode>, functions: Vec<IrFunction>) -> (r:
        IrPage)
        ensures
            r.name@ == name@,
            layout is None ==> r.layout is None,
            layout is Some ==> r.layout is Some && r.layout->0@ == layout->0@,
            r.render == render,
            r.functions == functions,
    {
        let layout = match layout {
            Some(l) => Some(String::from_str(l)),
            None => None,
        };
        IrPage { name: String::from_str(name), layout, render, functions }
    }
}

/// Whether `i` is the first index in `names` that holds `name`.
pub open spec fn first_named(names: Seq<Seq<char>>, name: Seq<char>, i: int) -> bool {
    0 <= i < names.len() && names[i] == name && forall|j: int| 0 <= j < i ==> names[j] != name
}

/// A whole program: its pages and top-level functions.
#[derive(Debug)]
pub struct IrProgram {
    pub pages: Vec<IrPage>,
    pub functions: Vec<IrFunction>,
}

pub open spec fn page_names(v: Seq<IrPage>) -> Seq<Seq<char>> {
    v.map_values(|p: IrPage| p.name@)
}

pub open spec fn function_names(v: Seq<IrFunction>) -> Seq<Seq<char>> {
    v.map_values(|f: IrFunction| f.name@)
}

impl IrProgram {
    pub fn new(pages: Vec<IrPage>, functions: Vec<IrFunction>) -> (r: IrProgram)
        ensures
            r.pages == pages,
            r.functions == functions,
    {
        IrProgram { pages, functions }
    }

    /// The first page named `name`.
    pub fn get_page(&self, name: &str) -> (r: Option<&IrPage>)
        ensures
            r is None ==> !page_names(self.pages@).contains(name@),
            r is Some ==> exists|i: int| first_named(page_names(self.pages@), name@, i) && self.pages@[i] == *r->0,
    {
        let mut i: usize = 0;
        while i < self.pages.len()
            invariant
                i <= self.pages@.len(),
                forall|j: int| 0 <= j < i ==> page_names(self.pages@)[j] != name@,
            decreases self.pages.len() - i,
        {
            if same_text(self.pages[i].name.as_str(), name) {
                assert(first_named(page_names(self.pages@), name@, i as int));
                return Some(&self.pages[i]);
            }
            i = i + 1;
        }
        proof {
            if page_names(self.pages@).contains(name@) {
                let k = choose|k: int| 0 <= k < page_names(self.pages@).len() && page_names(self.pages@)[k] == name@;
                assert(page_names(self.pages@)[k] != name@);
            }
        }
        None
    }

    /// The first top-level function named `name`.
    pub fn get_function(&self, name: &str) -> (r: Option<&IrFunction>)
        ensures
            r is None ==> !function_names(self.functions@).contains(name@),
            r is Some ==> exists|i: int| first_named(function_names(self.functions@), name@, i) && self.functions@[i] == *r->0,
    {
        let mut i: usize = 0;
        while i < self.functions.len()
            invariant
                i <= self.functions@.len(),
                forall|j: int| 0 <= j < i ==> function_names(self.functions@)[j] != name@,
            decreases self.functions.len() - i,
        {
            if same_text(self.functions[i].name.as_str(), name) {
                assert(first_named(function_names(self.functions@), name@, i as int));
                return Some(&self.functions[i]);
            }
            i = i + 1;
        }
        proof {
            if function_names(self.functions@).contains(name@) {
                let k = choose|k: int| 0 <= k < function_names(self.functions@).len() && function_names(self.functions@)[k] == name@;
                assert(function_names(self.functions@)[k] != name@);
            }
        }
        None
    }
}

/// Whether two strings hold the same characters.
pub fn same_text(a: &str, b: &str) -> (r: bool)
    ensures
        r == (a@ == b@),
{
    let n = a.unicode_len();
    if n != b.unicode_len() {
        return false;
    }
    let mut k: usize = 0;
    while k < n
        invariant
            k <= n,
            n == a@.len(),
            n == b@.len(),
            forall|m: int| 0 <= m < k ==> a@[m] == b@[m],
        decreases n - k,
    {
        if a.get_char(k) != b.get_char(k) {
            return false;
        }
        k = k + 1;
    }
    assert(a@ =~= b@);
    true
}

} // verus!
