//! Lowering of the tree to the intermediate representation: blank text runs vanish and
//! fragments are spliced into their parents.

use vstd::prelude::*;
use crate::ast::{Node, Attribute, Function, PageDecl, ASTNode, NodeModel, nodes_model, attrs_model, strings_model};
use crate::ir::{IrNode, IrFunction, IrPage, Instruction, InstructionModel, ir_model, instruction_model, irs_model, pairs_model,
    instructions_model, lemma_irs_push, lemma_irs_append};
use crate::scan::{trim, trim_string};

verus! {

/// The lowered form of a node. A blank text run becomes an empty fragment; elements and
/// fragments have their children lowered and spliced.
pub open spec fn lower(n: NodeModel) -> NodeModel
    decreases n, 1int,
{
    match n {
        NodeModel::Text(s) => if trim(s).len() == 0 {
            NodeModel::Fragment(Seq::empty())
        } else {
            NodeModel::Text(trim(s))
        },
        NodeModel::Expr(s) => NodeModel::Expr(s),
        NodeModel::Element { name, attrs, children } => NodeModel::Element {
            name,
            attrs,
            children: lower_all(children),
        },
        NodeModel::Fragment(children) => NodeModel::Fragment(lower_all(children)),
    }
}

/// The nodes a lowered node contributes to its parent: a fragment's children, or itself.
pub open spec fn splice(n: NodeModel) -> Seq<NodeModel> {
    match n {
        NodeModel::Fragment(children) => children,
        _ => seq![n],
    }
}

/// The lowered forms of a sequence of nodes, fragments spliced in.
pub open spec fn lower_all(s: Seq<NodeModel>) -> Seq<NodeModel>
    decreases s, 0int,
{
    if s.len() == 0 {
        Seq::empty()
    } else {
        lower_all(s.drop_last()) + splice(lower(s.last()))
    }
}

/// The instructions a function lowers to: one load per declared parameter, in order,
/// then one constant per body line, then a return.
pub open spec fn lower_body(params: nat, body: Seq<Seq<char>>) -> Seq<InstructionModel> {
    Seq::new(params, |i: int| InstructionModel::LoadParam(i as nat)) + body.map_values(
        |b: Seq<char>| InstructionModel::LoadConst(b),
    ) + seq![InstructionModel::Return]
}

pub(crate) fn attr_pairs(attrs: &Vec<Attribute>) -> (r: Vec<(String, String)>)
    ensures
        pairs_model(r@) == attrs_model(attrs@),
{
    let mut r: Vec<(String, String)> = Vec::new();
    let mut k: usize = 0;
    while k < attrs.len()
        invariant
            k <= attrs@.len(),
            r@.len() == k,
            forall|i: int| 0 <= i < k ==> #[trigger] r@[i].0@ == attrs@[i].name@ && r@[i].1@ == attrs@[i].value@,
        decreases attrs.len() - k,
    {
        let name = attrs[k].name.clone();
        let value = attrs[k].value.clone();
        r.push((name, value));
        k = k + 1;
    }
    assert(pairs_model(r@) =~= attrs_model(attrs@));
    r
}

fn lower_children(children: &Vec<Node>) -> (r: Vec<IrNode>)
    ensures
        irs_model(r@) == lower_all(nodes_model(children@)),
    decreases children, 0int,
{
    let mut r: Vec<IrNode> = Vec::new();
    let mut k: usize = 0;
    assert(children@.take(0) =~= Seq::<Node>::empty());
    while k < children.len()
        invariant
            k <= children@.len(),
            irs_model(r@) == lower_all(nodes_model(children@.take(k as int))),
        decreases children.len() - k,
    {
        let ghost before = r@;
        let ghost m = nodes_model(children@.take(k as int));
        let ghost c = crate::ast::node_model(children@[k as int]);
        proof {
            assert(children@.take(k + 1).drop_last() =~= children@.take(k as int));
            assert(nodes_model(children@.take(k + 1)) == m.push(c));
            assert(m.push(c).drop_last() =~= m);
            assert(lower_all(m.push(c)) == lower_all(m) + splice(lower(c)));
            assert(decreases_to!(children => children@[k as int]));
        }
        let lowered = ir_node_from_ast(&children[k]);
        match lowered {
            IrNode::Fragment(mut nodes) => {
                let ghost ns = nodes@;
                r.append(&mut nodes);
                proof {
                    lemma_irs_append(before, ns);
                }
            },
            other => {
                proof {
                    lemma_irs_push(before, other);
                }
                r.push(other);
            },
        }
        k = k + 1;
    }
    assert(children@.take(children@.len() as int) =~= children@);
    r
}

/// The lowered form of one node.
pub fn ir_node_from_ast(node: &Node) -> (r: IrNode)
    ensures
        ir_model(r) == lower(crate::ast::node_model(*node)),
    decreases node, 1int,
{
    match node {
        Node::Text(text) => {
            let trimmed = trim_string(text.as_str());
            if trimmed.as_str().unicode_len() == 0 {
                let empty: Vec<IrNode> = Vec::new();
                assert(irs_model(empty@) =~= Seq::<NodeModel>::empty());
                IrNode::Fragment(empty)
            } else {
                IrNode::Text(trimmed)
            }
        },
        Node::Expr(e) => IrNode::Expr(e.clone()),
        Node::Element { name, attrs, children } => IrNode::Element {
            name: name.clone(),
            attrs: attr_pairs(attrs),
            children: lower_children(children),
        },
        Node::Fragment(children) => IrNode::Fragment(lower_children(children)),
    }
}

/// The mathematical value of a lowered function.
pub struct IrFunctionModel {
    pub name: Seq<char>,
    pub params: Seq<Seq<char>>,
    pub instructions: Seq<InstructionModel>,
}

/// The mathematical value of a lowered page.
pub struct IrPageModel {
    pub name: Seq<char>,
    pub layout: Option<Seq<char>>,
    pub render: Seq<NodeModel>,
    pub functions: Seq<IrFunctionModel>,
}

pub open spec fn ir_function_model(f: IrFunction) -> IrFunctionModel {
    IrFunctionModel {
        name: f.name@,
        params: strings_model(f.params@),
        instructions: instructions_model(f.instructions@),
    }
}

pub open spec fn ir_page_model(p: IrPage) -> IrPageModel {
    IrPageModel {
        name: p.name@,
        layout: crate::ast::opt_string_model(p.layout),
        render: irs_model(p.render@),
        functions: p.functions@.map_values(|f: IrFunction| ir_function_model(f)),
    }
}

pub open spec fn ir_pages_model(v: Seq<IrPage>) -> Seq<IrPageModel> {
    v.map_values(|p: IrPage| ir_page_model(p))
}

/// The lowered form of a function.
pub open spec fn lower_function(f: crate::ast::FunctionModel) -> IrFunctionModel {
    IrFunctionModel {
        name: f.name,
        params: f.params,
        instructions: lower_body(f.params.len(), f.body),
    }
}

/// The lowered form of a page: each render node lowered in place, each function lowered.
pub open spec fn lower_page(p: crate::ast::PageModel) -> IrPageModel {
    IrPageModel {
        name: p.name,
        layout: p.layout,
        render: p.render.map_values(|n: NodeModel| lower(n)),
        functions: p.functions.map_values(|f: crate::ast::FunctionModel| lower_function(f)),
    }
}

/// The lowered pages of a program, in order; imports have no lowered form.
pub open spec fn lower_program(ds: Seq<crate::ast::DeclModel>) -> Seq<IrPageModel>
    decreases ds.len(),
{
    if ds.len() == 0 {
        Seq::empty()
    } else {
        lower_program(ds.drop_last()) + match ds.last() {
            crate::ast::DeclModel::Page(p) => seq![lower_page(p)],
            crate::ast::DeclModel::Import(_) => Seq::empty(),
        }
    }
}

fn ir_function_from_ast(func: &Function) -> (r: IrFunction)
    ensures
        ir_function_model(r) == lower_function(crate::ast::function_model(*func)),
{
    let ghost want = lower_body(func.params@.len(), strings_model(func.body@));
    let n = func.params.len();
    let mut instructions: Vec<Instruction> = Vec::new();
    let mut i: usize = 0;
    while i < n
        invariant
            i <= n == func.params@.len(),
            instructions@.len() == i,
            want == lower_body(func.params@.len(), strings_model(func.body@)),
            forall|m: int| 0 <= m < i ==> #[trigger] instruction_model(instructions@[m]) == want[m],
        decreases n - i,
    {
        instructions.push(Instruction::LoadParam(i));
        i = i + 1;
    }
    let mut k: usize = 0;
    while k < func.body.len()
        invariant
            k <= func.body@.len(),
            n == func.params@.len(),
            instructions@.len() == n + k,
            want == lower_body(func.params@.len(), strings_model(func.body@)),
            forall|m: int| 0 <= m < n + k ==> #[trigger] instruction_model(instructions@[m]) == want[m],
        decreases func.body.len() - k,
    {
        instructions.push(Instruction::LoadConst(func.body[k].clone()));
        k = k + 1;
    }
    instructions.push(Instruction::Return);
    assert(instructions_model(instructions@) =~= want);
    let mut params: Vec<String> = Vec::new();
    let mut j: usize = 0;
    while j < func.params.len()
        invariant
            j <= func.params@.len(),
            params@.len() == j,
            forall|m: int| 0 <= m < j ==> #[trigger] params@[m]@ == func.params@[m]@,
        decreases func.params.len() - j,
    {
        params.push(func.params[j].clone());
        j = j + 1;
    }
    assert(strings_model(params@) =~= strings_model(func.params@));
    IrFunction { name: func.name.clone(), params, instructions }
}

fn ir_page_from_ast(page: &PageDecl) -> (r: IrPage)
    ensures
        ir_page_model(r) == lower_page(crate::parser::page_model(*page)),
{
    let mut render: Vec<IrNode> = Vec::new();
    let mut k: usize = 0;
    while k < page.render.len()
        invariant
            k <= page.render@.len(),
            irs_model(render@) == nodes_model(page.render@.take(k as int)).map_values(|n: NodeModel| lower(n)),
        decreases page.render.len() - k,
    {
        let ghost before = render@;
        let n = ir_node_from_ast(&page.render[k]);
        proof {
            lemma_irs_push(before, n);
            assert(page.render@.take(k + 1).drop_last() =~= page.render@.take(k as int));
        }
        render.push(n);
        assert(irs_model(render@) =~= nodes_model(page.render@.take(k + 1)).map_values(|n: NodeModel| lower(n)));
        k = k + 1;
    }
    assert(page.render@.take(page.render@.len() as int) =~= page.render@);
    let mut functions: Vec<IrFunction> = Vec::new();
    let mut j: usize = 0;
    while j < page.functions.len()
        invariant
            j <= page.functions@.len(),
            functions@.len() == j,
            forall|m: int| 0 <= m < j ==> #[trigger] ir_function_model(functions@[m]) == lower_function(
                crate::ast::function_model(page.functions@[m]),
            ),
        decreases page.functions.len() - j,
    {
        functions.push(ir_function_from_ast(&page.functions[j]));
        j = j + 1;
    }
    let layout = match &page.layout {
        Some(l) => Some(l.clone()),
        None => None,
    };
    let r = IrPage { name: page.name.clone(), layout, render, functions };
    assert(r.functions@.map_values(|f: IrFunction| ir_function_model(f)) =~= crate::ast::functions_model(
        page.functions@,
    ).map_values(|f: crate::ast::FunctionModel| lower_function(f)));
    r
}

/// The lowered pages of a program, in order.
pub fn compile_ast_to_ir(ast_nodes: &[ASTNode]) -> (r: Vec<IrPage>)
    ensures
        ir_pages_model(r@) == lower_program(crate::ast::decls_model(ast_nodes@)),
{
    let mut r: Vec<IrPage> = Vec::new();
    let mut k: usize = 0;
    assert(ir_pages_model(r@) =~= Seq::<IrPageModel>::empty());
    while k < ast_nodes.len()
        invariant
            k <= ast_nodes@.len(),
            ir_pages_model(r@) == lower_program(crate::ast::decls_model(ast_nodes@.take(k as int))),
        decreases ast_nodes.len() - k,
    {
        let ghost before = r@;
        proof {
            assert(crate::ast::decls_model(ast_nodes@.take(k + 1)).drop_last() =~= crate::ast::decls_model(
                ast_nodes@.take(k as int),
            ));
        }
        match &ast_nodes[k] {
            ASTNode::Page(p) => {
                r.push(ir_page_from_ast(p));
                assert(ir_pages_model(r@) =~= ir_pages_model(before).push(ir_page_model(r@.last())));
            },
            ASTNode::Import(_) => {
                assert(ir_pages_model(before) + Seq::<IrPageModel>::empty() =~= ir_pages_model(before));
            },
        }
        k = k + 1;
    }
    assert(ast_nodes@.take(ast_nodes@.len() as int) =~= ast_nodes@);
    r
}

} // verus!
