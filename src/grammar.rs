//! The grammar of the language as spec functions over token models: what the parser
//! returns for every token sequence, including the failure it reports.

use vstd::prelude::*;
use crate::token::{TokenModel, render};
use crate::scan::trim;
use crate::ast::{NodeModel, FunctionModel, ImportModel, PageModel, DeclModel};

verus! {

/// Why a parse failed, and at which token.
pub enum Failure {
    /// A token that no production can start with, in its written form.
    Unexpected { at: int, found: Seq<char> },
    /// A structural mismatch.
    Syntax { at: int, message: Seq<char>, suggestion: Option<Seq<char>> },
    /// The end of input inside an open block.
    Unterminated { at: int, message: Seq<char> },
}

pub type Parsed<M> = Result<(M, int), Failure>;

pub open spec fn syntax<M>(at: int, message: Seq<char>) -> Parsed<M> {
    Err(Failure::Syntax { at, message, suggestion: None })
}

/// The token at `i`, or `EOF` past the end.
pub open spec fn peek(t: Seq<TokenModel>, i: int) -> TokenModel {
    if 0 <= i < t.len() {
        t[i]
    } else {
        TokenModel::EOF
    }
}

/// `item` in front of the items of a successful result.
pub open spec fn cons<M>(item: M, r: Parsed<Seq<M>>) -> Parsed<Seq<M>> {
    match r {
        Ok((items, e)) => Ok((seq![item] + items, e)),
        Err(f) => Err(f),
    }
}

/// `acc` in front of the items of a successful result.
pub open spec fn prepend<M>(acc: Seq<M>, r: Parsed<Seq<M>>) -> Parsed<Seq<M>> {
    match r {
        Ok((items, e)) => Ok((acc + items, e)),
        Err(f) => Err(f),
    }
}

/// The written forms of the tokens in `[a, b)`, each followed by a space.
pub open spec fn spaced(t: Seq<TokenModel>, a: int, b: int) -> Seq<char>
    decreases b - a,
{
    if a >= b {
        Seq::empty()
    } else {
        render(peek(t, a)) + " "@ + spaced(t, a + 1, b)
    }
}

/// A comma-separated list of identifiers closed by `close`; `k` is after the opening token.
pub open spec fn name_list(t: Seq<TokenModel>, k: int, close: TokenModel, message: Seq<char>) -> Parsed<
    Seq<Seq<char>>,
>
    decreases t.len() - k,
{
    if peek(t, k) == close {
        Ok((Seq::empty(), k + 1))
    } else if peek(t, k) is Ident {
        let j = if peek(t, k + 1) is Comma {
            k + 2
        } else {
            k + 1
        };
        if k < j <= t.len() {
            cons(peek(t, k)->Ident_0, name_list(t, j, close, message))
        } else {
            syntax(k, message)
        }
    } else {
        syntax(k, message)
    }
}

/// `import { A, B } from "module"`, with the `import` keyword at `i`.
pub open spec fn import_decl(t: Seq<TokenModel>, i: int) -> Parsed<ImportModel> {
    let names = if peek(t, i + 1) is LBrace {
        name_list(t, i + 2, TokenModel::RBrace, "Expected identifier in import list"@)
    } else {
        Ok((Seq::empty(), i + 1))
    };
    match names {
        Err(f) => Err(f),
        Ok((ns, k)) => if !(peek(t, k) is From) {
            syntax(k, "Expected 'from' in import statement"@)
        } else if peek(t, k + 1) is StringLiteral {
            Ok((ImportModel { names: ns, module: peek(t, k + 1)->StringLiteral_0 }, k + 2))
        } else {
            syntax(k + 1, "Expected module string after 'from'"@)
        },
    }
}

/// The first position at or after `k` whose token is not a blank text run.
pub open spec fn skip_blank(t: Seq<TokenModel>, k: int) -> int
    decreases t.len() - k,
{
    if 0 <= k < t.len() && peek(t, k) is Text && trim(peek(t, k)->Text_0).len() == 0 {
        skip_blank(t, k + 1)
    } else {
        k
    }
}

/// The position of the brace that closes a function body, `open` braces being open at `k`;
/// `None` at the end of input.
pub open spec fn body_close(t: Seq<TokenModel>, k: int, open: int) -> Option<int>
    decreases t.len() - k,
{
    if k < 0 || k >= t.len() || peek(t, k) is EOF {
        None
    } else if peek(t, k) is LBrace {
        body_close(t, k + 1, open + 1)
    } else if peek(t, k) is RBrace {
        if open - 1 == 0 {
            Some(k)
        } else {
            body_close(t, k + 1, open - 1)
        }
    } else {
        body_close(t, k + 1, open)
    }
}

/// The position of the `,` or `}` that ends an expression body; `None` at the end of input.
pub open spec fn expr_close(t: Seq<TokenModel>, k: int) -> Option<int>
    decreases t.len() - k,
{
    if k < 0 || k >= t.len() || peek(t, k) is EOF {
        None
    } else if peek(t, k) is Comma || peek(t, k) is RBrace {
        Some(k)
    } else {
        expr_close(t, k + 1)
    }
}

/// One entry `name: (params) => body` of a functions block, starting at `k`. A braced
/// body becomes one line of its tokens' written forms; any other body, up to the next
/// `,` or `}`, becomes `return <expr>`.
pub open spec fn function_entry(t: Seq<TokenModel>, k: int) -> Parsed<FunctionModel> {
    if !(peek(t, k) is Ident) {
        syntax(k, "Expected function name"@)
    } else if !(peek(t, k + 1) is Colon) {
        syntax(k + 1, "Expected ':' after function name"@)
    } else {
        let name = peek(t, k)->Ident_0;
        let p = skip_blank(t, k + 2);
        let params = if peek(t, p) is LParen {
            name_list(t, p + 1, TokenModel::RParen, "Expected parameter name"@)
        } else {
            Ok((Seq::empty(), p))
        };
        match params {
            Err(f) => Err(f),
            Ok((ps, a)) => {
                let b = skip_blank(t, a);
                if !(peek(t, b) is Arrow) {
                    syntax(b, "Expected '=>' after parameters"@)
                } else {
                    let c = skip_blank(t, b + 1);
                    if peek(t, c) is LBrace {
                        match body_close(t, c + 1, 1) {
                            None => Err(
                                Failure::Unterminated {
                                    at: c,
                                    message: "Expected '}' to close function body"@,
                                },
                            ),
                            Some(e) => Ok(
                                (
                                    FunctionModel {
                                        name,
                                        params: ps,
                                        body: seq![trim(spaced(t, c + 1, e))],
                                    },
                                    e + 1,
                                ),
                            ),
                        }
                    } else {
                        match expr_close(t, c) {
                            None => Err(
                                Failure::Unterminated {
                                    at: c,
                                    message: "Expected ',' or '}' after function body"@,
                                },
                            ),
                            Some(e) => Ok(
                                (
                                    FunctionModel {
                                        name,
                                        params: ps,
                                        body: seq!["return "@ + trim(spaced(t, c, e))],
                                    },
                                    e,
                                ),
                            ),
                        }
                    }
                }
            },
        }
    }
}

/// The entries of a functions block from `k` to its closing brace.
pub open spec fn function_list(t: Seq<TokenModel>, k: int) -> Parsed<Seq<FunctionModel>>
    decreases t.len() - k,
{
    if peek(t, k) is RBrace {
        Ok((Seq::empty(), k + 1))
    } else {
        match function_entry(t, k) {
            Err(f) => Err(f),
            Ok((f, e)) => {
                let n = skip_blank(
                    t,
                    if peek(t, e) is Comma {
                        e + 1
                    } else {
                        e
                    },
                );
                if k < n <= t.len() {
                    cons(f, function_list(t, n))
                } else {
                    syntax(k, "Expected function name"@)
                }
            },
        }
    }
}

/// A functions block `{ ... }` whose opening brace is at `k`.
pub open spec fn functions_block(t: Seq<TokenModel>, k: int) -> Parsed<Seq<FunctionModel>> {
    if !(peek(t, k) is LBrace) {
        syntax(k, "Expected '{' to start functions"@)
    } else {
        function_list(t, skip_blank(t, k + 1))
    }
}

/// The value of `{expr}` with the expression token at `k`.
pub open spec fn braced_value(t: Seq<TokenModel>, k: int) -> Parsed<Seq<char>> {
    if !(peek(t, k) is Ident) {
        syntax(k, "Expected expression inside '{' '}'"@)
    } else if !(peek(t, k + 1) is RBrace) {
        syntax(k + 1, "Expected '}' after expression"@)
    } else {
        Ok((peek(t, k)->Ident_0, k + 2))
    }
}

/// The value of an attribute whose name ends before `k`: `="v"`, `={e}`, `=v`, `:"v"`,
/// `:v` or `{e}`; with none of these, `"true"`.
pub open spec fn attr_value(t: Seq<TokenModel>, k: int) -> Parsed<Seq<char>> {
    let v = peek(t, k + 1);
    if peek(t, k) is EQ {
        if v is StringLiteral {
            Ok((v->StringLiteral_0, k + 2))
        } else if v is LBrace {
            braced_value(t, k + 2)
        } else if v is Ident {
            Ok((v->Ident_0, k + 2))
        } else {
            syntax(k + 1, "Expected value after '=' in attribute"@)
        }
    } else if peek(t, k) is Colon {
        if v is StringLiteral {
            Ok((v->StringLiteral_0, k + 2))
        } else if v is Ident {
            Ok((v->Ident_0, k + 2))
        } else {
            syntax(k + 1, "Expected value after ':' in attribute"@)
        }
    } else if peek(t, k) is LBrace {
        braced_value(t, k + 1)
    } else {
        Ok(("true"@, k))
    }
}

/// Whether a token ends the attributes of a tag.
pub open spec fn ends_tag(x: TokenModel) -> bool {
    x is GT || x is Slash || x is SlashGT
}

/// The attributes of a tag from `k` up to the token that ends it; other tokens are skipped.
pub open spec fn attr_list(t: Seq<TokenModel>, k: int) -> Parsed<Seq<(Seq<char>, Seq<char>)>>
    decreases t.len() - k,
{
    let x = peek(t, k);
    if ends_tag(x) {
        Ok((Seq::empty(), k))
    } else if x is EOF {
        Err(Failure::Unterminated { at: k, message: "Expected '>' to end the tag"@ })
    } else if x is Ident {
        match attr_value(t, k + 1) {
            Err(f) => Err(f),
            Ok((v, e)) => if k < e <= t.len() {
                cons((x->Ident_0, v), attr_list(t, e))
            } else {
                syntax(k, "Expected '>' to end the tag"@)
            },
        }
    } else if k + 1 <= t.len() {
        attr_list(t, k + 1)
    } else {
        syntax(k, "Expected '>' to end the tag"@)
    }
}

/// An embedded expression whose first token is at `k`: the written forms of its tokens up
/// to the closing brace.
pub open spec fn expr_node(t: Seq<TokenModel>, k: int) -> Parsed<NodeModel> {
    let e = match expr_close_brace(t, k) {
        Some(e) => e,
        None => t.len() as int,
    };
    if peek(t, e) is RBrace {
        Ok((NodeModel::Expr(trim(spaced(t, k, e))), e + 1))
    } else {
        Err(Failure::Unterminated { at: e, message: "Expected '}' to close expression block"@ })
    }
}

/// The position of the first `}` at or after `k`; `None` at the end of input.
pub open spec fn expr_close_brace(t: Seq<TokenModel>, k: int) -> Option<int>
    decreases t.len() - k,
{
    if k < 0 || k >= t.len() || peek(t, k) is EOF {
        None
    } else if peek(t, k) is RBrace {
        Some(k)
    } else {
        expr_close_brace(t, k + 1)
    }
}

pub open spec fn mismatch_message(open: Seq<char>, close: Seq<char>) -> Seq<char> {
    "Mismatched closing tag: expected </"@ + open + ">, found </"@ + close + ">"@
}

pub open spec fn mismatch_suggestion(open: Seq<char>) -> Seq<char> {
    "Change the closing tag to match the opening tag: </"@ + open + ">"@
}

/// One node starting at `k`: an element, a non-blank text run or an embedded expression.
pub open spec fn node(t: Seq<TokenModel>, k: int) -> Parsed<NodeModel>
    decreases t.len() - k, 0int,
{
    let x = peek(t, k);
    if x is LT {
        if peek(t, k + 1) is Slash {
            syntax(k + 1, "Unexpected closing tag"@)
        } else if !(peek(t, k + 1) is Ident) {
            syntax(k + 1, "Expected tag name after '<'"@)
        } else {
            let name = peek(t, k + 1)->Ident_0;
            match attr_list(t, k + 2) {
                Err(f) => Err(f),
                Ok((attrs, a)) => if peek(t, a) is SlashGT {
                    Ok((NodeModel::Element { name, attrs, children: Seq::empty() }, a + 1))
                } else if peek(t, a) is Slash {
                    if peek(t, a + 1) is GT {
                        Ok((NodeModel::Element { name, attrs, children: Seq::empty() }, a + 2))
                    } else {
                        syntax(a + 1, "Expected '>' after '/' in self-closing tag"@)
                    }
                } else if peek(t, a) is GT && k < a + 1 <= t.len() {
                    match children(t, a + 1, name) {
                        Err(f) => Err(f),
                        Ok((cs, e)) => Ok((NodeModel::Element { name, attrs, children: cs }, e)),
                    }
                } else {
                    syntax(a, "Expected '>' after tag name"@)
                },
            }
        }
    } else if x is Text && 0 <= k < t.len() {
        if trim(x->Text_0).len() > 0 {
            Ok((NodeModel::Text(trim(x->Text_0)), k + 1))
        } else {
            node(t, k + 1)
        }
    } else if x is LBrace {
        expr_node(t, k + 1)
    } else {
        syntax(k, "Unexpected token while parsing node: "@ + render(x))
    }
}

/// The children of an element named `name` from `k` up to and including its closing tag.
pub open spec fn children(t: Seq<TokenModel>, k: int, name: Seq<char>) -> Parsed<Seq<NodeModel>>
    decreases t.len() - k, 1int,
{
    let x = peek(t, k);
    if x is LT && peek(t, k + 1) is Slash {
        let c = peek(t, k + 2);
        if !(c is Ident) {
            syntax(k + 2, "Expected closing tag name"@)
        } else if c->Ident_0 != name {
            Err(
                Failure::Syntax {
                    at: k + 2,
                    message: mismatch_message(name, c->Ident_0),
                    suggestion: Some(mismatch_suggestion(name)),
                },
            )
        } else if !(peek(t, k + 3) is GT) {
            syntax(k + 3, "Expected '>' after closing tag"@)
        } else {
            Ok((Seq::empty(), k + 4))
        }
    } else if x is EOF {
        Err(Failure::Unterminated { at: k, message: "Expected closing tag </"@ + name + ">"@ })
    } else if x is LT || x is LBrace {
        let n = if x is LT {
            node(t, k)
        } else {
            expr_node(t, k + 1)
        };
        match n {
            Err(f) => Err(f),
            Ok((n, e)) => if k < e <= t.len() {
                cons(n, children(t, e, name))
            } else {
                syntax(k, "Expected closing tag"@)
            },
        }
    } else if 0 <= k < t.len() {
        if x is Text && trim(x->Text_0).len() > 0 {
            cons(NodeModel::Text(trim(x->Text_0)), children(t, k + 1, name))
        } else {
            children(t, k + 1, name)
        }
    } else {
        syntax(k, "Expected closing tag"@)
    }
}

/// The nodes of a render block from `k` up to and including its closing brace.
pub open spec fn render_nodes(t: Seq<TokenModel>, k: int) -> Parsed<Seq<NodeModel>>
    decreases t.len() - k,
{
    let x = peek(t, k);
    if x is RBrace {
        Ok((Seq::empty(), k + 1))
    } else if x is EOF {
        Err(Failure::Unterminated { at: k, message: "Expected '}' to close render block"@ })
    } else {
        match node(t, k) {
            Err(f) => Err(f),
            Ok((n, e)) => if k < e <= t.len() {
                cons(n, render_nodes(t, e))
            } else {
                syntax(k, "Expected '}' to close render block"@)
            },
        }
    }
}

/// The layout, render nodes and functions of a page.
pub type PageParts = (Option<Seq<char>>, Seq<NodeModel>, Seq<FunctionModel>);

/// One entry of a page body at `k`, which is not its closing brace: `layout: Name`,
/// `render: { ... }` or `functions: { ... }`. A repeated entry replaces the earlier.
pub open spec fn page_entry(t: Seq<TokenModel>, k: int, parts: PageParts) -> Parsed<PageParts> {
    let x = peek(t, k);
    if x is Layout {
        if !(peek(t, k + 1) is Colon) {
            syntax(k + 1, "Expected ':' after 'layout'"@)
        } else if !(peek(t, k + 2) is Ident) {
            syntax(k + 2, "Expected layout name"@)
        } else {
            Ok(((Some(peek(t, k + 2)->Ident_0), parts.1, parts.2), k + 3))
        }
    } else if x is Render {
        if !(peek(t, k + 1) is Colon) {
            syntax(k + 1, "Expected ':' after 'render'"@)
        } else if !(peek(t, k + 2) is LBrace) {
            syntax(k + 2, "Expected '{' to start render block"@)
        } else {
            match render_nodes(t, k + 3) {
                Err(f) => Err(f),
                Ok((ns, e)) => Ok(((parts.0, ns, parts.2), e)),
            }
        }
    } else if x is Functions {
        if !(peek(t, k + 1) is Colon) {
            syntax(k + 1, "Expected ':' after 'functions'"@)
        } else {
            match functions_block(t, k + 2) {
                Err(f) => Err(f),
                Ok((fs, e)) => Ok(((parts.0, parts.1, fs), e)),
            }
        }
    } else {
        syntax(k, "Unexpected token in page body: "@ + render(x))
    }
}

/// The body of a page from `k` up to and including its closing brace. `layout`, `render`
/// and `functions` may come in any order.
pub open spec fn page_body(t: Seq<TokenModel>, k: int, parts: PageParts) -> Parsed<PageParts>
    decreases t.len() - k,
{
    if peek(t, k) is RBrace {
        Ok((parts, k + 1))
    } else {
        match page_entry(t, k, parts) {
            Err(f) => Err(f),
            Ok((p, e)) => if k < e <= t.len() {
                page_body(t, e, p)
            } else {
                syntax(k, "Unexpected token in page body"@)
            },
        }
    }
}

/// `page Name { ... }`, with the `page` keyword at `i`.
pub open spec fn page_decl(t: Seq<TokenModel>, i: int) -> Parsed<PageModel> {
    if !(peek(t, i + 1) is Ident) {
        syntax(i + 1, "Expected page name"@)
    } else if !(peek(t, i + 2) is LBrace) {
        syntax(i + 2, "Expected '{' after page name"@)
    } else {
        match page_body(t, i + 3, (None, Seq::empty(), Seq::empty())) {
            Err(f) => Err(f),
            Ok((parts, e)) => Ok(
                (
                    PageModel {
                        name: peek(t, i + 1)->Ident_0,
                        layout: parts.0,
                        render: parts.1,
                        functions: parts.2,
                    },
                    e,
                ),
            ),
        }
    }
}

/// The declarations from `i` to the end of input.
pub open spec fn program(t: Seq<TokenModel>, i: int) -> Result<Seq<DeclModel>, Failure>
    decreases t.len() - i,
{
    let x = peek(t, i);
    if x is EOF {
        Ok(Seq::empty())
    } else if x is Import || x is Page {
        let d: Parsed<DeclModel> = if x is Import {
            match import_decl(t, i) {
                Ok((d, e)) => Ok((DeclModel::Import(d), e)),
                Err(f) => Err(f),
            }
        } else {
            match page_decl(t, i) {
                Ok((d, e)) => Ok((DeclModel::Page(d), e)),
                Err(f) => Err(f),
            }
        };
        match d {
            Err(f) => Err(f),
            Ok((d, e)) => if i < e <= t.len() {
                match program(t, e) {
                    Ok(ds) => Ok(seq![d] + ds),
                    Err(f) => Err(f),
                }
            } else {
                Err(Failure::Unexpected { at: i, found: render(x) })
            },
        }
    } else {
        Err(Failure::Unexpected { at: i, found: render(x) })
    }
}

/// The declarations of a token sequence.
pub open spec fn parse(t: Seq<TokenModel>) -> Result<Seq<DeclModel>, Failure> {
    program(t, 0)
}

/// The markup nodes of a token sequence that holds markup alone, up to the end of input.
pub open spec fn markup(t: Seq<TokenModel>, k: int) -> Result<Seq<NodeModel>, Failure>
    decreases t.len() - k,
{
    let x = peek(t, k);
    if x is EOF {
        Ok(Seq::empty())
    } else {
        match node(t, k) {
            Err(f) => Err(f),
            Ok((n, e)) => if k < e <= t.len() {
                match markup(t, e) {
                    Ok(ns) => Ok(seq![n] + ns),
                    Err(f) => Err(f),
                }
            } else {
                Err(Failure::Unexpected { at: k, found: render(x) })
            },
        }
    }
}

} // verus!
