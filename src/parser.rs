//! The recursive-descent parser: tokens to declarations, or a diagnostic.

use vstd::prelude::*;
use crate::token::{Token, TokenModel, models};
use crate::error::{Span, DesignTimeError, ErrorModel};
use crate::ast::{
    Node, Attribute, Function, ImportDecl, PageDecl, ASTNode, NodeModel, FunctionModel,
    strings_model, attrs_model, node_model, nodes_model, functions_model, decls_model,
    opt_string_model, DeclModel,
};
use crate::grammar::{
    Failure, Parsed, peek, cons, prepend, spaced, name_list, import_decl, skip_blank, body_close,
    expr_close, function_entry, function_list, functions_block, braced_value, attr_value,
    attr_list, expr_node, expr_close_brace, mismatch_message, mismatch_suggestion, node, children,
    render_nodes, page_body, page_entry, PageParts, page_decl, program, markup,
};
use crate::scan::{trim, trim_string};

verus! {

/// The span reported for token `at`: its own when known, else the last one known.
pub open spec fn span_at(spans: Seq<Span>, at: int) -> Span {
    if 0 <= at < spans.len() {
        spans[at]
    } else if spans.len() > 0 {
        spans.last()
    } else {
        Span { start_line: 0, start_column: 0, end_line: 0, end_column: 0 }
    }
}

/// The diagnostic that reports a failure.
pub open spec fn report(f: Failure, spans: Seq<Span>) -> ErrorModel {
    match f {
        Failure::Unexpected { at, found } => ErrorModel::UnexpectedToken {
            span: span_at(spans, at),
            found,
        },
        Failure::Syntax { at, message, suggestion } => ErrorModel::ParserError {
            span: span_at(spans, at),
            message,
            suggestion,
        },
        Failure::Unterminated { at, message } => ErrorModel::UnterminatedBlock {
            span: span_at(spans, at),
            message,
        },
    }
}

/// Whether an executable result is the one the grammar gives, models taken by `m`.
pub open spec fn agrees<X, M>(
    r: Result<(X, usize), DesignTimeError>,
    s: Parsed<M>,
    m: spec_fn(X) -> M,
    spans: Seq<Span>,
) -> bool {
    match r {
        Ok((x, e)) => s is Ok && s->Ok_0 == (m(x), e as int),
        Err(err) => s is Err && err@ == report(s->Err_0, spans),
    }
}

pub proof fn lemma_prepend_cons<M>(acc: Seq<M>, item: M, r: Parsed<Seq<M>>)
    ensures
        prepend(acc, cons(item, r)) == prepend(acc.push(item), r),
{
    match r {
        Ok((items, e)) => {
            assert(acc + (seq![item] + items) =~= acc.push(item) + items);
        },
        Err(f) => {},
    }
}

pub proof fn lemma_prepend_done<M>(acc: Seq<M>, e: int)
    ensures
        prepend(acc, Ok((Seq::<M>::empty(), e))) == Ok::<(Seq<M>, int), Failure>((acc, e)),
{
    assert(acc + Seq::<M>::empty() =~= acc);
}

pub proof fn lemma_nodes_push(s: Seq<Node>, n: Node)
    ensures
        nodes_model(s.push(n)) == nodes_model(s).push(node_model(n)),
{
    assert(s.push(n).drop_last() =~= s);
}

/// A parser over a token sequence, with the spans of the tokens where they are known.
pub struct Parser {
    tokens: Vec<Token>,
    spans: Vec<Span>,
}

impl Parser {
    pub closed spec fn toks(&self) -> Seq<TokenModel> {
        models(self.tokens@)
    }

    pub closed spec fn spans(&self) -> Seq<Span> {
        self.spans@
    }

    /// A token vector cannot hold more than `isize::MAX` tokens.
    pub closed spec fn wf(&self) -> bool {
        self.tokens@.len() <= isize::MAX
    }

    /// A parser over `tokens`, whose spans are not known.
    pub fn new(tokens: Vec<Token>) -> (r: Parser)
        requires
            tokens@.len() <= isize::MAX,
        ensures
            r.wf(),
            r.toks() == models(tokens@),
            r.spans() == Seq::<Span>::empty(),
    {
        Parser { tokens, spans: Vec::new() }
    }

    /// A parser over `tokens`, where `spans[i]` is the span of `tokens[i]`.
    pub fn with_spans(tokens: Vec<Token>, spans: Vec<Span>) -> (r: Parser)
        requires
            tokens@.len() <= isize::MAX,
        ensures
            r.wf(),
            r.toks() == models(tokens@),
            r.spans() == spans@,
    {
        Parser { tokens, spans }
    }

    fn peek_tok(&self, i: usize) -> (r: Token)
        ensures
            r@ == peek(self.toks(), i as int),
    {
        if i < self.tokens.len() {
            self.tokens[i].duplicate()
        } else {
            Token::EOF
        }
    }

    fn span_of(&self, at: usize) -> (r: Span)
        ensures
            r == span_at(self.spans(), at as int),
    {
        if at < self.spans.len() {
            self.spans[at]
        } else if self.spans.len() > 0 {
            self.spans[self.spans.len() - 1]
        } else {
            Span { start_line: 0, start_column: 0, end_line: 0, end_column: 0 }
        }
    }

    fn syntax_err(&self, at: usize, message: &str) -> (r: DesignTimeError)
        ensures
            r@ == report(Failure::Syntax { at: at as int, message: message@, suggestion: None }, self.spans()),
    {
        DesignTimeError::ParserError { span: self.span_of(at), message: String::from_str(message), suggestion: None }
    }

    fn unterminated_err(&self, at: usize, message: String) -> (r: DesignTimeError)
        ensures
            r@ == report(Failure::Unterminated { at: at as int, message: message@ }, self.spans()),
    {
        DesignTimeError::UnterminatedBlock { span: self.span_of(at), message }
    }

    fn name_list_at(&self, k0: usize, paren: bool, message: &str) -> (r: Result<(Vec<String>, usize), DesignTimeError>)
        requires
            self.wf(),
            k0 <= self.toks().len(),
        ensures
            agrees(r, name_list(self.toks(), k0 as int, if paren { TokenModel::RParen } else { TokenModel::RBrace }, message@),
                |v: Vec<String>| strings_model(v@), self.spans()),
            r is Ok ==> k0 < r->Ok_0.1 <= self.toks().len(),
    {
        let ghost t = self.toks();
        let ghost close = if paren { TokenModel::RParen } else { TokenModel::RBrace };
        let mut acc: Vec<String> = Vec::new();
        let mut k = k0;
        assert(strings_model(acc@) =~= Seq::<Seq<char>>::empty());
        loop
            invariant
                self.wf(),
                t == self.toks(),
                k0 <= k <= t.len(),
                close == if paren { TokenModel::RParen } else { TokenModel::RBrace },
                name_list(t, k0 as int, close, message@) == prepend(strings_model(acc@), name_list(t, k as int, close, message@)),
            decreases t.len() - k,
        {
            let x = self.peek_tok(k);
            let is_close = if paren { matches!(x, Token::RParen) } else { matches!(x, Token::RBrace) };
            if is_close {
                proof { lemma_prepend_done(strings_model(acc@), k + 1); }
                return Ok((acc, k + 1));
            }
            match x {
                Token::Ident(n) => {
                    let j = if matches!(self.peek_tok(k + 1), Token::Comma) { k + 2 } else { k + 1 };
                    proof {
                        lemma_prepend_cons(strings_model(acc@), n@, name_list(t, j as int, close, message@));
                    }
                    let ghost before = acc@;
                    acc.push(n);
                    assert(strings_model(acc@) =~= strings_model(before).push(acc@.last()@));
                    k = j;
                },
                _ => {
                    return Err(self.syntax_err(k, message));
                },
            }
        }
    }

    fn import_at(&self, i: usize) -> (r: Result<(ImportDecl, usize), DesignTimeError>)
        requires
            self.wf(),
            i < self.toks().len(),
        ensures
            agrees(r, import_decl(self.toks(), i as int),
                |d: ImportDecl| crate::ast::ImportModel { names: strings_model(d.names@), module: d.module@ }, self.spans()),
            r is Ok ==> i < r->Ok_0.1 <= self.toks().len(),
    {
        let (names, k) = if matches!(self.peek_tok(i + 1), Token::LBrace) {
            match self.name_list_at(i + 2, false, "Expected identifier in import list") {
                Ok(p) => p,
                Err(e) => return Err(e),
            }
        } else {
            let v: Vec<String> = Vec::new();
            assert(strings_model(v@) =~= Seq::<Seq<char>>::empty());
            (v, i + 1)
        };
        if !matches!(self.peek_tok(k), Token::From) {
            return Err(self.syntax_err(k, "Expected 'from' in import statement"));
        }
        match self.peek_tok(k + 1) {
            Token::StringLiteral(m) => Ok((ImportDecl { names, module: m }, k + 2)),
            _ => Err(self.syntax_err(k + 1, "Expected module string after 'from'")),
        }
    }

    fn skip_blank_at(&self, k0: usize) -> (r: usize)
        requires
            self.wf(),
            k0 <= self.toks().len(),
        ensures
            r == skip_blank(self.toks(), k0 as int),
            k0 <= r <= self.toks().len(),
    {
        let mut k = k0;
        while k < self.tokens.len()
            invariant
                self.wf(),
                k0 <= k <= self.toks().len(),
                skip_blank(self.toks(), k as int) == skip_blank(self.toks(), k0 as int),
            decreases self.toks().len() - k,
        {
            match &self.tokens[k] {
                Token::Text(x) => {
                    let tr = trim_string(x.as_str());
                    if tr.as_str().unicode_len() != 0 {
                        return k;
                    }
                },
                _ => {
                    return k;
                },
            }
            k = k + 1;
        }
        k
    }

    fn spaced_at(&self, a: usize, b: usize) -> (r: String)
        requires
            a <= b,
        ensures
            r@ == spaced(self.toks(), a as int, b as int),
    {
        let mut acc = String::new();
        let mut j = a;
        while j < b
            invariant
                a <= j <= b,
                acc@ + spaced(self.toks(), j as int, b as int) == spaced(self.toks(), a as int, b as int),
            decreases b - j,
        {
            let ghost before = acc@;
            let piece = self.peek_tok(j).render();
            acc.append(piece.as_str());
            acc.append(" ");
            assert(acc@ + spaced(self.toks(), j + 1, b as int) =~= before + spaced(self.toks(), j as int, b as int));
            j = j + 1;
        }
        assert(acc@ =~= acc@ + spaced(self.toks(), j as int, b as int));
        acc
    }

    fn body_close_at(&self, k0: usize) -> (r: Option<usize>)
        requires
            self.wf(),
            k0 <= self.toks().len(),
        ensures
            r is None ==> body_close(self.toks(), k0 as int, 1) is None,
            r is Some ==> body_close(self.toks(), k0 as int, 1) == Some(r->0 as int) && k0 <= r->0 < self.toks().len(),
    {
        let mut k = k0;
        let mut extra: usize = 0;
        while k < self.tokens.len()
            invariant
                self.wf(),
                k0 <= k <= self.toks().len(),
                extra <= k - k0,
                body_close(self.toks(), k as int, extra + 1) == body_close(self.toks(), k0 as int, 1),
            decreases self.toks().len() - k,
        {
            match &self.tokens[k] {
                Token::EOF => {
                    return None;
                },
                Token::LBrace => {
                    extra = extra + 1;
                },
                Token::RBrace => {
                    if extra == 0 {
                        return Some(k);
                    }
                    extra = extra - 1;
                },
                _ => {},
            }
            k = k + 1;
        }
        None
    }

    fn expr_close_at(&self, k0: usize, comma: bool) -> (r: Option<usize>)
        requires
            self.wf(),
            k0 <= self.toks().len(),
        ensures
            comma && r is None ==> expr_close(self.toks(), k0 as int) is None,
            comma && r is Some ==> expr_close(self.toks(), k0 as int) == Some(r->0 as int),
            !comma && r is None ==> expr_close_brace(self.toks(), k0 as int) is None,
            !comma && r is Some ==> expr_close_brace(self.toks(), k0 as int) == Some(r->0 as int),
            r is Some ==> k0 <= r->0 < self.toks().len(),
    {
        let mut k = k0;
        while k < self.tokens.len()
            invariant
                self.wf(),
                k0 <= k <= self.toks().len(),
                comma ==> expr_close(self.toks(), k as int) == expr_close(self.toks(), k0 as int),
                !comma ==> expr_close_brace(self.toks(), k as int) == expr_close_brace(self.toks(), k0 as int),
            decreases self.toks().len() - k,
        {
            match &self.tokens[k] {
                Token::EOF => {
                    return None;
                },
                Token::RBrace => {
                    return Some(k);
                },
                Token::Comma => {
                    if comma {
                        return Some(k);
                    }
                },
                _ => {},
            }
            k = k + 1;
        }
        None
    }

    fn function_entry_at(&self, k: usize) -> (r: Result<(Function, usize), DesignTimeError>)
        requires
            self.wf(),
            k <= self.toks().len(),
        ensures
            agrees(r, function_entry(self.toks(), k as int), |f: Function| crate::ast::function_model(f), self.spans()),
            r is Ok ==> k < r->Ok_0.1 <= self.toks().len(),
    {
        let name = match self.peek_tok(k) {
            Token::Ident(n) => n,
            _ => return Err(self.syntax_err(k, "Expected function name")),
        };
        if !matches!(self.peek_tok(k + 1), Token::Colon) {
            return Err(self.syntax_err(k + 1, "Expected ':' after function name"));
        }
        let p = self.skip_blank_at(k + 2);
        let (params, a) = if matches!(self.peek_tok(p), Token::LParen) {
            match self.name_list_at(p + 1, true, "Expected parameter name") {
                Ok(x) => x,
                Err(e) => return Err(e),
            }
        } else {
            let v: Vec<String> = Vec::new();
            assert(strings_model(v@) =~= Seq::<Seq<char>>::empty());
            (v, p)
        };
        let b = self.skip_blank_at(a);
        if !matches!(self.peek_tok(b), Token::Arrow) {
            return Err(self.syntax_err(b, "Expected '=>' after parameters"));
        }
        let c = self.skip_blank_at(b + 1);
        if matches!(self.peek_tok(c), Token::LBrace) {
            match self.body_close_at(c + 1) {
                None => Err(self.unterminated_err(c, String::from_str("Expected '}' to close function body"))),
                Some(e) => {
                    let text = self.spaced_at(c + 1, e);
                    let line = trim_string(text.as_str());
                    let body = vec![line];
                    assert(strings_model(body@) =~= seq![trim(spaced(self.toks(), c + 1, e as int))]);
                    Ok((Function { name, params, body }, e + 1))
                },
            }
        } else {
            match self.expr_close_at(c, true) {
                None => Err(self.unterminated_err(c, String::from_str("Expected ',' or '}' after function body"))),
                Some(e) => {
                    let text = self.spaced_at(c, e);
                    let mut line = String::from_str("return ");
                    let tr = trim_string(text.as_str());
                    line.append(tr.as_str());
                    let body = vec![line];
                    assert(strings_model(body@) =~= seq!["return "@ + trim(spaced(self.toks(), c as int, e as int))]);
                    Ok((Function { name, params, body }, e))
                },
            }
        }
    }

    fn function_list_at(&self, k0: usize) -> (r: Result<(Vec<Function>, usize), DesignTimeError>)
        requires
            self.wf(),
            k0 <= self.toks().len(),
        ensures
            agrees(r, function_list(self.toks(), k0 as int), |v: Vec<Function>| functions_model(v@), self.spans()),
            r is Ok ==> k0 < r->Ok_0.1 <= self.toks().len(),
    {
        let ghost t = self.toks();
        let mut acc: Vec<Function> = Vec::new();
        let mut k = k0;
        assert(functions_model(acc@) =~= Seq::<FunctionModel>::empty());
        loop
            invariant
                self.wf(),
                t == self.toks(),
                k0 <= k <= t.len(),
                function_list(t, k0 as int) == prepend(functions_model(acc@), function_list(t, k as int)),
            decreases t.len() - k,
        {
            if matches!(self.peek_tok(k), Token::RBrace) {
                proof { lemma_prepend_done(functions_model(acc@), k + 1); }
                return Ok((acc, k + 1));
            }
            match self.function_entry_at(k) {
                Err(e) => return Err(e),
                Ok((f, e)) => {
                    let n0 = if matches!(self.peek_tok(e), Token::Comma) { e + 1 } else { e };
                    let n = self.skip_blank_at(n0);
                    proof {
                        lemma_prepend_cons(functions_model(acc@), crate::ast::function_model(f), function_list(t, n as int));
                    }
                    let ghost before = acc@;
                    acc.push(f);
                    assert(functions_model(acc@) =~= functions_model(before).push(crate::ast::function_model(acc@.last())));
                    k = n;
                },
            }
        }
    }

    fn functions_block_at(&self, k: usize) -> (r: Result<(Vec<Function>, usize), DesignTimeError>)
        requires
            self.wf(),
            k <= self.toks().len(),
        ensures
            agrees(r, functions_block(self.toks(), k as int), |v: Vec<Function>| functions_model(v@), self.spans()),
            r is Ok ==> k < r->Ok_0.1 <= self.toks().len(),
    {
        if !matches!(self.peek_tok(k), Token::LBrace) {
            return Err(self.syntax_err(k, "Expected '{' to start functions"));
        }
        let j = self.skip_blank_at(k + 1);
        self.function_list_at(j)
    }

    fn braced_value_at(&self, k: usize) -> (r: Result<(String, usize), DesignTimeError>)
        requires
            self.wf(),
            k <= self.toks().len() + 1,
        ensures
            agrees(r, braced_value(self.toks(), k as int), |v: String| v@, self.spans()),
            r is Ok ==> k < r->Ok_0.1 <= self.toks().len(),
    {
        let v = match self.peek_tok(k) {
            Token::Ident(v) => v,
            _ => return Err(self.syntax_err(k, "Expected expression inside '{' '}'")),
        };
        if !matches!(self.peek_tok(k + 1), Token::RBrace) {
            return Err(self.syntax_err(k + 1, "Expected '}' after expression"));
        }
        Ok((v, k + 2))
    }

    fn attr_value_at(&self, k: usize) -> (r: Result<(String, usize), DesignTimeError>)
        requires
            self.wf(),
            k <= self.toks().len(),
        ensures
            agrees(r, attr_value(self.toks(), k as int), |v: String| v@, self.spans()),
            r is Ok ==> k <= r->Ok_0.1 <= self.toks().len(),
    {
        let x = self.peek_tok(k);
        let v = self.peek_tok(k + 1);
        match x {
            Token::EQ => match v {
                Token::StringLiteral(s) => Ok((s, k + 2)),
                Token::LBrace => self.braced_value_at(k + 2),
                Token::Ident(s) => Ok((s, k + 2)),
                _ => Err(self.syntax_err(k + 1, "Expected value after '=' in attribute")),
            },
            Token::Colon => match v {
                Token::StringLiteral(s) => Ok((s, k + 2)),
                Token::Ident(s) => Ok((s, k + 2)),
                _ => Err(self.syntax_err(k + 1, "Expected value after ':' in attribute")),
            },
            Token::LBrace => self.braced_value_at(k + 1),
            _ => Ok((String::from_str("true"), k)),
        }
    }

    fn attr_list_at(&self, k0: usize) -> (r: Result<(Vec<Attribute>, usize), DesignTimeError>)
        requires
            self.wf(),
            k0 <= self.toks().len(),
        ensures
            agrees(r, attr_list(self.toks(), k0 as int), |v: Vec<Attribute>| attrs_model(v@), self.spans()),
            r is Ok ==> k0 <= r->Ok_0.1 < self.toks().len(),
            r is Ok ==> crate::grammar::ends_tag(peek(self.toks(), r->Ok_0.1 as int)),
    {
        let ghost t = self.toks();
        let mut acc: Vec<Attribute> = Vec::new();
        let mut k = k0;
        assert(attrs_model(acc@) =~= Seq::<(Seq<char>, Seq<char>)>::empty());
        loop
            invariant
                self.wf(),
                t == self.toks(),
                k0 <= k <= t.len(),
                attr_list(t, k0 as int) == prepend(attrs_model(acc@), attr_list(t, k as int)),
            decreases t.len() - k,
        {
            let x = self.peek_tok(k);
            match x {
                Token::GT | Token::Slash | Token::SlashGT => {
                    proof { lemma_prepend_done(attrs_model(acc@), k as int); }
                    return Ok((acc, k));
                },
                Token::EOF => {
                    return Err(self.unterminated_err(k, String::from_str("Expected '>' to end the tag")));
                },
                Token::Ident(name) => {
                    match self.attr_value_at(k + 1) {
                        Err(e) => return Err(e),
                        Ok((v, e)) => {
                            proof {
                                lemma_prepend_cons(attrs_model(acc@), (name@, v@), attr_list(t, e as int));
                            }
                            let ghost before = acc@;
                            acc.push(Attribute { name, value: v });
                            assert(attrs_model(acc@) =~= attrs_model(before).push((acc@.last().name@, acc@.last().value@)));
                            k = e;
                        },
                    }
                },
                _ => {
                    k = k + 1;
                },
            }
        }
    }

    fn expr_node_at(&self, k: usize) -> (r: Result<(Node, usize), DesignTimeError>)
        requires
            self.wf(),
            k <= self.toks().len(),
        ensures
            agrees(r, expr_node(self.toks(), k as int), |n: Node| node_model(n), self.spans()),
            r is Ok ==> k < r->Ok_0.1 <= self.toks().len(),
    {
        let e = match self.expr_close_at(k, false) {
            Some(e) => e,
            None => self.tokens.len(),
        };
        if matches!(self.peek_tok(e), Token::RBrace) {
            let text = self.spaced_at(k, e);
            Ok((Node::Expr(trim_string(text.as_str())), e + 1))
        } else {
            Err(self.unterminated_err(e, String::from_str("Expected '}' to close expression block")))
        }
    }

    fn node_at(&self, k: usize) -> (r: Result<(Node, usize), DesignTimeError>)
        requires
            self.wf(),
            k <= self.toks().len(),
        ensures
            agrees(r, node(self.toks(), k as int), |n: Node| node_model(n), self.spans()),
            r is Ok ==> k < r->Ok_0.1 <= self.toks().len(),
        decreases self.toks().len() - k, 0int,
    {
        match self.peek_tok(k) {
            Token::LT => {
                if matches!(self.peek_tok(k + 1), Token::Slash) {
                    return Err(self.syntax_err(k + 1, "Unexpected closing tag"));
                }
                let name = match self.peek_tok(k + 1) {
                    Token::Ident(n) => n,
                    _ => return Err(self.syntax_err(k + 1, "Expected tag name after '<'")),
                };
                let (attrs, a) = match self.attr_list_at(k + 2) {
                    Ok(x) => x,
                    Err(e) => return Err(e),
                };
                let empty: Vec<Node> = Vec::new();
                assert(nodes_model(empty@) =~= Seq::<NodeModel>::empty());
                match self.peek_tok(a) {
                    Token::SlashGT => Ok((Node::Element { name, attrs, children: empty }, a + 1)),
                    Token::Slash => {
                        if matches!(self.peek_tok(a + 1), Token::GT) {
                            Ok((Node::Element { name, attrs, children: empty }, a + 2))
                        } else {
                            Err(self.syntax_err(a + 1, "Expected '>' after '/' in self-closing tag"))
                        }
                    },
                    _ => {
                        match self.children_at(a + 1, &name) {
                            Err(e) => Err(e),
                            Ok((cs, e)) => Ok((Node::Element { name, attrs, children: cs }, e)),
                        }
                    },
                }
            },
            Token::Text(x) => {
                let tr = trim_string(x.as_str());
                if tr.as_str().unicode_len() > 0 {
                    Ok((Node::Text(tr), k + 1))
                } else {
                    self.node_at(k + 1)
                }
            },
            Token::LBrace => self.expr_node_at(k + 1),
            x => {
                let mut m = String::from_str("Unexpected token while parsing node: ");
                let w = x.render();
                m.append(w.as_str());
                Err(DesignTimeError::ParserError { span: self.span_of(k), message: m, suggestion: None })
            },
        }
    }

    fn mismatch_err(&self, at: usize, open: &String, close: &String) -> (r: DesignTimeError)
        ensures
            r@ == report(
                Failure::Syntax {
                    at: at as int,
                    message: mismatch_message(open@, close@),
                    suggestion: Some(mismatch_suggestion(open@)),
                },
                self.spans(),
            ),
    {
        let mut m = String::from_str("Mismatched closing tag: expected </");
        m.append(open.as_str());
        m.append(">, found </");
        m.append(close.as_str());
        m.append(">");
        let mut h = String::from_str("Change the closing tag to match the opening tag: </");
        h.append(open.as_str());
        h.append(">");
        DesignTimeError::ParserError { span: self.span_of(at), message: m, suggestion: Some(h) }
    }

    fn children_at(&self, k0: usize, name: &String) -> (r: Result<(Vec<Node>, usize), DesignTimeError>)
        requires
            self.wf(),
            0 < k0 <= self.toks().len(),
        ensures
            agrees(r, children(self.toks(), k0 as int, name@), |v: Vec<Node>| nodes_model(v@), self.spans()),
            r is Ok ==> k0 < r->Ok_0.1 <= self.toks().len(),
        decreases self.toks().len() - k0, 1int,
    {
        let ghost t = self.toks();
        let mut acc: Vec<Node> = Vec::new();
        let mut k = k0;
        assert(nodes_model(acc@) =~= Seq::<NodeModel>::empty());
        loop
            invariant
                self.wf(),
                t == self.toks(),
                k0 <= k <= t.len(),
                children(t, k0 as int, name@) == prepend(nodes_model(acc@), children(t, k as int, name@)),
            decreases t.len() - k,
        {
            let x = self.peek_tok(k);
            let closing = matches!(x, Token::LT) && matches!(self.peek_tok(k + 1), Token::Slash);
            if closing {
                let c = match self.peek_tok(k + 2) {
                    Token::Ident(c) => c,
                    _ => return Err(self.syntax_err(k + 2, "Expected closing tag name")),
                };
                if c != *name {
                    return Err(self.mismatch_err(k + 2, name, &c));
                }
                if !matches!(self.peek_tok(k + 3), Token::GT) {
                    return Err(self.syntax_err(k + 3, "Expected '>' after closing tag"));
                }
                proof { lemma_prepend_done(nodes_model(acc@), k + 4); }
                return Ok((acc, k + 4));
            }
            match x {
                Token::EOF => {
                    let mut m = String::from_str("Expected closing tag </");
                    m.append(name.as_str());
                    m.append(">");
                    return Err(self.unterminated_err(k, m));
                },
                Token::LT | Token::LBrace => {
                    let n = if matches!(x, Token::LT) { self.node_at(k) } else { self.expr_node_at(k + 1) };
                    match n {
                        Err(e) => return Err(e),
                        Ok((n, e)) => {
                            proof {
                                lemma_prepend_cons(nodes_model(acc@), node_model(n), children(t, e as int, name@));
                                lemma_nodes_push(acc@, n);
                            }
                            acc.push(n);
                            k = e;
                        },
                    }
                },
                Token::Text(s) => {
                    let tr = trim_string(s.as_str());
                    if tr.as_str().unicode_len() > 0 {
                        let n = Node::Text(tr);
                        proof {
                            lemma_prepend_cons(nodes_model(acc@), node_model(n), children(t, k + 1, name@));
                            lemma_nodes_push(acc@, n);
                        }
                        acc.push(n);
                    }
                    k = k + 1;
                },
                _ => {
                    k = k + 1;
                },
            }
        }
    }

    fn render_nodes_at(&self, k0: usize) -> (r: Result<(Vec<Node>, usize), DesignTimeError>)
        requires
            self.wf(),
            k0 <= self.toks().len(),
        ensures
            agrees(r, render_nodes(self.toks(), k0 as int), |v: Vec<Node>| nodes_model(v@), self.spans()),
            r is Ok ==> k0 < r->Ok_0.1 <= self.toks().len(),
    {
        let ghost t = self.toks();
        let mut acc: Vec<Node> = Vec::new();
        let mut k = k0;
        assert(nodes_model(acc@) =~= Seq::<NodeModel>::empty());
        loop
            invariant
                self.wf(),
                t == self.toks(),
                k0 <= k <= t.len(),
                render_nodes(t, k0 as int) == prepend(nodes_model(acc@), render_nodes(t, k as int)),
            decreases t.len() - k,
        {
            let x = self.peek_tok(k);
            if matches!(x, Token::RBrace) {
                proof { lemma_prepend_done(nodes_model(acc@), k + 1); }
                return Ok((acc, k + 1));
            }
            if matches!(x, Token::EOF) {
                return Err(self.unterminated_err(k, String::from_str("Expected '}' to close render block")));
            }
            match self.node_at(k) {
                Err(e) => return Err(e),
                Ok((n, e)) => {
                    proof {
                        lemma_prepend_cons(nodes_model(acc@), node_model(n), render_nodes(t, e as int));
                        lemma_nodes_push(acc@, n);
                    }
                    acc.push(n);
                    k = e;
                },
            }
        }
    }

    fn page_entry_at(&self, k: usize, parts: (Option<String>, Vec<Node>, Vec<Function>)) -> (r: Result<
        ((Option<String>, Vec<Node>, Vec<Function>), usize),
        DesignTimeError,
    >)
        requires
            self.wf(),
            k <= self.toks().len(),
        ensures
            agrees(r, page_entry(self.toks(), k as int, parts_model(parts)), |p: (Option<String>, Vec<Node>, Vec<Function>)| parts_model(p), self.spans()),
            r is Ok ==> k < r->Ok_0.1 <= self.toks().len(),
    {
        let (layout, render, functions) = parts;
        match self.peek_tok(k) {
            Token::Layout => {
                if !matches!(self.peek_tok(k + 1), Token::Colon) {
                    return Err(self.syntax_err(k + 1, "Expected ':' after 'layout'"));
                }
                match self.peek_tok(k + 2) {
                    Token::Ident(l) => Ok(((Some(l), render, functions), k + 3)),
                    _ => Err(self.syntax_err(k + 2, "Expected layout name")),
                }
            },
            Token::Render => {
                if !matches!(self.peek_tok(k + 1), Token::Colon) {
                    return Err(self.syntax_err(k + 1, "Expected ':' after 'render'"));
                }
                if !matches!(self.peek_tok(k + 2), Token::LBrace) {
                    return Err(self.syntax_err(k + 2, "Expected '{' to start render block"));
                }
                match self.render_nodes_at(k + 3) {
                    Err(e) => Err(e),
                    Ok((ns, e)) => Ok(((layout, ns, functions), e)),
                }
            },
            Token::Functions => {
                if !matches!(self.peek_tok(k + 1), Token::Colon) {
                    return Err(self.syntax_err(k + 1, "Expected ':' after 'functions'"));
                }
                match self.functions_block_at(k + 2) {
                    Err(e) => Err(e),
                    Ok((fs, e)) => Ok(((layout, render, fs), e)),
                }
            },
            x => {
                let mut m = String::from_str("Unexpected token in page body: ");
                let w = x.render();
                m.append(w.as_str());
                Err(DesignTimeError::ParserError { span: self.span_of(k), message: m, suggestion: None })
            },
        }
    }

    fn page_body_at(&self, k0: usize) -> (r: Result<((Option<String>, Vec<Node>, Vec<Function>), usize), DesignTimeError>)
        requires
            self.wf(),
            k0 <= self.toks().len(),
        ensures
            agrees(r, page_body(self.toks(), k0 as int, (None, Seq::empty(), Seq::empty())),
                |p: (Option<String>, Vec<Node>, Vec<Function>)| parts_model(p), self.spans()),
            r is Ok ==> k0 < r->Ok_0.1 <= self.toks().len(),
    {
        let ghost t = self.toks();
        let mut parts: (Option<String>, Vec<Node>, Vec<Function>) = (None, Vec::new(), Vec::new());
        let mut k = k0;
        assert(nodes_model(parts.1@) =~= Seq::<NodeModel>::empty());
        assert(functions_model(parts.2@) =~= Seq::<FunctionModel>::empty());
        loop
            invariant
                self.wf(),
                t == self.toks(),
                k0 <= k <= t.len(),
                page_body(t, k0 as int, (None, Seq::empty(), Seq::empty())) == page_body(t, k as int, parts_model(parts)),
            decreases t.len() - k,
        {
            if matches!(self.peek_tok(k), Token::RBrace) {
                return Ok((parts, k + 1));
            }
            match self.page_entry_at(k, parts) {
                Err(e) => {
                    return Err(e);
                },
                Ok((p, e)) => {
                    parts = p;
                    k = e;
                },
            }
        }
    }

    fn page_at(&self, i: usize) -> (r: Result<(PageDecl, usize), DesignTimeError>)
        requires
            self.wf(),
            i < self.toks().len(),
        ensures
            agrees(r, page_decl(self.toks(), i as int), |p: PageDecl| page_model(p), self.spans()),
            r is Ok ==> i < r->Ok_0.1 <= self.toks().len(),
    {
        let name = match self.peek_tok(i + 1) {
            Token::Ident(n) => n,
            _ => return Err(self.syntax_err(i + 1, "Expected page name")),
        };
        if !matches!(self.peek_tok(i + 2), Token::LBrace) {
            return Err(self.syntax_err(i + 2, "Expected '{' after page name"));
        }
        match self.page_body_at(i + 3) {
            Err(e) => Err(e),
            Ok(((layout, render, functions), e)) => Ok((PageDecl { name, layout, render, functions }, e)),
        }
    }

    /// The declarations of the token sequence, or the first failure.
    pub fn parse(&self) -> (r: Result<Vec<ASTNode>, DesignTimeError>)
        requires
            self.wf(),
        ensures
            r is Ok <==> crate::grammar::parse(self.toks()) is Ok,
            r is Ok ==> crate::grammar::parse(self.toks()) == Ok::<Seq<DeclModel>, Failure>(decls_model(r->Ok_0@)),
            r is Err ==> r->Err_0@ == report(crate::grammar::parse(self.toks())->Err_0, self.spans()),
    {
        let ghost t = self.toks();
        let mut acc: Vec<ASTNode> = Vec::new();
        let mut i: usize = 0;
        assert(decls_model(acc@) =~= Seq::<DeclModel>::empty());
        loop
            invariant
                self.wf(),
                t == self.toks(),
                i <= t.len(),
                program(t, 0) == (match program(t, i as int) {
                    Ok(ds) => Ok(decls_model(acc@) + ds),
                    Err(f) => Err(f),
                }),
            decreases t.len() - i,
        {
            let x = self.peek_tok(i);
            match x {
                Token::EOF => {
                    assert(decls_model(acc@) + Seq::<DeclModel>::empty() =~= decls_model(acc@));
                    return Ok(acc);
                },
                Token::Import | Token::Page => {
                    let d = if matches!(x, Token::Import) {
                        match self.import_at(i) {
                            Ok((d, e)) => (ASTNode::Import(d), e),
                            Err(e) => return Err(e),
                        }
                    } else {
                        match self.page_at(i) {
                            Ok((d, e)) => (ASTNode::Page(d), e),
                            Err(e) => return Err(e),
                        }
                    };
                    let ghost before = acc@;
                    let e = d.1;
                    acc.push(d.0);
                    assert(decls_model(acc@) =~= decls_model(before).push(crate::ast::decl_model(acc@.last())));
                    proof {
                        match program(t, e as int) {
                            Ok(ds) => {
                                assert(decls_model(before) + (seq![crate::ast::decl_model(acc@.last())] + ds)
                                    =~= decls_model(acc@) + ds);
                            },
                            Err(f) => {},
                        }
                    }
                    i = e;
                },
                x => {
                    return Err(DesignTimeError::UnexpectedToken { span: self.span_of(i), found: x.render() });
                },
            }
        }
    }

    /// The markup nodes of a token sequence that holds markup alone, or the first failure.
    pub fn parse_markup(&self) -> (r: Result<Vec<Node>, DesignTimeError>)
        requires
            self.wf(),
        ensures
            r is Ok <==> markup(self.toks(), 0) is Ok,
            r is Ok ==> markup(self.toks(), 0) == Ok::<Seq<NodeModel>, Failure>(nodes_model(r->Ok_0@)),
            r is Err ==> r->Err_0@ == report(markup(self.toks(), 0)->Err_0, self.spans()),
    {
        let ghost t = self.toks();
        let mut acc: Vec<Node> = Vec::new();
        let mut k: usize = 0;
        assert(nodes_model(acc@) =~= Seq::<NodeModel>::empty());
        loop
            invariant
                self.wf(),
                t == self.toks(),
                k <= t.len(),
                markup(t, 0) == (match markup(t, k as int) {
                    Ok(ns) => Ok(nodes_model(acc@) + ns),
                    Err(f) => Err(f),
                }),
            decreases t.len() - k,
        {
            if matches!(self.peek_tok(k), Token::EOF) {
                assert(nodes_model(acc@) + Seq::<NodeModel>::empty() =~= nodes_model(acc@));
                return Ok(acc);
            }
            match self.node_at(k) {
                Err(e) => return Err(e),
                Ok((n, e)) => {
                    let ghost before = acc@;
                    proof { lemma_nodes_push(acc@, n); }
                    acc.push(n);
                    proof {
                        match markup(t, e as int) {
                            Ok(ns) => {
                                assert(nodes_model(before) + (seq![node_model(acc@.last())] + ns)
                                    =~= nodes_model(acc@) + ns);
                            },
                            Err(f) => {},
                        }
                    }
                    k = e;
                },
            }
        }
    }
}

pub open spec fn parts_model(p: (Option<String>, Vec<Node>, Vec<Function>)) -> PageParts {
    (opt_string_model(p.0), nodes_model(p.1@), functions_model(p.2@))
}

pub open spec fn page_model(p: PageDecl) -> crate::ast::PageModel {
    crate::ast::PageModel {
        name: p.name@,
        layout: opt_string_model(p.layout),
        render: nodes_model(p.render@),
        functions: functions_model(p.functions@),
    }
}

} // verus!
