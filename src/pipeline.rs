//! The whole front end on source text: tokens, declarations, markup and lowered pages.

use vstd::prelude::*;
use crate::token::{Token, models};
use crate::lexer::{Lexer, lex, lex_spans};
use crate::parser::{Parser, report};
use crate::error::{DesignTimeError, ErrorModel, Span};
use crate::ast::{ASTNode, Node, decls_model, nodes_model, DeclModel, NodeModel};
use crate::ir::IrPage;
use crate::lower::{compile_ast_to_ir, ir_pages_model, lower_program};
use crate::grammar::{Failure, parse, markup};

verus! {

/// The tokens of a source text.
pub fn tokenize(src: &str) -> (r: Vec<Token>)
    ensures
        models(r@) == lex(src@),
{
    Lexer::new(src).tokenize()
}

/// The tokens of a source text and their spans, when the text is not too long to count.
fn spanned(src: &str) -> (r: Result<(Vec<Token>, Vec<Span>), DesignTimeError>)
    ensures
        r is Ok <==> src@.len() < usize::MAX && lex(src@).len() <= isize::MAX,
        r is Ok ==> models(r->Ok_0.0@) == lex(src@) && r->Ok_0.1@ == lex_spans(src@),
        r is Err ==> r->Err_0@ == ErrorModel::CompilerError("input is too long"@),
{
    let lexer = Lexer::new(src);
    if lexer.len() == usize::MAX {
        return Err(too_long());
    }
    let (tokens, spans) = lexer.tokenize_with_spans();
    if tokens.len() > isize::MAX as usize {
        return Err(too_long());
    }
    Ok((tokens, spans))
}

fn too_long() -> (r: DesignTimeError)
    ensures
        r@ == ErrorModel::CompilerError("input is too long"@),
{
    DesignTimeError::CompilerError(String::from_str("input is too long"))
}

/// The declarations of a source text, or the first failure.
pub fn parse_source(src: &str) -> (r: Result<Vec<ASTNode>, DesignTimeError>)
    ensures
        src@.len() < usize::MAX && lex(src@).len() <= isize::MAX ==> {
            &&& (r is Ok <==> parse(lex(src@)) is Ok)
            &&& (r is Ok ==> parse(lex(src@)) == Ok::<Seq<DeclModel>, Failure>(decls_model(r->Ok_0@)))
            &&& (r is Err ==> r->Err_0@ == report(parse(lex(src@))->Err_0, lex_spans(src@)))
        },
{
    let (tokens, spans) = match spanned(src) {
        Ok(x) => x,
        Err(e) => return Err(e),
    };
    Parser::with_spans(tokens, spans).parse()
}

/// The markup nodes of a source text that holds markup alone, or the first failure.
pub fn parse_markup_source(src: &str) -> (r: Result<Vec<Node>, DesignTimeError>)
    ensures
        src@.len() < usize::MAX && lex(src@).len() <= isize::MAX ==> {
            &&& (r is Ok <==> markup(lex(src@), 0) is Ok)
            &&& (r is Ok ==> markup(lex(src@), 0) == Ok::<Seq<NodeModel>, Failure>(nodes_model(r->Ok_0@)))
            &&& (r is Err ==> r->Err_0@ == report(markup(lex(src@), 0)->Err_0, lex_spans(src@)))
        },
{
    let (tokens, spans) = match spanned(src) {
        Ok(x) => x,
        Err(e) => return Err(e),
    };
    Parser::with_spans(tokens, spans).parse_markup()
}

/// The lowered pages of a source text, or the first failure.
pub fn compile_source(src: &str) -> (r: Result<Vec<IrPage>, DesignTimeError>)
    ensures
        src@.len() < usize::MAX && lex(src@).len() <= isize::MAX ==> {
            &&& (r is Ok <==> parse(lex(src@)) is Ok)
            &&& (r is Ok ==> ir_pages_model(r->Ok_0@) == lower_program(parse(lex(src@))->Ok_0))
            &&& (r is Err ==> r->Err_0@ == report(parse(lex(src@))->Err_0, lex_spans(src@)))
        },
{
    match parse_source(src) {
        Ok(ast) => Ok(compile_ast_to_ir(ast.as_slice())),
        Err(e) => Err(e),
    }
}

} // verus!
