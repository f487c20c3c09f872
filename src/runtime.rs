//! The runtime that turns parsed markup into DOM nodes and CSS, and the library entry
//! that does so from source text.

use vstd::prelude::*;
use crate::ast::{Node, nodes_model};
use crate::dom::{DomNode, transform, doms_model, dom_list, classes_list};
use crate::error::{Span, DesignTimeError, ErrorModel};
use crate::workspace::WorkspaceConfig;
use crate::style::{get_css, css_of, add_all};
use crate::lexer::lex;
use crate::grammar::markup;

verus! {

/// A failure of the runtime, with where it comes from when known.
#[derive(Debug)]
pub struct RuntimeError {
    pub message: String,
    pub span: Option<Span>,
}

/// The text of a runtime error: its message with the position it comes from when known.
pub open spec fn runtime_error_text(message: Seq<char>, span: Option<Span>) -> Seq<char> {
    match span {
        Some(sp) => message + " (at line "@ + crate::dom::decimal(sp.start_line as nat) + ", column "@
            + crate::dom::decimal(sp.start_column as nat) + ")"@,
        None => "Runtime error: "@ + message,
    }
}

impl RuntimeError {
    /// The text of this error.
    pub fn describe(&self) -> (r: String)
        ensures
            r@ == runtime_error_text(self.message@, self.span),
    {
        match self.span {
            Some(sp) => {
                let mut r = self.message.clone();
                r.append(" (at line ");
                let l = crate::dom::decimal_string(sp.start_line);
                r.append(l.as_str());
                r.append(", column ");
                let c = crate::dom::decimal_string(sp.start_column);
                r.append(c.as_str());
                r.append(")");
                r
            },
            None => {
                let mut r = String::from_str("Runtime error: ");
                r.append(self.message.as_str());
                r
            },
        }
    }
}

/// The runtime of a workspace.
pub struct Runtime {
    pub workspace: WorkspaceConfig,
    pub last_error: Option<RuntimeError>,
}

impl Runtime {
    pub fn new(workspace: WorkspaceConfig) -> (r: Runtime)
        ensures
            r.workspace == workspace,
            r.last_error is None,
    {
        Runtime { workspace, last_error: None }
    }

    /// The DOM nodes of parsed markup, and the CSS of the class names they use.
    pub fn process_nodes(&mut self, nodes: Vec<Node>) -> (r: (Vec<DomNode>, String))
        ensures
            doms_model(r.0@) == dom_list(nodes_model(nodes@), "node"@),
            r.1@ == css_of(add_all(Seq::empty(), classes_list(nodes_model(nodes@)))),
            final(self).workspace == old(self).workspace,
    {
        let (dom, classes) = transform(nodes);
        let css = get_css(classes);
        (dom, css)
    }
}

/// The runtime error that reports a diagnostic: its text, and its span when it has one.
pub fn runtime_error(e: DesignTimeError) -> (r: RuntimeError)
    ensures
        r.message@ == crate::error::message_of(e@),
        r.span == match e@ {
            ErrorModel::LexerError { span, .. } => Some(span),
            ErrorModel::ParserError { span, .. } => Some(span),
            ErrorModel::UnexpectedToken { span, .. } => Some(span),
            ErrorModel::UnknownIdentifier { span, .. } => Some(span),
            ErrorModel::UnterminatedBlock { span, .. } => Some(span),
            _ => None::<Span>,
        },
{
    let span = match &e {
        DesignTimeError::ParserError { span, .. } => Some(*span),
        DesignTimeError::UnexpectedToken { span, .. } => Some(*span),
        DesignTimeError::UnterminatedBlock { span, .. } => Some(*span),
        DesignTimeError::LexerError { span, .. } => Some(*span),
        DesignTimeError::UnknownIdentifier { span, .. } => Some(*span),
        _ => None,
    };
    RuntimeError { message: e.message(), span }
}

/// The library entry for rendering: source markup to DOM nodes.
pub struct RenderLib {
    pub runtime: Runtime,
}

impl RenderLib {
    pub fn new(runtime: Runtime) -> (r: RenderLib)
        ensures
            r.runtime == runtime,
    {
        RenderLib { runtime }
    }

    /// The DOM nodes of markup source text, or the parse failure as a runtime error.
    pub fn process_source(&mut self, source: &str) -> (r: Result<Vec<DomNode>, RuntimeError>)
        ensures
            source@.len() < usize::MAX && lex(source@).len() <= isize::MAX ==> (r is Ok <==> markup(
                lex(source@),
                0,
            ) is Ok),
            source@.len() < usize::MAX && lex(source@).len() <= isize::MAX && r is Ok ==> doms_model(r->Ok_0@) == dom_list(
                markup(lex(source@), 0)->Ok_0,
                "node"@,
            ),
    {
        match crate::pipeline::parse_markup_source(source) {
            Ok(nodes) => {
                let (dom, _css) = self.runtime.process_nodes(nodes);
                Ok(dom)
            },
            Err(e) => Err(runtime_error(e)),
        }
    }
}

} // verus!
