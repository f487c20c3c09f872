use designtime::ast::{ASTNode, Attribute, Node};
use designtime::error::DesignTimeError;
use designtime::ir::{Instruction, IrFunction, IrNode};
use designtime::lexer::Lexer;
use designtime::lower::ir_node_from_ast;
use designtime::pipeline::{compile_source, parse_markup_source, parse_source, tokenize};
use designtime::token::Token;

fn element_parts(n: &Node) -> (&String, &Vec<Attribute>, &Vec<Node>) {
    match n {
        Node::Element { name, attrs, children } => (name, attrs, children),
        other => panic!("expected an element, found {:?}", other),
    }
}

fn parser_message(e: &DesignTimeError) -> String {
    match e {
        DesignTimeError::ParserError { message, .. } => message.clone(),
        other => panic!("expected a parser error, found {:?}", other),
    }
}

#[test]
fn test_ir_function_creation() {
    let instructions = vec![
        Instruction::LoadParam(0),
        Instruction::LoadConst("10".to_string()),
        Instruction::CallFunction("add".to_string()),
        Instruction::Return,
    ];

    let func = IrFunction::new("myFunc", vec!["x"], instructions.clone());

    assert_eq!(func.name, "myFunc");
    assert_eq!(func.params, vec!["x"]);
    assert_eq!(func.instructions.len(), 4);

    match &func.instructions[0] {
        Instruction::LoadParam(idx) => assert_eq!(*idx, 0),
        _ => panic!("Expected LoadParam"),
    }
    match &func.instructions[1] {
        Instruction::LoadConst(val) => assert_eq!(val, "10"),
        _ => panic!("Expected LoadConst"),
    }
    match &func.instructions[2] {
        Instruction::CallFunction(name) => assert_eq!(name, "add"),
        _ => panic!("Expected CallFunction"),
    }
    match &func.instructions[3] {
        Instruction::Return => {}
        _ => panic!("Expected Return"),
    }
}

#[test]
fn test_jsx_tokenization() {
    let input = r#"
import { Checkbox } from "@designtime.core.ui.MUI"

page Home {
    layout: Glassmorphism
    render: { 
        <div class="container">
            <h1>Welcome to DesignTime</h1>
            <Checkbox checked={true}>Do you see this?</Checkbox>
        </div>
    }
    functions: {
        onSelect: () => {
            let x = 40;
            let y = 2;
            let result = x + y;
            return result;
        }
    }
}
        "#;

    let lexer = Lexer::new(input);
    let tokens = lexer.tokenize();

    assert!(tokens.contains(&Token::Import));
    assert!(tokens.contains(&Token::Page));
    assert!(tokens.contains(&Token::Ident("Home".to_string())));
}

#[test]
fn page_scenario_parses_to_one_page() {
    let src = r#"page Home { layout: Glass render: { <div class="a b"><h1>Hi</h1></div> } functions: { go: () => { return 1 } } }"#;
    let decls = parse_source(src).unwrap();
    assert_eq!(decls.len(), 1);
    let page = match &decls[0] {
        ASTNode::Page(p) => p,
        other => panic!("expected a page, found {:?}", other),
    };
    assert_eq!(page.name, "Home");
    assert_eq!(page.layout, Some("Glass".to_string()));
    assert_eq!(page.render.len(), 1);
    let (name, attrs, children) = element_parts(&page.render[0]);
    assert_eq!(name, "div");
    assert_eq!(attrs, &vec![Attribute::new("class", "a b")]);
    assert_eq!(children.len(), 1);
    let (inner, inner_attrs, inner_children) = element_parts(&children[0]);
    assert_eq!(inner, "h1");
    assert!(inner_attrs.is_empty());
    assert_eq!(inner_children, &vec![Node::text("Hi")]);
    assert_eq!(page.functions.len(), 1);
    assert_eq!(page.functions[0].name, "go");
    assert!(page.functions[0].params.is_empty());
    assert_eq!(page.functions[0].body, vec!["return 1".to_string()]);
}

#[test]
fn missing_closing_tag_is_a_parser_error() {
    let err = parse_markup_source("<div><span></div>").unwrap_err();
    let message = parser_message(&err);
    assert!(message.contains("span"));
    assert!(message.contains("div"));
}

#[test]
fn import_scenario_parses() {
    let decls = parse_source(r#"import { A, B } from "pkg""#).unwrap();
    assert_eq!(decls, vec![ASTNode::import(vec!["A", "B"], "pkg")]);
}

#[test]
fn element_with_attribute_and_text() {
    let nodes = parse_markup_source(r#"<tag attr="v">text</tag>"#).unwrap();
    assert_eq!(
        nodes,
        vec![Node::element("tag", vec![Attribute::new("attr", "v")], vec![Node::text("text")])]
    );
}

#[test]
fn self_closing_and_empty_elements_agree() {
    let a = parse_markup_source("<tag/>").unwrap();
    let b = parse_markup_source("<tag></tag>").unwrap();
    assert_eq!(a, vec![Node::element("tag", vec![], vec![])]);
    assert_eq!(a, b);
}

#[test]
fn mismatched_tags_name_both() {
    let err = parse_markup_source("<a></b>").unwrap_err();
    let message = parser_message(&err);
    assert_eq!(message, "Mismatched closing tag: expected </a>, found </b>");
}

#[test]
fn blank_text_between_tags_is_dropped() {
    let nodes = parse_markup_source("<a>   <b/></a>").unwrap();
    let (_, _, children) = element_parts(&nodes[0]);
    assert_eq!(children, &vec![Node::element("b", vec![], vec![])]);
}

#[test]
fn nested_fragments_lower_like_one() {
    let nested = Node::fragment(vec![Node::fragment(vec![Node::text("x")])]);
    let flat = Node::fragment(vec![Node::text("x")]);
    assert_eq!(ir_node_from_ast(&nested), ir_node_from_ast(&flat));
    assert_eq!(ir_node_from_ast(&flat), IrNode::Fragment(vec![IrNode::Text("x".to_string())]));
}

#[test]
fn punctuation_round_trips() {
    let tokens = tokenize("import from page layout render functions { } : , ( ) ; + - * = =>");
    let rendered: Vec<String> = tokens.iter().map(|t| t.render()).collect();
    assert_eq!(
        rendered.join(" "),
        "import from page layout render functions { } : , ( ) ; + - * = => "
    );
    assert_eq!(tokens.last(), Some(&Token::EOF));
}

#[test]
fn markup_tokens_and_expressions() {
    let tokens = tokenize(r#"<div a={x + "}"}>hi {name}</div>"#);
    assert_eq!(
        tokens,
        vec![
            Token::LT,
            Token::Ident("div".to_string()),
            Token::Ident("a".to_string()),
            Token::EQ,
            Token::LBrace,
            Token::Ident(r#"x + "}""#.to_string()),
            Token::RBrace,
            Token::GT,
            Token::Text("hi".to_string()),
            Token::LBrace,
            Token::Ident("name".to_string()),
            Token::RBrace,
            Token::LT,
            Token::Slash,
            Token::Ident("div".to_string()),
            Token::GT,
            Token::EOF,
        ]
    );
}

#[test]
fn numbers_keep_their_digits_and_skip_unknown_characters() {
    let tokens = tokenize("1.5 2. @ x");
    assert_eq!(
        tokens,
        vec![
            Token::Number("1.5".to_string()),
            Token::Number("2".to_string()),
            Token::Ident("x".to_string()),
            Token::EOF,
        ]
    );
}

#[test]
fn unexpected_top_level_token() {
    match parse_source("layout").unwrap_err() {
        DesignTimeError::UnexpectedToken { found, .. } => assert_eq!(found, "layout"),
        other => panic!("unexpected error {:?}", other),
    }
}

#[test]
fn missing_from_is_reported() {
    let err = parse_source(r#"import { A } "pkg""#).unwrap_err();
    assert_eq!(parser_message(&err), "Expected 'from' in import statement");
}

#[test]
fn unterminated_render_block() {
    match parse_source("page P { render: { <div>").unwrap_err() {
        DesignTimeError::UnterminatedBlock { message, .. } => assert_eq!(message, "Expected closing tag </div>"),
        other => panic!("unexpected error {:?}", other),
    }
}

#[test]
fn expression_function_body_becomes_return() {
    let decls = parse_source("page P { functions: { f: (a, b) => a + b } }").unwrap();
    match &decls[0] {
        ASTNode::Page(p) => {
            assert_eq!(p.functions[0].params, vec!["a".to_string(), "b".to_string()]);
            assert_eq!(p.functions[0].body, vec!["return a + b".to_string()]);
        }
        other => panic!("expected a page, found {:?}", other),
    }
}

#[test]
fn compile_lowers_pages_only() {
    let pages = compile_source(
        r#"import { A } from "m" page P { render: { <p>hi</p> } functions: { f: (x) => x } }"#,
    )
    .unwrap();
    assert_eq!(pages.len(), 1);
    assert_eq!(pages[0].name, "P");
    assert_eq!(
        pages[0].render,
        vec![IrNode::Element {
            name: "p".to_string(),
            attrs: vec![],
            children: vec![IrNode::Text("hi".to_string())],
        }]
    );
    assert_eq!(
        pages[0].functions[0].instructions,
        vec![
            Instruction::LoadParam(0),
            Instruction::LoadConst("return x".to_string()),
            Instruction::Return,
        ]
    );
}

#[test]
fn diagnostics_carry_the_span_of_the_offending_tag() {
    match parse_markup_source("<a>\n</b>").unwrap_err() {
        DesignTimeError::ParserError { span, suggestion, .. } => {
            assert_eq!((span.start_line, span.start_column, span.end_line, span.end_column), (2, 0, 2, 4));
            assert_eq!(suggestion, Some("Change the closing tag to match the opening tag: </a>".to_string()));
        }
        other => panic!("unexpected error {:?}", other),
    }
}

#[test]
fn tokens_have_spans() {
    let (tokens, spans) = Lexer::new("page\n  P").tokenize_with_spans();
    assert_eq!(tokens, vec![Token::Page, Token::Ident("P".to_string()), Token::EOF]);
    let s: Vec<(usize, usize, usize, usize)> =
        spans.iter().map(|s| (s.start_line, s.start_column, s.end_line, s.end_column)).collect();
    assert_eq!(s, vec![(1, 0, 1, 4), (2, 2, 2, 3), (2, 3, 2, 3)]);
}
