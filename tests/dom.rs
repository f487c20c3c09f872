use designtime::ast::{Attribute, Node};
use designtime::dom::{self as dominate, DomNode};
use designtime::live::{should_render, LiveAction, LiveState};
use designtime::render::{transform, transform_node, RenderError};
use designtime::style::{generate_css_for_class, get_css, StyleMan};
use designtime::runtime::{RenderLib, Runtime};
use designtime::visit::PrintVisitor;
use designtime::workspace::{ProjectInfo, WorkspaceConfig};

fn create_hello_world() -> Vec<DomNode> {
    let hello_world_node = Node::element(
        "div",
        vec![Attribute::new("class", "greeting"), Attribute::new("id", "hello")],
        vec![Node::text("Hello world!")],
    );
    transform(vec![hello_world_node])
}

fn create_complex_greeting() -> Vec<DomNode> {
    let complex_node = Node::element(
        "div",
        vec![Attribute::new("class", "container")],
        vec![
            Node::element(
                "h1",
                vec![Attribute::new("class", "title")],
                vec![Node::text("Welcome to Watchman!")],
            ),
            Node::element(
                "p",
                vec![Attribute::new("class", "description")],
                vec![Node::text("This is a demonstration of render-core in action.")],
            ),
        ],
    );
    transform(vec![complex_node])
}

fn create_web_demo_ast() -> Vec<Node> {
    vec![Node::element(
        "div",
        vec![Attribute::new("class", "app")],
        vec![
            Node::element(
                "header",
                vec![Attribute::new("class", "header")],
                vec![Node::element("h1", vec![], vec![Node::text("🔍 Watchman Live Demo")])],
            ),
            Node::element(
                "main",
                vec![Attribute::new("class", "main-content")],
                vec![
                    Node::element(
                        "div",
                        vec![Attribute::new("class", "greeting"), Attribute::new("id", "hello")],
                        vec![Node::text("Hello world!")],
                    ),
                    Node::element(
                        "p",
                        vec![Attribute::new("class", "description")],
                        vec![Node::text(
                            "This content was generated from AST nodes using render-core and WebAssembly.",
                        )],
                    ),
                ],
            ),
        ],
    )]
}

#[test]
fn test_transform_text_node() {
    let node = Node::text("Hello");
    let dom_node = transform_node(node).unwrap();
    if let DomNode::Text(text) = dom_node {
        assert_eq!(text, "Hello");
    } else {
        panic!("Expected text node");
    }
}

#[test]
fn test_transform_element_node() {
    let node = Node::element(
        "div",
        vec![Attribute::new("class", "container")],
        vec![Node::text("Hello")],
    );
    let dom_node = transform_node(node).unwrap();
    if let DomNode::Element { tag, attributes, children, .. } = dom_node {
        let class_attr = attributes.iter().find(|(k, _)| k == "class").map(|(_, v)| v);
        assert_eq!(tag, "div");
        assert_eq!(class_attr, Some(&"container".to_string()));
        assert_eq!(children.len(), 1);
        if let DomNode::Text(text) = &children[0] {
            assert_eq!(text, "Hello");
        } else {
            panic!("Expected text child");
        }
    } else {
        panic!("Expected element node");
    }
}

#[test]
fn test_create_hello_world() {
    let dom_nodes = create_hello_world();
    assert_eq!(dom_nodes.len(), 1);
    if let DomNode::Element { tag, attributes, children, .. } = &dom_nodes[0] {
        assert_eq!(tag, "div");
        assert!(attributes.contains(&("class".to_string(), "greeting".to_string())));
        assert!(attributes.contains(&("id".to_string(), "hello".to_string())));
        assert_eq!(children.len(), 1);
        if let DomNode::Text(text) = &children[0] {
            assert_eq!(text, "Hello world!");
        } else {
            panic!("Expected text node as child");
        }
    } else {
        panic!("Expected element node");
    }
}

#[test]
fn test_create_complex_greeting() {
    let dom_nodes = create_complex_greeting();
    assert_eq!(dom_nodes.len(), 1);
    if let DomNode::Element { tag, children, .. } = &dom_nodes[0] {
        assert_eq!(tag, "div");
        assert_eq!(children.len(), 2);
    } else {
        panic!("Expected element node");
    }
}

#[test]
fn test_create_web_demo_ast() {
    let ast_nodes = create_web_demo_ast();
    assert_eq!(ast_nodes.len(), 1);
    if let Node::Element { name, children, .. } = &ast_nodes[0] {
        assert_eq!(name, "div");
        assert_eq!(children.len(), 2);
    } else {
        panic!("Expected element node");
    }
}

#[test]
fn fragments_cannot_be_rendered_plainly() {
    let r = transform_node(Node::fragment(vec![]));
    assert_eq!(r.unwrap_err(), RenderError::DomError);
}

#[test]
fn keyed_transform_splits_classes() {
    let nodes = vec![
        Node::element(
            "div",
            vec![Attribute::new("class", " flex  p-4 "), Attribute::new("id", "x")],
            vec![Node::text("{{ name }}"), Node::element("span", vec![Attribute::new("class", "bg-red")], vec![])],
        ),
        Node::text("plain"),
    ];
    let (dom, classes) = dominate::transform(nodes);
    assert_eq!(classes, vec!["flex".to_string(), "p-4".to_string(), "bg-red".to_string()]);
    match &dom[0] {
        DomNode::Element { tag, attributes, class_names, children, key, inline_style } => {
            assert_eq!(tag, "div");
            assert_eq!(attributes, &vec![("id".to_string(), "x".to_string())]);
            assert_eq!(class_names, &vec!["flex".to_string(), "p-4".to_string()]);
            assert_eq!(key, "node0");
            assert!(inline_style.is_none());
            match &children[0] {
                DomNode::Expression(e) => assert_eq!(e, "name"),
                other => panic!("expected an expression, found {:?}", other),
            }
            match &children[1] {
                DomNode::Element { key, .. } => assert_eq!(key, "node0-1"),
                other => panic!("expected an element, found {:?}", other),
            }
        }
        other => panic!("expected an element, found {:?}", other),
    }
    match &dom[1] {
        DomNode::Text(t) => assert_eq!(t, "plain"),
        other => panic!("expected text, found {:?}", other),
    }
    assert_eq!(
        get_css(classes),
        ".flex { display: flex; }\n.p-4 { padding: 1rem; }\n.bg-red { background-color: #f44336; }\n"
    );
}

#[test]
fn builder_defaults_key() {
    let n = DomNode::element("a").attr("href", "/").class("x").key("k1").inline_style("color: red").build();
    match n {
        DomNode::Element { key, attributes, class_names, inline_style, .. } => {
            assert_eq!(key, "k1");
            assert_eq!(attributes, vec![("href".to_string(), "/".to_string())]);
            assert_eq!(class_names, vec!["x".to_string()]);
            assert_eq!(inline_style, Some("color: red".to_string()));
        }
        _ => panic!("expected an element"),
    }
    match DomNode::element("b").build() {
        DomNode::Element { key, .. } => assert_eq!(key, "auto_key"),
        _ => panic!("expected an element"),
    }
}

#[test]
fn css_rules_by_class() {
    assert_eq!(generate_css_for_class("p-2"), Some("padding: 0.5rem;".to_string()));
    assert_eq!(generate_css_for_class("m-5"), Some("margin: 1.25rem;".to_string()));
    assert_eq!(generate_css_for_class("m-3"), Some("margin: 0.75rem;".to_string()));
    assert_eq!(generate_css_for_class("text-blue"), Some("color: #2196f3;".to_string()));
    assert_eq!(generate_css_for_class("font-bold"), Some("font-weight: 700;".to_string()));
    assert_eq!(generate_css_for_class("flex-col"), Some("flex-direction: column;".to_string()));
    assert_eq!(generate_css_for_class("items-center"), Some("align-items: center;".to_string()));
    assert_eq!(generate_css_for_class("justify-between"), Some("justify-content: space-between;".to_string()));
    assert_eq!(generate_css_for_class("bg-orange"), None);
    assert_eq!(generate_css_for_class("p-x"), None);
    assert_eq!(generate_css_for_class("unknown"), None);
}

#[test]
fn style_man_keeps_first_occurrence() {
    let mut s = StyleMan::new();
    s.add_classes(vec!["grid".to_string(), "x".to_string(), "grid".to_string(), "block".to_string()]);
    assert_eq!(s.generate_css(), ".grid { display: grid; }\n.block { display: block; }\n");
}

#[test]
fn print_visitor_outlines_tree() {
    let tree = Node::element("div", vec![Attribute::new("a", "b")], vec![Node::text("hi")]);
    let mut v = PrintVisitor::new();
    tree.visit(&mut v);
    assert_eq!(v.lines(), &vec!["Element: div (1 attrs)".to_string(), "  Text: \"hi\"".to_string()]);
}

#[test]
fn dom_outline_text() {
    let n = DomNode::element("div")
        .attr("id", "x")
        .class("c")
        .child(DomNode::text("hi"))
        .build();
    assert_eq!(
        n.to_text(),
        "Element: <div> (key: auto_key)\n  Attributes:\n    id = \"x\"\n  Class Names:\n    c\n  Children:\n    Text: hi\n"
    );
    assert_eq!(DomNode::expression("e").to_text(), "Expression: { e }\n");
}

#[test]
fn render_lib_reports_runtime_errors() {
    let config = WorkspaceConfig {
        project: ProjectInfo { name: "p".to_string(), version: "1".to_string(), description: None },
        packages: None,
        unocss: None,
        routes: None,
        theme: None,
        components: None,
        build: None,
        dev_server: None,
    };
    assert!(!config.is_unocss_enabled());
    let mut lib = RenderLib::new(Runtime::new(config));
    let dom = lib.process_source("<p class=\"flex\">x</p>").unwrap();
    assert_eq!(dom.len(), 1);
    let err = lib.process_source("<p>").unwrap_err();
    assert_eq!(err.describe(), "Expected closing tag </p> (at line 1, column 3)");
}

#[test]
fn live_state_keeps_last_good_output() {
    let mut lib = RenderLib::new(Runtime::new(WorkspaceConfig {
        project: ProjectInfo { name: "p".to_string(), version: "1".to_string(), description: None },
        packages: None,
        unocss: None,
        routes: None,
        theme: None,
        components: None,
        build: None,
        dev_server: None,
    }));
    let mut state = LiveState::new();
    assert!(should_render("pages/home.dts"));
    assert!(!should_render("pages/home.rs"));
    assert!(matches!(state.on_render(lib.process_source("<p>ok</p>")), LiveAction::Reload));
    assert_eq!(state.generation, 1);
    match state.on_render(lib.process_source("<p>")) {
        LiveAction::ShowError(text) => assert_eq!(text, "Expected closing tag </p> (at line 1, column 3)"),
        other => panic!("unexpected action {:?}", other),
    }
    assert_eq!(state.generation, 1);
    let kept = state.last_good.as_ref().unwrap();
    assert_eq!(kept.len(), 1);
}
