use opengraph_transform::tree::{
    Attr, AttrName, Child, Element, ElementName, Expr, Import, Item, Module, Stmt,
};
use opengraph_transform::visitor::{
    build_generated_statement, build_image_element, find_first_element, is_marker_element,
    transform, TransformVisitor,
};

fn element(name: &str, children: Vec<Child>) -> Element {
    Element {
        name: ElementName::Ident(name.to_string()),
        attrs: vec![],
        children,
        self_closing: false,
    }
}

fn named(name: &str, value: Option<Expr>) -> Attr {
    Attr::Named { name: AttrName::Ident(name.to_string()), value }
}

fn text(value: &str) -> Child {
    Child::Text(value.to_string())
}

fn div(value: &str) -> Element {
    element("div", vec![text(value)])
}

fn marker(children: Vec<Child>) -> Element {
    element("OpenGraph", children)
}

fn image() -> Element {
    Element {
        name: ElementName::Ident("img".to_string()),
        attrs: vec![named(
            "src",
            Some(Expr::Member {
                object: Box::new(Expr::Ident("img".to_string())),
                property: "src".to_string(),
            }),
        )],
        children: vec![],
        self_closing: true,
    }
}

fn import(imported: &str, local: &str, source: &str) -> Item {
    Item::Import(Import {
        imported: imported.to_string(),
        local: local.to_string(),
        source: source.to_string(),
    })
}

fn generator_import() -> Item {
    import("createOpenGraphImage", "createOpenGraphImage$", "@solid-mediakit/open-graph")
}

fn wrapper_import() -> Item {
    import("server$", "server$", "solid-start/server")
}

fn generated(first: Element) -> Item {
    Item::Stmt(Stmt::Const {
        name: "img".to_string(),
        init: Expr::Call {
            callee: Box::new(Expr::Ident("server$".to_string())),
            args: vec![Expr::Callback(Box::new(Expr::Call {
                callee: Box::new(Expr::Ident("createOpenGraphImage$".to_string())),
                args: vec![Expr::Element(Box::new(first))],
            }))],
        },
    })
}

fn statement(e: Element) -> Item {
    Item::Stmt(Stmt::Expr(Expr::Element(Box::new(e))))
}

fn generated_statements(module: &Module) -> usize {
    module
        .body
        .iter()
        .filter(|item| matches!(item, Item::Stmt(Stmt::Const { name, .. }) if name == "img"))
        .count()
}

fn imports(module: &Module) -> usize {
    module.body.iter().filter(|item| matches!(item, Item::Import(_))).count()
}

#[test]
fn marker_with_div_becomes_image_with_statement_and_imports() {
    let mut module = Module { body: vec![statement(marker(vec![Child::Element(div("Hi"))]))] };
    transform(&mut module);
    let expected = Module {
        body: vec![generator_import(), wrapper_import(), generated(div("Hi")), statement(image())],
    };
    assert_eq!(module, expected);
}

#[test]
fn surrounding_statements_keep_their_place() {
    let before = Item::Stmt(Stmt::Expr(Expr::Ident("a".to_string())));
    let after = Item::Stmt(Stmt::Other { id: 7, parts: vec![] });
    let mut module = Module {
        body: vec![
            before.clone(),
            statement(marker(vec![Child::Element(div("Hi"))])),
            after.clone(),
        ],
    };
    transform(&mut module);
    assert_eq!(
        module.body,
        vec![
            generator_import(),
            wrapper_import(),
            generated(div("Hi")),
            before,
            statement(image()),
            after,
        ]
    );
}

#[test]
fn module_without_marker_is_unchanged() {
    let input = Module {
        body: vec![
            import("createSignal", "createSignal", "solid-js"),
            statement(element("main", vec![text("x"), Child::Element(div("y"))])),
            Item::Stmt(Stmt::Const {
                name: "a".to_string(),
                init: Expr::Call {
                    callee: Box::new(Expr::Ident("f".to_string())),
                    args: vec![Expr::Str("s".to_string())],
                },
            }),
            Item::Stmt(Stmt::Other { id: 3, parts: vec![Expr::Element(Box::new(div("z")))] }),
        ],
    };
    let mut module = input.clone();
    transform(&mut module);
    assert_eq!(module, input);
    assert_eq!(imports(&module), 1);
}

#[test]
fn module_without_marker_leaves_the_visitor_empty() {
    let mut module = Module { body: vec![statement(div("x"))] };
    let mut visitor = TransformVisitor::default();
    visitor.visit_mut_module(&mut module);
    assert!(visitor.elements().is_empty());
    assert!(visitor.imports().is_empty());
    assert_eq!(module, Module { body: vec![statement(div("x"))] });
}

#[test]
fn empty_module_stays_empty() {
    let mut module = Module { body: vec![] };
    transform(&mut module);
    assert_eq!(module, Module { body: vec![] });
}

#[test]
fn one_marker_inserts_one_statement() {
    let mut module = Module { body: vec![statement(marker(vec![Child::Element(div("a"))]))] };
    transform(&mut module);
    assert_eq!(generated_statements(&module), 1);
    assert_eq!(module.body.len(), 4);
}

#[test]
fn two_markers_insert_one_statement() {
    let mut module = Module {
        body: vec![
            statement(marker(vec![Child::Element(div("a"))])),
            statement(marker(vec![Child::Element(div("b"))])),
        ],
    };
    transform(&mut module);
    assert_eq!(generated_statements(&module), 1);
    assert_eq!(imports(&module), 2);
    assert_eq!(
        module.body,
        vec![
            generator_import(),
            wrapper_import(),
            generated(div("a")),
            statement(image()),
            statement(image()),
        ]
    );
}

#[test]
fn five_markers_insert_one_statement() {
    let names = ["a", "b", "c", "d", "e"];
    let mut module = Module {
        body: names.iter().map(|n| statement(marker(vec![Child::Element(div(n))]))).collect(),
    };
    let mut visitor = TransformVisitor::default();
    visitor.visit_mut_module(&mut module);
    assert_eq!(generated_statements(&module), 1);
    assert_eq!(imports(&module), 2);
    assert_eq!(module.body.len(), 8);
    assert_eq!(module.body[2], generated(div("a")));
    let captured: Vec<Element> = names.iter().map(|n| div(n)).collect();
    assert_eq!(visitor.elements(), &captured);
}

#[test]
fn first_element_child_wins() {
    let a = element("section", vec![text("A")]);
    let b = element("footer", vec![text("B")]);
    let mut n = marker(vec![text("t"), Child::Element(a.clone()), Child::Element(b)]);
    let mut visitor = TransformVisitor::default();
    visitor.visit_mut_jsx_element(&mut n);
    assert_eq!(visitor.elements(), &vec![a.clone()]);
    assert_eq!(n, image());

    let mut module = Module {
        body: vec![statement(marker(vec![
            text("t"),
            Child::Element(a.clone()),
            Child::Element(element("footer", vec![text("B")])),
        ]))],
    };
    transform(&mut module);
    assert_eq!(module.body[2], generated(a));
}

#[test]
fn marker_with_text_only_is_rewritten_without_capture() {
    let mut n = marker(vec![text("only text")]);
    let mut visitor = TransformVisitor::default();
    visitor.visit_mut_jsx_element(&mut n);
    assert_eq!(n, image());
    assert!(visitor.elements().is_empty());
    assert!(visitor.imports().is_empty());

    let mut module = Module { body: vec![statement(marker(vec![text("only text")]))] };
    transform(&mut module);
    assert_eq!(module, Module { body: vec![statement(image())] });
}

#[test]
fn marker_without_children_is_rewritten_without_capture() {
    let mut module = Module { body: vec![statement(marker(vec![]))] };
    transform(&mut module);
    assert_eq!(module, Module { body: vec![statement(image())] });
}

#[test]
fn embedded_expression_is_no_element_child() {
    let embedded = Child::Expr(Expr::Element(Box::new(div("in braces"))));
    let mut n = marker(vec![embedded, Child::Element(div("plain"))]);
    let mut visitor = TransformVisitor::default();
    visitor.visit_mut_jsx_element(&mut n);
    assert_eq!(visitor.elements(), &vec![div("plain")]);
}

#[test]
fn marker_after_a_barren_marker_still_generates() {
    let mut module = Module {
        body: vec![
            statement(marker(vec![text("t")])),
            statement(marker(vec![Child::Element(div("b"))])),
        ],
    };
    transform(&mut module);
    assert_eq!(
        module.body,
        vec![
            generator_import(),
            wrapper_import(),
            generated(div("b")),
            statement(image()),
            statement(image()),
        ]
    );
}

#[test]
fn replacement_has_one_src_attribute_and_no_children() {
    let mut n = Element {
        name: ElementName::Ident("OpenGraph".to_string()),
        attrs: vec![
            named("title", Some(Expr::Str("t".to_string()))),
            Attr::Spread(Expr::Ident("props".to_string())),
        ],
        children: vec![text("a"), Child::Element(div("b")), Child::Element(div("c"))],
        self_closing: false,
    };
    let mut visitor = TransformVisitor::default();
    visitor.visit_mut_jsx_element(&mut n);
    assert_eq!(n.name, ElementName::Ident("img".to_string()));
    assert!(n.self_closing);
    assert!(n.children.is_empty());
    assert_eq!(n.attrs.len(), 1);
    match &n.attrs[0] {
        Attr::Named { name, value: Some(Expr::Member { object, property }) } => {
            assert_eq!(name, &AttrName::Ident("src".to_string()));
            assert_eq!(**object, Expr::Ident("img".to_string()));
            assert_eq!(property, "src");
        }
        other => panic!("unexpected attribute {:?}", other),
    }
}

#[test]
fn built_image_element_is_the_replacement() {
    assert_eq!(build_image_element(), image());
}

#[test]
fn built_statement_wraps_the_element() {
    assert_eq!(build_generated_statement(div("x")), generated(div("x")));
}

#[test]
fn element_that_is_no_marker_is_left_alone() {
    let mut n = element("main", vec![Child::Element(marker(vec![Child::Element(div("x"))]))]);
    let before = n.clone();
    let mut visitor = TransformVisitor::default();
    visitor.visit_mut_jsx_element(&mut n);
    assert_eq!(n, before);
    assert!(visitor.elements().is_empty());
    assert!(visitor.imports().is_empty());
}

#[test]
fn matching_records_both_requirements() {
    let mut n = marker(vec![Child::Element(div("x"))]);
    let mut visitor = TransformVisitor::default();
    visitor.visit_mut_jsx_element(&mut n);
    let table = visitor.imports();
    assert_eq!(table.len(), 2);
    let wrapper = table.get("server$").unwrap();
    assert_eq!(wrapper.binding, "server$");
    assert_eq!(wrapper.source, "solid-start/server");
    let generator = table.get("createOpenGraphImage").unwrap();
    assert_eq!(generator.binding, "createOpenGraphImage$");
    assert_eq!(generator.source, "@solid-mediakit/open-graph");
}

#[test]
fn marker_name_is_matched_exactly() {
    assert!(is_marker_element(&marker(vec![])));
    assert!(!is_marker_element(&element("opengraph", vec![])));
    assert!(!is_marker_element(&element("OpenGraphs", vec![])));
    assert!(!is_marker_element(&element("OpenGrap", vec![])));
    assert!(!is_marker_element(&element("", vec![])));
    assert!(!is_marker_element(&element("img", vec![])));
}

#[test]
fn member_and_namespaced_names_are_no_markers() {
    let member = Element {
        name: ElementName::Member(vec!["OpenGraph".to_string()]),
        attrs: vec![],
        children: vec![Child::Element(div("x"))],
        self_closing: false,
    };
    let namespaced = Element {
        name: ElementName::Namespaced {
            namespace: "OpenGraph".to_string(),
            name: "OpenGraph".to_string(),
        },
        attrs: vec![],
        children: vec![Child::Element(div("x"))],
        self_closing: false,
    };
    assert!(!is_marker_element(&member));
    assert!(!is_marker_element(&namespaced));
    let input = Module { body: vec![statement(member), statement(namespaced)] };
    let mut module = input.clone();
    transform(&mut module);
    assert_eq!(module, input);
}

#[test]
fn first_element_is_found_behind_text_and_expressions() {
    let children = vec![
        text("a"),
        Child::Expr(Expr::Ident("b".to_string())),
        Child::Element(div("c")),
        Child::Element(div("d")),
    ];
    assert_eq!(find_first_element(&children), Some(&div("c")));
    assert_eq!(find_first_element(&vec![text("a")]), None);
    assert_eq!(find_first_element(&vec![]), None);
}

#[test]
fn marker_nested_in_elements_is_rewritten() {
    let inner = element("section", vec![Child::Element(marker(vec![Child::Element(div("x"))]))]);
    let mut module = Module { body: vec![statement(element("main", vec![Child::Element(inner)]))] };
    transform(&mut module);
    let rewritten = element(
        "main",
        vec![Child::Element(element("section", vec![Child::Element(image())]))],
    );
    assert_eq!(
        module.body,
        vec![generator_import(), wrapper_import(), generated(div("x")), statement(rewritten)]
    );
}

#[test]
fn marker_in_attribute_value_is_rewritten() {
    let holder = |value: Element| Element {
        name: ElementName::Ident("Page".to_string()),
        attrs: vec![
            named("plain", None),
            named("head", Some(Expr::Element(Box::new(value)))),
        ],
        children: vec![],
        self_closing: true,
    };
    let mut module =
        Module { body: vec![statement(holder(marker(vec![Child::Element(div("x"))])))] };
    transform(&mut module);
    assert_eq!(module.body[2], generated(div("x")));
    assert_eq!(module.body[3], statement(holder(image())));
}

#[test]
fn marker_in_spread_and_embedded_expression_is_rewritten() {
    let build = |first: Element, second: Element| Element {
        name: ElementName::Ident("Page".to_string()),
        attrs: vec![Attr::Spread(Expr::Element(Box::new(first)))],
        children: vec![Child::Expr(Expr::Element(Box::new(second)))],
        self_closing: false,
    };
    let mut module = Module {
        body: vec![statement(build(
            marker(vec![Child::Element(div("in spread"))]),
            marker(vec![Child::Element(div("in braces"))]),
        ))],
    };
    let mut visitor = TransformVisitor::default();
    visitor.visit_mut_module(&mut module);
    assert_eq!(visitor.elements(), &vec![div("in spread"), div("in braces")]);
    assert_eq!(module.body[2], generated(div("in spread")));
    assert_eq!(module.body[3], statement(build(image(), image())));
}

#[test]
fn marker_in_every_kind_of_expression_is_rewritten() {
    let m = |label: &str| Expr::Element(Box::new(marker(vec![Child::Element(div(label))])));
    let i = || Expr::Element(Box::new(image()));
    let build = |e: &dyn Fn(&str) -> Expr| Expr::Call {
        callee: Box::new(Expr::Member { object: Box::new(e("callee")), property: "f".to_string() }),
        args: vec![
            Expr::Callback(Box::new(e("callback"))),
            Expr::Other { id: 1, parts: vec![Expr::Ident("k".to_string()), e("other")] },
            Expr::Str("OpenGraph".to_string()),
            Expr::Ident("OpenGraph".to_string()),
        ],
    };
    let mut module = Module {
        body: vec![
            Item::Stmt(Stmt::Const { name: "a".to_string(), init: build(&|l| m(l)) }),
            Item::Stmt(Stmt::Other { id: 2, parts: vec![m("statement")] }),
        ],
    };
    let mut visitor = TransformVisitor::default();
    visitor.visit_mut_module(&mut module);
    assert_eq!(
        visitor.elements(),
        &vec![div("callee"), div("callback"), div("other"), div("statement")]
    );
    assert_eq!(
        module.body,
        vec![
            generator_import(),
            wrapper_import(),
            generated(div("callee")),
            Item::Stmt(Stmt::Const { name: "a".to_string(), init: build(&|_| i()) }),
            Item::Stmt(Stmt::Other { id: 2, parts: vec![i()] }),
        ]
    );
}

#[test]
fn marker_inside_a_marker_is_rewritten_first() {
    let inner = marker(vec![Child::Element(div("deep"))]);
    let mut module = Module { body: vec![statement(marker(vec![Child::Element(inner)]))] };
    let mut visitor = TransformVisitor::default();
    visitor.visit_mut_module(&mut module);
    assert_eq!(visitor.elements(), &vec![div("deep"), image()]);
    assert_eq!(
        module.body,
        vec![generator_import(), wrapper_import(), generated(div("deep")), statement(image())]
    );
}

#[test]
fn captured_element_is_captured_after_its_own_rewrite() {
    let child = element("section", vec![Child::Element(marker(vec![Child::Element(div("x"))]))]);
    let mut module = Module { body: vec![statement(marker(vec![Child::Element(child)]))] };
    let mut visitor = TransformVisitor::default();
    visitor.visit_mut_module(&mut module);
    let rewritten_child = element("section", vec![Child::Element(image())]);
    assert_eq!(visitor.elements(), &vec![div("x"), rewritten_child]);
    assert_eq!(module.body[2], generated(div("x")));
}

#[test]
fn walk_visits_attributes_before_children() {
    let mut n = Element {
        name: ElementName::Ident("Page".to_string()),
        attrs: vec![named(
            "head",
            Some(Expr::Element(Box::new(marker(vec![Child::Element(div("attr"))])))),
        )],
        children: vec![Child::Element(marker(vec![Child::Element(div("child"))]))],
        self_closing: false,
    };
    let mut visitor = TransformVisitor::default();
    visitor.walk_element(&mut n);
    assert_eq!(visitor.elements(), &vec![div("attr"), div("child")]);
}

#[test]
fn walk_through_expression_statement_and_item() {
    let mut visitor = TransformVisitor::default();
    let mut e = Expr::Element(Box::new(marker(vec![Child::Element(div("e"))])));
    visitor.walk_expr(&mut e);
    assert_eq!(e, Expr::Element(Box::new(image())));
    let mut s = Stmt::Expr(Expr::Element(Box::new(marker(vec![Child::Element(div("s"))]))));
    visitor.walk_stmt(&mut s);
    assert_eq!(s, Stmt::Expr(Expr::Element(Box::new(image()))));
    let mut i = statement(marker(vec![Child::Element(div("i"))]));
    visitor.walk_item(&mut i);
    assert_eq!(i, statement(image()));
    let mut untouched = wrapper_import();
    visitor.walk_item(&mut untouched);
    assert_eq!(untouched, wrapper_import());
    assert_eq!(visitor.elements(), &vec![div("e"), div("s"), div("i")]);
}

#[test]
fn second_pass_changes_nothing() {
    let mut module = Module {
        body: vec![
            statement(element(
                "main",
                vec![Child::Element(marker(vec![Child::Element(div("a"))]))],
            )),
            statement(marker(vec![Child::Element(marker(vec![Child::Element(div("b"))]))])),
            statement(marker(vec![text("t")])),
        ],
    };
    transform(&mut module);
    let once = module.clone();
    let mut visitor = TransformVisitor::default();
    visitor.visit_mut_module(&mut module);
    assert_eq!(module, once);
    assert!(visitor.elements().is_empty());
    assert!(visitor.imports().is_empty());
}

#[test]
fn imports_are_ascending_and_come_first() {
    let mut module = Module {
        body: vec![
            Item::Stmt(Stmt::Expr(Expr::Str("use strict".to_string()))),
            statement(marker(vec![Child::Element(div("a"))])),
        ],
    };
    transform(&mut module);
    assert_eq!(module.body[0], generator_import());
    assert_eq!(module.body[1], wrapper_import());
    assert_eq!(module.body[2], generated(div("a")));
    assert_eq!(module.body[3], Item::Stmt(Stmt::Expr(Expr::Str("use strict".to_string()))));
    assert_eq!(imports(&module), 2);
}

#[test]
fn insert_imports_with_no_requirement_changes_nothing() {
    let mut module = Module { body: vec![statement(div("x"))] };
    let mut visitor = TransformVisitor::default();
    visitor.insert_imports(&mut module);
    assert_eq!(module, Module { body: vec![statement(div("x"))] });
}

#[test]
fn insert_imports_with_one_requirement() {
    let mut module = Module { body: vec![statement(div("x"))] };
    let mut visitor = TransformVisitor::default();
    visitor.require("server$".to_string(), "server$".to_string(), "solid-start/server".to_string());
    visitor.insert_imports(&mut module);
    assert_eq!(module.body, vec![wrapper_import(), statement(div("x"))]);
    assert!(visitor.imports().is_empty());
}

#[test]
fn insert_imports_orders_by_logical_name_not_by_insertion() {
    let mut visitor = TransformVisitor::default();
    visitor.require("zeta".to_string(), "a".to_string(), "m1".to_string());
    visitor.require("alpha".to_string(), "z".to_string(), "m3".to_string());
    visitor.require("mid".to_string(), "m".to_string(), "m2".to_string());
    let mut module = Module { body: vec![statement(div("x"))] };
    visitor.insert_imports(&mut module);
    assert_eq!(
        module.body,
        vec![
            import("alpha", "z", "m3"),
            import("mid", "m", "m2"),
            import("zeta", "a", "m1"),
            statement(div("x")),
        ]
    );
}

#[test]
fn insert_imports_a_second_time_changes_nothing() {
    let mut n = marker(vec![Child::Element(div("x"))]);
    let mut visitor = TransformVisitor::default();
    visitor.visit_mut_jsx_element(&mut n);
    let mut module = Module { body: vec![] };
    visitor.insert_imports(&mut module);
    assert_eq!(module.body, vec![generator_import(), wrapper_import()]);
    visitor.insert_imports(&mut module);
    assert_eq!(module.body, vec![generator_import(), wrapper_import()]);
    assert!(visitor.imports().is_empty());
    assert_eq!(visitor.elements(), &vec![div("x")]);
}

#[test]
fn requiring_a_name_again_replaces_the_entry() {
    let mut visitor = TransformVisitor::default();
    visitor.require("a".to_string(), "first".to_string(), "m1".to_string());
    visitor.require("a".to_string(), "second".to_string(), "m2".to_string());
    assert_eq!(visitor.imports().len(), 1);
    let mut module = Module { body: vec![] };
    visitor.insert_imports(&mut module);
    assert_eq!(module.body, vec![import("a", "second", "m2")]);
}

#[test]
fn insert_functions_with_nothing_captured_changes_nothing() {
    let mut module = Module { body: vec![statement(div("x"))] };
    let mut visitor = TransformVisitor::default();
    visitor.insert_functions(&mut module);
    assert_eq!(module, Module { body: vec![statement(div("x"))] });
    assert!(visitor.imports().is_empty());
}

#[test]
fn insert_functions_uses_the_first_capture_and_keeps_the_buffer() {
    let mut visitor = TransformVisitor::default();
    let mut first = marker(vec![Child::Element(div("1"))]);
    let mut second = marker(vec![Child::Element(div("2"))]);
    visitor.visit_mut_jsx_element(&mut first);
    visitor.visit_mut_jsx_element(&mut second);
    let mut module = Module { body: vec![statement(div("x"))] };
    visitor.insert_functions(&mut module);
    assert_eq!(module.body, vec![generated(div("1")), statement(div("x"))]);
    assert_eq!(visitor.elements(), &vec![div("1"), div("2")]);
    assert_eq!(visitor.imports().len(), 2);
}

#[test]
fn insert_functions_records_the_requirements_of_its_statement() {
    let mut visitor = TransformVisitor::default();
    let mut n = marker(vec![Child::Element(div("1"))]);
    visitor.visit_mut_jsx_element(&mut n);
    let mut scratch = Module { body: vec![] };
    visitor.insert_imports(&mut scratch);
    assert!(visitor.imports().is_empty());
    let mut module = Module { body: vec![] };
    visitor.insert_functions(&mut module);
    assert!(visitor.imports().get("server$").is_some());
    assert!(visitor.imports().get("createOpenGraphImage").is_some());
    assert_eq!(visitor.imports().len(), 2);
}

#[test]
fn default_visitor_holds_nothing() {
    let visitor = TransformVisitor::default();
    assert!(visitor.elements().is_empty());
    assert!(visitor.imports().is_empty());
    assert_eq!(visitor.imports().len(), 0);
}

#[test]
fn visitor_keeps_what_it_captured_after_the_pass() {
    let mut module = Module { body: vec![statement(marker(vec![Child::Element(div("a"))]))] };
    let mut visitor = TransformVisitor::default();
    visitor.visit_mut_module(&mut module);
    assert_eq!(visitor.elements(), &vec![div("a")]);
    assert!(visitor.imports().is_empty());
}

#[test]
fn import_items_are_untouched() {
    let input =
        Module { body: vec![import("OpenGraph", "OpenGraph", "@solid-mediakit/open-graph")] };
    let mut module = input.clone();
    transform(&mut module);
    assert_eq!(module, input);
}

#[test]
fn copies_are_deep_and_equal() {
    let n = Element {
        name: ElementName::Member(vec!["A".to_string(), "B".to_string()]),
        attrs: vec![
            named("k", Some(Expr::Str("v".to_string()))),
            Attr::Named {
                name: AttrName::Namespaced {
                    namespace: "xlink".to_string(),
                    name: "href".to_string(),
                },
                value: None,
            },
            Attr::Spread(Expr::Other { id: 9, parts: vec![Expr::Ident("p".to_string())] }),
        ],
        children: vec![
            text("t"),
            Child::Expr(Expr::Callback(Box::new(Expr::Member {
                object: Box::new(Expr::Ident("o".to_string())),
                property: "p".to_string(),
            }))),
            Child::Element(Element {
                name: ElementName::Namespaced {
                    namespace: "svg".to_string(),
                    name: "rect".to_string(),
                },
                attrs: vec![],
                children: vec![],
                self_closing: true,
            }),
        ],
        self_closing: false,
    };
    let copy = n.clone();
    assert_eq!(copy, n);
    assert_eq!(copy.attrs[0].clone(), n.attrs[0]);
    assert_eq!(copy.children[1].clone(), n.children[1]);
    assert_eq!(copy.name.clone(), n.name);
    let e = Expr::Call {
        callee: Box::new(Expr::Ident("f".to_string())),
        args: vec![Expr::Element(Box::new(n))],
    };
    assert_eq!(e.clone(), e);
}
