//! The visitor: it walks a tree, rewrites the markers it finds, and keeps
//! what the generated code needs.

use crate::laws::{
    lemma_first_element_child_wins, lemma_no_element_child, lemma_no_marker_no_change,
    lemma_nothing_generated, lemma_single_generated_statement, lemma_transformed_marker_free,
};
use crate::names::{
    GENERATOR, GENERATOR_BINDING, GENERATOR_SOURCE, IMAGE_TAG, MARKER, RESULT, SOURCE_ATTR,
    SOURCE_FIELD, WRAPPER, WRAPPER_SOURCE,
};
use crate::rewrite::{
    after_capture, capture_of, captured_attr, captured_attrs, captured_child, captured_children,
    captured_element, captured_expr, captured_exprs, captured_item, captured_items, captured_stmt,
    first_element_child, fresh, function_requirements, generated_statement, generator_requirement,
    image_element, image_source, import_of, imports_of, is_marker, lemma_after_capture_nothing,
    lemma_after_capture_twice, lemma_captured_attrs_push, lemma_captured_children_push,
    lemma_captured_exprs_push, lemma_captured_items_push, lemma_requirements_recorded_once,
    marker_free_module, replacement_of, rewritten_attr, rewritten_attrs, rewritten_child,
    rewritten_children, rewritten_element, rewritten_expr, rewritten_exprs, rewritten_inside,
    rewritten_item, rewritten_items, rewritten_stmt, transformed, with_function, with_imports,
    with_requirements, wrapper_requirement, VisitorView,
};
use crate::symbols::{ascending, listing, requirements_view, SymbolMap, SymbolTable};
use crate::text::{order_of, Order};
use crate::tree::{
    attrs_view, children_view, elements_view, exprs_view, items_view, Attr, AttrName, AttrView,
    Child, ChildView, Element, ElementName, ElementView, Expr, ExprView, Import, Item, ItemView,
    Module, Stmt,
};
use vstd::prelude::*;

verus! {

/// Whether `e` is a marker.
pub fn is_marker_element(e: &Element) -> (hit: bool)
    ensures
        hit == is_marker(e@),
{
    match &e.name {
        ElementName::Ident(name) => match order_of(name.as_str(), MARKER) {
            Order::Same => true,
            _ => false,
        },
        _ => false,
    }
}

/// The first of `children` that is an element, if there is one.
pub fn find_first_element(children: &Vec<Child>) -> (found: Option<&Element>)
    ensures
        match found {
            Some(e) => first_element_child(children_view(*children)) == Some(e@),
            None => first_element_child(children_view(*children)) is None,
        },
{
    let ghost all = children_view(*children);
    let mut i: usize = 0;
    while i < children.len()
        invariant
            i <= children.len(),
            all == children_view(*children),
            forall|j: int| 0 <= j < i ==> !(#[trigger] all[j] is Element),
        decreases children.len() - i,
    {
        match &children[i] {
            Child::Element(e) => {
                proof {
                    lemma_first_element_child_wins(all, i as int);
                }
                return Some(e);
            },
            _ => {},
        }
        i = i + 1;
    }
    proof {
        lemma_no_element_child(all);
    }
    None
}

/// Builds `<img src={img.src} />`.
pub fn build_image_element() -> (e: Element)
    ensures
        e@ == image_element(),
{
    let result = Expr::Ident(RESULT.to_owned());
    assert(result@ == ExprView::Ident(RESULT@));
    let source = Expr::Member { object: Box::new(result), property: SOURCE_FIELD.to_owned() };
    assert(source@ == image_source());
    let attr = Attr::Named { name: AttrName::Ident(SOURCE_ATTR.to_owned()), value: Some(source) };
    assert(attr@ == image_element().attrs[0]);
    let mut attrs: Vec<Attr> = Vec::new();
    attrs.push(attr);
    let e = Element {
        name: ElementName::Ident(IMAGE_TAG.to_owned()),
        attrs,
        children: Vec::new(),
        self_closing: true,
    };
    assert(e@.attrs =~= image_element().attrs);
    assert(e@.children =~= image_element().children);
    e
}

/// Builds
/// `const img = server$(() => { return createOpenGraphImage$(first); });`.
pub fn build_generated_statement(first: Element) -> (item: Item)
    ensures
        item@ == generated_statement(first@),
{
    let ghost want = generated_statement(first@)->Stmt_0->init;
    let ghost want_callback = want->args[0];
    let ghost want_inner = *want_callback->Callback_0;
    let argument = Expr::Element(Box::new(first));
    assert(argument@ == want_inner->args[0]);
    let mut inner_args: Vec<Expr> = Vec::new();
    inner_args.push(argument);
    assert(exprs_view(inner_args) =~= want_inner->args);
    let generator = Expr::Ident(GENERATOR_BINDING.to_owned());
    assert(generator@ == *want_inner->callee);
    let inner = Expr::Call { callee: Box::new(generator), args: inner_args };
    assert(inner@ == want_inner);
    let callback = Expr::Callback(Box::new(inner));
    assert(callback@ == want_callback);
    let mut outer_args: Vec<Expr> = Vec::new();
    outer_args.push(callback);
    assert(exprs_view(outer_args) =~= want->args);
    let wrapper = Expr::Ident(WRAPPER.to_owned());
    assert(wrapper@ == *want->callee);
    let init = Expr::Call { callee: Box::new(wrapper), args: outer_args };
    assert(init@ == want);
    Item::Stmt(Stmt::Const { name: RESULT.to_owned(), init })
}

/// The state of one pass: the elements captured so far, in the order of
/// capture, and the symbols that the generated code needs.
#[derive(Debug)]
pub struct TransformVisitor {
    elements: Vec<Element>,
    imports: SymbolTable,
}

impl View for TransformVisitor {
    type V = VisitorView;

    closed spec fn view(&self) -> VisitorView {
        VisitorView { elements: elements_view(self.elements), imports: self.imports@ }
    }
}

impl Default for TransformVisitor {
    /// The visitor before a pass: nothing captured, nothing required.
    fn default() -> (visitor: Self)
        ensures
            visitor@ == fresh(),
    {
        let visitor = TransformVisitor { elements: Vec::new(), imports: SymbolTable::new() };
        assert(visitor@.elements =~= fresh().elements);
        visitor
    }
}

impl TransformVisitor {
    /// The elements captured so far, in the order of capture.
    pub fn elements(&self) -> (elements: &Vec<Element>)
        ensures
            elements_view(*elements) == self@.elements,
    {
        &self.elements
    }

    /// The symbols required so far.
    pub fn imports(&self) -> (imports: &SymbolTable)
        ensures
            imports@ == self@.imports,
    {
        &self.imports
    }

    /// Records that generated code needs `binding` to stand for the export
    /// `name` of the module at `source`. A requirement recorded before for
    /// the same `name` is replaced.
    pub fn require(&mut self, name: String, binding: String, source: String)
        ensures
            final(self)@ == (VisitorView {
                elements: old(self)@.elements,
                imports: old(self)@.imports.insert(name@, (binding@, source@)),
            }),
    {
        self.imports.insert(name, binding, source);
    }

    /// Records the two symbols that the generated statement calls.
    fn record_requirements(&mut self)
        ensures
            final(self)@ == (VisitorView {
                elements: old(self)@.elements,
                imports: with_requirements(old(self)@.imports),
            }),
    {
        self.require(WRAPPER.to_owned(), WRAPPER.to_owned(), WRAPPER_SOURCE.to_owned());
        self.require(
            GENERATOR.to_owned(),
            GENERATOR_BINDING.to_owned(),
            GENERATOR_SOURCE.to_owned(),
        );
    }

    /// Looks at one element, without walking into it. A marker has its first
    /// element child captured, if it has one, and becomes the image element,
    /// which keeps none of its attributes and children. Any other element
    /// stays as it is.
    pub fn visit_mut_jsx_element(&mut self, n: &mut Element)
        ensures
            final(n)@ == replacement_of(old(n)@),
            final(self)@ == after_capture(old(self)@, capture_of(old(n)@)),
    {
        if is_marker_element(n) {
            match find_first_element(&n.children) {
                Some(child) => {
                    let copy = child.clone();
                    self.elements.push(copy);
                    self.record_requirements();
                    assert(self@.elements =~= old(self)@.elements + seq![copy@]);
                },
                None => {
                    assert(self@.elements =~= old(self)@.elements + Seq::<ElementView>::empty());
                },
            }
            *n = build_image_element();
        } else {
            assert(self@.elements =~= old(self)@.elements + Seq::<ElementView>::empty());
        }
    }

    /// Walks through `v` in order.
    fn walk_exprs(&mut self, v: &mut Vec<Expr>)
        ensures
            exprs_view(*final(v)) == rewritten_exprs(exprs_view(*old(v))),
            final(self)@ == after_capture(old(self)@, captured_exprs(exprs_view(*old(v)))),
        decreases *old(v),
    {
        let ghost before = exprs_view(*v);
        let mut i: usize = 0;
        proof {
            lemma_after_capture_nothing(self@);
            assert(before.take(0) =~= Seq::<ExprView>::empty());
        }
        while i < v.len()
            invariant
                i <= v.len(),
                v@.len() == old(v)@.len(),
                before == exprs_view(*old(v)),
                forall|j: int| 0 <= j < i ==> (#[trigger] v@[j])@ == rewritten_expr(before[j]),
                forall|j: int| i <= j < v@.len() ==> #[trigger] v@[j] == old(v)@[j],
                self@ == after_capture(old(self)@, captured_exprs(before.take(i as int))),
            decreases v.len() - i,
        {
            self.walk_expr(&mut v[i]);
            proof {
                let done = before.take(i as int);
                assert(before.take(i + 1) =~= done.push(before[i as int]));
                lemma_captured_exprs_push(done, before[i as int]);
                lemma_after_capture_twice(
                    old(self)@,
                    captured_exprs(done),
                    captured_expr(before[i as int]),
                );
            }
            i = i + 1;
        }
        proof {
            assert(before.take(i as int) =~= before);
            assert(exprs_view(*v) =~= rewritten_exprs(before));
        }
    }

    /// Walks through an expression: every element in it is looked at, after
    /// what is inside that element.
    pub fn walk_expr(&mut self, e: &mut Expr)
        ensures
            final(e)@ == rewritten_expr(old(e)@),
            final(self)@ == after_capture(old(self)@, captured_expr(old(e)@)),
        decreases *old(e),
    {
        match e {
            Expr::Ident(_) => {
                proof {
                    lemma_after_capture_nothing(self@);
                }
            },
            Expr::Str(_) => {
                proof {
                    lemma_after_capture_nothing(self@);
                }
            },
            Expr::Member { object, property } => {
                self.walk_expr(object);
            },
            Expr::Call { callee, args } => {
                let ghost callee_view = callee@;
                let ghost args_view = exprs_view(*args);
                self.walk_expr(callee);
                self.walk_exprs(args);
                proof {
                    lemma_after_capture_twice(
                        old(self)@,
                        captured_expr(callee_view),
                        captured_exprs(args_view),
                    );
                }
            },
            Expr::Callback(result) => {
                self.walk_expr(result);
            },
            Expr::Element(element) => {
                self.walk_element(element);
            },
            Expr::Other { id, parts } => {
                self.walk_exprs(parts);
            },
        }
    }

    /// Walks through `v` in order.
    fn walk_attrs(&mut self, v: &mut Vec<Attr>)
        ensures
            attrs_view(*final(v)) == rewritten_attrs(attrs_view(*old(v))),
            final(self)@ == after_capture(old(self)@, captured_attrs(attrs_view(*old(v)))),
        decreases *old(v),
    {
        let ghost before = attrs_view(*v);
        let mut i: usize = 0;
        proof {
            lemma_after_capture_nothing(self@);
            assert(before.take(0) =~= Seq::<AttrView>::empty());
        }
        while i < v.len()
            invariant
                i <= v.len(),
                v@.len() == old(v)@.len(),
                before == attrs_view(*old(v)),
                forall|j: int| 0 <= j < i ==> (#[trigger] v@[j])@ == rewritten_attr(before[j]),
                forall|j: int| i <= j < v@.len() ==> #[trigger] v@[j] == old(v)@[j],
                self@ == after_capture(old(self)@, captured_attrs(before.take(i as int))),
            decreases v.len() - i,
        {
            match &mut v[i] {
                Attr::Named { name, value } => match value {
                    Some(e) => {
                        self.walk_expr(e);
                    },
                    None => {
                        proof {
                            lemma_after_capture_nothing(self@);
                        }
                    },
                },
                Attr::Spread(e) => {
                    self.walk_expr(e);
                },
            }
            proof {
                let done = before.take(i as int);
                assert(before.take(i + 1) =~= done.push(before[i as int]));
                lemma_captured_attrs_push(done, before[i as int]);
                lemma_after_capture_twice(
                    old(self)@,
                    captured_attrs(done),
                    captured_attr(before[i as int]),
                );
            }
            i = i + 1;
        }
        proof {
            assert(before.take(i as int) =~= before);
            assert(attrs_view(*v) =~= rewritten_attrs(before));
        }
    }

    /// Walks through `v` in order.
    fn walk_children(&mut self, v: &mut Vec<Child>)
        ensures
            children_view(*final(v)) == rewritten_children(children_view(*old(v))),
            final(self)@ == after_capture(old(self)@, captured_children(children_view(*old(v)))),
        decreases *old(v),
    {
        let ghost before = children_view(*v);
        let mut i: usize = 0;
        proof {
            lemma_after_capture_nothing(self@);
            assert(before.take(0) =~= Seq::<ChildView>::empty());
        }
        while i < v.len()
            invariant
                i <= v.len(),
                v@.len() == old(v)@.len(),
                before == children_view(*old(v)),
                forall|j: int| 0 <= j < i ==> (#[trigger] v@[j])@ == rewritten_child(before[j]),
                forall|j: int| i <= j < v@.len() ==> #[trigger] v@[j] == old(v)@[j],
                self@ == after_capture(old(self)@, captured_children(before.take(i as int))),
            decreases v.len() - i,
        {
            match &mut v[i] {
                Child::Text(_) => {
                    proof {
                        lemma_after_capture_nothing(self@);
                    }
                },
                Child::Expr(e) => {
                    self.walk_expr(e);
                },
                Child::Element(element) => {
                    self.walk_element(element);
                },
            }
            proof {
                let done = before.take(i as int);
                assert(before.take(i + 1) =~= done.push(before[i as int]));
                lemma_captured_children_push(done, before[i as int]);
                lemma_after_capture_twice(
                    old(self)@,
                    captured_children(done),
                    captured_child(before[i as int]),
                );
            }
            i = i + 1;
        }
        proof {
            assert(before.take(i as int) =~= before);
            assert(children_view(*v) =~= rewritten_children(before));
        }
    }

    /// Walks through an element: first through its attributes, then through
    /// its children, and looks at the element itself at last.
    pub fn walk_element(&mut self, n: &mut Element)
        ensures
            final(n)@ == rewritten_element(old(n)@),
            final(self)@ == after_capture(old(self)@, captured_element(old(n)@)),
        decreases *old(n),
    {
        self.walk_attrs(&mut n.attrs);
        self.walk_children(&mut n.children);
        assert(n@ == rewritten_inside(old(n)@));
        self.visit_mut_jsx_element(n);
        proof {
            let a = captured_attrs(old(n)@.attrs);
            let c = captured_children(old(n)@.children);
            let h = capture_of(rewritten_inside(old(n)@));
            lemma_after_capture_twice(old(self)@, a, c);
            lemma_after_capture_twice(old(self)@, a + c, h);
        }
    }

    /// Walks through a statement.
    pub fn walk_stmt(&mut self, s: &mut Stmt)
        ensures
            final(s)@ == rewritten_stmt(old(s)@),
            final(self)@ == after_capture(old(self)@, captured_stmt(old(s)@)),
    {
        match s {
            Stmt::Const { name, init } => {
                self.walk_expr(init);
            },
            Stmt::Expr(e) => {
                self.walk_expr(e);
            },
            Stmt::Other { id, parts } => {
                self.walk_exprs(parts);
            },
        }
    }

    /// Walks through a top-level item. An import declaration holds no
    /// element.
    pub fn walk_item(&mut self, item: &mut Item)
        ensures
            final(item)@ == rewritten_item(old(item)@),
            final(self)@ == after_capture(old(self)@, captured_item(old(item)@)),
    {
        match item {
            Item::Import(_) => {
                proof {
                    lemma_after_capture_nothing(self@);
                }
            },
            Item::Stmt(s) => {
                self.walk_stmt(s);
            },
        }
    }

    /// Walks through the items of a module in order.
    fn walk_items(&mut self, v: &mut Vec<Item>)
        ensures
            items_view(*final(v)) == rewritten_items(items_view(*old(v))),
            final(self)@ == after_capture(old(self)@, captured_items(items_view(*old(v)))),
    {
        let ghost before = items_view(*v);
        let mut i: usize = 0;
        proof {
            lemma_after_capture_nothing(self@);
            assert(before.take(0) =~= Seq::<ItemView>::empty());
        }
        while i < v.len()
            invariant
                i <= v.len(),
                v@.len() == old(v)@.len(),
                before == items_view(*old(v)),
                forall|j: int| 0 <= j < i ==> (#[trigger] v@[j])@ == rewritten_item(before[j]),
                forall|j: int| i <= j < v@.len() ==> #[trigger] v@[j] == old(v)@[j],
                self@ == after_capture(old(self)@, captured_items(before.take(i as int))),
            decreases v.len() - i,
        {
            self.walk_item(&mut v[i]);
            proof {
                let done = before.take(i as int);
                assert(before.take(i + 1) =~= done.push(before[i as int]));
                lemma_captured_items_push(done, before[i as int]);
                lemma_after_capture_twice(
                    old(self)@,
                    captured_items(done),
                    captured_item(before[i as int]),
                );
            }
            i = i + 1;
        }
        proof {
            assert(before.take(i as int) =~= before);
            assert(items_view(*v) =~= rewritten_items(before));
        }
    }

    /// One pass over a module: walks through every item, then puts the
    /// generated statement in front, then the import declarations in front
    /// of that. The table of required symbols is empty afterwards; the
    /// captured elements stay.
    pub fn visit_mut_module(&mut self, module: &mut Module)
        ensures
            ({
                let st = after_capture(old(self)@, captured_items(old(module)@.body));
                &&& final(module)@.body == with_imports(
                    with_function(rewritten_items(old(module)@.body), st.elements),
                    function_requirements(st.imports, st.elements),
                )
                &&& final(self)@ == (VisitorView {
                    elements: st.elements,
                    imports: SymbolMap::empty(),
                })
            }),
    {
        self.walk_items(&mut module.body);
        self.insert_functions(module);
        self.insert_imports(module);
    }

    /// Puts the generated statement in front of the module, if an element
    /// was captured, and records the two symbols that the statement calls.
    /// The statement is built on the first captured element alone, however
    /// many were captured. With nothing captured, nothing changes.
    pub fn insert_functions(&mut self, module: &mut Module)
        ensures
            final(module)@.body == with_function(old(module)@.body, old(self)@.elements),
            final(self)@ == (VisitorView {
                elements: old(self)@.elements,
                imports: function_requirements(old(self)@.imports, old(self)@.elements),
            }),
    {
        if self.elements.len() < 1 {
            return ;
        }
        let first = self.elements[0].clone();
        self.record_requirements();
        let statement = build_generated_statement(first);
        let ghost statement_view = statement@;
        module.body.insert(0, statement);
        assert(items_view(module.body) =~= seq![statement_view] + items_view(old(module).body));
    }

    /// Puts one import declaration for each required symbol in front of the
    /// module, in ascending order of logical name, and empties the table. A
    /// second call, with the table empty, changes nothing.
    pub fn insert_imports(&mut self, module: &mut Module)
        ensures
            final(module)@.body == with_imports(old(module)@.body, old(self)@.imports),
            ascending(listing(old(self)@.imports)),
            final(self)@ == (VisitorView {
                elements: old(self)@.elements,
                imports: SymbolMap::empty(),
            }),
    {
        let mut entries = self.imports.drain();
        let ghost all = requirements_view(entries);
        assert(all.take(all.len() as int) =~= all);
        assert(items_view(module.body) =~= imports_of(all.skip(all.len() as int)) + items_view(
            old(module).body,
        ));
        while entries.len() > 0
            invariant
                entries@.len() <= all.len(),
                requirements_view(entries) == all.take(entries@.len() as int),
                items_view(module.body) == imports_of(all.skip(entries@.len() as int)) + items_view(
                    old(module).body,
                ),
            decreases entries.len(),
        {
            let ghost n = entries@.len() as int;
            let ghost last = requirements_view(entries)[n - 1];
            let ghost body = items_view(module.body);
            match entries.pop() {
                Some(r) => {
                    assert(r@ == last);
                    let import = Item::Import(
                        Import { imported: r.name, local: r.binding, source: r.source },
                    );
                    assert(import@ == import_of(all[n - 1]));
                    module.body.insert(0, import);
                    assert(items_view(module.body) =~= seq![import_of(all[n - 1])] + body);
                    assert(imports_of(all.skip(n - 1)) =~= seq![import_of(all[n - 1])]
                        + imports_of(all.skip(n)));
                    assert(requirements_view(entries) =~= all.take(n - 1));
                },
                None => {},
            }
        }
        assert(all.skip(0) =~= all);
    }
}

/// Transforms a module in one pass of a fresh visitor. If the walk captures
/// an element, the module comes out as the two import declarations, then
/// the generated statement on the first captured element, then its own
/// items with every marker replaced; if not, as its own items with every
/// marker replaced. No marker is left afterwards, and a module that held
/// none is unchanged.
pub fn transform(module: &mut Module)
    ensures
        final(module)@ == transformed(old(module)@),
        captured_items(old(module)@.body).len() > 0 ==> final(module)@.body == imports_of(
            seq![generator_requirement(), wrapper_requirement()],
        ) + seq![generated_statement(captured_items(old(module)@.body)[0])] + rewritten_items(
            old(module)@.body,
        ),
        captured_items(old(module)@.body).len() == 0 ==> final(module)@.body == rewritten_items(
            old(module)@.body,
        ),
        marker_free_module(final(module)@),
        marker_free_module(old(module)@) ==> final(module)@ == old(module)@,
{
    let mut visitor = TransformVisitor::default();
    visitor.visit_mut_module(module);
    proof {
        lemma_requirements_recorded_once(SymbolMap::empty());
        lemma_transformed_marker_free(old(module)@);
        if marker_free_module(old(module)@) {
            lemma_no_marker_no_change(old(module)@);
        }
        if captured_items(old(module)@.body).len() > 0 {
            lemma_single_generated_statement(old(module)@);
        } else {
            lemma_nothing_generated(old(module)@);
        }
    }
}

} // verus!
