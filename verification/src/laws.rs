//! What holds of every pass, proved over the models.

use crate::names::{
    GENERATOR_BINDING, IMAGE_TAG, lemma_generator_before_wrapper, lemma_generator_is_not_wrapper,
    lemma_image_tag_is_no_marker, SOURCE_ATTR, WRAPPER,
};
use crate::rewrite::{
    after_capture, capture_of, captured_attr, captured_attrs, captured_child, captured_children,
    captured_element, captured_expr, captured_exprs, captured_item, captured_items,
    first_element_child, fresh, generated_statement, generator_requirement, image_element,
    image_source, import_of, imports_of, is_marker, marker_free_attr, marker_free_attrs,
    marker_free_child, marker_free_children, marker_free_element, marker_free_elements,
    marker_free_expr, marker_free_exprs, marker_free_item, marker_free_items, marker_free_module,
    replacement_of, rewritten_attr, rewritten_attrs, rewritten_child, rewritten_children,
    rewritten_element, rewritten_expr, rewritten_exprs, rewritten_inside, rewritten_item,
    rewritten_items, transformed, with_function, with_imports, with_requirements,
    wrapper_requirement,
};
use crate::symbols::{
    ascending, is_listing, lemma_listing_exists, lemma_listing_of, lemma_position, listing, lists,
    position_of, table_of, RequirementView, SymbolMap,
};
use crate::text::lex_lt;
use crate::tree::{
    AttrNameView, AttrView, ChildView, ElementNameView, ElementView, ExprView, ItemView, ModuleView,
    StmtView,
};
use vstd::prelude::*;

verus! {

/// The walk through expressions without a marker changes none of them and
/// captures nothing.
pub proof fn lemma_untouched_exprs(s: Seq<ExprView>)
    requires
        marker_free_exprs(s),
    ensures
        rewritten_exprs(s) == s,
        captured_exprs(s) == Seq::<ElementView>::empty(),
    decreases s,
{
    assert forall|i: int| 0 <= i < s.len() implies rewritten_expr(s[i]) == s[i] by {
        lemma_untouched_expr(s[i]);
    }
    assert(rewritten_exprs(s) =~= s);
    if s.len() > 0 {
        let front = s.drop_last();
        assert forall|i: int| 0 <= i < front.len() implies marker_free_expr(
            #[trigger] front[i],
        ) by {
            assert(front[i] == s[i]);
        }
        lemma_untouched_exprs(front);
        lemma_untouched_expr(s.last());
    }
}

/// The walk through an expression without a marker changes nothing and
/// captures nothing.
pub proof fn lemma_untouched_expr(e: ExprView)
    requires
        marker_free_expr(e),
    ensures
        rewritten_expr(e) == e,
        captured_expr(e) == Seq::<ElementView>::empty(),
    decreases e,
{
    match e {
        ExprView::Ident(_) => {},
        ExprView::Str(_) => {},
        ExprView::Member { object, .. } => {
            lemma_untouched_expr(*object);
        },
        ExprView::Call { callee, args } => {
            lemma_untouched_expr(*callee);
            lemma_untouched_exprs(args);
        },
        ExprView::Callback(result) => {
            lemma_untouched_expr(*result);
        },
        ExprView::Element(element) => {
            lemma_untouched_element(*element);
        },
        ExprView::Other { parts, .. } => {
            lemma_untouched_exprs(parts);
        },
    }
}

/// The walk through an attribute without a marker changes nothing and
/// captures nothing.
pub proof fn lemma_untouched_attr(a: AttrView)
    requires
        marker_free_attr(a),
    ensures
        rewritten_attr(a) == a,
        captured_attr(a) == Seq::<ElementView>::empty(),
    decreases a,
{
    match a {
        AttrView::Named { value: Some(e), .. } => {
            lemma_untouched_expr(e);
        },
        AttrView::Named { value: None, .. } => {},
        AttrView::Spread(e) => {
            lemma_untouched_expr(e);
        },
    }
}

/// The walk through attributes without a marker changes none of them and
/// captures nothing.
pub proof fn lemma_untouched_attrs(s: Seq<AttrView>)
    requires
        marker_free_attrs(s),
    ensures
        rewritten_attrs(s) == s,
        captured_attrs(s) == Seq::<ElementView>::empty(),
    decreases s,
{
    assert forall|i: int| 0 <= i < s.len() implies rewritten_attr(s[i]) == s[i] by {
        lemma_untouched_attr(s[i]);
    }
    assert(rewritten_attrs(s) =~= s);
    if s.len() > 0 {
        let front = s.drop_last();
        assert forall|i: int| 0 <= i < front.len() implies marker_free_attr(
            #[trigger] front[i],
        ) by {
            assert(front[i] == s[i]);
        }
        lemma_untouched_attrs(front);
        lemma_untouched_attr(s.last());
    }
}

/// The walk through a child without a marker changes nothing and captures
/// nothing.
pub proof fn lemma_untouched_child(c: ChildView)
    requires
        marker_free_child(c),
    ensures
        rewritten_child(c) == c,
        captured_child(c) == Seq::<ElementView>::empty(),
    decreases c,
{
    match c {
        ChildView::Text(_) => {},
        ChildView::Expr(e) => {
            lemma_untouched_expr(e);
        },
        ChildView::Element(element) => {
            lemma_untouched_element(element);
        },
    }
}

/// The walk through children without a marker changes none of them and
/// captures nothing.
pub proof fn lemma_untouched_children(s: Seq<ChildView>)
    requires
        marker_free_children(s),
    ensures
        rewritten_children(s) == s,
        captured_children(s) == Seq::<ElementView>::empty(),
    decreases s,
{
    assert forall|i: int| 0 <= i < s.len() implies rewritten_child(s[i]) == s[i] by {
        lemma_untouched_child(s[i]);
    }
    assert(rewritten_children(s) =~= s);
    if s.len() > 0 {
        let front = s.drop_last();
        assert forall|i: int| 0 <= i < front.len() implies marker_free_child(
            #[trigger] front[i],
        ) by {
            assert(front[i] == s[i]);
        }
        lemma_untouched_children(front);
        lemma_untouched_child(s.last());
    }
}

/// The walk through an element that neither is nor holds a marker changes
/// nothing and captures nothing.
pub proof fn lemma_untouched_element(e: ElementView)
    requires
        marker_free_element(e),
    ensures
        rewritten_element(e) == e,
        captured_element(e) == Seq::<ElementView>::empty(),
    decreases e,
{
    lemma_untouched_attrs(e.attrs);
    lemma_untouched_children(e.children);
    assert(rewritten_inside(e) == e);
}

/// The concatenation of marker-free sequences is marker-free.
proof fn lemma_marker_free_concat(a: Seq<ElementView>, b: Seq<ElementView>)
    requires
        marker_free_elements(a),
        marker_free_elements(b),
    ensures
        marker_free_elements(a + b),
{
    assert forall|i: int| 0 <= i < (a + b).len() implies marker_free_element(
        #[trigger] (a + b)[i],
    ) by {
        if i < a.len() {
            assert((a + b)[i] == a[i]);
        } else {
            assert((a + b)[i] == b[i - a.len()]);
        }
    }
}

/// The image element neither is nor holds a marker.
pub proof fn lemma_image_element_marker_free()
    ensures
        marker_free_element(image_element()),
{
    lemma_image_tag_is_no_marker();
    let e = image_element();
    assert(marker_free_expr(image_source())) by {
        reveal_with_fuel(marker_free_expr, 2);
    }
    assert(marker_free_attr(e.attrs[0]));
}

/// The first child that is an element is the one captured, whatever comes
/// after it: if `children[i]` is an element and no child before it is one,
/// `first_element_child` gives that element.
pub proof fn lemma_first_element_child_wins(children: Seq<ChildView>, i: int)
    requires
        0 <= i < children.len(),
        children[i] is Element,
        forall|j: int| 0 <= j < i ==> !(#[trigger] children[j] is Element),
    ensures
        first_element_child(children) == Some(children[i]->Element_0),
    decreases i,
{
    if i > 0 {
        let rest = children.skip(1);
        assert(!(children[0] is Element));
        assert forall|j: int| 0 <= j < i - 1 implies !(#[trigger] rest[j] is Element) by {
            assert(rest[j] == children[j + 1]);
        }
        lemma_first_element_child_wins(rest, i - 1);
    }
}

/// Children of which none is an element give nothing to capture.
pub proof fn lemma_no_element_child(children: Seq<ChildView>)
    requires
        forall|j: int| 0 <= j < children.len() ==> !(#[trigger] children[j] is Element),
    ensures
        first_element_child(children) is None,
    decreases children.len(),
{
    if children.len() > 0 {
        let rest = children.skip(1);
        assert(!(children[0] is Element));
        assert forall|j: int| 0 <= j < rest.len() implies !(#[trigger] rest[j] is Element) by {
            assert(rest[j] == children[j + 1]);
        }
        lemma_no_element_child(rest);
    }
}

/// The first element among marker-free children is marker-free.
proof fn lemma_first_element_child_marker_free(s: Seq<ChildView>)
    requires
        marker_free_children(s),
    ensures
        match first_element_child(s) {
            Some(child) => marker_free_element(child),
            None => true,
        },
    decreases s.len(),
{
    if s.len() > 0 {
        match s[0] {
            ChildView::Element(e) => {
                assert(marker_free_child(s[0]));
            },
            _ => {
                let rest = s.skip(1);
                assert forall|i: int| 0 <= i < rest.len() implies marker_free_child(
                    #[trigger] rest[i],
                ) by {
                    assert(rest[i] == s[i + 1]);
                }
                lemma_first_element_child_marker_free(rest);
            },
        }
    }
}

/// After the walk through expressions no marker is left, neither in them
/// nor in what was captured.
pub proof fn lemma_clean_exprs(s: Seq<ExprView>)
    ensures
        marker_free_exprs(rewritten_exprs(s)),
        marker_free_elements(captured_exprs(s)),
    decreases s,
{
    assert forall|i: int| 0 <= i < s.len() implies marker_free_expr(
        #[trigger] rewritten_exprs(s)[i],
    ) by {
        lemma_clean_expr(s[i]);
    }
    if s.len() > 0 {
        lemma_clean_exprs(s.drop_last());
        lemma_clean_expr(s.last());
        lemma_marker_free_concat(captured_exprs(s.drop_last()), captured_expr(s.last()));
    }
}

/// After the walk through an expression no marker is left, neither in it
/// nor in what was captured.
pub proof fn lemma_clean_expr(e: ExprView)
    ensures
        marker_free_expr(rewritten_expr(e)),
        marker_free_elements(captured_expr(e)),
    decreases e,
{
    match e {
        ExprView::Ident(_) => {},
        ExprView::Str(_) => {},
        ExprView::Member { object, .. } => {
            lemma_clean_expr(*object);
        },
        ExprView::Call { callee, args } => {
            lemma_clean_expr(*callee);
            lemma_clean_exprs(args);
            lemma_marker_free_concat(captured_expr(*callee), captured_exprs(args));
        },
        ExprView::Callback(result) => {
            lemma_clean_expr(*result);
        },
        ExprView::Element(element) => {
            lemma_clean_element(*element);
        },
        ExprView::Other { parts, .. } => {
            lemma_clean_exprs(parts);
        },
    }
}

/// After the walk through an attribute no marker is left, neither in it
/// nor in what was captured.
pub proof fn lemma_clean_attr(a: AttrView)
    ensures
        marker_free_attr(rewritten_attr(a)),
        marker_free_elements(captured_attr(a)),
    decreases a,
{
    match a {
        AttrView::Named { value: Some(e), .. } => {
            lemma_clean_expr(e);
        },
        AttrView::Named { value: None, .. } => {},
        AttrView::Spread(e) => {
            lemma_clean_expr(e);
        },
    }
}

/// After the walk through attributes no marker is left, neither in them
/// nor in what was captured.
pub proof fn lemma_clean_attrs(s: Seq<AttrView>)
    ensures
        marker_free_attrs(rewritten_attrs(s)),
        marker_free_elements(captured_attrs(s)),
    decreases s,
{
    assert forall|i: int| 0 <= i < s.len() implies marker_free_attr(
        #[trigger] rewritten_attrs(s)[i],
    ) by {
        lemma_clean_attr(s[i]);
    }
    if s.len() > 0 {
        lemma_clean_attrs(s.drop_last());
        lemma_clean_attr(s.last());
        lemma_marker_free_concat(captured_attrs(s.drop_last()), captured_attr(s.last()));
    }
}

/// After the walk through a child no marker is left, neither in it nor in
/// what was captured.
pub proof fn lemma_clean_child(c: ChildView)
    ensures
        marker_free_child(rewritten_child(c)),
        marker_free_elements(captured_child(c)),
    decreases c,
{
    match c {
        ChildView::Text(_) => {},
        ChildView::Expr(e) => {
            lemma_clean_expr(e);
        },
        ChildView::Element(element) => {
            lemma_clean_element(element);
        },
    }
}

/// After the walk through children no marker is left, neither in them nor
/// in what was captured.
pub proof fn lemma_clean_children(s: Seq<ChildView>)
    ensures
        marker_free_children(rewritten_children(s)),
        marker_free_elements(captured_children(s)),
    decreases s,
{
    assert forall|i: int| 0 <= i < s.len() implies marker_free_child(
        #[trigger] rewritten_children(s)[i],
    ) by {
        lemma_clean_child(s[i]);
    }
    if s.len() > 0 {
        lemma_clean_children(s.drop_last());
        lemma_clean_child(s.last());
        lemma_marker_free_concat(captured_children(s.drop_last()), captured_child(s.last()));
    }
}

/// After the walk through an element no marker is left, neither in what the
/// element became nor in what was captured.
pub proof fn lemma_clean_element(e: ElementView)
    ensures
        marker_free_element(rewritten_element(e)),
        marker_free_elements(captured_element(e)),
    decreases e,
{
    lemma_clean_attrs(e.attrs);
    lemma_clean_children(e.children);
    let inside = rewritten_inside(e);
    lemma_image_element_marker_free();
    lemma_first_element_child_marker_free(inside.children);
    lemma_marker_free_concat(captured_attrs(e.attrs), captured_children(e.children));
    lemma_marker_free_concat(
        captured_attrs(e.attrs) + captured_children(e.children),
        capture_of(inside),
    );
}

/// The walk through the items of a module without a marker changes none
/// of them and captures nothing.
pub proof fn lemma_untouched_items(s: Seq<ItemView>)
    requires
        marker_free_items(s),
    ensures
        rewritten_items(s) == s,
        captured_items(s) == Seq::<ElementView>::empty(),
    decreases s.len(),
{
    assert forall|i: int| 0 <= i < s.len() implies rewritten_item(s[i]) == s[i] by {
        lemma_untouched_item(s[i]);
    }
    assert(rewritten_items(s) =~= s);
    if s.len() > 0 {
        let front = s.drop_last();
        assert forall|i: int| 0 <= i < front.len() implies marker_free_item(
            #[trigger] front[i],
        ) by {
            assert(front[i] == s[i]);
        }
        lemma_untouched_items(front);
        lemma_untouched_item(s.last());
    }
}

proof fn lemma_untouched_item(item: ItemView)
    requires
        marker_free_item(item),
    ensures
        rewritten_item(item) == item,
        captured_item(item) == Seq::<ElementView>::empty(),
{
    match item {
        ItemView::Import(_) => {},
        ItemView::Stmt(StmtView::Const { init, .. }) => {
            lemma_untouched_expr(init);
        },
        ItemView::Stmt(StmtView::Expr(e)) => {
            lemma_untouched_expr(e);
        },
        ItemView::Stmt(StmtView::Other { parts, .. }) => {
            lemma_untouched_exprs(parts);
        },
    }
}

proof fn lemma_clean_item(item: ItemView)
    ensures
        marker_free_item(rewritten_item(item)),
        marker_free_elements(captured_item(item)),
{
    match item {
        ItemView::Import(_) => {},
        ItemView::Stmt(StmtView::Const { init, .. }) => {
            lemma_clean_expr(init);
        },
        ItemView::Stmt(StmtView::Expr(e)) => {
            lemma_clean_expr(e);
        },
        ItemView::Stmt(StmtView::Other { parts, .. }) => {
            lemma_clean_exprs(parts);
        },
    }
}

/// After the walk through the items of a module no marker is left, neither
/// in them nor in what was captured.
pub proof fn lemma_clean_items(s: Seq<ItemView>)
    ensures
        marker_free_items(rewritten_items(s)),
        marker_free_elements(captured_items(s)),
    decreases s.len(),
{
    assert forall|i: int| 0 <= i < s.len() implies marker_free_item(
        #[trigger] rewritten_items(s)[i],
    ) by {
        lemma_clean_item(s[i]);
    }
    if s.len() > 0 {
        lemma_clean_items(s.drop_last());
        lemma_clean_item(s.last());
        lemma_marker_free_concat(captured_items(s.drop_last()), captured_item(s.last()));
    }
}

/// The empty table lists nothing.
pub proof fn lemma_empty_listing()
    ensures
        listing(SymbolMap::empty()) == Seq::<RequirementView>::empty(),
{
    let none = Seq::<RequirementView>::empty();
    assert(table_of(none) =~= SymbolMap::empty());
    lemma_listing_of(none);
}

/// The table of a pass that captured something lists the generator first
/// and the wrapper second.
pub proof fn lemma_required_listing()
    ensures
        listing(with_requirements(SymbolMap::empty())) == seq![
            generator_requirement(),
            wrapper_requirement(),
        ],
{
    let s = seq![generator_requirement(), wrapper_requirement()];
    lemma_generator_before_wrapper();
    lemma_generator_is_not_wrapper();
    assert(ascending(s));
    lemma_position(s, 0);
    lemma_position(s, 1);
    let want = with_requirements(SymbolMap::empty());
    assert forall|name: Seq<char>| table_of(s).contains_key(name) <==> want.contains_key(
        name,
    ) by {
        if lists(s, name) {
            let i = position_of(s, name);
            assert(s[i].name == name);
        }
    }
    assert(table_of(s) =~= want);
    lemma_listing_of(s);
}

/// A module without a marker comes out of a pass as it went in: no element
/// is replaced, no statement is generated and no import is inserted.
pub proof fn lemma_no_marker_no_change(m: ModuleView)
    requires
        marker_free_module(m),
    ensures
        transformed(m) == m,
        captured_items(m.body) == Seq::<ElementView>::empty(),
{
    lemma_untouched_items(m.body);
    lemma_no_requirement_no_import(m.body);
}

/// However many markers a module holds, a pass generates one statement, on
/// the first captured element. If at least one marker with an element child
/// is met, the module comes out as two import declarations, then the
/// generated statement, then its own items, rewritten in place.
pub proof fn lemma_single_generated_statement(m: ModuleView)
    requires
        captured_items(m.body).len() >= 1,
    ensures
        transformed(m).body == imports_of(seq![generator_requirement(), wrapper_requirement()])
            + seq![generated_statement(captured_items(m.body)[0])] + rewritten_items(m.body),
        transformed(m).body.len() == m.body.len() + 3,
        !marker_free_module(m),
{
    if marker_free_module(m) {
        lemma_untouched_items(m.body);
    }
    lemma_required_listing();
    let captured = captured_items(m.body);
    assert((Seq::<ElementView>::empty() + captured) =~= captured);
    let imports = imports_of(seq![generator_requirement(), wrapper_requirement()]);
    let statement = seq![generated_statement(captured[0])];
    assert(imports + (statement + rewritten_items(m.body)) =~= imports + statement
        + rewritten_items(m.body));
}

/// If no marker with an element child is met, a pass generates no statement
/// and inserts no import: the module keeps its items, rewritten in place.
pub proof fn lemma_nothing_generated(m: ModuleView)
    requires
        captured_items(m.body).len() == 0,
    ensures
        transformed(m).body == rewritten_items(m.body),
{
    lemma_no_requirement_no_import(rewritten_items(m.body));
}

/// With no symbol required, no import declaration is inserted. So it is
/// when the imports are inserted a second time, the table being empty after
/// the first.
pub proof fn lemma_no_requirement_no_import(body: Seq<ItemView>)
    ensures
        with_imports(body, SymbolMap::empty()) == body,
{
    lemma_empty_listing();
    assert(imports_of(Seq::<RequirementView>::empty()) + body =~= body);
}

/// The import declarations for a table stand in ascending order of logical
/// name and before everything that the module had, whichever entries the
/// table holds: none, one, or more.
pub proof fn lemma_imports_lead_in_order(body: Seq<ItemView>, imports: SymbolMap)
    requires
        imports.dom().finite(),
    ensures
        ({
            let s = listing(imports);
            let out = with_imports(body, imports);
            &&& is_listing(s, imports)
            &&& out.len() == s.len() + body.len()
            &&& forall|i: int| 0 <= i < s.len() ==> #[trigger] out[i] == import_of(s[i])
            &&& forall|i: int, j: int|
                0 <= i < j < s.len() ==> lex_lt(
                    (#[trigger] out[i])->Import_0.imported,
                    (#[trigger] out[j])->Import_0.imported,
                )
            &&& forall|i: int| 0 <= i < body.len() ==> #[trigger] out[s.len() + i] == body[i]
        }),
{
    lemma_listing_exists(imports);
    let s = listing(imports);
    let out = with_imports(body, imports);
    assert forall|i: int, j: int| 0 <= i < j < s.len() implies lex_lt(
        (#[trigger] out[i])->Import_0.imported,
        (#[trigger] out[j])->Import_0.imported,
    ) by {
        assert(out[i] == import_of(s[i]));
        assert(out[j] == import_of(s[j]));
    }
}

/// Whatever a marker held, the element that takes its place is named `img`,
/// is self-closing, and has one attribute, `src={img.src}`, and no child.
pub proof fn lemma_replacement_shape(e: ElementView)
    requires
        is_marker(e),
    ensures
        rewritten_element(e) == image_element(),
        replacement_of(e) == image_element(),
        image_element().name == ElementNameView::Ident(IMAGE_TAG@),
        image_element().self_closing,
        image_element().children.len() == 0,
        image_element().attrs.len() == 1,
        image_element().attrs[0] == (AttrView::Named {
            name: AttrNameView::Ident(SOURCE_ATTR@),
            value: Some(image_source()),
        }),
{
}

/// After a pass no marker is left in the module.
pub proof fn lemma_transformed_marker_free(m: ModuleView)
    ensures
        marker_free_module(transformed(m)),
{
    lemma_clean_items(m.body);
    let captured = captured_items(m.body);
    let st = after_capture(fresh(), captured);
    assert(st.elements =~= captured);
    let imports = imports_of(listing(st.imports));
    let rest = with_function(rewritten_items(m.body), st.elements);
    if captured.len() > 0 {
        let first = captured[0];
        assert(marker_free_element(first));
        let inner = ExprView::Call {
            callee: Box::new(ExprView::Ident(GENERATOR_BINDING@)),
            args: seq![ExprView::Element(Box::new(first))],
        };
        assert(marker_free_expr(inner->args[0]));
        assert(marker_free_exprs(inner->args));
        assert(marker_free_expr(*inner->callee));
        assert(marker_free_expr(inner));
        let callback = ExprView::Callback(Box::new(inner));
        assert(marker_free_expr(callback));
        let init = ExprView::Call {
            callee: Box::new(ExprView::Ident(WRAPPER@)),
            args: seq![callback],
        };
        assert(marker_free_expr(init->args[0]));
        assert(marker_free_exprs(init->args));
        assert(marker_free_expr(*init->callee));
        assert(marker_free_expr(init));
        assert(marker_free_item(generated_statement(first)));
    }
    assert forall|i: int| 0 <= i < rest.len() implies marker_free_item(#[trigger] rest[i]) by {
        if captured.len() > 0 {
            if i > 0 {
                assert(rest[i] == rewritten_items(m.body)[i - 1]);
            }
        }
    }
    let body = transformed(m).body;
    assert forall|i: int| 0 <= i < body.len() implies marker_free_item(#[trigger] body[i]) by {
        if i < imports.len() {
            assert(body[i] == imports[i]);
        } else {
            assert(body[i] == rest[i - imports.len()]);
        }
    }
}

/// A second pass over the outcome of a pass changes nothing and captures
/// nothing.
pub proof fn lemma_second_pass_changes_nothing(m: ModuleView)
    ensures
        transformed(transformed(m)) == transformed(m),
        captured_items(transformed(m).body) == Seq::<ElementView>::empty(),
{
    lemma_transformed_marker_free(m);
    lemma_no_marker_no_change(transformed(m));
}

} // verus!
