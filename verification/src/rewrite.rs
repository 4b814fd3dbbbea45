//! What the transform does, stated over models.
//!
//! The tree is walked depth first and an element is looked at after what is
//! inside it. A marker is an element named `OpenGraph`. Looking at a marker
//! captures its first child that is an element, if it has one, and puts the
//! image element in its place; looking at any other element changes nothing.
//! `rewritten_*` give the tree after the walk, `captured_*` the captured
//! elements in the order of the walk.

use crate::names::{
    GENERATOR, GENERATOR_BINDING, GENERATOR_SOURCE, IMAGE_TAG, MARKER, RESULT, SOURCE_ATTR,
    SOURCE_FIELD, WRAPPER, WRAPPER_SOURCE,
};
use crate::symbols::{listing, RequirementView, SymbolMap};
use crate::tree::{
    AttrNameView, AttrView, ChildView, ElementNameView, ElementView, ExprView, ImportView, ItemView,
    ModuleView, StmtView,
};
use vstd::prelude::*;

verus! {

/// Whether `e` is a marker: an element with the plain name `OpenGraph`.
pub open spec fn is_marker(e: ElementView) -> bool {
    e.name == ElementNameView::Ident(MARKER@)
}

/// The expression `img.src`: the address of the generated image.
pub open spec fn image_source() -> ExprView {
    ExprView::Member { object: Box::new(ExprView::Ident(RESULT@)), property: SOURCE_FIELD@ }
}

/// The element `<img src={img.src} />` that takes the place of a marker.
pub open spec fn image_element() -> ElementView {
    ElementView {
        name: ElementNameView::Ident(IMAGE_TAG@),
        attrs: seq![
            AttrView::Named {
                name: AttrNameView::Ident(SOURCE_ATTR@),
                value: Some(image_source()),
            },
        ],
        children: Seq::empty(),
        self_closing: true,
    }
}

/// The first of `children` that is an element, if there is one.
pub open spec fn first_element_child(children: Seq<ChildView>) -> Option<ElementView>
    decreases children.len(),
{
    if children.len() == 0 {
        None
    } else {
        match children[0] {
            ChildView::Element(e) => Some(e),
            _ => first_element_child(children.skip(1)),
        }
    }
}

/// What looking at `e` captures: the first element child of a marker.
pub open spec fn capture_of(e: ElementView) -> Seq<ElementView> {
    if is_marker(e) {
        match first_element_child(e.children) {
            Some(child) => seq![child],
            None => Seq::empty(),
        }
    } else {
        Seq::empty()
    }
}

/// What `e` is after it was looked at: the image element for a marker, `e`
/// itself otherwise.
pub open spec fn replacement_of(e: ElementView) -> ElementView {
    if is_marker(e) {
        image_element()
    } else {
        e
    }
}

/// The expressions of `s` after the walk through each.
pub open spec fn rewritten_exprs(s: Seq<ExprView>) -> Seq<ExprView>
    decreases s,
{
    Seq::new(
        s.len(),
        |i: int|
            if 0 <= i < s.len() {
                rewritten_expr(s[i])
            } else {
                arbitrary()
            },
    )
}

/// `e` after the walk through it: the markers in it are replaced, and
/// nothing else changes.
pub open spec fn rewritten_expr(e: ExprView) -> ExprView
    decreases e,
{
    match e {
        ExprView::Ident(name) => ExprView::Ident(name),
        ExprView::Str(value) => ExprView::Str(value),
        ExprView::Member { object, property } => ExprView::Member {
            object: Box::new(rewritten_expr(*object)),
            property,
        },
        ExprView::Call { callee, args } => ExprView::Call {
            callee: Box::new(rewritten_expr(*callee)),
            args: rewritten_exprs(args),
        },
        ExprView::Callback(result) => ExprView::Callback(Box::new(rewritten_expr(*result))),
        ExprView::Element(element) => ExprView::Element(Box::new(rewritten_element(*element))),
        ExprView::Other { id, parts } => ExprView::Other { id, parts: rewritten_exprs(parts) },
    }
}

/// `a` after the walk through its value.
pub open spec fn rewritten_attr(a: AttrView) -> AttrView
    decreases a,
{
    match a {
        AttrView::Named { name, value } => AttrView::Named {
            name,
            value: match value {
                Some(e) => Some(rewritten_expr(e)),
                None => None,
            },
        },
        AttrView::Spread(e) => AttrView::Spread(rewritten_expr(e)),
    }
}

/// The attributes of `s` after the walk through each.
pub open spec fn rewritten_attrs(s: Seq<AttrView>) -> Seq<AttrView>
    decreases s,
{
    Seq::new(
        s.len(),
        |i: int|
            if 0 <= i < s.len() {
                rewritten_attr(s[i])
            } else {
                arbitrary()
            },
    )
}

/// `c` after the walk through it.
pub open spec fn rewritten_child(c: ChildView) -> ChildView
    decreases c,
{
    match c {
        ChildView::Text(text) => ChildView::Text(text),
        ChildView::Expr(e) => ChildView::Expr(rewritten_expr(e)),
        ChildView::Element(element) => ChildView::Element(rewritten_element(element)),
    }
}

/// The children of `s` after the walk through each.
pub open spec fn rewritten_children(s: Seq<ChildView>) -> Seq<ChildView>
    decreases s,
{
    Seq::new(
        s.len(),
        |i: int|
            if 0 <= i < s.len() {
                rewritten_child(s[i])
            } else {
                arbitrary()
            },
    )
}

/// `e` after the walk through its attributes and children, before `e`
/// itself is looked at.
pub open spec fn rewritten_inside(e: ElementView) -> ElementView
    decreases e, 0nat,
{
    ElementView {
        name: e.name,
        attrs: rewritten_attrs(e.attrs),
        children: rewritten_children(e.children),
        self_closing: e.self_closing,
    }
}

/// `e` after the walk through it: first what is inside it, then `e` itself.
pub open spec fn rewritten_element(e: ElementView) -> ElementView
    decreases e, 1nat,
{
    replacement_of(rewritten_inside(e))
}

/// What the walk through the expressions of `s` captures, in order.
pub open spec fn captured_exprs(s: Seq<ExprView>) -> Seq<ElementView>
    decreases s,
{
    if s.len() == 0 {
        Seq::empty()
    } else {
        captured_exprs(s.drop_last()) + captured_expr(s.last())
    }
}

/// What the walk through `e` captures.
pub open spec fn captured_expr(e: ExprView) -> Seq<ElementView>
    decreases e,
{
    match e {
        ExprView::Ident(_) => Seq::empty(),
        ExprView::Str(_) => Seq::empty(),
        ExprView::Member { object, .. } => captured_expr(*object),
        ExprView::Call { callee, args } => captured_expr(*callee) + captured_exprs(args),
        ExprView::Callback(result) => captured_expr(*result),
        ExprView::Element(element) => captured_element(*element),
        ExprView::Other { parts, .. } => captured_exprs(parts),
    }
}

/// What the walk through the value of `a` captures.
pub open spec fn captured_attr(a: AttrView) -> Seq<ElementView>
    decreases a,
{
    match a {
        AttrView::Named { value: Some(e), .. } => captured_expr(e),
        AttrView::Named { value: None, .. } => Seq::empty(),
        AttrView::Spread(e) => captured_expr(e),
    }
}

/// What the walk through the attributes of `s` captures, in order.
pub open spec fn captured_attrs(s: Seq<AttrView>) -> Seq<ElementView>
    decreases s,
{
    if s.len() == 0 {
        Seq::empty()
    } else {
        captured_attrs(s.drop_last()) + captured_attr(s.last())
    }
}

/// What the walk through `c` captures.
pub open spec fn captured_child(c: ChildView) -> Seq<ElementView>
    decreases c,
{
    match c {
        ChildView::Text(_) => Seq::empty(),
        ChildView::Expr(e) => captured_expr(e),
        ChildView::Element(element) => captured_element(element),
    }
}

/// What the walk through the children of `s` captures, in order.
pub open spec fn captured_children(s: Seq<ChildView>) -> Seq<ElementView>
    decreases s,
{
    if s.len() == 0 {
        Seq::empty()
    } else {
        captured_children(s.drop_last()) + captured_child(s.last())
    }
}

/// What the walk through `e` captures: first inside its attributes, then
/// inside its children, at last at `e` itself, whose children are rewritten
/// by then.
pub open spec fn captured_element(e: ElementView) -> Seq<ElementView>
    decreases e,
{
    captured_attrs(e.attrs) + captured_children(e.children) + capture_of(rewritten_inside(e))
}

/// `s` after the walk through its expressions.
pub open spec fn rewritten_stmt(s: StmtView) -> StmtView {
    match s {
        StmtView::Const { name, init } => StmtView::Const { name, init: rewritten_expr(init) },
        StmtView::Expr(e) => StmtView::Expr(rewritten_expr(e)),
        StmtView::Other { id, parts } => StmtView::Other { id, parts: rewritten_exprs(parts) },
    }
}

/// What the walk through `s` captures.
pub open spec fn captured_stmt(s: StmtView) -> Seq<ElementView> {
    match s {
        StmtView::Const { init, .. } => captured_expr(init),
        StmtView::Expr(e) => captured_expr(e),
        StmtView::Other { parts, .. } => captured_exprs(parts),
    }
}

/// `item` after the walk through it. An import declaration stays as it is.
pub open spec fn rewritten_item(item: ItemView) -> ItemView {
    match item {
        ItemView::Import(import) => ItemView::Import(import),
        ItemView::Stmt(s) => ItemView::Stmt(rewritten_stmt(s)),
    }
}

/// What the walk through `item` captures.
pub open spec fn captured_item(item: ItemView) -> Seq<ElementView> {
    match item {
        ItemView::Import(_) => Seq::empty(),
        ItemView::Stmt(s) => captured_stmt(s),
    }
}

/// The items of `s` after the walk through each.
pub open spec fn rewritten_items(s: Seq<ItemView>) -> Seq<ItemView> {
    Seq::new(s.len(), |i: int| rewritten_item(s[i]))
}

/// What the walk through the items of `s` captures, in order.
pub open spec fn captured_items(s: Seq<ItemView>) -> Seq<ElementView>
    decreases s.len(),
{
    if s.len() == 0 {
        Seq::empty()
    } else {
        captured_items(s.drop_last()) + captured_item(s.last())
    }
}

/// Whether no element in any of `s` is a marker.
pub open spec fn marker_free_exprs(s: Seq<ExprView>) -> bool
    decreases s,
{
    forall|i: int| 0 <= i < s.len() ==> marker_free_expr(#[trigger] s[i])
}

/// Whether no element in `e` is a marker.
pub open spec fn marker_free_expr(e: ExprView) -> bool
    decreases e,
{
    match e {
        ExprView::Ident(_) => true,
        ExprView::Str(_) => true,
        ExprView::Member { object, .. } => marker_free_expr(*object),
        ExprView::Call { callee, args } => marker_free_expr(*callee) && marker_free_exprs(args),
        ExprView::Callback(result) => marker_free_expr(*result),
        ExprView::Element(element) => marker_free_element(*element),
        ExprView::Other { parts, .. } => marker_free_exprs(parts),
    }
}

/// Whether no element in the value of `a` is a marker.
pub open spec fn marker_free_attr(a: AttrView) -> bool
    decreases a,
{
    match a {
        AttrView::Named { value: Some(e), .. } => marker_free_expr(e),
        AttrView::Named { value: None, .. } => true,
        AttrView::Spread(e) => marker_free_expr(e),
    }
}

/// Whether no element in any of `s` is a marker.
pub open spec fn marker_free_attrs(s: Seq<AttrView>) -> bool
    decreases s,
{
    forall|i: int| 0 <= i < s.len() ==> marker_free_attr(#[trigger] s[i])
}

/// Whether `c` neither is nor holds a marker.
pub open spec fn marker_free_child(c: ChildView) -> bool
    decreases c,
{
    match c {
        ChildView::Text(_) => true,
        ChildView::Expr(e) => marker_free_expr(e),
        ChildView::Element(element) => marker_free_element(element),
    }
}

/// Whether none of `s` is or holds a marker.
pub open spec fn marker_free_children(s: Seq<ChildView>) -> bool
    decreases s,
{
    forall|i: int| 0 <= i < s.len() ==> marker_free_child(#[trigger] s[i])
}

/// Whether neither `e` nor any element inside it is a marker.
pub open spec fn marker_free_element(e: ElementView) -> bool
    decreases e,
{
    !is_marker(e) && marker_free_attrs(e.attrs) && marker_free_children(e.children)
}

/// Whether none of `s` is or holds a marker.
pub open spec fn marker_free_elements(s: Seq<ElementView>) -> bool {
    forall|i: int| 0 <= i < s.len() ==> marker_free_element(#[trigger] s[i])
}

/// Whether no element in `s` is a marker.
pub open spec fn marker_free_stmt(s: StmtView) -> bool {
    match s {
        StmtView::Const { init, .. } => marker_free_expr(init),
        StmtView::Expr(e) => marker_free_expr(e),
        StmtView::Other { parts, .. } => marker_free_exprs(parts),
    }
}

/// Whether no element in `item` is a marker.
pub open spec fn marker_free_item(item: ItemView) -> bool {
    match item {
        ItemView::Import(_) => true,
        ItemView::Stmt(s) => marker_free_stmt(s),
    }
}

/// Whether no element in any of `s` is a marker.
pub open spec fn marker_free_items(s: Seq<ItemView>) -> bool {
    forall|i: int| 0 <= i < s.len() ==> marker_free_item(#[trigger] s[i])
}

/// Whether the module holds no marker at any depth.
pub open spec fn marker_free_module(m: ModuleView) -> bool {
    marker_free_items(m.body)
}

/// The requirement for the function that runs a callback on the server.
pub open spec fn wrapper_requirement() -> RequirementView {
    RequirementView { name: WRAPPER@, binding: WRAPPER@, source: WRAPPER_SOURCE@ }
}

/// The requirement for the function that renders an element into an image.
pub open spec fn generator_requirement() -> RequirementView {
    RequirementView { name: GENERATOR@, binding: GENERATOR_BINDING@, source: GENERATOR_SOURCE@ }
}

/// `m` with the two requirements of the generated statement recorded.
pub open spec fn with_requirements(m: SymbolMap) -> SymbolMap {
    m.insert(WRAPPER@, (WRAPPER@, WRAPPER_SOURCE@)).insert(
        GENERATOR@,
        (GENERATOR_BINDING@, GENERATOR_SOURCE@),
    )
}

/// The statement
/// `const img = server$(() => { return createOpenGraphImage$(first); });`.
pub open spec fn generated_statement(first: ElementView) -> ItemView {
    ItemView::Stmt(
        StmtView::Const {
            name: RESULT@,
            init: ExprView::Call {
                callee: Box::new(ExprView::Ident(WRAPPER@)),
                args: seq![
                    ExprView::Callback(
                        Box::new(
                            ExprView::Call {
                                callee: Box::new(ExprView::Ident(GENERATOR_BINDING@)),
                                args: seq![ExprView::Element(Box::new(first))],
                            },
                        ),
                    ),
                ],
            },
        },
    )
}

/// The import declaration that satisfies `r`.
pub open spec fn import_of(r: RequirementView) -> ItemView {
    ItemView::Import(ImportView { imported: r.name, local: r.binding, source: r.source })
}

/// The import declarations that satisfy `s`, in the order of `s`.
pub open spec fn imports_of(s: Seq<RequirementView>) -> Seq<ItemView> {
    Seq::new(s.len(), |i: int| import_of(s[i]))
}

/// Model of the visitor: the captured elements in the order of capture, and
/// the table of required symbols.
pub struct VisitorView {
    pub elements: Seq<ElementView>,
    pub imports: SymbolMap,
}

/// The visitor before a pass.
pub open spec fn fresh() -> VisitorView {
    VisitorView { elements: Seq::empty(), imports: SymbolMap::empty() }
}

/// The visitor after it captured `captured`: the elements are appended, and
/// if there is any, the requirements of the generated statement are
/// recorded.
pub open spec fn after_capture(st: VisitorView, captured: Seq<ElementView>) -> VisitorView {
    VisitorView {
        elements: st.elements + captured,
        imports: if captured.len() > 0 {
            with_requirements(st.imports)
        } else {
            st.imports
        },
    }
}

/// `body` with the generated statement in front, if an element was
/// captured. Only the first captured element is used.
pub open spec fn with_function(body: Seq<ItemView>, elements: Seq<ElementView>) -> Seq<
    ItemView,
> {
    if elements.len() > 0 {
        seq![generated_statement(elements[0])] + body
    } else {
        body
    }
}

/// The table after the generated statement was inserted.
pub open spec fn function_requirements(imports: SymbolMap, elements: Seq<ElementView>)
    -> SymbolMap {
    if elements.len() > 0 {
        with_requirements(imports)
    } else {
        imports
    }
}

/// `body` with the import declarations for `imports` in front, in ascending
/// order of logical name.
pub open spec fn with_imports(body: Seq<ItemView>, imports: SymbolMap) -> Seq<ItemView> {
    imports_of(listing(imports)) + body
}

/// The module after a pass of a fresh visitor.
pub open spec fn transformed(m: ModuleView) -> ModuleView {
    let st = after_capture(fresh(), captured_items(m.body));
    ModuleView {
        body: with_imports(with_function(rewritten_items(m.body), st.elements), st.imports),
    }
}

/// What is captured in a sequence with one more expression: what was
/// captured before, then what the walk through the new one captures.
pub proof fn lemma_captured_exprs_push(s: Seq<ExprView>, e: ExprView)
    ensures
        captured_exprs(s.push(e)) == captured_exprs(s) + captured_expr(e),
{
    assert(s.push(e).drop_last() =~= s);
}

/// What is captured in a sequence with one more attribute.
pub proof fn lemma_captured_attrs_push(s: Seq<AttrView>, a: AttrView)
    ensures
        captured_attrs(s.push(a)) == captured_attrs(s) + captured_attr(a),
{
    assert(s.push(a).drop_last() =~= s);
}

/// What is captured in a sequence with one more child.
pub proof fn lemma_captured_children_push(s: Seq<ChildView>, c: ChildView)
    ensures
        captured_children(s.push(c)) == captured_children(s) + captured_child(c),
{
    assert(s.push(c).drop_last() =~= s);
}

/// What is captured in a sequence with one more item.
pub proof fn lemma_captured_items_push(s: Seq<ItemView>, item: ItemView)
    ensures
        captured_items(s.push(item)) == captured_items(s) + captured_item(item),
{
    assert(s.push(item).drop_last() =~= s);
}

/// Recording the requirements a second time changes nothing.
pub proof fn lemma_requirements_recorded_once(m: SymbolMap)
    ensures
        with_requirements(with_requirements(m)) == with_requirements(m),
{
    assert(with_requirements(with_requirements(m)) =~= with_requirements(m));
}

/// Capturing in two steps is capturing the concatenation.
pub proof fn lemma_after_capture_twice(st: VisitorView, a: Seq<ElementView>, b: Seq<ElementView>)
    ensures
        after_capture(after_capture(st, a), b) == after_capture(st, a + b),
{
    let l = after_capture(after_capture(st, a), b);
    let r = after_capture(st, a + b);
    assert(l.elements =~= r.elements);
    lemma_requirements_recorded_once(st.imports);
}

/// Capturing nothing changes nothing.
pub proof fn lemma_after_capture_nothing(st: VisitorView)
    ensures
        after_capture(st, Seq::empty()) == st,
{
    assert(after_capture(st, Seq::empty()).elements =~= st.elements);
}

} // verus!
