//! The syntax tree that the transform works on, and its mathematical model.
//!
//! Every executable type has a model type of the same shape, in which a
//! `String` is a `Seq<char>` and a `Vec` is a `Seq`. The model of a value is
//! its view (`@`); all contracts of the library are stated over models.

use vstd::prelude::*;

verus! {

/// The tag name of a markup element.
#[derive(Debug, PartialEq, Eq)]
pub enum ElementName {
    /// A plain name, as in `<div>`.
    Ident(String),
    /// A dotted path, as in `<Foo.Bar>`, one segment per entry.
    Member(Vec<String>),
    /// A namespaced name, as in `<svg:rect>`.
    Namespaced { namespace: String, name: String },
}

/// An expression.
#[derive(Debug, PartialEq, Eq)]
pub enum Expr {
    /// A reference to a binding, as in `img`.
    Ident(String),
    /// A string literal.
    Str(String),
    /// A property read, as in `img.src`.
    Member { object: Box<Expr>, property: String },
    /// A call, as in `f(a, b)`.
    Call { callee: Box<Expr>, args: Vec<Expr> },
    /// A function without parameters whose body returns the expression:
    /// `() => { return e; }`.
    Callback(Box<Expr>),
    /// A markup element in expression position.
    Element(Box<Element>),
    /// Any other expression. The transform leaves it as it is and only looks
    /// into `parts`, the expressions nested in it, in source order. `id` is
    /// chosen by whoever built the tree, to find the construct again.
    Other { id: u64, parts: Vec<Expr> },
}

/// The name of an attribute.
#[derive(Debug, PartialEq, Eq)]
pub enum AttrName {
    /// A plain name, as in `src`.
    Ident(String),
    /// A namespaced name, as in `xlink:href`.
    Namespaced { namespace: String, name: String },
}

/// An attribute of a markup element.
#[derive(Debug, PartialEq, Eq)]
pub enum Attr {
    /// `name`, or `name={value}`.
    Named { name: AttrName, value: Option<Expr> },
    /// `{...value}`.
    Spread(Expr),
}

/// A child of a markup element.
#[derive(Debug, PartialEq, Eq)]
pub enum Child {
    /// Literal text between tags.
    Text(String),
    /// An embedded expression, as in `{value}`.
    Expr(Expr),
    /// A nested element.
    Element(Element),
}

/// A markup element: a name, attributes in order, children in order.
#[derive(Debug, PartialEq, Eq)]
pub struct Element {
    pub name: ElementName,
    pub attrs: Vec<Attr>,
    pub children: Vec<Child>,
    /// Whether the element is written as `<name ... />`.
    pub self_closing: bool,
}

/// A statement.
#[derive(Debug, PartialEq, Eq)]
pub enum Stmt {
    /// `const name = init;`
    Const { name: String, init: Expr },
    /// An expression statement.
    Expr(Expr),
    /// Any other statement or declaration, treated as `Expr::Other` is.
    Other { id: u64, parts: Vec<Expr> },
}

/// `import { imported as local } from "source";`
#[derive(Debug, PartialEq, Eq)]
pub struct Import {
    pub imported: String,
    pub local: String,
    pub source: String,
}

/// A top-level item of a module.
#[derive(Debug, PartialEq, Eq)]
pub enum Item {
    Import(Import),
    Stmt(Stmt),
}

/// One source file: its top-level items in order.
#[derive(Debug, PartialEq, Eq)]
pub struct Module {
    pub body: Vec<Item>,
}

/// Model of [`ElementName`].
pub enum ElementNameView {
    Ident(Seq<char>),
    Member(Seq<Seq<char>>),
    Namespaced { namespace: Seq<char>, name: Seq<char> },
}

/// Model of [`Expr`].
pub enum ExprView {
    Ident(Seq<char>),
    Str(Seq<char>),
    Member { object: Box<ExprView>, property: Seq<char> },
    Call { callee: Box<ExprView>, args: Seq<ExprView> },
    Callback(Box<ExprView>),
    Element(Box<ElementView>),
    Other { id: u64, parts: Seq<ExprView> },
}

/// Model of [`AttrName`].
pub enum AttrNameView {
    Ident(Seq<char>),
    Namespaced { namespace: Seq<char>, name: Seq<char> },
}

/// Model of [`Attr`].
pub enum AttrView {
    Named { name: AttrNameView, value: Option<ExprView> },
    Spread(ExprView),
}

/// Model of [`Child`].
pub enum ChildView {
    Text(Seq<char>),
    Expr(ExprView),
    Element(ElementView),
}

/// Model of [`Element`].
pub struct ElementView {
    pub name: ElementNameView,
    pub attrs: Seq<AttrView>,
    pub children: Seq<ChildView>,
    pub self_closing: bool,
}

/// Model of [`Stmt`].
pub enum StmtView {
    Const { name: Seq<char>, init: ExprView },
    Expr(ExprView),
    Other { id: u64, parts: Seq<ExprView> },
}

/// Model of [`Import`].
pub struct ImportView {
    pub imported: Seq<char>,
    pub local: Seq<char>,
    pub source: Seq<char>,
}

/// Model of [`Item`].
pub enum ItemView {
    Import(ImportView),
    Stmt(StmtView),
}

/// Model of [`Module`].
pub struct ModuleView {
    pub body: Seq<ItemView>,
}

/// The models of the strings of `v`, in order.
pub open spec fn strings_view(v: Vec<String>) -> Seq<Seq<char>> {
    Seq::new(v@.len(), |i: int| v@[i]@)
}

/// The models of the expressions of `v`, in order.
pub open spec fn exprs_view(v: Vec<Expr>) -> Seq<ExprView>
    decreases v,
{
    Seq::new(
        v@.len(),
        |i: int|
            if 0 <= i < v@.len() {
                expr_view(v@[i])
            } else {
                arbitrary()
            },
    )
}

/// The model of an expression.
pub open spec fn expr_view(e: Expr) -> ExprView
    decreases e,
{
    match e {
        Expr::Ident(name) => ExprView::Ident(name@),
        Expr::Str(value) => ExprView::Str(value@),
        Expr::Member { object, property } => ExprView::Member {
            object: Box::new(expr_view(*object)),
            property: property@,
        },
        Expr::Call { callee, args } => ExprView::Call {
            callee: Box::new(expr_view(*callee)),
            args: exprs_view(args),
        },
        Expr::Callback(result) => ExprView::Callback(Box::new(expr_view(*result))),
        Expr::Element(element) => ExprView::Element(Box::new(element_view(*element))),
        Expr::Other { id, parts } => ExprView::Other { id, parts: exprs_view(parts) },
    }
}

/// The model of an attribute.
pub open spec fn attr_view(a: Attr) -> AttrView
    decreases a,
{
    match a {
        Attr::Named { name, value } => AttrView::Named {
            name: name@,
            value: match value {
                Some(e) => Some(expr_view(e)),
                None => None,
            },
        },
        Attr::Spread(e) => AttrView::Spread(expr_view(e)),
    }
}

/// The models of the attributes of `v`, in order.
pub open spec fn attrs_view(v: Vec<Attr>) -> Seq<AttrView>
    decreases v,
{
    Seq::new(
        v@.len(),
        |i: int|
            if 0 <= i < v@.len() {
                attr_view(v@[i])
            } else {
                arbitrary()
            },
    )
}

/// The model of a child.
pub open spec fn child_view(c: Child) -> ChildView
    decreases c,
{
    match c {
        Child::Text(text) => ChildView::Text(text@),
        Child::Expr(e) => ChildView::Expr(expr_view(e)),
        Child::Element(element) => ChildView::Element(element_view(element)),
    }
}

/// The models of the children of `v`, in order.
pub open spec fn children_view(v: Vec<Child>) -> Seq<ChildView>
    decreases v,
{
    Seq::new(
        v@.len(),
        |i: int|
            if 0 <= i < v@.len() {
                child_view(v@[i])
            } else {
                arbitrary()
            },
    )
}

/// The model of an element.
pub open spec fn element_view(e: Element) -> ElementView
    decreases e,
{
    ElementView {
        name: e.name@,
        attrs: attrs_view(e.attrs),
        children: children_view(e.children),
        self_closing: e.self_closing,
    }
}

/// The models of the elements of `v`, in order.
pub open spec fn elements_view(v: Vec<Element>) -> Seq<ElementView> {
    Seq::new(v@.len(), |i: int| element_view(v@[i]))
}

/// The models of the items of `v`, in order.
pub open spec fn items_view(v: Vec<Item>) -> Seq<ItemView> {
    Seq::new(v@.len(), |i: int| v@[i]@)
}

impl View for ElementName {
    type V = ElementNameView;

    open spec fn view(&self) -> ElementNameView {
        match *self {
            ElementName::Ident(name) => ElementNameView::Ident(name@),
            ElementName::Member(path) => ElementNameView::Member(strings_view(path)),
            ElementName::Namespaced { namespace, name } => ElementNameView::Namespaced {
                namespace: namespace@,
                name: name@,
            },
        }
    }
}

impl View for AttrName {
    type V = AttrNameView;

    open spec fn view(&self) -> AttrNameView {
        match *self {
            AttrName::Ident(name) => AttrNameView::Ident(name@),
            AttrName::Namespaced { namespace, name } => AttrNameView::Namespaced {
                namespace: namespace@,
                name: name@,
            },
        }
    }
}

impl View for Expr {
    type V = ExprView;

    open spec fn view(&self) -> ExprView {
        expr_view(*self)
    }
}

impl View for Attr {
    type V = AttrView;

    open spec fn view(&self) -> AttrView {
        attr_view(*self)
    }
}

impl View for Child {
    type V = ChildView;

    open spec fn view(&self) -> ChildView {
        child_view(*self)
    }
}

impl View for Element {
    type V = ElementView;

    open spec fn view(&self) -> ElementView {
        element_view(*self)
    }
}

impl View for Stmt {
    type V = StmtView;

    open spec fn view(&self) -> StmtView {
        match *self {
            Stmt::Const { name, init } => StmtView::Const { name: name@, init: init@ },
            Stmt::Expr(e) => StmtView::Expr(e@),
            Stmt::Other { id, parts } => StmtView::Other { id, parts: exprs_view(parts) },
        }
    }
}

impl View for Import {
    type V = ImportView;

    open spec fn view(&self) -> ImportView {
        ImportView { imported: self.imported@, local: self.local@, source: self.source@ }
    }
}

impl View for Item {
    type V = ItemView;

    open spec fn view(&self) -> ItemView {
        match *self {
            Item::Import(import) => ItemView::Import(import@),
            Item::Stmt(stmt) => ItemView::Stmt(stmt@),
        }
    }
}

impl View for Module {
    type V = ModuleView;

    open spec fn view(&self) -> ModuleView {
        ModuleView { body: items_view(self.body) }
    }
}

} // verus!
