//! Deep copies of tree values: a copy has the model of the value it was made
//! from.

use crate::tree::{
    attrs_view, children_view, exprs_view, items_view, strings_view, Attr, AttrName, Child, Element,
    ElementName, Expr, Import, Item, Module, Stmt,
};
use vstd::prelude::*;

verus! {

fn clone_strings(v: &Vec<String>) -> (r: Vec<String>)
    ensures
        strings_view(r) == strings_view(*v),
{
    let mut out: Vec<String> = Vec::new();
    let mut i: usize = 0;
    while i < v.len()
        invariant
            i <= v.len(),
            out@.len() == i,
            forall|j: int| 0 <= j < i ==> out@[j]@ == v@[j]@,
        decreases v.len() - i,
    {
        out.push(v[i].clone());
        i = i + 1;
    }
    assert(strings_view(out) =~= strings_view(*v));
    out
}

fn clone_exprs(v: &Vec<Expr>) -> (r: Vec<Expr>)
    ensures
        exprs_view(r) == exprs_view(*v),
    decreases v,
{
    let mut out: Vec<Expr> = Vec::new();
    let mut i: usize = 0;
    while i < v.len()
        invariant
            i <= v.len(),
            out@.len() == i,
            forall|j: int| 0 <= j < i ==> out@[j]@ == v@[j]@,
        decreases v.len() - i,
    {
        out.push(clone_expr(&v[i]));
        i = i + 1;
    }
    assert(exprs_view(out) =~= exprs_view(*v));
    out
}

fn clone_expr(e: &Expr) -> (r: Expr)
    ensures
        r@ == e@,
    decreases e,
{
    match e {
        Expr::Ident(name) => Expr::Ident(name.clone()),
        Expr::Str(value) => Expr::Str(value.clone()),
        Expr::Member { object, property } => Expr::Member {
            object: Box::new(clone_expr(object)),
            property: property.clone(),
        },
        Expr::Call { callee, args } => Expr::Call {
            callee: Box::new(clone_expr(callee)),
            args: clone_exprs(args),
        },
        Expr::Callback(result) => Expr::Callback(Box::new(clone_expr(result))),
        Expr::Element(element) => Expr::Element(Box::new(clone_element(element))),
        Expr::Other { id, parts } => Expr::Other { id: *id, parts: clone_exprs(parts) },
    }
}

fn clone_attrs(v: &Vec<Attr>) -> (r: Vec<Attr>)
    ensures
        attrs_view(r) == attrs_view(*v),
    decreases v,
{
    let mut out: Vec<Attr> = Vec::new();
    let mut i: usize = 0;
    while i < v.len()
        invariant
            i <= v.len(),
            out@.len() == i,
            forall|j: int| 0 <= j < i ==> out@[j]@ == v@[j]@,
        decreases v.len() - i,
    {
        let copy = match &v[i] {
            Attr::Named { name, value } => Attr::Named {
                name: name.clone(),
                value: match value {
                    Some(e) => Some(clone_expr(e)),
                    None => None,
                },
            },
            Attr::Spread(e) => Attr::Spread(clone_expr(e)),
        };
        out.push(copy);
        i = i + 1;
    }
    assert(attrs_view(out) =~= attrs_view(*v));
    out
}

fn clone_children(v: &Vec<Child>) -> (r: Vec<Child>)
    ensures
        children_view(r) == children_view(*v),
    decreases v,
{
    let mut out: Vec<Child> = Vec::new();
    let mut i: usize = 0;
    while i < v.len()
        invariant
            i <= v.len(),
            out@.len() == i,
            forall|j: int| 0 <= j < i ==> out@[j]@ == v@[j]@,
        decreases v.len() - i,
    {
        let copy = match &v[i] {
            Child::Text(text) => Child::Text(text.clone()),
            Child::Expr(e) => Child::Expr(clone_expr(e)),
            Child::Element(element) => Child::Element(clone_element(element)),
        };
        out.push(copy);
        i = i + 1;
    }
    assert(children_view(out) =~= children_view(*v));
    out
}

fn clone_element(e: &Element) -> (r: Element)
    ensures
        r@ == e@,
    decreases e,
{
    Element {
        name: e.name.clone(),
        attrs: clone_attrs(&e.attrs),
        children: clone_children(&e.children),
        self_closing: e.self_closing,
    }
}

impl Clone for ElementName {
    fn clone(&self) -> (r: Self)
        ensures
            r@ == self@,
    {
        match self {
            ElementName::Ident(name) => ElementName::Ident(name.clone()),
            ElementName::Member(path) => ElementName::Member(clone_strings(path)),
            ElementName::Namespaced { namespace, name } => ElementName::Namespaced {
                namespace: namespace.clone(),
                name: name.clone(),
            },
        }
    }
}

impl Clone for AttrName {
    fn clone(&self) -> (r: Self)
        ensures
            r@ == self@,
    {
        match self {
            AttrName::Ident(name) => AttrName::Ident(name.clone()),
            AttrName::Namespaced { namespace, name } => AttrName::Namespaced {
                namespace: namespace.clone(),
                name: name.clone(),
            },
        }
    }
}

impl Clone for Expr {
    fn clone(&self) -> (r: Self)
        ensures
            r@ == self@,
    {
        clone_expr(self)
    }
}

impl Clone for Attr {
    fn clone(&self) -> (r: Self)
        ensures
            r@ == self@,
    {
        match self {
            Attr::Named { name, value } => Attr::Named {
                name: name.clone(),
                value: match value {
                    Some(e) => Some(clone_expr(e)),
                    None => None,
                },
            },
            Attr::Spread(e) => Attr::Spread(clone_expr(e)),
        }
    }
}

impl Clone for Child {
    fn clone(&self) -> (r: Self)
        ensures
            r@ == self@,
    {
        match self {
            Child::Text(text) => Child::Text(text.clone()),
            Child::Expr(e) => Child::Expr(clone_expr(e)),
            Child::Element(element) => Child::Element(clone_element(element)),
        }
    }
}

impl Clone for Element {
    fn clone(&self) -> (r: Self)
        ensures
            r@ == self@,
    {
        clone_element(self)
    }
}

impl Clone for Stmt {
    fn clone(&self) -> (r: Self)
        ensures
            r@ == self@,
    {
        match self {
            Stmt::Const { name, init } => Stmt::Const {
                name: name.clone(),
                init: clone_expr(init),
            },
            Stmt::Expr(e) => Stmt::Expr(clone_expr(e)),
            Stmt::Other { id, parts } => Stmt::Other { id: *id, parts: clone_exprs(parts) },
        }
    }
}

impl Clone for Import {
    fn clone(&self) -> (r: Self)
        ensures
            r@ == self@,
    {
        Import {
            imported: self.imported.clone(),
            local: self.local.clone(),
            source: self.source.clone(),
        }
    }
}

impl Clone for Item {
    fn clone(&self) -> (r: Self)
        ensures
            r@ == self@,
    {
        match self {
            Item::Import(import) => Item::Import(import.clone()),
            Item::Stmt(stmt) => Item::Stmt(stmt.clone()),
        }
    }
}

impl Clone for Module {
    fn clone(&self) -> (r: Self)
        ensures
            r@ == self@,
    {
        let mut body: Vec<Item> = Vec::new();
        let mut i: usize = 0;
        while i < self.body.len()
            invariant
                i <= self.body.len(),
                body@.len() == i,
                forall|j: int| 0 <= j < i ==> body@[j]@ == self.body@[j]@,
            decreases self.body.len() - i,
        {
            body.push(self.body[i].clone());
            i = i + 1;
        }
        assert(items_view(body) =~= items_view(self.body));
        Module { body }
    }
}

} // verus!
