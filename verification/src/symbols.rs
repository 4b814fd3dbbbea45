//! The table of symbols that generated code needs from other modules.
//!
//! A table maps a logical name (the name under which a module exports the
//! symbol) to the local binding and the module path. Its listing is the
//! sequence of its entries in ascending order of logical name; the order in
//! which entries were recorded leaves no trace.

use crate::text::{
    lemma_lex_lt_irreflexive, lemma_lex_lt_total, lemma_lex_lt_transitive, lex_lt, order_of, Order,
};
use vstd::prelude::*;

verus! {

/// One required symbol: `binding` stands for the export `name` of the module
/// at `source`.
#[derive(Debug, PartialEq, Eq)]
pub struct Requirement {
    pub name: String,
    pub binding: String,
    pub source: String,
}

/// Model of [`Requirement`].
pub struct RequirementView {
    pub name: Seq<char>,
    pub binding: Seq<char>,
    pub source: Seq<char>,
}

impl View for Requirement {
    type V = RequirementView;

    open spec fn view(&self) -> RequirementView {
        RequirementView { name: self.name@, binding: self.binding@, source: self.source@ }
    }
}

impl Clone for Requirement {
    fn clone(&self) -> (r: Self)
        ensures
            r@ == self@,
    {
        Requirement {
            name: self.name.clone(),
            binding: self.binding.clone(),
            source: self.source.clone(),
        }
    }
}

/// The models of the requirements of `v`, in order.
pub open spec fn requirements_view(v: Vec<Requirement>) -> Seq<RequirementView> {
    Seq::new(v@.len(), |i: int| v@[i]@)
}

/// Model of a table: logical name to (binding, source).
pub type SymbolMap = Map<Seq<char>, (Seq<char>, Seq<char>)>;

/// Whether the names of `s` strictly ascend. No name then occurs twice.
pub open spec fn ascending(s: Seq<RequirementView>) -> bool {
    forall|i: int, j: int|
        #![trigger s[i], s[j]]
        0 <= i < j < s.len() ==> lex_lt(s[i].name, s[j].name)
}

/// Whether `s` has an entry for `name`.
pub open spec fn lists(s: Seq<RequirementView>, name: Seq<char>) -> bool {
    exists|i: int| 0 <= i < s.len() && #[trigger] s[i].name == name
}

/// A position at which `s` has an entry for `name`.
pub open spec fn position_of(s: Seq<RequirementView>, name: Seq<char>) -> int {
    choose|i: int| 0 <= i < s.len() && #[trigger] s[i].name == name
}

/// The table that holds the entries of `s`.
pub open spec fn table_of(s: Seq<RequirementView>) -> SymbolMap {
    Map::new(
        |name: Seq<char>| lists(s, name),
        |name: Seq<char>|
            {
                let r = s[position_of(s, name)];
                (r.binding, r.source)
            },
    )
}

/// Whether `s` lists the entries of `m`, each once, in ascending order of
/// name.
pub open spec fn is_listing(s: Seq<RequirementView>, m: SymbolMap) -> bool {
    ascending(s) && table_of(s) == m
}

/// The entries of `m` in ascending order of name.
pub open spec fn listing(m: SymbolMap) -> Seq<RequirementView> {
    choose|s: Seq<RequirementView>| is_listing(s, m)
}

/// In an ascending sequence a name is found at one position only.
pub proof fn lemma_position(s: Seq<RequirementView>, i: int)
    requires
        ascending(s),
        0 <= i < s.len(),
    ensures
        lists(s, s[i].name),
        position_of(s, s[i].name) == i,
        table_of(s).contains_key(s[i].name),
        table_of(s)[s[i].name] == (s[i].binding, s[i].source),
{
    let p = position_of(s, s[i].name);
    lemma_lex_lt_irreflexive(s[i].name);
    if p < i {
        assert(lex_lt(s[p].name, s[i].name));
    } else if i < p {
        assert(lex_lt(s[i].name, s[p].name));
    }
}

/// Replacing the entry for a name changes the table as an insertion does.
pub proof fn lemma_table_update(s: Seq<RequirementView>, p: int, r: RequirementView)
    requires
        ascending(s),
        0 <= p < s.len(),
        s[p].name == r.name,
    ensures
        ascending(s.update(p, r)),
        table_of(s.update(p, r)) == table_of(s).insert(r.name, (r.binding, r.source)),
{
    let t = s.update(p, r);
    assert forall|i: int, j: int| #![trigger t[i], t[j]] 0 <= i < j < t.len() implies lex_lt(
        t[i].name,
        t[j].name,
    ) by {
        assert(lex_lt(s[i].name, s[j].name));
    }
    let want = table_of(s).insert(r.name, (r.binding, r.source));
    assert forall|name: Seq<char>| table_of(t).contains_key(name) <==> want.contains_key(
        name,
    ) by {
        if lists(t, name) {
            let i = position_of(t, name);
            assert(s[i].name == name);
        }
        if lists(s, name) {
            let i = position_of(s, name);
            assert(t[i].name == name);
        }
        if name == r.name {
            assert(t[p].name == name);
        }
    }
    assert forall|name: Seq<char>| table_of(t).contains_key(name) implies table_of(t)[name]
        == want[name] by {
        let i = position_of(t, name);
        lemma_position(t, i);
        if i != p {
            assert(s[i].name == name);
            lemma_position(s, i);
            lemma_position(s, p);
        }
    }
    assert(table_of(t) =~= want);
}

/// Putting an entry where its name belongs changes the table as an insertion
/// does.
pub proof fn lemma_table_insert(s: Seq<RequirementView>, p: int, r: RequirementView)
    requires
        ascending(s),
        0 <= p <= s.len(),
        forall|j: int| 0 <= j < p ==> lex_lt(#[trigger] s[j].name, r.name),
        p < s.len() ==> lex_lt(r.name, s[p].name),
    ensures
        ascending(s.insert(p, r)),
        table_of(s.insert(p, r)) == table_of(s).insert(r.name, (r.binding, r.source)),
{
    let t = s.insert(p, r);
    assert forall|j: int| p <= j < s.len() implies lex_lt(r.name, #[trigger] s[j].name) by {
        if p < j {
            assert(lex_lt(s[p].name, s[j].name));
            lemma_lex_lt_transitive(r.name, s[p].name, s[j].name);
        }
    }
    assert forall|i: int, j: int| #![trigger t[i], t[j]] 0 <= i < j < t.len() implies lex_lt(
        t[i].name,
        t[j].name,
    ) by {
        if j < p {
            assert(lex_lt(s[i].name, s[j].name));
        } else if j == p {
            assert(lex_lt(s[i].name, r.name));
        } else if i < p {
            assert(lex_lt(s[i].name, r.name));
            assert(lex_lt(r.name, s[j - 1].name));
            lemma_lex_lt_transitive(s[i].name, r.name, s[j - 1].name);
        } else if i == p {
            assert(lex_lt(r.name, s[j - 1].name));
        } else {
            assert(lex_lt(s[i - 1].name, s[j - 1].name));
        }
    }
    let want = table_of(s).insert(r.name, (r.binding, r.source));
    assert forall|name: Seq<char>| table_of(t).contains_key(name) <==> want.contains_key(
        name,
    ) by {
        if lists(t, name) {
            let i = position_of(t, name);
            if i < p {
                assert(s[i].name == name);
            } else if i > p {
                assert(s[i - 1].name == name);
            }
        }
        if lists(s, name) {
            let i = position_of(s, name);
            if i < p {
                assert(t[i].name == name);
            } else {
                assert(t[i + 1].name == name);
            }
        }
        if name == r.name {
            assert(t[p].name == name);
        }
    }
    assert forall|name: Seq<char>| table_of(t).contains_key(name) implies table_of(t)[name]
        == want[name] by {
        let i = position_of(t, name);
        lemma_position(t, i);
        if i < p {
            assert(s[i].name == name);
            lemma_position(s, i);
            lemma_lex_lt_irreflexive(r.name);
        } else if i > p {
            assert(s[i - 1].name == name);
            lemma_position(s, i - 1);
            lemma_lex_lt_irreflexive(r.name);
        }
    }
    assert(table_of(t) =~= want);
}

/// A table has one listing only: two ascending sequences that hold the same
/// entries are the same sequence.
pub proof fn lemma_listing_unique(a: Seq<RequirementView>, b: Seq<RequirementView>)
    requires
        ascending(a),
        ascending(b),
        table_of(a) == table_of(b),
    ensures
        a == b,
    decreases a.len(),
{
    if a.len() == 0 {
        if b.len() > 0 {
            lemma_position(b, 0);
            assert(lists(a, b[0].name));
        }
        assert(a =~= b);
    } else {
        lemma_position(a, 0);
        assert(lists(b, a[0].name));
        let j = position_of(b, a[0].name);
        lemma_position(b, 0);
        assert(lists(a, b[0].name));
        let i = position_of(a, b[0].name);
        if j > 0 {
            assert(lex_lt(b[0].name, b[j].name));
            if i > 0 {
                assert(lex_lt(a[0].name, a[i].name));
                lemma_lex_lt_transitive(a[0].name, b[0].name, a[0].name);
            }
            lemma_lex_lt_irreflexive(a[0].name);
        }
        lemma_position(b, j);
        assert(a[0] == b[0]);
        let a1 = a.skip(1);
        let b1 = b.skip(1);
        lemma_table_skip(a);
        lemma_table_skip(b);
        lemma_listing_unique(a1, b1);
        assert(a =~= b) by {
            assert forall|k: int| 0 <= k < a.len() implies a[k] == b[k] by {
                if k > 0 {
                    assert(a1[k - 1] == b1[k - 1]);
                }
            }
            assert(a1.len() == b1.len());
        }
    }
}

/// Without its first entry, an ascending sequence holds the table without
/// the first name.
pub proof fn lemma_table_skip(s: Seq<RequirementView>)
    requires
        ascending(s),
        s.len() > 0,
    ensures
        ascending(s.skip(1)),
        table_of(s.skip(1)) == table_of(s).remove(s[0].name),
{
    let t = s.skip(1);
    assert forall|i: int, j: int| #![trigger t[i], t[j]] 0 <= i < j < t.len() implies lex_lt(
        t[i].name,
        t[j].name,
    ) by {
        assert(lex_lt(s[i + 1].name, s[j + 1].name));
    }
    let want = table_of(s).remove(s[0].name);
    lemma_lex_lt_irreflexive(s[0].name);
    assert forall|name: Seq<char>| table_of(t).contains_key(name) <==> want.contains_key(
        name,
    ) by {
        if lists(t, name) {
            let i = position_of(t, name);
            assert(s[i + 1].name == name);
            assert(lex_lt(s[0].name, s[i + 1].name));
        }
        if lists(s, name) && name != s[0].name {
            let i = position_of(s, name);
            assert(t[i - 1].name == name);
        }
    }
    assert forall|name: Seq<char>| table_of(t).contains_key(name) implies table_of(t)[name]
        == want[name] by {
        let i = position_of(t, name);
        lemma_position(t, i);
        assert(s[i + 1].name == name);
        lemma_position(s, i + 1);
    }
    assert(table_of(t) =~= want);
}

/// An ascending sequence is the listing of the table that it holds.
pub proof fn lemma_listing_of(s: Seq<RequirementView>)
    requires
        ascending(s),
    ensures
        listing(table_of(s)) == s,
{
    assert(is_listing(s, table_of(s)));
    lemma_listing_unique(listing(table_of(s)), s);
}

/// An ascending sequence holds as many entries as its table has names.
pub proof fn lemma_table_len(s: Seq<RequirementView>)
    requires
        ascending(s),
    ensures
        table_of(s).dom().finite(),
        table_of(s).dom().len() == s.len(),
    decreases s.len(),
{
    if s.len() == 0 {
        assert(table_of(s).dom() =~= Set::<Seq<char>>::empty());
    } else {
        lemma_table_skip(s);
        lemma_table_len(s.skip(1));
        lemma_position(s, 0);
        assert(table_of(s).dom() =~= table_of(s.skip(1)).dom().insert(s[0].name));
    }
}

/// Whether `least` is in `names` and comes before every other of them.
pub open spec fn is_least(names: Set<Seq<char>>, least: Seq<char>) -> bool {
    &&& names.contains(least)
    &&& forall|name: Seq<char>| #[trigger] names.contains(name) && name != least ==> lex_lt(
        least,
        name,
    )
}

/// Among finitely many names, one comes first.
proof fn lemma_least_name(names: Set<Seq<char>>)
    requires
        names.finite(),
        names.len() > 0,
    ensures
        exists|least: Seq<char>| is_least(names, least),
    decreases names.len(),
{
    let x = names.choose();
    let rest = names.remove(x);
    if rest.len() == 0 {
        assert forall|name: Seq<char>| #[trigger] names.contains(name) implies name == x by {
            if name != x {
                assert(rest.contains(name));
            }
        }
        assert(is_least(names, x));
    } else {
        lemma_least_name(rest);
        let y = choose|least: Seq<char>| is_least(rest, least);
        lemma_lex_lt_total(x, y);
        if lex_lt(x, y) {
            assert forall|name: Seq<char>| #[trigger]
                names.contains(name) && name != x implies lex_lt(x, name) by {
                assert(rest.contains(name));
                if name != y {
                    lemma_lex_lt_transitive(x, y, name);
                }
            }
            assert(is_least(names, x));
        } else {
            assert forall|name: Seq<char>| #[trigger]
                names.contains(name) && name != y implies lex_lt(y, name) by {
                if name != x {
                    assert(rest.contains(name));
                }
            }
            assert(is_least(names, y));
        }
    }
}

/// Every table with finitely many entries has a listing, so `listing`
/// gives it: the entries of the table, each once, in ascending order of
/// name.
pub proof fn lemma_listing_exists(m: SymbolMap)
    requires
        m.dom().finite(),
    ensures
        is_listing(listing(m), m),
    decreases m.dom().len(),
{
    if m.dom().len() == 0 {
        let none = Seq::<RequirementView>::empty();
        assert(table_of(none) =~= m) by {
            assert forall|name: Seq<char>| !m.dom().contains(name) by {
                if m.dom().contains(name) {
                    assert(m.dom().len() > 0);
                }
            }
        }
        assert(is_listing(none, m));
    } else {
        lemma_least_name(m.dom());
        let least = choose|least: Seq<char>| is_least(m.dom(), least);
        let rest = m.remove(least);
        lemma_listing_exists(rest);
        let tail = listing(rest);
        let head = RequirementView { name: least, binding: m[least].0, source: m[least].1 };
        if tail.len() > 0 {
            lemma_position(tail, 0);
            assert(rest.contains_key(tail[0].name));
        }
        lemma_table_insert(tail, 0, head);
        let all = tail.insert(0, head);
        assert(table_of(all) =~= m);
        assert(is_listing(all, m));
    }
}

/// The table of required symbols.
#[derive(Debug)]
pub struct SymbolTable {
    entries: Vec<Requirement>,
}

impl View for SymbolTable {
    type V = SymbolMap;

    closed spec fn view(&self) -> SymbolMap {
        table_of(requirements_view(self.entries))
    }
}

impl SymbolTable {
    #[verifier::type_invariant]
    spec fn ordered(self) -> bool {
        ascending(requirements_view(self.entries))
    }

    /// An empty table.
    pub fn new() -> (table: SymbolTable)
        ensures
            table@ == SymbolMap::empty(),
    {
        let table = SymbolTable { entries: Vec::new() };
        assert(table@ =~= SymbolMap::empty());
        table
    }

    /// The number of entries: of names that the table has an entry for.
    pub fn len(&self) -> (n: usize)
        ensures
            self@.dom().finite(),
            n == self@.dom().len(),
            n == listing(self@).len(),
    {
        proof {
            use_type_invariant(self);
            lemma_listing_of(requirements_view(self.entries));
            lemma_table_len(requirements_view(self.entries));
        }
        self.entries.len()
    }

    /// Whether the table has no entry.
    pub fn is_empty(&self) -> (empty: bool)
        ensures
            empty == (self@ == SymbolMap::empty()),
    {
        proof {
            use_type_invariant(self);
            let s = requirements_view(self.entries);
            if s.len() > 0 {
                lemma_position(s, 0);
            } else {
                assert(self@ =~= SymbolMap::empty());
            }
        }
        self.entries.len() == 0
    }

    /// The entry for `name`, if there is one.
    pub fn get(&self, name: &str) -> (found: Option<&Requirement>)
        ensures
            match found {
                Some(r) => self@.contains_key(name@) && r.name@ == name@ && self@[name@] == (
                    r.binding@,
                    r.source@,
                ),
                None => !self@.contains_key(name@),
            },
    {
        proof {
            use_type_invariant(self);
        }
        let ghost s = requirements_view(self.entries);
        let mut i: usize = 0;
        while i < self.entries.len()
            invariant
                i <= self.entries.len(),
                s == requirements_view(self.entries),
                ascending(s),
                forall|j: int| 0 <= j < i ==> (#[trigger] s[j]).name != name@,
            decreases self.entries.len() - i,
        {
            match order_of(self.entries[i].name.as_str(), name) {
                Order::Same => {
                    proof {
                        lemma_position(s, i as int);
                    }
                    return Some(&self.entries[i]);
                },
                _ => {},
            }
            i = i + 1;
        }
        None
    }

    /// Records that `binding` stands for the export `name` of `source`. An
    /// entry that the table already has for `name` is replaced.
    pub fn insert(&mut self, name: String, binding: String, source: String)
        ensures
            final(self)@ == old(self)@.insert(name@, (binding@, source@)),
    {
        let mut entries = self.take_entries();
        let ghost s = requirements_view(entries);
        let ghost r = RequirementView { name: name@, binding: binding@, source: source@ };
        let mut i: usize = 0;
        while i < entries.len()
            invariant
                i <= entries.len(),
                s == requirements_view(entries),
                ascending(s),
                r == (RequirementView { name: name@, binding: binding@, source: source@ }),
                table_of(s) == old(self)@,
                forall|j: int| 0 <= j < i ==> lex_lt(#[trigger] s[j].name, name@),
            ensures
                i <= entries.len(),
                i < entries.len() ==> lex_lt(name@, s[i as int].name),
            decreases entries.len() - i,
        {
            match order_of(entries[i].name.as_str(), name.as_str()) {
                Order::Before => {
                    i = i + 1;
                },
                Order::Same => {
                    proof {
                        lemma_table_update(s, i as int, r);
                    }
                    entries.set(i, Requirement { name, binding, source });
                    assert(requirements_view(entries) =~= s.update(i as int, r));
                    self.entries = entries;
                    return ;
                },
                Order::After => {
                    break ;
                },
            }
        }
        proof {
            lemma_table_insert(s, i as int, r);
        }
        entries.insert(i, Requirement { name, binding, source });
        assert(requirements_view(entries) =~= s.insert(i as int, r));
        self.entries = entries;
    }

    /// Leaves the table empty and returns what it held, in ascending order.
    fn take_entries(&mut self) -> (entries: Vec<Requirement>)
        ensures
            ascending(requirements_view(entries)),
            table_of(requirements_view(entries)) == old(self)@,
            final(self)@ == SymbolMap::empty(),
    {
        proof {
            use_type_invariant(&*self);
        }
        let mut entries: Vec<Requirement> = Vec::new();
        std::mem::swap(&mut self.entries, &mut entries);
        assert(self@ =~= SymbolMap::empty());
        entries
    }

    /// Empties the table and hands out its entries in ascending order of
    /// name.
    pub fn drain(&mut self) -> (entries: Vec<Requirement>)
        ensures
            requirements_view(entries) == listing(old(self)@),
            ascending(requirements_view(entries)),
            final(self)@ == SymbolMap::empty(),
    {
        let entries = self.take_entries();
        proof {
            lemma_listing_of(requirements_view(entries));
        }
        entries
    }
}

} // verus!
