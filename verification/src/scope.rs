//! Lexical scopes: name to variable-index maps with declaration shadowing
//! and cross-branch assignment tracking.
//!
//! A scope holds two insertion-ordered maps, `locals` for names declared in
//! the scope itself and `assign` for names assigned here but declared in an
//! ancestor, plus a parent link.  Iteration order over the maps is the
//! insertion order, so everything built from a scope walk is deterministic.

use vstd::prelude::*;

verus! {

/// The mathematical reading of one scope: the two maps as ordered key/value
/// lists and the parent chain.
pub struct ScopeView {
    pub locals: Seq<(Seq<char>, usize)>,
    pub assign: Seq<(Seq<char>, usize)>,
    pub parent: Option<Box<ScopeView>>,
}

/// First binding of `name` in an ordered key/value list.
pub open spec fn find_entry(entries: Seq<(Seq<char>, usize)>, name: Seq<char>) -> Option<usize>
    decreases entries.len(),
{
    if entries.len() == 0 {
        None
    } else if entries[0].0 == name {
        Some(entries[0].1)
    } else {
        find_entry(entries.drop_first(), name)
    }
}

/// Whether `name` is bound in an ordered key/value list.
pub open spec fn has_key(entries: Seq<(Seq<char>, usize)>, name: Seq<char>) -> bool {
    find_entry(entries, name) is Some
}

/// Index of the first binding of `name`.
pub open spec fn key_index(entries: Seq<(Seq<char>, usize)>, name: Seq<char>) -> int
    recommends
        has_key(entries, name),
    decreases entries.len(),
{
    if entries.len() == 0 {
        0
    } else if entries[0].0 == name {
        0
    } else {
        1 + key_index(entries.drop_first(), name)
    }
}

/// Rebind `name` in place when present, append the binding otherwise.
pub open spec fn spec_upsert(
    entries: Seq<(Seq<char>, usize)>,
    name: Seq<char>,
    value: usize,
) -> Seq<(Seq<char>, usize)> {
    if has_key(entries, name) {
        entries.update(key_index(entries, name), (name, value))
    } else {
        entries.push((name, value))
    }
}

/// Name lookup over a scope view: `locals` first, then `assign`, then the
/// ancestors.
pub open spec fn sv_get(v: ScopeView, name: Seq<char>) -> Option<usize>
    decreases v,
{
    match find_entry(v.locals, name) {
        Some(value) => Some(value),
        None => match find_entry(v.assign, name) {
            Some(value) => Some(value),
            None => match v.parent {
                Some(p) => sv_get(*p, name),
                None => None,
            },
        },
    }
}

/// A lexical scope: names declared here, outer names assigned here, and the
/// enclosing scope.
pub struct Scope {
    pub locals: Vec<(String, usize)>,
    pub assign: Vec<(String, usize)>,
    pub parent: Option<Box<Scope>>,
}

/// The ordered key/value reading of one of the two maps.
pub open spec fn entries_view(entries: Seq<(String, usize)>) -> Seq<(Seq<char>, usize)> {
    entries.map(|i: int, e: (String, usize)| (e.0@, e.1))
}

impl View for Scope {
    type V = ScopeView;

    open spec fn view(&self) -> ScopeView
        decreases self,
    {
        ScopeView {
            locals: entries_view(self.locals@),
            assign: entries_view(self.assign@),
            parent: match self.parent {
                Some(p) => Some(Box::new((*p)@)),
                None => None,
            },
        }
    }
}

/// One step of a front-to-back scan: if the binding at `i` matches, the
/// whole list finds it; if not, the scan may move past it.
proof fn lemma_find_entry_step(v: Seq<(Seq<char>, usize)>, name: Seq<char>, i: int)
    requires
        0 <= i < v.len(),
        find_entry(v.skip(i), name) == find_entry(v, name),
    ensures
        v[i].0 == name ==> find_entry(v, name) == Some(v[i].1),
        v[i].0 != name ==> find_entry(v.skip(i + 1), name) == find_entry(v, name),
{
    assert(v.skip(i)[0] == v[i]);
    assert(v.skip(i).drop_first() =~= v.skip(i + 1));
}

/// Scan an ordered key/value list for the first binding of `name`.
pub(crate) fn find_in(entries: &Vec<(String, usize)>, name: &str) -> (r: Option<usize>)
    ensures
        r == find_entry(entries_view(entries@), name@),
{
    let needle: String = name.to_owned();
    let ghost v = entries_view(entries@);
    proof {
        assert(v.skip(0) =~= v);
    }
    let n: usize = entries.len();
    let mut i: usize = 0;
    while i < n
        invariant
            n == entries@.len(),
            i <= n,
            needle@ == name@,
            v == entries_view(entries@),
            find_entry(v.skip(i as int), name@) == find_entry(v, name@),
        decreases n - i,
    {
        proof {
            assert(v[i as int] == (entries@[i as int].0@, entries@[i as int].1));
            lemma_find_entry_step(v, name@, i as int);
        }
        if entries[i].0 == needle {
            return Some(entries[i].1);
        }
        i = i + 1;
    }
    proof {
        assert(v.skip(n as int) =~= Seq::<(Seq<char>, usize)>::empty());
    }
    None
}

/// Rebind `name` in place when present, append the binding otherwise.
fn upsert(entries: &mut Vec<(String, usize)>, name: String, value: usize)
    ensures
        entries_view(final(entries)@) == spec_upsert(entries_view(old(entries)@), name@, value),
{
    let ghost v = entries_view(old(entries)@);
    proof {
        assert(v.skip(0) =~= v);
    }
    let n: usize = entries.len();
    let mut i: usize = 0;
    while i < n
        invariant
            n == entries@.len(),
            i <= n,
            entries@ == old(entries)@,
            v == entries_view(entries@),
            find_entry(v.skip(i as int), name@) == find_entry(v, name@),
            forall|j: int| 0 <= j < i ==> v[j].0 != name@,
        decreases n - i,
    {
        proof {
            assert(v[i as int] == (entries@[i as int].0@, entries@[i as int].1));
            lemma_find_entry_step(v, name@, i as int);
        }
        if entries[i].0 == name {
            proof {
                lemma_key_index_of_first_match(v, name@, i as int);
            }
            entries.set(i, (name, value));
            proof {
                assert(entries_view(entries@) =~= v.update(i as int, (name@, value)));
            }
            return ;
        }
        i = i + 1;
    }
    proof {
        assert(v.skip(n as int) =~= Seq::<(Seq<char>, usize)>::empty());
        assert(!has_key(v, name@));
    }
    entries.push((name, value));
    proof {
        assert(entries_view(entries@) =~= v.push((name@, value)));
    }
}

/// The first match at index `i`, with no match before it, is the binding
/// `key_index` names.
proof fn lemma_key_index_of_first_match(entries: Seq<(Seq<char>, usize)>, name: Seq<char>, i: int)
    requires
        0 <= i < entries.len(),
        entries[i].0 == name,
        forall|j: int| 0 <= j < i ==> entries[j].0 != name,
    ensures
        has_key(entries, name),
        key_index(entries, name) == i,
    decreases i,
{
    if i == 0 {
    } else {
        lemma_key_index_of_first_match(entries.drop_first(), name, i - 1);
    }
}

/// An entry's key is bound somewhere in the list.
pub proof fn lemma_entry_has_key(entries: Seq<(Seq<char>, usize)>, j: int)
    requires
        0 <= j < entries.len(),
    ensures
        has_key(entries, entries[j].0),
    decreases j,
{
    if j > 0 {
        lemma_entry_has_key(entries.drop_first(), j - 1);
    }
}

/// A found key's index lies in range and names that key.
proof fn lemma_key_index_props(entries: Seq<(Seq<char>, usize)>, key: Seq<char>)
    requires
        has_key(entries, key),
    ensures
        0 <= key_index(entries, key) < entries.len(),
        entries[key_index(entries, key)].0 == key,
    decreases entries.len(),
{
    if entries.len() > 0 && entries[0].0 != key {
        lemma_key_index_props(entries.drop_first(), key);
    }
}

/// Replacing a binding of one key leaves another key's scan alone.
proof fn lemma_find_entry_update_other(
    entries: Seq<(Seq<char>, usize)>,
    i: int,
    e2: (Seq<char>, usize),
    n: Seq<char>,
)
    requires
        0 <= i < entries.len(),
        entries[i].0 != n,
        e2.0 != n,
    ensures
        find_entry(entries.update(i, e2), n) == find_entry(entries, n),
    decreases i,
{
    assert(entries.update(i, e2)[0] == if i == 0 {
        e2
    } else {
        entries[0]
    });
    if i == 0 {
        assert(entries.update(0, e2).drop_first() =~= entries.drop_first());
    } else {
        assert(entries.update(i, e2).drop_first() =~= entries.drop_first().update(i - 1, e2));
        lemma_find_entry_update_other(entries.drop_first(), i - 1, e2, n);
    }
}

/// Appending a binding of one key leaves another key's scan alone.
proof fn lemma_find_entry_push_other(
    entries: Seq<(Seq<char>, usize)>,
    e2: (Seq<char>, usize),
    n: Seq<char>,
)
    requires
        e2.0 != n,
    ensures
        find_entry(entries.push(e2), n) == find_entry(entries, n),
    decreases entries.len(),
{
    if entries.len() == 0 {
        assert(entries.push(e2)[0] == e2);
        assert(entries.push(e2).drop_first() =~= Seq::<(Seq<char>, usize)>::empty());
    } else {
        assert(entries.push(e2)[0] == entries[0]);
        assert(entries.push(e2).drop_first() =~= entries.drop_first().push(e2));
        lemma_find_entry_push_other(entries.drop_first(), e2, n);
    }
}

/// Rebinding one key, in place or by appending, leaves every other key's
/// first binding alone.
pub proof fn lemma_upsert_other(
    entries: Seq<(Seq<char>, usize)>,
    key: Seq<char>,
    value: usize,
    n: Seq<char>,
)
    requires
        n != key,
    ensures
        find_entry(spec_upsert(entries, key, value), n) == find_entry(entries, n),
{
    if has_key(entries, key) {
        lemma_key_index_props(entries, key);
        lemma_find_entry_update_other(entries, key_index(entries, key), (key, value), n);
    } else {
        lemma_find_entry_push_other(entries, (key, value), n);
    }
}

impl Scope {
    /// A fresh scope with no bindings and no parent.
    pub fn new() -> (s: Scope)
        ensures
            s@.locals == Seq::<(Seq<char>, usize)>::empty(),
            s@.assign == Seq::<(Seq<char>, usize)>::empty(),
            s@.parent is None,
    {
        let s = Scope { locals: Vec::new(), assign: Vec::new(), parent: None };
        proof {
            assert(s@.locals =~= Seq::<(Seq<char>, usize)>::empty());
            assert(s@.assign =~= Seq::<(Seq<char>, usize)>::empty());
        }
        s
    }

    /// A structurally equal copy of this scope.
    pub fn duplicate(&self) -> (r: Scope)
        ensures
            r@ == self@,
        decreases *self,
    {
        let mut locals: Vec<(String, usize)> = Vec::new();
        let mut i: usize = 0;
        let n: usize = self.locals.len();
        while i < n
            invariant
                i <= n,
                n == self.locals@.len(),
                locals@.len() == i,
                forall|j: int|
                    0 <= j < i ==> locals@[j].0@ == self.locals@[j].0@ && locals@[j].1
                        == self.locals@[j].1,
            decreases n - i,
        {
            let name: String = self.locals[i].0.clone();
            let value: usize = self.locals[i].1;
            locals.push((name, value));
            i = i + 1;
        }
        let mut assign: Vec<(String, usize)> = Vec::new();
        let m: usize = self.assign.len();
        let mut k: usize = 0;
        while k < m
            invariant
                k <= m,
                m == self.assign@.len(),
                assign@.len() == k,
                forall|j: int|
                    0 <= j < k ==> assign@[j].0@ == self.assign@[j].0@ && assign@[j].1
                        == self.assign@[j].1,
            decreases m - k,
        {
            let name: String = self.assign[k].0.clone();
            let value: usize = self.assign[k].1;
            assign.push((name, value));
            k = k + 1;
        }
        let parent: Option<Box<Scope>> = match &self.parent {
            Some(p) => Some(Box::new(p.duplicate())),
            None => None,
        };
        let r = Scope { locals, assign, parent };
        proof {
            assert(entries_view(r.locals@) =~= entries_view(self.locals@));
            assert(entries_view(r.assign@) =~= entries_view(self.assign@));
        }
        r
    }

    /// Look a name up: `locals` first, then `assign`, then the ancestors.
    pub fn get(&self, name: &str) -> (r: Option<usize>)
        ensures
            r == sv_get(self@, name@),
        decreases *self,
    {
        match find_in(&self.locals, name) {
            Some(value) => Some(value),
            None => match find_in(&self.assign, name) {
                Some(value) => Some(value),
                None => match &self.parent {
                    Some(p) => p.get(name),
                    None => None,
                },
            },
        }
    }

    /// Declare a name in this scope, shadowing any outer binding.
    pub fn declair(&mut self, name: String, value: usize)
        ensures
            final(self)@.locals == spec_upsert(old(self)@.locals, name@, value),
            final(self)@.assign == old(self)@.assign,
            final(self)@.parent == old(self)@.parent,
    {
        upsert(&mut self.locals, name, value);
    }

    /// Record an assignment: rebind a local when the name is declared here,
    /// note the write in `assign` otherwise.
    pub fn assign(&mut self, name: String, value: usize)
        ensures
            final(self)@.parent == old(self)@.parent,
            has_key(old(self)@.locals, name@) ==> final(self)@.locals == spec_upsert(
                old(self)@.locals,
                name@,
                value,
            ) && final(self)@.assign == old(self)@.assign,
            !has_key(old(self)@.locals, name@) ==> final(self)@.assign == spec_upsert(
                old(self)@.assign,
                name@,
                value,
            ) && final(self)@.locals == old(self)@.locals,
    {
        let present: bool = match find_in(&self.locals, name.as_str()) {
            Some(_) => true,
            None => false,
        };
        if present {
            upsert(&mut self.locals, name, value);
        } else {
            upsert(&mut self.assign, name, value);
        }
    }

    /// A fresh child scope whose parent is a copy of this scope.
    pub fn child(&self) -> (r: Scope)
        ensures
            r@.locals == Seq::<(Seq<char>, usize)>::empty(),
            r@.assign == Seq::<(Seq<char>, usize)>::empty(),
            r@.parent == Some(Box::new(self@)),
    {
        let r = Scope {
            locals: Vec::new(),
            assign: Vec::new(),
            parent: Some(Box::new(self.duplicate())),
        };
        proof {
            assert(r@.locals =~= Seq::<(Seq<char>, usize)>::empty());
            assert(r@.assign =~= Seq::<(Seq<char>, usize)>::empty());
        }
        r
    }

    /// Two fresh sibling children, one for each arm of a branch.
    pub fn branch(&self) -> (r: (Scope, Scope))
        ensures
            r.0@.locals == Seq::<(Seq<char>, usize)>::empty(),
            r.0@.assign == Seq::<(Seq<char>, usize)>::empty(),
            r.0@.parent == Some(Box::new(self@)),
            r.1@.locals == Seq::<(Seq<char>, usize)>::empty(),
            r.1@.assign == Seq::<(Seq<char>, usize)>::empty(),
            r.1@.parent == Some(Box::new(self@)),
    {
        (self.child(), self.child())
    }
}

} // verus!
