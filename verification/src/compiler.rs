//! The store of named source modules.
//!
//! The store is a list of (name, source) entries with distinct names,
//! viewed as a map. A `HashMap<String, String>` is not used: vstd's
//! specifications of `HashMap` hold only for key types that obey its key
//! model (`obeys_key_model`), which vstd establishes for integers and
//! `bool` but not for `String`, and which could not be established here
//! without an assumption.
use vstd::prelude::*;
use crate::parser::{parse_item_text, whole_item, ParseError};
use crate::syntax::Item;
use crate::assoc::{assoc_map, has_key, key_of, keys_distinct, lemma_assoc_at,
    lemma_assoc_push, lemma_assoc_remove, lemma_assoc_update};

verus! {

/// The store of named source modules.
///
/// Each module name occurs at most once; the store is viewed as a finite
/// map from module names to module sources.
#[derive(Debug)]
pub struct Compiler {
    modules: Vec<(String, String)>,
}

/// The entries of a store, by the characters of name and source.
pub open spec fn module_entries(m: Seq<(String, String)>) -> Seq<(Seq<char>, Seq<char>)> {
    Seq::new(m.len(), |i: int| (m[i].0@, m[i].1@))
}

/// The store `m` after loading `content` as a new module `name`: unchanged
/// when `name` is already held.
pub open spec fn loaded(m: Map<Seq<char>, Seq<char>>, name: Seq<char>, content: Seq<char>) -> Map<
    Seq<char>,
    Seq<char>,
> {
    if m.contains_key(name) {
        m
    } else {
        m.insert(name, content)
    }
}

/// The store `m` after rebinding the module `name` to `content`: unchanged
/// when `name` is not held.
pub open spec fn bound(m: Map<Seq<char>, Seq<char>>, name: Seq<char>, content: Seq<char>) -> Map<
    Seq<char>,
    Seq<char>,
> {
    if m.contains_key(name) {
        m.insert(name, content)
    } else {
        m
    }
}

/// The store `m` after dropping the module `name`.
pub open spec fn dropped(m: Map<Seq<char>, Seq<char>>, name: Seq<char>) -> Map<Seq<char>, Seq<char>> {
    m.remove(name)
}

/// A module that was loaded is held, with the loaded source when it was new.
pub proof fn law_load_then_source(m: Map<Seq<char>, Seq<char>>, name: Seq<char>, content: Seq<char>)
    ensures
        loaded(m, name, content).contains_key(name),
        !m.contains_key(name) ==> loaded(m, name, content)[name] == content,
        m.contains_key(name) ==> loaded(m, name, content)[name] == m[name],
{
}

/// Dropping a module that was just loaded as new restores the store.
pub proof fn law_drop_undoes_load(m: Map<Seq<char>, Seq<char>>, name: Seq<char>, content: Seq<char>)
    requires
        !m.contains_key(name),
    ensures
        dropped(loaded(m, name, content), name) == m,
{
    assert(dropped(loaded(m, name, content), name) =~= m);
}

/// After a module is dropped it is no longer held, and loading it again
/// installs the new source.
pub proof fn law_load_after_drop(m: Map<Seq<char>, Seq<char>>, name: Seq<char>, content: Seq<char>)
    ensures
        !dropped(m, name).contains_key(name),
        loaded(dropped(m, name), name, content) == m.insert(name, content),
{
    assert(loaded(dropped(m, name), name, content) =~= m.insert(name, content));
}

/// Rebinding replaces the source of a held module and leaves the others;
/// rebinding a freshly loaded module is loading it with the new source.
pub proof fn law_bind_replaces(
    m: Map<Seq<char>, Seq<char>>,
    name: Seq<char>,
    content: Seq<char>,
    other: Seq<char>,
)
    ensures
        m.contains_key(name) ==> bound(m, name, content)[name] == content,
        bound(m, name, content).dom() == m.dom(),
        other != name && m.contains_key(other) ==> bound(m, name, content)[other] == m[other],
        !m.contains_key(name) ==> bound(loaded(m, name, other), name, content) == loaded(
            m,
            name,
            content,
        ),
{
    assert(bound(m, name, content).dom() =~= m.dom());
    if !m.contains_key(name) {
        assert(bound(loaded(m, name, other), name, content) =~= loaded(m, name, content));
    }
}

/// A failed operation leaves the store as it was: loading a held name,
/// rebinding or dropping a name that is not held.
pub proof fn law_failures_change_nothing(m: Map<Seq<char>, Seq<char>>, name: Seq<char>, content: Seq<char>)
    ensures
        m.contains_key(name) ==> loaded(m, name, content) == m,
        !m.contains_key(name) ==> bound(m, name, content) == m,
        !m.contains_key(name) ==> dropped(m, name) == m,
{
    if !m.contains_key(name) {
        assert(dropped(m, name) =~= m);
    }
}

/// Operations on different module names do not interfere.
pub proof fn law_distinct_names_commute(
    m: Map<Seq<char>, Seq<char>>,
    a: Seq<char>,
    x: Seq<char>,
    b: Seq<char>,
    y: Seq<char>,
)
    requires
        a != b,
    ensures
        loaded(loaded(m, a, x), b, y) == loaded(loaded(m, b, y), a, x),
        dropped(loaded(m, a, x), b) == loaded(dropped(m, b), a, x),
        bound(loaded(m, a, x), b, y) == loaded(bound(m, b, y), a, x),
{
    assert(loaded(loaded(m, a, x), b, y) =~= loaded(loaded(m, b, y), a, x));
    assert(dropped(loaded(m, a, x), b) =~= loaded(dropped(m, b), a, x));
    assert(bound(loaded(m, a, x), b, y) =~= loaded(bound(m, b, y), a, x));
}

impl Compiler {
    #[verifier::type_invariant]
    spec fn inv(self) -> bool {
        keys_distinct(module_entries(self.modules@))
    }

    /// The modules held, by name.
    pub closed spec fn view(&self) -> Map<Seq<char>, Seq<char>> {
        assoc_map(module_entries(self.modules@))
    }

    /// An empty store.
    pub fn new() -> (c: Compiler)
        ensures
            c@ == Map::<Seq<char>, Seq<char>>::empty(),
    {
        let c = Compiler { modules: Vec::new() };
        assert(c@ =~= Map::<Seq<char>, Seq<char>>::empty());
        c
    }

    /// Position of the module `name`, if it is held.
    fn find(&self, name: &String) -> (r: Option<usize>)
        ensures
            match r {
                Some(i) => i < self.modules@.len() && self.modules@[i as int].0@ == name@,
                None => !has_key(module_entries(self.modules@), name@),
            },
    {
        let mut i: usize = 0;
        while i < self.modules.len()
            invariant
                i <= self.modules@.len(),
                forall|j: int| 0 <= j < i ==> key_of(#[trigger] module_entries(self.modules@)[j]) != name@,
            decreases self.modules@.len() - i,
        {
            if self.modules[i].0 == *name {
                return Some(i);
            }
            i = i + 1;
        }
        None
    }

    /// Whether the module `name` is held.
    pub fn contains(&self, name: &str) -> (b: bool)
        ensures
            b == self@.contains_key(name@),
    {
        proof { use_type_invariant(self); }
        let key = name.to_owned();
        match self.find(&key) {
            Some(i) => {
                proof { lemma_assoc_at(module_entries(self.modules@), i as int); }
                true
            },
            None => false,
        }
    }

    /// The source of the module `name`, if it is held.
    pub fn source(&self, name: &str) -> (r: Option<&String>)
        ensures
            match r {
                Some(s) => self@.contains_key(name@) && self@[name@] == s@,
                None => !self@.contains_key(name@),
            },
    {
        proof { use_type_invariant(self); }
        let key = name.to_owned();
        match self.find(&key) {
            Some(i) => {
                proof { lemma_assoc_at(module_entries(self.modules@), i as int); }
                Some(&self.modules[i].1)
            },
            None => None,
        }
    }

    /// Drops the module `name` from the store.
    ///
    /// Succeeds exactly when the module was held; the store then no longer
    /// holds it, and is unchanged otherwise.
    pub fn drop_module(&mut self, name: &str) -> (r: Option<()>)
        ensures
            r is Some <==> old(self)@.contains_key(name@),
            final(self)@ == dropped(old(self)@, name@),
    {
        proof { use_type_invariant(&*self); }
        let key = name.to_owned();
        match self.find(&key) {
            Some(i) => {
                let ghost before = module_entries(self.modules@);
                proof { lemma_assoc_at(before, i as int); }
                let mut entries: Vec<(String, String)> = Vec::new();
                std::mem::swap(&mut entries, &mut self.modules);
                entries.remove(i);
                proof {
                    lemma_assoc_remove(before, i as int);
                    assert(module_entries(entries@) =~= before.remove(i as int));
                }
                self.modules = entries;
                Some(())
            },
            None => {
                proof {
                    assert(!self@.contains_key(name@));
                    assert(old(self)@.remove(name@) =~= old(self)@);
                }
                None
            },
        }
    }

    /// Loads a new module `name` with source `content`.
    ///
    /// Fails, leaving the store unchanged, when a module of that name is
    /// already held.
    pub fn load_module(&mut self, name: &str, content: &str) -> (r: Option<()>)
        ensures
            r is Some <==> !old(self)@.contains_key(name@),
            final(self)@ == loaded(old(self)@, name@, content@),
    {
        proof { use_type_invariant(&*self); }
        let key = name.to_owned();
        match self.find(&key) {
            Some(i) => {
                proof { lemma_assoc_at(module_entries(self.modules@), i as int); }
                None
            },
            None => {
                let ghost before = module_entries(self.modules@);
                let value = content.to_owned();
                let mut entries: Vec<(String, String)> = Vec::new();
                std::mem::swap(&mut entries, &mut self.modules);
                entries.push((key, value));
                proof {
                    lemma_assoc_push(before, name@, content@);
                    assert(module_entries(entries@) =~= before.push((name@, content@)));
                }
                self.modules = entries;
                Some(())
            },
        }
    }

    /// Rebinds the existing module `name` to the source `content`.
    ///
    /// Fails, leaving the store unchanged, when no module of that name is
    /// held.
    pub fn bind_module(&mut self, name: &str, content: &str) -> (r: Option<()>)
        ensures
            r is Some <==> old(self)@.contains_key(name@),
            final(self)@ == bound(old(self)@, name@, content@),
    {
        proof { use_type_invariant(&*self); }
        let key = name.to_owned();
        match self.find(&key) {
            Some(i) => {
                let ghost before = module_entries(self.modules@);
                proof { lemma_assoc_at(before, i as int); }
                let value = content.to_owned();
                let mut entries: Vec<(String, String)> = Vec::new();
                std::mem::swap(&mut entries, &mut self.modules);
                entries.set(i, (key, value));
                proof {
                    lemma_assoc_update(before, i as int, content@);
                    assert(module_entries(entries@) =~= before.update(i as int, (before[i as int].0, content@)));
                }
                self.modules = entries;
                Some(())
            },
            None => None,
        }
    }

    /// The modules held, as (name, source) pairs: each module once.
    pub fn modules(&self) -> (r: Vec<(String, String)>)
        ensures
            forall|k: int|
                0 <= k < r@.len() ==> self@.contains_key(#[trigger] r@[k].0@) && self@[r@[k].0@]
                    == r@[k].1@,
            forall|n: Seq<char>|
                self@.contains_key(n) ==> exists|k: int| 0 <= k < r@.len() && #[trigger] r@[k].0@ == n,
            forall|k: int, l: int| 0 <= k < l < r@.len() ==> r@[k].0@ != r@[l].0@,
    {
        proof { use_type_invariant(self); }
        let ghost entries = module_entries(self.modules@);
        let mut out: Vec<(String, String)> = Vec::new();
        let mut k: usize = 0;
        while k < self.modules.len()
            invariant
                k <= self.modules@.len(),
                entries == module_entries(self.modules@),
                keys_distinct(entries),
                out@.len() == k,
                forall|j: int|
                    0 <= j < k ==> #[trigger] out@[j].0@ == entries[j].0 && out@[j].1@ == entries[j].1,
            decreases self.modules@.len() - k,
        {
            let name = self.modules[k].0.clone();
            let source = self.modules[k].1.clone();
            out.push((name, source));
            k = k + 1;
        }
        assert forall|j: int| 0 <= j < out@.len() implies self@.contains_key(#[trigger] out@[j].0@)
            && self@[out@[j].0@] == out@[j].1@ by {
            lemma_assoc_at(entries, j);
        }
        assert forall|n: Seq<char>| self@.contains_key(n) implies exists|j: int|
            0 <= j < out@.len() && #[trigger] out@[j].0@ == n by {
            let j = choose|j: int| 0 <= j < entries.len() && key_of(entries[j]) == n;
            assert(out@[j].0@ == n);
        }
        assert forall|a: int, b: int| 0 <= a < b < out@.len() implies out@[a].0@ != out@[b].0@ by {
            assert(key_of(entries[a]) != key_of(entries[b]));
        }
        out
    }

    /// Parses every module as one item that takes all of its source.
    ///
    /// The result holds one entry per module, each module name once, with
    /// the item or the reason it could not be parsed.
    pub fn try_build(&self) -> (r: Vec<(String, Result<Item, ParseError>)>)
        requires
            forall|n: Seq<char>| self@.contains_key(n) ==> #[trigger] self@[n].len() < usize::MAX,
        ensures
            forall|k: int|
                0 <= k < r@.len() ==> self@.contains_key(#[trigger] r@[k].0@) && whole_item(
                    self@[r@[k].0@],
                    r@[k].1,
                ),
            forall|n: Seq<char>|
                self@.contains_key(n) ==> exists|k: int| 0 <= k < r@.len() && #[trigger] r@[k].0@ == n,
            forall|k: int, l: int| 0 <= k < l < r@.len() ==> r@[k].0@ != r@[l].0@,
    {
        proof { use_type_invariant(self); }
        let ghost entries = module_entries(self.modules@);
        let mut out: Vec<(String, Result<Item, ParseError>)> = Vec::new();
        let mut k: usize = 0;
        while k < self.modules.len()
            invariant
                k <= self.modules@.len(),
                entries == module_entries(self.modules@),
                keys_distinct(entries),
                forall|n: Seq<char>| self@.contains_key(n) ==> #[trigger] self@[n].len() < usize::MAX,
                out@.len() == k,
                forall|j: int| 0 <= j < k ==> #[trigger] out@[j].0@ == entries[j].0,
                forall|j: int|
                    0 <= j < k ==> self@.contains_key(#[trigger] out@[j].0@) && whole_item(
                        self@[out@[j].0@],
                        out@[j].1,
                    ),
            decreases self.modules@.len() - k,
        {
            proof {
                lemma_assoc_at(entries, k as int);
                assert(self@.contains_key(entries[k as int].0));
                assert(self@[entries[k as int].0].len() < usize::MAX);
            }
            let name = self.modules[k].0.clone();
            let built = parse_item_text(self.modules[k].1.as_str());
            out.push((name, built));
            k = k + 1;
        }
        assert forall|n: Seq<char>| self@.contains_key(n) implies exists|j: int|
            0 <= j < out@.len() && #[trigger] out@[j].0@ == n by {
            let j = choose|j: int| 0 <= j < entries.len() && key_of(entries[j]) == n;
            assert(out@[j].0@ == n);
        }
        assert forall|a: int, b: int| 0 <= a < b < out@.len() implies out@[a].0@ != out@[b].0@ by {
            assert(key_of(entries[a]) != key_of(entries[b]));
        }
        out
    }
}


impl Clone for Compiler {
    /// A copy of the store.
    fn clone(&self) -> (c: Self)
        ensures
            c@ == self@,
    {
        proof { use_type_invariant(self); }
        let mut modules: Vec<(String, String)> = Vec::new();
        let mut k: usize = 0;
        while k < self.modules.len()
            invariant
                k <= self.modules@.len(),
                module_entries(modules@) == module_entries(self.modules@).subrange(0, k as int),
            decreases self.modules@.len() - k,
        {
            let ghost before = modules@;
            let name = self.modules[k].0.clone();
            let source = self.modules[k].1.clone();
            assert(name@ == self.modules@[k as int].0@ && source@ == self.modules@[k as int].1@);
            modules.push((name, source));
            assert(module_entries(modules@) =~= module_entries(before).push(
                (self.modules@[k as int].0@, self.modules@[k as int].1@),
            ));
            assert(module_entries(modules@) =~= module_entries(self.modules@).subrange(0, k + 1));
            k = k + 1;
        }
        assert(module_entries(self.modules@).subrange(0, k as int) =~= module_entries(self.modules@));
        Compiler { modules }
    }
}


impl Default for Compiler {
    /// An empty store.
    fn default() -> (c: Self)
        ensures
            c@ == Map::<Seq<char>, Seq<char>>::empty(),
    {
        Compiler::new()
    }
}


impl Compiler {
    /// Whether every module of `self` is held by `other` with the same source.
    fn included_in(&self, other: &Compiler) -> (b: bool)
        ensures
            b <==> forall|n: Seq<char>|
                #[trigger] self@.contains_key(n) ==> other@.contains_key(n) && other@[n] == self@[n],
    {
        proof {
            use_type_invariant(self);
            use_type_invariant(other);
        }
        let ghost entries = module_entries(self.modules@);
        let mut i: usize = 0;
        while i < self.modules.len()
            invariant
                i <= self.modules@.len(),
                entries == module_entries(self.modules@),
                keys_distinct(entries),
                keys_distinct(module_entries(other.modules@)),
                forall|j: int|
                    0 <= j < i ==> other@.contains_key(#[trigger] entries[j].0) && other@[entries[j].0]
                        == entries[j].1,
            decreases self.modules@.len() - i,
        {
            proof {
                lemma_assoc_at(entries, i as int);
            }
            match other.find(&self.modules[i].0) {
                Some(j) => {
                    proof {
                        lemma_assoc_at(module_entries(other.modules@), j as int);
                    }
                    if other.modules[j].1 != self.modules[i].1 {
                        proof {
                            let n = entries[i as int].0;
                            assert(self@.contains_key(n));
                            assert(other@[n] != self@[n]);
                        }
                        return false;
                    }
                },
                None => {
                    proof {
                        let n = entries[i as int].0;
                        assert(n == self.modules@[i as int].0@);
                        assert(!has_key(module_entries(other.modules@), n));
                        assert(self@.contains_key(n));
                        assert(!other@.contains_key(n));
                        assert(!(self@.contains_key(n) ==> other@.contains_key(n) && other@[n]
                            == self@[n]));
                    }
                    return false;
                },
            }
            i = i + 1;
        }
        assert forall|n: Seq<char>| #[trigger] self@.contains_key(n) implies other@.contains_key(n)
            && other@[n] == self@[n] by {
            let j = choose|j: int| 0 <= j < entries.len() && key_of(entries[j]) == n;
            lemma_assoc_at(entries, j);
        }
        true
    }
}

impl PartialEq for Compiler {
    /// Whether both stores hold the same modules with the same sources.
    fn eq(&self, other: &Self) -> (r: bool) {
        let r = self.included_in(other) && other.included_in(self);
        proof {
            if r {
                assert forall|n: Seq<char>| self@.contains_key(n) <==> other@.contains_key(n) by {
                    if self@.contains_key(n) {
                        assert(other@[n] == self@[n]);
                    }
                    if other@.contains_key(n) {
                        assert(self@[n] == other@[n]);
                    }
                }
                assert forall|n: Seq<char>| self@.contains_key(n) implies self@[n] == other@[n] by {
                    assert(other@[n] == self@[n]);
                }
                assert(self@ =~= other@);
            } else {
                if self@ == other@ {
                    assert forall|n: Seq<char>| #[trigger] self@.contains_key(n) implies other@.contains_key(n)
                        && other@[n] == self@[n] by {}
                    assert forall|n: Seq<char>| #[trigger] other@.contains_key(n) implies self@.contains_key(n)
                        && self@[n] == other@[n] by {}
                }
            }
        }
        r
    }
}

impl vstd::std_specs::cmp::PartialEqSpecImpl for Compiler {
    open spec fn obeys_eq_spec() -> bool {
        true
    }

    open spec fn eq_spec(&self, other: &Self) -> bool {
        self@ == other@
    }
}

impl Eq for Compiler {
}

} // verus!