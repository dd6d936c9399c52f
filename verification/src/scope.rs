//! Scopes: finite maps from paths to bindings, and the stack of scopes.
//!
//! A scope is a list of (path, binding) entries with distinct paths, viewed
//! as a map. A `HashMap` keyed by paths is not used: vstd's specifications
//! of `HashMap` hold only for key types that obey its key model
//! (`obeys_key_model`), which vstd establishes for integers and `bool` but
//! not for a type such as `Path`, and which could not be established here
//! without an assumption.
use vstd::prelude::*;
use crate::assoc::{assoc_map, has_key, key_of, keys_distinct, lemma_assoc_at, lemma_assoc_push,
    lemma_assoc_update};
use crate::syntax::{Path, SpecPath};
use crate::value::{Binding, SpecBinding};

verus! {

/// One scope: the bindings made at one level of the scope stack.
#[derive(Debug)]
pub struct Scope {
    entries: Vec<(Path, Binding)>,
}

/// The entries of a scope, by the views of path and binding.
pub open spec fn scope_entries(e: Seq<(Path, Binding)>) -> Seq<(SpecPath, SpecBinding)> {
    Seq::new(e.len(), |i: int| (e[i].0@, e[i].1@))
}

impl View for Scope {
    type V = Map<SpecPath, SpecBinding>;

    closed spec fn view(&self) -> Map<SpecPath, SpecBinding> {
        assoc_map(scope_entries(self.entries@))
    }
}

impl Scope {
    #[verifier::type_invariant]
    spec fn inv(self) -> bool {
        keys_distinct(scope_entries(self.entries@))
    }

    /// An empty scope.
    pub fn new() -> (s: Scope)
        ensures
            s@ == Map::<SpecPath, SpecBinding>::empty(),
    {
        let s = Scope { entries: Vec::new() };
        assert(s@ =~= Map::<SpecPath, SpecBinding>::empty());
        s
    }

    fn find(&self, path: &Path) -> (r: Option<usize>)
        ensures
            match r {
                Some(i) => i < self.entries@.len() && self.entries@[i as int].0@ == path@,
                None => !has_key(scope_entries(self.entries@), path@),
            },
    {
        let mut i: usize = 0;
        while i < self.entries.len()
            invariant
                i <= self.entries@.len(),
                forall|j: int| 0 <= j < i ==> key_of(#[trigger] scope_entries(self.entries@)[j]) != path@,
            decreases self.entries@.len() - i,
        {
            if self.entries[i].0.same(path) {
                return Some(i);
            }
            i = i + 1;
        }
        None
    }

    /// The binding of `path` in this scope, if any.
    pub fn get(&self, path: &Path) -> (r: Option<&Binding>)
        ensures
            match r {
                Some(b) => self@.contains_key(path@) && self@[path@] == b@,
                None => !self@.contains_key(path@),
            },
    {
        proof { use_type_invariant(self); }
        match self.find(path) {
            Some(i) => {
                proof { lemma_assoc_at(scope_entries(self.entries@), i as int); }
                Some(&self.entries[i].1)
            },
            None => None,
        }
    }

    /// Binds `path` to `binding`, replacing any binding it had here.
    pub fn insert(&mut self, path: Path, binding: Binding)
        ensures
            final(self)@ == old(self)@.insert(path@, binding@),
    {
        proof { use_type_invariant(&*self); }
        let ghost before = scope_entries(self.entries@);
        let ghost key = path@;
        let ghost val = binding@;
        let mut entries: Vec<(Path, Binding)> = Vec::new();
        std::mem::swap(&mut entries, &mut self.entries);
        match self.find_in(&entries, &path) {
            Some(i) => {
                entries.set(i, (path, binding));
                proof {
                    lemma_assoc_update(before, i as int, val);
                    assert(scope_entries(entries@) =~= before.update(i as int, (before[i as int].0, val)));
                }
            },
            None => {
                entries.push((path, binding));
                proof {
                    lemma_assoc_push(before, key, val);
                    assert(scope_entries(entries@) =~= before.push((key, val)));
                }
            },
        }
        self.entries = entries;
    }

    /// Rebinds `path` to `binding` if this scope binds it; reports whether
    /// it did.
    pub fn replace(&mut self, path: &Path, binding: Binding) -> (found: bool)
        ensures
            found == old(self)@.contains_key(path@),
            found ==> final(self)@ == old(self)@.insert(path@, binding@),
            !found ==> final(self)@ == old(self)@,
    {
        proof { use_type_invariant(&*self); }
        let ghost before = scope_entries(self.entries@);
        let ghost val = binding@;
        match self.find(path) {
            Some(i) => {
                proof { lemma_assoc_at(before, i as int); }
                let mut entries: Vec<(Path, Binding)> = Vec::new();
                std::mem::swap(&mut entries, &mut self.entries);
                let key = path.copy();
                entries.set(i, (key, binding));
                proof {
                    lemma_assoc_update(before, i as int, val);
                    assert(scope_entries(entries@) =~= before.update(i as int, (before[i as int].0, val)));
                }
                self.entries = entries;
                true
            },
            None => false,
        }
    }

    fn find_in(&self, entries: &Vec<(Path, Binding)>, path: &Path) -> (r: Option<usize>)
        ensures
            match r {
                Some(i) => i < entries@.len() && entries@[i as int].0@ == path@,
                None => !has_key(scope_entries(entries@), path@),
            },
    {
        let mut i: usize = 0;
        while i < entries.len()
            invariant
                i <= entries@.len(),
                forall|j: int| 0 <= j < i ==> key_of(#[trigger] scope_entries(entries@)[j]) != path@,
            decreases entries@.len() - i,
        {
            if entries[i].0.same(path) {
                return Some(i);
            }
            i = i + 1;
        }
        None
    }
}

// ---------------------------------------------------------------------
// The stack of scopes.

/// The scope stack, innermost scope last.
pub open spec fn stack_view(s: Seq<Scope>) -> Seq<Map<SpecPath, SpecBinding>> {
    Seq::new(s.len(), |i: int| s[i]@)
}

/// The binding of `path` in the innermost scope that binds it.
pub open spec fn lookup(stack: Seq<Map<SpecPath, SpecBinding>>, path: SpecPath) -> Option<SpecBinding>
    decreases stack.len(),
{
    if stack.len() == 0 {
        None
    } else if stack.last().contains_key(path) {
        Some(stack.last()[path])
    } else {
        lookup(stack.drop_last(), path)
    }
}

/// Rebinds `path` in the innermost scope that binds it; `None` when no
/// scope binds it.
pub open spec fn assign(stack: Seq<Map<SpecPath, SpecBinding>>, path: SpecPath, b: SpecBinding) -> Option<
    Seq<Map<SpecPath, SpecBinding>>,
>
    decreases stack.len(),
{
    if stack.len() == 0 {
        None
    } else if stack.last().contains_key(path) {
        Some(stack.update(stack.len() - 1, stack.last().insert(path, b)))
    } else {
        match assign(stack.drop_last(), path, b) {
            Some(rest) => Some(rest.push(stack.last())),
            None => None,
        }
    }
}

/// Binds `path` in the innermost scope; `None` when there is no scope.
pub open spec fn bind_top(stack: Seq<Map<SpecPath, SpecBinding>>, path: SpecPath, b: SpecBinding) -> Option<
    Seq<Map<SpecPath, SpecBinding>>,
> {
    if stack.len() == 0 {
        None
    } else {
        Some(stack.update(stack.len() - 1, stack.last().insert(path, b)))
    }
}

/// Binds `path` to `binding` in the innermost scope; reports whether there
/// was a scope.
pub fn bind_last(scopes: &mut Vec<Scope>, path: Path, binding: Binding) -> (ok: bool)
    ensures
        match bind_top(stack_view(old(scopes)@), path@, binding@) {
            Some(s) => ok && stack_view(final(scopes)@) == s,
            None => !ok && final(scopes)@ == old(scopes)@,
        },
{
    let ghost original = stack_view(scopes@);
    let ghost key = path@;
    let ghost val = binding@;
    match scopes.pop() {
        Some(mut top) => {
            top.insert(path, binding);
            scopes.push(top);
            proof {
                assert(stack_view(scopes@) =~= original.update(original.len() - 1, original.last().insert(key, val)));
            }
            true
        },
        None => false,
    }
}

/// Where `assign` rebinds: the innermost scope binding `path`, when the
/// scopes above index `i` do not bind it.
pub proof fn lemma_assign_at(stack: Seq<Map<SpecPath, SpecBinding>>, path: SpecPath, b: SpecBinding, i: int)
    requires
        -1 <= i < stack.len(),
        i >= 0 ==> stack[i].contains_key(path),
        forall|j: int| i < j < stack.len() ==> !(#[trigger] stack[j]).contains_key(path),
    ensures
        i >= 0 ==> assign(stack, path, b) == Some(stack.update(i, stack[i].insert(path, b))),
        i < 0 ==> assign(stack, path, b) is None,
    decreases stack.len(),
{
    if stack.len() == 0 {
    } else if stack.last().contains_key(path) {
        assert(i == stack.len() - 1);
    } else {
        let rest = stack.drop_last();
        lemma_assign_at(rest, path, b, i);
        if i >= 0 {
            assert(rest.update(i, rest[i].insert(path, b)).push(stack.last()) =~= stack.update(
                i,
                stack[i].insert(path, b),
            ));
        }
    }
}

} // verus!
