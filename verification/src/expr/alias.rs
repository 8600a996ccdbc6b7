//! Named expression aliases and the table they are looked up in.

use vstd::prelude::*;
use crate::text::str_to_chars;

verus! {

/// A named expression alias contributed by a recipe or the config file
/// (e.g. `adc0` -> `raw_0[0..12:signed]`), with a short description for
/// user-facing help text.
#[derive(Debug)]
pub struct ExprAlias {
    pub name: String,
    pub expr: String,
    pub help: String,
}

/// Mathematical form of an alias: its three texts.
pub struct SpecAlias {
    pub name: Seq<char>,
    pub expr: Seq<char>,
    pub help: Seq<char>,
}

impl View for ExprAlias {
    type V = SpecAlias;

    open spec fn view(&self) -> SpecAlias {
        SpecAlias { name: self.name@, expr: self.expr@, help: self.help@ }
    }
}

impl ExprAlias {
    pub fn new(name: &str, expr: &str, help: &str) -> (a: ExprAlias)
        ensures
            a.name@ == name@,
            a.expr@ == expr@,
            a.help@ == help@,
    {
        ExprAlias { name: name.to_owned(), expr: expr.to_owned(), help: help.to_owned() }
    }

    /// A copy of the alias with the same three texts.
    pub fn duplicate(&self) -> (a: ExprAlias)
        ensures
            a@ == self@,
    {
        ExprAlias { name: self.name.clone(), expr: self.expr.clone(), help: self.help.clone() }
    }
}

/// Aliases by name; each name occurs at most once.
pub struct AliasTable {
    entries: Vec<(Vec<char>, ExprAlias)>,
}

impl AliasTable {
    pub closed spec fn key(self, i: int) -> Seq<char> {
        self.entries@[i].0@
    }

    pub closed spec fn has_index(self, k: Seq<char>) -> bool {
        exists|i: int| 0 <= i < self.entries@.len() && #[trigger] self.key(i) == k
    }

    pub closed spec fn index_of(self, k: Seq<char>) -> int {
        choose|i: int| 0 <= i < self.entries@.len() && #[trigger] self.key(i) == k
    }

    #[verifier::type_invariant]
    closed spec fn distinct(self) -> bool {
        forall|i: int, j: int|
            0 <= i < self.entries@.len() && 0 <= j < self.entries@.len() && i != j ==> #[trigger] self.key(i)
                != #[trigger] self.key(j)
    }
}

impl View for AliasTable {
    type V = Map<Seq<char>, SpecAlias>;

    closed spec fn view(&self) -> Map<Seq<char>, SpecAlias> {
        Map::new(|k: Seq<char>| self.has_index(k), |k: Seq<char>| self.entries@[self.index_of(k)].1@)
    }
}

impl AliasTable {
    pub fn new() -> (t: AliasTable)
        ensures
            t@ == Map::<Seq<char>, SpecAlias>::empty(),
    {
        let t = AliasTable { entries: Vec::new() };
        assert(t@ =~= Map::<Seq<char>, SpecAlias>::empty());
        t
    }

    /// Number of aliases.
    pub fn len(&self) -> (n: usize)
        ensures
            n == self@.dom().len(),
    {
        proof {
            use_type_invariant(self);
            self.lemma_dom_len();
        }
        self.entries.len()
    }

    proof fn lemma_dom_len(self)
        requires
            self.distinct(),
        ensures
            self@.dom().len() == self.entries@.len(),
            self@.dom().finite(),
    {
        let keys = Seq::new(self.entries@.len(), |i: int| self.key(i));
        assert(self@.dom() =~= keys.to_set()) by {
            assert forall|k: Seq<char>| self@.dom().contains(k) implies keys.to_set().contains(k) by {
                let i = self.index_of(k);
                assert(keys[i] == k);
            }
            assert forall|k: Seq<char>| keys.to_set().contains(k) implies self@.dom().contains(k) by {
                let i = choose|i: int| 0 <= i < keys.len() && keys[i] == k;
                assert(self.key(i) == k);
            }
        }
        assert forall|i: int, j: int| 0 <= i < j < keys.len() implies keys[i] != keys[j] by {
            assert(self.key(i) != self.key(j));
        }
        keys.unique_seq_to_set();
    }

    /// Position of the alias named `name`, if any.
    fn find(&self, name: &Vec<char>) -> (r: Option<usize>)
        ensures
            match r {
                Some(i) => i < self.entries@.len() && self.key(i as int) == name@,
                None => !self.has_index(name@),
            },
    {
        let mut i: usize = 0;
        while i < self.entries.len()
            invariant
                i <= self.entries@.len(),
                forall|j: int| 0 <= j < i ==> #[trigger] self.key(j) != name@,
            decreases self.entries@.len() - i,
        {
            if chars_equal(&self.entries[i].0, name) {
                return Some(i);
            }
            i = i + 1;
        }
        None
    }

    /// The alias named by the characters `name`, if any.
    pub fn get_chars(&self, name: &Vec<char>) -> (r: Option<&ExprAlias>)
        ensures
            match r {
                Some(a) => self@.contains_key(name@) && a@ == self@[name@],
                None => !self@.contains_key(name@),
            },
    {
        proof {
            use_type_invariant(self);
        }
        match self.find(name) {
            Some(i) => {
                proof {
                    let j = self.index_of(name@);
                    assert(self.key(i as int) == name@);
                    assert(self.has_index(name@));
                    assert(self.key(j) == name@);
                    assert(i == j);
                }
                Some(&self.entries[i].1)
            },
            None => None,
        }
    }

    /// The alias named `name`, if any.
    pub fn get(&self, name: &str) -> (r: Option<&ExprAlias>)
        ensures
            match r {
                Some(a) => self@.contains_key(name@) && a@ == self@[name@],
                None => !self@.contains_key(name@),
            },
    {
        let chars = str_to_chars(name);
        self.get_chars(&chars)
    }

    /// Adds or replaces the alias under `name`; gives back the one replaced.
    pub fn insert(&mut self, name: String, alias: ExprAlias) -> (r: Option<ExprAlias>)
        ensures
            final(self)@ == old(self)@.insert(name@, alias@),
            match r {
                Some(a) => old(self)@.contains_key(name@) && a@ == old(self)@[name@],
                None => !old(self)@.contains_key(name@),
            },
    {
        proof {
            use_type_invariant(&*self);
        }
        let key = str_to_chars(name.as_str());
        let ghost old_self = *self;
        let ghost new_view = alias@;
        match self.find(&key) {
            Some(i) => {
                proof {
                    let j = old_self.index_of(key@);
                    assert(old_self.key(i as int) == key@);
                    assert(old_self.key(j) == key@);
                }
                let mut entries = Vec::new();
                std::mem::swap(&mut entries, &mut self.entries);
                let (k, old_alias) = entries.remove(i);
                entries.insert(i, (k, alias));
                proof {
                    assert(entries@ =~= old_self.entries@.update(i as int, (k, alias)));
                    assert forall|a: int, b: int|
                        0 <= a < entries@.len() && 0 <= b < entries@.len() && a != b implies #[trigger] entries@[a].0@
                        != #[trigger] entries@[b].0@ by {
                        assert(old_self.key(a) != old_self.key(b));
                    }
                }
                self.entries = entries;
                proof {
                    assert(self.entries@ == old_self.entries@.update(i as int, (k, alias)));
                    assert forall|a: int| 0 <= a < self.entries@.len() implies #[trigger] self.key(
                        a,
                    ) == old_self.key(a) by {}
                    assert(self@ =~= old_self@.insert(name@, new_view)) by {
                        assert forall|q: Seq<char>| #[trigger] self@.contains_key(q) implies self@[q]
                            == old_self@.insert(name@, new_view)[q] by {
                            let a = self.index_of(q);
                            let b = old_self.index_of(q);
                            assert(self.key(a) == q);
                            assert(old_self.key(b) == q);
                            assert(old_self.key(a) == q);
                        }
                        assert forall|q: Seq<char>|
                            old_self@.insert(name@, new_view).contains_key(q) implies #[trigger] self@.contains_key(q) by {
                            if q == name@ {
                                assert(self.key(i as int) == q);
                            } else {
                                let b = old_self.index_of(q);
                                assert(self.key(b) == q);
                            }
                        }
                    }
                }
                Some(old_alias)
            },
            None => {
                let mut entries = Vec::new();
                std::mem::swap(&mut entries, &mut self.entries);
                entries.push((key, alias));
                proof {
                    let n = old_self.entries@.len();
                    assert(entries@ =~= old_self.entries@.push((key, alias)));
                    assert forall|a: int, b: int|
                        0 <= a < entries@.len() && 0 <= b < entries@.len() && a != b implies #[trigger] entries@[a].0@
                        != #[trigger] entries@[b].0@ by {
                        if a < n && b < n {
                            assert(old_self.key(a) != old_self.key(b));
                        } else if a < n {
                            assert(old_self.key(a) != key@);
                        } else {
                            assert(old_self.key(b) != key@);
                        }
                    }
                }
                self.entries = entries;
                proof {
                    let n = old_self.entries@.len();
                    assert(self.key(n as int) == name@);
                    assert forall|a: int| 0 <= a < n implies #[trigger] self.key(a) == old_self.key(
                        a,
                    ) by {}
                    assert(self@ =~= old_self@.insert(name@, new_view)) by {
                        assert forall|q: Seq<char>| #[trigger] self@.contains_key(q) implies self@[q]
                            == old_self@.insert(name@, new_view)[q] by {
                            let a = self.index_of(q);
                            assert(self.key(a) == q);
                            if q != name@ {
                                assert(a != n);
                                let b = old_self.index_of(q);
                                assert(old_self.has_index(q)) by {
                                    assert(old_self.key(a) == q);
                                }
                                assert(old_self.key(b) == q);
                                assert(self.key(b) == q);
                            }
                        }
                        assert forall|q: Seq<char>|
                            old_self@.insert(name@, new_view).contains_key(q) implies #[trigger] self@.contains_key(q) by {
                            if q != name@ {
                                let b = old_self.index_of(q);
                                assert(self.key(b) == q);
                            }
                        }
                    }
                }
                None
            },
        }
    }
}

/// Whether two character vectors are equal.
pub fn chars_equal(a: &Vec<char>, b: &Vec<char>) -> (r: bool)
    ensures
        r == (a@ == b@),
{
    if a.len() != b.len() {
        return false;
    }
    let mut i: usize = 0;
    while i < a.len()
        invariant
            a@.len() == b@.len(),
            i <= a@.len(),
            forall|j: int| 0 <= j < i ==> a@[j] == b@[j],
        decreases a@.len() - i,
    {
        if a[i] != b[i] {
            return false;
        }
        i = i + 1;
    }
    assert(a@ =~= b@);
    true
}

} // verus!
