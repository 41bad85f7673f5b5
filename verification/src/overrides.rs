//! A string-keyed map of shortcut overrides, kept in insertion order with unique keys.

use vstd::prelude::*;
use crate::shortcuts::{Bind, BindView};

verus! {

/// The value stored under `key` in `entries`, searching from the front.
pub open spec fn lookup(entries: Seq<(Seq<char>, BindView)>, key: Seq<char>) -> Option<BindView>
    decreases entries.len(),
{
    if entries.len() == 0 {
        None
    } else if entries[0].0 == key {
        Some(entries[0].1)
    } else {
        lookup(entries.drop_first(), key)
    }
}

/// No key occurs twice.
pub open spec fn unique_keys(entries: Seq<(Seq<char>, BindView)>) -> bool {
    forall|i: int, j: int|
        0 <= i < j < entries.len() ==> #[trigger] entries[i].0 != #[trigger] entries[j].0
}

/// The key lookup finds an entry exactly when some entry has that key.
proof fn lemma_lookup_some(entries: Seq<(Seq<char>, BindView)>, key: Seq<char>)
    ensures
        lookup(entries, key) is Some <==> exists|i: int| 0 <= i < entries.len() && #[trigger] entries[i].0 == key,
    decreases entries.len(),
{
    if entries.len() > 0 {
        let rest = entries.drop_first();
        lemma_lookup_some(rest, key);
        if entries[0].0 == key {
            assert(entries[0].0 == key);
        } else {
            if lookup(rest, key) is Some {
                let j = choose|j: int| 0 <= j < rest.len() && #[trigger] rest[j].0 == key;
                assert(entries[j + 1].0 == key);
            }
            if exists|i: int| 0 <= i < entries.len() && #[trigger] entries[i].0 == key {
                let i = choose|i: int| 0 <= i < entries.len() && #[trigger] entries[i].0 == key;
                assert(rest[i - 1].0 == key);
            }
        }
    }
}

/// With unique keys, looking up the key of entry `i` finds entry `i`.
proof fn lemma_lookup_at(entries: Seq<(Seq<char>, BindView)>, i: int)
    requires
        unique_keys(entries),
        0 <= i < entries.len(),
    ensures
        lookup(entries, entries[i].0) == Some(entries[i].1),
    decreases entries.len(),
{
    if i > 0 {
        assert(entries[0].0 != entries[i].0);
        let rest = entries.drop_first();
        assert(rest[i - 1] == entries[i]);
        assert(unique_keys(rest)) by {
            assert forall|a: int, b: int| 0 <= a < b < rest.len() implies #[trigger] rest[a].0 != #[trigger] rest[b].0 by {
                assert(rest[a] == entries[a + 1]);
                assert(rest[b] == entries[b + 1]);
            }
        }
        lemma_lookup_at(rest, i - 1);
    }
}

/// Appending an entry whose key is new adds that key.
proof fn lemma_lookup_push(entries: Seq<(Seq<char>, BindView)>, e: (Seq<char>, BindView), key: Seq<char>)
    requires
        lookup(entries, e.0) is None,
    ensures
        lookup(entries.push(e), key) == (if key == e.0 { Some(e.1) } else { lookup(entries, key) }),
    decreases entries.len(),
{
    let p = entries.push(e);
    if entries.len() == 0 {
        assert(p[0] == e);
        assert(p.drop_first() =~= Seq::<(Seq<char>, BindView)>::empty());
        assert(lookup(p.drop_first(), key) is None);
    } else {
        assert(p[0] == entries[0]);
        assert(p.drop_first() =~= entries.drop_first().push(e));
        assert(entries[0].0 != e.0);
        if entries[0].0 != key {
            lemma_lookup_push(entries.drop_first(), e, key);
        }
    }
}

/// Replacing entry `i` changes only the value stored under its key.
proof fn lemma_lookup_update(entries: Seq<(Seq<char>, BindView)>, i: int, v: BindView, key: Seq<char>)
    requires
        unique_keys(entries),
        0 <= i < entries.len(),
    ensures
        lookup(entries.update(i, (entries[i].0, v)), key) == (if key == entries[i].0 {
            Some(v)
        } else {
            lookup(entries, key)
        }),
    decreases entries.len(),
{
    let u = entries.update(i, (entries[i].0, v));
    if i == 0 {
        assert(u.drop_first() =~= entries.drop_first());
    } else {
        assert(u[0] == entries[0]);
        assert(entries[0].0 != entries[i].0);
        let rest = entries.drop_first();
        assert(u.drop_first() =~= rest.update(i - 1, (rest[i - 1].0, v)));
        assert(unique_keys(rest)) by {
            assert forall|a: int, b: int| 0 <= a < b < rest.len() implies #[trigger] rest[a].0 != #[trigger] rest[b].0 by {
                assert(rest[a] == entries[a + 1]);
                assert(rest[b] == entries[b + 1]);
            }
        }
        if entries[0].0 != key {
            lemma_lookup_update(rest, i - 1, v, key);
        }
    }
}

/// Removing entry `i` removes only its key.
proof fn lemma_lookup_remove(entries: Seq<(Seq<char>, BindView)>, i: int, key: Seq<char>)
    requires
        unique_keys(entries),
        0 <= i < entries.len(),
    ensures
        lookup(entries.remove(i), key) == (if key == entries[i].0 { None } else { lookup(entries, key) }),
    decreases entries.len(),
{
    let rest = entries.drop_first();
    assert(unique_keys(rest)) by {
        assert forall|a: int, b: int| 0 <= a < b < rest.len() implies #[trigger] rest[a].0 != #[trigger] rest[b].0 by {
            assert(rest[a] == entries[a + 1]);
            assert(rest[b] == entries[b + 1]);
        }
    }
    if i == 0 {
        assert(entries.remove(0) =~= rest);
        if key == entries[0].0 {
            lemma_lookup_some(rest, key);
            if lookup(rest, key) is Some {
                let j = choose|j: int| 0 <= j < rest.len() && #[trigger] rest[j].0 == key;
                assert(entries[j + 1].0 == entries[0].0);
            }
        }
    } else {
        assert(entries.remove(i)[0] == entries[0]);
        assert(entries.remove(i).drop_first() =~= rest.remove(i - 1));
        assert(entries[0].0 != entries[i].0);
        if entries[0].0 != key {
            lemma_lookup_remove(rest, i - 1, key);
        }
    }
}

/// Shortcut overrides keyed by action id. A key maps to at most one bind.
#[derive(Debug)]
pub struct Overrides {
    entries: Vec<(String, Bind)>,
}

/// The view of one stored entry.
pub open spec fn entry_view(e: (String, Bind)) -> (Seq<char>, BindView) {
    (e.0@, e.1@)
}

impl Overrides {
    /// The stored entries, in insertion order.
    pub closed spec fn entries_view(&self) -> Seq<(Seq<char>, BindView)> {
        self.entries@.map_values(|e: (String, Bind)| entry_view(e))
    }

    #[verifier::type_invariant]
    spec fn wf(&self) -> bool {
        unique_keys(self.entries_view())
    }

    /// The bind stored under `key`, if any.
    pub closed spec fn spec_get(&self, key: Seq<char>) -> Option<BindView> {
        lookup(self.entries_view(), key)
    }

    /// An empty set of overrides.
    pub fn new() -> (r: Overrides)
        ensures
            forall|k: Seq<char>| r.spec_get(k) is None,
    {
        let r = Overrides { entries: Vec::new() };
        assert(r.entries_view() =~= Seq::<(Seq<char>, BindView)>::empty());
        r
    }

    /// Number of overrides.
    pub fn len(&self) -> (r: usize)
        ensures
            r == self.entries_view().len(),
    {
        self.entries.len()
    }

    /// Position of `key` among the entries.
    fn position(&self, key: &str) -> (r: Option<usize>)
        ensures
            match r {
                Some(i) => i < self.entries_view().len() && self.entries_view()[i as int].0 == key@,
                None => forall|i: int| 0 <= i < self.entries_view().len() ==> #[trigger] self.entries_view()[i].0 != key@,
            },
    {
        let mut i: usize = 0;
        while i < self.entries.len()
            invariant
                i <= self.entries@.len(),
                self.entries_view().len() == self.entries@.len(),
                forall|j: int| 0 <= j < self.entries@.len() ==> #[trigger] self.entries_view()[j] == entry_view(self.entries@[j]),
                forall|j: int| 0 <= j < i ==> #[trigger] self.entries_view()[j].0 != key@,
            decreases self.entries@.len() - i,
        {
            if crate::text::str_equal(self.entries[i].0.as_str(), key) {
                return Some(i);
            }
            i = i + 1;
        }
        None
    }

    /// The bind stored under `key`, if any.
    pub fn get(&self, key: &str) -> (r: Option<Bind>)
        ensures
            match r {
                Some(b) => self.spec_get(key@) == Some(b@),
                None => self.spec_get(key@) is None,
            },
    {
        proof {
            use_type_invariant(self);
            lemma_lookup_some(self.entries_view(), key@);
        }
        match self.position(key) {
            Some(i) => {
                proof {
                    lemma_lookup_at(self.entries_view(), i as int);
                }
                Some(self.entries[i].1.duplicate())
            },
            None => None,
        }
    }

    /// Store `bind` under `key`, replacing any previous bind for that key.
    pub fn insert(&mut self, key: String, bind: Bind)
        ensures
            forall|k: Seq<char>| #[trigger] final(self).spec_get(k) == (if k == key@ {
                Some(bind@)
            } else {
                old(self).spec_get(k)
            }),
    {
        proof {
            use_type_invariant(&*self);
        }
        let ghost old_view = self.entries_view();
        let ghost bv = bind@;
        let ghost kv = key@;
        match self.position(key.as_str()) {
            Some(i) => {
                let mut entries: Vec<(String, Bind)> = Vec::new();
                std::mem::swap(&mut entries, &mut self.entries);
                entries.set(i, (key, bind));
                proof {
                    let nv = entries@.map_values(|e: (String, Bind)| entry_view(e));
                    assert(nv =~= old_view.update(i as int, (old_view[i as int].0, bv)));
                    assert(unique_keys(nv)) by {
                        assert forall|a: int, b: int| 0 <= a < b < nv.len()
                            implies #[trigger] nv[a].0 != #[trigger] nv[b].0 by {
                            assert(nv[a].0 == old_view[a].0);
                            assert(nv[b].0 == old_view[b].0);
                        }
                    }
                }
                self.entries = entries;
                proof {
                    assert forall|k: Seq<char>| #[trigger] self.spec_get(k) == (if k == kv { Some(bv) } else { lookup(old_view, k) }) by {
                        lemma_lookup_update(old_view, i as int, bv, k);
                    }
                }
            },
            None => {
                let mut entries: Vec<(String, Bind)> = Vec::new();
                std::mem::swap(&mut entries, &mut self.entries);
                entries.push((key, bind));
                proof {
                    let nv = entries@.map_values(|e: (String, Bind)| entry_view(e));
                    assert(nv =~= old_view.push((kv, bv)));
                    assert(unique_keys(nv)) by {
                        assert forall|a: int, b: int| 0 <= a < b < nv.len()
                            implies #[trigger] nv[a].0 != #[trigger] nv[b].0 by {
                            if b == old_view.len() {
                                assert(old_view[a].0 != kv);
                            } else {
                                assert(nv[a] == old_view[a]);
                                assert(nv[b] == old_view[b]);
                            }
                        }
                    }
                }
                self.entries = entries;
                proof {
                    lemma_lookup_some(old_view, kv);
                    assert forall|k: Seq<char>| #[trigger] self.spec_get(k) == (if k == kv { Some(bv) } else { lookup(old_view, k) }) by {
                        lemma_lookup_push(old_view, (kv, bv), k);
                    }
                }
            },
        }
    }

    /// Remove the bind stored under `key`, returning it.
    pub fn remove(&mut self, key: &str) -> (r: Option<Bind>)
        ensures
            match r {
                Some(b) => old(self).spec_get(key@) == Some(b@),
                None => old(self).spec_get(key@) is None && *final(self) == *old(self),
            },
            forall|k: Seq<char>| #[trigger] final(self).spec_get(k) == (if k == key@ {
                None
            } else {
                old(self).spec_get(k)
            }),
    {
        proof {
            use_type_invariant(&*self);
        }
        let ghost old_view = self.entries_view();
        proof {
            lemma_lookup_some(old_view, key@);
        }
        match self.position(key) {
            Some(i) => {
                proof {
                    lemma_lookup_at(old_view, i as int);
                }
                let mut entries: Vec<(String, Bind)> = Vec::new();
                std::mem::swap(&mut entries, &mut self.entries);
                let (_, b) = entries.remove(i);
                proof {
                    let nv = entries@.map_values(|e: (String, Bind)| entry_view(e));
                    assert(nv =~= old_view.remove(i as int));
                    assert(unique_keys(nv)) by {
                        assert forall|a: int, c: int| 0 <= a < c < nv.len()
                            implies #[trigger] nv[a].0 != #[trigger] nv[c].0 by {
                            let aa = if a < i { a } else { a + 1 };
                            let cc = if c < i { c } else { c + 1 };
                            assert(nv[a] == old_view[aa]);
                            assert(nv[c] == old_view[cc]);
                        }
                    }
                }
                self.entries = entries;
                proof {
                    assert forall|k: Seq<char>| #[trigger] self.spec_get(k) == (if k == key@ { None } else { lookup(old_view, k) }) by {
                        lemma_lookup_remove(old_view, i as int, k);
                    }
                }
                Some(b)
            },
            None => None,
        }
    }

    /// Remove every override.
    pub fn clear(&mut self)
        ensures
            forall|k: Seq<char>| #[trigger] final(self).spec_get(k) is None,
    {
        self.entries = Vec::new();
        assert(self.entries_view() =~= Seq::<(Seq<char>, BindView)>::empty());
    }

    /// An identical copy.
    pub fn duplicate(&self) -> (r: Overrides)
        ensures
            forall|k: Seq<char>| #[trigger] r.spec_get(k) == self.spec_get(k),
    {
        proof {
            use_type_invariant(self);
        }
        let entries = self.to_vec();
        proof {
            assert(entries@.map_values(|e: (String, Bind)| entry_view(e)) =~= self.entries_view());
        }
        Overrides { entries }
    }

    /// Copies of the stored `(key, bind)` entries, in insertion order.
    pub fn to_vec(&self) -> (r: Vec<(String, Bind)>)
        ensures
            r@.len() == self.entries_view().len(),
            forall|i: int| 0 <= i < r@.len() ==> entry_view(#[trigger] r@[i]) == self.entries_view()[i],
    {
        let mut out: Vec<(String, Bind)> = Vec::new();
        let mut i: usize = 0;
        while i < self.entries.len()
            invariant
                i <= self.entries@.len(),
                self.entries_view().len() == self.entries@.len(),
                forall|j: int| 0 <= j < self.entries@.len() ==> #[trigger] self.entries_view()[j] == entry_view(self.entries@[j]),
                out@.len() == i,
                forall|j: int| 0 <= j < i ==> entry_view(#[trigger] out@[j]) == self.entries_view()[j],
            decreases self.entries@.len() - i,
        {
            let e = &self.entries[i];
            out.push((e.0.clone(), e.1.duplicate()));
            i = i + 1;
        }
        out
    }
}

} // verus!
