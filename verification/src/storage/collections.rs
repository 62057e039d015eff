//! The hash collections of `hashbrown` that the in-memory chat storage is
//! built from.
//!
//! `hashbrown`'s map and set types carry an allocator parameter whose trait
//! is not reachable from the crate's public API, so the types cannot be
//! declared here themselves; each collection that the storage uses is held
//! in a private field of a type of this module instead. What each
//! holds is named by a spec function, and every method below states what
//! the `hashbrown` method that it calls does to those contents and
//! returns. Iteration order is unspecified by `hashbrown` (its default
//! hasher is seeded per process), so the methods that list contents state
//! only which items come out, each once.

use vstd::prelude::*;

use crate::storage::chat_storage::{Group, GroupView};
use crate::text::views;

verus! {

/// A `hashbrown::HashSet<String>`.
#[verifier::external_body]
pub struct StringSet {
    inner: hashbrown::HashSet<String>,
}

/// The strings that a `StringSet` holds.
pub uninterp spec fn string_set_contents(s: StringSet) -> Set<Seq<char>>;

impl StringSet {
    /// `HashSet::new`: an empty set.
    #[verifier::external_body]
    pub(crate) fn new() -> (r: StringSet)
        ensures
            string_set_contents(r) == Set::<Seq<char>>::empty(),
    {
        StringSet { inner: hashbrown::HashSet::new() }
    }

    /// `HashSet::insert`: adds `v`; true when it was not there before.
    #[verifier::external_body]
    pub(crate) fn insert(&mut self, v: String) -> (r: bool)
        ensures
            string_set_contents(*final(self)) == string_set_contents(*old(self)).insert(v@),
            r == !string_set_contents(*old(self)).contains(v@),
    {
        self.inner.insert(v)
    }

    /// `HashSet::remove`: removes `v`; true when it was there.
    #[verifier::external_body]
    pub(crate) fn remove(&mut self, v: &str) -> (r: bool)
        ensures
            string_set_contents(*final(self)) == string_set_contents(*old(self)).remove(v@),
            r == string_set_contents(*old(self)).contains(v@),
    {
        self.inner.remove(v)
    }

    /// `HashSet::contains`.
    #[verifier::external_body]
    pub(crate) fn contains(&self, v: &str) -> (r: bool)
        ensures
            r == string_set_contents(*self).contains(v@),
    {
        self.inner.contains(v)
    }

    /// `HashSet::len`: the number of strings held.
    #[verifier::external_body]
    pub(crate) fn len(&self) -> (r: usize)
        ensures
            r == string_set_contents(*self).len(),
    {
        self.inner.len()
    }

    /// `HashSet::is_empty`.
    #[verifier::external_body]
    pub(crate) fn is_empty(&self) -> (r: bool)
        ensures
            r == (string_set_contents(*self) == Set::<Seq<char>>::empty()),
    {
        self.inner.is_empty()
    }

    /// `HashSet::iter`, each string cloned: every string held, once, in
    /// an unspecified order.
    #[verifier::external_body]
    pub(crate) fn to_vec(&self) -> (r: Vec<String>)
        ensures
            views(r@).no_duplicates() && views(r@).to_set() == string_set_contents(*self),
    {
        self.inner.iter().cloned().collect()
    }
}

/// A `hashbrown::HashMap<String, HashSet<String>>`.
#[verifier::external_body]
pub struct StringSetMap {
    inner: hashbrown::HashMap<String, StringSet>,
}

/// What a `StringSetMap` holds: each key with the strings of its set.
pub uninterp spec fn string_set_map_contents(m: StringSetMap) -> Map<Seq<char>, Set<Seq<char>>>;

impl StringSetMap {
    /// `HashMap::new`: an empty map.
    #[verifier::external_body]
    pub(crate) fn new() -> (r: StringSetMap)
        ensures
            string_set_map_contents(r).dom() == Set::<Seq<char>>::empty(),
    {
        StringSetMap { inner: hashbrown::HashMap::new() }
    }

    /// `HashMap::len`: the number of keys.
    #[verifier::external_body]
    pub(crate) fn len(&self) -> (r: usize)
        ensures
            r == string_set_map_contents(*self).dom().len(),
    {
        self.inner.len()
    }

    /// `HashMap::is_empty`.
    #[verifier::external_body]
    pub(crate) fn is_empty(&self) -> (r: bool)
        ensures
            r == (string_set_map_contents(*self).dom() == Set::<Seq<char>>::empty()),
    {
        self.inner.is_empty()
    }

    /// `HashMap::contains_key`.
    #[verifier::external_body]
    pub(crate) fn contains_key(&self, k: &str) -> (r: bool)
        ensures
            r == string_set_map_contents(*self).contains_key(k@),
    {
        self.inner.contains_key(k)
    }

    /// `HashMap::get`: the set stored under `k`, if any.
    #[verifier::external_body]
    pub(crate) fn get(&self, k: &str) -> (r: Option<&StringSet>)
        ensures
            match r {
                Some(s) => string_set_map_contents(*self).contains_key(k@) && string_set_contents(
                    *s,
                ) == string_set_map_contents(*self)[k@],
                None => !string_set_map_contents(*self).contains_key(k@),
            },
    {
        self.inner.get(k)
    }

    /// `HashMap::remove`: takes out the set stored under `k`, if any.
    #[verifier::external_body]
    pub(crate) fn take(&mut self, k: &str) -> (r: Option<StringSet>)
        ensures
            string_set_map_contents(*final(self)) == string_set_map_contents(*old(self)).remove(
                k@,
            ),
            match r {
                Some(s) => string_set_map_contents(*old(self)).contains_key(k@)
                    && string_set_contents(s) == string_set_map_contents(*old(self))[k@],
                None => !string_set_map_contents(*old(self)).contains_key(k@),
            },
    {
        self.inner.remove(k)
    }

    /// `HashMap::insert`: stores `v` under `k`.
    #[verifier::external_body]
    pub(crate) fn put(&mut self, k: String, v: StringSet)
        ensures
            string_set_map_contents(*final(self)) == string_set_map_contents(*old(self)).insert(
                k@,
                string_set_contents(v),
            ),
    {
        self.inner.insert(k, v);
    }

    /// `HashMap::keys`, each key cloned: every key, once, in an
    /// unspecified order.
    #[verifier::external_body]
    pub(crate) fn keys(&self) -> (r: Vec<String>)
        ensures
            views(r@).no_duplicates() && views(r@).to_set() == string_set_map_contents(
                *self,
            ).dom(),
    {
        self.inner.keys().cloned().collect()
    }
}

/// A `hashbrown::HashMap<i64, Group>`.
#[verifier::external_body]
pub struct GroupMap {
    inner: hashbrown::HashMap<i64, Group>,
}

/// What a `GroupMap` holds: each chat id with the view of its group.
pub uninterp spec fn group_map_contents(m: GroupMap) -> Map<i64, GroupView>;

impl GroupMap {
    /// `HashMap::new`: an empty map.
    #[verifier::external_body]
    pub(crate) fn new() -> (r: GroupMap)
        ensures
            group_map_contents(r).dom() == Set::<i64>::empty(),
    {
        GroupMap { inner: hashbrown::HashMap::new() }
    }

    /// `HashMap::len`: the number of chats.
    #[verifier::external_body]
    pub(crate) fn len(&self) -> (r: usize)
        ensures
            r == group_map_contents(*self).dom().len(),
    {
        self.inner.len()
    }

    /// `HashMap::get`: the group stored under `k`, if any.
    #[verifier::external_body]
    pub(crate) fn get(&self, k: i64) -> (r: Option<&Group>)
        ensures
            match r {
                Some(g) => group_map_contents(*self).contains_key(k) && g.view()
                    == group_map_contents(*self)[k],
                None => !group_map_contents(*self).contains_key(k),
            },
    {
        self.inner.get(&k)
    }

    /// `HashMap::remove`: takes out the group stored under `k`, if any.
    #[verifier::external_body]
    pub(crate) fn take(&mut self, k: i64) -> (r: Option<Group>)
        ensures
            group_map_contents(*final(self)) == group_map_contents(*old(self)).remove(k),
            match r {
                Some(g) => group_map_contents(*old(self)).contains_key(k) && g.view()
                    == group_map_contents(*old(self))[k],
                None => !group_map_contents(*old(self)).contains_key(k),
            },
    {
        self.inner.remove(&k)
    }

    /// `HashMap::insert`: stores `g` under `k`.
    #[verifier::external_body]
    pub(crate) fn put(&mut self, k: i64, g: Group)
        ensures
            group_map_contents(*final(self)) == group_map_contents(*old(self)).insert(
                k,
                g.view(),
            ),
    {
        self.inner.insert(k, g);
    }

    /// `HashMap::keys`, copied: every chat id, once, in an unspecified
    /// order.
    #[verifier::external_body]
    pub(crate) fn keys(&self) -> (r: Vec<i64>)
        ensures
            r@.no_duplicates() && r@.to_set() == group_map_contents(*self).dom(),
    {
        self.inner.keys().copied().collect()
    }
}

/// A `hashbrown::HashSet<i32>`.
#[verifier::external_body]
pub struct IdSet {
    inner: hashbrown::HashSet<i32>,
}

/// The ids that an `IdSet` holds.
pub uninterp spec fn id_set_contents(s: IdSet) -> Set<i32>;

impl IdSet {
    /// `HashSet::new`: an empty set.
    #[verifier::external_body]
    pub(crate) fn new() -> (r: IdSet)
        ensures
            id_set_contents(r) == Set::<i32>::empty(),
    {
        IdSet { inner: hashbrown::HashSet::new() }
    }

    /// `HashSet::insert`: adds `v`.
    #[verifier::external_body]
    pub(crate) fn insert(&mut self, v: i32) -> (r: bool)
        ensures
            id_set_contents(*final(self)) == id_set_contents(*old(self)).insert(v),
            r == !id_set_contents(*old(self)).contains(v),
    {
        self.inner.insert(v)
    }

    /// `HashSet::remove`: removes `v`.
    #[verifier::external_body]
    pub(crate) fn remove(&mut self, v: i32) -> (r: bool)
        ensures
            id_set_contents(*final(self)) == id_set_contents(*old(self)).remove(v),
            r == id_set_contents(*old(self)).contains(v),
    {
        self.inner.remove(&v)
    }

    /// `HashSet::contains`.
    #[verifier::external_body]
    pub(crate) fn contains(&self, v: i32) -> (r: bool)
        ensures
            r == id_set_contents(*self).contains(v),
    {
        self.inner.contains(&v)
    }

    /// `HashSet::is_empty`.
    #[verifier::external_body]
    pub(crate) fn is_empty(&self) -> (r: bool)
        ensures
            r == (id_set_contents(*self) == Set::<i32>::empty()),
    {
        self.inner.is_empty()
    }
}

/// A `hashbrown::HashMap<i64, HashSet<i32>>`.
#[verifier::external_body]
pub struct IdSetMap {
    inner: hashbrown::HashMap<i64, IdSet>,
}

/// What an `IdSetMap` holds: each chat id with the ids of its set.
pub uninterp spec fn id_set_map_contents(m: IdSetMap) -> Map<i64, Set<i32>>;

impl IdSetMap {
    /// `HashMap::new`: an empty map.
    #[verifier::external_body]
    pub(crate) fn new() -> (r: IdSetMap)
        ensures
            id_set_map_contents(r).dom() == Set::<i64>::empty(),
    {
        IdSetMap { inner: hashbrown::HashMap::new() }
    }

    /// `HashMap::get`: the set stored under `k`, if any.
    #[verifier::external_body]
    pub(crate) fn get(&self, k: i64) -> (r: Option<&IdSet>)
        ensures
            match r {
                Some(s) => id_set_map_contents(*self).contains_key(k) && id_set_contents(*s)
                    == id_set_map_contents(*self)[k],
                None => !id_set_map_contents(*self).contains_key(k),
            },
    {
        self.inner.get(&k)
    }

    /// `HashMap::remove`: takes out the set stored under `k`, if any.
    #[verifier::external_body]
    pub(crate) fn take(&mut self, k: i64) -> (r: Option<IdSet>)
        ensures
            id_set_map_contents(*final(self)) == id_set_map_contents(*old(self)).remove(k),
            match r {
                Some(s) => id_set_map_contents(*old(self)).contains_key(k) && id_set_contents(s)
                    == id_set_map_contents(*old(self))[k],
                None => !id_set_map_contents(*old(self)).contains_key(k),
            },
    {
        self.inner.remove(&k)
    }

    /// `HashMap::insert`: stores `s` under `k`.
    #[verifier::external_body]
    pub(crate) fn put(&mut self, k: i64, s: IdSet)
        ensures
            id_set_map_contents(*final(self)) == id_set_map_contents(*old(self)).insert(
                k,
                id_set_contents(s),
            ),
    {
        self.inner.insert(k, s);
    }
}

} // verus!
