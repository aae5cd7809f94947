//! Model of the key-value store that backs the blog.
//!
//! The backend offers single-key get and put only: no transactions, no
//! listing, no compare-and-swap.  The subsystem's state is therefore a
//! flat map from keys to records, and every operation below says
//! exactly which key it touches.  Keys are kept structured here; the
//! boundary spells them out as strings (`post_by_uuid_<uuid>` and so
//! on) and JSON-encodes the record under each.

use vstd::prelude::*;

use crate::blog::{CacheV, Post, PostContentCache, PostV};
use crate::text::str_eq;
use crate::utils::{Error, MyResult};

verus! {

/// A key of the store: one per document, one per URL-index entry, one
/// for the published list, one per render-cache entry and one per
/// whitelisted external resource.
pub enum StoreKey {
    PostByUuid(String),
    UrlMapping(String),
    PublishedList,
    ContentCache(String),
    CacheWhitelist(String),
}

/// The mathematical value of a `StoreKey`.
pub enum SKey {
    PostByUuid(Seq<char>),
    UrlMapping(Seq<char>),
    PublishedList,
    ContentCache(Seq<char>),
    CacheWhitelist(Seq<char>),
}

impl View for StoreKey {
    type V = SKey;

    open spec fn view(&self) -> SKey {
        match self {
            StoreKey::PostByUuid(u) => SKey::PostByUuid(u@),
            StoreKey::UrlMapping(u) => SKey::UrlMapping(u@),
            StoreKey::PublishedList => SKey::PublishedList,
            StoreKey::ContentCache(u) => SKey::ContentCache(u@),
            StoreKey::CacheWhitelist(u) => SKey::CacheWhitelist(u@),
        }
    }
}

/// A record of the store.  The backend stores strings; the records a
/// key can hold are modeled by their decoded shape, and a record whose
/// shape does not fit the key it sits under plays the part of a string
/// that fails to decode.
pub enum StoreVal {
    Text(String),
    List(Vec<String>),
    PostVal(Post),
    CacheVal(PostContentCache),
}

/// The mathematical value of a `StoreVal`.
#[verifier::ext_equal]
pub enum SVal {
    Text(Seq<char>),
    List(Seq<Seq<char>>),
    PostVal(PostV),
    CacheVal(CacheV),
}

impl View for StoreVal {
    type V = SVal;

    open spec fn view(&self) -> SVal {
        match self {
            StoreVal::Text(s) => SVal::Text(s@),
            StoreVal::List(v) => SVal::List(v.deep_view()),
            StoreVal::PostVal(p) => SVal::PostVal(p@),
            StoreVal::CacheVal(c) => SVal::CacheVal(c@),
        }
    }
}

/// Whether two keys denote the same record.
pub fn key_eq(a: &StoreKey, b: &StoreKey) -> (r: bool)
    ensures
        r == (a@ == b@),
{
    match (a, b) {
        (StoreKey::PostByUuid(x), StoreKey::PostByUuid(y)) => str_eq(x.as_str(), y.as_str()),
        (StoreKey::UrlMapping(x), StoreKey::UrlMapping(y)) => str_eq(x.as_str(), y.as_str()),
        (StoreKey::PublishedList, StoreKey::PublishedList) => true,
        (StoreKey::ContentCache(x), StoreKey::ContentCache(y)) => str_eq(x.as_str(), y.as_str()),
        (StoreKey::CacheWhitelist(x), StoreKey::CacheWhitelist(y)) => str_eq(
            x.as_str(),
            y.as_str(),
        ),
        _ => false,
    }
}

/// The map a sequence of key-record pairs denotes; a later pair with
/// the same key would win, though the store never keeps two.
pub open spec fn store_map(s: Seq<(StoreKey, StoreVal)>) -> Map<SKey, SVal>
    decreases s.len(),
{
    if s.len() == 0 {
        Map::empty()
    } else {
        store_map(s.drop_last()).insert(s.last().0@, s.last().1@)
    }
}

/// No two pairs carry the same key.
pub open spec fn distinct_keys(s: Seq<(StoreKey, StoreVal)>) -> bool {
    forall|i: int, j: int| 0 <= i < j < s.len() ==> s[i].0@ != s[j].0@
}

/// A key is in the denoted map exactly when some pair carries it.
pub proof fn lemma_store_map_contains(s: Seq<(StoreKey, StoreVal)>, k: SKey)
    ensures
        store_map(s).contains_key(k) <==> exists|i: int| 0 <= i < s.len() && s[i].0@ == k,
    decreases s.len(),
{
    if s.len() > 0 {
        lemma_store_map_contains(s.drop_last(), k);
        assert(forall|i: int| 0 <= i < s.len() - 1 ==> s.drop_last()[i] == s[i]);
        if s.last().0@ == k {
            assert(s[s.len() - 1].0@ == k);
        } else {
            if store_map(s).contains_key(k) {
                let i = choose|i: int| 0 <= i < s.drop_last().len() && s.drop_last()[i].0@ == k;
                assert(s[i].0@ == k);
            }
            if exists|i: int| 0 <= i < s.len() && s[i].0@ == k {
                let i = choose|i: int| 0 <= i < s.len() && s[i].0@ == k;
                assert(s.drop_last()[i].0@ == k);
            }
        }
    }
}

/// With distinct keys, the pair at `i` gives the value of its key.
pub proof fn lemma_store_map_index(s: Seq<(StoreKey, StoreVal)>, i: int)
    requires
        distinct_keys(s),
        0 <= i < s.len(),
    ensures
        store_map(s).contains_key(s[i].0@),
        store_map(s)[s[i].0@] == s[i].1@,
    decreases s.len(),
{
    if i < s.len() - 1 {
        assert(forall|x: int| 0 <= x < s.len() - 1 ==> s.drop_last()[x] == s[x]);
        lemma_store_map_index(s.drop_last(), i);
        assert(s[i].0@ != s.last().0@);
    }
}

/// Updating the pair that carries `e`'s key updates just that key.
pub proof fn lemma_store_map_update(s: Seq<(StoreKey, StoreVal)>, i: int, e: (StoreKey, StoreVal))
    requires
        distinct_keys(s),
        0 <= i < s.len(),
        s[i].0@ == e.0@,
    ensures
        distinct_keys(s.update(i, e)),
        store_map(s.update(i, e)) =~= store_map(s).insert(e.0@, e.1@),
    decreases s.len(),
{
    let s2 = s.update(i, e);
    assert(forall|x: int| 0 <= x < s.len() - 1 ==> s.drop_last()[x] == s[x]);
    assert(forall|x: int| 0 <= x < s2.len() - 1 ==> s2.drop_last()[x] == s2[x]);
    if i == s.len() - 1 {
        assert(s2.drop_last() =~= s.drop_last());
    } else {
        assert(s2.drop_last() =~= s.drop_last().update(i, e));
        lemma_store_map_update(s.drop_last(), i, e);
        assert(s.last().0@ != e.0@);
        assert(s2.last() == s.last());
    }
}

/// Removing the pair at `i` removes just its key from the map.
pub proof fn lemma_store_map_remove(s: Seq<(StoreKey, StoreVal)>, i: int)
    requires
        distinct_keys(s),
        0 <= i < s.len(),
    ensures
        distinct_keys(s.remove(i)),
        store_map(s.remove(i)) =~= store_map(s).remove(s[i].0@),
    decreases s.len(),
{
    let s2 = s.remove(i);
    assert(forall|x: int| 0 <= x < s.len() - 1 ==> s.drop_last()[x] == s[x]);
    assert(forall|x: int| 0 <= x < s2.len() ==> s2[x] == (if x < i {
        s[x]
    } else {
        s[x + 1]
    }));
    if i == s.len() - 1 {
        assert(s2 =~= s.drop_last());
        lemma_store_map_contains(s.drop_last(), s[i].0@);
        assert(!store_map(s.drop_last()).contains_key(s[i].0@));
    } else {
        assert(s2.drop_last() =~= s.drop_last().remove(i));
        lemma_store_map_remove(s.drop_last(), i);
        assert(s2.last() == s.last());
        assert(s.last().0@ != s[i].0@);
    }
}

/// The state of the backing store: a flat map from keys to records.
pub struct KvStore {
    entries: Vec<(StoreKey, StoreVal)>,
}

impl View for KvStore {
    type V = Map<SKey, SVal>;

    closed spec fn view(&self) -> Map<SKey, SVal> {
        store_map(self.entries@)
    }
}

impl KvStore {
    /// The store keeps one pair per key.
    pub closed spec fn wf(&self) -> bool {
        distinct_keys(self.entries@)
    }

    /// An empty store.
    pub fn new() -> (r: KvStore)
        ensures
            r.wf(),
            r@ == Map::<SKey, SVal>::empty(),
    {
        KvStore { entries: Vec::new() }
    }

    /// The position of the pair carrying `key`, if one does.
    fn find_index(&self, key: &StoreKey) -> (r: Option<usize>)
        ensures
            match r {
                Some(i) => i < self.entries@.len() && self.entries@[i as int].0@ == key@,
                None => forall|i: int|
                    0 <= i < self.entries@.len() ==> self.entries@[i].0@ != key@,
            },
    {
        let n = self.entries.len();
        let mut i: usize = 0;
        while i < n
            invariant
                0 <= i <= n,
                n == self.entries@.len(),
                forall|x: int| 0 <= x < i ==> self.entries@[x].0@ != key@,
            decreases n - i,
        {
            if key_eq(&self.entries[i].0, key) {
                return Some(i);
            }
            i += 1;
        }
        None
    }

    /// The record under `key`, if the store holds one.
    pub fn get(&self, key: &StoreKey) -> (r: Option<&StoreVal>)
        requires
            self.wf(),
        ensures
            match r {
                Some(v) => self@.contains_key(key@) && self@[key@] == v@,
                None => !self@.contains_key(key@),
            },
    {
        match self.find_index(key) {
            Some(i) => {
                proof {
                    lemma_store_map_index(self.entries@, i as int);
                }
                Some(&self.entries[i].1)
            },
            None => {
                proof {
                    lemma_store_map_contains(self.entries@, key@);
                }
                None
            },
        }
    }

    /// Store `val` under `key`, replacing what was there.
    pub fn put(&mut self, key: StoreKey, val: StoreVal)
        requires
            old(self).wf(),
        ensures
            final(self).wf(),
            final(self)@ == old(self)@.insert(key@, val@),
    {
        let ghost s0 = self.entries@;
        match self.find_index(&key) {
            Some(i) => {
                proof {
                    lemma_store_map_update(s0, i as int, (key, val));
                }
                self.entries.set(i, (key, val));
            },
            None => {
                proof {
                    lemma_store_map_contains(s0, key@);
                    assert(s0.push((key, val)).drop_last() =~= s0);
                    assert(distinct_keys(s0.push((key, val)))) by {
                        assert(forall|x: int|
                            0 <= x < s0.len() ==> s0.push((key, val))[x] == s0[x]);
                    }
                }
                self.entries.push((key, val));
            },
        }
    }

    /// Drop the record under `key`; absent keys are left alone.
    pub fn delete(&mut self, key: &StoreKey)
        requires
            old(self).wf(),
        ensures
            final(self).wf(),
            final(self)@ == old(self)@.remove(key@),
    {
        let ghost s0 = self.entries@;
        match self.find_index(key) {
            Some(i) => {
                proof {
                    lemma_store_map_remove(s0, i as int);
                }
                self.entries.remove(i);
            },
            None => {
                proof {
                    lemma_store_map_contains(s0, key@);
                    assert(store_map(s0) =~= store_map(s0).remove(key@));
                }
            },
        }
    }
}

/// The string under `key`.  The backend hands back an empty string for
/// an absent key rather than an error; a record of another shape plays
/// the part of a backend fault.
pub fn get_str(store: &KvStore, key: &StoreKey) -> (r: MyResult<String>)
    requires
        store.wf(),
    ensures
        match r {
            Ok(s) => if store@.contains_key(key@) {
                store@[key@] == SVal::Text(s@)
            } else {
                s@ == Seq::<char>::empty()
            },
            Err(e) => store@.contains_key(key@) && !(store@[key@] is Text) && e is InternalError,
        },
{
    match store.get(key) {
        None => Ok(String::new()),
        Some(StoreVal::Text(s)) => Ok(s.clone()),
        Some(_) => Err(Error::InternalError),
    }
}

/// The structured record under `key`; an absent key decodes to nothing
/// and surfaces as an internal fault, as a decode failure would.
pub fn get_obj<'a>(store: &'a KvStore, key: &StoreKey) -> (r: MyResult<&'a StoreVal>)
    requires
        store.wf(),
    ensures
        match r {
            Ok(v) => store@.contains_key(key@) && store@[key@] == v@,
            Err(e) => !store@.contains_key(key@) && e is InternalError,
        },
{
    match store.get(key) {
        Some(v) => Ok(v),
        None => Err(Error::InternalError),
    }
}

/// Store a plain string under `key`.
pub fn put_str(store: &mut KvStore, key: StoreKey, value: String) -> (r: MyResult<()>)
    requires
        old(store).wf(),
    ensures
        final(store).wf(),
        final(store)@ == old(store)@.insert(key@, SVal::Text(value@)),
        r is Ok,
{
    store.put(key, StoreVal::Text(value));
    Ok(())
}

/// Store a structured record under `key`.
pub fn put_obj(store: &mut KvStore, key: StoreKey, value: StoreVal) -> (r: MyResult<()>)
    requires
        old(store).wf(),
    ensures
        final(store).wf(),
        final(store)@ == old(store)@.insert(key@, value@),
        r is Ok,
{
    store.put(key, value);
    Ok(())
}

/// Store a structured record under `key`, asking the boundary to encode
/// it legibly: some records are meant for manual editing, such as the
/// published list when the author reorders posts by hand.  The stored
/// value is the same either way.
pub fn put_obj_pretty(store: &mut KvStore, key: StoreKey, value: StoreVal) -> (r: MyResult<()>)
    requires
        old(store).wf(),
    ensures
        final(store).wf(),
        final(store)@ == old(store)@.insert(key@, value@),
        r is Ok,
{
    store.put(key, value);
    Ok(())
}

} // verus!
