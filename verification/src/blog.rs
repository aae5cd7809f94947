//! Documents, the published list and the render cache.
//!
//! Each part of the blog's state lives under its own record in the
//! key-value store; nothing is kept in one large record, so a write
//! touches only the keys it must.

use vstd::prelude::*;

use crate::store::{get_str, put_obj, put_obj_pretty, put_str, KvStore, SKey, StoreKey, StoreVal, SVal};
use crate::text::str_eq;
use crate::transform::{
    external_only,
    filter_external,
    md_html_of,
    md_image_urls,
    md_image_urls_of,
    md_to_html,
    split_summary,
    spec_transform_html,
    strip_divider_from,
    summary_of,
    transform_html,
};
use crate::utils::{sha1, sha1_hex_of, Error, MyResult};

verus! {

/// The published list as the store presents it: the record under its
/// key when that record is a list, and the empty list otherwise.  A
/// manual edit that no longer decodes degrades to an empty list rather
/// than an error.
pub open spec fn spec_load_list(m: Map<SKey, SVal>) -> Seq<Seq<char>> {
    if m.contains_key(SKey::PublishedList) {
        match m[SKey::PublishedList] {
            SVal::List(l) => l,
            _ => Seq::empty(),
        }
    } else {
        Seq::empty()
    }
}

/// The store after a uuid is added to the published list `l`: inserted
/// at the front when absent, untouched when already present.
pub open spec fn spec_add_post(m: Map<SKey, SVal>, l: Seq<Seq<char>>, u: Seq<char>) -> Map<
    SKey,
    SVal,
> {
    if l.contains(u) {
        m
    } else {
        m.insert(SKey::PublishedList, SVal::List(seq![u] + l))
    }
}

/// `l` with every occurrence of `u` removed, order otherwise kept.
pub open spec fn remove_all(l: Seq<Seq<char>>, u: Seq<char>) -> Seq<Seq<char>>
    decreases l.len(),
{
    if l.len() == 0 {
        Seq::empty()
    } else {
        remove_all(l.drop_last(), u) + (if l.last() == u {
            Seq::<Seq<char>>::empty()
        } else {
            seq![l.last()]
        })
    }
}

/// The store after a uuid is removed from the published list `l`; the
/// list is written back whole, the backend having no partial update.
pub open spec fn spec_remove_post(m: Map<SKey, SVal>, l: Seq<Seq<char>>, u: Seq<char>) -> Map<
    SKey,
    SVal,
> {
    m.insert(SKey::PublishedList, SVal::List(remove_all(l, u)))
}

/// The ordered index of publicly listed posts, newest first by
/// default.  The author may reorder it by editing the stored record;
/// the subsystem never re-sorts it.
pub struct PostsList(pub Vec<String>);

impl View for PostsList {
    type V = Seq<Seq<char>>;

    open spec fn view(&self) -> Seq<Seq<char>> {
        self.0.deep_view()
    }
}

impl PostsList {
    /// Read the published list; any record that is not a list loads as
    /// the empty list.
    pub fn load(store: &KvStore) -> (r: PostsList)
        requires
            store.wf(),
        ensures
            r@ == spec_load_list(store@),
    {
        match store.get(&StoreKey::PublishedList) {
            Some(StoreVal::List(v)) => {
                let n = v.len();
                let mut out: Vec<String> = Vec::new();
                let mut i: usize = 0;
                while i < n
                    invariant
                        0 <= i <= n,
                        n == v@.len(),
                        out@.len() == i,
                        forall|j: int| 0 <= j < i ==> out@[j] == v@[j],
                    decreases n - i,
                {
                    out.push(v[i].clone());
                    i += 1;
                }
                proof {
                    assert forall|j: int| 0 <= j < n implies out.deep_view()[j]
                        == v.deep_view()[j] by {
                        assert(out@[j] == v@[j]);
                    }
                    assert(out.deep_view() =~= v.deep_view());
                }
                PostsList(out)
            },
            _ => PostsList(Vec::new()),
        }
    }

    /// Whether `uuid` is on the list.
    pub fn has_post(&self, uuid: &str) -> (r: bool)
        ensures
            r == self@.contains(uuid@),
    {
        let n = self.0.len();
        let mut i: usize = 0;
        while i < n
            invariant
                0 <= i <= n,
                n == self.0@.len(),
                forall|j: int| 0 <= j < i ==> self@[j] != uuid@,
            decreases n - i,
        {
            if str_eq(self.0[i].as_str(), uuid) {
                proof {
                    assert(self@[i as int] == uuid@);
                }
                return true;
            }
            i += 1;
        }
        false
    }

    /// Put `uuid` at the front of the list unless already present, and
    /// persist the result.  Consumes the list: this is the last step of
    /// a publish.
    pub fn add_post(self, store: &mut KvStore, uuid: &str) -> (r: MyResult<()>)
        requires
            old(store).wf(),
        ensures
            final(store).wf(),
            r is Ok,
            final(store)@ == spec_add_post(old(store)@, self@, uuid@),
    {
        if self.has_post(uuid) {
            return Ok(());
        }
        let ghost l0 = self@;
        let PostsList(mut v) = self;
        let ghost pre = v;
        v.insert(0, uuid.to_owned());
        proof {
            assert forall|j: int| 0 <= j < v.deep_view().len() implies v.deep_view()[j] == (seq![
                uuid@,
            ] + l0)[j] by {
                if j == 0 {
                    assert(v@[0]@ == uuid@);
                } else {
                    assert(v@[j] == pre@[j - 1]);
                }
            }
            assert(v.deep_view() =~= seq![uuid@] + l0);
        }
        put_obj_pretty(store, StoreKey::PublishedList, StoreVal::List(v))
    }

    /// Strike every occurrence of `uuid` from the list and persist the
    /// result; an absent uuid leaves the list as it was.  The operation
    /// never errors.
    pub fn remove_post(self, store: &mut KvStore, uuid: &str) -> (r: MyResult<()>)
        requires
            old(store).wf(),
        ensures
            final(store).wf(),
            r is Ok,
            final(store)@ == spec_remove_post(old(store)@, self@, uuid@),
    {
        let n = self.0.len();
        let mut out: Vec<String> = Vec::new();
        let mut i: usize = 0;
        while i < n
            invariant
                0 <= i <= n,
                n == self.0@.len(),
                out.deep_view() == remove_all(self@.take(i as int), uuid@),
            decreases n - i,
        {
            proof {
                assert(self@.take(i + 1).drop_last() =~= self@.take(i as int));
                assert(self@.take(i + 1).last() == self@[i as int]);
            }
            if !str_eq(self.0[i].as_str(), uuid) {
                let ghost pre = out;
                out.push(self.0[i].clone());
                proof {
                    assert(self@[i as int] != uuid@);
                    assert forall|j: int| 0 <= j < out.deep_view().len() implies out.deep_view()[j]
                        == (pre.deep_view() + seq![self@[i as int]])[j] by {
                        if j < pre@.len() {
                            assert(out@[j] == pre@[j]);
                        } else {
                            assert(out@[j] == self.0@[i as int]);
                        }
                    }
                    assert(out.deep_view() =~= pre.deep_view() + seq![self@[i as int]]);
                    assert(out.deep_view() =~= remove_all(self@.take(i + 1), uuid@));
                }
            } else {
                proof {
                    assert(self@[i as int] == uuid@);
                    assert(out.deep_view() =~= remove_all(self@.take(i + 1), uuid@));
                }
            }
            i += 1;
        }
        proof {
            assert(self@.take(n as int) =~= self@);
        }
        put_obj_pretty(store, StoreKey::PublishedList, StoreVal::List(out))
    }
}

/// Adding a uuid to the published list read from the store, twice,
/// leaves the same store as adding it once: the second add finds the
/// uuid present and changes nothing.
pub proof fn lemma_add_post_idempotent(m: Map<SKey, SVal>, u: Seq<char>)
    ensures
        ({
            let m1 = spec_add_post(m, spec_load_list(m), u);
            let m2 = spec_add_post(m1, spec_load_list(m1), u);
            m2 == m1
        }),
{
    let l = spec_load_list(m);
    if !l.contains(u) {
        let m1 = spec_add_post(m, l, u);
        assert(spec_load_list(m1) == seq![u] + l);
        assert((seq![u] + l)[0] == u);
        assert(spec_load_list(m1).contains(u));
    }
}

/// Removing `u` never changes the other entries, so removing an absent
/// uuid is a no-op on the published list as observed through a load.
pub proof fn lemma_remove_all_absent(l: Seq<Seq<char>>, u: Seq<char>)
    requires
        !l.contains(u),
    ensures
        remove_all(l, u) == l,
    decreases l.len(),
{
    if l.len() > 0 {
        assert(forall|j: int| 0 <= j < l.len() - 1 ==> l.drop_last()[j] == l[j]);
        assert(!l.drop_last().contains(u)) by {
            if l.drop_last().contains(u) {
                let j = choose|j: int| 0 <= j < l.drop_last().len() && l.drop_last()[j] == u;
                assert(l[j] == u);
            }
        }
        lemma_remove_all_absent(l.drop_last(), u);
        assert(l.last() != u);
        assert(remove_all(l, u) =~= l);
    } else {
        assert(remove_all(l, u) =~= l);
    }
}

/// Removing an absent uuid from the list read from the store leaves the
/// published list, as observed through a load, exactly as it was.
pub proof fn lemma_remove_absent_noop(m: Map<SKey, SVal>, u: Seq<char>)
    requires
        !spec_load_list(m).contains(u),
    ensures
        spec_load_list(spec_remove_post(m, spec_load_list(m), u)) == spec_load_list(m),
{
    lemma_remove_all_absent(spec_load_list(m), u);
}

/// One blog article.  Identity is `uuid`; `url` is a mutable secondary
/// attribute resolved through the URL index.  `content` keeps the raw
/// Markdown source, so the rendering pipeline can change without losing
/// anything.  `theme_config` is an opaque blob of structured data that
/// only the theme interprets; it is carried through untouched.
pub struct Post {
    pub uuid: String,
    /// Unix timestamp in seconds.
    pub timestamp: u64,
    /// Path of the post relative to the root of the site.
    pub url: String,
    pub title: String,
    /// Raw Markdown source, the authoritative form of the article.
    pub content: String,
    pub theme_config: Option<String>,
}

/// The mathematical value of a `Post`.
#[verifier::ext_equal]
pub struct PostV {
    pub uuid: Seq<char>,
    pub timestamp: u64,
    pub url: Seq<char>,
    pub title: Seq<char>,
    pub content: Seq<char>,
    pub theme_config: Option<Seq<char>>,
}

impl View for Post {
    type V = PostV;

    open spec fn view(&self) -> PostV {
        PostV {
            uuid: self.uuid@,
            timestamp: self.timestamp,
            url: self.url@,
            title: self.title@,
            content: self.content@,
            theme_config: match self.theme_config {
                Some(ref s) => Some(s@),
                None => None,
            },
        }
    }
}

impl Post {
    /// An owned copy of this post, equal to it in value.
    pub fn duplicate(&self) -> (r: Post)
        ensures
            r@ == self@,
    {
        Post {
            uuid: self.uuid.clone(),
            timestamp: self.timestamp,
            url: self.url.clone(),
            title: self.title.clone(),
            content: self.content.clone(),
            theme_config: match self.theme_config {
                Some(ref s) => Some(s.clone()),
                None => None,
            },
        }
    }
}

/// The document stored under `u`'s key, when that record is a post.
pub open spec fn spec_find_post(m: Map<SKey, SVal>, u: Seq<char>) -> Option<PostV> {
    if m.contains_key(SKey::PostByUuid(u)) {
        match m[SKey::PostByUuid(u)] {
            SVal::PostVal(p) => Some(p),
            _ => None,
        }
    } else {
        None
    }
}

/// The uuid the URL index maps `url` to: an absent entry reads as the
/// empty uuid, and a record of another shape as a backend fault.
pub open spec fn spec_mapping(m: Map<SKey, SVal>, url: Seq<char>) -> Option<Seq<char>> {
    if m.contains_key(SKey::UrlMapping(url)) {
        match m[SKey::UrlMapping(url)] {
            SVal::Text(u) => Some(u),
            _ => None,
        }
    } else {
        Some(Seq::empty())
    }
}

/// The document a URL lookup resolves to: through the index, then by
/// uuid.  The document's own `url` may differ from the one asked for;
/// the caller must compare them and treat a mismatch as "moved".
pub open spec fn spec_find_by_url_ok(m: Map<SKey, SVal>, url: Seq<char>) -> Option<PostV> {
    match spec_mapping(m, url) {
        Some(u) => spec_find_post(m, u),
        None => None,
    }
}

/// The store after a document is written: the URL index entry for its
/// current `url` is (re)written unconditionally, then the document
/// itself.  The published list and the render cache are left to the
/// caller.
pub open spec fn spec_write_post(m: Map<SKey, SVal>, p: PostV) -> Map<SKey, SVal> {
    m.insert(SKey::UrlMapping(p.url), SVal::Text(p.uuid)).insert(
        SKey::PostByUuid(p.uuid),
        SVal::PostVal(p),
    )
}

impl Post {
    /// The store key of the document with this uuid.
    fn uuid_to_post_key(uuid: &str) -> (r: StoreKey)
        ensures
            r@ == SKey::PostByUuid(uuid@),
    {
        StoreKey::PostByUuid(uuid.to_owned())
    }

    /// The store key of the URL index entry for `url`.
    fn url_to_mapping_key(url: &str) -> (r: StoreKey)
        ensures
            r@ == SKey::UrlMapping(url@),
    {
        StoreKey::UrlMapping(url.to_owned())
    }

    /// Point the URL index entry for `url` at `uuid`.
    fn create_url_mapping(store: &mut KvStore, url: &str, uuid: &str) -> (r: MyResult<()>)
        requires
            old(store).wf(),
        ensures
            final(store).wf(),
            r is Ok,
            final(store)@ == old(store)@.insert(SKey::UrlMapping(url@), SVal::Text(uuid@)),
    {
        put_str(store, Self::url_to_mapping_key(url), uuid.to_owned())
    }

    /// The document with this uuid, or `NotFound`.  Whether a post is
    /// also publicly listed is the published list's affair, not this
    /// lookup's: an unlisted post is still found here.
    pub fn find_by_uuid(store: &KvStore, uuid: &str) -> (r: MyResult<Post>)
        requires
            store.wf(),
        ensures
            match r {
                Ok(p) => spec_find_post(store@, uuid@) == Some(p@),
                Err(e) => spec_find_post(store@, uuid@) is None && e is NotFound,
            },
    {
        match store.get(&Self::uuid_to_post_key(uuid)) {
            Some(StoreVal::PostVal(p)) => Ok(p.duplicate()),
            _ => Err(Error::NotFound(String::from_str("no document under this uuid"))),
        }
    }

    /// The document the URL index resolves `url` to.  The result's own
    /// `url` can differ from the one asked for when the document moved;
    /// the caller compares the two and reports "moved" rather than
    /// "found".
    pub fn find_by_url(store: &KvStore, url: &str) -> (r: MyResult<Post>)
        requires
            store.wf(),
        ensures
            match r {
                Ok(p) => spec_find_by_url_ok(store@, url@) == Some(p@),
                Err(e) => spec_find_by_url_ok(store@, url@) is None && match spec_mapping(
                    store@,
                    url@,
                ) {
                    Some(_) => e is NotFound,
                    None => e is InternalError,
                },
            },
    {
        let uuid = match get_str(store, &Self::url_to_mapping_key(url)) {
            Ok(u) => u,
            Err(e) => {
                return Err(e);
            },
        };
        Self::find_by_uuid(store, uuid.as_str())
    }

    /// Write the document and its URL index entry.  The caller keeps
    /// the published list and the render cache consistent, explicitly,
    /// right after.
    pub fn write_to_kv(self, store: &mut KvStore) -> (r: MyResult<()>)
        requires
            old(store).wf(),
        ensures
            final(store).wf(),
            r is Ok,
            final(store)@ == spec_write_post(old(store)@, self@),
    {
        match Self::create_url_mapping(store, self.url.as_str(), self.uuid.as_str()) {
            Ok(()) => {},
            Err(e) => {
                return Err(e);
            },
        }
        let key = Self::uuid_to_post_key(self.uuid.as_str());
        put_obj(store, key, StoreVal::PostVal(self))
    }

    /// Drop the document record alone.  Stale URL index entries stay
    /// behind on purpose: lookups resolve through the document and
    /// detect them.  The published list and cache are the caller's to
    /// clean.
    pub fn delete_by_uuid(store: &mut KvStore, uuid: &str) -> (r: MyResult<()>)
        requires
            old(store).wf(),
        ensures
            final(store).wf(),
            r is Ok,
            final(store)@ == old(store)@.remove(SKey::PostByUuid(uuid@)),
    {
        store.delete(&Self::uuid_to_post_key(uuid));
        Ok(())
    }
}

/// After a document is published under one URL and re-published under
/// another, both URLs still resolve to the document: the old one
/// through its stale index entry, whose mismatch with the document's
/// current `url` tells the caller to redirect, and the new one exactly.
pub proof fn lemma_url_change_resolves(m: Map<SKey, SVal>, p1: PostV, p2: PostV)
    requires
        p2.uuid == p1.uuid,
        p2.url != p1.url,
    ensures
        ({
            let m2 = spec_write_post(spec_write_post(m, p1), p2);
            &&& spec_find_by_url_ok(m2, p1.url) == Some(p2)
            &&& spec_find_by_url_ok(m2, p2.url) == Some(p2)
            &&& p2.url != p1.url
        }),
{
}

/// The rendered form of one post, memoized in the store.  The entry is
/// only trusted while `version` matches the running pipeline's version
/// tag and `orig_digest` matches a fresh digest of the post's raw
/// content; on any mismatch it is treated as absent and re-derived.
pub struct PostContentCache {
    pub uuid: String,
    /// Version tag of the pipeline that produced this entry.
    pub version: String,
    /// Digest of the raw Markdown this entry was rendered from.
    pub orig_digest: String,
    /// The rendered HTML up to the summary divider, or all of it when
    /// the divider does not occur.
    pub summary: String,
    /// The full rendered HTML.
    pub content: String,
}

/// The mathematical value of a cache entry.
#[verifier::ext_equal]
pub struct CacheV {
    pub uuid: Seq<char>,
    pub version: Seq<char>,
    pub orig_digest: Seq<char>,
    pub summary: Seq<char>,
    pub content: Seq<char>,
}

impl View for PostContentCache {
    type V = CacheV;

    open spec fn view(&self) -> CacheV {
        CacheV {
            uuid: self.uuid@,
            version: self.version@,
            orig_digest: self.orig_digest@,
            summary: self.summary@,
            content: self.content@,
        }
    }
}

/// The cache entry stored under `u`'s key, when that record is one.
pub open spec fn spec_cache_lookup(m: Map<SKey, SVal>, u: Seq<char>) -> Option<CacheV> {
    if m.contains_key(SKey::ContentCache(u)) {
        match m[SKey::ContentCache(u)] {
            SVal::CacheVal(c) => Some(c),
            _ => None,
        }
    } else {
        None
    }
}

/// The stored entry for `p`, provided it is valid: its version must
/// match the running pipeline's tag and its digest a fresh digest of
/// `p`'s content.  Any mismatch reads as absent, never as an error.
pub open spec fn cache_valid(m: Map<SKey, SVal>, p: PostV, ver: Seq<char>) -> Option<CacheV> {
    match spec_cache_lookup(m, p.uuid) {
        Some(c) => if c.version == ver && c.orig_digest == sha1_hex_of(p.content) {
            Some(c)
        } else {
            None
        },
        None => None,
    }
}

/// The full rendered HTML of a Markdown source: serialized by the
/// engine, edited by the three HTML passes, divider struck out.
pub open spec fn spec_rendered_content(c: Seq<char>) -> Seq<char> {
    strip_divider_from(spec_transform_html(md_html_of(c)), 0)
}

/// The summary: the same document cut at the first divider.
pub open spec fn spec_rendered_summary(c: Seq<char>) -> Seq<char> {
    summary_of(spec_transform_html(md_html_of(c)))
}

/// The cache entry a fresh render of `p` produces under version `ver`.
pub open spec fn spec_render(p: PostV, ver: Seq<char>) -> CacheV {
    CacheV {
        uuid: p.uuid,
        version: ver,
        orig_digest: sha1_hex_of(p.content),
        summary: spec_rendered_summary(p.content),
        content: spec_rendered_content(p.content),
    }
}

/// The external resources a render of content `c` asks to approve.
pub open spec fn spec_resources(c: Seq<char>) -> Seq<Seq<char>> {
    external_only(md_image_urls_of(c))
}

/// The store after the resources `us` are marked approved.
pub open spec fn spec_approve(m: Map<SKey, SVal>, us: Seq<Seq<char>>) -> Map<SKey, SVal>
    decreases us.len(),
{
    if us.len() == 0 {
        m
    } else {
        spec_approve(m, us.drop_last()).insert(SKey::CacheWhitelist(us.last()), SVal::Text("Y"@))
    }
}

/// What a cache-through read does: a valid entry is returned and the
/// store left alone; otherwise a fresh render is returned, its
/// resources approved and the entry saved.
pub open spec fn spec_find_or_render(m: Map<SKey, SVal>, p: PostV, ver: Seq<char>) -> (CacheV, Map<
    SKey,
    SVal,
>) {
    match cache_valid(m, p, ver) {
        Some(c) => (c, m),
        None => {
            let c = spec_render(p, ver);
            (
                c,
                spec_approve(m, spec_resources(p.content)).insert(
                    SKey::ContentCache(p.uuid),
                    SVal::CacheVal(c),
                ),
            )
        },
    }
}

/// Whether the proxy may fetch `url`: approved at deployment time in
/// the static allow-list, or marked approved in the store.
pub open spec fn spec_whitelisted(
    extra: Option<Vec<String>>,
    m: Map<SKey, SVal>,
    url: Seq<char>,
) -> bool {
    ||| match extra {
        Some(l) => l.deep_view().contains(url),
        None => false,
    }
    ||| (m.contains_key(SKey::CacheWhitelist(url)) && m[SKey::CacheWhitelist(url)] == SVal::Text(
        "Y"@,
    ))
}

impl PostContentCache {
    /// An owned copy of this cache entry, equal to it in value.
    pub fn duplicate(&self) -> (r: PostContentCache)
        ensures
            r@ == self@,
    {
        PostContentCache {
            uuid: self.uuid.clone(),
            version: self.version.clone(),
            orig_digest: self.orig_digest.clone(),
            summary: self.summary.clone(),
            content: self.content.clone(),
        }
    }

    /// The store key of the cache entry for this uuid.
    fn uuid_to_cache_key(uuid: &str) -> (r: StoreKey)
        ensures
            r@ == SKey::ContentCache(uuid@),
    {
        StoreKey::ContentCache(uuid.to_owned())
    }

    /// The store key of the whitelist marker for this URL.
    fn url_to_cache_whitelist_key(url: &str) -> (r: StoreKey)
        ensures
            r@ == SKey::CacheWhitelist(url@),
    {
        StoreKey::CacheWhitelist(url.to_owned())
    }

    /// The sole authorization check the image proxy performs before
    /// fetching a remote resource; everything not approved is refused,
    /// so the proxy cannot be used as an open relay.
    pub fn is_external_url_whitelisted_for_cache(
        config: &crate::utils::Config,
        store: &KvStore,
        url: &str,
    ) -> (r: bool)
        requires
            store.wf(),
        ensures
            r == spec_whitelisted(config.extra_remote_proxy_whitelist, store@, url@),
    {
        if let Some(list) = &config.extra_remote_proxy_whitelist {
            let n = list.len();
            let mut i: usize = 0;
            while i < n
                invariant
                    0 <= i <= n,
                    n == list@.len(),
                    config.extra_remote_proxy_whitelist == Some(*list),
                    forall|j: int| 0 <= j < i ==> list.deep_view()[j] != url@,
                decreases n - i,
            {
                if str_eq(list[i].as_str(), url) {
                    proof {
                        assert(list.deep_view()[i as int] == url@);
                        assert(list.deep_view().contains(url@));
                    }
                    return true;
                }
                i += 1;
            }
            proof {
                assert(!list.deep_view().contains(url@)) by {
                    if list.deep_view().contains(url@) {
                        let j = choose|j: int|
                            0 <= j < list.deep_view().len() && list.deep_view()[j] == url@;
                        assert(list.deep_view()[j] != url@);
                    }
                }
            }
        }
        let key = Self::url_to_cache_whitelist_key(url);
        match get_str(store, &key) {
            Ok(s) => {
                let marked = str_eq(s.as_str(), "Y");
                proof {
                    reveal_strlit("Y");
                    assert("Y"@.len() == 1);
                    if marked {
                        assert(s@ == "Y"@);
                        assert(store@.contains_key(SKey::CacheWhitelist(url@)));
                        assert(store@[SKey::CacheWhitelist(url@)] == SVal::Text("Y"@));
                    }
                }
                marked
            },
            Err(_) => false,
        }
    }

    /// The raw cache record for a uuid, whatever its validity.
    fn find_by_uuid(store: &KvStore, uuid: &str) -> (r: MyResult<PostContentCache>)
        requires
            store.wf(),
        ensures
            match r {
                Ok(c) => spec_cache_lookup(store@, uuid@) == Some(c@),
                Err(_) => spec_cache_lookup(store@, uuid@) is None,
            },
    {
        match store.get(&Self::uuid_to_cache_key(uuid)) {
            Some(StoreVal::CacheVal(c)) => Ok(c.duplicate()),
            _ => Err(Error::InternalError),
        }
    }

    /// The cached rendering of `post`, if a valid one is stored; a
    /// missing, out-of-version or out-of-digest entry reads as absent.
    pub fn find_by_post(store: &KvStore, post: &Post, version: &str) -> (r: Option<
        PostContentCache,
    >)
        requires
            store.wf(),
        ensures
            match r {
                Some(c) => cache_valid(store@, post@, version@) == Some(c@),
                None => cache_valid(store@, post@, version@) is None,
            },
    {
        let cache = match Self::find_by_uuid(store, post.uuid.as_str()) {
            Ok(c) => c,
            Err(_) => {
                return None;
            },
        };
        if !str_eq(cache.version.as_str(), version) {
            return None;
        }
        let digest = sha1(post.content.as_str());
        if !str_eq(cache.orig_digest.as_str(), digest.as_str()) {
            return None;
        }
        Some(cache)
    }

    /// Render `post` afresh: the entry to keep, and the external
    /// resources to approve.  The caller performs those writes; the
    /// render itself touches nothing.
    pub fn render(post: &Post, version: &str) -> (r: (PostContentCache, Vec<String>))
        ensures
            r.0@ == spec_render(post@, version@),
            r.1.deep_view() == spec_resources(post@.content),
    {
        let html = md_to_html(post.content.as_str());
        let edited = transform_html(html);
        let cs = crate::text::to_chars(edited.as_str());
        let (summary, content) = split_summary(&cs);
        let cache = PostContentCache {
            uuid: post.uuid.clone(),
            version: version.to_owned(),
            orig_digest: sha1(post.content.as_str()),
            summary: crate::text::chars_to_string(&summary),
            content: crate::text::chars_to_string(&content),
        };
        let urls = md_image_urls(post.content.as_str());
        let resources = filter_external(&urls);
        (cache, resources)
    }

    /// Persist this entry under its uuid's cache key.
    pub fn save(&self, store: &mut KvStore) -> (r: MyResult<()>)
        requires
            old(store).wf(),
        ensures
            final(store).wf(),
            r is Ok,
            final(store)@ == old(store)@.insert(
                SKey::ContentCache(self.uuid@),
                SVal::CacheVal(self@),
            ),
    {
        let key = Self::uuid_to_cache_key(self.uuid.as_str());
        put_obj(store, key, StoreVal::CacheVal(self.duplicate()))
    }

    /// Mark each rendered resource approved for proxying.  These are
    /// the explicit writes standing in for the render's side effects;
    /// each is best-effort and none can fail the render.
    pub fn approve_resources(store: &mut KvStore, resources: &Vec<String>)
        requires
            old(store).wf(),
        ensures
            final(store).wf(),
            final(store)@ == spec_approve(old(store)@, resources.deep_view()),
    {
        let n = resources.len();
        let mut i: usize = 0;
        while i < n
            invariant
                0 <= i <= n,
                n == resources@.len(),
                store.wf(),
                store@ == spec_approve(old(store)@, resources.deep_view().take(i as int)),
            decreases n - i,
        {
            proof {
                assert(resources.deep_view().take(i + 1).drop_last() =~= resources.deep_view().take(
                    i as int,
                ));
                assert(resources.deep_view().take(i + 1).last() == resources@[i as int]@);
            }
            let key = Self::url_to_cache_whitelist_key(resources[i].as_str());
            let marker = String::from_str("Y");
            match put_str(store, key, marker) {
                Ok(()) => {},
                Err(_) => {},
            }
            i += 1;
        }
        proof {
            assert(resources.deep_view().take(n as int) =~= resources.deep_view());
        }
    }

    /// The cache-through read the rest of the system uses: a valid
    /// entry if one is stored, else a fresh render whose resources are
    /// approved and whose entry is saved.  A save failure would be
    /// swallowed: the entry is always re-derivable.
    pub fn find_or_render(store: &mut KvStore, post: &Post, version: &str) -> (r: PostContentCache)
        requires
            old(store).wf(),
        ensures
            final(store).wf(),
            r@ == spec_find_or_render(old(store)@, post@, version@).0,
            final(store)@ == spec_find_or_render(old(store)@, post@, version@).1,
    {
        match Self::find_by_post(store, post, version) {
            Some(c) => c,
            None => {
                let (cache, resources) = Self::render(post, version);
                Self::approve_resources(store, &resources);
                match cache.save(store) {
                    Ok(()) => {},
                    Err(_) => {},
                }
                cache
            },
        }
    }

    /// Drop the cache entry for a uuid: the explicit invalidation that
    /// goes with deleting a document.
    pub fn delete_by_uuid(store: &mut KvStore, uuid: &str) -> (r: MyResult<()>)
        requires
            old(store).wf(),
        ensures
            final(store).wf(),
            r is Ok,
            final(store)@ == old(store)@.remove(SKey::ContentCache(uuid@)),
    {
        store.delete(&Self::uuid_to_cache_key(uuid));
        Ok(())
    }
}

/// Approving resources only writes whitelist markers: every other kind
/// of key keeps exactly the record it had.
pub proof fn lemma_approve_other_keys(m: Map<SKey, SVal>, us: Seq<Seq<char>>, k: SKey)
    requires
        !(k is CacheWhitelist),
    ensures
        spec_approve(m, us).contains_key(k) == m.contains_key(k),
        m.contains_key(k) ==> spec_approve(m, us)[k] == m[k],
    decreases us.len(),
{
    if us.len() > 0 {
        lemma_approve_other_keys(m, us.drop_last(), k);
    }
}

/// A uuid never survives its own removal from a list.
pub proof fn lemma_remove_all_gone(l: Seq<Seq<char>>, u: Seq<char>)
    ensures
        !remove_all(l, u).contains(u),
    decreases l.len(),
{
    if l.len() > 0 {
        lemma_remove_all_gone(l.drop_last(), u);
        let r = remove_all(l, u);
        let prefix = remove_all(l.drop_last(), u);
        if r.contains(u) {
            let j = choose|j: int| 0 <= j < r.len() && r[j] == u;
            if j < prefix.len() {
                assert(prefix[j] == u);
            }
        }
    }
}

/// A cache-through read is idempotent: read twice with the document
/// unchanged, the second call returns the identical entry, content and
/// summary byte for byte, and leaves the store untouched.
pub proof fn lemma_find_or_render_idempotent(m: Map<SKey, SVal>, p: PostV, ver: Seq<char>)
    ensures
        ({
            let (c1, m1) = spec_find_or_render(m, p, ver);
            let (c2, m2) = spec_find_or_render(m1, p, ver);
            c2 == c1 && m2 == m1
        }),
{
    let (c1, m1) = spec_find_or_render(m, p, ver);
    if cache_valid(m, p, ver) is None {
        assert(m1[SKey::ContentCache(p.uuid)] == SVal::CacheVal(c1));
        assert(cache_valid(m1, p, ver) == Some(c1));
    }
}

/// An edit that changes the content's digest invalidates the entry:
/// whatever was stored for the document before, a cache-through read
/// after the edit renders afresh and never returns a stale entry.
pub proof fn lemma_edit_invalidates(m: Map<SKey, SVal>, p1: PostV, p2: PostV, ver: Seq<char>)
    requires
        p2.uuid == p1.uuid,
        sha1_hex_of(p2.content) != sha1_hex_of(p1.content),
    ensures
        ({
            let m1 = spec_find_or_render(m, p1, ver).1;
            &&& cache_valid(m1, p2, ver) is None
            &&& spec_find_or_render(m1, p2, ver).0 == spec_render(p2, ver)
        }),
{
    let m1 = spec_find_or_render(m, p1, ver).1;
    match cache_valid(m, p1, ver) {
        Some(c) => {
            assert(c.orig_digest == sha1_hex_of(p1.content));
        },
        None => {
            assert(m1[SKey::ContentCache(p2.uuid)] == SVal::CacheVal(spec_render(p1, ver)));
        },
    }
}

/// Bumping the pipeline version invalidates every entry, digest match
/// or not: under a new tag, a cache-through read for any document whose
/// stored entry carries another tag renders afresh.
pub proof fn lemma_version_bump_invalidates(m: Map<SKey, SVal>, p: PostV, ver2: Seq<char>)
    requires
        match spec_cache_lookup(m, p.uuid) {
            Some(c) => c.version != ver2,
            None => true,
        },
    ensures
        cache_valid(m, p, ver2) is None,
        spec_find_or_render(m, p, ver2).0 == spec_render(p, ver2),
{
}

} // verus!
