//! The authoring interface: custom metadata, publishing and deleting.
//!
//! A post arrives as a uuid, a title and a raw text.  The text may open
//! with a fenced JSON block of custom metadata; the block is cut out
//! here, decoded at the boundary, and its decoded fields come back as
//! plain values.  Publishing then updates the document, the URL index,
//! the published list and the render cache in a fixed order; partial
//! failure between the steps leaves a state that the next publish
//! repairs, which is the accepted cost of a backend without
//! transactions.

use vstd::prelude::*;

use crate::blog::{
    cache_valid,
    lemma_approve_other_keys,
    lemma_remove_all_gone,
    remove_all,
    spec_add_post,
    spec_resources,
    spec_find_or_render,
    spec_find_post,
    spec_load_list,
    spec_remove_post,
    spec_write_post,
    Post,
    PostContentCache,
    PostsList,
    PostV,
};
use crate::router::Router;
use crate::store::{KvStore, SKey, SVal};
use crate::text::{find_from, is_match_at, spec_find_from, sub_vec, to_chars, chars_to_string, str_eq};
use crate::utils::{spec_title_to_url, title_to_url, Config, Error, MyResult};

verus! {

/// Where the custom metadata block ends and what it holds: a text that
/// opens with a fenced JSON line yields the block between the fence
/// head and the first blank-line fence close, and the rest; any other
/// text is all rest.
pub open spec fn spec_split_metadata(t: Seq<char>) -> (Option<Seq<char>>, Seq<char>) {
    if !(t.len() >= 8 && t.take(8) == "```json\n"@) {
        (None, t)
    } else {
        match spec_find_from(t, "```\n\n"@, 0) {
            Some(p) => if p >= 8 {
                (Some(t.subrange(8, p)), t.skip(p + 5))
            } else {
                (None, t)
            },
            None => (None, t),
        }
    }
}

/// Cut a leading fenced JSON metadata block out of an article's text.
/// The block is returned verbatim for the boundary to decode; a text
/// without a complete block is handed back whole, so a half-written
/// fence cannot make an article public by accident.
pub fn parse_custom_metadata_from_content(text: String) -> (r: (Option<String>, String))
    ensures
        ({
            let (block, rest) = spec_split_metadata(text@);
            &&& match r.0 {
                Some(b) => block == Some(b@),
                None => block is None,
            }
            &&& r.1@ == rest
        }),
{
    proof {
        reveal_strlit("```json\n");
        reveal_strlit("```\n\n");
    }
    let cs = to_chars(text.as_str());
    let head = to_chars("```json\n");
    let n = cs.len();
    if n < 8 || !is_match_at(&cs, &head, 0) {
        proof {
            if n >= 8 {
                assert(cs@.subrange(0, 8) =~= cs@.take(8));
            }
        }
        return (None, text);
    }
    proof {
        assert(cs@.subrange(0, 8) =~= cs@.take(8));
    }
    let fence = to_chars("```\n\n");
    match find_from(&cs, &fence, 0) {
        Some(p) => {
            proof {
                crate::text::lemma_find_from_some(cs@, "```\n\n"@, 0);
            }
            if p >= 8 {
                let block = sub_vec(&cs, 8, p);
                let rest = sub_vec(&cs, p + 5, n);
                proof {
                    assert(cs@.subrange(p + 5, n as int) =~= cs@.skip(p + 5));
                }
                (Some(chars_to_string(&block)), chars_to_string(&rest))
            } else {
                (None, text)
            }
        },
        None => (None, text),
    }
}

/// The decoded custom metadata an author may put at the head of an
/// article.  `unlist` takes precedence over its alias `unlisted`; the
/// timestamp arrives already parsed to Unix seconds, date parsing
/// being the boundary's work.
pub struct CustomMetadata {
    pub unlist: Option<bool>,
    pub unlisted: Option<bool>,
    pub url: Option<String>,
    pub theme_config: Option<String>,
    pub timestamp: Option<u64>,
}

/// The effective metadata of a publish: defaults filled in from the
/// uuid, the title and the current time, with the custom values, where
/// given, taking over.
pub struct Metadata {
    pub unlist: bool,
    pub url: String,
    pub has_custom_url: bool,
    pub timestamp: u64,
    pub has_custom_timestamp: bool,
}

/// What `unlist` comes to: `unlist` if set, else `unlisted`, else
/// listed.
pub open spec fn spec_unlist(custom: Option<CustomMetadata>) -> bool {
    match custom {
        Some(c) => match c.unlist {
            Some(b) => b,
            None => match c.unlisted {
                Some(b) => b,
                None => false,
            },
        },
        None => false,
    }
}

/// The effective URL: the custom one if given, else derived from uuid
/// and title.
pub open spec fn spec_meta_url(
    custom: Option<CustomMetadata>,
    uuid: Seq<char>,
    title: Seq<char>,
) -> Seq<char> {
    match custom {
        Some(c) => match c.url {
            Some(u) => u@,
            None => spec_title_to_url(uuid, title),
        },
        None => spec_title_to_url(uuid, title),
    }
}

/// The effective timestamp: the custom one if given, else `now`.
pub open spec fn spec_meta_timestamp(custom: Option<CustomMetadata>, now: u64) -> u64 {
    match custom {
        Some(c) => match c.timestamp {
            Some(t) => t,
            None => now,
        },
        None => now,
    }
}

/// Fill the metadata for a publish from the custom block, falling back
/// to derived values.
pub fn build_metadata(custom: &Option<CustomMetadata>, uuid: &str, title: &str, now: u64) -> (r:
    Metadata)
    requires
        uuid@.len() >= 4,
    ensures
        r.unlist == spec_unlist(*custom),
        r.url@ == spec_meta_url(*custom, uuid@, title@),
        r.has_custom_url == (custom matches Some(c) && c.url is Some),
        r.timestamp == spec_meta_timestamp(*custom, now),
        r.has_custom_timestamp == (custom matches Some(c) && c.timestamp is Some),
{
    let mut ret = Metadata {
        unlist: false,
        url: title_to_url(uuid, title),
        has_custom_url: false,
        timestamp: now,
        has_custom_timestamp: false,
    };
    if let Some(custom) = custom {
        if let Some(unlist) = custom.unlist {
            ret.unlist = unlist;
        } else if let Some(unlisted) = custom.unlisted {
            ret.unlist = unlisted;
        }
        if let Some(url) = &custom.url {
            ret.url = url.clone();
            ret.has_custom_url = true;
        }
        if let Some(ts) = custom.timestamp {
            ret.timestamp = ts;
            ret.has_custom_timestamp = true;
        }
    }
    ret
}

/// Authorize a publish or delete call: no secret is a malformed
/// request, a wrong one is unauthorized.
pub fn check_secret(config: &Config, secret: Option<&str>) -> (r: MyResult<()>)
    ensures
        match r {
            Ok(()) => secret matches Some(s) && s@ == config.secret@,
            Err(e) => match secret {
                Some(s) => s@ != config.secret@ && e is Unauthorized,
                None => e is BadRequest,
            },
        },
{
    match secret {
        None => Err(Error::BadRequest(String::from_str("Secret needed"))),
        Some(s) => {
            if str_eq(s, config.secret.as_str()) {
                Ok(())
            } else {
                Err(Error::Unauthorized(String::from_str("Secret mismatch")))
            }
        },
    }
}

/// The document a publish stores: the stored post updated in place, or
/// a fresh one.  An existing post keeps its url and timestamp unless
/// the metadata carries custom ones.
pub open spec fn spec_published_post(
    m: Map<SKey, SVal>,
    uuid: Seq<char>,
    title: Seq<char>,
    text: Seq<char>,
    custom: Option<CustomMetadata>,
    now: u64,
) -> PostV {
    let theme = match custom {
        Some(c) => match c.theme_config {
            Some(t) => Some(t@),
            None => None,
        },
        None => None,
    };
    match spec_find_post(m, uuid) {
        Some(p) => PostV {
            uuid: p.uuid,
            timestamp: if custom matches Some(c) && c.timestamp is Some {
                spec_meta_timestamp(custom, now)
            } else {
                p.timestamp
            },
            url: if custom matches Some(c) && c.url is Some {
                spec_meta_url(custom, uuid, title)
            } else {
                p.url
            },
            title: title,
            content: text,
            theme_config: theme,
        },
        None => PostV {
            uuid: uuid,
            timestamp: spec_meta_timestamp(custom, now),
            url: spec_meta_url(custom, uuid, title),
            title: title,
            content: text,
            theme_config: theme,
        },
    }
}

/// The store after a publish: the published list gains or loses the
/// uuid as the metadata asks, the render cache is pre-warmed for the
/// new content, then the document and its URL index entry are written.
pub open spec fn spec_create_or_update(
    m: Map<SKey, SVal>,
    uuid: Seq<char>,
    title: Seq<char>,
    text: Seq<char>,
    custom: Option<CustomMetadata>,
    now: u64,
    ver: Seq<char>,
) -> Map<SKey, SVal> {
    let p = spec_published_post(m, uuid, title, text, custom, now);
    let m1 = if !spec_unlist(custom) {
        spec_add_post(m, spec_load_list(m), uuid)
    } else {
        spec_remove_post(m, spec_load_list(m), uuid)
    };
    let m2 = spec_find_or_render(m1, p, ver).1;
    spec_write_post(m2, p)
}

/// Publish an article, or re-publish an edited one.  `text` is the
/// article with the metadata block already cut off, `custom` that
/// block's decoded fields, `now` the current Unix seconds and
/// `version` the running pipeline's version tag.  The steps are not
/// atomic; each leaves a state the next publish repairs.
pub fn create_or_update_post(
    store: &mut KvStore,
    uuid: &str,
    title: &str,
    text: String,
    custom: Option<CustomMetadata>,
    now: u64,
    version: &str,
) -> (r: MyResult<()>)
    requires
        old(store).wf(),
        uuid@.len() >= 4,
    ensures
        final(store).wf(),
        r is Ok,
        final(store)@ == spec_create_or_update(
            old(store)@,
            uuid@,
            title@,
            text@,
            custom,
            now,
            version@,
        ),
{
    let metadata = build_metadata(&custom, uuid, title, now);
    let post = match Post::find_by_uuid(store, uuid) {
        Ok(p) => {
            let mut p = p;
            p.content = text;
            p.title = title.to_owned();
            p.theme_config = match &custom {
                Some(c) => match &c.theme_config {
                    Some(t) => Some(t.clone()),
                    None => None,
                },
                None => None,
            };
            if metadata.has_custom_url {
                p.url = metadata.url;
            }
            if metadata.has_custom_timestamp {
                p.timestamp = metadata.timestamp;
            }
            p
        },
        Err(_) => Post {
            uuid: uuid.to_owned(),
            timestamp: metadata.timestamp,
            url: metadata.url,
            title: title.to_owned(),
            content: text,
            theme_config: match &custom {
                Some(c) => match &c.theme_config {
                    Some(t) => Some(t.clone()),
                    None => None,
                },
                None => None,
            },
        },
    };
    let list = PostsList::load(store);
    let res = if !metadata.unlist {
        list.add_post(store, uuid)
    } else {
        list.remove_post(store, uuid)
    };
    match res {
        Ok(()) => {},
        Err(e) => {
            return Err(e);
        },
    }
    PostContentCache::find_or_render(store, &post, version);
    post.write_to_kv(store)
}

/// A publish that lists the post leaves the store consistent the way
/// the published list promises: the uuid stands on the list, and the
/// document it names exists.  The store must be well-keyed for the
/// uuid: a record found under it, if any, carries it.
pub proof fn lemma_publish_lists_and_stores(
    m: Map<SKey, SVal>,
    uuid: Seq<char>,
    title: Seq<char>,
    text: Seq<char>,
    custom: Option<CustomMetadata>,
    now: u64,
    ver: Seq<char>,
)
    requires
        !spec_unlist(custom),
        match spec_find_post(m, uuid) {
            Some(p0) => p0.uuid == uuid,
            None => true,
        },
    ensures
        ({
            let m2 = spec_create_or_update(m, uuid, title, text, custom, now, ver);
            &&& spec_load_list(m2).contains(uuid)
            &&& spec_find_post(m2, uuid) == Some(
                spec_published_post(m, uuid, title, text, custom, now),
            )
        }),
{
    let p = spec_published_post(m, uuid, title, text, custom, now);
    let l = spec_load_list(m);
    let m1 = spec_add_post(m, l, uuid);
    if !l.contains(uuid) {
        assert((seq![uuid] + l)[0] == uuid);
    }
    let mfr = spec_find_or_render(m1, p, ver).1;
    if cache_valid(m1, p, ver) is None {
        lemma_approve_other_keys(m1, spec_resources(p.content), SKey::PublishedList);
    }
    assert(spec_load_list(mfr) == spec_load_list(m1));
    assert(p.uuid == uuid);
}

/// The store after a delete: the uuid leaves the published list, then
/// the document and its cache entry go.  Stale URL index entries stay,
/// as lookups detect them.
pub open spec fn spec_delete_post(m: Map<SKey, SVal>, uuid: Seq<char>) -> Map<SKey, SVal> {
    spec_remove_post(m, spec_load_list(m), uuid).remove(SKey::PostByUuid(uuid)).remove(
        SKey::ContentCache(uuid),
    )
}

/// A delete leaves no trace a reader could see: the uuid is off the
/// published list and the document is gone.
pub proof fn lemma_delete_unlists_and_erases(m: Map<SKey, SVal>, uuid: Seq<char>)
    ensures
        ({
            let m2 = spec_delete_post(m, uuid);
            &&& !spec_load_list(m2).contains(uuid)
            &&& spec_find_post(m2, uuid) is None
        }),
{
    lemma_remove_all_gone(spec_load_list(m), uuid);
}

/// Unpublish and erase an article.
pub fn delete_post(store: &mut KvStore, uuid: &str) -> (r: MyResult<()>)
    requires
        old(store).wf(),
    ensures
        final(store).wf(),
        r is Ok,
        final(store)@ == spec_delete_post(old(store)@, uuid@),
{
    let list = PostsList::load(store);
    match list.remove_post(store, uuid) {
        Ok(()) => {},
        Err(e) => {
            return Err(e);
        },
    }
    match Post::delete_by_uuid(store, uuid) {
        Ok(()) => {},
        Err(e) => {
            return Err(e);
        },
    }
    PostContentCache::delete_by_uuid(store, uuid)
}

/// Register the authoring routes: discovery, publish, delete.
pub fn build_routes(router: &mut Router)
    ensures
        final(router)@ =~= old(router)@ + seq!["/actions"@, "/post"@, "/delete"@],
{
    router.add_route("/actions");
    router.add_route("/post");
    router.add_route("/delete");
    proof {
        assert(router@ =~= old(router)@ + seq!["/actions"@, "/post"@, "/delete"@]);
    }
}

/// How the authoring client is to invoke an action.
#[derive(Clone, Copy, PartialEq, Eq, Structural)]
pub enum Verb {
    Show,
    Post,
    Render,
}

impl Verb {
    /// The word the discovery document writes for this verb.
    pub fn as_str(&self) -> (r: &'static str)
        ensures
            r@ == match self {
                Verb::Show => "show"@,
                Verb::Post => "post"@,
                Verb::Render => "render"@,
            },
    {
        match self {
            Verb::Show => "show",
            Verb::Post => "post",
            Verb::Render => "render",
        }
    }
}

/// Where an action applies.
#[derive(Clone, Copy, PartialEq, Eq, Structural)]
pub enum Context {
    Item,
}

impl Context {
    /// The word the discovery document writes for this context.
    pub fn as_str(&self) -> (r: &'static str)
        ensures
            r@ == "Item"@,
    {
        "Item"
    }
}

/// The kinds of content the discovery protocol speaks of.
#[derive(Clone, Copy, PartialEq, Eq, Structural)]
pub enum ContentType {
    Note,
    Extension,
}

impl ContentType {
    /// The word the discovery document writes for this content type.
    pub fn as_str(&self) -> (r: &'static str)
        ensures
            r@ == match self {
                ContentType::Note => "Note"@,
                ContentType::Extension => "Extension"@,
            },
    {
        match self {
            ContentType::Note => "Note",
            ContentType::Extension => "Extension",
        }
    }
}

/// Whether an action reads the item decrypted or encrypted.
#[derive(Clone, Copy, PartialEq, Eq, Structural)]
pub enum AccessType {
    Decrypted,
    Encrypted,
}

impl AccessType {
    /// The word the discovery document writes for this access type.
    pub fn as_str(&self) -> (r: &'static str)
        ensures
            r@ == match self {
                AccessType::Decrypted => "decrypted"@,
                AccessType::Encrypted => "encrypted"@,
            },
    {
        match self {
            AccessType::Decrypted => "decrypted",
            AccessType::Encrypted => "encrypted",
        }
    }
}

/// One action the authoring client may offer on a note.
pub struct Action {
    pub label: String,
    pub url: String,
    pub verb: Verb,
    pub context: Context,
    pub content_types: Vec<ContentType>,
    pub access_type: Option<AccessType>,
}

/// The mathematical value of an `Action`.
#[verifier::ext_equal]
pub struct ActionV {
    pub label: Seq<char>,
    pub url: Seq<char>,
    pub verb: Verb,
    pub context: Context,
    pub content_types: Seq<ContentType>,
    pub access_type: Option<AccessType>,
}

impl DeepView for ContentType {
    type V = ContentType;

    open spec fn deep_view(&self) -> ContentType {
        *self
    }
}

impl View for Action {
    type V = ActionV;

    open spec fn view(&self) -> ActionV {
        ActionV {
            label: self.label@,
            url: self.url@,
            verb: self.verb,
            context: self.context,
            content_types: self.content_types.deep_view(),
            access_type: self.access_type,
        }
    }
}

impl DeepView for Action {
    type V = ActionV;

    open spec fn deep_view(&self) -> ActionV {
        self@
    }
}

/// The discovery document: what this deployment offers the authoring
/// client.
pub struct ActionsExtension {
    pub identifier: String,
    pub name: String,
    pub description: String,
    pub url: String,
    pub content_type: ContentType,
    pub supported_types: Vec<ContentType>,
    pub actions: Vec<Action>,
}

/// The mathematical value of an `ActionsExtension`.
#[verifier::ext_equal]
pub struct ActionsExtensionV {
    pub identifier: Seq<char>,
    pub name: Seq<char>,
    pub description: Seq<char>,
    pub url: Seq<char>,
    pub content_type: ContentType,
    pub supported_types: Seq<ContentType>,
    pub actions: Seq<ActionV>,
}

impl View for ActionsExtension {
    type V = ActionsExtensionV;

    open spec fn view(&self) -> ActionsExtensionV {
        ActionsExtensionV {
            identifier: self.identifier@,
            name: self.name@,
            description: self.description@,
            url: self.url@,
            content_type: self.content_type,
            supported_types: self.supported_types.deep_view(),
            actions: self.actions.deep_view(),
        }
    }
}

/// The note content an authoring call carries.
pub struct ActionsPostContent {
    pub title: String,
    pub text: String,
}

/// One item of an authoring call.
pub struct ActionsPostItem {
    pub uuid: String,
    pub content: ActionsPostContent,
}

/// The body of an authoring call.
pub struct ActionsPostData {
    pub items: Vec<ActionsPostItem>,
}

impl ActionsPostData {
    /// The item a publish or delete call acts on; a body without one
    /// is malformed.
    pub fn first_item(&self) -> (r: MyResult<&ActionsPostItem>)
        ensures
            match r {
                Ok(it) => self.items@.len() > 0 && it == &self.items@[0],
                Err(e) => self.items@.len() == 0 && e is BadRequest,
            },
    {
        if self.items.len() == 0 {
            Err(Error::BadRequest(String::from_str("At least one item must be supplied")))
        } else {
            Ok(&self.items[0])
        }
    }
}

/// The preferred public URL of the blog: the configured one, or the
/// origin the request came in on.
pub open spec fn spec_preferred(config: Config, origin: Seq<char>) -> Seq<char> {
    match config.preferred_url {
        Some(p) => p@,
        None => origin,
    }
}

/// The publish (or update) action.
pub open spec fn spec_publish_action(config: Config, origin: Seq<char>, exists: bool) -> ActionV {
    ActionV {
        label: if exists {
            "Update"@
        } else {
            "Publish"@
        },
        url: origin + "/post?secret="@ + config.secret@,
        verb: Verb::Post,
        context: Context::Item,
        content_types: seq![ContentType::Note],
        access_type: Some(AccessType::Decrypted),
    }
}

/// The delete action, offered only on an existing post.
pub open spec fn spec_delete_action(config: Config, origin: Seq<char>) -> ActionV {
    ActionV {
        label: "Delete"@,
        url: origin + "/delete?secret="@ + config.secret@,
        verb: Verb::Post,
        context: Context::Item,
        content_types: seq![ContentType::Note],
        access_type: Some(AccessType::Decrypted),
    }
}

/// The open-post action, offered only on an existing post.
pub open spec fn spec_open_post_action(config: Config, origin: Seq<char>, p: PostV) -> ActionV {
    ActionV {
        label: "Open Post"@,
        url: spec_preferred(config, origin) + "/"@ + p.url + "/"@,
        verb: Verb::Show,
        context: Context::Item,
        content_types: seq![ContentType::Note],
        access_type: None,
    }
}

/// The open-blog action, always offered.
pub open spec fn spec_open_blog_action(config: Config, origin: Seq<char>) -> ActionV {
    ActionV {
        label: "Open Blog"@,
        url: spec_preferred(config, origin),
        verb: Verb::Show,
        context: Context::Item,
        content_types: seq![ContentType::Note],
        access_type: None,
    }
}

/// The discovery document for a request from `origin` about a note
/// that resolves (or not) to a stored post: publish always; delete and
/// open only for an existing post; open-blog always.
pub open spec fn spec_get_actions(config: Config, origin: Seq<char>, post: Option<PostV>) -> ActionsExtensionV {
    ActionsExtensionV {
        identifier: config.plugin_identifier@,
        name: config.title@,
        description: "Standard Notes plugin for "@ + config.title@,
        url: origin + "/actions?secret="@ + config.secret@,
        content_type: ContentType::Extension,
        supported_types: seq![ContentType::Note],
        actions: match post {
            Some(p) => seq![
                spec_publish_action(config, origin, true),
                spec_delete_action(config, origin),
                spec_open_post_action(config, origin, p),
                spec_open_blog_action(config, origin),
            ],
            None => seq![
                spec_publish_action(config, origin, false),
                spec_open_blog_action(config, origin),
            ],
        },
    }
}

/// One vector holding just the note content type.
fn note_types() -> (r: Vec<ContentType>)
    ensures
        r.deep_view() =~= seq![ContentType::Note],
{
    let mut v: Vec<ContentType> = Vec::new();
    v.push(ContentType::Note);
    proof {
        assert(v.deep_view() =~= seq![ContentType::Note]);
    }
    v
}

/// Build the discovery document.  The post the note maps to, if any,
/// decides which actions appear; a note never yet published, or a
/// hidden one, still gets the publish action.
pub fn get_actions(config: &Config, store: &KvStore, origin: &str, item_uuid: Option<&str>) -> (r:
    ActionsExtension)
    requires
        store.wf(),
    ensures
        ({
            let found = match item_uuid {
                Some(u) => spec_find_post(store@, u@),
                None => None,
            };
            r@ =~~= spec_get_actions(*config, origin@, found)
        }),
{
    let post: Option<Post> = match item_uuid {
        Some(uuid) => match Post::find_by_uuid(store, uuid) {
            Ok(p) => Some(p),
            Err(_) => None,
        },
        None => None,
    };
    let preferred: String = match &config.preferred_url {
        Some(p) => p.clone(),
        None => origin.to_owned(),
    };
    let publish_label = if post.is_some() {
        "Update"
    } else {
        "Publish"
    };
    let mut actions: Vec<Action> = Vec::new();
    actions.push(
        Action {
            label: String::from_str(publish_label),
            url: origin.to_owned().concat("/post?secret=").concat(config.secret.as_str()),
            verb: Verb::Post,
            context: Context::Item,
            content_types: note_types(),
            access_type: Some(AccessType::Decrypted),
        },
    );
    if let Some(p) = &post {
        actions.push(
            Action {
                label: String::from_str("Delete"),
                url: origin.to_owned().concat("/delete?secret=").concat(config.secret.as_str()),
                verb: Verb::Post,
                context: Context::Item,
                content_types: note_types(),
                access_type: Some(AccessType::Decrypted),
            },
        );
        actions.push(
            Action {
                label: String::from_str("Open Post"),
                url: preferred.clone().concat("/").concat(p.url.as_str()).concat("/"),
                verb: Verb::Show,
                context: Context::Item,
                content_types: note_types(),
                access_type: None,
            },
        );
    }
    actions.push(
        Action {
            label: String::from_str("Open Blog"),
            url: preferred,
            verb: Verb::Show,
            context: Context::Item,
            content_types: note_types(),
            access_type: None,
        },
    );
    proof {
        let found = match item_uuid {
            Some(u) => spec_find_post(store@, u@),
            None => None,
        };
        let want = spec_get_actions(*config, origin@, found).actions;
        assert(actions@.len() == want.len());
        assert forall|j: int| 0 <= j < actions@.len() implies actions.deep_view()[j] =~~= want[j] by {
        }
        assert(actions.deep_view() =~~= want);
    }
    ActionsExtension {
        identifier: config.plugin_identifier.clone(),
        name: config.title.clone(),
        description: String::from_str("Standard Notes plugin for ").concat(config.title.as_str()),
        url: origin.to_owned().concat("/actions?secret=").concat(config.secret.as_str()),
        content_type: ContentType::Extension,
        supported_types: note_types(),
        actions,
    }
}

} // verus!
