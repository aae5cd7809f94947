//! Content store and render-cache subsystem of a single-author blog.
//!
//! Documents live in a flat key-value store together with a URL index,
//! an ordered list of published posts, a cache of rendered HTML and an
//! allow-list of external resources approved for proxying.  This crate
//! holds the rules that keep those records mutually consistent, and the
//! Markdown-to-HTML pipeline whose output the cache memoizes.  The
//! boundary around it does the I/O: it moves records between this
//! crate's store model and the real backend, runs the templates, and
//! speaks HTTP.

use vstd::prelude::*;

mod blog;
mod hljs;
mod render;
mod router;
mod sn;
mod store;
mod text;
mod transform;
mod utils;

pub use blog::{
    cache_valid,
    lemma_add_post_idempotent,
    lemma_approve_other_keys,
    lemma_edit_invalidates,
    lemma_find_or_render_idempotent,
    lemma_remove_absent_noop,
    lemma_remove_all_gone,
    lemma_url_change_resolves,
    lemma_version_bump_invalidates,
    remove_all,
    spec_add_post,
    spec_approve,
    spec_cache_lookup,
    spec_find_by_url_ok,
    spec_find_or_render,
    spec_find_post,
    spec_load_list,
    spec_mapping,
    spec_remove_post,
    spec_render,
    spec_rendered_content,
    spec_rendered_summary,
    spec_resources,
    spec_whitelisted,
    spec_write_post,
    CacheV,
    Post,
    PostContentCache,
    PostsList,
    PostV,
};
pub use hljs::{highlight, highlight_auto, html_escape, spec_html_escape};
pub use render::{
    paginate,
    render_homepage,
    render_post,
    spec_paginate,
    spec_parse_int,
    HomePageData,
    HomePagePost,
    Pagination,
    PostPageData,
};
pub use router::{route_matches, spec_dispatch, Router};
pub use sn::{
    build_metadata,
    get_actions,
    spec_get_actions,
    AccessType,
    Action,
    ActionsExtension,
    ActionsPostContent,
    ActionsPostData,
    ActionsPostItem,
    ActionV,
    ActionsExtensionV,
    ContentType,
    Context,
    Verb,
    check_secret,
    create_or_update_post,
    delete_post,
    lemma_delete_unlists_and_erases,
    lemma_publish_lists_and_stores,
    parse_custom_metadata_from_content,
    spec_create_or_update,
    spec_delete_post,
    spec_meta_timestamp,
    spec_meta_url,
    spec_published_post,
    spec_split_metadata,
    spec_unlist,
    CustomMetadata,
    Metadata,
};
pub use store::{
    get_obj,
    get_str,
    put_obj,
    put_obj_pretty,
    put_str,
    KvStore,
    SKey,
    StoreKey,
    StoreVal,
    SVal,
};
pub use text::str_eq;
pub use transform::{
    img_cache_prefix,
    md_to_html,
    percent_decode,
    percent_encode,
    rewrite_image_url,
    spec_percent_decode,
    spec_percent_encode,
    spec_rewrite_image_url,
    spec_transform_html,
    summary_of,
    transform_html,
    IMG_CACHE_PREFIX,
    SUMMARY_DIVIDER,
};
pub use utils::{
    filter_non_ascii_alphanumeric,
    sha1,
    sha1_hex_of,
    spec_title_to_url,
    title_to_url,
    Config,
    Error,
    MyResult,
};

use crate::text::{is_match_at, sub_vec, to_chars};

verus! {

/// The routes the system serves, in the order they take precedence:
/// the image proxy, the three authoring actions, theme files and the
/// feed.  Whatever none of them matches falls to `default_route`.
pub fn build_routes() -> (r: Router)
    ensures
        r@ =~= seq![
            "/imgcache/"@,
            "/actions"@,
            "/post"@,
            "/delete"@,
            "/static/"@,
            "/feed.xml"@,
        ],
{
    let mut router = Router::new();
    router.add_route(IMG_CACHE_PREFIX);
    sn::build_routes(&mut router);
    render::build_routes(&mut router);
    proof {
        reveal_strlit("/imgcache/");
    }
    router
}

/// Decide whether the image proxy may serve `path`: the path must
/// carry the proxy prefix, decode to a URL, and that URL must be
/// approved.  Only an approved URL is handed back for fetching, so the
/// proxy cannot be turned into an open relay.
pub fn proxy_remote_image(config: &Config, store: &KvStore, path: &str) -> (r: MyResult<String>)
    requires
        store.wf(),
    ensures
        ({
            let has_prefix = path@.len() >= 10 && path@.take(10) == img_cache_prefix();
            match r {
                Ok(u) => {
                    &&& has_prefix
                    &&& spec_percent_decode(path@.skip(10)) == Some(u@)
                    &&& spec_whitelisted(config.extra_remote_proxy_whitelist, store@, u@)
                },
                Err(e) => if !has_prefix {
                    e is BadRequest
                } else {
                    match spec_percent_decode(path@.skip(10)) {
                        Some(u) => !spec_whitelisted(
                            config.extra_remote_proxy_whitelist,
                            store@,
                            u,
                        ) && e is Unauthorized,
                        None => e is InternalError,
                    }
                },
            }
        }),
{
    proof {
        reveal_strlit("/imgcache/");
    }
    let cs = to_chars(path);
    let n = cs.len();
    let prefix = to_chars(IMG_CACHE_PREFIX);
    if n < 10 || !is_match_at(&cs, &prefix, 0) {
        proof {
            if n >= 10 {
                assert(cs@.subrange(0, 10) =~= cs@.take(10));
            }
        }
        return Err(Error::BadRequest(String::from_str("not a proxy path")));
    }
    proof {
        assert(cs@.subrange(0, 10) =~= cs@.take(10));
    }
    let rest = sub_vec(&cs, 10, n);
    proof {
        assert(rest@ =~= path@.skip(10));
    }
    let encoded = crate::text::chars_to_string(&rest);
    let remote_url = match percent_decode(encoded.as_str()) {
        Some(u) => u,
        None => {
            return Err(Error::InternalError);
        },
    };
    if !PostContentCache::is_external_url_whitelisted_for_cache(
        config,
        store,
        remote_url.as_str(),
    ) {
        return Err(Error::Unauthorized(String::from_str("This URL is not whitelisted")));
    }
    Ok(remote_url)
}

/// The hard-coded redirect `path` is sent to, if the configuration
/// names one: the first matching entry wins.
pub open spec fn spec_redirect_lookup(rs: Seq<(String, String)>, path: Seq<char>) -> Option<
    Seq<char>,
>
    decreases rs.len(),
{
    if rs.len() == 0 {
        None
    } else if rs.first().0@ == path {
        Some(rs.first().1@)
    } else {
        spec_redirect_lookup(rs.drop_first(), path)
    }
}

/// What the catch-all route decides to do with a pathname.
pub enum RouteOutcome {
    /// Send the client to this path for good.
    Redirect301(String),
    /// Send the client to this path for now.
    Redirect302(String),
    /// Show the front page.
    Homepage,
    /// Show this document's page.
    ShowPost(Post),
    /// Nothing lives here.
    Missing,
}

/// The mathematical value of a `RouteOutcome`.
pub enum RouteOutcomeV {
    Redirect301(Seq<char>),
    Redirect302(Seq<char>),
    Homepage,
    ShowPost(PostV),
    Missing,
}

impl View for RouteOutcome {
    type V = RouteOutcomeV;

    open spec fn view(&self) -> RouteOutcomeV {
        match self {
            RouteOutcome::Redirect301(t) => RouteOutcomeV::Redirect301(t@),
            RouteOutcome::Redirect302(t) => RouteOutcomeV::Redirect302(t@),
            RouteOutcome::Homepage => RouteOutcomeV::Homepage,
            RouteOutcome::ShowPost(p) => RouteOutcomeV::ShowPost(p@),
            RouteOutcome::Missing => RouteOutcomeV::Missing,
        }
    }
}

/// What the catch-all route does: a configured redirect first; then a
/// normalizing redirect onto the `/`-terminated form; the front page
/// for `/`; else the path without its slashes is resolved as a post
/// URL, a stale index entry redirecting to the document's current URL.
pub open spec fn spec_default_route(
    rs: Seq<(String, String)>,
    m: Map<SKey, SVal>,
    path: Seq<char>,
) -> RouteOutcomeV {
    match spec_redirect_lookup(rs, path) {
        Some(t) => RouteOutcomeV::Redirect301(t),
        None => if !(path.len() >= 1 && path.last() == '/') {
            RouteOutcomeV::Redirect302(path + "/"@)
        } else if path == "/"@ {
            RouteOutcomeV::Homepage
        } else {
            let inner = path.subrange(1, path.len() - 1);
            match spec_find_by_url_ok(m, inner) {
                Some(p) => if p.url != inner {
                    RouteOutcomeV::Redirect301("/"@ + p.url + "/"@)
                } else {
                    RouteOutcomeV::ShowPost(p)
                },
                None => RouteOutcomeV::Missing,
            }
        },
    }
}

/// Decide the catch-all route for `path`.  The redirect targets are
/// site-relative; the boundary prepends the origin.
pub fn default_route(config: &Config, store: &KvStore, path: &str) -> (r: RouteOutcome)
    requires
        store.wf(),
    ensures
        r@ == spec_default_route(config.redirects@, store@, path@),
{
    let nredir = config.redirects.len();
    let mut i: usize = 0;
    proof {
        assert(config.redirects@.skip(0) =~= config.redirects@);
    }
    while i < nredir
        invariant
            0 <= i <= nredir,
            nredir == config.redirects@.len(),
            spec_redirect_lookup(config.redirects@, path@) == spec_redirect_lookup(
                config.redirects@.skip(i as int),
                path@,
            ),
        decreases nredir - i,
    {
        proof {
            assert(config.redirects@.skip(i as int).first() == config.redirects@[i as int]);
            assert(config.redirects@.skip(i as int).drop_first() =~= config.redirects@.skip(i + 1));
        }
        if str_eq(config.redirects[i].0.as_str(), path) {
            return RouteOutcome::Redirect301(config.redirects[i].1.clone());
        }
        i += 1;
    }
    proof {
        assert(config.redirects@.skip(nredir as int) =~= Seq::<(String, String)>::empty());
    }
    let cs = to_chars(path);
    let n = cs.len();
    if n == 0 || cs[n - 1] != '/' {
        return RouteOutcome::Redirect302(path.to_owned().concat("/"));
    }
    if str_eq(path, "/") {
        return RouteOutcome::Homepage;
    }
    proof {
        reveal_strlit("/");
        if n == 1 {
            assert(cs@ =~= "/"@);
        }
    }
    let inner = sub_vec(&cs, 1, n - 1);
    let inner_str = crate::text::chars_to_string(&inner);
    match Post::find_by_url(store, inner_str.as_str()) {
        Ok(post) => {
            if !str_eq(post.url.as_str(), inner_str.as_str()) {
                let target = String::from_str("/").concat(post.url.as_str()).concat("/");
                RouteOutcome::Redirect301(target)
            } else {
                RouteOutcome::ShowPost(post)
            }
        },
        Err(_) => RouteOutcome::Missing,
    }
}

} // verus!
