//! The render cache: idempotence, digest invalidation, version
//! invalidation, and the whitelist side effect.

use paprika::{Config, KvStore, Post, PostContentCache};

fn cache_config() -> Config {
    Config {
        secret: "s3cr3t".to_string(),
        title: "A Blog".to_string(),
        lang: "en".to_string(),
        description: "about things".to_string(),
        plugin_identifier: "org.example.blog".to_string(),
        posts_per_page: 5,
        cache_maxage: 86400,
        preferred_url: None,
        extra_remote_proxy_whitelist: None,
        redirects: Vec::new(),
    }
}

fn cache_post(content: &str) -> Post {
    Post {
        uuid: "cafe-0001".to_string(),
        timestamp: 1_600_000_000,
        url: "cafe/x".to_string(),
        title: "T".to_string(),
        content: content.to_string(),
        theme_config: None,
    }
}

#[test]
fn find_or_render_is_idempotent() {
    let mut store = KvStore::new();
    let post = cache_post("# One\n\nBody text");
    let first = PostContentCache::find_or_render(&mut store, &post, "v1");
    let second = PostContentCache::find_or_render(&mut store, &post, "v1");
    assert_eq!(first.content, second.content);
    assert_eq!(first.summary, second.summary);
    assert_eq!(first.orig_digest, second.orig_digest);
    assert_eq!(first.version, second.version);
}

#[test]
fn second_read_hits_the_cache() {
    let mut store = KvStore::new();
    let post = cache_post("hello");
    let _ = PostContentCache::find_or_render(&mut store, &post, "v1");
    let hit = PostContentCache::find_by_post(&store, &post, "v1");
    assert!(hit.is_some());
}

#[test]
fn content_edit_invalidates_entry() {
    let mut store = KvStore::new();
    let before = cache_post("old words");
    let _ = PostContentCache::find_or_render(&mut store, &before, "v1");
    let after = cache_post("new words");
    assert!(PostContentCache::find_by_post(&store, &after, "v1").is_none());
    let fresh = PostContentCache::find_or_render(&mut store, &after, "v1");
    assert!(fresh.content.contains("new words"));
    assert!(!fresh.content.contains("old words"));
}

#[test]
fn version_bump_invalidates_entry() {
    let mut store = KvStore::new();
    let post = cache_post("same words");
    let v1 = PostContentCache::find_or_render(&mut store, &post, "v1");
    assert!(PostContentCache::find_by_post(&store, &post, "v2").is_none());
    let v2 = PostContentCache::find_or_render(&mut store, &post, "v2");
    assert_eq!(v1.content, v2.content);
    assert_eq!(v2.version, "v2");
}

#[test]
fn digest_is_a_fresh_forty_digit_hex() {
    let a = paprika::sha1("alpha");
    let b = paprika::sha1("beta");
    assert_eq!(a.len(), 40);
    assert_eq!(b.len(), 40);
    assert_ne!(a, b);
    assert_ne!(a, "alpha");
    assert!(a.chars().all(|c| c.is_ascii_digit() || ('a'..='f').contains(&c)));
    assert_eq!(a, paprika::sha1("alpha"));
}

#[test]
fn rendering_approves_external_images() {
    let mut store = KvStore::new();
    let config = cache_config();
    let url = "http://example.com/pic.png";
    let post = cache_post("![alt](http://example.com/pic.png)");
    assert!(!PostContentCache::is_external_url_whitelisted_for_cache(&config, &store, url));
    let _ = PostContentCache::find_or_render(&mut store, &post, "v1");
    assert!(PostContentCache::is_external_url_whitelisted_for_cache(&config, &store, url));
}

#[test]
fn deployment_whitelist_counts_too() {
    let store = KvStore::new();
    let mut config = cache_config();
    config.extra_remote_proxy_whitelist = Some(vec!["https://static.example".to_string()]);
    assert!(PostContentCache::is_external_url_whitelisted_for_cache(
        &config,
        &store,
        "https://static.example"
    ));
    assert!(!PostContentCache::is_external_url_whitelisted_for_cache(
        &config,
        &store,
        "https://other.example"
    ));
}

#[test]
fn delete_by_uuid_clears_the_entry() {
    let mut store = KvStore::new();
    let post = cache_post("words");
    let _ = PostContentCache::find_or_render(&mut store, &post, "v1");
    assert!(PostContentCache::delete_by_uuid(&mut store, "cafe-0001").is_ok());
    assert!(PostContentCache::find_by_post(&store, &post, "v1").is_none());
}
