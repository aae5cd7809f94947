//! The document store, the URL index and the routes built on them.

use paprika::{
    default_route, proxy_remote_image, Config, Error, KvStore, Post, PostContentCache,
    RouteOutcome,
};

fn doc_config() -> Config {
    Config {
        secret: "s3cr3t".to_string(),
        title: "A Blog".to_string(),
        lang: "en".to_string(),
        description: "about things".to_string(),
        plugin_identifier: "org.example.blog".to_string(),
        posts_per_page: 5,
        cache_maxage: 86400,
        preferred_url: None,
        extra_remote_proxy_whitelist: None,
        redirects: vec![("/old".to_string(), "/new/".to_string())],
    }
}

fn doc_post(uuid: &str, url: &str, content: &str) -> Post {
    Post {
        uuid: uuid.to_string(),
        timestamp: 1_600_000_000,
        url: url.to_string(),
        title: "T".to_string(),
        content: content.to_string(),
        theme_config: None,
    }
}

#[test]
fn write_then_find_by_uuid() {
    let mut store = KvStore::new();
    assert!(doc_post("u1-0001", "a", "body").write_to_kv(&mut store).is_ok());
    let found = Post::find_by_uuid(&store, "u1-0001").unwrap();
    assert_eq!(found.url, "a");
    assert_eq!(found.content, "body");
}

#[test]
fn find_by_uuid_absent_is_not_found() {
    let store = KvStore::new();
    assert!(matches!(Post::find_by_uuid(&store, "nope"), Err(Error::NotFound(_))));
}

#[test]
fn url_change_keeps_both_lookups_resolving() {
    let mut store = KvStore::new();
    assert!(doc_post("u1-0001", "a", "one").write_to_kv(&mut store).is_ok());
    assert!(doc_post("u1-0001", "b", "two").write_to_kv(&mut store).is_ok());

    let via_old = Post::find_by_url(&store, "a").unwrap();
    assert_eq!(via_old.uuid, "u1-0001");
    assert_eq!(via_old.url, "b");
    assert_ne!(via_old.url, "a");

    let via_new = Post::find_by_url(&store, "b").unwrap();
    assert_eq!(via_new.uuid, "u1-0001");
    assert_eq!(via_new.url, "b");
}

#[test]
fn delete_keeps_the_stale_index_entry_harmless() {
    let mut store = KvStore::new();
    assert!(doc_post("u1-0001", "a", "one").write_to_kv(&mut store).is_ok());
    assert!(Post::delete_by_uuid(&mut store, "u1-0001").is_ok());
    assert!(Post::find_by_url(&store, "a").is_err());
}

#[test]
fn default_route_serves_a_post_page() {
    let mut store = KvStore::new();
    assert!(doc_post("u1-0001", "u1/t", "one").write_to_kv(&mut store).is_ok());
    match default_route(&doc_config(), &store, "/u1/t/") {
        RouteOutcome::ShowPost(p) => assert_eq!(p.uuid, "u1-0001"),
        _ => panic!("expected a post page"),
    }
}

#[test]
fn default_route_redirects_a_moved_post() {
    let mut store = KvStore::new();
    assert!(doc_post("u1-0001", "a", "one").write_to_kv(&mut store).is_ok());
    assert!(doc_post("u1-0001", "b", "two").write_to_kv(&mut store).is_ok());
    match default_route(&doc_config(), &store, "/a/") {
        RouteOutcome::Redirect301(t) => assert_eq!(t, "/b/"),
        _ => panic!("expected a permanent redirect"),
    }
}

#[test]
fn default_route_normalizes_missing_slash() {
    let store = KvStore::new();
    match default_route(&doc_config(), &store, "/about") {
        RouteOutcome::Redirect302(t) => assert_eq!(t, "/about/"),
        _ => panic!("expected a normalizing redirect"),
    }
}

#[test]
fn default_route_homepage_and_missing() {
    let store = KvStore::new();
    assert!(matches!(default_route(&doc_config(), &store, "/"), RouteOutcome::Homepage));
    assert!(matches!(default_route(&doc_config(), &store, "/nothing/"), RouteOutcome::Missing));
}

#[test]
fn default_route_honours_configured_redirects() {
    let store = KvStore::new();
    match default_route(&doc_config(), &store, "/old") {
        RouteOutcome::Redirect301(t) => assert_eq!(t, "/new/"),
        _ => panic!("expected the configured redirect"),
    }
}

#[test]
fn proxy_serves_only_whitelisted_urls() {
    let mut store = KvStore::new();
    let config = doc_config();
    let url = "http://example.com/pic.png";
    let path = "/imgcache/http%3A%2F%2Fexample.com%2Fpic.png";

    assert!(matches!(
        proxy_remote_image(&config, &store, path),
        Err(Error::Unauthorized(_))
    ));

    let post = doc_post("u1-0001", "a", "![x](http://example.com/pic.png)");
    let _ = PostContentCache::find_or_render(&mut store, &post, "v1");

    assert_eq!(proxy_remote_image(&config, &store, path).unwrap(), url);
    assert!(matches!(
        proxy_remote_image(&config, &store, "/elsewhere"),
        Err(Error::BadRequest(_))
    ));
    assert!(matches!(
        proxy_remote_image(&config, &store, "/imgcache/%zz"),
        Err(Error::InternalError)
    ));
}
