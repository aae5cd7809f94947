//! The authoring interface: metadata, authorization, publishing,
//! deleting, discovery, pagination and dispatch.

use paprika::{
    build_metadata, build_routes, check_secret, create_or_update_post, delete_post,
    filter_non_ascii_alphanumeric, get_actions,
    paginate, parse_custom_metadata_from_content, render_homepage, render_post, title_to_url,
    Config, ContentType, CustomMetadata, Error, KvStore, Post, PostsList, Router, Verb,
};

fn api_config() -> Config {
    Config {
        secret: "s3cr3t".to_string(),
        title: "A Blog".to_string(),
        lang: "en".to_string(),
        description: "about things".to_string(),
        plugin_identifier: "org.example.blog".to_string(),
        posts_per_page: 2,
        cache_maxage: 86400,
        preferred_url: Some("https://blog.example".to_string()),
        extra_remote_proxy_whitelist: None,
        redirects: Vec::new(),
    }
}

fn no_custom() -> Option<CustomMetadata> {
    None
}

#[test]
fn metadata_block_is_cut_out() {
    let text = "```json\n{\"url\": \"b\"}\n```\n\nThe article".to_string();
    let (block, rest) = parse_custom_metadata_from_content(text);
    assert_eq!(block.unwrap(), "{\"url\": \"b\"}\n");
    assert_eq!(rest, "The article");
}

#[test]
fn text_without_block_is_untouched() {
    let text = "Just an article".to_string();
    let (block, rest) = parse_custom_metadata_from_content(text);
    assert!(block.is_none());
    assert_eq!(rest, "Just an article");
}

#[test]
fn unterminated_block_is_untouched() {
    let text = "```json\n{\"url\": \"b\"}".to_string();
    let (block, rest) = parse_custom_metadata_from_content(text);
    assert!(block.is_none());
    assert_eq!(rest, "```json\n{\"url\": \"b\"}");
}

#[test]
fn metadata_defaults_derive_from_uuid_and_title() {
    let m = build_metadata(&no_custom(), "cafe-0001", "Hello World", 1_700_000_000);
    assert!(!m.unlist);
    assert_eq!(m.url, "cafe/hello-world");
    assert!(!m.has_custom_url);
    assert_eq!(m.timestamp, 1_700_000_000);
    assert!(!m.has_custom_timestamp);
}

#[test]
fn metadata_custom_values_take_over() {
    let custom = Some(CustomMetadata {
        unlist: None,
        unlisted: Some(true),
        url: Some("my/place".to_string()),
        theme_config: None,
        timestamp: Some(42),
    });
    let m = build_metadata(&custom, "cafe-0001", "Hello", 1_700_000_000);
    assert!(m.unlist);
    assert_eq!(m.url, "my/place");
    assert!(m.has_custom_url);
    assert_eq!(m.timestamp, 42);
    assert!(m.has_custom_timestamp);
}

#[test]
fn metadata_unlist_overrides_its_alias() {
    let custom = Some(CustomMetadata {
        unlist: Some(false),
        unlisted: Some(true),
        url: None,
        theme_config: None,
        timestamp: None,
    });
    assert!(!build_metadata(&custom, "cafe-0001", "Hello", 0).unlist);
}

#[test]
fn title_to_url_collapses_and_lowers() {
    assert_eq!(title_to_url("cafe-0001", "Hello World"), "cafe/hello-world");
    assert_eq!(title_to_url("cafe-0001", "  C'est   La Vie!  "), "cafe/cest-la-vie");
    assert_eq!(title_to_url("cafe-0001", ""), "cafe/");
}

#[test]
fn title_to_url_separates_on_any_whitespace() {
    assert_eq!(title_to_url("cafe-0001", "A\u{3000}B"), "cafe/a-b");
    assert_eq!(title_to_url("cafe-0001", "A\u{b}B"), "cafe/a-b");
    assert_eq!(title_to_url("cafe-0001", "A\u{200b}B"), "cafe/ab");
}

#[test]
fn filter_keeps_unicode_whitespace() {
    assert_eq!(filter_non_ascii_alphanumeric("a\u{b}b"), "a\u{b}b");
    assert_eq!(filter_non_ascii_alphanumeric("a\u{3000}b!"), "a\u{3000}b");
    assert_eq!(filter_non_ascii_alphanumeric("caf\u{e9} #9"), "caf 9");
}

#[test]
fn secret_is_checked_before_anything() {
    let config = api_config();
    assert!(check_secret(&config, Some("s3cr3t")).is_ok());
    assert!(matches!(check_secret(&config, Some("wrong")), Err(Error::Unauthorized(_))));
    assert!(matches!(check_secret(&config, None), Err(Error::BadRequest(_))));
}

#[test]
fn publish_lists_renders_and_stores() {
    let mut store = KvStore::new();
    let r = create_or_update_post(
        &mut store,
        "cafe-0001",
        "Hello World",
        "The body".to_string(),
        no_custom(),
        1_700_000_000,
        "v1",
    );
    assert!(r.is_ok());
    assert!(PostsList::load(&store).has_post("cafe-0001"));
    let post = Post::find_by_uuid(&store, "cafe-0001").unwrap();
    assert_eq!(post.url, "cafe/hello-world");
    assert_eq!(post.content, "The body");
    let page = render_post(&mut store, post, "v1");
    assert!(page.content.contains("The body"));
}

#[test]
fn unlisted_publish_stays_out_of_the_list() {
    let mut store = KvStore::new();
    let custom = Some(CustomMetadata {
        unlist: Some(true),
        unlisted: None,
        url: None,
        theme_config: None,
        timestamp: None,
    });
    assert!(create_or_update_post(
        &mut store,
        "cafe-0002",
        "Hidden",
        "ssh".to_string(),
        custom,
        0,
        "v1"
    )
    .is_ok());
    assert!(!PostsList::load(&store).has_post("cafe-0002"));
    assert!(Post::find_by_uuid(&store, "cafe-0002").is_ok());
}

#[test]
fn republish_keeps_url_and_timestamp_without_custom_metadata() {
    let mut store = KvStore::new();
    assert!(create_or_update_post(
        &mut store,
        "cafe-0003",
        "First Title",
        "one".to_string(),
        no_custom(),
        100,
        "v1"
    )
    .is_ok());
    assert!(create_or_update_post(
        &mut store,
        "cafe-0003",
        "Second Title",
        "two".to_string(),
        no_custom(),
        200,
        "v1"
    )
    .is_ok());
    let post = Post::find_by_uuid(&store, "cafe-0003").unwrap();
    assert_eq!(post.title, "Second Title");
    assert_eq!(post.content, "two");
    assert_eq!(post.url, "cafe/first-title");
    assert_eq!(post.timestamp, 100);
}

#[test]
fn delete_unlists_and_erases() {
    let mut store = KvStore::new();
    assert!(create_or_update_post(
        &mut store,
        "cafe-0004",
        "Bye",
        "gone".to_string(),
        no_custom(),
        0,
        "v1"
    )
    .is_ok());
    assert!(delete_post(&mut store, "cafe-0004").is_ok());
    assert!(!PostsList::load(&store).has_post("cafe-0004"));
    assert!(Post::find_by_uuid(&store, "cafe-0004").is_err());
}

#[test]
fn homepage_pages_through_posts() {
    let mut store = KvStore::new();
    let config = api_config();
    for (uuid, title) in [
        ("aaaa-0001", "One"),
        ("bbbb-0002", "Two"),
        ("cccc-0003", "Three"),
    ] {
        assert!(create_or_update_post(
            &mut store,
            uuid,
            title,
            format!("body of {}", title),
            None,
            0,
            "v1"
        )
        .is_ok());
    }
    let page1 = render_homepage(&mut store, &config, None, "v1").unwrap();
    assert_eq!(page1.posts.len(), 2);
    assert_eq!(page1.posts[0].title, "Three");
    assert_eq!(page1.posts[1].title, "Two");
    assert!(page1.prev.is_none());
    assert_eq!(page1.next.as_deref(), Some("/?offset=2"));

    let page2 = render_homepage(&mut store, &config, Some("2"), "v1").unwrap();
    assert_eq!(page2.posts.len(), 1);
    assert_eq!(page2.posts[0].title, "One");
    assert_eq!(page2.prev.as_deref(), Some("/"));
    assert!(page2.next.is_none());
}

#[test]
fn pagination_rejects_bad_offsets() {
    assert!(matches!(paginate(3, Some("x"), 2), Err(Error::BadRequest(_))));
    assert!(matches!(paginate(3, Some("-1"), 2), Err(Error::BadRequest(_))));
    assert!(matches!(paginate(3, Some("4"), 2), Err(Error::BadRequest(_))));
    assert!(matches!(paginate(3, Some("3"), 2), Err(Error::BadRequest(_))));
    assert!(matches!(paginate(0, None, 2), Err(Error::BadRequest(_))));
    assert!(matches!(paginate(3, Some(""), 2), Err(Error::BadRequest(_))));
    assert!(matches!(paginate(3, Some("99999999999999999999999"), 2), Err(Error::BadRequest(_))));
}

#[test]
fn pagination_grants_good_offsets() {
    let p = paginate(10, Some("+4"), 2).unwrap();
    assert_eq!(p.offset, 4);
    assert_eq!(p.prev.as_deref(), Some("/?offset=2"));
    assert_eq!(p.next.as_deref(), Some("/?offset=6"));
    let p0 = paginate(10, Some("-0"), 2).unwrap();
    assert_eq!(p0.offset, 0);
    let p2 = paginate(10, Some("2"), 2).unwrap();
    assert_eq!(p2.prev.as_deref(), Some("/"));
}

#[test]
fn router_prefers_earlier_and_prefix_routes() {
    let router = build_routes();
    assert_eq!(router.execute("/imgcache/abc"), Some(0));
    assert_eq!(router.execute("/actions"), Some(1));
    assert_eq!(router.execute("/post"), Some(2));
    assert_eq!(router.execute("/delete"), Some(3));
    assert_eq!(router.execute("/static/style.css"), Some(4));
    assert_eq!(router.execute("/feed.xml"), Some(5));
    assert_eq!(router.execute("/anything/else/"), None);
    assert_eq!(router.execute("/actions2"), None);

    let mut own = Router::new();
    own.add_route("/a/b");
    own.add_route("/a/");
    assert_eq!(own.execute("/a/b"), Some(0));
    assert_eq!(own.execute("/a/c"), Some(1));
}

#[test]
fn actions_depend_on_whether_the_post_exists() {
    let mut store = KvStore::new();
    let config = api_config();
    let fresh = get_actions(&config, &store, "https://origin.example", Some("cafe-0005"));
    assert_eq!(fresh.actions.len(), 2);
    assert_eq!(fresh.actions[0].label, "Publish");
    assert_eq!(
        fresh.actions[0].url,
        "https://origin.example/post?secret=s3cr3t"
    );
    assert_eq!(fresh.actions[1].label, "Open Blog");
    assert_eq!(fresh.actions[1].url, "https://blog.example");
    assert_eq!(fresh.identifier, "org.example.blog");
    assert_eq!(fresh.description, "Standard Notes plugin for A Blog");
    assert!(matches!(fresh.content_type, ContentType::Extension));

    assert!(create_or_update_post(
        &mut store,
        "cafe-0005",
        "Now Exists",
        "body".to_string(),
        None,
        0,
        "v1"
    )
    .is_ok());
    let known = get_actions(&config, &store, "https://origin.example", Some("cafe-0005"));
    assert_eq!(known.actions.len(), 4);
    assert_eq!(known.actions[0].label, "Update");
    assert_eq!(known.actions[1].label, "Delete");
    assert_eq!(known.actions[2].label, "Open Post");
    assert_eq!(known.actions[2].url, "https://blog.example/cafe/now-exists/");
    assert!(matches!(known.actions[2].verb, Verb::Show));
}

#[test]
fn error_statuses_and_messages() {
    assert_eq!(Error::NotFound("x".to_string()).status_code(), 404);
    assert_eq!(Error::BadRequest("x".to_string()).status_code(), 400);
    assert_eq!(Error::Unauthorized("x".to_string()).status_code(), 401);
    assert_eq!(Error::InternalError.status_code(), 500);
    assert_eq!(
        Error::NotFound("gone".to_string()).message(),
        "Not Found, Reason: gone"
    );
    assert_eq!(
        Error::Unauthorized("nope".to_string()).message(),
        "Unauthorized, Reason: nope"
    );
    assert_eq!(
        Error::BadRequest("why".to_string()).message(),
        "Bad Request, Reason: why"
    );
    assert_eq!(Error::InternalError.message(), "Internal Error");
}
