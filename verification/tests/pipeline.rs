//! The Markdown-to-HTML pipeline: summary split, image rewrite,
//! anchors, code blocks, escaping and percent coding.

use paprika::{
    highlight, highlight_auto, html_escape, md_to_html, percent_decode, percent_encode,
    rewrite_image_url, transform_html, Post, PostContentCache, IMG_CACHE_PREFIX, SUMMARY_DIVIDER,
};

fn pipeline_post(uuid: &str, content: &str) -> Post {
    Post {
        uuid: uuid.to_string(),
        timestamp: 1_600_000_000,
        url: format!("{}/x", &uuid[0..4]),
        title: "A title".to_string(),
        content: content.to_string(),
        theme_config: None,
    }
}

#[test]
fn summary_split_at_divider() {
    let content = "Intro text\n<!-- More -->\nRest of article";
    let (cache, _resources) = PostContentCache::render(&pipeline_post("1234-a", content), "v1");
    let (intro_only, _) = PostContentCache::render(&pipeline_post("1234-b", "Intro text"), "v1");
    assert_eq!(cache.summary, intro_only.content);
    assert!(cache.content.contains("Intro text"));
    assert!(cache.content.contains("Rest of article"));
    assert!(!cache.summary.contains(SUMMARY_DIVIDER));
    assert!(!cache.content.contains(SUMMARY_DIVIDER));
    assert!(!cache.summary.contains("Rest of article"));
}

#[test]
fn summary_without_divider_is_whole_content() {
    let (cache, _) = PostContentCache::render(&pipeline_post("1234-c", "Just one part"), "v1");
    assert_eq!(cache.summary, cache.content);
}

#[test]
fn image_rewrite_to_proxy_form() {
    let md = "![alt](http://example.com/pic.png)";
    let (cache, resources) = PostContentCache::render(&pipeline_post("1234-d", md), "v1");
    let expected_src = format!("{}{}", IMG_CACHE_PREFIX, "http%3A%2F%2Fexample.com%2Fpic.png");
    assert!(
        cache.content.contains(&format!("<img src=\"{}\"", expected_src)),
        "content was: {}",
        cache.content
    );
    assert_eq!(resources, vec!["http://example.com/pic.png".to_string()]);
}

#[test]
fn relative_image_is_left_alone() {
    let md = "![alt](/static/pic.png)";
    let (cache, resources) = PostContentCache::render(&pipeline_post("1234-e", md), "v1");
    assert!(cache.content.contains("<img src=\"/static/pic.png\""));
    assert!(resources.is_empty());
}

#[test]
fn rewrite_image_url_exact_form() {
    assert_eq!(
        rewrite_image_url("http://example.com/pic.png"),
        "/imgcache/http%3A%2F%2Fexample.com%2Fpic.png"
    );
    assert_eq!(rewrite_image_url("https://a/b c"), "/imgcache/https%3A%2F%2Fa%2Fb%20c");
    assert_eq!(rewrite_image_url("pic.png"), "pic.png");
    assert_eq!(rewrite_image_url("/local/pic.png"), "/local/pic.png");
}

#[test]
fn heading_gets_anchor() {
    let (cache, _) = PostContentCache::render(&pipeline_post("1234-f", "# Hello World"), "v1");
    assert!(
        cache.content.contains("<h1 id=\"hello-world\">Hello World</h1>"),
        "content was: {}",
        cache.content
    );
}

#[test]
fn heading_anchor_strips_punctuation() {
    let (cache, _) = PostContentCache::render(&pipeline_post("1234-g", "## C'est La Vie!"), "v1");
    assert!(
        cache.content.contains("<h2 id=\"cest-la-vie\">"),
        "content was: {}",
        cache.content
    );
}

#[test]
fn unsupported_highlight_language_still_renders() {
    let md = "```nosuchlanguage\nlet x = 1 < 2;\n```\n";
    let (cache, _) = PostContentCache::render(&pipeline_post("1234-h", md), "v1");
    assert!(
        cache.content.contains("<pre><code class=\"hljs\">"),
        "content was: {}",
        cache.content
    );
    assert!(cache.content.contains("1 &lt; 2"));
}

#[test]
fn plain_code_block_gets_highlight_class() {
    let md = "    indented code\n";
    let (cache, _) = PostContentCache::render(&pipeline_post("1234-i", md), "v1");
    assert!(
        cache.content.contains("<pre><code class=\"hljs\">indented code"),
        "content was: {}",
        cache.content
    );
}

#[test]
fn links_open_in_new_context() {
    let md = "[here](https://example.org/x)";
    let (cache, _) = PostContentCache::render(&pipeline_post("1234-j", md), "v1");
    assert!(
        cache.content.contains("<a target=\"_blank\" href=\"https://example.org/x\">here</a>"),
        "content was: {}",
        cache.content
    );
}

#[test]
fn fragment_links_are_left_alone() {
    let html = "<a href=\"#frag\">x</a>".to_string();
    assert_eq!(transform_html(html.clone()), html);
}

#[test]
fn transform_html_rewrites_all_three() {
    let html = "<h2>Ab C</h2>\n<pre><code class=\"language-rust\">z</code></pre>\n\
                <a href=\"/p/\">p</a>"
        .to_string();
    let out = transform_html(html);
    assert_eq!(
        out,
        "<h2 id=\"ab-c\">Ab C</h2>\n<pre><code class=\"hljs\">z</code></pre>\n\
         <a target=\"_blank\" href=\"/p/\">p</a>"
    );
}

#[test]
fn markdown_engine_produces_html() {
    let html = md_to_html("plain *emphasis*");
    assert_eq!(html, "<p>plain <em>emphasis</em></p>\n");
}

#[test]
fn escape_replaces_markup_characters() {
    assert_eq!(html_escape("a<b>&\"'c"), "a&lt;b&gt;&amp;&quot;&#x27;c");
    assert_eq!(html_escape(""), "");
}

#[test]
fn highlight_falls_back_to_escaped_text() {
    assert_eq!(highlight("rust", "1 < 2"), "1 &lt; 2");
    assert_eq!(highlight_auto("1 < 2"), "1 &lt; 2");
}

#[test]
fn percent_encode_unreserved_and_reserved() {
    assert_eq!(percent_encode("AZaz09-_.!~*'()"), "AZaz09-_.!~*'()");
    assert_eq!(percent_encode("a b/c?d=e&f"), "a%20b%2Fc%3Fd%3De%26f");
    assert_eq!(percent_encode("caf\u{e9}"), "caf%C3%A9");
}

#[test]
fn percent_decode_inverts_encode() {
    for s in ["", "plain", "a b/c?d=e&f", "caf\u{e9}", "http://example.com/pic.png"] {
        let enc = percent_encode(s);
        assert_eq!(percent_decode(&enc).as_deref(), Some(s));
    }
}

#[test]
fn percent_decode_rejects_malformed() {
    assert_eq!(percent_decode("%"), None);
    assert_eq!(percent_decode("%G0"), None);
    assert_eq!(percent_decode("%FF"), None);
    assert_eq!(percent_decode("%41"), Some("A".to_string()));
}
