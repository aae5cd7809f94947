//! The Markdown-to-HTML transform pipeline.
//!
//! Markdown is parsed and serialized by an outside CommonMark engine;
//! everything the pipeline adds on top is done here: external image
//! references are rewritten to a whitelisted proxy form, headings
//! receive stable anchors, code blocks one fixed highlighting class,
//! outbound links a new browsing context, and a summary is split off at
//! a sentinel comment.

use vstd::prelude::*;

use crate::text::{
    char_vec,
    chars_to_string,
    extend_chars,
    find_from,
    is_match_at,
    lemma_find_from_some,
    match_at,
    spec_find_from,
    sub_vec,
    to_chars,
};
use crate::utils::{
    anchor_chars,
    anchor_of,
    check_ascii_alnum,
    check_digit,
    is_ascii_alnum,
    is_digit,
};

verus! {

/// The path prefix under which the image proxy serves approved remote
/// resources.
pub const IMG_CACHE_PREFIX: &'static str = "/imgcache/";

/// The prefix as a character sequence.
pub open spec fn img_cache_prefix() -> Seq<char> {
    "/imgcache/"@
}

/// The hex digit (upper case) for a value below sixteen.
pub open spec fn hex_char(n: u8) -> char
    recommends
        n < 16,
{
    if n < 10 {
        ((('0' as u32) + (n as u32)) as u8) as char
    } else {
        ((('A' as u32) + (n as u32) - 10) as u8) as char
    }
}

/// Executable form of `hex_char`.
fn hex_char_exec(n: u8) -> (r: char)
    requires
        n < 16,
    ensures
        r == hex_char(n),
{
    if n < 10 {
        (48 + n) as char
    } else {
        (55 + n) as char
    }
}

/// A character that percent-encoding passes through unchanged: the
/// unreserved set of `encodeURIComponent`.
pub open spec fn is_uri_unreserved(c: char) -> bool {
    ||| is_ascii_alnum(c)
    ||| c == '-'
    ||| c == '_'
    ||| c == '.'
    ||| c == '!'
    ||| c == '~'
    ||| c == '*'
    ||| c == '\''
    ||| c == '('
    ||| c == ')'
}

/// Executable form of `is_uri_unreserved`.
fn check_uri_unreserved(c: char) -> (r: bool)
    ensures
        r == is_uri_unreserved(c),
{
    check_ascii_alnum(c) || c == '-' || c == '_' || c == '.' || c == '!' || c == '~' || c == '*'
        || c == '\'' || c == '(' || c == ')'
}

/// Each byte written as `%` and two upper-case hex digits.
pub open spec fn pct_bytes(bs: Seq<u8>) -> Seq<char>
    decreases bs.len(),
{
    if bs.len() == 0 {
        Seq::empty()
    } else {
        pct_bytes(bs.drop_last()) + seq![
            '%',
            hex_char((bs.last() / 16) as u8),
            hex_char((bs.last() % 16) as u8),
        ]
    }
}

/// The percent-encoding of one character: unreserved characters stand
/// for themselves, every other character becomes the `%`-escapes of its
/// UTF-8 bytes.
pub open spec fn pct_char(c: char) -> Seq<char> {
    if is_uri_unreserved(c) {
        seq![c]
    } else {
        pct_bytes(vstd::utf8::encode_scalar(c as u32))
    }
}

/// The percent-encoding of a text.
pub open spec fn spec_percent_encode(s: Seq<char>) -> Seq<char>
    decreases s.len(),
{
    if s.len() == 0 {
        Seq::empty()
    } else {
        spec_percent_encode(s.drop_last()) + pct_char(s.last())
    }
}

/// The UTF-8 encoding of one character.
fn utf8_bytes(c: char) -> (r: Vec<u8>)
    ensures
        r@ == vstd::utf8::encode_scalar(c as u32),
{
    proof {
        vstd::utf8::char_is_scalar(c);
    }
    let v = c as u32;
    let mut r: Vec<u8> = Vec::new();
    if v <= 0x7F {
        r.push((v & 0x7F) as u8);
    } else if v <= 0x7FF {
        r.push(0xC0 | (((v >> 6) & 0x1F) as u8));
        r.push(0x80 | ((v & 0x3F) as u8));
    } else if v <= 0xFFFF {
        r.push(0xE0 | (((v >> 12) & 0x0F) as u8));
        r.push(0x80 | (((v >> 6) & 0x3F) as u8));
        r.push(0x80 | ((v & 0x3F) as u8));
    } else {
        r.push(0xF0 | (((v >> 18) & 0x7) as u8));
        r.push(0x80 | (((v >> 12) & 0x3F) as u8));
        r.push(0x80 | (((v >> 6) & 0x3F) as u8));
        r.push(0x80 | ((v & 0x3F) as u8));
    }
    proof {
        assert(r@ =~= vstd::utf8::encode_scalar(c as u32));
    }
    r
}

/// Percent-encode `s` as `encodeURIComponent` does.
pub fn percent_encode(s: &str) -> (r: String)
    ensures
        r@ == spec_percent_encode(s@),
{
    let cs = to_chars(s);
    let n = cs.len();
    let mut out: Vec<char> = Vec::new();
    let mut i: usize = 0;
    while i < n
        invariant
            0 <= i <= n,
            n == cs@.len(),
            cs@ == s@,
            out@ == spec_percent_encode(s@.take(i as int)),
        decreases n - i,
    {
        let c = cs[i];
        proof {
            assert(s@.take(i + 1).drop_last() =~= s@.take(i as int));
            assert(s@.take(i + 1).last() == s@[i as int]);
        }
        if check_uri_unreserved(c) {
            out.push(c);
        } else {
            let bs = utf8_bytes(c);
            let m = bs.len();
            let ghost out0 = out@;
            let mut j: usize = 0;
            while j < m
                invariant
                    0 <= j <= m,
                    m == bs@.len(),
                    out@ == out0 + pct_bytes(bs@.take(j as int)),
                decreases m - j,
            {
                let b = bs[j];
                proof {
                    assert(bs@.take(j + 1).drop_last() =~= bs@.take(j as int));
                    assert(bs@.take(j + 1).last() == bs@[j as int]);
                }
                out.push('%');
                out.push(hex_char_exec(b / 16));
                out.push(hex_char_exec(b % 16));
                proof {
                    assert(out@ =~= out0 + pct_bytes(bs@.take(j + 1)));
                }
                j += 1;
            }
            proof {
                assert(bs@.take(m as int) =~= bs@);
            }
        }
        proof {
            assert(out@ =~= spec_percent_encode(s@.take(i + 1)));
        }
        i += 1;
    }
    proof {
        assert(s@.take(n as int) =~= s@);
    }
    chars_to_string(&out)
}

/// A hex digit in either case.
pub open spec fn is_hex_digit(c: char) -> bool {
    ||| ('0' as u32) <= (c as u32) <= ('9' as u32)
    ||| ('a' as u32) <= (c as u32) <= ('f' as u32)
    ||| ('A' as u32) <= (c as u32) <= ('F' as u32)
}

/// The value of a hex digit.
pub open spec fn hex_val(c: char) -> int
    recommends
        is_hex_digit(c),
{
    if ('0' as u32) <= (c as u32) <= ('9' as u32) {
        (c as u32) - ('0' as u32)
    } else if ('a' as u32) <= (c as u32) <= ('f' as u32) {
        (c as u32) - ('a' as u32) + 10
    } else {
        (c as u32) - ('A' as u32) + 10
    }
}

/// The value of a hex digit, or nothing for any other character.
fn hex_val_exec(c: char) -> (r: Option<u8>)
    ensures
        match r {
            Some(v) => is_hex_digit(c) && v == hex_val(c) && v < 16,
            None => !is_hex_digit(c),
        },
{
    let v = c as u32;
    if 48 <= v && v <= 57 {
        Some((v - 48) as u8)
    } else if 97 <= v && v <= 102 {
        Some((v - 97 + 10) as u8)
    } else if 65 <= v && v <= 70 {
        Some((v - 65 + 10) as u8)
    } else {
        None
    }
}

/// The bytes the percent-encoded text stands for from position `i`
/// on: each `%` must head two hex digits and becomes that byte, every
/// other character contributes its own UTF-8 bytes.
pub open spec fn pd_bytes_from(s: Seq<char>, i: int) -> Option<Seq<u8>>
    decreases s.len() - i when 0 <= i
{
    if i >= s.len() {
        Some(Seq::empty())
    } else if s[i] == '%' {
        if i + 3 <= s.len() && is_hex_digit(s[i + 1]) && is_hex_digit(s[i + 2]) {
            match pd_bytes_from(s, i + 3) {
                Some(r) => Some(seq![(hex_val(s[i + 1]) * 16 + hex_val(s[i + 2])) as u8] + r),
                None => None,
            }
        } else {
            None
        }
    } else {
        match pd_bytes_from(s, i + 1) {
            Some(r) => Some(vstd::utf8::encode_scalar(s[i] as u32) + r),
            None => None,
        }
    }
}

/// The bytes a whole percent-encoded text stands for.
pub open spec fn pd_bytes(s: Seq<char>) -> Option<Seq<u8>> {
    pd_bytes_from(s, 0)
}

/// What percent-decoding yields: the decoded bytes read back as UTF-8,
/// or nothing when an escape is malformed or the bytes are not UTF-8.
pub open spec fn spec_percent_decode(s: Seq<char>) -> Option<Seq<char>> {
    match pd_bytes(s) {
        Some(b) => if vstd::utf8::valid_utf8(b) {
            Some(vstd::utf8::decode_utf8(b))
        } else {
            None
        },
        None => None,
    }
}

/// Relies on `String::from_utf8`: it succeeds exactly on valid UTF-8
/// and returns the string those bytes encode.
#[verifier::external_body]
fn utf8_to_string(v: Vec<u8>) -> (r: Option<String>)
    ensures
        match r {
            Some(s) => vstd::utf8::valid_utf8(v@) && s@ == vstd::utf8::decode_utf8(v@),
            None => !vstd::utf8::valid_utf8(v@),
        },
{
    match String::from_utf8(v) {
        Ok(s) => Some(s),
        Err(_) => None,
    }
}

/// Decode the `%`-escapes of a text into bytes.
fn percent_decode_bytes(cs: &Vec<char>) -> (r: Option<Vec<u8>>)
    ensures
        match r {
            Some(b) => pd_bytes(cs@) == Some(b@),
            None => pd_bytes(cs@) is None,
        },
{
    let n = cs.len();
    let mut bytes: Vec<u8> = Vec::new();
    let mut i: usize = 0;
    while i < n
        invariant
            0 <= i <= n,
            n == cs@.len(),
            pd_bytes_from(cs@, 0) is Some <==> pd_bytes_from(cs@, i as int) is Some,
            pd_bytes_from(cs@, i as int) is Some ==> pd_bytes_from(cs@, 0) == Some(
                bytes@ + pd_bytes_from(cs@, i as int)->0,
            ),
        decreases n - i,
    {
        let c = cs[i];
        if c == '%' {
            if n - i < 3 {
                return None;
            }
            let h = match hex_val_exec(cs[i + 1]) {
                Some(v) => v,
                None => {
                    return None;
                },
            };
            let l = match hex_val_exec(cs[i + 2]) {
                Some(v) => v,
                None => {
                    return None;
                },
            };
            let ghost pre = bytes@;
            bytes.push(h * 16 + l);
            proof {
                let b = (hex_val(cs@[i + 1]) * 16 + hex_val(cs@[i + 2])) as u8;
                assert(bytes@ =~= pre + seq![b]);
                if pd_bytes_from(cs@, i + 3) is Some {
                    let r = pd_bytes_from(cs@, i + 3)->0;
                    assert((pre + seq![b]) + r =~= pre + (seq![b] + r));
                }
            }
            i += 3;
        } else {
            let mut bs = utf8_bytes(c);
            let ghost pre = bytes@;
            let ghost piece = bs@;
            bytes.append(&mut bs);
            proof {
                if pd_bytes_from(cs@, i + 1) is Some {
                    let r = pd_bytes_from(cs@, i + 1)->0;
                    assert((pre + piece) + r =~= pre + (piece + r));
                }
            }
            i += 1;
        }
    }
    proof {
        assert(bytes@ + Seq::<u8>::empty() =~= bytes@);
    }
    Some(bytes)
}

/// Decode a percent-encoded text, as `decodeURIComponent` does; a
/// malformed escape or ill-formed UTF-8 yields nothing.
pub fn percent_decode(s: &str) -> (r: Option<String>)
    ensures
        match r {
            Some(t) => spec_percent_decode(s@) == Some(t@),
            None => spec_percent_decode(s@) is None,
        },
{
    let cs = to_chars(s);
    match percent_decode_bytes(&cs) {
        Some(bytes) => utf8_to_string(bytes),
        None => None,
    }
}

/// An image reference that is not a relative or internal path: one that
/// names an `http` or `https` origin of its own.
pub open spec fn is_external_url(u: Seq<char>) -> bool {
    ||| (u.len() >= 7 && u.take(7) == "http://"@)
    ||| (u.len() >= 8 && u.take(8) == "https://"@)
}

/// Executable form of `is_external_url`.
pub fn check_external_url(cs: &Vec<char>) -> (r: bool)
    ensures
        r == is_external_url(cs@),
{
    proof {
        reveal_strlit("http://");
        reveal_strlit("https://");
    }
    let h = to_chars("http://");
    let hs = to_chars("https://");
    let r1 = cs.len() >= 7 && is_match_at(cs, &h, 0);
    let r2 = cs.len() >= 8 && is_match_at(cs, &hs, 0);
    proof {
        assert(cs@.subrange(0, 7) =~= cs@.take(7));
        if cs@.len() >= 8 {
            assert(cs@.subrange(0, 8) =~= cs@.take(8));
        }
    }
    r1 || r2
}

/// What an image reference is replaced by: an external URL moves behind
/// the proxy prefix in percent-encoded form, anything else stays.
pub open spec fn spec_rewrite_image_url(u: Seq<char>) -> Seq<char> {
    if is_external_url(u) {
        img_cache_prefix() + spec_percent_encode(u)
    } else {
        u
    }
}

/// Rewrite one image reference for the proxy, or keep it unchanged.
pub fn rewrite_image_url(url: &str) -> (r: String)
    ensures
        r@ == spec_rewrite_image_url(url@),
{
    let cs = to_chars(url);
    if check_external_url(&cs) {
        let mut out = to_chars(IMG_CACHE_PREFIX);
        let mut enc = to_chars(percent_encode(url).as_str());
        out.append(&mut enc);
        proof {
            assert(out@ =~= img_cache_prefix() + spec_percent_encode(url@));
        }
        chars_to_string(&out)
    } else {
        url.to_owned()
    }
}

/// The HTML an outside CommonMark engine derives from a Markdown text,
/// with every image reference first routed through
/// `spec_rewrite_image_url`.  A fixed function of the text alone.
pub uninterp spec fn md_html_of(s: Seq<char>) -> Seq<char>;

/// Relies on `pulldown_cmark`'s `Parser::new_ext` (all extensions on)
/// and `html::push_html`: parsing and serialization are deterministic
/// in the input, so with the image rewrite applied between them the
/// result is a function of `text` alone.
#[verifier::external_body]
pub fn md_to_html(text: &str) -> (r: String)
    ensures
        r@ == md_html_of(text@),
{
    let parser = pulldown_cmark::Parser::new_ext(text, pulldown_cmark::Options::all());
    let events = parser.map(|ev| match ev {
        pulldown_cmark::Event::Start(
            pulldown_cmark::Tag::Image { link_type, dest_url, title, id },
        ) => pulldown_cmark::Event::Start(
            pulldown_cmark::Tag::Image {
                link_type, dest_url: rewrite_image_url(&dest_url).into(), title, id,
            },
        ),
        other => other,
    });
    let mut out = String::new();
    pulldown_cmark::html::push_html(&mut out, events);
    out
}

/// The image references an outside CommonMark engine finds in a
/// Markdown text, in order of appearance, before any rewriting.  A
/// fixed function of the text alone.
pub uninterp spec fn md_image_urls_of(s: Seq<char>) -> Seq<Seq<char>>;

/// Relies on `pulldown_cmark`'s `Parser::new_ext` (all extensions on):
/// the event stream is deterministic in the input, and each image start
/// event carries the reference the document wrote.
#[verifier::external_body]
pub fn md_image_urls(text: &str) -> (r: Vec<String>)
    ensures
        r.deep_view() == md_image_urls_of(text@),
{
    pulldown_cmark::Parser::new_ext(text, pulldown_cmark::Options::all())
        .filter_map(|ev| match ev {
            pulldown_cmark::Event::Start(pulldown_cmark::Tag::Image { dest_url, .. }) => {
                Some(dest_url.into_string())
            },
            _ => None,
        })
        .collect()
}

/// The external image references among `us`, in order: the resources a
/// render asks to have approved for proxying.
pub open spec fn external_only(us: Seq<Seq<char>>) -> Seq<Seq<char>>
    decreases us.len(),
{
    if us.len() == 0 {
        Seq::empty()
    } else {
        external_only(us.drop_last()) + (if is_external_url(us.last()) {
            seq![us.last()]
        } else {
            Seq::<Seq<char>>::empty()
        })
    }
}

/// Keep only the external references.
pub fn filter_external(urls: &Vec<String>) -> (r: Vec<String>)
    ensures
        r.deep_view() == external_only(urls.deep_view()),
{
    let n = urls.len();
    let mut out: Vec<String> = Vec::new();
    let mut i: usize = 0;
    while i < n
        invariant
            0 <= i <= n,
            n == urls@.len(),
            out.deep_view() == external_only(urls.deep_view().take(i as int)),
        decreases n - i,
    {
        proof {
            assert(urls.deep_view().take(i + 1).drop_last() =~= urls.deep_view().take(i as int));
            assert(urls.deep_view().take(i + 1).last() == urls@[i as int]@);
        }
        let cs = to_chars(urls[i].as_str());
        if check_external_url(&cs) {
            out.push(urls[i].clone());
        }
        proof {
            assert(out.deep_view() =~= external_only(urls.deep_view().take(i + 1)));
        }
        i += 1;
    }
    proof {
        assert(urls.deep_view().take(n as int) =~= urls.deep_view());
    }
    out
}

/// An opening heading tag `<h?>` stands at `i`.
pub open spec fn heading_open_at(s: Seq<char>, i: int) -> bool {
    &&& i + 4 <= s.len()
    &&& s[i] == '<'
    &&& s[i + 1] == 'h'
    &&& is_digit(s[i + 2])
    &&& s[i + 3] == '>'
}

/// The closing tag `</h?>` for level `d` stands at `e`.
pub open spec fn heading_close_at(s: Seq<char>, e: int, d: char) -> bool {
    &&& e + 5 <= s.len()
    &&& s[e] == '<'
    &&& s[e + 1] == '/'
    &&& s[e + 2] == 'h'
    &&& s[e + 3] == d
    &&& s[e + 4] == '>'
}

/// A matched heading rewritten: the same tag with an `id` attribute
/// derived from the heading's text.
pub open spec fn heading_replacement(s: Seq<char>, i: int, e: int) -> Seq<char> {
    seq!['<', 'h', s[i + 2]] + " id=\""@ + anchor_of(s.subrange(i + 4, e)) + "\">"@ + s.subrange(
        i + 4,
        e,
    ) + seq!['<', '/', 'h', s[i + 2], '>']
}

/// The heading pass from position `i` on: a heading whose text runs to
/// the next `<`, which must open its closing tag, gains an anchor `id`;
/// everything else is copied.
pub open spec fn heading_pass_from(s: Seq<char>, i: int) -> Seq<char>
    decreases s.len() - i when 0 <= i
{
    if i >= s.len() {
        Seq::empty()
    } else if heading_open_at(s, i) {
        match spec_find_from(s, seq!['<'], i + 4) {
            Some(e) => {
                if heading_close_at(s, e, s[i + 2]) {
                    heading_replacement(s, i, e) + heading_pass_from(
                        s,
                        if e + 5 > i {
                            e + 5
                        } else {
                            i + 1
                        },
                    )
                } else {
                    seq![s[i]] + heading_pass_from(s, i + 1)
                }
            },
            None => seq![s[i]] + heading_pass_from(s, i + 1),
        }
    } else {
        seq![s[i]] + heading_pass_from(s, i + 1)
    }
}

/// Give every heading a stable anchor `id`.
pub fn heading_pass(h: &Vec<char>) -> (r: Vec<char>)
    ensures
        r@ == heading_pass_from(h@, 0),
{
    let n = h.len();
    let lt = char_vec('<');
    let mut out: Vec<char> = Vec::new();
    let mut i: usize = 0;
    proof {
        assert(out@ + heading_pass_from(h@, 0) =~= heading_pass_from(h@, 0));
    }
    while i < n
        invariant
            0 <= i <= n,
            n == h@.len(),
            lt@ == seq!['<'],
            heading_pass_from(h@, 0) == out@ + heading_pass_from(h@, i as int),
        decreases n - i,
    {
        if n - i >= 4 && h[i] == '<' && h[i + 1] == 'h' && check_digit(h[i + 2]) && h[i + 3]
            == '>' {
            let found = find_from(h, &lt, i + 4);
            if let Some(e) = found {
                proof {
                    lemma_find_from_some(h@, seq!['<'], i + 4);
                    assert(match_at(h@, seq!['<'], e as int));
                    assert(h@.subrange(e as int, e + 1)[0] == h@[e as int]);
                    assert(h@[e as int] == '<');
                }
                if n - e >= 5 && h[e + 1] == '/' && h[e + 2] == 'h' && h[e + 3] == h[i + 2] && h[e
                    + 4] == '>' {
                    let text = sub_vec(h, i + 4, e);
                    let anchor = anchor_chars(&text);
                    let ghost out0 = out@;
                    out.push('<');
                    out.push('h');
                    out.push(h[i + 2]);
                    let mut idp = to_chars(" id=\"");
                    out.append(&mut idp);
                    extend_chars(&mut out, &anchor);
                    let mut qgt = to_chars("\">");
                    out.append(&mut qgt);
                    extend_chars(&mut out, &text);
                    out.push('<');
                    out.push('/');
                    out.push('h');
                    out.push(h[i + 2]);
                    out.push('>');
                    proof {
                        assert(heading_close_at(h@, e as int, h@[i + 2]));
                        assert(out@ =~= out0 + heading_replacement(h@, i as int, e as int));
                        assert(heading_pass_from(h@, i as int) == heading_replacement(
                            h@,
                            i as int,
                            e as int,
                        ) + heading_pass_from(h@, e + 5));
                        assert(out0 + (heading_replacement(h@, i as int, e as int)
                            + heading_pass_from(h@, e + 5)) =~= (out0 + heading_replacement(
                            h@,
                            i as int,
                            e as int,
                        )) + heading_pass_from(h@, e + 5));
                    }
                    i = e + 5;
                    continue;
                }
                proof {
                    assert(!heading_close_at(h@, e as int, h@[i + 2]));
                }
            }
        }
        proof {
            assert(heading_pass_from(h@, i as int) == seq![h@[i as int]] + heading_pass_from(
                h@,
                i + 1,
            ));
        }
        out.push(h[i]);
        proof {
            assert(out@ + heading_pass_from(h@, i + 1) =~= heading_pass_from(h@, 0));
        }
        i += 1;
    }
    out
}

/// What every code-block opening becomes: one fixed class, so one
/// stylesheet and one client-side highlighter cover all blocks.
pub open spec fn code_repl() -> Seq<char> {
    "<pre><code class=\"hljs\">"@
}

/// The code-block pass from position `i` on: an opening
/// `<pre><code>`, with or without a `language-` class, is normalized
/// to `code_repl`; everything else is copied.  Closing tags are left
/// alone: a block may span lines, and only the opening carries the
/// class.
pub open spec fn code_pass_from(s: Seq<char>, i: int) -> Seq<char>
    decreases s.len() - i when 0 <= i
{
    if i >= s.len() {
        Seq::empty()
    } else if match_at(s, "<pre><code"@, i) {
        if i + 11 <= s.len() && s[i + 10] == '>' {
            code_repl() + code_pass_from(
                s,
                if i + 11 > i {
                    i + 11
                } else {
                    i + 1
                },
            )
        } else if match_at(s, " class=\"language-"@, i + 10) {
            match spec_find_from(s, seq!['"'], i + 10 + " class=\"language-"@.len()) {
                Some(q) => {
                    if q + 2 <= s.len() && s[q + 1] == '>' {
                        code_repl() + code_pass_from(
                            s,
                            if q + 2 > i {
                                q + 2
                            } else {
                                i + 1
                            },
                        )
                    } else {
                        seq![s[i]] + code_pass_from(s, i + 1)
                    }
                },
                None => seq![s[i]] + code_pass_from(s, i + 1),
            }
        } else {
            seq![s[i]] + code_pass_from(s, i + 1)
        }
    } else {
        seq![s[i]] + code_pass_from(s, i + 1)
    }
}

/// Normalize every code-block opening to the fixed highlighting class.
pub fn code_pass(h: &Vec<char>) -> (r: Vec<char>)
    ensures
        r@ == code_pass_from(h@, 0),
{
    proof {
        reveal_strlit("<pre><code");
        reveal_strlit(" class=\"language-");
    }
    let n = h.len();
    let quot = char_vec('"');
    let pre = to_chars("<pre><code");
    let cls = to_chars(" class=\"language-");
    let mut out: Vec<char> = Vec::new();
    let mut i: usize = 0;
    proof {
        assert(out@ + code_pass_from(h@, 0) =~= code_pass_from(h@, 0));
    }
    while i < n
        invariant
            0 <= i <= n,
            n == h@.len(),
            quot@ == seq!['"'],
            pre@ == "<pre><code"@,
            cls@ == " class=\"language-"@,
            pre@.len() == 10,
            cls@.len() == 17,
            code_pass_from(h@, 0) == out@ + code_pass_from(h@, i as int),
        decreases n - i,
    {
        if n - i >= 10 && is_match_at(h, &pre, i) {
            if n - i >= 11 && h[i + 10] == '>' {
                let ghost out0 = out@;
                let mut repl = to_chars("<pre><code class=\"hljs\">");
                out.append(&mut repl);
                proof {
                    assert(out@ =~= out0 + code_repl());
                    assert(code_pass_from(h@, i as int) == code_repl() + code_pass_from(
                        h@,
                        i + 11,
                    ));
                    assert(out0 + (code_repl() + code_pass_from(h@, i + 11)) =~= (out0
                        + code_repl()) + code_pass_from(h@, i + 11));
                }
                i = i + 11;
                continue;
            } else if n - (i + 10) >= 17 && is_match_at(h, &cls, i + 10) {
                let found = find_from(h, &quot, i + 27);
                if let Some(q) = found {
                    proof {
                        lemma_find_from_some(h@, seq!['"'], i + 27);
                        assert(match_at(h@, seq!['"'], q as int));
                        assert(h@.subrange(q as int, q + 1)[0] == h@[q as int]);
                    }
                    if n - q >= 2 && h[q + 1] == '>' {
                        let ghost out0 = out@;
                        let mut repl = to_chars("<pre><code class=\"hljs\">");
                        out.append(&mut repl);
                        proof {
                            assert(out@ =~= out0 + code_repl());
                            assert(code_pass_from(h@, i as int) == code_repl() + code_pass_from(
                                h@,
                                q + 2,
                            ));
                            assert(out0 + (code_repl() + code_pass_from(h@, q + 2)) =~= (out0
                                + code_repl()) + code_pass_from(h@, q + 2));
                        }
                        i = q + 2;
                        continue;
                    }
                }
            }
        }
        proof {
            assert(code_pass_from(h@, i as int) == seq![h@[i as int]] + code_pass_from(h@, i + 1));
        }
        out.push(h[i]);
        proof {
            assert(out@ + code_pass_from(h@, i + 1) =~= code_pass_from(h@, 0));
        }
        i += 1;
    }
    out
}

/// The link pass from position `i` on: a plain `<a href="...">` whose
/// reference does not start with `#` is sent to a new browsing
/// context; fragment links and everything else are copied.
pub open spec fn link_pass_from(s: Seq<char>, i: int) -> Seq<char>
    decreases s.len() - i when 0 <= i
{
    if i >= s.len() {
        Seq::empty()
    } else if match_at(s, "<a href=\""@, i) {
        match spec_find_from(s, seq!['"'], i + "<a href=\""@.len()) {
            Some(q) => {
                if q + 2 <= s.len() && s[q + 1] == '>' && !(q > i + "<a href=\""@.len() && s[i
                    + "<a href=\""@.len()] == '#') {
                    "<a target=\"_blank\" href=\""@ + s.subrange(i + "<a href=\""@.len(), q)
                        + "\">"@ + link_pass_from(
                        s,
                        if q + 2 > i {
                            q + 2
                        } else {
                            i + 1
                        },
                    )
                } else {
                    seq![s[i]] + link_pass_from(s, i + 1)
                }
            },
            None => seq![s[i]] + link_pass_from(s, i + 1),
        }
    } else {
        seq![s[i]] + link_pass_from(s, i + 1)
    }
}

/// Send every non-fragment link to a new browsing context.
pub fn link_pass(h: &Vec<char>) -> (r: Vec<char>)
    ensures
        r@ == link_pass_from(h@, 0),
{
    proof {
        reveal_strlit("<a href=\"");
    }
    let n = h.len();
    let quot = char_vec('"');
    let opener = to_chars("<a href=\"");
    let mut out: Vec<char> = Vec::new();
    let mut i: usize = 0;
    proof {
        assert(out@ + link_pass_from(h@, 0) =~= link_pass_from(h@, 0));
    }
    while i < n
        invariant
            0 <= i <= n,
            n == h@.len(),
            quot@ == seq!['"'],
            opener@ == "<a href=\""@,
            opener@.len() == 9,
            link_pass_from(h@, 0) == out@ + link_pass_from(h@, i as int),
        decreases n - i,
    {
        if n - i >= 9 && is_match_at(h, &opener, i) {
            let found = find_from(h, &quot, i + 9);
            if let Some(q) = found {
                proof {
                    lemma_find_from_some(h@, seq!['"'], i + 9);
                    assert(match_at(h@, seq!['"'], q as int));
                    assert(h@.subrange(q as int, q + 1)[0] == h@[q as int]);
                }
                if n - q >= 2 && h[q + 1] == '>' && !(q > i + 9 && h[i + 9] == '#') {
                    let url = sub_vec(h, i + 9, q);
                    let ghost out0 = out@;
                    let mut head = to_chars("<a target=\"_blank\" href=\"");
                    out.append(&mut head);
                    extend_chars(&mut out, &url);
                    let mut tail = to_chars("\">");
                    out.append(&mut tail);
                    proof {
                        let repl = "<a target=\"_blank\" href=\""@ + h@.subrange(i + 9, q as int)
                            + "\">"@;
                        assert(out@ =~= out0 + repl);
                        assert(link_pass_from(h@, i as int) == repl + link_pass_from(h@, q + 2));
                        assert(out0 + (repl + link_pass_from(h@, q + 2)) =~= (out0 + repl)
                            + link_pass_from(h@, q + 2));
                    }
                    i = q + 2;
                    continue;
                }
            }
        }
        proof {
            assert(link_pass_from(h@, i as int) == seq![h@[i as int]] + link_pass_from(h@, i + 1));
        }
        out.push(h[i]);
        proof {
            assert(out@ + link_pass_from(h@, i + 1) =~= link_pass_from(h@, 0));
        }
        i += 1;
    }
    out
}

/// The HTML-level edits applied after serialization, in order: heading
/// anchors, code-block classes, link targets.
pub open spec fn spec_transform_html(s: Seq<char>) -> Seq<char> {
    link_pass_from(code_pass_from(heading_pass_from(s, 0), 0), 0)
}

/// Apply the three HTML-level edits to a serialized document.
pub fn transform_html(html: String) -> (r: String)
    ensures
        r@ == spec_transform_html(html@),
{
    let cs = to_chars(html.as_str());
    let a = heading_pass(&cs);
    let b = code_pass(&a);
    let c = link_pass(&b);
    chars_to_string(&c)
}

/// The sentinel an author writes on a line of its own to end the
/// summary.  Being an HTML comment, it never renders.
pub const SUMMARY_DIVIDER: &'static str = "<!-- More -->";

/// The divider as a character sequence.
pub open spec fn divider() -> Seq<char> {
    "<!-- More -->"@
}

/// The summary of a rendered document: everything before the first
/// divider, or the whole document when no divider occurs.
pub open spec fn summary_of(s: Seq<char>) -> Seq<char> {
    match spec_find_from(s, divider(), 0) {
        Some(k) => s.take(k),
        None => s,
    }
}

/// The document from position `j` on with every divider removed.
pub open spec fn strip_divider_from(s: Seq<char>, j: int) -> Seq<char>
    decreases s.len() + 1 - j when 0 <= j
{
    match spec_find_from(s, divider(), j) {
        Some(k) => if j <= k && k + divider().len() <= s.len() && k + divider().len() > j {
            s.subrange(j, k) + strip_divider_from(s, k + divider().len())
        } else {
            s.skip(j)
        },
        None => s.skip(j),
    }
}

/// Split a rendered document into its summary and its content with the
/// divider struck out, so the sentinel text shows up in neither.
pub fn split_summary(h: &Vec<char>) -> (r: (Vec<char>, Vec<char>))
    ensures
        r.0@ == summary_of(h@),
        r.1@ == strip_divider_from(h@, 0),
{
    proof {
        reveal_strlit("<!-- More -->");
    }
    let n = h.len();
    let div = to_chars(SUMMARY_DIVIDER);
    let summary = match find_from(h, &div, 0) {
        Some(k) => {
            proof {
                lemma_find_from_some(h@, divider(), 0);
            }
            sub_vec(h, 0, k)
        },
        None => sub_vec(h, 0, n),
    };
    proof {
        assert(h@.subrange(0, n as int) =~= h@);
        assert(summary@ == summary_of(h@));
    }
    let mut out: Vec<char> = Vec::new();
    let mut j: usize = 0;
    proof {
        assert(out@ + strip_divider_from(h@, 0) =~= strip_divider_from(h@, 0));
    }
    loop
        invariant_except_break
            strip_divider_from(h@, 0) == out@ + strip_divider_from(h@, j as int),
        invariant
            0 <= j <= n,
            n == h@.len(),
            div@ == divider(),
            div@.len() == 13,
        ensures
            out@ == strip_divider_from(h@, 0),
        decreases n + 1 - j,
    {
        match find_from(h, &div, j) {
            Some(k) => {
                proof {
                    lemma_find_from_some(h@, divider(), j as int);
                }
                let piece = sub_vec(h, j, k);
                extend_chars(&mut out, &piece);
                proof {
                    assert(strip_divider_from(h@, j as int) == h@.subrange(j as int, k as int)
                        + strip_divider_from(h@, k + 13));
                    assert((out@ + strip_divider_from(h@, k + 13)) =~= strip_divider_from(h@, 0));
                }
                j = k + 13;
            },
            None => {
                let piece = sub_vec(h, j, n);
                extend_chars(&mut out, &piece);
                proof {
                    assert(h@.subrange(j as int, n as int) =~= h@.skip(j as int));
                    assert(out@ =~= strip_divider_from(h@, 0));
                }
                break;
            },
        }
    }
    (summary, out)
}

} // verus!
