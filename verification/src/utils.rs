//! The error taxonomy, small character functions, URL slugs and the
//! content digest.

use vstd::prelude::*;

use crate::text::to_chars;
use sha1::Digest;

verus! {

/// Outcome classification for a failed request.  Every failure a caller
/// can see maps onto one of these, and each variant carries the short
/// reason string shown to the client.
#[derive(Debug)]
pub enum Error {
    NotFound(String),
    BadRequest(String),
    Unauthorized(String),
    InternalError,
}

pub type MyResult<T> = Result<T, Error>;

impl Error {
    /// The HTTP status the boundary sends for this failure.
    pub fn status_code(&self) -> (r: u16)
        ensures
            r == match self {
                Error::NotFound(_) => 404u16,
                Error::BadRequest(_) => 400u16,
                Error::Unauthorized(_) => 401u16,
                Error::InternalError => 500u16,
            },
    {
        match self {
            Error::NotFound(_) => 404,
            Error::BadRequest(_) => 400,
            Error::Unauthorized(_) => 401,
            Error::InternalError => 500,
        }
    }
}

impl Error {
    /// The reason line the boundary sends as the response body.
    pub fn message(self) -> (r: String)
        ensures
            r@ == match self {
                Error::NotFound(reason) => "Not Found, Reason: "@ + reason@,
                Error::BadRequest(reason) => "Bad Request, Reason: "@ + reason@,
                Error::Unauthorized(reason) => "Unauthorized, Reason: "@ + reason@,
                Error::InternalError => "Internal Error"@,
            },
    {
        match self {
            Error::NotFound(reason) => String::from_str("Not Found, Reason: ").concat(
                reason.as_str(),
            ),
            Error::BadRequest(reason) => String::from_str("Bad Request, Reason: ").concat(
                reason.as_str(),
            ),
            Error::Unauthorized(reason) => String::from_str("Unauthorized, Reason: ").concat(
                reason.as_str(),
            ),
            Error::InternalError => String::from_str("Internal Error"),
        }
    }
}

/// The character of one decimal digit.
pub open spec fn digit_char(n: int) -> char
    recommends
        0 <= n < 10,
{
    ((('0' as u32) + n as u32) as u8) as char
}

/// The decimal writing of a non-negative number, without sign or
/// padding.
pub open spec fn dec_digits(n: int) -> Seq<char>
    recommends
        n >= 0,
    decreases n when n >= 0
{
    if n < 10 {
        seq![digit_char(n)]
    } else {
        dec_digits(n / 10) + seq![digit_char(n % 10)]
    }
}

/// Write `n` in decimal.
pub fn usize_to_string(n: usize) -> (r: String)
    ensures
        r@ == dec_digits(n as int),
{
    let mut acc: Vec<char> = Vec::new();
    let mut m = n;
    while m >= 10
        invariant
            dec_digits(n as int) == dec_digits(m as int) + acc@,
        decreases m,
    {
        let d = m % 10;
        let ghost pre = acc@;
        acc.insert(0, ((48 + (d as u32)) as u8) as char);
        proof {
            assert(acc@ =~= seq![digit_char(d as int)] + pre);
            assert(dec_digits(m as int) == dec_digits(m as int / 10) + seq![
                digit_char(m as int % 10),
            ]);
            assert(dec_digits(m as int / 10) + (seq![digit_char(m as int % 10)] + pre)
                =~= (dec_digits(m as int / 10) + seq![digit_char(m as int % 10)]) + pre);
            assert(m as int / 10 == (m / 10) as int);
        }
        m = m / 10;
    }
    let ghost pre = acc@;
    acc.insert(0, ((48 + (m as u32)) as u8) as char);
    proof {
        assert(acc@ =~= seq![digit_char(m as int)] + pre);
        assert(dec_digits(m as int) == seq![digit_char(m as int)]);
    }
    crate::text::chars_to_string(&acc)
}

/// Deployment-time configuration, read once at start-up and passed to
/// the operations that need it.  The render cache's version tag is the
/// deployment's build identifier, so a redeploy invalidates every
/// entry.
pub struct Config {
    /// Shared secret that authorizes publish and delete calls.
    pub secret: String,
    pub title: String,
    pub lang: String,
    pub description: String,
    /// Identifier under which the authoring plugin registers itself.
    pub plugin_identifier: String,
    pub posts_per_page: usize,
    /// Lifetime, in seconds, granted to static responses.
    pub cache_maxage: u64,
    /// Where the blog prefers to be linked, when that differs from the
    /// origin a request came in on.
    pub preferred_url: Option<String>,
    /// External URLs approved for proxying at deployment time, ahead
    /// of anything the render pipeline approves.
    pub extra_remote_proxy_whitelist: Option<Vec<String>>,
    /// Hard-coded redirects, tried before any route.
    pub redirects: Vec<(String, String)>,
}

/// An ASCII letter or digit.
pub open spec fn is_ascii_alnum(c: char) -> bool {
    ||| ('0' as u32) <= (c as u32) <= ('9' as u32)
    ||| ('a' as u32) <= (c as u32) <= ('z' as u32)
    ||| ('A' as u32) <= (c as u32) <= ('Z' as u32)
}

/// ASCII whitespace: space, tab, line feed, carriage return, form feed.
pub open spec fn is_ascii_space(c: char) -> bool {
    c == ' ' || c == '\t' || c == '\n' || c == '\r' || c == '\u{c}'
}

/// A white-space character: the Unicode White_Space code points, the
/// set a standard character classification reports.
pub open spec fn is_whitespace(c: char) -> bool {
    ||| c == '\t'
    ||| c == '\n'
    ||| c == '\u{b}'
    ||| c == '\u{c}'
    ||| c == '\r'
    ||| c == ' '
    ||| c == '\u{85}'
    ||| c == '\u{a0}'
    ||| c == '\u{1680}'
    ||| (0x2000 <= (c as u32) <= 0x200A)
    ||| c == '\u{2028}'
    ||| c == '\u{2029}'
    ||| c == '\u{202f}'
    ||| c == '\u{205f}'
    ||| c == '\u{3000}'
}

/// An ASCII decimal digit.
pub open spec fn is_digit(c: char) -> bool {
    ('0' as u32) <= (c as u32) <= ('9' as u32)
}

/// An upper-case ASCII letter mapped to lower case; anything else kept.
pub open spec fn lower_char(c: char) -> char {
    if ('A' as u32) <= (c as u32) <= ('Z' as u32) {
        ((c as u32) + 32) as char
    } else {
        c
    }
}

/// Executable form of `is_ascii_alnum`.
pub fn check_ascii_alnum(c: char) -> (r: bool)
    ensures
        r == is_ascii_alnum(c),
{
    let v = c as u32;
    (48 <= v && v <= 57) || (97 <= v && v <= 122) || (65 <= v && v <= 90)
}

/// Executable form of `is_ascii_space`.
pub fn check_ascii_space(c: char) -> (r: bool)
    ensures
        r == is_ascii_space(c),
{
    c == ' ' || c == '\t' || c == '\n' || c == '\r' || c == '\u{c}'
}

/// Executable form of `is_whitespace`.
pub fn check_whitespace(c: char) -> (r: bool)
    ensures
        r == is_whitespace(c),
{
    let v = c as u32;
    c == '\t' || c == '\n' || c == '\u{b}' || c == '\u{c}' || c == '\r' || c == ' ' || c
        == '\u{85}' || c == '\u{a0}' || c == '\u{1680}' || (0x2000 <= v && v <= 0x200A) || c
        == '\u{2028}' || c == '\u{2029}' || c == '\u{202f}' || c == '\u{205f}' || c == '\u{3000}'
}

/// Executable form of `is_digit`.
pub fn check_digit(c: char) -> (r: bool)
    ensures
        r == is_digit(c),
{
    let v = c as u32;
    48 <= v && v <= 57
}

/// Executable form of `lower_char`.
pub fn to_lower_char(c: char) -> (r: char)
    ensures
        r == lower_char(c),
{
    let v = c as u32;
    if 65 <= v && v <= 90 {
        ((v + 32) as u8) as char
    } else {
        c
    }
}

/// `s` with everything but ASCII letters, digits and whitespace
/// removed; whitespace means any Unicode White_Space character.
pub open spec fn spec_filter_non_ascii_alphanumeric(s: Seq<char>) -> Seq<char>
    decreases s.len(),
{
    if s.len() == 0 {
        Seq::empty()
    } else {
        spec_filter_non_ascii_alphanumeric(s.drop_last()) + (if is_ascii_alnum(s.last())
            || is_whitespace(s.last()) {
            seq![s.last()]
        } else {
            Seq::<char>::empty()
        })
    }
}

/// Remove every character that is neither ASCII alphanumeric nor
/// whitespace.
pub fn filter_non_ascii_alphanumeric(s: &str) -> (r: String)
    ensures
        r@ == spec_filter_non_ascii_alphanumeric(s@),
{
    let cs = to_chars(s);
    let n = cs.len();
    let mut out: Vec<char> = Vec::new();
    let mut i: usize = 0;
    while i < n
        invariant
            0 <= i <= n,
            n == cs@.len(),
            cs@ == s@,
            out@ == spec_filter_non_ascii_alphanumeric(s@.take(i as int)),
        decreases n - i,
    {
        let c = cs[i];
        proof {
            assert(s@.take(i + 1).drop_last() =~= s@.take(i as int));
            assert(s@.take(i + 1).last() == s@[i as int]);
        }
        if check_ascii_alnum(c) || check_whitespace(c) {
            out.push(c);
        }
        i += 1;
    }
    proof {
        assert(s@.take(n as int) =~= s@);
    }
    crate::text::chars_to_string(&out)
}

/// The slug of a title: ASCII letters and digits in lower case, each
/// maximal run of whitespace (any Unicode White_Space) between them
/// collapsed to one `-`, other characters dropped, nothing leading or
/// trailing.  `started` records
/// whether a kept character was already produced and `pending` whether
/// a separator is owed before the next one.
pub open spec fn slug_rec(s: Seq<char>, started: bool, pending: bool) -> Seq<char>
    decreases s.len(),
{
    if s.len() == 0 {
        Seq::empty()
    } else {
        let c = s.first();
        if is_ascii_alnum(c) {
            (if pending {
                seq!['-']
            } else {
                Seq::<char>::empty()
            }) + seq![lower_char(c)] + slug_rec(s.drop_first(), true, false)
        } else if is_whitespace(c) {
            slug_rec(s.drop_first(), started, started)
        } else {
            slug_rec(s.drop_first(), started, pending)
        }
    }
}

/// A post's URL: the first four characters of its uuid, a `/`, then the
/// slug of its title.  The uuid part keeps two posts whose titles
/// collapse to the same slug from sharing a URL.
pub open spec fn spec_title_to_url(uuid: Seq<char>, title: Seq<char>) -> Seq<char> {
    uuid.take(4) + seq!['/'] + slug_rec(title, false, false)
}

/// Derive the URL for a post from its uuid and title.
pub fn title_to_url(uuid: &str, title: &str) -> (r: String)
    requires
        uuid@.len() >= 4,
    ensures
        r@ == spec_title_to_url(uuid@, title@),
{
    let uc = to_chars(uuid);
    let tc = to_chars(title);
    let n = tc.len();
    let mut out: Vec<char> = Vec::new();
    out.push(uc[0]);
    out.push(uc[1]);
    out.push(uc[2]);
    out.push(uc[3]);
    out.push('/');
    proof {
        assert(out@ =~= uuid@.take(4) + seq!['/']);
        assert(title@.skip(0) =~= title@);
    }
    let mut started = false;
    let mut pending = false;
    let mut i: usize = 0;
    while i < n
        invariant
            0 <= i <= n,
            n == tc@.len(),
            tc@ == title@,
            spec_title_to_url(uuid@, title@) == out@ + slug_rec(
                title@.skip(i as int),
                started,
                pending,
            ),
        decreases n - i,
    {
        let c = tc[i];
        proof {
            assert(title@.skip(i as int).first() == title@[i as int]);
            assert(title@.skip(i as int).drop_first() =~= title@.skip(i + 1));
        }
        if check_ascii_alnum(c) {
            if pending {
                out.push('-');
            }
            out.push(to_lower_char(c));
            started = true;
            pending = false;
        } else if check_whitespace(c) {
            pending = started;
        }
        proof {
            assert(spec_title_to_url(uuid@, title@) == out@ + slug_rec(
                title@.skip(i + 1),
                started,
                pending,
            ));
        }
        i += 1;
    }
    proof {
        assert(title@.skip(n as int) =~= Seq::<char>::empty());
    }
    crate::text::chars_to_string(&out)
}

/// The anchor derived from a heading's text, kept URL-safe: letters
/// and digits are lowered, each ASCII whitespace character becomes a
/// `-`, and everything else, exotic white space included, is
/// stripped.
pub open spec fn anchor_of(s: Seq<char>) -> Seq<char>
    decreases s.len(),
{
    if s.len() == 0 {
        Seq::empty()
    } else {
        anchor_of(s.drop_last()) + (if is_ascii_alnum(s.last()) {
            seq![lower_char(s.last())]
        } else if is_ascii_space(s.last()) {
            seq!['-']
        } else {
            Seq::<char>::empty()
        })
    }
}

/// Executable form of `anchor_of` over a character vector.
pub fn anchor_chars(v: &Vec<char>) -> (r: Vec<char>)
    ensures
        r@ == anchor_of(v@),
{
    let n = v.len();
    let mut out: Vec<char> = Vec::new();
    let mut i: usize = 0;
    while i < n
        invariant
            0 <= i <= n,
            n == v@.len(),
            out@ == anchor_of(v@.take(i as int)),
        decreases n - i,
    {
        let c = v[i];
        proof {
            assert(v@.take(i + 1).drop_last() =~= v@.take(i as int));
            assert(v@.take(i + 1).last() == v@[i as int]);
        }
        if check_ascii_alnum(c) {
            out.push(to_lower_char(c));
        } else if check_ascii_space(c) {
            out.push('-');
        }
        i += 1;
    }
    proof {
        assert(v@.take(n as int) =~= v@);
    }
    out
}

/// The hex digest the subsystem uses to detect content edits.  Nothing
/// is assumed of its value beyond determinism: the same text always
/// digests to the same string.
pub uninterp spec fn sha1_hex_of(s: Seq<char>) -> Seq<char>;

/// A lower-case hexadecimal digit.
pub open spec fn is_lower_hex(c: char) -> bool {
    ||| ('0' as u32) <= (c as u32) <= ('9' as u32)
    ||| ('a' as u32) <= (c as u32) <= ('f' as u32)
}

/// Relies on the `sha1` crate's `Sha1` and `hex::encode`: the SHA-1
/// digest of the UTF-8 bytes of `s`, written as lower-case hex.  The
/// digest is 20 bytes and `hex::encode` writes two lower-case digits
/// per byte, so the result has 40 hex characters, and it depends on
/// `s` alone.
#[verifier::external_body]
pub fn sha1(s: &str) -> (r: String)
    ensures
        r@ == sha1_hex_of(s@),
        r@.len() == 40,
        forall|i: int| 0 <= i < r@.len() ==> is_lower_hex(r@[i]),
{
    hex::encode(sha1::Sha1::digest(s.as_bytes()))
}

} // verus!
