//! Front-end page assembly: pagination and the data each page shows.
//!
//! Templating itself lives at the boundary; what is verified here is
//! which posts a page lists, in which order, with which summaries, and
//! where its pagination links lead.

use vstd::prelude::*;

use crate::blog::{
    spec_find_or_render,
    spec_find_post,
    spec_load_list,
    CacheV,
    Post,
    PostContentCache,
    PostsList,
    PostV,
};
use crate::router::Router;
use crate::store::{KvStore, SKey, SVal};
use crate::text::to_chars;
use crate::utils::{check_digit, dec_digits, is_digit, usize_to_string, Config, Error, MyResult};

verus! {

/// Register the reader-facing routes: theme files and the feed.
pub fn build_routes(router: &mut Router)
    ensures
        final(router)@ =~= old(router)@ + seq!["/static/"@, "/feed.xml"@],
{
    router.add_route("/static/");
    router.add_route("/feed.xml");
    proof {
        assert(router@ =~= old(router)@ + seq!["/static/"@, "/feed.xml"@]);
    }
}

/// Every character is a decimal digit.
pub open spec fn all_digits(s: Seq<char>) -> bool {
    forall|i: int| 0 <= i < s.len() ==> is_digit(s[i])
}

/// The number a digit string writes.
pub open spec fn digits_val(s: Seq<char>) -> int
    decreases s.len(),
{
    if s.len() == 0 {
        0
    } else {
        digits_val(s.drop_last()) * 10 + ((s.last() as u32) - ('0' as u32))
    }
}

/// The number an optionally signed decimal string writes, if any: the
/// grammar of a standard integer parse.
pub open spec fn spec_parse_int(s: Seq<char>) -> Option<int> {
    if s.len() >= 2 && s.first() == '-' && all_digits(s.skip(1)) {
        Some(-digits_val(s.skip(1)))
    } else if s.len() >= 2 && s.first() == '+' && all_digits(s.skip(1)) {
        Some(digits_val(s.skip(1)))
    } else if s.len() >= 1 && all_digits(s) {
        Some(digits_val(s))
    } else {
        None
    }
}

/// The requested offset: none given reads as zero.
pub open spec fn spec_offset(param: Option<Seq<char>>) -> Option<int> {
    match param {
        Some(s) => spec_parse_int(s),
        None => Some(0),
    }
}

/// The link one page back: to the offset one page earlier, or to the
/// front page when that offset is zero.
pub open spec fn spec_prev(offset: int, per: int) -> Option<Seq<char>> {
    if offset > 0 {
        if offset - per > 0 {
            Some("/?offset="@ + dec_digits(offset - per))
        } else {
            Some("/"@)
        }
    } else {
        None
    }
}

/// The link one page forward, when more posts follow this page.
pub open spec fn spec_next(posts_len: int, offset: int, per: int) -> Option<Seq<char>> {
    if posts_len - offset > per {
        Some("/?offset="@ + dec_digits(offset + per))
    } else {
        None
    }
}

/// What pagination makes of a request: the offset it grants and the
/// two links, or nothing for an offset that is unparsable, negative,
/// or at or past the end of the list.
pub open spec fn spec_paginate(posts_len: int, param: Option<Seq<char>>, per: int) -> Option<
    (int, Option<Seq<char>>, Option<Seq<char>>),
> {
    match spec_offset(param) {
        Some(v) => if 0 <= v < posts_len {
            Some((v, spec_prev(v, per), spec_next(posts_len, v, per)))
        } else {
            None
        },
        None => None,
    }
}

/// The view of an optional string.
pub open spec fn opt_view(o: Option<String>) -> Option<Seq<char>> {
    match o {
        Some(s) => Some(s@),
        None => None,
    }
}

/// The view of an optional string slice.
pub open spec fn opt_str_view(o: Option<&str>) -> Option<Seq<char>> {
    match o {
        Some(s) => Some(s@),
        None => None,
    }
}

/// A granted page position and its two links.
pub struct Pagination {
    pub offset: usize,
    pub prev: Option<String>,
    pub next: Option<String>,
}

/// A digit string names a non-negative number.
proof fn lemma_digits_val_nonneg(s: Seq<char>)
    requires
        all_digits(s),
    ensures
        digits_val(s) >= 0,
    decreases s.len(),
{
    if s.len() > 0 {
        assert(forall|i: int| 0 <= i < s.len() - 1 ==> s.drop_last()[i] == s[i]);
        lemma_digits_val_nonneg(s.drop_last());
        assert(is_digit(s.last()));
    }
}

/// Parse a digit string against a bound: its value if within the
/// bound, or the fact that it lies beyond it.  `s` must be all digits.
fn parse_digits_bounded(cs: &Vec<char>, from: usize, bound: usize) -> (r: MyResult<usize>)
    requires
        from <= cs@.len(),
        forall|i: int| from <= i < cs@.len() ==> is_digit(cs@[i]),
    ensures
        match r {
            Ok(v) => digits_val(cs@.skip(from as int)) == v && v <= bound,
            Err(e) => digits_val(cs@.skip(from as int)) > bound && e is BadRequest,
        },
{
    let n = cs.len();
    let mut acc: usize = 0;
    let mut i: usize = from;
    let mut too_big = false;
    while i < n
        invariant
            from <= i <= n,
            n == cs@.len(),
            forall|k: int| from <= k < n ==> is_digit(cs@[k]),
            !too_big ==> acc == digits_val(cs@.subrange(from as int, i as int)) && acc <= bound,
            too_big ==> digits_val(cs@.subrange(from as int, i as int)) > bound,
        decreases n - i,
    {
        let c = cs[i];
        let d = (c as u32) - 48;
        proof {
            assert(is_digit(cs@[i as int]));
            assert(cs@.subrange(from as int, i + 1).drop_last() =~= cs@.subrange(
                from as int,
                i as int,
            ));
            assert(cs@.subrange(from as int, i + 1).last() == cs@[i as int]);
            if too_big {
                let v = digits_val(cs@.subrange(from as int, i as int));
                assert(v > bound >= 0);
                assert(v * 10 >= v) by (nonlinear_arith)
                    requires
                        v > 0,
                ;
            }
        }
        if !too_big {
            if acc > bound / 10 {
                proof {
                    let v = digits_val(cs@.subrange(from as int, i as int));
                    assert(v == acc);
                    assert(v * 10 > bound) by (nonlinear_arith)
                        requires
                            v > bound / 10,
                            bound >= 0,
                            v >= 0,
                    ;
                }
                too_big = true;
            } else {
                proof {
                    assert(acc * 10 <= (bound / 10) * 10) by (nonlinear_arith)
                        requires
                            0 <= acc <= bound / 10,
                    ;
                }
                let m10 = acc * 10;
                if (d as usize) > bound - m10 {
                    too_big = true;
                } else {
                    acc = m10 + (d as usize);
                }
            }
        }
        i += 1;
    }
    proof {
        assert(cs@.subrange(from as int, n as int) =~= cs@.skip(from as int));
    }
    if too_big {
        Err(Error::BadRequest(String::from_str("invalid offset")))
    } else {
        Ok(acc)
    }
}

/// Grant or refuse a page request.  A request that cannot be read as a
/// number, asks for a negative offset, or points at or past the end of
/// the list is refused as malformed.
pub fn paginate(posts_len: usize, offset_param: Option<&str>, posts_per_page: usize) -> (r:
    MyResult<Pagination>)
    ensures
        match r {
            Ok(p) => spec_paginate(
                posts_len as int,
                opt_str_view(offset_param),
                posts_per_page as int,
            ) == Some((p.offset as int, opt_view(p.prev), opt_view(p.next))),
            Err(e) => spec_paginate(
                posts_len as int,
                opt_str_view(offset_param),
                posts_per_page as int,
            ) is None && e is BadRequest,
        },
{
    let off: usize = match offset_param {
        None => 0,
        Some(s) => {
            let cs = to_chars(s);
            let n = cs.len();
            if n == 0 {
                return Err(Error::BadRequest(String::from_str("Failed to parse offset")));
            }
            let first = cs[0];
            let start: usize = if first == '-' || first == '+' {
                1
            } else {
                0
            };
            if n == start {
                proof {
                    if start == 1 {
                        assert(!is_digit(cs@[0]));
                    }
                }
                return Err(Error::BadRequest(String::from_str("Failed to parse offset")));
            }
            let mut k = start;
            while k < n
                invariant
                    start <= k <= n,
                    n == cs@.len(),
                    cs@ == s@,
                    offset_param == Some(s),
                    start == 0 || start == 1,
                    start == 1 ==> (cs@[0] == '-' || cs@[0] == '+'),
                    start == 0 ==> n >= 1 && cs@[0] != '-' && cs@[0] != '+',
                    forall|j: int| start <= j < k ==> is_digit(cs@[j]),
                decreases n - k,
            {
                if !check_digit(cs[k]) {
                    proof {
                        assert(!is_digit('-'));
                        assert(!is_digit('+'));
                        if start == 1 {
                            assert(s@.skip(1)[k - 1] == s@[k as int]);
                            assert(!all_digits(s@.skip(1)));
                            assert(!all_digits(s@));
                        } else {
                            assert(!all_digits(s@));
                        }
                        assert(spec_parse_int(s@) is None);
                    }
                    return Err(Error::BadRequest(String::from_str("Failed to parse offset")));
                }
                k += 1;
            }
            proof {
                if start == 1 {
                    assert(forall|j: int|
                        0 <= j < s@.skip(1).len() ==> s@.skip(1)[j] == s@[j + 1]);
                    assert(all_digits(s@.skip(1)));
                    assert(s@.subrange(1, n as int) =~= s@.skip(1));
                } else {
                    assert(all_digits(s@));
                    assert(s@.subrange(0, n as int) =~= s@);
                    assert(s@.skip(0) =~= s@);
                }
            }
            if first == '-' {
                // A negative offset can only be the number zero written
                // with a minus sign; anything else is out of range.
                match parse_digits_bounded(&cs, 1, 0) {
                    Ok(_) => 0,
                    Err(_) => {
                        proof {
                            lemma_digits_val_nonneg(s@.skip(1));
                        }
                        return Err(Error::BadRequest(String::from_str("invalid offset")));
                    },
                }
            } else {
                match parse_digits_bounded(&cs, start, posts_len) {
                    Ok(v) => v,
                    Err(e) => {
                        return Err(e);
                    },
                }
            }
        },
    };
    if posts_len - off == 0 {
        return Err(Error::BadRequest(String::from_str("offset too large")));
    }
    let prev: Option<String> = if off > 0 {
        let new_offset: usize = if off > posts_per_page {
            off - posts_per_page
        } else {
            0
        };
        if new_offset != 0 {
            Some(String::from_str("/?offset=").concat(usize_to_string(new_offset).as_str()))
        } else {
            Some(String::from_str("/"))
        }
    } else {
        None
    };
    let next: Option<String> = if posts_len - off > posts_per_page {
        Some(String::from_str("/?offset=").concat(usize_to_string(off + posts_per_page).as_str()))
    } else {
        None
    };
    Ok(Pagination { offset: off, prev, next })
}

/// One entry of the front page or the feed.
pub struct HomePagePost {
    pub title: String,
    pub url: String,
    pub timestamp: u64,
    pub summary: String,
}

/// The mathematical value of a front-page entry.
#[verifier::ext_equal]
pub struct HomePagePostV {
    pub title: Seq<char>,
    pub url: Seq<char>,
    pub timestamp: u64,
    pub summary: Seq<char>,
}

impl View for HomePagePost {
    type V = HomePagePostV;

    open spec fn view(&self) -> HomePagePostV {
        HomePagePostV {
            title: self.title@,
            url: self.url@,
            timestamp: self.timestamp,
            summary: self.summary@,
        }
    }
}

impl DeepView for HomePagePost {
    type V = HomePagePostV;

    open spec fn deep_view(&self) -> HomePagePostV {
        self@
    }
}

/// The front-page entry a post and its rendering make.
pub open spec fn spec_home_entry(p: PostV, c: CacheV) -> HomePagePostV {
    HomePagePostV { title: p.title, url: p.url, timestamp: p.timestamp, summary: c.summary }
}

/// What listing the posts `us` does to the store and yields: each uuid
/// is resolved and rendered through the cache in order; a uuid whose
/// document is missing stops the walk, the store keeping the work done
/// up to it.
pub open spec fn spec_home_posts(m: Map<SKey, SVal>, us: Seq<Seq<char>>, ver: Seq<char>) -> (
    Option<Seq<HomePagePostV>>,
    Map<SKey, SVal>,
)
    decreases us.len(),
{
    if us.len() == 0 {
        (Some(Seq::empty()), m)
    } else {
        match spec_find_post(m, us.first()) {
            None => (None, m),
            Some(p) => {
                let cm = spec_find_or_render(m, p, ver);
                let rest = spec_home_posts(cm.1, us.drop_first(), ver);
                (
                    match rest.0 {
                        Some(r) => Some(seq![spec_home_entry(p, cm.0)] + r),
                        None => None,
                    },
                    rest.1,
                )
            },
        }
    }
}

/// The page of posts a front-page request shows.
pub struct HomePageData {
    pub posts: Vec<HomePagePost>,
    pub prev: Option<String>,
    pub next: Option<String>,
}

/// Assemble the front page (or the feed, which shows the same data):
/// grant the requested offset, then list one page of posts, rendering
/// each through the cache.  A listed uuid without a document is a
/// broken published list and surfaces as `NotFound`.
pub fn render_homepage(
    store: &mut KvStore,
    config: &Config,
    offset_param: Option<&str>,
    version: &str,
) -> (r: MyResult<HomePageData>)
    requires
        old(store).wf(),
    ensures
        final(store).wf(),
        ({
            let m0 = old(store)@;
            let l = spec_load_list(m0);
            let pg = spec_paginate(
                l.len() as int,
                opt_str_view(offset_param),
                config.posts_per_page as int,
            );
            match r {
                Ok(d) => match pg {
                    Some(t) => {
                        let off = t.0;
                        let cnt = if config.posts_per_page as int <= l.len() - off {
                            config.posts_per_page as int
                        } else {
                            l.len() - off
                        };
                        let hp = spec_home_posts(m0, l.subrange(off, off + cnt), version@);
                        &&& opt_view(d.prev) == t.1
                        &&& opt_view(d.next) == t.2
                        &&& hp.0 == Some(d.posts.deep_view())
                        &&& final(store)@ == hp.1
                    },
                    None => false,
                },
                Err(e) => match pg {
                    None => e is BadRequest && final(store)@ == m0,
                    Some(t) => {
                        let off = t.0;
                        let cnt = if config.posts_per_page as int <= l.len() - off {
                            config.posts_per_page as int
                        } else {
                            l.len() - off
                        };
                        let hp = spec_home_posts(m0, l.subrange(off, off + cnt), version@);
                        &&& hp.0 is None
                        &&& e is NotFound
                        &&& final(store)@ == hp.1
                    },
                },
            }
        }),
{
    let ghost m0 = store@;
    let list = PostsList::load(store);
    let posts_len = list.0.len();
    let pag = match paginate(posts_len, offset_param, config.posts_per_page) {
        Ok(p) => p,
        Err(e) => {
            proof {
                assert(posts_len as int == spec_load_list(m0).len() as int);
                assert(spec_paginate(
                    spec_load_list(m0).len() as int,
                    opt_str_view(offset_param),
                    config.posts_per_page as int,
                ) is None);
                assert(e is BadRequest);
                assert(store@ == m0);
            }
            return Err(e);
        },
    };
    let off = pag.offset;
    let cnt: usize = if config.posts_per_page <= posts_len - off {
        config.posts_per_page
    } else {
        posts_len - off
    };
    let ghost l = spec_load_list(m0);
    let ghost slice = l.subrange(off as int, off as int + cnt as int);
    let mut posts: Vec<HomePagePost> = Vec::new();
    let mut k: usize = 0;
    proof {
        assert(slice.skip(0) =~= slice);
        assert(posts.deep_view() + Seq::<HomePagePostV>::empty() =~= posts.deep_view());
    }
    while k < cnt
        invariant
            0 <= k <= cnt,
            off + cnt <= posts_len,
            posts_len == list.0@.len(),
            list@ == l,
            l == spec_load_list(m0),
            old(store)@ == m0,
            spec_paginate(
                l.len() as int,
                opt_str_view(offset_param),
                config.posts_per_page as int,
            ) == Some((off as int, opt_view(pag.prev), opt_view(pag.next))),
            cnt as int == (if config.posts_per_page as int <= l.len() - off as int {
                config.posts_per_page as int
            } else {
                l.len() - off as int
            }),
            slice == l.subrange(off as int, off as int + cnt as int),
            store.wf(),
            posts.deep_view().len() == k,
            spec_home_posts(m0, slice, version@).1 == spec_home_posts(
                store@,
                slice.skip(k as int),
                version@,
            ).1,
            spec_home_posts(m0, slice, version@).0 == match spec_home_posts(
                store@,
                slice.skip(k as int),
                version@,
            ).0 {
                Some(rest) => Some(posts.deep_view() + rest),
                None => None,
            },
        decreases cnt - k,
    {
        proof {
            assert(slice.skip(k as int).first() == slice[k as int]);
            assert(slice[k as int] == l[off + k]);
            assert(slice.skip(k as int).drop_first() =~= slice.skip(k + 1));
        }
        let uuid = list.0[off + k].clone();
        proof {
            assert(uuid@ == l[off + k]);
        }
        let post = match Post::find_by_uuid(store, uuid.as_str()) {
            Ok(p) => p,
            Err(e) => {
                return Err(e);
            },
        };
        let cache = PostContentCache::find_or_render(store, &post, version);
        let ghost pre = posts.deep_view();
        let ghost prevec = posts;
        posts.push(
            HomePagePost {
                title: post.title,
                url: post.url,
                timestamp: post.timestamp,
                summary: cache.summary,
            },
        );
        proof {
            assert forall|j: int| 0 <= j < posts.deep_view().len() implies posts.deep_view()[j]
                == (pre + seq![spec_home_entry(post@, cache@)])[j] by {
                if j < pre.len() {
                    assert(posts@[j] == prevec@[j]);
                }
            }
            assert(posts.deep_view() =~= pre + seq![spec_home_entry(post@, cache@)]);
            if spec_home_posts(store@, slice.skip(k + 1), version@).0 is Some {
                let rest = spec_home_posts(store@, slice.skip(k + 1), version@).0->0;
                assert((pre + seq![spec_home_entry(post@, cache@)]) + rest =~= pre + (seq![
                    spec_home_entry(post@, cache@),
                ] + rest));
            }
        }
        k += 1;
    }
    proof {
        assert(slice.skip(cnt as int) =~= Seq::<Seq<char>>::empty());
        assert(posts.deep_view() + Seq::<HomePagePostV>::empty() =~= posts.deep_view());
    }
    Ok(HomePageData { posts, prev: pag.prev, next: pag.next })
}

/// The data a single post's page shows.
pub struct PostPageData {
    pub title: String,
    pub url: String,
    pub timestamp: u64,
    pub content: String,
}

/// Assemble one post's page, rendering it through the cache.
pub fn render_post(store: &mut KvStore, post: Post, version: &str) -> (r: PostPageData)
    requires
        old(store).wf(),
    ensures
        final(store).wf(),
        ({
            let cm = spec_find_or_render(old(store)@, post@, version@);
            &&& r.title@ == post@.title
            &&& r.url@ == post@.url
            &&& r.timestamp == post@.timestamp
            &&& r.content@ == cm.0.content
            &&& final(store)@ == cm.1
        }),
{
    let cache = PostContentCache::find_or_render(store, &post, version);
    PostPageData {
        title: post.title,
        url: post.url,
        timestamp: post.timestamp,
        content: cache.content,
    }
}

} // verus!
