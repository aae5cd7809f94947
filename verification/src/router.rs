//! Path dispatch for incoming requests.
//!
//! A route path ending in `/` matches every pathname it prefixes; any
//! other route path matches its pathname exactly.  Routes added
//! earlier win over routes added later.  The handlers themselves live
//! at the boundary; dispatch here names the route that fires by its
//! position, and no route firing falls through to the default handler.

use vstd::prelude::*;

use crate::text::{is_match_at, to_chars};

verus! {

/// Whether the route path `p` matches the request pathname `path`.
pub open spec fn route_matches(p: Seq<char>, path: Seq<char>) -> bool {
    if p.len() > 0 && p.last() == '/' {
        path.len() >= p.len() && path.take(p.len() as int) == p
    } else {
        path == p
    }
}

/// The position of the first route in `rs` that matches `path`.
pub open spec fn spec_dispatch(rs: Seq<Seq<char>>, path: Seq<char>) -> Option<int>
    decreases rs.len(),
{
    if rs.len() == 0 {
        None
    } else if route_matches(rs.first(), path) {
        Some(0int)
    } else {
        match spec_dispatch(rs.drop_first(), path) {
            Some(i) => Some(i + 1),
            None => None,
        }
    }
}

/// The ordered table of route paths.
pub struct Router {
    pub routes: Vec<String>,
}

impl View for Router {
    type V = Seq<Seq<char>>;

    open spec fn view(&self) -> Seq<Seq<char>> {
        self.routes.deep_view()
    }
}

impl Router {
    /// A router with no routes; everything falls through to the
    /// default handler.
    pub fn new() -> (r: Router)
        ensures
            r@ == Seq::<Seq<char>>::empty(),
    {
        Router { routes: Vec::new() }
    }

    /// Register a route after all existing ones.
    pub fn add_route(&mut self, path: &str)
        ensures
            final(self)@ == old(self)@.push(path@),
    {
        let ghost pre = self.routes;
        self.routes.push(path.to_owned());
        proof {
            assert forall|j: int| 0 <= j < self@.len() implies self@[j] == pre.deep_view().push(
                path@,
            )[j] by {
                if j < pre@.len() {
                    assert(self.routes@[j] == pre@[j]);
                } else {
                    assert(self.routes@[j]@ == path@);
                }
            }
            assert(self@ =~= pre.deep_view().push(path@));
        }
    }

    /// Which route serves `path`: the position of the first match, or
    /// nothing when the default handler should.
    pub fn execute(&self, path: &str) -> (r: Option<usize>)
        ensures
            match r {
                Some(i) => spec_dispatch(self@, path@) == Some(i as int),
                None => spec_dispatch(self@, path@) is None,
            },
    {
        let pc = to_chars(path);
        let n = self.routes.len();
        let mut i: usize = 0;
        proof {
            assert(self@.skip(0) =~= self@);
        }
        while i < n
            invariant
                0 <= i <= n,
                n == self.routes@.len(),
                pc@ == path@,
                spec_dispatch(self@, path@) == match spec_dispatch(
                    self@.skip(i as int),
                    path@,
                ) {
                    Some(k) => Some(k + i),
                    None => None,
                },
            decreases n - i,
        {
            proof {
                assert(self@.skip(i as int).first() == self@[i as int]);
                assert(self@.skip(i as int).drop_first() =~= self@.skip(i + 1));
            }
            let rc = to_chars(self.routes[i].as_str());
            let m = rc.len();
            let matched = if m > 0 && rc[m - 1] == '/' {
                pc.len() >= m && is_match_at(&pc, &rc, 0)
            } else {
                pc.len() == m && is_match_at(&pc, &rc, 0)
            };
            proof {
                assert(rc@.take(m as int) =~= rc@);
                if pc@.len() >= m {
                    assert(pc@.subrange(0, m as int) =~= pc@.take(m as int));
                }
                if pc@.len() == m && pc@.take(m as int) == rc@ {
                    assert(pc@ =~= rc@);
                }
            }
            if matched {
                return Some(i);
            }
            proof {
                assert(!route_matches(self@[i as int], path@));
            }
            i += 1;
        }
        proof {
            assert(self@.skip(n as int) =~= Seq::<Seq<char>>::empty());
        }
        None
    }
}

} // verus!
