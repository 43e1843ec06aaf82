//! The route table: an insertion-ordered list of path patterns, each with an
//! allowed-method list and a handler. Resolution scans in registration order
//! and returns the first structurally matching route. A pattern ending in
//! the two-character wildcard token `:?` matches any path that begins with
//! the text before the token; any other pattern requires exact equality.

use vstd::prelude::*;

use crate::strutil::str_eq;

verus! {

/// One registered route.
#[derive(Debug, Clone, PartialEq)]
pub struct Route<H> {
    pub path: String,
    pub methods: Vec<String>,
    pub handler: H,
}

/// A router: the address to serve on and the routes, in registration order.
#[derive(Debug, Clone, PartialEq)]
pub struct Router<H> {
    pub host: String,
    pub routes: Vec<Route<H>>,
}

/// Whether a pattern ends in the wildcard token `:?`.
pub open spec fn is_wildcard(p: Seq<char>) -> bool {
    p.len() >= 2 && p[p.len() - 2] == ':' && p[p.len() - 1] == '?'
}

/// Whether a path matches a pattern: by prefix for a wildcard pattern, by
/// equality otherwise.
pub open spec fn pattern_matches(p: Seq<char>, path: Seq<char>) -> bool {
    if is_wildcard(p) {
        path.len() >= p.len() - 2 && path.take(p.len() - 2) == p.take(p.len() - 2)
    } else {
        path == p
    }
}

/// The index of the first route whose pattern matches `path`, in registration
/// order, or -1 when no pattern matches.
pub open spec fn first_match<H>(routes: Seq<Route<H>>, path: Seq<char>) -> int
    decreases routes.len(),
{
    if routes.len() == 0 {
        -1
    } else if pattern_matches(routes[0].path@, path) {
        0
    } else {
        let r = first_match(routes.skip(1), path);
        if r < 0 {
            -1
        } else {
            r + 1
        }
    }
}

/// First-match-wins: `first_match` is the index of the first route, in
/// registration order, whose pattern matches the probe path; it is -1 exactly
/// when no route's pattern matches. Registration order is thus part of the
/// contract: a route is selected regardless of how many later routes would
/// also match.
pub proof fn law_first_match<H>(routes: Seq<Route<H>>, path: Seq<char>)
    ensures
        first_match(routes, path) == -1 || 0 <= first_match(routes, path) < routes.len(),
        first_match(routes, path) >= 0 ==> pattern_matches(
            routes[first_match(routes, path)].path@,
            path,
        ),
        forall|j: int|
            0 <= j < routes.len() && (first_match(routes, path) == -1 || j < first_match(
                routes,
                path,
            )) ==> !pattern_matches(routes[j].path@, path),
    decreases routes.len(),
{
    if routes.len() == 0 {
    } else if pattern_matches(routes[0].path@, path) {
    } else {
        law_first_match(routes.skip(1), path);
        assert forall|j: int|
            0 <= j < routes.len() && (first_match(routes, path) == -1 || j < first_match(
                routes,
                path,
            )) implies !pattern_matches(routes[j].path@, path) by {
            if j > 0 {
                assert(routes.skip(1)[j - 1] == routes[j]);
            }
        }
    }
}

/// `first_match` is the index of any matching route that no other precedes.
pub proof fn lemma_first_match_at<H>(routes: Seq<Route<H>>, path: Seq<char>, i: int)
    requires
        0 <= i < routes.len(),
        pattern_matches(routes[i].path@, path),
        forall|j: int| 0 <= j < i ==> !pattern_matches(#[trigger] routes[j].path@, path),
    ensures
        first_match(routes, path) == i,
    decreases routes.len(),
{
    if i == 0 {
    } else {
        assert(routes.skip(1)[i - 1] == routes[i]);
        assert forall|j: int| 0 <= j < i - 1 implies !pattern_matches(
            #[trigger] routes.skip(1)[j].path@,
            path,
        ) by {
            assert(routes.skip(1)[j] == routes[j + 1]);
        }
        lemma_first_match_at(routes.skip(1), path, i - 1);
    }
}

/// Decides whether one pattern matches one path.
pub fn matches_exec(pattern: &str, path: &str) -> (r: bool)
    ensures
        r == pattern_matches(pattern@, path@),
{
    let n = pattern.unicode_len();
    if n >= 2 && pattern.get_char(n - 2) == ':' && pattern.get_char(n - 1) == '?' {
        let plen = n - 2;
        let m = path.unicode_len();
        if m < plen {
            return false;
        }
        let mut i: usize = 0;
        while i < plen
            invariant
                i <= plen,
                is_wildcard(pattern@),
                plen == pattern@.len() - 2,
                plen <= m == path@.len(),
                forall|j: int| 0 <= j < i ==> path@[j] == pattern@[j],
            decreases plen - i,
        {
            if path.get_char(i) != pattern.get_char(i) {
                proof {
                    assert(path@.take(plen as int)[i as int] == path@[i as int]);
                    assert(pattern@.take(plen as int)[i as int] == pattern@[i as int]);
                }
                return false;
            }
            i = i + 1;
        }
        proof {
            assert(path@.take(plen as int) =~= pattern@.take(plen as int));
        }
        true
    } else {
        str_eq(pattern, path)
    }
}

impl<H> Router<H> {
    /// A router for the given address, with no routes yet.
    pub fn new(addr: &str) -> (r: Router<H>)
        ensures
            r.host@ == addr@,
            r.routes@ == Seq::<Route<H>>::empty(),
    {
        let r = Router { host: addr.to_owned(), routes: Vec::new() };
        proof {
            assert(r.routes@ =~= Seq::<Route<H>>::empty());
        }
        r
    }

    /// Registers a route at the end of the table. Routes are matched in the
    /// order they are registered, so a more specific pattern must come before
    /// a broader wildcard pattern that would shadow it.
    pub fn handle_func(&mut self, path: &str, handler: H, methods: Vec<&str>)
        ensures
            final(self).host == old(self).host,
            final(self).routes@.len() == old(self).routes@.len() + 1,
            final(self).routes@.drop_last() == old(self).routes@,
            final(self).routes@.last().path@ == path@,
            final(self).routes@.last().methods.deep_view() == methods.deep_view(),
            final(self).routes@.last().handler == handler,
    {
        let ghost mdv = methods.deep_view();
        let mut owned: Vec<String> = Vec::new();
        let mut i: usize = 0;
        while i < methods.len()
            invariant
                i <= methods@.len(),
                mdv == methods.deep_view(),
                owned@.len() == i,
                forall|j: int| 0 <= j < i ==> #[trigger] owned@[j]@ == mdv[j],
            decreases methods@.len() - i,
        {
            let m: &str = methods[i];
            owned.push(m.to_owned());
            i = i + 1;
        }
        proof {
            assert forall|j: int| 0 <= j < mdv.len() implies #[trigger] owned.deep_view()[j]
                == mdv[j] by {
                assert(owned@[j]@ == mdv[j]);
            }
            assert(owned.deep_view() =~= mdv);
        }
        let route = Route { path: path.to_owned(), methods: owned, handler };
        self.routes.push(route);
        proof {
            assert(final(self).routes@.drop_last() =~= old(self).routes@);
        }
    }
}

impl<H> Route<H> {
    /// The index of the first route whose pattern matches `path`.
    pub fn match_index(routes: &Vec<Route<H>>, path: &str) -> (r: Option<usize>)
        ensures
            match r {
                Some(i) => first_match(routes@, path@) == i as int,
                None => first_match(routes@, path@) == -1,
            },
    {
        let mut i: usize = 0;
        while i < routes.len()
            invariant
                i <= routes@.len(),
                forall|j: int| 0 <= j < i ==> !pattern_matches(#[trigger] routes@[j].path@, path@),
            decreases routes@.len() - i,
        {
            if matches_exec(routes[i].path.as_str(), path) {
                proof {
                    lemma_first_match_at(routes@, path@, i as int);
                }
                return Some(i);
            }
            i = i + 1;
        }
        proof {
            law_first_match(routes@, path@);
        }
        None
    }

    /// Resolves a path to the first route, in registration order, whose
    /// pattern matches it.
    pub fn match_route<'a>(routes: &'a Vec<Route<H>>, path: &str) -> (r: Option<&'a Route<H>>)
        ensures
            ({
                let i = first_match(routes@, path@);
                match r {
                    Some(rt) => i >= 0 && *rt == routes@[i],
                    None => i == -1,
                }
            }),
    {
        proof {
            law_first_match(routes@, path@);
        }
        match Self::match_index(routes, path) {
            Some(i) => Some(&routes[i]),
            None => None,
        }
    }

    /// Whether the route permits the given method: a separate check after
    /// resolution, so that a missing route and a forbidden method can be told
    /// apart.
    pub fn has_method(&self, method: &str) -> (r: bool)
        ensures
            r == self.methods.deep_view().contains(method@),
    {
        let mut i: usize = 0;
        while i < self.methods.len()
            invariant
                i <= self.methods@.len(),
                forall|j: int| 0 <= j < i ==> self.methods.deep_view()[j] != method@,
            decreases self.methods@.len() - i,
        {
            if str_eq(self.methods[i].as_str(), method) {
                assert(self.methods.deep_view()[i as int] == method@);
                return true;
            }
            i = i + 1;
        }
        false
    }
}

} // verus!
