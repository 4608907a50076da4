//! The route table: path-prefix to table-name associations, configured
//! once at start time, and resolution of an inbound path to the table of
//! the longest matching prefix plus the residual identifier segment.

use vstd::prelude::*;
use crate::strutil::{check_identifier, is_identifier, str_eq, str_starts_with};

verus! {

/// One prefix-to-table association as supplied by the caller at start
/// time, before normalization.
pub struct RouteConfig {
    pub path: String,
    pub table_name: String,
}

/// One normalized route: `prefix` begins with `/` and, unless it is the
/// root route `/` itself, does not end with `/`.
#[derive(Debug)]
pub struct RouteEntry {
    pub prefix: String,
    pub table: String,
}

/// A prefix matches a path when they are equal or the path continues the
/// prefix past a `/` separator.
pub open spec fn route_matches(prefix: Seq<char>, path: Seq<char>) -> bool {
    path == prefix || prefix.push('/').is_prefix_of(path)
}

/// The path with every leading `/` removed.
pub open spec fn strip_leading_slashes(s: Seq<char>) -> Seq<char>
    decreases s.len(),
{
    if s.len() > 0 && s[0] == '/' {
        strip_leading_slashes(s.skip(1))
    } else {
        s
    }
}

/// The stored form of a prefix: starts with `/`, and only the root route
/// consists of a trailing `/`.
pub open spec fn normalized_prefix(p: Seq<char>) -> bool {
    p.len() > 0 && p[0] == '/' && (p.len() == 1 || p.last() != '/')
}

pub open spec fn with_leading_slash(p: Seq<char>) -> Seq<char> {
    if p.len() > 0 && p[0] == '/' {
        p
    } else {
        seq!['/'] + p
    }
}

pub open spec fn without_trailing_slashes(p: Seq<char>) -> Seq<char>
    decreases p.len(),
{
    if p.len() > 1 && p.last() == '/' {
        without_trailing_slashes(p.drop_last())
    } else {
        p
    }
}

/// The normalization applied to every configured route path.
pub open spec fn spec_normalize_prefix(p: Seq<char>) -> Seq<char> {
    without_trailing_slashes(with_leading_slash(p))
}

proof fn lemma_without_trailing_slashes_props(p: Seq<char>)
    requires
        p.len() > 0,
    ensures
        without_trailing_slashes(p).len() > 0,
        without_trailing_slashes(p)[0] == p[0],
        without_trailing_slashes(p).len() == 1 || without_trailing_slashes(p).last() != '/',
    decreases p.len(),
{
    if p.len() > 1 && p.last() == '/' {
        lemma_without_trailing_slashes_props(p.drop_last());
    }
}

/// Normalization yields a well-formed stored prefix.
pub proof fn lemma_normalize_prefix_wf(p: Seq<char>)
    ensures
        normalized_prefix(spec_normalize_prefix(p)),
{
    lemma_without_trailing_slashes_props(with_leading_slash(p));
}

/// Normalizes a configured route path.
pub fn normalize_prefix(p: &str) -> (r: String)
    ensures
        r@ == spec_normalize_prefix(p@),
{
    proof {
        reveal_strlit("/");
    }
    let with_lead: String = if p.unicode_len() > 0 && p.get_char(0) == '/' {
        p.to_owned()
    } else {
        let mut s = String::from_str("/");
        s.append(p);
        s
    };
    proof {
        assert(with_lead@ =~= with_leading_slash(p@));
    }
    let w = with_lead.as_str();
    let n = w.unicode_len();
    proof {
        assert(n >= 1);
        assert(w@.subrange(0, n as int) =~= w@);
    }
    let mut end = n;
    while end > 1 && w.get_char(end - 1) == '/'
        invariant
            1 <= end <= n,
            n == w@.len(),
            without_trailing_slashes(w@.subrange(0, end as int)) == without_trailing_slashes(w@),
        decreases end,
    {
        proof {
            let t = w@.subrange(0, end as int);
            assert(t.last() == w@[end - 1]);
            assert(t.drop_last() =~= w@.subrange(0, end - 1));
        }
        end = end - 1;
    }
    let r = w.substring_char(0, end).to_owned();
    proof {
        let t = w@.subrange(0, end as int);
        assert(!(t.len() > 1 && t.last() == '/'));
        assert(without_trailing_slashes(t) == t);
    }
    r
}

/// The route table. Its view is the sequence of `(prefix, table)` pairs
/// in registration order, duplicates already replaced.
#[derive(Debug)]
pub struct RouteTable {
    entries: Vec<RouteEntry>,
}

impl View for RouteTable {
    type V = Seq<(Seq<char>, Seq<char>)>;

    closed spec fn view(&self) -> Seq<(Seq<char>, Seq<char>)> {
        Seq::new(self.entries@.len(), |i: int| (self.entries@[i].prefix@, self.entries@[i].table@))
    }
}

impl RouteTable {
    /// Every stored prefix is normalized and unique, and every table name
    /// passed the identifier check.
    pub open spec fn wf(&self) -> bool {
        (forall|i: int|
            0 <= i < self@.len() ==> normalized_prefix(#[trigger] self@[i].0) && is_identifier(
                self@[i].1,
            )) && (forall|i: int, j: int|
            0 <= i < j < self@.len() ==> self@[i].0 != self@[j].0)
    }
}

/// Index of the first entry whose prefix equals `p`, if any.
pub open spec fn spec_find_prefix(entries: Seq<(Seq<char>, Seq<char>)>, p: Seq<char>) -> Option<
    int,
>
    decreases entries.len(),
{
    if entries.len() == 0 {
        None
    } else if entries[0].0 == p {
        Some(0)
    } else {
        match spec_find_prefix(entries.skip(1), p) {
            None => None,
            Some(i) => Some(i + 1),
        }
    }
}

proof fn lemma_find_prefix(entries: Seq<(Seq<char>, Seq<char>)>, p: Seq<char>)
    ensures
        match spec_find_prefix(entries, p) {
            Some(i) => 0 <= i < entries.len() && entries[i].0 == p && (forall|j: int|
                0 <= j < i ==> entries[j].0 != p),
            None => forall|j: int| 0 <= j < entries.len() ==> entries[j].0 != p,
        },
    decreases entries.len(),
{
    if entries.len() != 0 && entries[0].0 != p {
        lemma_find_prefix(entries.skip(1), p);
        assert forall|j: int| 1 <= j < entries.len() implies #[trigger] entries[j]
            == entries.skip(1)[j - 1] by {}
    }
}

/// Registering a route: a later route with an already-registered prefix
/// replaces the earlier one in place, as a map insert would.
pub open spec fn spec_insert_route(
    entries: Seq<(Seq<char>, Seq<char>)>,
    p: Seq<char>,
    t: Seq<char>,
) -> Seq<(Seq<char>, Seq<char>)> {
    match spec_find_prefix(entries, p) {
        Some(i) => entries.update(i, (p, t)),
        None => entries.push((p, t)),
    }
}

/// The table built from a configuration: each path normalized, each
/// table name checked, later duplicates replacing earlier ones.
pub open spec fn spec_routes(configs: Seq<RouteConfig>) -> Seq<(Seq<char>, Seq<char>)>
    decreases configs.len(),
{
    if configs.len() == 0 {
        Seq::empty()
    } else {
        spec_insert_route(
            spec_routes(configs.drop_last()),
            spec_normalize_prefix(configs.last().path@),
            configs.last().table_name@,
        )
    }
}

/// Builds the route table, rejecting the configuration at the first
/// table name that fails the identifier check.
pub fn build_route_table(configs: Vec<RouteConfig>) -> (r: Result<RouteTable, String>)
    ensures
        match r {
            Ok(rt) => rt.wf() && rt@ == spec_routes(configs@) && (forall|i: int|
                0 <= i < configs@.len() ==> is_identifier(#[trigger] configs@[i].table_name@)),
            Err(m) => exists|i: int|
                0 <= i < configs@.len() && !is_identifier(#[trigger] configs@[i].table_name@)
                    && m@ == "Invalid table name: "@ + configs@[i].table_name@ && (forall|j: int|
                    0 <= j < i ==> is_identifier(#[trigger] configs@[j].table_name@)),
        },
{
    let mut entries: Vec<RouteEntry> = Vec::new();
    let mut idx: usize = 0;
    let n = configs.len();
    while idx < n
        invariant
            0 <= idx <= n,
            n == configs@.len(),
            view_of(entries@) == spec_routes(configs@.subrange(0, idx as int)),
            forall|i: int|
                0 <= i < entries@.len() ==> normalized_prefix(#[trigger] entries@[i].prefix@)
                    && is_identifier(entries@[i].table@),
            forall|i: int, j: int|
                0 <= i < j < entries@.len() ==> entries@[i].prefix@ != entries@[j].prefix@,
            forall|i: int| 0 <= i < idx ==> is_identifier(#[trigger] configs@[i].table_name@),
        decreases n - idx,
    {
        let cfg = &configs[idx];
        if !check_identifier(cfg.table_name.as_str()) {
            return Err(String::from_str("Invalid table name: ").concat(cfg.table_name.as_str()));
        }
        let prefix = normalize_prefix(cfg.path.as_str());
        proof {
            lemma_normalize_prefix_wf(cfg.path@);
            lemma_find_prefix(view_of(entries@), prefix@);
            assert(forall|j: int|
                0 <= j < entries@.len() ==> #[trigger] view_of(entries@)[j].0 == entries@[j].prefix@);
        }
        let mut found: Option<usize> = None;
        let m = entries.len();
        let mut k: usize = 0;
        while k < m
            invariant
                0 <= k <= m,
                m == entries@.len(),
                match found {
                    None => forall|j: int| 0 <= j < k ==> #[trigger] entries@[j].prefix@ != prefix@,
                    Some(f) => 0 <= f < m && entries@[f as int].prefix@ == prefix@ && (forall|
                        j: int,
                    | 0 <= j < f ==> #[trigger] entries@[j].prefix@ != prefix@),
                },
            decreases m - k,
        {
            if found.is_none() && str_eq(entries[k].prefix.as_str(), prefix.as_str()) {
                found = Some(k);
            }
            k = k + 1;
        }
        let ghost old_view = view_of(entries@);
        let new_entry = RouteEntry { prefix, table: cfg.table_name.clone() };
        match found {
            Some(k) => {
                proof {
                    assert(view_of(entries@)[k as int].0 == entries@[k as int].prefix@);
                    assert(spec_find_prefix(old_view, new_entry.prefix@) == Some(k as int));
                }
                entries.set(k, new_entry);
                proof {
                    assert(view_of(entries@) =~= spec_insert_route(
                        old_view,
                        entries@[k as int].prefix@,
                        entries@[k as int].table@,
                    ));
                }
            },
            None => {
                proof {
                    assert(forall|j: int|
                        0 <= j < old_view.len() ==> #[trigger] old_view[j].0 == entries@[j].prefix@);
                    assert(spec_find_prefix(old_view, new_entry.prefix@) is None);
                }
                entries.push(new_entry);
                proof {
                    assert(view_of(entries@) =~= spec_insert_route(
                        old_view,
                        entries@[entries@.len() - 1].prefix@,
                        entries@[entries@.len() - 1].table@,
                    ));
                }
            },
        }
        proof {
            assert(configs@.subrange(0, idx + 1).drop_last() =~= configs@.subrange(0, idx as int));
            assert(configs@.subrange(0, idx + 1).last() == configs@[idx as int]);
        }
        idx = idx + 1;
    }
    proof {
        assert(configs@.subrange(0, n as int) =~= configs@);
    }
    let rt = RouteTable { entries };
    proof {
        assert(rt@ =~= view_of(rt.entries@));
    }
    Ok(rt)
}

/// The `(prefix, table)` view of a sequence of entries.
pub open spec fn view_of(entries: Seq<RouteEntry>) -> Seq<(Seq<char>, Seq<char>)> {
    Seq::new(entries.len(), |i: int| (entries[i].prefix@, entries[i].table@))
}

/// Index of the best route at or after position `i`: among the matching
/// prefixes the longest wins, and on (impossible, see
/// `lemma_equal_length_matches_are_equal`) ties the earliest registered.
pub open spec fn spec_best_from(
    entries: Seq<(Seq<char>, Seq<char>)>,
    path: Seq<char>,
    i: int,
) -> Option<int>
    decreases entries.len() - i,
    when 0 <= i <= entries.len()
{
    if i >= entries.len() {
        None
    } else {
        let rest = spec_best_from(entries, path, i + 1);
        if !route_matches(entries[i].0, path) {
            rest
        } else {
            match rest {
                Some(j) => if entries[j].0.len() > entries[i].0.len() {
                    Some(j)
                } else {
                    Some(i)
                },
                None => Some(i),
            }
        }
    }
}

/// The resolution contract: the table of the longest matching prefix and
/// the residual, the path after that prefix with leading `/` removed.
pub open spec fn spec_resolve(entries: Seq<(Seq<char>, Seq<char>)>, path: Seq<char>) -> Option<
    (Seq<char>, Seq<char>),
> {
    match spec_best_from(entries, path, 0) {
        None => None,
        Some(i) => Some(
            (entries[i].1, strip_leading_slashes(path.skip(entries[i].0.len() as int))),
        ),
    }
}

proof fn lemma_best_from(entries: Seq<(Seq<char>, Seq<char>)>, path: Seq<char>, i: int)
    requires
        0 <= i <= entries.len(),
    ensures
        (spec_best_from(entries, path, i) is Some) <==> (exists|k: int|
            i <= k < entries.len() && route_matches(#[trigger] entries[k].0, path)),
        match spec_best_from(entries, path, i) {
            Some(b) => i <= b < entries.len() && route_matches(entries[b].0, path) && (forall|
                k: int,
            |
                i <= k < entries.len() && route_matches(#[trigger] entries[k].0, path)
                    ==> entries[k].0.len() <= entries[b].0.len()),
            None => true,
        },
    decreases entries.len() - i,
{
    if i < entries.len() {
        lemma_best_from(entries, path, i + 1);
    }
}

/// Longest-prefix match: whenever resolution selects a route, its prefix
/// matches the path and has maximal length among all matching prefixes;
/// and a route is selected exactly when some prefix matches.
pub proof fn lemma_longest_prefix_match(entries: Seq<(Seq<char>, Seq<char>)>, path: Seq<char>)
    ensures
        (spec_resolve(entries, path) is Some) <==> (exists|k: int|
            0 <= k < entries.len() && route_matches(#[trigger] entries[k].0, path)),
        spec_resolve(entries, path) is Some ==> exists|b: int|
            0 <= b < entries.len() && #[trigger] route_matches(entries[b].0, path)
                && spec_resolve(entries, path) == Some(
                (entries[b].1, strip_leading_slashes(path.skip(entries[b].0.len() as int))),
            ) && (forall|k: int|
                0 <= k < entries.len() && route_matches(#[trigger] entries[k].0, path)
                    ==> entries[k].0.len() <= entries[b].0.len()),
{
    lemma_best_from(entries, path, 0);
}

/// Two matching prefixes of equal length are the same prefix, so the
/// longest-match rule never actually has to break a tie between distinct
/// routes of a well-formed table.
pub proof fn lemma_equal_length_matches_are_equal(a: Seq<char>, b: Seq<char>, path: Seq<char>)
    requires
        route_matches(a, path),
        route_matches(b, path),
        a.len() == b.len(),
    ensures
        a == b,
{
    assert forall|i: int| 0 <= i < a.len() implies a[i] == path[i] by {
        if path != a {
            assert(a.push('/').is_prefix_of(path));
            assert(a.push('/')[i] == a[i]);
            assert(path.subrange(0, a.push('/').len() as int)[i] == path[i]);
        }
    }
    assert forall|i: int| 0 <= i < b.len() implies b[i] == path[i] by {
        if path != b {
            assert(b.push('/').is_prefix_of(path));
            assert(b.push('/')[i] == b[i]);
            assert(path.subrange(0, b.push('/').len() as int)[i] == path[i]);
        }
    }
    assert(a =~= b);
}

impl RouteTable {
    /// Resolves `path` to the table of the longest matching prefix and
    /// the residual identifier segment.
    pub fn resolve(&self, path: &str) -> (r: Option<(String, String)>)
        ensures
            match r {
                Some(p) => spec_resolve(self@, path@) matches Some(s) && p.0@ == s.0 && p.1@
                    == s.1,
                None => spec_resolve(self@, path@) is None,
            },
    {
        proof {
            reveal_strlit("/");
        }
        let n = self.entries.len();
        proof {
            assert(self@.len() == n);
        }
        let mut best: Option<usize> = None;
        let mut i: usize = n;
        while i > 0
            invariant
                0 <= i <= n,
                n == self.entries@.len(),
                self@.len() == n,
                match best {
                    Some(b) => 0 <= b < n && spec_best_from(self@, path@, i as int) == Some(
                        b as int,
                    ),
                    None => spec_best_from(self@, path@, i as int) is None,
                },
            decreases i,
        {
            i = i - 1;
            let prefix = &self.entries[i].prefix;
            proof {
                assert(self@[i as int].0 == prefix@);
            }
            let pref_slash = prefix.clone().concat("/");
            proof {
                reveal_strlit("/");
                assert("/"@.len() == 1);
                assert("/"@[0] == '/');
                assert(pref_slash@ =~= prefix@.push('/'));
            }
            let matched = str_eq(path, prefix.as_str()) || str_starts_with(
                path,
                pref_slash.as_str(),
            );
            assert(matched == route_matches(self@[i as int].0, path@));
            if matched {
                best = match best {
                    Some(b) => {
                        proof {
                            assert(self@[b as int].0 == self.entries@[b as int].prefix@);
                        }
                        if self.entries[b].prefix.unicode_len() > prefix.unicode_len() {
                            Some(b)
                        } else {
                            Some(i)
                        }
                    },
                    None => Some(i),
                };
            }
        }
        match best {
            None => None,
            Some(b) => {
                let table = self.entries[b].table.clone();
                proof {
                    assert(self@[b as int].1 == table@);
                }
                let plen = self.entries[b].prefix.unicode_len();
                let path_len = path.unicode_len();
                proof {
                    lemma_best_from(self@, path@, 0);
                    assert(self@[b as int].0 == self.entries@[b as int].prefix@);
                    assert(route_matches(self@[b as int].0, path@));
                    assert(plen <= path_len);
                }
                let mut k = plen;
                while k < path_len && path.get_char(k) == '/'
                    invariant
                        plen <= k <= path_len,
                        path_len == path@.len(),
                        strip_leading_slashes(path@.skip(plen as int)) == strip_leading_slashes(
                            path@.skip(k as int),
                        ),
                    decreases path_len - k,
                {
                    proof {
                        assert(path@.skip(k as int)[0] == path@[k as int]);
                        assert(path@.skip(k as int).skip(1) =~= path@.skip(k + 1));
                    }
                    k = k + 1;
                }
                proof {
                    let t = path@.skip(k as int);
                    assert(!(t.len() > 0 && t[0] == '/'));
                    assert(strip_leading_slashes(t) == t);
                }
                let residual = path.substring_char(k, path_len).to_owned();
                proof {
                    assert(residual@ =~= path@.skip(k as int));
                }
                Some((table, residual))
            },
        }
    }
}

} // verus!
