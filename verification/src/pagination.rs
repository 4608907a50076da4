//! Pagination: parsing `page` and `pageSize` out of the query string
//! with fallback to defaults, the page count formula, and the row
//! offset of a page.

use vstd::prelude::*;
use crate::strutil::{find_char_from, lemma_find_char, parse_u32, spec_find_char, spec_parse_u32,
    str_eq};

verus! {

/// Number of pages needed for `total` rows at `page_size` rows per page:
/// `ceil(total / page_size)`, saturated to `u32::MAX`, and 0 for an empty
/// (or degraded, negative) total.
pub open spec fn spec_page_count(total: int, page_size: int) -> int
    recommends
        page_size >= 1,
{
    if total <= 0 {
        0
    } else {
        let c = (total - 1) / page_size + 1;
        if c > u32::MAX {
            u32::MAX as int
        } else {
            c
        }
    }
}

/// The page count is exactly the ceiling of `total / page_size`: all
/// rows fit in that many pages, and one page fewer would not hold them
/// (below the saturation bound).
pub proof fn lemma_page_count_is_ceil(total: int, page_size: int)
    requires
        page_size >= 1,
        total >= 0,
        spec_page_count(total, page_size) < u32::MAX,
    ensures
        spec_page_count(total, page_size) * page_size >= total,
        total > 0 ==> (spec_page_count(total, page_size) - 1) * page_size < total,
        total == 0 ==> spec_page_count(total, page_size) == 0,
{
    if total > 0 {
        let q = (total - 1) / page_size;
        let r = (total - 1) % page_size;
        vstd::arithmetic::div_mod::lemma_fundamental_div_mod(total - 1, page_size);
        vstd::arithmetic::div_mod::lemma_mod_bound(total - 1, page_size);
        assert((q + 1) * page_size == q * page_size + page_size) by (nonlinear_arith);
        assert(q * page_size == (total - 1) - r);
    }
}

/// Computes `ceil(total / page_size)` in integer arithmetic.
pub fn page_count(total: i64, page_size: u32) -> (r: u32)
    requires
        page_size >= 1,
    ensures
        r == spec_page_count(total as int, page_size as int),
{
    if total <= 0 {
        0
    } else {
        let c: u64 = (total as u64 - 1) / (page_size as u64) + 1;
        if c > u32::MAX as u64 {
            u32::MAX
        } else {
            c as u32
        }
    }
}

/// The index of the first row of `page`: `(page - 1) * page_size`.
pub fn page_offset(page: u32, page_size: u32) -> (r: u64)
    requires
        page >= 1,
    ensures
        r == (page - 1) * page_size,
{
    let a: u64 = (page - 1) as u64;
    let b: u64 = page_size as u64;
    proof {
        assert(a * b <= u32::MAX as u64 * u32::MAX as u64) by (nonlinear_arith)
            requires
                a <= u32::MAX as u64,
                b <= u32::MAX as u64,
        ;
    }
    a * b
}

/// Splits one `key=value` pair at the first `=`; a pair without `=` is
/// all key with an empty value.
pub open spec fn split_pair(pair: Seq<char>) -> (Seq<char>, Seq<char>) {
    match spec_find_char(pair, '=') {
        None => (pair, Seq::empty()),
        Some(i) => (pair.take(i), pair.skip(i + 1)),
    }
}

/// Folds one pair into the parse state `(page, pageSize, malformed)`.
/// A repeated key or an unparsable value marks the whole query
/// malformed, as a strict form decoder would; unknown keys are ignored.
pub open spec fn apply_pair(
    st: (Option<u32>, Option<u32>, bool),
    pair: Seq<char>,
) -> (Option<u32>, Option<u32>, bool) {
    let kv = split_pair(pair);
    if kv.0 == "page"@ {
        if st.0 is Some {
            (st.0, st.1, true)
        } else {
            match spec_parse_u32(kv.1) {
                None => (st.0, st.1, true),
                Some(n) => (Some(n), st.1, st.2),
            }
        }
    } else if kv.0 == "pageSize"@ {
        if st.1 is Some {
            (st.0, st.1, true)
        } else {
            match spec_parse_u32(kv.1) {
                None => (st.0, st.1, true),
                Some(n) => (st.0, Some(n), st.2),
            }
        }
    } else {
        st
    }
}

/// Folds the `&`-separated pairs of a query string, `cur` being the
/// pair read so far.
pub open spec fn scan_query(
    s: Seq<char>,
    cur: Seq<char>,
    st: (Option<u32>, Option<u32>, bool),
) -> (Option<u32>, Option<u32>, bool)
    decreases s.len(),
{
    if s.len() == 0 {
        apply_pair(st, cur)
    } else if s[0] == '&' {
        scan_query(s.skip(1), Seq::empty(), apply_pair(st, cur))
    } else {
        scan_query(s.skip(1), cur.push(s[0]), st)
    }
}

/// The effective `(page, pageSize)` of a list request: parsed values
/// where the query supplies them well-formed, defaults otherwise, and
/// both clamped to at least 1. A malformed query falls back to defaults
/// entirely rather than failing the request.
pub open spec fn spec_pagination(q: Seq<char>, dps: u32) -> (u32, u32) {
    let st = scan_query(q, Seq::empty(), (None, None, false));
    let p0 = if st.2 {
        None
    } else {
        st.0
    };
    let s0 = if st.2 {
        None
    } else {
        st.1
    };
    let p = match p0 {
        Some(p) => if p >= 1 {
            p
        } else {
            1u32
        },
        None => 1u32,
    };
    let s = match s0 {
        Some(s) => if s >= 1 {
            s
        } else {
            1u32
        },
        None => if dps >= 1 {
            dps
        } else {
            1u32
        },
    };
    (p, s)
}

fn apply_pair_exec(pair: &str, st: (Option<u32>, Option<u32>, bool)) -> (r: (
    Option<u32>,
    Option<u32>,
    bool,
))
    ensures
        r == apply_pair(st, pair@),
{
    let m = pair.unicode_len();
    let found = find_char_from(pair, 0, '=');
    proof {
        lemma_find_char(pair@, '=');
    }
    let (k_end, v_start) = match found {
        Some(e) => {
            proof {
                assert(spec_find_char(pair@, '=') == Some(e as int));
            }
            (e, e + 1)
        },
        None => {
            proof {
                assert(spec_find_char(pair@, '=') is None);
            }
            (m, m)
        },
    };
    let k = pair.substring_char(0, k_end);
    let v = pair.substring_char(v_start, m);
    proof {
        assert(k@ =~= split_pair(pair@).0);
        assert(v@ =~= split_pair(pair@).1);
    }
    if str_eq(k, "page") {
        if st.0.is_some() {
            (st.0, st.1, true)
        } else {
            match parse_u32(v) {
                None => (st.0, st.1, true),
                Some(n) => (Some(n), st.1, st.2),
            }
        }
    } else if str_eq(k, "pageSize") {
        if st.1.is_some() {
            (st.0, st.1, true)
        } else {
            match parse_u32(v) {
                None => (st.0, st.1, true),
                Some(n) => (st.0, Some(n), st.2),
            }
        }
    } else {
        (st.0, st.1, st.2)
    }
}

/// Parses pagination out of an optional query string; a missing query
/// behaves as an empty one.
pub fn parse_pagination(query: Option<&str>, default_size: u32) -> (r: (u32, u32))
    ensures
        match query {
            Some(q) => r == spec_pagination(q@, default_size),
            None => r == spec_pagination(Seq::empty(), default_size),
        },
        r.0 >= 1,
        r.1 >= 1,
{
    let q: &str = match query {
        Some(q) => q,
        None => "",
    };
    proof {
        reveal_strlit("");
        assert(q@ =~= match query {
            Some(qq) => qq@,
            None => Seq::<char>::empty(),
        });
    }
    let n = q.unicode_len();
    let mut st: (Option<u32>, Option<u32>, bool) = (None, None, false);
    let mut start: usize = 0;
    let mut i: usize = 0;
    proof {
        assert(q@.skip(0) =~= q@);
        assert(q@.subrange(0, 0) =~= Seq::<char>::empty());
    }
    while i < n
        invariant
            0 <= start <= i <= n,
            n == q@.len(),
            scan_query(q@, Seq::empty(), (None, None, false)) == scan_query(
                q@.skip(i as int),
                q@.subrange(start as int, i as int),
                st,
            ),
        decreases n - i,
    {
        let c = q.get_char(i);
        proof {
            assert(q@.skip(i as int)[0] == q@[i as int]);
            assert(q@.skip(i as int).skip(1) =~= q@.skip(i + 1));
        }
        if c == '&' {
            let pair = q.substring_char(start, i);
            proof {
                assert(pair@ =~= q@.subrange(start as int, i as int));
            }
            st = apply_pair_exec(pair, st);
            start = i + 1;
            proof {
                assert(q@.subrange(start as int, i + 1) =~= Seq::<char>::empty());
            }
        } else {
            proof {
                assert(q@.subrange(start as int, i + 1) =~= q@.subrange(start as int, i as int).push(
                    q@[i as int],
                ));
            }
        }
        i = i + 1;
    }
    let pair = q.substring_char(start, n);
    proof {
        assert(pair@ =~= q@.subrange(start as int, n as int));
        assert(q@.skip(n as int).len() == 0);
    }
    st = apply_pair_exec(pair, st);
    let page: u32 = if st.2 {
        1
    } else {
        match st.0 {
            Some(p) => if p >= 1 {
                p
            } else {
                1
            },
            None => 1,
        }
    };
    let size: u32 = if st.2 {
        if default_size >= 1 {
            default_size
        } else {
            1
        }
    } else {
        match st.1 {
            Some(s) => if s >= 1 {
                s
            } else {
                1
            },
            None => if default_size >= 1 {
                default_size
            } else {
                1
            },
        }
    };
    (page, size)
}

} // verus!
