//! Cursor extraction from a transport link header. An entry yields a cursor
//! only when it carries both the `next` relation and the active-results
//! flag; a `next` link without `results="true"` must not yield a cursor.
//! The match is case-sensitive, takes the leftmost entry, and the shortest
//! URL at that position; a capture never spans a line break.

use vstd::prelude::*;
use vstd::string::StrSliceExecFns;
use vstd::string::StringExecFns;
use crate::text::str_eq;

verus! {

/// The text that must follow the cursor URL: the `next` relation together
/// with the results flag, both required.
pub open spec fn next_marker() -> Seq<char> {
    ">; rel=\"next\"; results=\"true\""@
}

/// A match of the cursor pattern inside the header: `<` at `i`, a non-empty
/// capture free of line breaks, and the marker starting at `j`.
pub open spec fn link_match_at(s: Seq<char>, i: int, j: int) -> bool {
    &&& 0 <= i
    &&& i + 2 <= j
    &&& j + next_marker().len() <= s.len()
    &&& s[i] == '<'
    &&& (forall|k: int| i < k < j ==> s[k] != '\n')
    &&& s.subrange(j, j + next_marker().len()) == next_marker()
}

/// The URL between the angle bracket and the marker.
pub open spec fn capture(s: Seq<char>, i: int, j: int) -> Seq<char> {
    s.subrange(i + 1, j)
}

/// The cursor a header yields: the leftmost match, with the shortest
/// capture at that position; none when no entry matches.
pub open spec fn cursor_matches(s: Seq<char>, r: Option<Seq<char>>) -> bool {
    match r {
        None => forall|i: int, j: int| !link_match_at(s, i, j),
        Some(c) => exists|i: int, j: int|
            {
                &&& #[trigger] link_match_at(s, i, j)
                &&& c == capture(s, i, j)
                &&& (forall|i2: int, j2: int| i2 < i ==> !link_match_at(s, i2, j2))
                &&& (forall|j2: int| j2 < j ==> !link_match_at(s, i as int, j2))
            },
    }
}

fn marker_at(h: &str, j: usize, mlen: usize, n: usize) -> (r: bool)
    requires
        mlen == next_marker().len(),
        n == h@.len(),
        j + mlen <= n,
    ensures
        r == (h@.subrange(j as int, j as int + next_marker().len()) == next_marker()),
{
    let m = ">; rel=\"next\"; results=\"true\"";
    str_eq(h.substring_char(j, j + mlen), m)
}

/// Scans for the shortest match that starts at `i`.
fn scan_at(h: &str, i: usize, limit: usize, mlen: usize, n: usize) -> (r: Option<usize>)
    requires
        mlen == next_marker().len(),
        mlen >= 1,
        n == h@.len(),
        limit + mlen == n,
        i < h@.len(),
        h@[i as int] == '<',
        i + 2 <= limit,
    ensures
        match r {
            Some(j) => i + 2 <= j <= limit && link_match_at(h@, i as int, j as int) && (forall|
                j2: int,
            |
                j2 < j ==> !link_match_at(h@, i as int, j2)),
            None => forall|j2: int| !link_match_at(h@, i as int, j2),
        },
{
    let mut j = i + 2;
    while j <= limit
        invariant
            mlen == next_marker().len(),
            mlen >= 1,
            n == h@.len(),
            limit + mlen == n,
            i < h@.len(),
            h@[i as int] == '<',
            i + 2 <= j,
            j <= limit + 1,
            forall|k: int| i < k < j - 1 ==> h@[k] != '\n',
            forall|j2: int| j2 < j ==> !link_match_at(h@, i as int, j2),
        decreases limit + 1 - j,
    {
        if h.get_char(j - 1) == '\n' {
            proof {
                assert forall|j2: int| !link_match_at(h@, i as int, j2) by {
                    if j2 >= j {
                        assert(i < j - 1 < j2);
                        assert(h@[j - 1] == '\n');
                    }
                }
            }
            return None;
        }
        if marker_at(h, j, mlen, n) {
            return Some(j);
        }
        j = j + 1;
    }
    None
}

/// Reads the continuation cursor out of a link header, when one is present
/// and flagged as having further results. An absent or unmatched header
/// yields none; this is never an error.
pub fn get_next_link(link_header: Option<&str>) -> (r: Option<String>)
    ensures
        match link_header {
            None => r is None,
            Some(h) => match r {
                None => cursor_matches(h@, None),
                Some(c) => cursor_matches(h@, Some(c@)),
            },
        },
{
    let h = match link_header {
        Some(h) => h,
        None => {
            return None;
        },
    };
    let m = ">; rel=\"next\"; results=\"true\"";
    let mlen = m.unicode_len();
    let n = h.unicode_len();
    proof {
        reveal_strlit(">; rel=\"next\"; results=\"true\"");
        assert(mlen >= 1);
    }
    if n < mlen {
        return None;
    }
    let limit = n - mlen;
    let mut i: usize = 0;
    while i < n
        invariant
            link_header == Some(h),
            n == h@.len(),
            mlen == next_marker().len(),
            mlen >= 1,
            mlen <= n,
            limit == n - mlen,
            i <= n,
            forall|i2: int, j2: int| i2 < i ==> !link_match_at(h@, i2, j2),
        decreases n - i,
    {
        if h.get_char(i) == '<' && limit >= 2 && i <= limit - 2 {
            match scan_at(h, i, limit, mlen, n) {
                Some(j) => {
                    let cap = h.substring_char(i + 1, j);
                    let out = String::from_str(cap);
                    proof {
                        assert(link_match_at(h@, i as int, j as int) && out@ == capture(
                            h@,
                            i as int,
                            j as int,
                        ) && (forall|i2: int, j2: int| i2 < i ==> !link_match_at(h@, i2, j2)) && (
                        forall|j2: int| j2 < j ==> !link_match_at(h@, i as int, j2)));
                        assert(cursor_matches(h@, Some(out@)));
                    }
                    return Some(out);
                },
                None => {},
            }
        }
        i = i + 1;
    }
    None
}

} // verus!
