//! Display projections: the data-shaping rules of the views. Listings put
//! bookmarked items first with a stable order, breadcrumbs show the most
//! recent entries up to a fixed cap with a truncation notice, stack frames
//! are shown most recent first with library frames flagged for optional
//! hiding, and only crashed or current threads are shown at all.

use vstd::prelude::*;
use vstd::string::StringExecFns;
use crate::decode::{ApiOrganization, ApiProject, ApiThread, Breadcrumb, Frame, Stacktrace};
use crate::seqs::{lemma_filter_all, lemma_filter_empty, lemma_filter_identity, lemma_filter_push};
use crate::text::{clone_string, dec_seq, u64_to_dec};

verus! {

/// How many breadcrumbs a detail page shows at most.
pub const MAX_BREADCRUMBS: usize = 20;

/// The bookmarked-first ordering of an organization listing: the bookmarked
/// items in their input order, then the others in theirs.
pub open spec fn orgs_bookmarked_first(s: Seq<ApiOrganization>) -> Seq<ApiOrganization> {
    s.filter(|o: ApiOrganization| o.is_bookmarked) + s.filter(
        |o: ApiOrganization| !o.is_bookmarked,
    )
}

/// The bookmarked-first ordering of a project listing.
pub open spec fn projects_bookmarked_first(s: Seq<ApiProject>) -> Seq<ApiProject> {
    s.filter(|p: ApiProject| p.is_bookmarked) + s.filter(|p: ApiProject| !p.is_bookmarked)
}

/// Sorts organizations bookmarked-first, keeping the server's order inside
/// each group.
pub fn sort_organizations(items: Vec<ApiOrganization>) -> (r: Vec<ApiOrganization>)
    ensures
        r@ == orgs_bookmarked_first(items@),
{
    let ghost orig = items@;
    let mut rest = items;
    let mut marked: Vec<ApiOrganization> = Vec::new();
    let mut plain: Vec<ApiOrganization> = Vec::new();
    let ghost mut done: Seq<ApiOrganization> = Seq::empty();
    proof {
        assert(orig =~= done + rest@);
        assert(marked@ =~= done.filter(|o: ApiOrganization| o.is_bookmarked)) by {
            reveal(Seq::filter);
        }
        assert(plain@ =~= done.filter(|o: ApiOrganization| !o.is_bookmarked)) by {
            reveal(Seq::filter);
        }
    }
    while rest.len() > 0
        invariant
            orig == done + rest@,
            marked@ == done.filter(|o: ApiOrganization| o.is_bookmarked),
            plain@ == done.filter(|o: ApiOrganization| !o.is_bookmarked),
        decreases rest@.len(),
    {
        let ghost pre = rest@;
        let x = rest.remove(0);
        proof {
            assert(x == pre[0]);
            assert(rest@ =~= pre.drop_first());
            assert(done.push(x) + rest@ =~= orig);
            lemma_filter_push(done, x, |o: ApiOrganization| o.is_bookmarked);
            lemma_filter_push(done, x, |o: ApiOrganization| !o.is_bookmarked);
            done = done.push(x);
        }
        if x.is_bookmarked {
            marked.push(x);
        } else {
            plain.push(x);
        }
    }
    proof {
        assert(done =~= orig);
    }
    marked.append(&mut plain);
    marked
}

/// Sorts projects bookmarked-first, keeping the server's order inside each
/// group.
pub fn sort_projects(items: Vec<ApiProject>) -> (r: Vec<ApiProject>)
    ensures
        r@ == projects_bookmarked_first(items@),
{
    let ghost orig = items@;
    let mut rest = items;
    let mut marked: Vec<ApiProject> = Vec::new();
    let mut plain: Vec<ApiProject> = Vec::new();
    let ghost mut done: Seq<ApiProject> = Seq::empty();
    proof {
        assert(orig =~= done + rest@);
        assert(marked@ =~= done.filter(|p: ApiProject| p.is_bookmarked)) by {
            reveal(Seq::filter);
        }
        assert(plain@ =~= done.filter(|p: ApiProject| !p.is_bookmarked)) by {
            reveal(Seq::filter);
        }
    }
    while rest.len() > 0
        invariant
            orig == done + rest@,
            marked@ == done.filter(|p: ApiProject| p.is_bookmarked),
            plain@ == done.filter(|p: ApiProject| !p.is_bookmarked),
        decreases rest@.len(),
    {
        let ghost pre = rest@;
        let x = rest.remove(0);
        proof {
            assert(x == pre[0]);
            assert(rest@ =~= pre.drop_first());
            assert(done.push(x) + rest@ =~= orig);
            lemma_filter_push(done, x, |p: ApiProject| p.is_bookmarked);
            lemma_filter_push(done, x, |p: ApiProject| !p.is_bookmarked);
            done = done.push(x);
        }
        if x.is_bookmarked {
            marked.push(x);
        } else {
            plain.push(x);
        }
    }
    proof {
        assert(done =~= orig);
    }
    marked.append(&mut plain);
    marked
}

/// After sorting, every bookmarked organization precedes every
/// non-bookmarked one, and the relative order within each subgroup matches
/// the input order: the two filtered subsequences are unchanged.
pub proof fn lemma_sort_organizations_stable(input: Seq<ApiOrganization>, out: Seq<ApiOrganization>)
    requires
        out == orgs_bookmarked_first(input),
    ensures
        forall|i: int, j: int|
            0 <= i < j < out.len() && (#[trigger] out[j]).is_bookmarked ==> (
            #[trigger] out[i]).is_bookmarked,
        out.filter(|o: ApiOrganization| o.is_bookmarked) == input.filter(
            |o: ApiOrganization| o.is_bookmarked,
        ),
        out.filter(|o: ApiOrganization| !o.is_bookmarked) == input.filter(
            |o: ApiOrganization| !o.is_bookmarked,
        ),
{
    let p = |o: ApiOrganization| o.is_bookmarked;
    let q = |o: ApiOrganization| !o.is_bookmarked;
    let a = input.filter(p);
    let b = input.filter(q);
    lemma_filter_all(input, p);
    lemma_filter_all(input, q);
    assert forall|i: int, j: int|
        0 <= i < j < out.len() && (#[trigger] out[j]).is_bookmarked implies (
    #[trigger] out[i]).is_bookmarked by {
        if j >= a.len() {
            assert(out[j] == b[j - a.len()]);
            assert(q(b[j - a.len()]));
        } else {
            assert(out[i] == a[i]);
            assert(p(a[i]));
        }
    }
    Seq::filter_distributes_over_add(a, b, p);
    Seq::filter_distributes_over_add(a, b, q);
    lemma_filter_identity(a, p);
    assert forall|i: int| 0 <= i < b.len() implies !p(#[trigger] b[i]) by {
        assert(q(b[i]));
    }
    lemma_filter_empty(b, p);
    lemma_filter_identity(b, q);
    assert forall|i: int| 0 <= i < a.len() implies !q(#[trigger] a[i]) by {
        assert(p(a[i]));
    }
    lemma_filter_empty(a, q);
    assert(out.filter(p) =~= input.filter(p));
    assert(out.filter(q) =~= input.filter(q));
}

/// The same stability statement for project listings.
pub proof fn lemma_sort_projects_stable(input: Seq<ApiProject>, out: Seq<ApiProject>)
    requires
        out == projects_bookmarked_first(input),
    ensures
        forall|i: int, j: int|
            0 <= i < j < out.len() && (#[trigger] out[j]).is_bookmarked ==> (
            #[trigger] out[i]).is_bookmarked,
        out.filter(|p: ApiProject| p.is_bookmarked) == input.filter(
            |p: ApiProject| p.is_bookmarked,
        ),
        out.filter(|p: ApiProject| !p.is_bookmarked) == input.filter(
            |p: ApiProject| !p.is_bookmarked,
        ),
{
    let pm = |p: ApiProject| p.is_bookmarked;
    let qm = |p: ApiProject| !p.is_bookmarked;
    let a = input.filter(pm);
    let b = input.filter(qm);
    lemma_filter_all(input, pm);
    lemma_filter_all(input, qm);
    assert forall|i: int, j: int|
        0 <= i < j < out.len() && (#[trigger] out[j]).is_bookmarked implies (
    #[trigger] out[i]).is_bookmarked by {
        if j >= a.len() {
            assert(out[j] == b[j - a.len()]);
            assert(qm(b[j - a.len()]));
        } else {
            assert(out[i] == a[i]);
            assert(pm(a[i]));
        }
    }
    Seq::filter_distributes_over_add(a, b, pm);
    Seq::filter_distributes_over_add(a, b, qm);
    lemma_filter_identity(a, pm);
    assert forall|i: int| 0 <= i < b.len() implies !pm(#[trigger] b[i]) by {
        assert(qm(b[i]));
    }
    lemma_filter_empty(b, pm);
    lemma_filter_identity(b, qm);
    assert forall|i: int| 0 <= i < a.len() implies !qm(#[trigger] a[i]) by {
        assert(pm(a[i]));
    }
    lemma_filter_empty(a, qm);
    assert(out.filter(pm) =~= input.filter(pm));
    assert(out.filter(qm) =~= input.filter(qm));
}

/// The organizations of all region pages, in page order.
pub open spec fn flatten_views(pages: Seq<Vec<ApiOrganization>>) -> Seq<ApiOrganization>
    decreases pages.len(),
{
    if pages.len() == 0 {
        Seq::empty()
    } else {
        pages[0]@ + flatten_views(pages.drop_first())
    }
}

/// Merges the per-region organization pages of the overview and sorts the
/// result bookmarked-first. Failure of any region fails the overview
/// before this point; no partial merge is shown.
pub fn merge_region_organizations(pages: Vec<Vec<ApiOrganization>>) -> (r: Vec<ApiOrganization>)
    ensures
        r@ == orgs_bookmarked_first(flatten_views(pages@)),
{
    let ghost orig = pages@;
    let mut rest = pages;
    let mut all: Vec<ApiOrganization> = Vec::new();
    proof {
        assert(all@ + flatten_views(rest@) =~= flatten_views(orig));
    }
    while rest.len() > 0
        invariant
            all@ + flatten_views(rest@) == flatten_views(orig),
        decreases rest@.len(),
    {
        let ghost pre = rest@;
        let mut page = rest.remove(0);
        let ghost pv = page@;
        all.append(&mut page);
        proof {
            assert(pv == pre[0]@);
            assert(rest@ =~= pre.drop_first());
            assert(flatten_views(pre) == pre[0]@ + flatten_views(pre.drop_first()));
            assert(all@ + flatten_views(rest@) =~= flatten_views(orig));
        }
    }
    proof {
        assert(flatten_views(rest@) == Seq::<ApiOrganization>::empty());
        assert(all@ =~= flatten_views(orig));
    }
    sort_organizations(all)
}

/// The threads a detail page shows: only those flagged crashed or current;
/// the others are skipped entirely.
pub open spec fn displayable_threads(s: Seq<ApiThread>) -> Seq<ApiThread> {
    s.filter(|t: ApiThread| t.crashed || t.current)
}

pub fn threads_display(values: Vec<ApiThread>) -> (r: Vec<ApiThread>)
    ensures
        r@ == displayable_threads(values@),
{
    let ghost orig = values@;
    let mut rest = values;
    let mut out: Vec<ApiThread> = Vec::new();
    let ghost mut done: Seq<ApiThread> = Seq::empty();
    proof {
        assert(orig =~= done + rest@);
        assert(out@ =~= done.filter(|t: ApiThread| t.crashed || t.current)) by {
            reveal(Seq::filter);
        }
    }
    while rest.len() > 0
        invariant
            orig == done + rest@,
            out@ == done.filter(|t: ApiThread| t.crashed || t.current),
        decreases rest@.len(),
    {
        let ghost pre = rest@;
        let x = rest.remove(0);
        proof {
            assert(x == pre[0]);
            assert(rest@ =~= pre.drop_first());
            assert(done.push(x) + rest@ =~= orig);
            lemma_filter_push(done, x, |t: ApiThread| t.crashed || t.current);
            done = done.push(x);
        }
        if x.crashed || x.current {
            out.push(x);
        }
    }
    proof {
        assert(done =~= orig);
    }
    out
}

/// The breadcrumb projection: the most recent entries first, at most the
/// cap, with a truncation notice carrying the true total when entries were
/// cut off.
#[derive(Debug, PartialEq, Eq)]
pub struct BreadcrumbDisplay {
    pub shown: Vec<Breadcrumb>,
    pub total: usize,
    pub notice: Option<String>,
}

/// The wording of the truncation notice.
pub open spec fn truncation_notice(shown: nat, total: nat) -> Seq<char> {
    "showed "@ + dec_seq(shown) + " out of "@ + dec_seq(total) + " breadcrumbs"@
}

pub fn breadcrumb_display(values: Vec<Breadcrumb>) -> (r: BreadcrumbDisplay)
    ensures
        r.total == values@.len(),
        r.shown@.len() == (if values@.len() < 20 {
            values@.len()
        } else {
            20
        }),
        forall|i: int|
            0 <= i < r.shown@.len() ==> #[trigger] r.shown@[i] == values@[values@.len() - 1 - i],
        values@.len() > 20 ==> (r.notice matches Some(s) && s@ == truncation_notice(
            20,
            values@.len(),
        )),
        values@.len() <= 20 ==> r.notice is None,
{
    let ghost orig = values@;
    let total = values.len();
    let mut rest = values;
    let mut shown: Vec<Breadcrumb> = Vec::new();
    while shown.len() < MAX_BREADCRUMBS && rest.len() > 0
        invariant
            total == orig.len(),
            shown@.len() <= 20,
            shown@.len() <= orig.len(),
            rest@.len() == orig.len() - shown@.len(),
            rest@ == orig.take(orig.len() - shown@.len()),
            forall|i: int|
                0 <= i < shown@.len() ==> #[trigger] shown@[i] == orig[orig.len() - 1 - i],
        decreases rest@.len(),
    {
        let ghost pre = rest@;
        let x = match rest.pop() {
            Some(x) => x,
            None => {
                return vstd::pervasive::unreached();
            },
        };
        proof {
            assert(x == pre[pre.len() - 1]);
            assert(pre.len() == orig.len() - shown@.len());
            assert(pre[pre.len() - 1] == orig[orig.len() - 1 - shown@.len()]);
            assert(rest@ =~= orig.take(orig.len() - (shown@.len() + 1)));
        }
        shown.push(x);
    }
    let notice = if total > MAX_BREADCRUMBS {
        let mut s = String::from_str("showed ");
        s.append(u64_to_dec(20).as_str());
        s.append(" out of ");
        s.append(u64_to_dec(total as u64).as_str());
        s.append(" breadcrumbs");
        Some(s)
    } else {
        None
    };
    BreadcrumbDisplay { shown, total, notice }
}

/// One line of a rendered stack trace: the function name (empty when the
/// frame has none), the `file:line` location when a filename is present,
/// and whether the frame is a library frame that may be hidden — flagged,
/// never removed.
#[derive(Debug, PartialEq, Eq)]
pub struct DisplayFrame {
    pub system: bool,
    pub function: String,
    pub location: Option<String>,
}

pub open spec fn line_text(l: Option<u64>) -> Seq<char> {
    match l {
        Some(n) => dec_seq(n as nat),
        None => Seq::empty(),
    }
}

pub open spec fn function_text(f: Option<String>) -> Seq<char> {
    match f {
        Some(s) => s@,
        None => Seq::empty(),
    }
}

pub open spec fn frame_display_matches(d: DisplayFrame, f: Frame) -> bool {
    &&& d.system == !f.in_app
    &&& d.function@ == function_text(f.function)
    &&& (match f.filename {
        Some(name) => d.location matches Some(l) && l@ == name@ + ":"@ + line_text(f.line_no),
        None => d.location is None,
    })
}

fn display_frame(f: &Frame) -> (r: DisplayFrame)
    ensures
        frame_display_matches(r, *f),
{
    let function = match &f.function {
        Some(s) => clone_string(s),
        None => String::new(),
    };
    let location = match &f.filename {
        Some(name) => {
            let mut l = clone_string(name);
            l.append(":");
            match f.line_no {
                Some(n) => {
                    l.append(u64_to_dec(n).as_str());
                },
                None => {
                    proof {
                        assert(l@ + Seq::<char>::empty() =~= l@);
                    }
                },
            }
            Some(l)
        },
        None => None,
    };
    DisplayFrame { system: !f.in_app, function, location }
}

/// Projects a stack trace for display: frames in reverse of stored order,
/// most recent call first.
pub fn stacktrace_display(st: &Stacktrace) -> (r: Vec<DisplayFrame>)
    ensures
        r@.len() == st.frames@.len(),
        forall|i: int|
            0 <= i < r@.len() ==> frame_display_matches(
                #[trigger] r@[i],
                st.frames@[st.frames@.len() - 1 - i],
            ),
{
    let n = st.frames.len();
    let mut out: Vec<DisplayFrame> = Vec::new();
    let mut i: usize = 0;
    while i < n
        invariant
            n == st.frames@.len(),
            i <= n,
            out@.len() == i,
            forall|k: int|
                0 <= k < i ==> frame_display_matches(
                    #[trigger] out@[k],
                    st.frames@[st.frames@.len() - 1 - k],
                ),
        decreases n - i,
    {
        out.push(display_frame(&st.frames[n - 1 - i]));
        i = i + 1;
    }
    out
}

} // verus!
