//! The pagination engine: filtering a relationship's identifiers by cursor
//! bounds, slicing the result by `first` / `last`, and deriving page info.
use vstd::prelude::*;

use crate::ident::{decode_cursor, extract_key, spec_key};

verus! {

/// Why a page could not be produced.
#[derive(Debug, Clone, Copy, PartialEq, Eq, Structural)]
pub enum PageError {
    /// A cursor or a relationship identifier does not have the identifier shape.
    MalformedIdentifier,
    /// `first` or `last` is negative.
    InvalidArgument,
    /// A relationship identifier did not resolve to a node of the expected kind.
    IntegrityViolation,
}

/// Pagination metadata of one page.
#[derive(Debug, Clone)]
pub struct PageInfo {
    pub has_previous_page: bool,
    pub has_next_page: bool,
    pub start_cursor: Option<String>,
    pub end_cursor: Option<String>,
}

/// The mathematical value of a `PageInfo`.
pub struct PageInfoModel {
    pub has_previous_page: bool,
    pub has_next_page: bool,
    pub start_cursor: Option<Seq<char>>,
    pub end_cursor: Option<Seq<char>>,
}

pub open spec fn opt_view(o: Option<String>) -> Option<Seq<char>> {
    match o {
        Some(s) => Some(s@),
        None => None,
    }
}

impl View for PageInfo {
    type V = PageInfoModel;

    open spec fn view(&self) -> PageInfoModel {
        PageInfoModel {
            has_previous_page: self.has_previous_page,
            has_next_page: self.has_next_page,
            start_cursor: opt_view(self.start_cursor),
            end_cursor: opt_view(self.end_cursor),
        }
    }
}

/// The identifiers of one page, in order, and its page info.
#[derive(Debug, Clone)]
pub struct Window {
    pub ids: Vec<String>,
    pub page_info: PageInfo,
}

pub open spec fn views(v: Seq<String>) -> Seq<Seq<char>> {
    v.map_values(|s: String| s@)
}

/// The key of a well-formed identifier.
pub open spec fn key_of(s: Seq<char>) -> u32 {
    spec_key(s)->Some_0
}

pub open spec fn in_bounds(k: u32, after: Option<u32>, before: Option<u32>) -> bool {
    &&& (after matches Some(a) ==> k > a)
    &&& (before matches Some(b) ==> k < b)
}

/// The candidate window: the identifiers strictly between the cursor bounds,
/// in the order of `ids`.
pub open spec fn candidate(ids: Seq<Seq<char>>, after: Option<u32>, before: Option<u32>) -> Seq<
    Seq<char>,
> {
    ids.filter(|s: Seq<char>| in_bounds(key_of(s), after, before))
}

/// How many candidates survive the forward slice.
pub open spec fn take_len(n: int, first: Option<i32>) -> int {
    match first {
        Some(f) => if f < n {
            f as int
        } else {
            n
        },
        None => n,
    }
}

/// How many of those the backward slice drops from the front.
pub open spec fn skip_len(t: int, last: Option<i32>) -> int {
    match last {
        Some(l) => if t > l {
            t - l
        } else {
            0
        },
        None => 0,
    }
}

/// The candidates sliced forward by `first`, then backward by `last`.
pub open spec fn sliced(cand: Seq<Seq<char>>, first: Option<i32>, last: Option<i32>) -> Seq<
    Seq<char>,
> {
    let t = take_len(cand.len() as int, first);
    cand.subrange(skip_len(t, last), t)
}

/// Page info of window `win` cut from the candidate window `cand`.
pub open spec fn page_info_of(cand: Seq<Seq<char>>, win: Seq<Seq<char>>) -> PageInfoModel {
    if win.len() == 0 {
        PageInfoModel {
            has_previous_page: false,
            has_next_page: false,
            start_cursor: None,
            end_cursor: None,
        }
    } else {
        PageInfoModel {
            has_previous_page: key_of(win[0]) > key_of(cand[0]),
            has_next_page: key_of(win.last()) < key_of(cand.last()),
            start_cursor: Some(win[0]),
            end_cursor: Some(win.last()),
        }
    }
}

pub open spec fn opt_key(c: Option<Seq<char>>) -> Option<u32> {
    match c {
        Some(s) => Some(key_of(s)),
        None => None,
    }
}

pub open spec fn malformed_cursor(c: Option<Seq<char>>) -> bool {
    c matches Some(s) && spec_key(s) is None
}

/// The error that pagination with these arguments ends in, if any.
pub open spec fn page_error(
    ids: Seq<Seq<char>>,
    after: Option<Seq<char>>,
    first: Option<i32>,
    before: Option<Seq<char>>,
    last: Option<i32>,
) -> Option<PageError> {
    if (first matches Some(f) && f < 0) || (last matches Some(l) && l < 0) {
        Some(PageError::InvalidArgument)
    } else if malformed_cursor(after) || malformed_cursor(before) || exists|i: int|
        0 <= i < ids.len() && #[trigger] spec_key(ids[i]) is None {
        Some(PageError::MalformedIdentifier)
    } else {
        None
    }
}

/// The candidate window for these arguments.
pub open spec fn candidate_of(
    ids: Seq<Seq<char>>,
    after: Option<Seq<char>>,
    before: Option<Seq<char>>,
) -> Seq<Seq<char>> {
    candidate(ids, opt_key(after), opt_key(before))
}

/// The identifiers of the page for these arguments.
pub open spec fn window_of(
    ids: Seq<Seq<char>>,
    after: Option<Seq<char>>,
    first: Option<i32>,
    before: Option<Seq<char>>,
    last: Option<i32>,
) -> Seq<Seq<char>> {
    sliced(candidate_of(ids, after, before), first, last)
}

/// The page info for these arguments.
pub open spec fn page_info_for(
    ids: Seq<Seq<char>>,
    after: Option<Seq<char>>,
    first: Option<i32>,
    before: Option<Seq<char>>,
    last: Option<i32>,
) -> PageInfoModel {
    page_info_of(candidate_of(ids, after, before), window_of(ids, after, first, before, last))
}

/// What `select_window` returns, stated over views.
pub open spec fn window_post(
    ids: Seq<Seq<char>>,
    after: Option<Seq<char>>,
    first: Option<i32>,
    before: Option<Seq<char>>,
    last: Option<i32>,
    r: Result<Window, PageError>,
) -> bool {
    match page_error(ids, after, first, before, last) {
        Some(e) => r == Err::<Window, PageError>(e),
        None => r is Ok && views(r->Ok_0.ids@) == window_of(ids, after, first, before, last)
            && r->Ok_0.page_info@ == page_info_for(ids, after, first, before, last),
    }
}

fn decode_bound(c: &Option<String>) -> (r: Result<Option<u32>, PageError>)
    ensures
        malformed_cursor(opt_view(*c)) ==> r == Err::<Option<u32>, PageError>(
            PageError::MalformedIdentifier,
        ),
        !malformed_cursor(opt_view(*c)) ==> r == Ok::<Option<u32>, PageError>(
            opt_key(opt_view(*c)),
        ),
{
    match c {
        Some(s) => match decode_cursor(s.as_str()) {
            Ok(k) => Ok(Some(k)),
            Err(_) => Err(PageError::MalformedIdentifier),
        },
        None => Ok(None),
    }
}

/// Selects the page of `ids` that the Relay arguments describe: the identifiers
/// with keys strictly between `after` and `before`, cut to the first `first`
/// of them, then to the last `last` of those.
pub fn select_window(
    ids: &[String],
    after: Option<String>,
    first: Option<i32>,
    before: Option<String>,
    last: Option<i32>,
) -> (r: Result<Window, PageError>)
    ensures
        window_post(views(ids@), opt_view(after), first, opt_view(before), last, r),
{
    let ghost vids = views(ids@);
    if let Some(f) = first {
        if f < 0 {
            return Err(PageError::InvalidArgument);
        }
    }
    if let Some(l) = last {
        if l < 0 {
            return Err(PageError::InvalidArgument);
        }
    }
    let after_key = match decode_bound(&after) {
        Ok(k) => k,
        Err(e) => return Err(e),
    };
    let before_key = match decode_bound(&before) {
        Ok(k) => k,
        Err(e) => return Err(e),
    };
    let ghost pred = |s: Seq<char>| in_bounds(key_of(s), after_key, before_key);
    let mut cand: Vec<String> = Vec::new();
    let mut cand_keys: Vec<u32> = Vec::new();
    let mut i: usize = 0;
    while i < ids.len()
        invariant
            0 <= i <= ids@.len(),
            vids == views(ids@),
            !(first matches Some(f) && f < 0),
            !(last matches Some(l) && l < 0),
            !malformed_cursor(opt_view(after)),
            !malformed_cursor(opt_view(before)),
            after_key == opt_key(opt_view(after)),
            before_key == opt_key(opt_view(before)),
            pred == (|s: Seq<char>| in_bounds(key_of(s), after_key, before_key)),
            views(cand@) == vids.take(i as int).filter(pred),
            cand_keys@.len() == cand@.len(),
            forall|j: int| 0 <= j < cand@.len() ==> cand_keys@[j] == key_of(#[trigger] cand@[j]@),
            forall|j: int| 0 <= j < i ==> #[trigger] spec_key(vids[j]) is Some,
        decreases ids@.len() - i,
    {
        let k = match extract_key(ids[i].as_str()) {
            Ok(k) => k,
            Err(_) => {
                assert(spec_key(vids[i as int]) is None);
                return Err(PageError::MalformedIdentifier);
            },
        };
        let ghost old_cand = cand@;
        proof {
            let t = vids.take(i + 1);
            assert(t.drop_last() =~= vids.take(i as int));
            assert(t.last() == ids@[i as int]@);
            assert(key_of(ids@[i as int]@) == k);
            reveal(Seq::filter);
            assert(t.filter(pred) == if pred(t.last()) {
                t.drop_last().filter(pred).push(t.last())
            } else {
                t.drop_last().filter(pred)
            });
        }
        if in_bounds_exec(k, after_key, before_key) {
            let id = ids[i].clone();
            cand.push(id);
            cand_keys.push(k);
            assert(views(cand@) =~= views(old_cand).push(ids@[i as int]@));
        }
        i = i + 1;
    }
    assert(vids.take(i as int) == vids);
    let n = cand.len();
    let take = match first {
        Some(f) => if (f as usize) < n {
            f as usize
        } else {
            n
        },
        None => n,
    };
    let skip = match last {
        Some(l) => if take > l as usize {
            take - l as usize
        } else {
            0
        },
        None => 0,
    };
    let ghost c = views(cand@);
    assert(take as int == take_len(c.len() as int, first));
    assert(skip as int == skip_len(take as int, last));
    let mut win: Vec<String> = Vec::new();
    let mut j: usize = skip;
    while j < take
        invariant
            skip <= j <= take <= n == cand@.len(),
            c == views(cand@),
            views(win@) == c.subrange(skip as int, j as int),
        decreases take - j,
    {
        let ghost old_win = win@;
        win.push(cand[j].clone());
        assert(views(win@) =~= views(old_win).push(cand@[j as int]@));
        assert(views(win@) =~= c.subrange(skip as int, j + 1));
        j = j + 1;
    }
    let page_info = if take == skip {
        PageInfo {
            has_previous_page: false,
            has_next_page: false,
            start_cursor: None,
            end_cursor: None,
        }
    } else {
        PageInfo {
            has_previous_page: cand_keys[skip] > cand_keys[0],
            has_next_page: cand_keys[take - 1] < cand_keys[n - 1],
            start_cursor: Some(cand[skip].clone()),
            end_cursor: Some(cand[take - 1].clone()),
        }
    };
    let r = Window { ids: win, page_info };
    assert(views(r.ids@) == window_of(vids, opt_view(after), first, opt_view(before), last));
    Ok(r)
}

/// One element of a page: a loaded node and the cursor it sits at.
pub struct Edge<N> {
    pub node: Option<N>,
    pub cursor: String,
}

/// A page of a relationship: its edges in order, and its page info.
pub struct Connection<N> {
    pub edges: Vec<Edge<N>>,
    pub page_info: PageInfo,
}

/// What `Connection::new` returns, stated over views: the page of
/// `window_of`, one edge per identifier, each holding what `load` gave for it;
/// or the first error that the arguments lead to; or an integrity violation
/// when `load` gave `None` for an identifier of the page.
pub open spec fn connection_post<N, F: Fn(&String) -> Option<N>>(
    vids: Seq<Seq<char>>,
    a: Option<Seq<char>>,
    first: Option<i32>,
    b: Option<Seq<char>>,
    last: Option<i32>,
    load: F,
    r: Result<Connection<N>, PageError>,
) -> bool {
    let w = window_of(vids, a, first, b, last);
    match page_error(vids, a, first, b, last) {
        Some(e) => r == Err::<Connection<N>, PageError>(e),
        None => match r {
            Ok(c) => {
                &&& c.page_info@ == page_info_for(vids, a, first, b, last)
                &&& c.edges@.len() == w.len()
                &&& forall|i: int|
                    0 <= i < w.len() ==> {
                        &&& (#[trigger] c.edges@[i]).cursor@ == w[i]
                        &&& c.edges@[i].node is Some
                        &&& exists|s: String|
                            s@ == w[i] && #[trigger] load.ensures((&s,), c.edges@[i].node)
                    }
            },
            Err(e) => {
                &&& e == PageError::IntegrityViolation
                &&& exists|s: String|
                    w.contains(s@) && #[trigger] load.ensures((&s,), None::<N>)
            },
        },
    }
}

/// What a relationship field returns when each identifier is resolved by
/// `lookup`: the page of `window_of`, with the node that `lookup` gives for each
/// identifier; or the first error that the arguments lead to; or an integrity
/// violation when an identifier of the page resolves to nothing.
pub open spec fn resolved_post<N: View>(
    vids: Seq<Seq<char>>,
    a: Option<Seq<char>>,
    first: Option<i32>,
    b: Option<Seq<char>>,
    last: Option<i32>,
    lookup: spec_fn(Seq<char>) -> Option<N::V>,
    r: Result<Connection<N>, PageError>,
) -> bool {
    let w = window_of(vids, a, first, b, last);
    match page_error(vids, a, first, b, last) {
        Some(e) => r == Err::<Connection<N>, PageError>(e),
        None => match r {
            Ok(c) => {
                &&& c.page_info@ == page_info_for(vids, a, first, b, last)
                &&& c.edges@.len() == w.len()
                &&& forall|i: int|
                    0 <= i < w.len() ==> {
                        &&& (#[trigger] c.edges@[i]).cursor@ == w[i]
                        &&& c.edges@[i].node is Some
                        &&& lookup(w[i]) == Some(c.edges@[i].node->Some_0@)
                    }
            },
            Err(e) => {
                &&& e == PageError::IntegrityViolation
                &&& exists|i: int| 0 <= i < w.len() && (#[trigger] lookup(w[i])) is None
            },
        },
    }
}

pub open spec fn opt_node_view<N: View>(o: Option<N>) -> Option<N::V> {
    match o {
        Some(n) => Some(n@),
        None => None,
    }
}

/// A loader whose results are described by `lookup` turns the outcome of
/// `Connection::new` into the outcome that `resolved_post` describes.
pub(crate) proof fn lemma_loaded_by_lookup<N: View, F: Fn(&String) -> Option<N>>(
    vids: Seq<Seq<char>>,
    a: Option<Seq<char>>,
    first: Option<i32>,
    b: Option<Seq<char>>,
    last: Option<i32>,
    load: F,
    lookup: spec_fn(Seq<char>) -> Option<N::V>,
    r: Result<Connection<N>, PageError>,
)
    requires
        connection_post(vids, a, first, b, last, load, r),
        forall|s: String, x: Option<N>|
            #[trigger] load.ensures((&s,), x) ==> lookup(s@) == opt_node_view(x),
    ensures
        resolved_post(vids, a, first, b, last, lookup, r),
{
    let w = window_of(vids, a, first, b, last);
    if page_error(vids, a, first, b, last) is None {
        match r {
            Ok(c) => {
                assert forall|i: int| 0 <= i < w.len() implies lookup(w[i]) == Some(
                    (#[trigger] c.edges@[i]).node->Some_0@,
                ) by {
                    let s = choose|s: String|
                        s@ == w[i] && #[trigger] load.ensures((&s,), c.edges@[i].node);
                }
            },
            Err(e) => {
                let s = choose|s: String|
                    w.contains(s@) && #[trigger] load.ensures((&s,), None::<N>);
                let i = choose|i: int| 0 <= i < w.len() && w[i] == s@;
                assert(lookup(w[i]) is None);
            },
        }
    }
}

impl<N> Connection<N> {
    /// Builds the page of `ids` that the Relay arguments describe, loading the
    /// node behind each selected identifier with `load`. A `None` from `load`
    /// means the identifier does not name a node of the expected kind.
    pub fn new<F: Fn(&String) -> Option<N>>(
        ids: &[String],
        load: F,
        after: Option<String>,
        first: Option<i32>,
        before: Option<String>,
        last: Option<i32>,
    ) -> (r: Result<Connection<N>, PageError>)
        requires
            forall|s: &String| #[trigger] load.requires((s,)),
        ensures
            connection_post(views(ids@), opt_view(after), first, opt_view(before), last, load, r),
    {
        let ghost vids = views(ids@);
        let ghost a = opt_view(after);
        let ghost b = opt_view(before);
        let window = match select_window(ids, after, first, before, last) {
            Ok(w) => w,
            Err(e) => return Err(e),
        };
        let ghost w = views(window.ids@);
        let mut edges: Vec<Edge<N>> = Vec::new();
        let mut i: usize = 0;
        while i < window.ids.len()
            invariant
                0 <= i <= window.ids@.len(),
                w == views(window.ids@),
                page_error(vids, a, first, b, last) is None,
                vids == views(ids@),
                a == opt_view(after),
                b == opt_view(before),
                w == window_of(vids, a, first, b, last),
                forall|s: &String| #[trigger] load.requires((s,)),
                edges@.len() == i,
                forall|j: int|
                    0 <= j < i ==> {
                        &&& (#[trigger] edges@[j]).cursor@ == w[j]
                        &&& edges@[j].node is Some
                        &&& exists|s: String|
                            s@ == w[j] && #[trigger] load.ensures((&s,), edges@[j].node)
                    },
            decreases window.ids@.len() - i,
        {
            let id = &window.ids[i];
            match load(id) {
                Some(node) => {
                    let cursor = id.clone();
                    edges.push(Edge { node: Some(node), cursor });
                    assert(load.ensures((&window.ids@[i as int],), edges@[i as int].node));
                },
                None => {
                    assert(load.ensures((&window.ids@[i as int],), None::<N>));
                    assert(w[i as int] == window.ids@[i as int]@);
                    assert(w.contains(window.ids@[i as int]@));
                    return Err(PageError::IntegrityViolation);
                },
            }
            i = i + 1;
        }
        Ok(Connection { edges, page_info: window.page_info })
    }
}

fn in_bounds_exec(k: u32, after: Option<u32>, before: Option<u32>) -> (r: bool)
    ensures
        r == in_bounds(k, after, before),
{
    let above = match after {
        Some(a) => k > a,
        None => true,
    };
    let below = match before {
        Some(b) => k < b,
        None => true,
    };
    above && below
}

/// Every page is one contiguous run of the candidate window, and each of its
/// identifiers comes from the relationship list and lies strictly between the
/// cursor bounds.
pub proof fn lemma_page_is_contiguous_run(
    ids: Seq<Seq<char>>,
    after: Option<Seq<char>>,
    first: Option<i32>,
    before: Option<Seq<char>>,
    last: Option<i32>,
)
    requires
        page_error(ids, after, first, before, last) is None,
    ensures
        ({
            let cand = candidate_of(ids, after, before);
            let w = window_of(ids, after, first, before, last);
            &&& exists|lo: int, hi: int|
                0 <= lo <= hi <= cand.len() && w == #[trigger] cand.subrange(lo, hi)
            &&& forall|i: int|
                0 <= i < w.len() ==> ids.contains(#[trigger] w[i]) && in_bounds(
                    key_of(w[i]),
                    opt_key(after),
                    opt_key(before),
                )
        }),
{
    let cand = candidate_of(ids, after, before);
    let pred = |s: Seq<char>| in_bounds(key_of(s), opt_key(after), opt_key(before));
    let t = take_len(cand.len() as int, first);
    let k = skip_len(t, last);
    let w = window_of(ids, after, first, before, last);
    assert(w == cand.subrange(k, t));
    assert forall|i: int| 0 <= i < w.len() implies ids.contains(#[trigger] w[i]) && in_bounds(
        key_of(w[i]),
        opt_key(after),
        opt_key(before),
    ) by {
        assert(w[i] == cand[k + i]);
        ids.lemma_filter_pred(pred, k + i);
        assert(cand.contains(cand[k + i]));
        ids.lemma_filter_contains_rev(pred, cand[k + i]);
    }
}

/// A page has a previous page exactly when it is non-empty and its first key
/// is greater than the candidate window's first key; it has a next page
/// exactly when it is non-empty and its last key is less than the candidate
/// window's last key.
pub proof fn lemma_page_flags(
    ids: Seq<Seq<char>>,
    after: Option<Seq<char>>,
    first: Option<i32>,
    before: Option<Seq<char>>,
    last: Option<i32>,
)
    requires
        page_error(ids, after, first, before, last) is None,
    ensures
        ({
            let cand = candidate_of(ids, after, before);
            let w = window_of(ids, after, first, before, last);
            let p = page_info_for(ids, after, first, before, last);
            &&& p.has_previous_page <==> (w.len() > 0 && key_of(w[0]) > key_of(cand[0]))
            &&& p.has_next_page <==> (w.len() > 0 && key_of(w.last()) < key_of(cand.last()))
        }),
{
}

/// Paginating twice with the same arguments gives the same page: the same
/// identifiers, in the same order, with the same page info, or the same error.
pub proof fn lemma_pagination_deterministic(
    ids: Seq<Seq<char>>,
    after: Option<Seq<char>>,
    first: Option<i32>,
    before: Option<Seq<char>>,
    last: Option<i32>,
    r1: Result<Window, PageError>,
    r2: Result<Window, PageError>,
)
    requires
        window_post(ids, after, first, before, last, r1),
        window_post(ids, after, first, before, last, r2),
    ensures
        r1 is Ok <==> r2 is Ok,
        r1 is Err ==> r1 == r2,
        r1 is Ok ==> views(r1->Ok_0.ids@) == views(r2->Ok_0.ids@) && r1->Ok_0.page_info@
            == r2->Ok_0.page_info@,
{
}

/// Resolving a relationship twice with the same arguments against the same
/// lookup gives the same connection: the same edges, cursors and nodes, and the
/// same page info, or the same error.
pub proof fn lemma_resolution_deterministic<N: View>(
    ids: Seq<Seq<char>>,
    after: Option<Seq<char>>,
    first: Option<i32>,
    before: Option<Seq<char>>,
    last: Option<i32>,
    lookup: spec_fn(Seq<char>) -> Option<N::V>,
    r1: Result<Connection<N>, PageError>,
    r2: Result<Connection<N>, PageError>,
)
    requires
        resolved_post(ids, after, first, before, last, lookup, r1),
        resolved_post(ids, after, first, before, last, lookup, r2),
    ensures
        r1 is Ok <==> r2 is Ok,
        r1 is Err ==> r1 == r2,
        r1 is Ok ==> ({
            let c1 = r1->Ok_0;
            let c2 = r2->Ok_0;
            &&& c1.page_info@ == c2.page_info@
            &&& c1.edges@.len() == c2.edges@.len()
            &&& forall|i: int|
                0 <= i < c1.edges@.len() ==> (#[trigger] c1.edges@[i]).cursor@
                    == c2.edges@[i].cursor@ && opt_node_view(c1.edges@[i].node) == opt_node_view(
                    c2.edges@[i].node,
                )
        }),
{
    let w = window_of(ids, after, first, before, last);
    if page_error(ids, after, first, before, last) is None {
        match (r1, r2) {
            (Ok(c1), Ok(c2)) => {
                assert forall|i: int| 0 <= i < c1.edges@.len() implies (
                #[trigger] c1.edges@[i]).cursor@ == c2.edges@[i].cursor@ && opt_node_view(
                    c1.edges@[i].node,
                ) == opt_node_view(c2.edges@[i].node) by {
                    assert(c2.edges@[i].cursor@ == w[i]);
                    assert(lookup(w[i]) == Some(c2.edges@[i].node->Some_0@));
                }
            },
            (Ok(c1), Err(_)) => {
                let i = choose|i: int| 0 <= i < w.len() && (#[trigger] lookup(w[i])) is None;
                assert(c1.edges@[i].cursor@ == w[i]);
            },
            (Err(_), Ok(c2)) => {
                let i = choose|i: int| 0 <= i < w.len() && (#[trigger] lookup(w[i])) is None;
                assert(c2.edges@[i].cursor@ == w[i]);
            },
            (Err(_), Err(_)) => {},
        }
    }
}

/// With `first` or `last` equal to zero, a page that is produced is empty, has
/// no cursors, and has neither a previous nor a next page.
pub proof fn lemma_zero_slice_is_empty(
    ids: Seq<Seq<char>>,
    after: Option<Seq<char>>,
    first: Option<i32>,
    before: Option<Seq<char>>,
    last: Option<i32>,
)
    requires
        first == Some(0i32) || last == Some(0i32),
        page_error(ids, after, first, before, last) is None,
    ensures
        window_of(ids, after, first, before, last).len() == 0,
        page_info_for(ids, after, first, before, last) == (PageInfoModel {
            has_previous_page: false,
            has_next_page: false,
            start_cursor: None,
            end_cursor: None,
        }),
{
}

} // verus!
