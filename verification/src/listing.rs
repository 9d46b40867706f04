//! The listing/filtering engine: company-facing queries over promos.
//! Filters recognise repeatable `country` parameters (case-insensitive
//! OR-match, promos without a country target always pass), `offset` and
//! `limit` (each clamped to the remaining length), and `sort_by` over the
//! window dates (ascending, missing dates last); without `sort_by` the
//! result is ordered by creation date, newest first. The total before
//! pagination is reported beside the page.

use vstd::prelude::*;
use vstd::multiset::Multiset;

use crate::promo::Promo;
use crate::promo::PromoReadOnly;
use crate::promo::PromoView;
use crate::promo::promos_view;
use crate::promo::ro_views;
use crate::promo::spec_read_only;
use crate::text::dec_val;
use crate::text::has_ci;
use crate::text::is_digit_seq;
use crate::text::parse_usize;
use crate::text::str_eq;
use crate::text::views_of;

verus! {

/// The recognised sort orders of a listing query.
#[derive(Clone, Copy, PartialEq, Eq, Structural, Debug)]
pub enum SortBy {
    ActiveFrom,
    ActiveUntil,
}

/// Why a listing query string was rejected.
#[derive(Clone, Copy, PartialEq, Eq, Structural, Debug)]
pub enum ListParamError {
    /// The `sort_by` value names no recognised order.
    UnknownSortBy,
    /// An `offset` or `limit` value is not a decimal number in range.
    BadNumber,
}

/// A parsed listing query.
#[derive(Debug)]
pub struct ListQuery {
    pub countries: Vec<String>,
    pub offset: Option<usize>,
    pub limit: Option<usize>,
    pub sort_by: Option<SortBy>,
}

/// The mathematical model of a listing query.
#[verifier::ext_equal]
pub struct ListQueryView {
    pub countries: Seq<Seq<char>>,
    pub offset: Option<usize>,
    pub limit: Option<usize>,
    pub sort_by: Option<SortBy>,
}

impl View for ListQuery {
    type V = ListQueryView;

    open spec fn view(&self) -> ListQueryView {
        ListQueryView {
            countries: views_of(self.countries@),
            offset: self.offset,
            limit: self.limit,
            sort_by: self.sort_by,
        }
    }
}

/// The models of a query-parameter vector's entries.
pub open spec fn pairs_view(v: Seq<(String, String)>) -> Seq<(Seq<char>, Seq<char>)> {
    v.map_values(|kv: (String, String)| (kv.0@, kv.1@))
}

/// The values of all `country` parameters, in order.
pub open spec fn spec_country_params(ps: Seq<(Seq<char>, Seq<char>)>) -> Seq<Seq<char>>
    decreases ps.len(),
{
    if ps.len() == 0 {
        Seq::empty()
    } else {
        spec_country_params(ps.drop_last()) + (if ps.last().0 == "country"@ {
            seq![ps.last().1]
        } else {
            Seq::empty()
        })
    }
}

/// The value of the last parameter with the given key, if any.
pub open spec fn spec_last_param(ps: Seq<(Seq<char>, Seq<char>)>, key: Seq<char>) -> Option<
    Seq<char>,
>
    decreases ps.len(),
{
    if ps.len() == 0 {
        None
    } else if ps.last().0 == key {
        Some(ps.last().1)
    } else {
        spec_last_param(ps.drop_last(), key)
    }
}

/// What an optional numeric parameter parses to: absent is fine, present
/// must be a decimal number that fits a usize.
pub open spec fn spec_opt_usize(v: Option<Seq<char>>) -> Result<Option<usize>, ListParamError> {
    match v {
        None => Ok(None),
        Some(s) => if s.len() > 0 && is_digit_seq(s) && dec_val(s) <= usize::MAX {
            Ok(Some(dec_val(s) as usize))
        } else {
            Err(ListParamError::BadNumber)
        },
    }
}

/// What an optional `sort_by` parameter parses to.
pub open spec fn spec_opt_sort_by(v: Option<Seq<char>>) -> Result<Option<SortBy>, ListParamError> {
    match v {
        None => Ok(None),
        Some(s) => if s == "active_from"@ {
            Ok(Some(SortBy::ActiveFrom))
        } else if s == "active_until"@ {
            Ok(Some(SortBy::ActiveUntil))
        } else {
            Err(ListParamError::UnknownSortBy)
        },
    }
}

/// What a whole parameter list parses to: the countries in order, the last
/// `offset`, `limit` and `sort_by` values; numeric errors are reported
/// before an unknown sort order.
pub open spec fn spec_parse_query(ps: Seq<(Seq<char>, Seq<char>)>) -> Result<
    ListQueryView,
    ListParamError,
> {
    if spec_opt_usize(spec_last_param(ps, "offset"@)) is Err {
        Err(ListParamError::BadNumber)
    } else if spec_opt_usize(spec_last_param(ps, "limit"@)) is Err {
        Err(ListParamError::BadNumber)
    } else if spec_opt_sort_by(spec_last_param(ps, "sort_by"@)) is Err {
        Err(ListParamError::UnknownSortBy)
    } else {
        Ok(
            ListQueryView {
                countries: spec_country_params(ps),
                offset: spec_opt_usize(spec_last_param(ps, "offset"@))->Ok_0,
                limit: spec_opt_usize(spec_last_param(ps, "limit"@))->Ok_0,
                sort_by: spec_opt_sort_by(spec_last_param(ps, "sort_by"@))->Ok_0,
            },
        )
    }
}

/// Finds the value of the last parameter with the given key.
fn last_param(params: &Vec<(String, String)>, key: &str) -> (r: Option<String>)
    ensures
        crate::text::opt_str_view(r) == spec_last_param(pairs_view(params@), key@),
{
    let mut found: Option<String> = None;
    let mut i: usize = 0;
    while i < params.len()
        invariant
            i <= params@.len(),
            crate::text::opt_str_view(found) == spec_last_param(
                pairs_view(params@.subrange(0, i as int)),
                key@,
            ),
        decreases params@.len() - i,
    {
        proof {
            assert(pairs_view(params@.subrange(0, i as int + 1)).drop_last() =~= pairs_view(
                params@.subrange(0, i as int),
            ));
            assert(pairs_view(params@.subrange(0, i as int + 1)).last() == (
                params@[i as int].0@,
                params@[i as int].1@,
            ));
        }
        if str_eq(params[i].0.as_str(), key) {
            found = Some(params[i].1.clone());
        }
        i += 1;
    }
    proof {
        assert(params@.subrange(0, params@.len() as int) =~= params@);
    }
    found
}

/// Parses the raw query parameters of a listing request.
pub fn parse_list_params(params: &Vec<(String, String)>) -> (r: Result<ListQuery, ListParamError>)
    ensures
        (match spec_parse_query(pairs_view(params@)) {
            Ok(q) => r matches Ok(rq) && rq@ == q,
            Err(e) => r == Err::<ListQuery, ListParamError>(e),
        }),
{
    let offset = match last_param(params, "offset") {
        Some(s) => {
            match parse_usize(s.as_str()) {
                Some(v) => Some(v),
                None => {
                    return Err(ListParamError::BadNumber);
                },
            }
        },
        None => None,
    };
    let limit = match last_param(params, "limit") {
        Some(s) => {
            match parse_usize(s.as_str()) {
                Some(v) => Some(v),
                None => {
                    return Err(ListParamError::BadNumber);
                },
            }
        },
        None => None,
    };
    let sort_by = match last_param(params, "sort_by") {
        Some(s) => {
            if str_eq(s.as_str(), "active_from") {
                Some(SortBy::ActiveFrom)
            } else if str_eq(s.as_str(), "active_until") {
                Some(SortBy::ActiveUntil)
            } else {
                return Err(ListParamError::UnknownSortBy);
            }
        },
        None => None,
    };
    let mut countries: Vec<String> = Vec::new();
    let mut i: usize = 0;
    while i < params.len()
        invariant
            i <= params@.len(),
            views_of(countries@) =~= spec_country_params(pairs_view(params@.subrange(0, i as int))),
        decreases params@.len() - i,
    {
        proof {
            assert(pairs_view(params@.subrange(0, i as int + 1)).drop_last() =~= pairs_view(
                params@.subrange(0, i as int),
            ));
            assert(pairs_view(params@.subrange(0, i as int + 1)).last() == (
                params@[i as int].0@,
                params@[i as int].1@,
            ));
        }
        if str_eq(params[i].0.as_str(), "country") {
            countries.push(params[i].1.clone());
            proof {
                assert(views_of(countries@) =~= spec_country_params(
                    pairs_view(params@.subrange(0, i as int + 1)),
                ));
            }
        }
        i += 1;
    }
    proof {
        assert(params@.subrange(0, params@.len() as int) =~= params@);
    }
    let q = ListQuery { countries, offset, limit, sort_by };
    proof {
        assert(q@ =~= spec_parse_query(pairs_view(params@))->Ok_0);
    }
    Ok(q)
}

/// Whether a promo passes the country filter: no country target, no filter,
/// or a case-insensitive match with one of the asked countries.
pub open spec fn spec_country_pass(p: PromoView, countries: Seq<Seq<char>>) -> bool {
    ||| p.target.country is None
    ||| countries.len() == 0
    ||| has_ci(countries, p.target.country->Some_0)
}

/// The promos of the given company that pass the country filter, in stored
/// order.
pub open spec fn spec_list_filter(
    ps: Seq<PromoView>,
    company_id: Seq<char>,
    countries: Seq<Seq<char>>,
) -> Seq<PromoView>
    decreases ps.len(),
{
    if ps.len() == 0 {
        Seq::empty()
    } else {
        spec_list_filter(ps.drop_last(), company_id, countries) + (if ps.last().company_id
            == company_id && spec_country_pass(ps.last(), countries) {
            seq![ps.last()]
        } else {
            Seq::empty()
        })
    }
}

/// Copies out the promos of the company that pass the country filter.
pub fn filter_promos(promos: &Vec<Promo>, company_id: &str, countries: &Vec<String>) -> (r: Vec<
    Promo,
>)
    ensures
        promos_view(r@) == spec_list_filter(promos_view(promos@), company_id@, views_of(countries@)),
{
    let mut r: Vec<Promo> = Vec::new();
    let mut i: usize = 0;
    while i < promos.len()
        invariant
            i <= promos@.len(),
            promos_view(r@) =~= spec_list_filter(
                promos_view(promos@.subrange(0, i as int)),
                company_id@,
                views_of(countries@),
            ),
        decreases promos@.len() - i,
    {
        proof {
            assert(promos_view(promos@.subrange(0, i as int + 1)).drop_last() =~= promos_view(
                promos@.subrange(0, i as int),
            ));
            assert(promos_view(promos@.subrange(0, i as int + 1)).last() == promos@[i as int]@);
        }
        let passes_country = match promos[i].target.country {
            Some(ref c) => countries.len() == 0 || crate::text::contains_str_ci(
                countries,
                c.as_str(),
            ),
            None => true,
        };
        if str_eq(promos[i].company_id.as_str(), company_id) && passes_country {
            r.push(promos[i].duplicate());
            proof {
                assert(promos_view(r@) =~= spec_list_filter(
                    promos_view(promos@.subrange(0, i as int + 1)),
                    company_id@,
                    views_of(countries@),
                ));
            }
        }
        i += 1;
    }
    proof {
        assert(promos@.subrange(0, promos@.len() as int) =~= promos@);
    }
    r
}

/// The page a clamped offset and limit cut out of a sequence.
pub open spec fn spec_paginate(
    s: Seq<PromoView>,
    offset: Option<usize>,
    limit: Option<usize>,
) -> Seq<PromoView> {
    let o: int = match offset {
        Some(o) => if o > s.len() {
            s.len() as int
        } else {
            o as int
        },
        None => 0,
    };
    let t = s.subrange(o, s.len() as int);
    let l: int = match limit {
        Some(l) => if l > t.len() {
            t.len() as int
        } else {
            l as int
        },
        None => t.len() as int,
    };
    t.subrange(0, l)
}

/// Cuts the page out of a promo vector: the offset is clamped to the
/// length, the limit to what remains after the offset.
pub fn paginate(promos: Vec<Promo>, offset: Option<usize>, limit: Option<usize>) -> (r: Vec<Promo>)
    ensures
        promos_view(r@) == spec_paginate(promos_view(promos@), offset, limit),
{
    let mut v = promos;
    let ghost orig = promos_view(v@);
    if let Some(o) = offset {
        let at = if o > v.len() {
            v.len()
        } else {
            o
        };
        v = v.split_off(at);
    }
    if let Some(l) = limit {
        if l < v.len() {
            v.truncate(l);
        }
    }
    proof {
        assert(promos_view(v@) =~= spec_paginate(orig, offset, limit));
    }
    v
}

/// Ascending date order with absent dates sorting last.
pub open spec fn opt_date_leq(x: Option<i64>, y: Option<i64>) -> bool {
    match (x, y) {
        (Some(a), Some(b)) => a <= b,
        (Some(_), None) => true,
        (None, Some(_)) => false,
        (None, None) => true,
    }
}

/// The listing order: by the chosen window date ascending, or by creation
/// date descending when no order was asked for.
pub open spec fn promo_leq(sort: Option<SortBy>, a: PromoView, b: PromoView) -> bool {
    match sort {
        Some(SortBy::ActiveFrom) => opt_date_leq(a.active_from, b.active_from),
        Some(SortBy::ActiveUntil) => opt_date_leq(a.active_until, b.active_until),
        None => a.create_date >= b.create_date,
    }
}

/// A sequence ordered by the listing order.
pub open spec fn spec_sorted(sort: Option<SortBy>, s: Seq<PromoView>) -> bool {
    forall|i: int, j: int| 0 <= i < j < s.len() ==> promo_leq(sort, s[i], s[j])
}

fn promo_leq_exec(sort: Option<SortBy>, a: &Promo, b: &Promo) -> (r: bool)
    ensures
        r == promo_leq(sort, a@, b@),
{
    match sort {
        Some(SortBy::ActiveFrom) => opt_date_leq_exec(a.active_from, b.active_from),
        Some(SortBy::ActiveUntil) => opt_date_leq_exec(a.active_until, b.active_until),
        None => a.create_date >= b.create_date,
    }
}

fn opt_date_leq_exec(x: Option<i64>, y: Option<i64>) -> (r: bool)
    ensures
        r == opt_date_leq(x, y),
{
    match (x, y) {
        (Some(a), Some(b)) => a <= b,
        (Some(_), None) => true,
        (None, Some(_)) => false,
        (None, None) => true,
    }
}

/// Sorts promos by the listing order; the result is a permutation of the
/// input. Selection of equal keys is not specified beyond the permutation.
pub fn sort_promos(promos: Vec<Promo>, sort: Option<SortBy>) -> (r: Vec<Promo>)
    ensures
        promos_view(r@).to_multiset() == promos_view(promos@).to_multiset(),
        spec_sorted(sort, promos_view(r@)),
{
    broadcast use vstd::seq_lib::group_to_multiset_ensures;

    let ghost orig = promos_view(promos@);
    let mut rest = promos;
    let mut out: Vec<Promo> = Vec::new();
    while rest.len() > 0
        invariant
            promos_view(out@).to_multiset().add(promos_view(rest@).to_multiset())
                =~= orig.to_multiset(),
            spec_sorted(sort, promos_view(out@)),
            forall|i: int, j: int|
                0 <= i < out@.len() && 0 <= j < rest@.len() ==> promo_leq(
                    sort,
                    out@[i]@,
                    rest@[j]@,
                ),
        decreases rest@.len(),
    {
        let mut mi: usize = 0;
        let mut k: usize = 1;
        while k < rest.len()
            invariant
                rest@.len() > 0,
                mi < k <= rest@.len(),
                forall|t: int| 0 <= t < k ==> promo_leq(sort, rest@[mi as int]@, rest@[t]@),
        decreases rest@.len() - k,
        {
            if !promo_leq_exec(sort, &rest[mi], &rest[k]) {
                proof {
                    lemma_promo_leq_total(sort, rest@[mi as int]@, rest@[k as int]@);
                    assert forall|t: int| 0 <= t < k + 1 implies promo_leq(
                        sort,
                        rest@[k as int]@,
                        rest@[t]@,
                    ) by {
                        if t < k {
                            lemma_promo_leq_trans(
                                sort,
                                rest@[k as int]@,
                                rest@[mi as int]@,
                                rest@[t]@,
                            );
                        }
                    }
                }
                mi = k;
            }
            k += 1;
        }
        let ghost rv = promos_view(rest@);
        let m = rest.remove(mi);
        proof {
            rv.to_multiset_ensures();
            assert(promos_view(rest@) =~= rv.remove(mi as int));
            assert(rv.remove(mi as int).to_multiset() == rv.to_multiset().remove(rv[mi as int]));
            assert(rv[mi as int] == m@);
        }
        let ghost ov = promos_view(out@);
        out.push(m);
        proof {
            ov.to_multiset_ensures();
            assert(promos_view(out@) =~= ov.push(m@));
            assert(ov.push(m@).to_multiset() == ov.to_multiset().insert(m@));
            assert(rv.to_multiset().count(m@) >= 1) by {
                assert(rv[mi as int] == m@);
                assert(rv.contains(m@));
            }
            assert(ov.to_multiset().insert(m@).add(rv.to_multiset().remove(m@))
                =~= ov.to_multiset().add(rv.to_multiset()));
            assert(spec_sorted(sort, promos_view(out@))) by {
                let no = promos_view(out@);
                assert forall|i: int, j: int| 0 <= i < j < no.len() implies promo_leq(
                    sort,
                    no[i],
                    no[j],
                ) by {
                    if j < no.len() - 1 {
                        assert(no[i] == ov[i] && no[j] == ov[j]);
                    } else {
                        assert(no[j] == m@);
                        assert(no[i] == ov[i]);
                    }
                }
            }
            assert forall|i: int, j: int|
                0 <= i < out@.len() && 0 <= j < rest@.len() implies promo_leq(
                sort,
                out@[i]@,
                rest@[j]@,
            ) by {
                assert(promos_view(rest@)[j] == rv.remove(mi as int)[j]);
                if j < mi {
                    assert(rv.remove(mi as int)[j] == rv[j]);
                } else {
                    assert(rv.remove(mi as int)[j] == rv[j + 1]);
                }
                if i < out@.len() - 1 {
                } else {
                    assert(out@[i]@ == m@);
                }
            }
        }
    }
    proof {
        assert(promos_view(rest@).to_multiset() =~= Multiset::<PromoView>::empty());
        assert(promos_view(out@).to_multiset() =~= orig.to_multiset());
    }
    out
}

/// The listing order is total.
proof fn lemma_promo_leq_total(sort: Option<SortBy>, a: PromoView, b: PromoView)
    ensures
        promo_leq(sort, a, b) || promo_leq(sort, b, a),
{
}

/// The listing order is transitive.
proof fn lemma_promo_leq_trans(sort: Option<SortBy>, a: PromoView, b: PromoView, c: PromoView)
    requires
        promo_leq(sort, a, b),
        promo_leq(sort, b, c),
    ensures
        promo_leq(sort, a, c),
{
}

/// Answers a listing query over the given promos: the page, filtered by
/// company and countries, cut by offset and limit, ordered by the listing
/// order; beside it the total number of matching promos before pagination.
pub fn list_promos(promos: &Vec<Promo>, company_id: &str, q: &ListQuery) -> (r: (
    Vec<PromoReadOnly>,
    usize,
))
    ensures
        r.1 == spec_list_filter(promos_view(promos@), company_id@, q@.countries).len(),
        exists|sorted: Seq<PromoView>|
            {
                &&& sorted.to_multiset() == spec_paginate(
                    spec_list_filter(promos_view(promos@), company_id@, q@.countries),
                    q@.offset,
                    q@.limit,
                ).to_multiset()
                &&& spec_sorted(q@.sort_by, sorted)
                &&& ro_views(r.0@) == sorted.map_values(|p: PromoView| spec_read_only(p))
            },
{
    let filtered = filter_promos(promos, company_id, &q.countries);
    let total = filtered.len();
    let page = paginate(filtered, q.offset, q.limit);
    let sorted_vec = sort_promos(page, q.sort_by);
    let ghost sorted = promos_view(sorted_vec@);
    let mut out: Vec<PromoReadOnly> = Vec::new();
    let mut i: usize = 0;
    while i < sorted_vec.len()
        invariant
            i <= sorted_vec@.len(),
            out@.len() == i,
            sorted == promos_view(sorted_vec@),
            forall|k: int| 0 <= k < i ==> (#[trigger] out@[k])@ == spec_read_only(sorted[k]),
        decreases sorted_vec@.len() - i,
    {
        out.push(sorted_vec[i].to_read_only());
        i += 1;
    }
    proof {
        assert(ro_views(out@) =~= sorted.map_values(|p: PromoView| spec_read_only(p)));
        assert(spec_list_filter(promos_view(promos@), company_id@, q@.countries).len() <= promos@.len()) by {
            lemma_list_filter_len(promos_view(promos@), company_id@, q@.countries);
        }
    }
    (out, total)
}

/// The filter never yields more promos than it was given.
proof fn lemma_list_filter_len(ps: Seq<PromoView>, company_id: Seq<char>, countries: Seq<Seq<char>>)
    ensures
        spec_list_filter(ps, company_id, countries).len() <= ps.len(),
    decreases ps.len(),
{
    if ps.len() > 0 {
        lemma_list_filter_len(ps.drop_last(), company_id, countries);
    }
}

} // verus!
