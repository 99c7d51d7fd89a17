use vstd::prelude::*;

use crate::catalog::{app_list_of, entries_of, load_catalog, loaded, opt_view, AppRecord, CatalogError, Entry};
use crate::normalize::{
    ascii_lower, is_ascii_text, is_key_char, lemma_normalize_case_insensitive,
    lemma_normalize_ignores_punctuation, normalize_with, normalized, KeyFilter,
};

verus! {

/// `needle` occurs in `hay` as a contiguous run of characters.
pub open spec fn is_infix(needle: Seq<char>, hay: Seq<char>) -> bool {
    exists|k: int|
        0 <= k && k + needle.len() <= hay.len() && #[trigger] hay.subrange(k, k + needle.len())
            == needle
}

/// Whether entry `e` matches the normalized query `qn`: in the exact phase its
/// normalized name equals `qn`, in the fuzzy phase it contains `qn`. An entry
/// without a name or without an id never matches.
pub open spec fn hit(e: Entry, qn: Seq<char>, exact: bool) -> bool {
    e.0 is Some && e.1 is Some && if exact {
        normalized(e.1->0) == qn
    } else {
        is_infix(qn, normalized(e.1->0))
    }
}

/// The id of the first entry, in catalog order, that matches `qn` in one phase.
pub open spec fn first_match(es: Seq<Entry>, qn: Seq<char>, exact: bool) -> Option<u64>
    decreases es.len(),
{
    if es.len() == 0 {
        None
    } else if hit(es[0], qn, exact) {
        es[0].0
    } else {
        first_match(es.drop_first(), qn, exact)
    }
}

/// An app id as the catalog's integer taken to 32 bits.
pub open spec fn app_id(raw: u64) -> u32 {
    (raw % 0x1_0000_0000) as u32
}

/// The result of resolving the normalized query `qn` against `es`: the first exact
/// match, else the first fuzzy match, else no match.
pub open spec fn resolution(es: Seq<Entry>, qn: Seq<char>) -> Option<u32> {
    match first_match(es, qn, true) {
        Some(id) => Some(app_id(id)),
        None => match first_match(es, qn, false) {
            Some(id) => Some(app_id(id)),
            None => None,
        },
    }
}

/// What searching a stored snapshot for `query` gives.
pub open spec fn search_result(snapshot: Option<Seq<char>>, query: Seq<char>) -> Result<
    Option<u32>,
    CatalogError,
> {
    match loaded(snapshot) {
        Ok(es) => Ok(resolution(es, normalized(query))),
        Err(e) => Err(e),
    }
}

/// Relies on str::contains with a `&str` pattern: whether `needle` occurs in `hay`.
#[verifier::external_body]
fn occurs_in(hay: &str, needle: &str) -> (r: bool)
    ensures
        r == is_infix(needle@, hay@),
{
    hay.contains(needle)
}

proof fn lemma_first_match_at(es: Seq<Entry>, qn: Seq<char>, exact: bool, i: int)
    requires
        0 <= i <= es.len(),
        forall|j: int| 0 <= j < i ==> !hit(#[trigger] es[j], qn, exact),
    ensures
        i < es.len() && hit(es[i], qn, exact) ==> first_match(es, qn, exact) == es[i].0,
        i == es.len() ==> first_match(es, qn, exact) is None,
    decreases i,
{
    if i > 0 {
        let rest = es.drop_first();
        assert forall|j: int| 0 <= j < i - 1 implies !hit(#[trigger] rest[j], qn, exact) by {
            assert(rest[j] == es[j + 1]);
        }
        lemma_first_match_at(rest, qn, exact, i - 1);
        assert(!hit(es[0], qn, exact));
    }
}

/// Whether record `a` matches the normalized query `qn` in the given phase.
fn record_hits(filter: &KeyFilter, a: &AppRecord, qn: &String, exact: bool) -> (r: bool)
    ensures
        r == hit(a@, qn@, exact),
{
    if a.appid.is_none() {
        return false;
    }
    match &a.name {
        None => false,
        Some(name) => {
            let key = normalize_with(filter, name.as_str());
            if exact {
                key.eq(qn)
            } else {
                occurs_in(key.as_str(), qn.as_str())
            }
        },
    }
}

/// The id of the first record, in catalog order, that matches `qn` in one phase.
fn scan(filter: &KeyFilter, apps: &Vec<AppRecord>, qn: &String, exact: bool) -> (r: Option<u64>)
    ensures
        r == first_match(entries_of(apps@), qn@, exact),
{
    let ghost es = entries_of(apps@);
    let mut i: usize = 0;
    while i < apps.len()
        invariant
            i <= apps.len(),
            es == entries_of(apps@),
            forall|j: int| 0 <= j < i ==> !hit(#[trigger] es[j], qn@, exact),
        decreases apps.len() - i,
    {
        if record_hits(filter, &apps[i], qn, exact) {
            proof {
                lemma_first_match_at(es, qn@, exact, i as int);
            }
            return apps[i].appid;
        }
        i += 1;
    }
    proof {
        lemma_first_match_at(es, qn@, exact, i as int);
    }
    None
}

/// Resolves `query` against a catalog: the first record whose normalized name
/// equals the normalized query, else the first whose normalized name contains it,
/// else no match.
pub fn resolve_in(apps: &Vec<AppRecord>, query: &str) -> (r: Option<u32>)
    ensures
        r == resolution(entries_of(apps@), normalized(query@)),
{
    let filter = KeyFilter::new();
    let qn = normalize_with(&filter, query);
    match scan(&filter, apps, &qn, true) {
        Some(id) => Some((id % 0x1_0000_0000) as u32),
        None => match scan(&filter, apps, &qn, false) {
            Some(id) => Some((id % 0x1_0000_0000) as u32),
            None => None,
        },
    }
}

/// Searches the stored snapshot for `query`; `None` stands for no snapshot stored.
/// Fails with `NotFound` when nothing is stored and with `Parse` when the snapshot
/// has no app list; a query that matches nothing is `Ok(None)`.
pub fn search_local_game(snapshot: Option<&str>, query: &str) -> (r: Result<
    Option<u32>,
    CatalogError,
>)
    ensures
        r == search_result(opt_view(snapshot), query@),
{
    match load_catalog(snapshot) {
        Ok(apps) => Ok(resolve_in(&apps, query)),
        Err(e) => Err(e),
    }
}

/// A query whose normalized key occurs in the normalized name of no entry resolves
/// to no match, and that is a success, not an error.
pub proof fn lemma_no_match(text: Seq<char>, query: Seq<char>)
    requires
        app_list_of(text) is Some,
        forall|i: int|
            0 <= i < app_list_of(text)->0.len() && (#[trigger] app_list_of(text)->0[i]).1 is Some
                ==> !is_infix(normalized(query), normalized(app_list_of(text)->0[i].1->0)),
    ensures
        search_result(Some(text), query) == Ok::<Option<u32>, CatalogError>(None),
{
    let es = app_list_of(text)->0;
    let qn = normalized(query);
    assert forall|j: int| 0 <= j < es.len() implies !hit(#[trigger] es[j], qn, true) && !hit(
        es[j],
        qn,
        false,
    ) by {
        if es[j].1 is Some {
            let key = normalized(es[j].1->0);
            assert(!is_infix(qn, key));
            if key == qn {
                assert(key.subrange(0, 0 + qn.len() as int) =~= qn);
            }
        }
    }
    lemma_first_match_at(es, qn, true, es.len() as int);
    lemma_first_match_at(es, qn, false, es.len() as int);
}

/// Searching before any snapshot was stored fails with `NotFound`, whatever the query.
pub proof fn lemma_missing_snapshot(query: Seq<char>)
    ensures
        search_result(None, query) == Err::<Option<u32>, CatalogError>(CatalogError::NotFound),
{
}

/// A query with an empty key (empty, or only punctuation and spaces) is contained in
/// every name: where no name normalizes to the empty key, it resolves to the first
/// entry when that entry has an id and a name.
pub proof fn lemma_empty_query_takes_first(es: Seq<Entry>, query: Seq<char>)
    requires
        normalized(query).len() == 0,
        es.len() > 0,
        es[0].0 is Some,
        es[0].1 is Some,
        forall|i: int|
            0 <= i < es.len() && (#[trigger] es[i]).1 is Some ==> normalized(es[i].1->0).len()
                > 0,
    ensures
        resolution(es, normalized(query)) == Some(app_id(es[0].0->0)),
{
    let qn = normalized(query);
    assert forall|j: int| 0 <= j < es.len() implies !hit(#[trigger] es[j], qn, true) by {
        if es[j].1 is Some {
            assert(normalized(es[j].1->0).len() > 0);
        }
    }
    lemma_first_match_at(es, qn, true, es.len() as int);
    let key = normalized(es[0].1->0);
    assert(key.subrange(0, 0 + qn.len() as int) =~= qn);
    lemma_first_match_at(es, qn, false, 0);
}

/// Searching ignores case: two ASCII queries that differ only in the case of
/// their letters give the same result on the same snapshot.
pub proof fn lemma_search_ignores_case(snapshot: Option<Seq<char>>, q: Seq<char>, t: Seq<char>)
    requires
        is_ascii_text(q),
        is_ascii_text(t),
        q.len() == t.len(),
        forall|i: int| 0 <= i < q.len() ==> ascii_lower(#[trigger] q[i]) == ascii_lower(t[i]),
    ensures
        search_result(snapshot, q) == search_result(snapshot, t),
{
    lemma_normalize_case_insensitive(q, t);
}

/// Searching ignores punctuation and spaces: inserting an ASCII character that is
/// neither a letter nor a digit into an ASCII query leaves the result unchanged.
pub proof fn lemma_search_ignores_punctuation(
    snapshot: Option<Seq<char>>,
    q: Seq<char>,
    k: int,
    c: char,
)
    requires
        is_ascii_text(q),
        (c as u32) < 128,
        !is_key_char(ascii_lower(c)),
        0 <= k <= q.len(),
    ensures
        search_result(snapshot, q.insert(k, c)) == search_result(snapshot, q),
{
    lemma_normalize_ignores_punctuation(q, k, c);
}

} // verus!
