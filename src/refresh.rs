use vstd::prelude::*;
use vstd::string::StringExecFns;

use crate::catalog::{app_list_of, loaded, CatalogError, Entry};

verus! {

/// The snapshot stored after a refresh whose fetch gave `fetched`, where `previous`
/// was stored before: a fetched body replaces it verbatim, a failed fetch keeps it.
pub open spec fn stored_after(
    fetched: Result<Seq<char>, Seq<char>>,
    previous: Option<Seq<char>>,
) -> Option<Seq<char>> {
    match fetched {
        Ok(body) => Some(body),
        Err(_) => previous,
    }
}

/// A fetch outcome as plain text: the body, or the failure message.
pub open spec fn fetched_text(fetched: Result<String, String>) -> Result<Seq<char>, Seq<char>> {
    match fetched {
        Ok(body) => Ok(body@),
        Err(m) => Err(m@),
    }
}

/// The snapshot stored once the decision `decided` is carried out over `previous`:
/// an `Ok` body is written in its place, an error leaves it.
pub open spec fn carried_out(
    decided: Result<String, CatalogError>,
    previous: Option<Seq<char>>,
) -> Option<Seq<char>> {
    match decided {
        Ok(body) => Some(body@),
        Err(_) => previous,
    }
}

/// Decides what a refresh stores: the fetched body verbatim, or, when the fetch
/// failed, a `Fetch` error with its message, the stored snapshot being left as is.
pub fn snapshot_to_store(fetched: Result<String, String>) -> (r: Result<String, CatalogError>)
    ensures
        match fetched {
            Ok(body) => r is Ok && r->Ok_0@ == body@,
            Err(m) => r is Err && r->Err_0 == CatalogError::Fetch(m),
        },
        forall|previous: Option<Seq<char>>|
            #[trigger] carried_out(r, previous) == stored_after(fetched_text(fetched), previous),
{
    match fetched {
        Ok(body) => Ok(body),
        Err(m) => Err(CatalogError::Fetch(m)),
    }
}

/// The path a new snapshot is written to before it is renamed over `path`, so
/// that a reader of `path` sees either the old content or the new, never a part.
/// `tag` tells concurrent refreshes apart, so that each writes a file of its own.
pub fn staging_path(path: &str, tag: &str) -> (r: String)
    ensures
        r@ == path@ + ".tmp."@ + tag@,
        r@ != path@,
{
    let mut s = String::from_str(path);
    s.append(".tmp.");
    s.append(tag);
    proof {
        reveal_strlit(".tmp.");
        assert(s@.len() == path@.len() + 5 + tag@.len());
    }
    s
}

/// The store endpoint's details document for `appid`.
pub fn details_url(appid: &str) -> (r: String)
    ensures
        r@ == "https://store.steampowered.com/api/appdetails?appids="@ + appid@,
{
    String::from_str("https://store.steampowered.com/api/appdetails?appids=").concat(appid)
}

/// A refresh that fetched `body` leaves a snapshot that loads to exactly the app
/// list of `body`, in its order, whatever was stored before; one whose fetch failed
/// leaves what loads unchanged.
pub proof fn lemma_refresh_round_trip(
    body: Seq<char>,
    failure: Seq<char>,
    previous: Option<Seq<char>>,
)
    ensures
        loaded(stored_after(Ok(body), previous)) == match app_list_of(body) {
            Some(es) => Ok::<Seq<Entry>, CatalogError>(es),
            None => Err(CatalogError::Parse),
        },
        loaded(stored_after(Err(failure), previous)) == loaded(previous),
{
}

} // verus!
