use vstd::prelude::*;
use vstd::string::StringExecFns;

use crate::json::{json_doc_of, member, member_of, parse_json, Json};

verus! {

/// One element of the snapshot's app list, as far as resolution reads it: its
/// `appid` when that is a non-negative integer, its `name` when that is a string.
pub struct AppRecord {
    pub appid: Option<u64>,
    pub name: Option<String>,
}

/// An app record as plain values: (appid, name).
pub type Entry = (Option<u64>, Option<Seq<char>>);

impl View for AppRecord {
    type V = Entry;

    open spec fn view(&self) -> Entry {
        (
            self.appid,
            match self.name {
                Some(s) => Some(s@),
                None => None,
            },
        )
    }
}

/// The entries of a catalog, in catalog order.
pub open spec fn entries_of(v: Seq<AppRecord>) -> Seq<Entry> {
    v.map_values(|a: AppRecord| a@)
}

/// Why a catalog operation failed.
#[derive(Debug, PartialEq, Eq)]
pub enum CatalogError {
    /// No snapshot has been stored yet: a refresh is needed.
    NotFound,
    /// The snapshot is not JSON with an `applist.apps` array.
    Parse,
    /// The remote source could not be reached or read; the message says why.
    Fetch(String),
}

/// An element of the app list read as an entry: its `appid` when that is a
/// non-negative integer, its `name` when that is a string.
pub open spec fn entry_of(el: Json) -> Entry {
    (
        match member(el, "appid"@) {
            Json::Num(n) => n,
            _ => None,
        },
        match member(el, "name"@) {
            Json::Str(s) => Some(s@),
            _ => None,
        },
    )
}

/// The entries of a snapshot document: its `applist.apps` array, each element read
/// as an entry; `None` where that is no array.
pub open spec fn app_list(doc: Json) -> Option<Seq<Entry>> {
    match member(member(doc, "applist"@), "apps"@) {
        Json::Arr(apps) => Some(apps@.map_values(|el: Json| entry_of(el))),
        _ => None,
    }
}

/// The entries that the snapshot text `text` holds; `None` when the text is not
/// JSON or has no `applist.apps` array.
pub open spec fn app_list_of(text: Seq<char>) -> Option<Seq<Entry>> {
    match json_doc_of(text) {
        Some(doc) => app_list(doc),
        None => None,
    }
}

/// The member named `key` of `doc`, `Null` where there is none.
fn member_or_null<'a>(doc: &'a Json, key: &str, null: &'a Json) -> (r: &'a Json)
    requires
        *null == Json::Null,
    ensures
        *r == member(*doc, key@),
{
    let k = String::from_str(key);
    match member_of(doc, &k) {
        Some(v) => v,
        None => null,
    }
}

/// Reads one element of the app list.
fn record_of(el: &Json) -> (r: AppRecord)
    ensures
        r@ == entry_of(*el),
{
    let null = Json::Null;
    let appid = match member_or_null(el, "appid", &null) {
        Json::Num(n) => *n,
        _ => None,
    };
    let name = match member_or_null(el, "name", &null) {
        Json::Str(s) => Some(s.clone()),
        _ => None,
    };
    AppRecord { appid, name }
}

/// Reads the app list of a snapshot document: the records of its `applist.apps`
/// array in order, or `None` where that is no array.
pub fn app_list_from(doc: &Json) -> (r: Option<Vec<AppRecord>>)
    ensures
        match r {
            Some(v) => app_list(*doc) == Some(entries_of(v@)),
            None => app_list(*doc) is None,
        },
{
    let null = Json::Null;
    let list = member_or_null(doc, "applist", &null);
    match member_or_null(list, "apps", &null) {
        Json::Arr(apps) => {
            let mut out: Vec<AppRecord> = Vec::new();
            let mut i: usize = 0;
            while i < apps.len()
                invariant
                    i <= apps.len(),
                    out@.len() == i,
                    entries_of(out@) == apps@.subrange(0, i as int).map_values(
                        |el: Json| entry_of(el),
                    ),
                decreases apps.len() - i,
            {
                let rec = record_of(&apps[i]);
                let ghost before = out@;
                out.push(rec);
                proof {
                    assert(out@ =~= before.push(rec));
                    assert forall|j: int| 0 <= j < i implies #[trigger] entries_of(out@)[j]
                        == entries_of(before)[j] by {
                        assert(out@[j] == before[j]);
                    }
                    assert(entries_of(out@)[i as int] == entry_of(apps@[i as int]));
                    assert(entries_of(out@) =~= apps@.subrange(0, i as int + 1).map_values(
                        |el: Json| entry_of(el),
                    ));
                }
                i += 1;
            }
            proof {
                assert(apps@.subrange(0, i as int) =~= apps@);
            }
            Some(out)
        },
        _ => None,
    }
}

/// What loading a stored snapshot gives: `None` stands for no snapshot stored.
pub open spec fn loaded(snapshot: Option<Seq<char>>) -> Result<Seq<Entry>, CatalogError> {
    match snapshot {
        None => Err(CatalogError::NotFound),
        Some(text) => match app_list_of(text) {
            Some(es) => Ok(es),
            None => Err(CatalogError::Parse),
        },
    }
}

/// Parses a stored snapshot into its catalog; `None` means that nothing is stored.
pub fn load_catalog(snapshot: Option<&str>) -> (r: Result<Vec<AppRecord>, CatalogError>)
    ensures
        match r {
            Ok(v) => loaded(opt_view(snapshot)) == Ok::<Seq<Entry>, CatalogError>(entries_of(v@)),
            Err(e) => loaded(opt_view(snapshot)) == Err::<Seq<Entry>, CatalogError>(e),
        },
{
    match snapshot {
        None => Err(CatalogError::NotFound),
        Some(text) => match parse_json(text) {
            Some(doc) => match app_list_from(&doc) {
                Some(v) => Ok(v),
                None => Err(CatalogError::Parse),
            },
            None => Err(CatalogError::Parse),
        },
    }
}

/// The characters of an optional text.
pub open spec fn opt_view(s: Option<&str>) -> Option<Seq<char>> {
    match s {
        Some(t) => Some(t@),
        None => None,
    }
}

} // verus!
