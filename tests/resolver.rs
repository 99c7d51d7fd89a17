use steam_catalog::catalog::{app_list_from, load_catalog, AppRecord, CatalogError};
use steam_catalog::json::{parse_json, Json};
use steam_catalog::gpu::{join_with, names_from_listing, names_from_report};
use steam_catalog::normalize::normalize;
use steam_catalog::refresh::{details_url, snapshot_to_store, staging_path};
use steam_catalog::resolve::{resolve_in, search_local_game};
use steam_catalog::system::{ram_gib, storage_gb};

fn record(id: u64, name: &str) -> AppRecord {
    AppRecord { appid: Some(id), name: Some(name.to_string()) }
}

fn snapshot(apps: &str) -> String {
    format!("{{\"applist\":{{\"apps\":[{}]}}}}", apps)
}

#[test]
fn normalize_is_case_insensitive() {
    assert_eq!(normalize("Half-Life 2"), "halflife2");
    assert_eq!(normalize("HALF LIFE 2"), "halflife2");
    assert_eq!(normalize("Half-Life 2"), normalize("HALF LIFE 2"));
}

#[test]
fn normalize_twice_is_normalize_once() {
    for s in ["Half-Life 2", "  Portal: Still Alive!! ", "Ünïcödé Çafé 3", "", "already123"] {
        let once = normalize(s);
        assert_eq!(normalize(&once), once);
    }
}

#[test]
fn normalize_deletes_non_ascii_letters() {
    assert_eq!(normalize("Pokémon Ω 7"), "pokmon7");
    assert_eq!(normalize("  !!  "), "");
}

#[test]
fn normalize_lowercases_by_unicode_rules() {
    assert_eq!(normalize("\u{212A}elvin"), "kelvin");
    assert_eq!(normalize("\u{0130}stanbul"), "istanbul");
    let apps = vec![record(1, "\u{212A}")];
    assert_eq!(resolve_in(&apps, "k"), Some(1));
}

#[test]
fn search_ignores_query_case_and_punctuation() {
    let text = snapshot("{\"appid\":70,\"name\":\"Half-Life\"},{\"appid\":220,\"name\":\"Half-Life 2\"}");
    for q in ["half life 2", "HALF-LIFE 2", "Half: Life -- 2!", "halflife2"] {
        assert_eq!(search_local_game(Some(&text), q), Ok(Some(220)));
    }
    assert_eq!(search_local_game(Some(&text), "HALF LIFE"), Ok(Some(70)));
}

#[test]
fn exact_match_wins_over_earlier_fuzzy() {
    let apps = vec![record(1, "Portal"), record(2, "Portal 2")];
    assert_eq!(resolve_in(&apps, "portal"), Some(1));
    let apps = vec![record(2, "Portal 2"), record(1, "Portal")];
    assert_eq!(resolve_in(&apps, "portal"), Some(1));
}

#[test]
fn fuzzy_match_falls_back_to_substring() {
    let apps = vec![record(5, "Counter-Strike 2")];
    assert_eq!(resolve_in(&apps, "counter strike"), Some(5));
}

#[test]
fn fuzzy_match_takes_first_in_catalog_order() {
    let apps = vec![record(7, "Dark Souls III"), record(8, "Dark Souls II")];
    assert_eq!(resolve_in(&apps, "dark souls"), Some(7));
}

#[test]
fn no_overlap_is_no_match_not_error() {
    let text = snapshot("{\"appid\":1,\"name\":\"Portal\"},{\"appid\":2,\"name\":\"Portal 2\"}");
    assert_eq!(search_local_game(Some(&text), "zelda"), Ok(None));
}

#[test]
fn empty_catalog_has_no_match() {
    assert_eq!(search_local_game(Some(&snapshot("")), "portal"), Ok(None));
}

#[test]
fn search_before_refresh_is_not_found() {
    assert_eq!(search_local_game(None, "portal"), Err(CatalogError::NotFound));
}

#[test]
fn invalid_snapshot_is_parse_error() {
    assert_eq!(search_local_game(Some("{\"applist\": "), "portal"), Err(CatalogError::Parse));
    assert_eq!(search_local_game(Some("{\"applist\":{}}"), "portal"), Err(CatalogError::Parse));
    assert_eq!(
        search_local_game(Some("{\"applist\":{\"apps\":{}}}"), "portal"),
        Err(CatalogError::Parse)
    );
    assert_eq!(search_local_game(Some("[1, 2]"), "portal"), Err(CatalogError::Parse));
}

#[test]
fn empty_query_matches_first_named_entry() {
    let text = snapshot("{\"appid\":3},{\"appid\":4,\"name\":\"Dota 2\"},{\"appid\":5,\"name\":\"Portal\"}");
    assert_eq!(search_local_game(Some(&text), ""), Ok(Some(4)));
    assert_eq!(search_local_game(Some(&text), "?!"), Ok(Some(4)));
}

#[test]
fn entries_without_text_name_or_id_are_skipped() {
    let text = snapshot(
        "{\"appid\":1,\"name\":42},{\"name\":\"Portal\"},{\"appid\":-3,\"name\":\"Portal\"},{\"appid\":9,\"name\":\"Portal\"}",
    );
    assert_eq!(search_local_game(Some(&text), "Portal"), Ok(Some(9)));
}

#[test]
fn large_ids_keep_their_low_32_bits() {
    let text = snapshot("{\"appid\":4294967297,\"name\":\"Wide\"}");
    assert_eq!(search_local_game(Some(&text), "wide"), Ok(Some(1)));
}

#[test]
fn stored_body_loads_back_in_order() {
    let body = snapshot("{\"appid\":10,\"name\":\"Counter-Strike\"},{\"appid\":20,\"name\":\"Team Fortress\"}");
    let stored = snapshot_to_store(Ok(body.clone())).unwrap();
    assert_eq!(stored, body);
    let apps = load_catalog(Some(&stored)).unwrap();
    let pairs: Vec<(Option<u64>, Option<String>)> =
        apps.into_iter().map(|a| (a.appid, a.name)).collect();
    assert_eq!(
        pairs,
        vec![
            (Some(10), Some("Counter-Strike".to_string())),
            (Some(20), Some("Team Fortress".to_string()))
        ]
    );
}

#[test]
fn failed_fetch_stores_nothing() {
    assert_eq!(
        snapshot_to_store(Err("timed out".to_string())),
        Err(CatalogError::Fetch("timed out".to_string()))
    );
}

#[test]
fn staging_path_differs_from_snapshot_path() {
    assert_eq!(staging_path("games_cache.json", "41.0"), "games_cache.json.tmp.41.0");
    assert_ne!(staging_path("a", "1"), staging_path("a", "2"));
}

#[test]
fn details_url_carries_the_id() {
    assert_eq!(details_url("620"), "https://store.steampowered.com/api/appdetails?appids=620");
}

#[test]
fn memory_is_whole_gib() {
    assert_eq!(ram_gib(17_179_869_184), 16);
    assert_eq!(ram_gib(17_179_869_183), 15);
    assert_eq!(ram_gib(0), 0);
}

#[test]
fn storage_sums_all_disks_in_gb() {
    assert_eq!(storage_gb(&vec![500_000_000_000, 1_000_000_000_000, 999_999_999]), 1500);
    assert_eq!(storage_gb(&vec![]), 0);
    assert_eq!(storage_gb(&vec![u64::MAX, u64::MAX]), 36_893_488_147);
}

#[test]
fn listing_keeps_non_blank_lines_after_header() {
    let out = "Name  \r\nNVIDIA GeForce RTX 3080  \r\n\r\n   \r\nIntel UHD 630\r\n";
    assert_eq!(names_from_listing(out), "NVIDIA GeForce RTX 3080  , Intel UHD 630");
    assert_eq!(names_from_listing("Name\n"), "");
    assert_eq!(names_from_listing(""), "");
}

#[test]
fn report_takes_chipset_lines() {
    let out = "Graphics/Displays:\n\n    Apple M1:\n\n      Chipset Model: Apple M1\n      Type: GPU\n    Radeon:\n      Chipset Model: AMD Radeon Pro 5500M\n";
    assert_eq!(names_from_report(out), "Apple M1, AMD Radeon Pro 5500M");
    assert_eq!(names_from_report("Type: GPU\n"), "");
}

#[test]
fn join_puts_separator_between_parts() {
    let parts = vec!["a".to_string(), "".to_string(), "c".to_string()];
    assert_eq!(join_with(&parts, ", "), "a, , c");
    assert_eq!(join_with(&vec![], ", "), "");
}

#[test]
fn parse_keeps_the_document_shape() {
    let doc = parse_json("{\"a\": [1, -2, 2.5, \"x\", null, true], \"b\": {}}").unwrap();
    match doc {
        Json::Obj(fields) => {
            assert_eq!(fields.len(), 2);
            assert_eq!(fields[0].0, "a");
            match &fields[0].1 {
                Json::Arr(items) => {
                    assert_eq!(items.len(), 6);
                    assert!(matches!(items[0], Json::Num(Some(1))));
                    assert!(matches!(items[1], Json::Num(None)));
                    assert!(matches!(items[2], Json::Num(None)));
                    assert!(matches!(&items[3], Json::Str(s) if s == "x"));
                    assert!(matches!(items[4], Json::Null));
                    assert!(matches!(items[5], Json::Bool(true)));
                }
                _ => panic!("expected an array"),
            }
            assert!(matches!(&fields[1].1, Json::Obj(m) if m.is_empty()));
        }
        _ => panic!("expected an object"),
    }
    assert!(parse_json("{\"a\": ").is_none());
}

#[test]
fn app_list_reads_ids_and_names_in_order() {
    let doc = Json::Obj(vec![(
        "applist".to_string(),
        Json::Obj(vec![(
            "apps".to_string(),
            Json::Arr(vec![
                Json::Obj(vec![
                    ("name".to_string(), Json::Str("Portal".to_string())),
                    ("appid".to_string(), Json::Num(Some(400))),
                ]),
                Json::Obj(vec![("appid".to_string(), Json::Str("12".to_string()))]),
                Json::Null,
            ]),
        )]),
    )]);
    let apps = app_list_from(&doc).unwrap();
    let pairs: Vec<(Option<u64>, Option<String>)> =
        apps.into_iter().map(|a| (a.appid, a.name)).collect();
    assert_eq!(pairs, vec![(Some(400), Some("Portal".to_string())), (None, None), (None, None)]);
    assert!(app_list_from(&Json::Obj(vec![("applist".to_string(), Json::Null)])).is_none());
    assert!(app_list_from(&Json::Arr(vec![])).is_none());
}

#[test]
fn listing_keeps_a_bare_final_carriage_return() {
    assert_eq!(names_from_listing("Name\r\nGPU A\r\nGPU B\r"), "GPU A, GPU B\r");
}

#[test]
fn report_trims_unicode_whitespace_and_replaces_each_label() {
    let out = "\u{3000}Chipset Model: X\u{a0}\n\tChipset Model: Chipset Model: Y\n";
    assert_eq!(names_from_report(out), "X, Y");
}
