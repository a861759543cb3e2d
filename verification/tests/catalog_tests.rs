use plex_catalog::error::ApiError;
use plex_catalog::db::{
    fts_query, group_episode_rows, item_batch_columns, item_batch_parts, library_item_from_row,
    media_details_from_rows, media_part_resolution, normalize_item_guid, remote_connection_index,
    resolve_show_seasons, EpisodeWithVersion, ItemByGuid, ItemWithContext, LibraryItemRow,
    PartRow, VersionDetails,
};
use plex_catalog::models::{
    parse_optional_date, CalendarDate, Connection, DbServer, Device, Item, Media, Part, SeasonSummary,
};
use plex_catalog::requests::{
    guid_for_item_lookup, movie_fulfillment_query, movie_query_for_lowered, pattern_for_lowered,
    resolution_pattern_for, MovieQuery,
    ResolutionPattern, ShowCheckStep, ShowFulfillmentCheck, ShowQuery,
};
use plex_catalog::resolution::{is_resolution_lower, normalize_resolution_label, resolution_weight};
use plex_catalog::text::split_on_char;
use plex_catalog::versions::add_version_row;

#[test]
fn resolution_weights() {
    assert_eq!(resolution_weight(" 4K "), Some(4));
    assert_eq!(resolution_weight("2160p"), Some(4));
    assert_eq!(resolution_weight("1080p"), Some(3));
    assert_eq!(resolution_weight("720"), Some(2));
    assert_eq!(resolution_weight("SD"), Some(1));
    assert_eq!(resolution_weight("480i"), Some(1));
    assert_eq!(resolution_weight("unknown"), None);
    assert_eq!(normalize_resolution_label("  HD 1080P\t"), "hd 1080p");
}

#[test]
fn resolution_order() {
    assert!(is_resolution_lower("720p", "1080p"));
    assert!(!is_resolution_lower("1080p", "1080"));
    assert!(!is_resolution_lower("4k", "720"));
    assert!(!is_resolution_lower("weird", "4k"));
    assert!(!is_resolution_lower("sd", "weird"));
}

#[test]
fn request_guids_and_patterns() {
    assert_eq!(guid_for_item_lookup("plex://movie/abc"), "movie/abc");
    assert_eq!(guid_for_item_lookup("local-1-2"), "local-1-2");
    assert_eq!(resolution_pattern_for("4K"), "%4k%");
    assert_eq!(resolution_pattern_for("2160p"), "%4k%");
    assert_eq!(resolution_pattern_for("1080"), "%1080%");
    assert_eq!(resolution_pattern_for("720P"), "%720%");
    assert_eq!(resolution_pattern_for("480p"), "%");
}

#[test]
fn movie_queries() {
    assert_eq!(
        movie_fulfillment_query("plex://movie/x", Some("4k"), false),
        ("movie/x".to_string(), MovieQuery::AnyMovie)
    );
    assert_eq!(
        movie_fulfillment_query("plex://movie/x", None, true),
        ("movie/x".to_string(), MovieQuery::AnyMovie)
    );
    assert_eq!(
        movie_fulfillment_query("m", Some("1080P"), true),
        ("m".to_string(), MovieQuery::PartMatches(ResolutionPattern::FullHd))
    );
    assert_eq!(
        movie_fulfillment_query("m", Some("HDR"), true),
        ("m".to_string(), MovieQuery::ResolutionLike("%hdr%".to_string()))
    );
}

fn run_show_check(c: &mut ShowFulfillmentCheck, answer: impl Fn(ShowQuery) -> bool) -> bool {
    let mut step = c.step();
    loop {
        match step {
            ShowCheckStep::Decided(b) => return b,
            ShowCheckStep::Ask(q) => step = c.answer(answer(q)),
        }
    }
}

#[test]
fn show_request_checks_each_season() {
    let seasons = [1, 2];
    let mut c = ShowFulfillmentCheck::new("plex://show/s", Some(&seasons[..]), None, false);
    assert_eq!(c.guid(), "show/s");
    assert!(run_show_check(&mut c, |q| matches!(q, ShowQuery::ShowExists | ShowQuery::SeasonExists(_))));
    let mut missing = ShowFulfillmentCheck::new("s", Some(&seasons[..]), None, false);
    assert!(!run_show_check(&mut missing, |q| !matches!(q, ShowQuery::SeasonExists(2))));
    let mut absent = ShowFulfillmentCheck::new("s", None, None, false);
    assert!(!run_show_check(&mut absent, |_| false));
}

#[test]
fn show_request_without_seasons_and_upgrade() {
    let mut c = ShowFulfillmentCheck::new("s", None, Some("4k"), true);
    assert!(run_show_check(&mut c, |q| match q {
        ShowQuery::AnyEpisodeHasResolution(p) => p == ResolutionPattern::UltraHd,
        _ => true,
    }));
    let seasons = [1];
    let mut direct = ShowFulfillmentCheck::new("s", Some(&seasons[..]), None, false);
    assert!(run_show_check(&mut direct, |q| !matches!(q, ShowQuery::SeasonExists(_))));
}

fn item(rk: &str, guid: Option<&str>, summary: Option<&str>, year: u16) -> Item {
    Item {
        guid: guid.map(String::from),
        rating_key: rk.to_string(),
        parent_id: None,
        index: Some(1),
        leaf_count: None,
        title: "Title".to_string(),
        key: format!("/library/metadata/{}", rk),
        summary: summary.map(String::from),
        item_type: "movie".to_string(),
        year,
        media: vec![],
        thumb: None,
        art: None,
        updated_at: Some(5),
        content_rating: None,
        duration: None,
        originally_available_at: None,
        studio: None,
        extra_type: None,
    }
}

#[test]
fn stored_guids() {
    assert_eq!(normalize_item_guid(&Some("plex://movie/1".to_string()), "srv", "9"), "movie/1");
    assert_eq!(normalize_item_guid(&Some("com.plexapp.agents.imdb://tt1".to_string()), "srv", "9"), "local-srv-9");
    assert_eq!(normalize_item_guid(&None, "srv", "9"), "local-srv-9");
}

#[test]
fn batch_columns() {
    let items = vec![
        ItemWithContext { item: item("1", Some("plex://movie/a"), Some(""), 1999), library_id: "l".to_string(), server_id: "s".to_string() },
        ItemWithContext { item: item("2", None, Some("text"), 40000), library_id: "l".to_string(), server_id: "s".to_string() },
    ];
    let c = item_batch_columns(&items);
    assert_eq!(c.ids, vec!["1".to_string(), "2".to_string()]);
    assert_eq!(c.guids, vec![Some("movie/a".to_string()), Some("local-s-2".to_string())]);
    assert_eq!(c.summaries, vec![None, Some("text".to_string())]);
    assert_eq!(c.years, vec![1999, 40000u16 as i16]);
    assert_eq!(c.updated_ats, vec![Some(5), Some(5)]);
}

#[test]
fn library_rows_become_items() {
    let row = LibraryItemRow {
        id: "12".to_string(),
        guid: Some("movie/a".to_string()),
        parent_id: None,
        title: "T".to_string(),
        summary: None,
        item_type: "movie".to_string(),
        year: Some(2001),
        thumb_path: None,
        art_path: None,
        index: None,
        leaf_count: None,
        updated_at: None,
        content_rating: None,
        duration: Some(100),
        originally_available_at: Some(CalendarDate { year: 2001, month: 2, day: 3 }),
        studio: None,
        extra_type: None,
        best_resolution: Some("1080".to_string()),
    };
    let it = library_item_from_row(row.clone());
    assert_eq!(it.key, "/library/metadata/12");
    assert_eq!(it.year, 2001);
    assert_eq!(it.media.len(), 1);
    assert_eq!(it.media[0].video_resolution.as_deref(), Some("1080"));
    let none = library_item_from_row(LibraryItemRow { year: None, best_resolution: None, ..row });
    assert_eq!(none.year, 0);
    assert!(none.media.is_empty());
}

#[test]
fn connections_and_parts() {
    let d = Device {
        name: "n".to_string(),
        product: "p".to_string(),
        provides: "server".to_string(),
        client_identifier: "c".to_string(),
        access_token: None,
        connections: vec![
            Connection { uri: "http://local".to_string(), local: true },
            Connection { uri: "https://remote".to_string(), local: false },
        ],
    };
    assert_eq!(remote_connection_index(&d), Some(1));
    let all_local = Device { connections: vec![Connection { uri: "x".to_string(), local: true }], ..d };
    assert_eq!(remote_connection_index(&all_local), None);
    assert_eq!(media_part_resolution(&Media { video_resolution: None, parts: vec![] }), "Unknown");
    assert_eq!(media_part_resolution(&Media { video_resolution: Some("4k".to_string()), parts: vec![] }), "4k");
}

#[test]
fn db_server_as_device() {
    let d = Device::from_db_server(DbServer {
        id: "id".to_string(),
        name: "Name".to_string(),
        is_online: true,
        access_token: "tok".to_string(),
        connection_uri: "https://c".to_string(),
        last_seen: 0,
    });
    assert_eq!(d.provides, "server");
    assert_eq!(d.client_identifier, "id");
    assert_eq!(d.access_token.as_deref(), Some("tok"));
    assert_eq!(d.connections, vec![Connection { uri: "https://c".to_string(), local: false }]);
}

#[test]
fn full_text_query() {
    assert_eq!(fts_query("star  wars"), "star & wars:*");
    assert_eq!(fts_query("  alien "), "alien:*");
    assert_eq!(fts_query(""), ":*");
}

fn season(id: &str) -> SeasonSummary {
    SeasonSummary { id: id.to_string(), title: id.to_string(), summary: None, thumb_path: None, art_path: None, leaf_count: None }
}

#[test]
fn seasons_fall_back_to_show() {
    assert_eq!(resolve_show_seasons(vec![season("a")], Some(season("show"))), vec![season("a")]);
    assert_eq!(resolve_show_seasons(vec![], Some(season("show"))), vec![season("show")]);
    assert_eq!(resolve_show_seasons(vec![], None), vec![]);
}

#[test]
fn version_rows_group_by_resolution() {
    let mut v = vec![];
    add_version_row(&mut v, &Some("1080".to_string()), &Some("eng".to_string()));
    add_version_row(&mut v, &Some("1080".to_string()), &Some("eng".to_string()));
    add_version_row(&mut v, &Some("1080".to_string()), &Some("ger".to_string()));
    add_version_row(&mut v, &Some("4k".to_string()), &None);
    assert_eq!(v.len(), 2);
    assert_eq!(v[0].video_resolution, "1080");
    assert_eq!(v[0].subtitles, vec!["eng".to_string(), "ger".to_string()]);
    assert_eq!(v[1].video_resolution, "4k");
    assert!(v[1].subtitles.is_empty());
}

fn by_guid(id: &str, server: &str) -> ItemByGuid {
    ItemByGuid {
        id: id.to_string(),
        server_id: server.to_string(),
        server_name: format!("{} name", server),
        access_token: "t".to_string(),
        guid: Some("movie/a".to_string()),
        title: "Movie".to_string(),
        summary: None,
        year: Some(2000),
        originally_available_at: None,
        art_path: None,
        thumb_path: None,
        item_type: "movie".to_string(),
        content_rating: None,
        duration: None,
    }
}

#[test]
fn media_details_from_catalog_rows() {
    assert!(media_details_from_rows(&vec![], &vec![]).is_none());
    let items = vec![by_guid("1", "s1"), by_guid("2", "s2")];
    let versions = vec![
        VersionDetails { item_id: Some("1".to_string()), server_id: "s1".to_string(), video_resolution: Some("1080".to_string()), subtitle_language: Some("eng".to_string()) },
        VersionDetails { item_id: Some("2".to_string()), server_id: "s2".to_string(), video_resolution: Some("4k".to_string()), subtitle_language: None },
        // A part of an item with the same rating key on another server.
        VersionDetails { item_id: Some("1".to_string()), server_id: "s2".to_string(), video_resolution: Some("720".to_string()), subtitle_language: None },
    ];
    let d = media_details_from_rows(&items, &versions).unwrap();
    assert_eq!(d.guid, "movie/a");
    assert_eq!(d.available_on.len(), 2);
    assert_eq!(d.available_on[0].rating_key, "1");
    assert_eq!(d.available_on[0].versions.len(), 1);
    assert_eq!(d.available_on[0].versions[0].subtitles, vec!["eng".to_string()]);
    assert_eq!(d.available_on[0].versions[0].video_resolution, "1080");
    assert_eq!(d.available_on[1].versions.len(), 1);
    assert_eq!(d.available_on[1].versions[0].video_resolution, "4k");
}

fn ep(id: &str, index: Option<i32>, res: Option<&str>, sub: Option<&str>) -> EpisodeWithVersion {
    EpisodeWithVersion {
        id: id.to_string(),
        title: format!("E{}", id),
        summary: None,
        thumb_path: None,
        index,
        content_rating: None,
        duration: None,
        video_resolution: res.map(String::from),
        subtitle_language: sub.map(String::from),
    }
}

#[test]
fn episodes_grouped_and_ordered() {
    let rows = vec![
        ep("b", Some(2), Some("1080"), Some("eng")),
        ep("a", Some(1), Some("720"), None),
        ep("b", Some(2), Some("1080"), Some("fre")),
        ep("c", None, None, None),
    ];
    let eps = group_episode_rows(&rows);
    let ids: Vec<&str> = eps.iter().map(|e| e.id.as_str()).collect();
    assert_eq!(ids, vec!["c", "a", "b"]);
    assert_eq!(eps[2].versions.len(), 1);
    assert_eq!(eps[2].versions[0].subtitles, vec!["eng".to_string(), "fre".to_string()]);
}

#[test]
fn optional_dates() {
    assert_eq!(parse_optional_date(None), None);
    assert_eq!(parse_optional_date(Some("  ".to_string())), None);
    assert_eq!(parse_optional_date(Some(" 2020-02-29 ".to_string())), Some(CalendarDate { year: 2020, month: 2, day: 29 }));
    assert_eq!(parse_optional_date(Some("2021-02-29".to_string())), None);
    assert_eq!(parse_optional_date(Some("soon".to_string())), None);
}

#[test]
fn split_on_dots() {
    assert_eq!(split_on_char("a..b", '.'), vec!["a".to_string(), String::new(), "b".to_string()]);
    assert_eq!(split_on_char("", '.'), vec![String::new()]);
}

#[test]
fn lowered_resolution_decisions() {
    assert_eq!(pattern_for_lowered("4k"), ResolutionPattern::UltraHd);
    assert_eq!(pattern_for_lowered("4K"), ResolutionPattern::Any);
    assert_eq!(pattern_for_lowered("720"), ResolutionPattern::Hd);
    assert_eq!(
        movie_query_for_lowered("2160p"),
        MovieQuery::PartMatches(ResolutionPattern::UltraHd)
    );
    assert_eq!(movie_query_for_lowered("dvd"), MovieQuery::ResolutionLike("%dvd%".to_string()));
    // An upgrade to 720p asks for a 720 part only: a 2160 part does not answer it.
    let q = movie_query_for_lowered("720p");
    assert_eq!(q, MovieQuery::PartMatches(ResolutionPattern::Hd));
    if let MovieQuery::PartMatches(p) = q {
        assert_eq!(p.sql(), "%720%");
    }
}

#[test]
fn api_error_status_codes() {
    assert_eq!(ApiError::NotFound("Media not found".to_string()).status_code(), 404);
    assert_eq!(ApiError::Unauthorized("Authentication required".to_string()).status_code(), 401);
    assert_eq!(ApiError::DbError(sqlx::Error::RowNotFound).status_code(), 500);
    assert_eq!(ApiError::NotFound("x".to_string()).message(), Some("x"));
    assert_eq!(ApiError::DbError(sqlx::Error::RowNotFound).message(), None);
}

#[test]
fn weight_ignores_ascii_case_and_padding() {
    assert_eq!(resolution_weight("1080P"), resolution_weight("1080p"));
    assert_eq!(resolution_weight("  720p  "), Some(2));
    assert_eq!(resolution_weight("\t4K\n"), Some(4));
    assert_eq!(resolution_weight("  SD "), resolution_weight("sd"));
}

#[test]
fn batch_parts_follow_items_and_media() {
    let mut first = item("1", None, None, 2000);
    first.media = vec![
        Media { video_resolution: Some("1080".to_string()), parts: vec![Part { id: 10, streams: vec![] }, Part { id: 11, streams: vec![] }] },
        Media { video_resolution: None, parts: vec![Part { id: 12, streams: vec![] }] },
    ];
    let mut second = item("2", None, None, 2000);
    second.media = vec![Media { video_resolution: Some("4k".to_string()), parts: vec![Part { id: 20, streams: vec![] }] }];
    let items = vec![
        ItemWithContext { item: first, library_id: "l".to_string(), server_id: "s1".to_string() },
        ItemWithContext { item: item("3", None, None, 2000), library_id: "l".to_string(), server_id: "s1".to_string() },
        ItemWithContext { item: second, library_id: "l".to_string(), server_id: "s2".to_string() },
    ];
    let row = |id: i64, item: &str, server: &str, res: &str| PartRow {
        id,
        item_id: item.to_string(),
        server_id: server.to_string(),
        video_resolution: res.to_string(),
    };
    assert_eq!(
        item_batch_parts(&items),
        vec![
            row(10, "1", "s1", "1080"),
            row(11, "1", "s1", "1080"),
            row(12, "1", "s1", "Unknown"),
            row(20, "2", "s2", "4k"),
        ]
    );
    assert!(item_batch_parts(&[]).is_empty());
}
