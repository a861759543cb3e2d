use plex_catalog::json::Json;
use plex_catalog::models::{Connection, Device, PlexExtra};
use plex_catalog::plex::{
    all_leaves_url, children_url, discover_listing, discover_metadata, discover_metadata_positions,
    discover_search_url,
    extras_from_entries, extras_url, image_cache_key, image_url, libraries_url, library_items_url,
    metadata_url, play_queue_client_id, play_queue_item_uri, play_queue_url,
    item_extras, server_devices, DiscoverBucket, DiscoverResult, ExtraFields,
};

fn device(name: &str, provides: &str) -> Device {
    Device {
        name: name.to_string(),
        product: "Plex Media Server".to_string(),
        provides: provides.to_string(),
        client_identifier: format!("id-{}", name),
        access_token: None,
        connections: vec![Connection { uri: "https://a".to_string(), local: false }],
    }
}

#[test]
fn server_urls() {
    assert_eq!(libraries_url("https://s:32400"), "https://s:32400/library/sections");
    assert_eq!(library_items_url("https://s", "3"), "https://s/library/sections/3/all");
    assert_eq!(metadata_url("https://s", "42"), "https://s/library/metadata/42");
    assert_eq!(all_leaves_url("https://s", "42"), "https://s/library/metadata/42/allLeaves");
    assert_eq!(children_url("https://s", "42"), "https://s/library/metadata/42/children");
    assert_eq!(
        extras_url("https://s//", "42"),
        "https://s/library/metadata/42?includeExtras=1"
    );
    assert_eq!(play_queue_url("https://s/"), "https://s/playQueues");
    assert_eq!(
        play_queue_item_uri("abc", "42"),
        "server://abc/com.plexapp.plugins.library/library/metadata/42"
    );
}

#[test]
fn play_queue_client_id_prefers_caller() {
    assert_eq!(play_queue_client_id(Some("mine"), "default"), "mine");
    assert_eq!(play_queue_client_id(None, "default"), "default");
}

#[test]
fn discover_url_encodes_query() {
    assert_eq!(
        discover_search_url("star wars & co/é"),
        "https://discover.provider.plex.tv/library/search?query=star%20wars%20%26%20co%2F%C3%A9&limit=30&searchTypes=movies%2Ctv&searchProviders=discover%2CplexAVOD%2CplexTVOD&includeMetadata=1"
    );
    assert_eq!(
        discover_search_url("A-z_0.9~"),
        "https://discover.provider.plex.tv/library/search?query=A-z_0.9~&limit=30&searchTypes=movies%2Ctv&searchProviders=discover%2CplexAVOD%2CplexTVOD&includeMetadata=1"
    );
}

#[test]
fn image_url_resized_and_plain() {
    assert_eq!(
        image_url("https://s/", "tok", "library/metadata/1/thumb/2", Some(300), Some(450)),
        "https://s/photo/:/transcode?url=%2Flibrary%2Fmetadata%2F1%2Fthumb%2F2&width=300&height=450&format=jpeg&minSize=1&upscale=1&X-Plex-Token=tok"
    );
    assert_eq!(
        image_url("https://s", "tok", "/a/b", Some(1), Some(2)),
        "https://s/photo/:/transcode?url=%2Fa%2Fb&width=1&height=2&format=jpeg&minSize=1&upscale=1&X-Plex-Token=tok"
    );
    assert_eq!(image_url("https://s/", "tok", "//a/b", Some(10), None), "https://s/a/b");
    assert_eq!(image_url("https://s", "tok", "a/b", None, None), "https://s/a/b");
}

#[test]
fn image_cache_keys() {
    assert_eq!(image_cache_key("srv", "a/b", Some(300), Some(450)), "srv/a/b_300x450");
    assert_eq!(image_cache_key("srv", "a/b", Some(300), None), "srv/a/b");
    assert_eq!(image_cache_key("srv", "a/b", None, None), "srv/a/b");
}

#[test]
fn only_server_devices_kept_in_order() {
    let devices = vec![
        device("a", "server"),
        device("b", "player"),
        device("c", "server"),
        device("d", "server,player"),
    ];
    let kept = server_devices(devices);
    let names: Vec<&str> = kept.iter().map(|d| d.name.as_str()).collect();
    assert_eq!(names, vec!["a", "c"]);
    assert!(server_devices(vec![]).is_empty());
}

fn fields(title: Option<&str>, key: Option<&str>, rk: Option<&str>) -> ExtraFields {
    ExtraFields {
        title: title.map(String::from),
        key: key.map(String::from),
        rating_key: rk.map(String::from),
        thumb: Some("/t".to_string()),
        subtype: Some("trailer".to_string()),
    }
}

#[test]
fn extras_need_a_title() {
    let extras = extras_from_entries(vec![
        Some(fields(Some("Trailer"), Some("/library/metadata/9"), Some("9"))),
        None,
        Some(fields(None, Some("/x"), None)),
        Some(fields(Some("Scene"), None, None)),
    ]);
    assert_eq!(
        extras,
        vec![
            PlexExtra {
                rating_key: Some("9".to_string()),
                title: "Trailer".to_string(),
                key: "/library/metadata/9".to_string(),
                extra_type: Some("trailer".to_string()),
                thumb: Some("/t".to_string()),
            },
            PlexExtra {
                rating_key: None,
                title: "Scene".to_string(),
                key: String::new(),
                extra_type: Some("trailer".to_string()),
                thumb: Some("/t".to_string()),
            },
        ]
    );
}

fn bucket(id: Option<&str>, results: Option<Vec<Option<&str>>>) -> DiscoverBucket {
    DiscoverBucket {
        id: id.map(String::from),
        results: results.map(|rs| {
            rs.into_iter()
                .map(|g| {
                    g.map(|g| DiscoverResult {
                        guid: g.to_string(),
                        metadata: Json::Obj(vec![("guid".to_string(), Json::Str(g.to_string()))]),
                    })
                })
                .collect()
        }),
    }
}

#[test]
fn discover_skips_people_and_repeated_guids() {
    let buckets = vec![
        bucket(Some("movies"), Some(vec![Some("g1"), None, Some("g2")])),
        bucket(Some("people"), Some(vec![Some("p1")])),
        bucket(None, Some(vec![Some("g2"), Some("g3"), Some("g1")])),
        bucket(Some("tv"), None),
        bucket(Some("tv"), Some(vec![Some("g4")])),
    ];
    assert_eq!(
        discover_metadata_positions(&buckets),
        vec![(0, 0), (0, 2), (2, 1), (4, 0)]
    );
    assert!(discover_metadata_positions(&vec![]).is_empty());
    let guids: Vec<String> = discover_metadata(&buckets).iter().map(guid_of).collect();
    assert_eq!(guids, vec!["g1", "g2", "g3", "g4"]);
}

fn member<'a>(j: &'a Json, key: &str) -> Option<&'a Json> {
    match j {
        Json::Obj(fields) => fields.iter().find(|(k, _)| k == key).map(|(_, v)| v),
        _ => None,
    }
}

fn guid_of(j: &Json) -> String {
    match member(j, "guid") {
        Some(Json::Str(s)) => s.clone(),
        _ => String::new(),
    }
}

fn title_of(j: &Json) -> Option<String> {
    match member(j, "title") {
        Some(Json::Str(s)) => Some(s.clone()),
        _ => None,
    }
}

#[test]
fn discover_listing_reads_the_answer() {
    let text = r#"{"MediaContainer":{"SearchResults":[
        {"id":"movies","SearchResult":[
            {"Metadata":{"guid":"plex://movie/a","title":"A","year":2001,"tags":[true,null]}},
            {"Metadata":{"title":"no guid"}},
            {"Metadata":{"guid":"plex://movie/b"}}]},
        {"id":"people","SearchResult":[{"Metadata":{"guid":"plex://person/p"}}]},
        {"id":"tv","SearchResult":[
            {"Metadata":{"guid":"plex://movie/a","title":"again"}},
            {"Metadata":{"guid":"plex://show/c"}}]}]}}"#;
    let listed = discover_listing(true, text);
    assert_eq!(listed.len(), 3);
    assert_eq!(guid_of(&listed[0]), "plex://movie/a");
    assert_eq!(title_of(&listed[0]), Some("A".to_string()));
    assert!(matches!(member(&listed[0], "year"), Some(Json::Number(n)) if n == "2001"));
    assert!(matches!(
        member(&listed[0], "tags"),
        Some(Json::Arr(items)) if matches!(items[..], [Json::Bool(true), Json::Null])
    ));
    assert_eq!(guid_of(&listed[1]), "plex://movie/b");
    assert_eq!(title_of(&listed[1]), None);
    assert_eq!(guid_of(&listed[2]), "plex://show/c");
}

#[test]
fn discover_listing_is_empty_on_failure() {
    let text = r#"{"MediaContainer":{"SearchResults":[{"id":"movies","SearchResult":[{"Metadata":{"guid":"g"}}]}]}}"#;
    assert_eq!(discover_listing(true, text).len(), 1);
    assert!(discover_listing(false, text).is_empty());
    assert!(discover_listing(true, "not json").is_empty());
    assert!(discover_listing(true, "{}").is_empty());
    assert!(discover_listing(true, r#"{"MediaContainer":{}}"#).is_empty());
}

#[test]
fn item_extras_read_the_answer() {
    let text = r#"{"MediaContainer":{"Metadata":[{"Extras":{"Metadata":[
        {"title":"Trailer","key":"/k/1","ratingKey":"1","thumb":"/t/1","subtype":"trailer"},
        {"key":"/k/2"},
        "not an object",
        {"title":"Featurette","ratingKey":2}]}}]}}"#;
    let extras = item_extras(text).unwrap();
    assert_eq!(extras.len(), 2);
    assert_eq!(extras[0].title, "Trailer");
    assert_eq!(extras[0].key, "/k/1");
    assert_eq!(extras[0].rating_key, Some("1".to_string()));
    assert_eq!(extras[0].thumb, Some("/t/1".to_string()));
    assert_eq!(extras[0].extra_type, Some("trailer".to_string()));
    assert_eq!(extras[1].title, "Featurette");
    assert_eq!(extras[1].key, "");
    assert_eq!(extras[1].rating_key, None);
}

#[test]
fn item_extras_without_a_list() {
    assert!(item_extras("not json").is_none());
    assert_eq!(item_extras("{}").map(|e| e.len()), Some(0));
    assert_eq!(item_extras(r#"{"MediaContainer":{"Metadata":[]}}"#).map(|e| e.len()), Some(0));
    assert_eq!(
        item_extras(r#"{"MediaContainer":{"Metadata":[{"Extras":{"Metadata":{}}}]}}"#).map(|e| e.len()),
        Some(0)
    );
}
