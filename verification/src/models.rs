//! The catalog's data: what Plex reports, what the database stores and what
//! the API answers.
use vstd::prelude::*;

use crate::text::{chars_of, owned, trim, trim_bounds, string_of_range};

verus! {

/// A calendar date (proleptic Gregorian), as `chrono::NaiveDate` holds it.
#[derive(Clone, Copy, Debug, PartialEq, Eq)]
pub struct CalendarDate {
    pub year: i32,
    pub month: u32,
    pub day: u32,
}

/// Plex user with authentication token.
#[derive(Clone, Debug, PartialEq, Eq)]
pub struct User {
    pub auth_token: String,
}

/// Plex sign-in response containing user info.
#[derive(Clone, Debug, PartialEq, Eq)]
pub struct LoginResponse {
    pub user: User,
}

/// Plex device (server) with information needed to connect to the server.
#[derive(Clone, Debug, PartialEq, Eq)]
pub struct Device {
    pub name: String,
    pub product: String,
    pub provides: String,
    pub client_identifier: String,
    pub access_token: Option<String>,
    pub connections: Vec<Connection>,
}

/// Plex server connection URI, and whether it is a local connection.
#[derive(Clone, Debug, PartialEq, Eq)]
pub struct Connection {
    pub uri: String,
    pub local: bool,
}

#[derive(Clone, Debug, PartialEq, Eq)]
pub struct LibraryMediaContainer {
    pub media_container: LibraryList,
}

#[derive(Clone, Debug, PartialEq, Eq)]
pub struct LibraryList {
    pub libraries: Vec<Library>,
}

/// Plex library section (movies, shows, etc).
#[derive(Clone, Debug, PartialEq, Eq)]
pub struct Library {
    pub key: String,
    pub title: String,
    pub library_type: String,
}

#[derive(Clone, Debug, PartialEq, Eq)]
pub struct ItemMediaContainer {
    pub media_container: ItemList,
}

#[derive(Clone, Debug, PartialEq, Eq)]
pub struct ItemList {
    pub items: Vec<Item>,
}

/// Plex library item (movie, show, episode, extra, etc).
#[derive(Clone, Debug, PartialEq, Eq)]
pub struct Item {
    pub guid: Option<String>,
    pub rating_key: String,
    pub parent_id: Option<String>,
    pub index: Option<i32>,
    pub leaf_count: Option<i32>,
    pub title: String,
    pub key: String,
    pub summary: Option<String>,
    pub item_type: String,
    pub year: u16,
    pub media: Vec<Media>,
    pub thumb: Option<String>,
    pub art: Option<String>,
    pub updated_at: Option<i64>,
    pub content_rating: Option<String>,
    pub duration: Option<i64>,
    pub originally_available_at: Option<CalendarDate>,
    pub studio: Option<String>,
    /// Plex extra type (e.g. "trailer", "behindTheScenes") when item_type is "extra".
    pub extra_type: Option<String>,
}

/// Single bonus feature/extra.
#[derive(Clone, Debug, PartialEq, Eq)]
pub struct PlexExtra {
    pub rating_key: Option<String>,
    pub title: String,
    pub key: String,
    /// Plex extra type (e.g. "trailer", "behindTheScenes", "deleted_scene").
    pub extra_type: Option<String>,
    pub thumb: Option<String>,
}

/// Container for extras.
#[derive(Clone, Debug, PartialEq, Eq)]
pub struct PlexExtrasContainer {
    pub metadata: Vec<PlexExtra>,
}

/// Response wrapper for Plex extras from the Plex API.
#[derive(Clone, Debug, PartialEq, Eq)]
pub struct PlexExtrasResponse {
    pub media_container: PlexExtrasContainer,
}

#[derive(Clone, Debug, PartialEq, Eq)]
pub struct SingleItemMediaContainer {
    pub media_container: SingleItemList,
}

#[derive(Clone, Debug, PartialEq, Eq)]
pub struct SingleItemList {
    pub items: Vec<ItemWithDetails>,
}

/// The full metadata of one item, as Plex returns it for a single item.
#[derive(Clone, Debug, PartialEq, Eq)]
pub struct ItemWithDetails {
    pub guid: Option<String>,
    pub rating_key: String,
    pub parent_id: Option<String>,
    pub index: Option<i32>,
    pub leaf_count: Option<i32>,
    pub title: String,
    pub key: String,
    pub summary: Option<String>,
    pub item_type: String,
    pub year: u16,
    pub media: Vec<Media>,
    pub thumb: Option<String>,
    pub art: Option<String>,
    pub updated_at: Option<i64>,
    pub content_rating: Option<String>,
    pub duration: Option<i64>,
    pub originally_available_at: Option<CalendarDate>,
    pub studio: Option<String>,
}

#[derive(Clone, Debug, PartialEq, Eq)]
pub struct Media {
    pub video_resolution: Option<String>,
    pub parts: Vec<Part>,
}

#[derive(Clone, Debug, PartialEq, Eq)]
pub struct Part {
    pub id: i64,
    pub streams: Vec<Stream>,
}

#[derive(Clone, Debug, PartialEq, Eq)]
pub struct Stream {
    pub id: i64,
    pub stream_type: u8,
    pub language: Option<String>,
    pub language_code: Option<String>,
    pub format: Option<String>,
}

/// A server row of the catalog. `last_seen` counts microseconds since the
/// Unix epoch (UTC).
#[derive(Clone, Debug, PartialEq, Eq)]
pub struct DbServer {
    pub id: String,
    pub name: String,
    pub is_online: bool,
    pub access_token: String,
    pub connection_uri: String,
    pub last_seen: i64,
}

#[derive(Clone, Debug, PartialEq, Eq)]
pub struct SearchQuery {
    pub q: String,
}

#[derive(Clone, Debug, PartialEq, Eq)]
pub struct ImageQuery {
    pub width: Option<u32>,
    pub height: Option<u32>,
}

#[derive(Clone, Debug, PartialEq, Eq)]
pub struct MediaVersion {
    pub video_resolution: String,
    pub subtitles: Vec<String>,
}

#[derive(Clone, Debug, PartialEq, Eq)]
pub struct ServerAvailability {
    pub server_id: String,
    pub server_name: String,
    pub rating_key: String,
    pub access_token: String,
    pub versions: Vec<MediaVersion>,
}

#[derive(Clone, Debug, PartialEq, Eq)]
pub struct MediaDetails {
    pub guid: String,
    pub title: String,
    pub summary: Option<String>,
    pub year: Option<i16>,
    pub originally_available_at: Option<CalendarDate>,
    pub art_path: Option<String>,
    pub thumb_path: Option<String>,
    pub item_type: String,
    pub content_rating: Option<String>,
    pub duration: Option<i64>,
    pub available_on: Vec<ServerAvailability>,
}

#[derive(Clone, Debug, PartialEq, Eq)]
pub struct SeasonSummary {
    pub id: String,
    pub title: String,
    pub summary: Option<String>,
    pub thumb_path: Option<String>,
    pub art_path: Option<String>,
    pub leaf_count: Option<i32>,
}

#[derive(Clone, Debug, PartialEq, Eq)]
pub struct EpisodeDetails {
    pub id: String,
    pub title: String,
    pub summary: Option<String>,
    pub thumb_path: Option<String>,
    pub index: Option<i32>,
    pub content_rating: Option<String>,
    pub duration: Option<i64>,
    pub versions: Vec<MediaVersion>,
}

#[derive(Clone, Debug, PartialEq, Eq)]
pub struct PingsBody {
    pub username: String,
    pub body: String,
}

#[derive(Clone, Debug, PartialEq, Eq)]
pub struct MediaRequest {
    pub guid: String,
    pub title: String,
    pub item_type: String,
    pub year: Option<i16>,
    pub seasons: Option<Vec<i32>>,
    pub resolution: Option<String>,
    pub username: String,
}

impl Device {
    /// The device that a catalog server row stands for: a Plex server
    /// reachable through the row's connection URI as a remote connection.
    pub fn from_db_server(db_server: DbServer) -> (d: Device)
        ensures
            d.name == db_server.name,
            d.product@ == ""@,
            d.provides@ == "server"@,
            d.client_identifier == db_server.id,
            d.access_token == Some(db_server.access_token),
            d.connections.len() == 1,
            d.connections[0].uri == db_server.connection_uri,
            !d.connections[0].local,
    {
        let mut connections: Vec<Connection> = Vec::new();
        connections.push(Connection { uri: db_server.connection_uri, local: false });
        Device {
            name: db_server.name,
            product: owned(""),
            provides: owned("server"),
            client_identifier: db_server.id,
            access_token: Some(db_server.access_token),
            connections,
        }
    }
}

/// What `chrono::NaiveDate::parse_from_str(text, "%Y-%m-%d")` returns, as
/// (year, month, day).
pub uninterp spec fn ymd_date_parse(text: Seq<char>) -> Option<(i32, u32, u32)>;

/// `chrono::NaiveDate::parse_from_str` with the format `%Y-%m-%d`; the
/// contract claims only that the result is the parse of the text, whatever
/// that parse is.
#[verifier::external_body]
fn parse_ymd(text: &str) -> (r: Option<(i32, u32, u32)>)
    ensures
        r == ymd_date_parse(text@),
{
    match chrono::NaiveDate::parse_from_str(text, "%Y-%m-%d") {
        Ok(d) => Some((chrono::Datelike::year(&d), chrono::Datelike::month(&d), chrono::Datelike::day(&d))),
        Err(_) => None,
    }
}

/// The date an optional text gives: nothing for no text or a blank text,
/// else the `%Y-%m-%d` parse of the trimmed text.
pub open spec fn optional_date_spec(text: Option<Seq<char>>) -> Option<CalendarDate> {
    match text {
        None => None,
        Some(s) => if trim(s).len() == 0 {
            None
        } else {
            match ymd_date_parse(trim(s)) {
                Some((y, m, d)) => Some(CalendarDate { year: y, month: m, day: d }),
                None => None,
            }
        },
    }
}

/// Reads an optional `originallyAvailableAt` value: blank or unparsable text
/// gives no date.
pub fn parse_optional_date(text: Option<String>) -> (r: Option<CalendarDate>)
    ensures
        r == optional_date_spec(
            match text {
                Some(s) => Some(s@),
                None => None,
            },
        ),
{
    match text {
        None => None,
        Some(s) => {
            let chars = chars_of(s.as_str());
            let (lo, hi) = trim_bounds(&chars);
            if lo == hi {
                return None;
            }
            let trimmed = string_of_range(&chars, lo, hi);
            match parse_ymd(trimmed.as_str()) {
                Some((year, month, day)) => Some(CalendarDate { year, month, day }),
                None => None,
            }
        },
    }
}

} // verus!
