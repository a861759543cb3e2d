//! What the catalog database reads and writes: the rows it stores for Plex
//! items, and how query results become API answers.
use vstd::prelude::*;

use crate::models::{
    CalendarDate, Device, EpisodeDetails, Item, Media, MediaDetails, MediaVersion, Part,
    SeasonSummary, ServerAvailability,
};
use crate::seqs::{dedup, first_index, lemma_dedup_contains, lemma_dedup_no_duplicates, lemma_dedup_push, lemma_first_index};
use crate::versions::{add_version_row, versions_of, versions_view, VersionRow};
use crate::text::{
    chars_of, clone_opt_string, is_white_space_char, join, join_strings, opt_view, owned,
    split_whitespace, starts_with, starts_with_exec, string_of, string_of_range, words_scan,
};

verus! {

/// An item together with the library and server it belongs to.
#[derive(Clone, Debug, PartialEq, Eq)]
pub struct ItemWithContext {
    pub item: Item,
    pub library_id: String,
    pub server_id: String,
}

// ---------------------------------------------------------------------------
// Stored guids
// ---------------------------------------------------------------------------

/// The guid an item is stored under: a `plex://` guid without its scheme,
/// else `local-{server_id}-{rating_key}`.
pub open spec fn stored_guid(
    guid: Option<Seq<char>>,
    server_id: Seq<char>,
    rating_key: Seq<char>,
) -> Seq<char> {
    match guid {
        Some(g) => if starts_with(g, "plex://"@) {
            g.skip(7)
        } else {
            "local-"@ + server_id + "-"@ + rating_key
        },
        None => "local-"@ + server_id + "-"@ + rating_key,
    }
}

/// The guid an item is stored under.
pub fn normalize_item_guid(guid: &Option<String>, server_id: &str, rating_key: &str) -> (r: String)
    ensures
        r@ == stored_guid(opt_view(*guid), server_id@, rating_key@),
{
    proof {
        reveal_strlit("plex://");
    }
    if let Some(g) = guid {
        let gc = chars_of(g.as_str());
        let prefix = chars_of("plex://");
        if starts_with_exec(&gc, &prefix) {
            return string_of_range(&gc, 7, gc.len());
        }
    }
    let mut r = owned("local-");
    r.append(server_id);
    r.append("-");
    r.append(rating_key);
    r
}

// ---------------------------------------------------------------------------
// Batch upsert of items
// ---------------------------------------------------------------------------

/// The column arrays that a batch of items is written with, one entry per
/// item, in order.
pub struct ItemBatchColumns {
    pub ids: Vec<String>,
    pub library_ids: Vec<String>,
    pub server_ids: Vec<String>,
    pub parent_ids: Vec<Option<String>>,
    pub titles: Vec<String>,
    pub summaries: Vec<Option<String>>,
    pub item_types: Vec<String>,
    pub years: Vec<i16>,
    pub thumb_paths: Vec<Option<String>>,
    pub art_paths: Vec<Option<String>>,
    pub guids: Vec<Option<String>>,
    pub indices: Vec<Option<i32>>,
    pub leaf_counts: Vec<Option<i32>>,
    pub updated_ats: Vec<Option<i64>>,
    pub content_ratings: Vec<Option<String>>,
    pub durations: Vec<Option<i64>>,
    pub originally_available_at: Vec<Option<CalendarDate>>,
    pub studios: Vec<Option<String>>,
    pub extra_types: Vec<Option<String>>,
}

/// The summary as stored: an empty summary is stored as none.
pub open spec fn stored_summary(summary: Option<Seq<char>>) -> Option<Seq<char>> {
    match summary {
        Some(s) => if s.len() == 0 {
            None
        } else {
            Some(s)
        },
        None => None,
    }
}

/// Entry `k` of each column holds what item `k` is stored with.
pub open spec fn columns_hold(c: ItemBatchColumns, items: Seq<ItemWithContext>, n: int) -> bool {
    &&& c.ids@.len() == n
    &&& c.library_ids@.len() == n
    &&& c.server_ids@.len() == n
    &&& c.parent_ids@.len() == n
    &&& c.titles@.len() == n
    &&& c.summaries@.len() == n
    &&& c.item_types@.len() == n
    &&& c.years@.len() == n
    &&& c.thumb_paths@.len() == n
    &&& c.art_paths@.len() == n
    &&& c.guids@.len() == n
    &&& c.indices@.len() == n
    &&& c.leaf_counts@.len() == n
    &&& c.updated_ats@.len() == n
    &&& c.content_ratings@.len() == n
    &&& c.durations@.len() == n
    &&& c.originally_available_at@.len() == n
    &&& c.studios@.len() == n
    &&& c.extra_types@.len() == n
    &&& forall|k: int|
        0 <= k < n ==> {
            let it = #[trigger] items[k];
            &&& c.ids@[k] == it.item.rating_key
            &&& c.library_ids@[k] == it.library_id
            &&& c.server_ids@[k] == it.server_id
            &&& c.parent_ids@[k] == it.item.parent_id
            &&& c.titles@[k] == it.item.title
            &&& opt_view(c.summaries@[k]) == stored_summary(opt_view(it.item.summary))
            &&& c.item_types@[k] == it.item.item_type
            &&& c.years@[k] == it.item.year as i16
            &&& c.thumb_paths@[k] == it.item.thumb
            &&& c.art_paths@[k] == it.item.art
            &&& opt_view(c.guids@[k]) == Some(
                stored_guid(opt_view(it.item.guid), it.server_id@, it.item.rating_key@),
            )
            &&& c.indices@[k] == it.item.index
            &&& c.leaf_counts@[k] == it.item.leaf_count
            &&& c.updated_ats@[k] == it.item.updated_at
            &&& c.content_ratings@[k] == it.item.content_rating
            &&& c.durations@[k] == it.item.duration
            &&& c.originally_available_at@[k] == it.item.originally_available_at
            &&& c.studios@[k] == it.item.studio
            &&& c.extra_types@[k] == it.item.extra_type
        }
}

/// The column arrays for a batch of items: each item's fields, the summary
/// with an empty text as none, the year as a smallint (wrapping), and the
/// stored guid.
pub fn item_batch_columns(items: &[ItemWithContext]) -> (c: ItemBatchColumns)
    ensures
        columns_hold(c, items@, items@.len() as int),
{
    let mut c = ItemBatchColumns {
        ids: Vec::new(),
        library_ids: Vec::new(),
        server_ids: Vec::new(),
        parent_ids: Vec::new(),
        titles: Vec::new(),
        summaries: Vec::new(),
        item_types: Vec::new(),
        years: Vec::new(),
        thumb_paths: Vec::new(),
        art_paths: Vec::new(),
        guids: Vec::new(),
        indices: Vec::new(),
        leaf_counts: Vec::new(),
        updated_ats: Vec::new(),
        content_ratings: Vec::new(),
        durations: Vec::new(),
        originally_available_at: Vec::new(),
        studios: Vec::new(),
        extra_types: Vec::new(),
    };
    let mut i: usize = 0;
    while i < items.len()
        invariant
            i <= items@.len(),
            columns_hold(c, items@, i as int),
        decreases items.len() - i,
    {
        let it = &items[i];
        c.ids.push(it.item.rating_key.clone());
        c.library_ids.push(it.library_id.clone());
        c.server_ids.push(it.server_id.clone());
        c.parent_ids.push(clone_opt_string(&it.item.parent_id));
        c.titles.push(it.item.title.clone());
        let summary = match &it.item.summary {
            Some(s) => if s.as_str().is_empty() {
                None
            } else {
                Some(s.clone())
            },
            None => None,
        };
        c.summaries.push(summary);
        c.item_types.push(it.item.item_type.clone());
        c.years.push(it.item.year as i16);
        c.thumb_paths.push(clone_opt_string(&it.item.thumb));
        c.art_paths.push(clone_opt_string(&it.item.art));
        c.guids.push(
            Some(normalize_item_guid(&it.item.guid, it.server_id.as_str(), it.item.rating_key.as_str())),
        );
        c.indices.push(it.item.index);
        c.leaf_counts.push(it.item.leaf_count);
        c.updated_ats.push(it.item.updated_at);
        c.content_ratings.push(clone_opt_string(&it.item.content_rating));
        c.durations.push(it.item.duration);
        c.originally_available_at.push(it.item.originally_available_at);
        c.studios.push(clone_opt_string(&it.item.studio));
        c.extra_types.push(clone_opt_string(&it.item.extra_type));
        i = i + 1;
    }
    c
}

/// A media part row of a batch: the part's id, its item, its server and
/// the resolution it is stored with.
#[derive(Clone, Debug, PartialEq, Eq)]
pub struct PartRow {
    pub id: i64,
    pub item_id: String,
    pub server_id: String,
    pub video_resolution: String,
}

/// A part row as plain values.
pub open spec fn part_row_view(r: PartRow) -> (i64, Seq<char>, Seq<char>, Seq<char>) {
    (r.id, r.item_id@, r.server_id@, r.video_resolution@)
}

/// Part rows as plain values.
pub open spec fn part_rows_view(v: Seq<PartRow>) -> Seq<(i64, Seq<char>, Seq<char>, Seq<char>)> {
    v.map_values(|r: PartRow| part_row_view(r))
}

/// The resolution the parts of a media are stored with.
pub open spec fn stored_resolution(m: Media) -> Seq<char> {
    match m.video_resolution {
        Some(v) => v@,
        None => "Unknown"@,
    }
}

/// The rows of the parts of one media of an item.
pub open spec fn media_part_rows(parts: Seq<Part>, item_id: Seq<char>, server: Seq<char>, res: Seq<
    char,
>) -> Seq<(i64, Seq<char>, Seq<char>, Seq<char>)> {
    parts.map_values(|p: Part| (p.id, item_id, server, res))
}

/// The rows of the parts of an item's media, media by media.
pub open spec fn item_part_rows(media: Seq<Media>, item_id: Seq<char>, server: Seq<char>) -> Seq<
    (i64, Seq<char>, Seq<char>, Seq<char>),
>
    decreases media.len(),
{
    if media.len() == 0 {
        seq![]
    } else {
        item_part_rows(media.drop_last(), item_id, server) + media_part_rows(
            media.last().parts@,
            item_id,
            server,
            stored_resolution(media.last()),
        )
    }
}

/// The part rows of a batch of items, item by item.
pub open spec fn batch_part_rows(items: Seq<ItemWithContext>) -> Seq<
    (i64, Seq<char>, Seq<char>, Seq<char>),
>
    decreases items.len(),
{
    if items.len() == 0 {
        seq![]
    } else {
        let it = items.last();
        batch_part_rows(items.drop_last()) + item_part_rows(
            it.item.media@,
            it.item.rating_key@,
            it.server_id@,
        )
    }
}

/// Appends the rows of the parts of one media.
fn push_media_parts(out: &mut Vec<PartRow>, media: &Media, item_id: &String, server_id: &String)
    ensures
        part_rows_view(final(out)@) == part_rows_view(old(out)@) + media_part_rows(
            media.parts@,
            item_id@,
            server_id@,
            stored_resolution(*media),
        ),
{
    let res = media_part_resolution(media);
    let ghost start = part_rows_view(out@);
    let mut k: usize = 0;
    while k < media.parts.len()
        invariant
            k <= media.parts@.len(),
            res@ == stored_resolution(*media),
            part_rows_view(out@) == start + media_part_rows(
                media.parts@.take(k as int),
                item_id@,
                server_id@,
                res@,
            ),
        decreases media.parts.len() - k,
    {
        let ghost before = part_rows_view(out@);
        out.push(
            PartRow {
                id: media.parts[k].id,
                item_id: item_id.clone(),
                server_id: server_id.clone(),
                video_resolution: res.clone(),
            },
        );
        assert(part_rows_view(out@) =~= before.push(
            (media.parts@[k as int].id, item_id@, server_id@, res@),
        ));
        assert(media_part_rows(media.parts@.take(k + 1), item_id@, server_id@, res@)
            =~= media_part_rows(media.parts@.take(k as int), item_id@, server_id@, res@).push(
            (media.parts@[k as int].id, item_id@, server_id@, res@),
        ));
        k = k + 1;
    }
    assert(media.parts@.take(media.parts@.len() as int) =~= media.parts@);
}

/// The media part rows of a batch of items: for each item in order, for
/// each of its media, each part with the item's id, its server and the
/// media's resolution (`Unknown` where Plex gave none).
pub fn item_batch_parts(items: &[ItemWithContext]) -> (r: Vec<PartRow>)
    ensures
        part_rows_view(r@) == batch_part_rows(items@),
{
    let mut out: Vec<PartRow> = Vec::new();
    let mut i: usize = 0;
    assert(part_rows_view(out@) =~= batch_part_rows(items@.take(0)));
    while i < items.len()
        invariant
            i <= items@.len(),
            part_rows_view(out@) == batch_part_rows(items@.take(i as int)),
        decreases items.len() - i,
    {
        let it = &items[i];
        let ghost mid = part_rows_view(out@);
        let mut m: usize = 0;
        assert(item_part_rows(it.item.media@.take(0), it.item.rating_key@, it.server_id@)
            =~= Seq::<(i64, Seq<char>, Seq<char>, Seq<char>)>::empty());
        assert(mid + Seq::<(i64, Seq<char>, Seq<char>, Seq<char>)>::empty() =~= mid);
        while m < it.item.media.len()
            invariant
                m <= it.item.media@.len(),
                part_rows_view(out@) == mid + item_part_rows(
                    it.item.media@.take(m as int),
                    it.item.rating_key@,
                    it.server_id@,
                ),
            decreases it.item.media.len() - m,
        {
            push_media_parts(&mut out, &it.item.media[m], &it.item.rating_key, &it.server_id);
            let ghost media = it.item.media@;
            assert(media.take(m + 1).drop_last() =~= media.take(m as int));
            assert(media.take(m + 1).last() == media[m as int]);
            m = m + 1;
        }
        assert(it.item.media@.take(it.item.media@.len() as int) =~= it.item.media@);
        assert(items@.take(i + 1).drop_last() =~= items@.take(i as int));
        assert(items@.take(i + 1).last() == items@[i as int]);
        i = i + 1;
    }
    assert(items@.take(items@.len() as int) =~= items@);
    out
}

/// An item synced with a `plex://` guid is stored under the guid that a
/// request for that same guid is looked up by.
pub proof fn law_plex_guid_stored_as_looked_up(
    guid: Seq<char>,
    server_id: Seq<char>,
    rating_key: Seq<char>,
)
    requires
        starts_with(guid, "plex://"@),
    ensures
        stored_guid(Some(guid), server_id, rating_key) == crate::requests::lookup_guid(guid),
{
    reveal_strlit("plex://");
}

// ---------------------------------------------------------------------------
// Library items read back
// ---------------------------------------------------------------------------

/// One row of the library listing query.
#[derive(Clone, Debug, PartialEq, Eq)]
pub struct LibraryItemRow {
    pub id: String,
    pub guid: Option<String>,
    pub parent_id: Option<String>,
    pub title: String,
    pub summary: Option<String>,
    pub item_type: String,
    /// The `year` column; none when it cannot be read as a smallint.
    pub year: Option<i16>,
    pub thumb_path: Option<String>,
    pub art_path: Option<String>,
    pub index: Option<i32>,
    pub leaf_count: Option<i32>,
    pub updated_at: Option<i64>,
    pub content_rating: Option<String>,
    pub duration: Option<i64>,
    pub originally_available_at: Option<CalendarDate>,
    pub studio: Option<String>,
    pub extra_type: Option<String>,
    /// The highest-ranked resolution among the item's media parts.
    pub best_resolution: Option<String>,
}

/// The item a library row stands for: keyed by its id under
/// `/library/metadata/`, with one media entry for its best resolution, if
/// any, and the year read as unsigned (0 when unreadable).
pub fn library_item_from_row(row: LibraryItemRow) -> (item: Item)
    ensures
        item.guid == row.guid,
        item.rating_key == row.id,
        item.key@ == "/library/metadata/"@ + row.id@,
        item.parent_id == row.parent_id,
        item.title == row.title,
        item.summary == row.summary,
        item.item_type == row.item_type,
        item.year == (match row.year {
            Some(y) => y,
            None => 0i16,
        }) as u16,
        row.best_resolution is None ==> item.media@.len() == 0,
        row.best_resolution is Some ==> item.media@.len() == 1
            && item.media@[0].video_resolution == row.best_resolution
            && item.media@[0].parts@.len() == 0,
        item.thumb == row.thumb_path,
        item.art == row.art_path,
        item.index == row.index,
        item.leaf_count == row.leaf_count,
        item.updated_at == row.updated_at,
        item.content_rating == row.content_rating,
        item.duration == row.duration,
        item.originally_available_at == row.originally_available_at,
        item.studio == row.studio,
        item.extra_type == row.extra_type,
{
    let mut key = owned("/library/metadata/");
    key.append(row.id.as_str());
    let mut media: Vec<Media> = Vec::new();
    if row.best_resolution.is_some() {
        media.push(Media { video_resolution: row.best_resolution, parts: Vec::new() });
    }
    let year: i16 = match row.year {
        Some(y) => y,
        None => 0,
    };
    Item {
        guid: row.guid,
        rating_key: row.id,
        key,
        parent_id: row.parent_id,
        title: row.title,
        summary: row.summary,
        item_type: row.item_type,
        year: year as u16,
        media,
        thumb: row.thumb_path,
        art: row.art_path,
        index: row.index,
        leaf_count: row.leaf_count,
        updated_at: row.updated_at,
        content_rating: row.content_rating,
        duration: row.duration,
        originally_available_at: row.originally_available_at,
        studio: row.studio,
        extra_type: row.extra_type,
    }
}

// ---------------------------------------------------------------------------
// Servers, media parts
// ---------------------------------------------------------------------------

/// Position of the device's first remote connection, if it has one.
pub fn remote_connection_index(device: &Device) -> (r: Option<usize>)
    ensures
        match r {
            Some(i) => i < device.connections@.len() && !device.connections@[i as int].local
                && forall|j: int| 0 <= j < i ==> device.connections@[j].local,
            None => forall|j: int|
                0 <= j < device.connections@.len() ==> device.connections@[j].local,
        },
{
    let mut i: usize = 0;
    while i < device.connections.len()
        invariant
            i <= device.connections@.len(),
            forall|j: int| 0 <= j < i ==> device.connections@[j].local,
        decreases device.connections.len() - i,
    {
        if !device.connections[i].local {
            return Some(i);
        }
        i = i + 1;
    }
    None
}

/// The access token and connection URI a server is stored with: its token
/// (empty when it has none) and the URI of its first remote connection
/// (empty when it has none).
pub fn server_upsert_fields(server: &Device) -> (r: (String, String))
    ensures
        r.0@ == match server.access_token {
            Some(t) => t@,
            None => Seq::<char>::empty(),
        },
        match remote_connection_index_spec(*server) {
            Some(i) => r.1 == server.connections@[i].uri,
            None => r.1@ == Seq::<char>::empty(),
        },
{
    let access_token = match &server.access_token {
        Some(t) => t.clone(),
        None => String::new(),
    };
    let connection_uri = match remote_connection_index(server) {
        Some(i) => server.connections[i].uri.clone(),
        None => String::new(),
    };
    proof {
        lemma_remote_connection_index_unique(*server);
    }
    (access_token, connection_uri)
}

/// Position of the first remote connection of a device.
pub open spec fn remote_connection_index_spec(d: Device) -> Option<int> {
    if exists|i: int| 0 <= i < d.connections@.len() && !d.connections@[i].local {
        Some(
            choose|i: int|
                0 <= i < d.connections@.len() && !d.connections@[i].local && forall|j: int|
                    0 <= j < i ==> #[trigger] d.connections@[j].local,
        )
    } else {
        None
    }
}

/// The first remote connection is the one position that is remote with all
/// earlier ones local.
pub proof fn lemma_remote_connection_index_unique(d: Device)
    ensures
        match remote_connection_index_spec(d) {
            Some(i) => 0 <= i < d.connections@.len() && !d.connections@[i].local && forall|j: int|
                0 <= j < i ==> d.connections@[j].local,
            None => forall|j: int| 0 <= j < d.connections@.len() ==> d.connections@[j].local,
        },
        forall|i: int|
            0 <= i < d.connections@.len() && !d.connections@[i].local && (forall|j: int|
                0 <= j < i ==> d.connections@[j].local) ==> remote_connection_index_spec(d)
                == Some(i),
{
    let c = d.connections@;
    if exists|i: int| 0 <= i < c.len() && !c[i].local {
        let w = choose|i: int| 0 <= i < c.len() && !c[i].local;
        lemma_first_remote_exists(c, w);
    }
}

proof fn lemma_first_remote_exists(c: Seq<crate::models::Connection>, w: int)
    requires
        0 <= w < c.len(),
        !c[w].local,
    ensures
        exists|i: int|
            0 <= i < c.len() && !c[i].local && forall|j: int| 0 <= j < i ==> #[trigger] c[j].local,
    decreases w,
{
    if exists|j: int| 0 <= j < w && !c[j].local {
        let j = choose|j: int| 0 <= j < w && !c[j].local;
        lemma_first_remote_exists(c, j);
    } else {
        assert(forall|j: int| 0 <= j < w ==> #[trigger] c[j].local);
    }
}

/// The resolution a media part is stored with: the media's resolution, or
/// `Unknown` when Plex gave none.
pub fn media_part_resolution(media: &Media) -> (r: String)
    ensures
        r@ == match media.video_resolution {
            Some(v) => v@,
            None => "Unknown"@,
        },
{
    match &media.video_resolution {
        Some(v) => v.clone(),
        None => owned("Unknown"),
    }
}

// ---------------------------------------------------------------------------
// Full-text search
// ---------------------------------------------------------------------------

/// The `to_tsquery` text for a search: the words of the query joined by
/// ` & `, with the last one matched as a prefix (`:*`).
pub open spec fn fts_query_spec(query: Seq<char>) -> Seq<char> {
    join(split_whitespace(query), " & "@) + ":*"@
}

/// Builds the full-text query for a search text.
pub fn fts_query(query: &str) -> (r: String)
    ensures
        r@ == fts_query_spec(query@),
{
    let chars = chars_of(query);
    let mut done: Vec<String> = Vec::new();
    let mut cur: Vec<char> = Vec::new();
    let mut i: usize = 0;
    assert(chars@.take(0) =~= Seq::<char>::empty());
    while i < chars.len()
        invariant
            i <= chars@.len(),
            done@.map_values(|p: String| p@) == words_scan(chars@.take(i as int)).0,
            cur@ == words_scan(chars@.take(i as int)).1,
        decreases chars.len() - i,
    {
        let c = chars[i];
        assert(chars@.take(i + 1).drop_last() =~= chars@.take(i as int));
        if is_white_space_char(c) {
            if cur.len() > 0 {
                let w = string_of(&cur);
                done.push(w);
                cur = Vec::new();
                assert(done@.map_values(|p: String| p@) =~= words_scan(chars@.take(i as int)).0.push(
                    w@,
                ));
            }
        } else {
            cur.push(c);
        }
        i = i + 1;
    }
    assert(chars@.take(chars@.len() as int) =~= chars@);
    if cur.len() > 0 {
        let w = string_of(&cur);
        let ghost before = done@.map_values(|p: String| p@);
        done.push(w);
        assert(done@.map_values(|p: String| p@) =~= before.push(w@));
    }
    let mut r = join_strings(&done, " & ");
    r.append(":*");
    r
}

// ---------------------------------------------------------------------------
// Seasons of a show
// ---------------------------------------------------------------------------

/// The seasons listed for a show: its seasons when it has any, else the
/// show itself as the one season when its episodes sit directly under it.
/// `direct_show` is that stand-in (none when the show has no direct
/// episodes or cannot be read); it is only consulted when `seasons` is empty.
pub fn resolve_show_seasons(
    seasons: Vec<SeasonSummary>,
    direct_show: Option<SeasonSummary>,
) -> (r: Vec<SeasonSummary>)
    ensures
        seasons@.len() > 0 ==> r@ == seasons@,
        seasons@.len() == 0 ==> r@ == match direct_show {
            Some(s) => seq![s],
            None => Seq::<SeasonSummary>::empty(),
        },
{
    if seasons.len() == 0 {
        if let Some(show) = direct_show {
            let mut v: Vec<SeasonSummary> = Vec::new();
            v.push(show);
            assert(v@ =~= seq![show]);
            return v;
        }
    }
    seasons
}

// ---------------------------------------------------------------------------
// Media details by guid
// ---------------------------------------------------------------------------

/// One catalog item carrying the guid, with its server.
#[derive(Clone, Debug, PartialEq, Eq)]
pub struct ItemByGuid {
    pub id: String,
    pub server_id: String,
    pub server_name: String,
    pub access_token: String,
    pub guid: Option<String>,
    pub title: String,
    pub summary: Option<String>,
    pub year: Option<i16>,
    pub originally_available_at: Option<CalendarDate>,
    pub art_path: Option<String>,
    pub thumb_path: Option<String>,
    pub item_type: String,
    pub content_rating: Option<String>,
    pub duration: Option<i64>,
}

/// One media part of an item on a server, with one of its subtitle
/// languages (if any).
#[derive(Clone, Debug, PartialEq, Eq)]
pub struct VersionDetails {
    pub item_id: Option<String>,
    pub server_id: String,
    pub video_resolution: Option<String>,
    pub subtitle_language: Option<String>,
}

/// The (resolution, subtitle) rows that belong to the item with this id on
/// this server.
pub open spec fn item_version_rows(rows: Seq<VersionDetails>, id: Seq<char>, server: Seq<char>) -> Seq<
    VersionRow,
>
    decreases rows.len(),
{
    if rows.len() == 0 {
        Seq::empty()
    } else {
        let rest = item_version_rows(rows.drop_last(), id, server);
        let r = rows.last();
        if opt_view(r.item_id) == Some(id) && r.server_id@ == server {
            rest.push((opt_view(r.video_resolution), opt_view(r.subtitle_language)))
        } else {
            rest
        }
    }
}

/// The versions of one item on one server.
pub fn versions_for_item(id: &String, server_id: &String, rows: &Vec<VersionDetails>) -> (v: Vec<
    MediaVersion,
>)
    ensures
        versions_view(v@) == versions_of(item_version_rows(rows@, id@, server_id@)),
{
    let mut v: Vec<MediaVersion> = Vec::new();
    let mut i: usize = 0;
    assert(rows@.take(0) =~= Seq::<VersionDetails>::empty());
    while i < rows.len()
        invariant
            i <= rows@.len(),
            versions_view(v@) == versions_of(item_version_rows(rows@.take(i as int), id@, server_id@)),
        decreases rows.len() - i,
    {
        let row = &rows[i];
        let matches = match &row.item_id {
            Some(x) => *x == *id && row.server_id == *server_id,
            None => false,
        };
        assert(rows@.take(i + 1).drop_last() =~= rows@.take(i as int));
        if matches {
            add_version_row(&mut v, &row.video_resolution, &row.subtitle_language);
            let ghost rs = item_version_rows(rows@.take(i as int), id@, server_id@);
            let ghost row_view = (opt_view(row.video_resolution), opt_view(row.subtitle_language));
            assert(item_version_rows(rows@.take(i + 1), id@, server_id@) == rs.push(row_view));
            assert(rs.push(row_view).drop_last() =~= rs);
        }
        i = i + 1;
    }
    assert(rows@.take(rows@.len() as int) =~= rows@);
    v
}

/// The details of a guid across servers: the first item's metadata and,
/// for each item in order, its server and its versions. None when no item
/// carries the guid.
pub fn media_details_from_rows(items: &Vec<ItemByGuid>, versions: &Vec<VersionDetails>) -> (r:
    Option<MediaDetails>)
    ensures
        items@.len() == 0 <==> r is None,
        r matches Some(d) ==> {
            let f = items@[0];
            &&& d.guid@ == match f.guid {
                Some(g) => g@,
                None => Seq::<char>::empty(),
            }
            &&& d.title == f.title
            &&& d.summary == f.summary
            &&& d.year == f.year
            &&& d.originally_available_at == f.originally_available_at
            &&& d.art_path == f.art_path
            &&& d.thumb_path == f.thumb_path
            &&& d.item_type == f.item_type
            &&& d.content_rating == f.content_rating
            &&& d.duration == f.duration
            &&& d.available_on@.len() == items@.len()
            &&& forall|k: int|
                0 <= k < items@.len() ==> {
                    let a = #[trigger] d.available_on@[k];
                    let it = items@[k];
                    &&& a.server_id == it.server_id
                    &&& a.server_name == it.server_name
                    &&& a.rating_key == it.id
                    &&& a.access_token == it.access_token
                    &&& versions_view(a.versions@) == versions_of(
                        item_version_rows(versions@, it.id@, it.server_id@),
                    )
                }
        },
{
    if items.len() == 0 {
        return None;
    }
    let mut available_on: Vec<ServerAvailability> = Vec::new();
    let mut k: usize = 0;
    while k < items.len()
        invariant
            k <= items@.len(),
            available_on@.len() == k,
            forall|m: int|
                0 <= m < k ==> {
                    let a = #[trigger] available_on@[m];
                    let it = items@[m];
                    &&& a.server_id == it.server_id
                    &&& a.server_name == it.server_name
                    &&& a.rating_key == it.id
                    &&& a.access_token == it.access_token
                    &&& versions_view(a.versions@) == versions_of(
                        item_version_rows(versions@, it.id@, it.server_id@),
                    )
                },
        decreases items.len() - k,
    {
        let it = &items[k];
        available_on.push(
            ServerAvailability {
                server_id: it.server_id.clone(),
                server_name: it.server_name.clone(),
                rating_key: it.id.clone(),
                access_token: it.access_token.clone(),
                versions: versions_for_item(&it.id, &it.server_id, versions),
            },
        );
        k = k + 1;
    }
    let first = &items[0];
    let guid = match &first.guid {
        Some(g) => g.clone(),
        None => String::new(),
    };
    Some(
        MediaDetails {
            guid,
            title: first.title.clone(),
            summary: clone_opt_string(&first.summary),
            year: first.year,
            originally_available_at: first.originally_available_at,
            art_path: clone_opt_string(&first.art_path),
            thumb_path: clone_opt_string(&first.thumb_path),
            item_type: first.item_type.clone(),
            content_rating: clone_opt_string(&first.content_rating),
            duration: first.duration,
            available_on,
        },
    )
}

// ---------------------------------------------------------------------------
// Episodes of a season
// ---------------------------------------------------------------------------

/// One episode row, joined with one of its media parts and one of that
/// part's subtitle languages (each may be missing).
#[derive(Clone, Debug, PartialEq, Eq)]
pub struct EpisodeWithVersion {
    pub id: String,
    pub title: String,
    pub summary: Option<String>,
    pub thumb_path: Option<String>,
    pub index: Option<i32>,
    pub content_rating: Option<String>,
    pub duration: Option<i64>,
    pub video_resolution: Option<String>,
    pub subtitle_language: Option<String>,
}

/// The episode ids of the rows, in order.
pub open spec fn episode_row_ids(rows: Seq<EpisodeWithVersion>) -> Seq<Seq<char>> {
    rows.map_values(|r: EpisodeWithVersion| r.id@)
}

/// The (resolution, subtitle) rows of the episode with this id.
pub open spec fn episode_version_rows(rows: Seq<EpisodeWithVersion>, id: Seq<char>) -> Seq<
    VersionRow,
>
    decreases rows.len(),
{
    if rows.len() == 0 {
        Seq::empty()
    } else {
        let rest = episode_version_rows(rows.drop_last(), id);
        let r = rows.last();
        if r.id@ == id {
            rest.push((opt_view(r.video_resolution), opt_view(r.subtitle_language)))
        } else {
            rest
        }
    }
}

/// The key episodes are ordered by: their index, 0 when they have none.
pub open spec fn episode_key(e: EpisodeDetails) -> int {
    match e.index {
        Some(i) => i as int,
        None => 0,
    }
}

/// An episode is the one the rows give for its id: the metadata of the
/// first row with that id, and the versions of all rows with that id.
pub open spec fn episode_from_rows(e: EpisodeDetails, rows: Seq<EpisodeWithVersion>) -> bool {
    let f = first_index(episode_row_ids(rows), e.id@);
    &&& 0 <= f < rows.len()
    &&& e.id == rows[f].id
    &&& e.title == rows[f].title
    &&& e.summary == rows[f].summary
    &&& e.thumb_path == rows[f].thumb_path
    &&& e.index == rows[f].index
    &&& e.content_rating == rows[f].content_rating
    &&& e.duration == rows[f].duration
    &&& versions_view(e.versions@) == versions_of(episode_version_rows(rows, e.id@))
}

/// The ids of a list of episodes.
pub open spec fn episode_ids(eps: Seq<EpisodeDetails>) -> Seq<Seq<char>> {
    eps.map_values(|e: EpisodeDetails| e.id@)
}

proof fn lemma_episode_prefix_step(rows: Seq<EpisodeWithVersion>, i: int, e: EpisodeDetails)
    requires
        0 <= i < rows.len(),
        episode_from_rows(e, rows.take(i)),
        e.id@ != rows[i].id@,
    ensures
        episode_from_rows(e, rows.take(i + 1)),
{
    let p = rows.take(i);
    let q = rows.take(i + 1);
    assert(q.drop_last() =~= p);
    assert(episode_row_ids(q) =~= episode_row_ids(p).push(rows[i].id@));
    assert(episode_row_ids(q).drop_last() =~= episode_row_ids(p));
    assert(episode_version_rows(q, e.id@) == episode_version_rows(p, e.id@));
    let f = first_index(episode_row_ids(p), e.id@);
    assert(first_index(episode_row_ids(q), e.id@) == f);
    assert(q[f] == p[f]);
}

/// Groups episode rows into episodes: one per episode id, with the metadata
/// of its first row and one version per resolution with the subtitle
/// languages found for it, ordered by index (missing index as 0).
pub fn group_episode_rows(rows: &Vec<EpisodeWithVersion>) -> (out: Vec<EpisodeDetails>)
    ensures
        forall|i: int, j: int|
            0 <= i < j < out@.len() ==> episode_key(out@[i]) <= episode_key(out@[j]),
        episode_ids(out@).no_duplicates(),
        forall|x: Seq<char>| episode_ids(out@).contains(x) <==> episode_row_ids(rows@).contains(x),
        forall|k: int| 0 <= k < out@.len() ==> episode_from_rows(#[trigger] out@[k], rows@),
{
    // Group in order of first appearance.
    let mut eps: Vec<EpisodeDetails> = Vec::new();
    let mut i: usize = 0;
    assert(rows@.take(0) =~= Seq::<EpisodeWithVersion>::empty());
    assert(episode_row_ids(rows@.take(0)) =~= Seq::<Seq<char>>::empty());
    assert(episode_ids(eps@) =~= Seq::<Seq<char>>::empty());
    while i < rows.len()
        invariant
            i <= rows@.len(),
            episode_ids(eps@) == dedup(episode_row_ids(rows@.take(i as int))),
            forall|k: int|
                0 <= k < eps@.len() ==> episode_from_rows(#[trigger] eps@[k], rows@.take(i as int)),
        decreases rows.len() - i,
    {
        let row = &rows[i];
        let ghost p = rows@.take(i as int);
        let ghost q = rows@.take(i + 1);
        let ghost ids_p = episode_row_ids(p);
        proof {
            assert(q.drop_last() =~= p);
            assert(episode_row_ids(q) =~= ids_p.push(row.id@));
            lemma_dedup_push(ids_p, row.id@);
            lemma_dedup_contains(ids_p, row.id@);
            lemma_dedup_no_duplicates(ids_p);
        }
        let j = find_episode(&eps, &row.id);
        if j < eps.len() {
            let ghost before = eps@;
            assert(before[j as int].id@ == row.id@);
            add_version_row(&mut eps[j].versions, &row.video_resolution, &row.subtitle_language);
            proof {
                assert(episode_ids(eps@) =~= episode_ids(before));
                assert(dedup(ids_p).contains(row.id@)) by {
                    assert(episode_ids(before)[j as int] == row.id@);
                }
                assert forall|k: int| 0 <= k < eps@.len() implies episode_from_rows(
                    #[trigger] eps@[k],
                    q,
                ) by {
                    if k == j {
                        let e = eps@[k];
                        let f = first_index(ids_p, e.id@);
                        assert(episode_row_ids(q).drop_last() =~= ids_p);
                        lemma_first_index(ids_p, e.id@);
                        assert(first_index(episode_row_ids(q), e.id@) == f);
                        assert(q[f] == p[f]);
                        let vr = episode_version_rows(p, e.id@);
                        let rv = (opt_view(row.video_resolution), opt_view(row.subtitle_language));
                        assert(episode_version_rows(q, e.id@) == vr.push(rv));
                        assert(vr.push(rv).drop_last() =~= vr);
                    } else {
                        assert(eps@[k] == before[k]);
                        assert(before[k].id@ != row.id@) by {
                            assert(episode_ids(before)[k] != episode_ids(before)[j as int]);
                        }
                        lemma_episode_prefix_step(rows@, i as int, before[k]);
                    }
                }
            }
        } else {
            let mut versions: Vec<MediaVersion> = Vec::new();
            assert(versions_view(versions@) =~= Seq::empty());
            add_version_row(&mut versions, &row.video_resolution, &row.subtitle_language);
            let e = EpisodeDetails {
                id: row.id.clone(),
                title: row.title.clone(),
                summary: clone_opt_string(&row.summary),
                thumb_path: clone_opt_string(&row.thumb_path),
                index: row.index,
                content_rating: clone_opt_string(&row.content_rating),
                duration: row.duration,
                versions,
            };
            let ghost before = eps@;
            eps.push(e);
            proof {
                assert(!dedup(ids_p).contains(row.id@)) by {
                    if dedup(ids_p).contains(row.id@) {
                        let k = choose|k: int|
                            0 <= k < dedup(ids_p).len() && dedup(ids_p)[k] == row.id@;
                        assert(episode_ids(before)[k] == before[k].id@);
                    }
                }
                assert(episode_ids(eps@) =~= episode_ids(before).push(row.id@));
                lemma_first_index(ids_p, row.id@);
                assert(episode_row_ids(q).drop_last() =~= ids_p);
                assert(first_index(episode_row_ids(q), row.id@) == i);
                assert(episode_version_rows(p, row.id@).len() == 0) by {
                    lemma_no_rows_without_id(p, row.id@);
                }
                let rv = (opt_view(row.video_resolution), opt_view(row.subtitle_language));
                assert(episode_version_rows(q, row.id@) =~= seq![rv]);
                assert(seq![rv].drop_last() =~= Seq::<VersionRow>::empty());
                assert(versions_of(Seq::<VersionRow>::empty()) =~= Seq::empty());
                assert(versions_of(seq![rv]) == crate::versions::add_row(Seq::empty(), rv));
                assert(versions_view(Seq::<MediaVersion>::empty()) =~= Seq::empty());
                assert forall|k: int| 0 <= k < eps@.len() implies episode_from_rows(
                    #[trigger] eps@[k],
                    q,
                ) by {
                    if k < before.len() {
                        assert(eps@[k] == before[k]);
                        assert(before[k].id@ != row.id@) by {
                            assert(episode_ids(before)[k] == before[k].id@);
                            assert(dedup(ids_p)[k] == before[k].id@);
                        }
                        lemma_episode_prefix_step(rows@, i as int, before[k]);
                    }
                }
            }
        }
        i = i + 1;
    }
    assert(rows@.take(rows@.len() as int) =~= rows@);
    proof {
        lemma_dedup_no_duplicates(episode_row_ids(rows@));
        assert forall|x: Seq<char>| episode_ids(eps@).contains(x) <==> episode_row_ids(
            rows@,
        ).contains(x) by {
            lemma_dedup_contains(episode_row_ids(rows@), x);
        }
    }
    // Order by key: repeatedly move a smallest remaining episode to the end
    // of the output.
    let mut out: Vec<EpisodeDetails> = Vec::new();
    let ghost all_ids = episode_row_ids(rows@);
    assert(episode_ids(out@) + episode_ids(eps@) =~= episode_ids(eps@));
    while eps.len() > 0
        invariant
            (episode_ids(out@) + episode_ids(eps@)).no_duplicates(),
            forall|x: Seq<char>|
                (episode_ids(out@) + episode_ids(eps@)).contains(x) <==> all_ids.contains(x),
            all_ids == episode_row_ids(rows@),
            forall|k: int| 0 <= k < out@.len() ==> episode_from_rows(#[trigger] out@[k], rows@),
            forall|k: int| 0 <= k < eps@.len() ==> episode_from_rows(#[trigger] eps@[k], rows@),
            forall|a: int, b: int|
                0 <= a < b < out@.len() ==> episode_key(out@[a]) <= episode_key(out@[b]),
            forall|a: int, b: int|
                0 <= a < out@.len() && 0 <= b < eps@.len() ==> episode_key(out@[a])
                    <= episode_key(eps@[b]),
        decreases eps.len(),
    {
        let mut m: usize = 0;
        let mut k: usize = 1;
        while k < eps.len()
            invariant
                0 < eps@.len(),
                m < eps@.len(),
                1 <= k <= eps@.len(),
                forall|b: int| 0 <= b < k ==> episode_key(eps@[m as int]) <= episode_key(eps@[b]),
            decreases eps.len() - k,
        {
            let km = match eps[m].index {
                Some(x) => x,
                None => 0,
            };
            let kk = match eps[k].index {
                Some(x) => x,
                None => 0,
            };
            if kk < km {
                m = k;
            }
            k = k + 1;
        }
        let ghost out0 = out@;
        let ghost eps0 = eps@;
        proof {
            crate::seqs::lemma_move_element(episode_ids(out0), episode_ids(eps0), m as int);
        }
        let e = eps.remove(m);
        out.push(e);
        proof {
            assert(episode_ids(out@) =~= episode_ids(out0).push(episode_ids(eps0)[m as int]));
            assert(episode_ids(eps@) =~= episode_ids(eps0).remove(m as int));
            assert forall|b: int| 0 <= b < eps@.len() implies eps@[b] == eps0[if b < m {
                b
            } else {
                b + 1
            }] by {}
            assert forall|a: int, b: int|
                0 <= a < out@.len() && 0 <= b < eps@.len() implies episode_key(out@[a])
                <= episode_key(eps@[b]) by {
                let ob = if b < m {
                    b
                } else {
                    b + 1
                };
                assert(eps@[b] == eps0[ob]);
                if a < out0.len() {
                    assert(out@[a] == out0[a]);
                }
            }
            assert forall|k2: int| 0 <= k2 < eps@.len() implies episode_from_rows(
                #[trigger] eps@[k2],
                rows@,
            ) by {
                let ob = if k2 < m {
                    k2
                } else {
                    k2 + 1
                };
                assert(eps@[k2] == eps0[ob]);
            }
            assert forall|k2: int| 0 <= k2 < out@.len() implies episode_from_rows(
                #[trigger] out@[k2],
                rows@,
            ) by {
                if k2 < out0.len() {
                    assert(out@[k2] == out0[k2]);
                }
            }
        }
    }
    assert(episode_ids(out@) + episode_ids(eps@) =~= episode_ids(out@));
    out
}

/// Position of the first episode with this id, or the number of episodes
/// when there is none.
fn find_episode(eps: &Vec<EpisodeDetails>, id: &String) -> (j: usize)
    ensures
        j <= eps@.len(),
        forall|k: int| 0 <= k < j ==> eps@[k].id@ != id@,
        j < eps@.len() ==> eps@[j as int].id@ == id@,
{
    let mut j: usize = 0;
    while j < eps.len()
        invariant
            j <= eps@.len(),
            forall|k: int| 0 <= k < j ==> eps@[k].id@ != id@,
        decreases eps.len() - j,
    {
        if eps[j].id == *id {
            return j;
        }
        j = j + 1;
    }
    j
}

proof fn lemma_no_rows_without_id(rows: Seq<EpisodeWithVersion>, id: Seq<char>)
    requires
        !episode_row_ids(rows).contains(id),
    ensures
        episode_version_rows(rows, id).len() == 0,
    decreases rows.len(),
{
    if rows.len() > 0 {
        assert(episode_row_ids(rows.drop_last()) =~= episode_row_ids(rows).drop_last());
        assert(!episode_row_ids(rows.drop_last()).contains(id)) by {
            if episode_row_ids(rows.drop_last()).contains(id) {
                let k = choose|k: int|
                    0 <= k < episode_row_ids(rows.drop_last()).len() && episode_row_ids(
                        rows.drop_last(),
                    )[k] == id;
                assert(episode_row_ids(rows)[k] == id);
            }
        }
        lemma_no_rows_without_id(rows.drop_last(), id);
        assert(episode_row_ids(rows)[rows.len() - 1] == rows.last().id@);
    }
}

} // verus!
