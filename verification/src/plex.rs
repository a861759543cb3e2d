//! The Plex side of the catalog: the addresses the client requests from a
//! Plex server or from plex.tv, and what it keeps of the answers.
use vstd::prelude::*;
use vstd::utf8::encode_utf8;
use crate::json::{
    copy_json, first_element, first_element_of, items_view, json_of, json_view, lemma_items_view,
    member, member_of, parse_json, text_member, text_member_of, Json, JsonValue,
};
use crate::models::{Device, PlexExtra};
use crate::text::{
    chars_of, opt_view, str_eq, decimal, hex_digit_upper, owned, push_decimal, trim_end_char, trim_end_char_str,
    trim_start_char, trim_start_char_str,
};

verus! {

// ---------------------------------------------------------------------------
// Percent-encoding
// ---------------------------------------------------------------------------

/// The bytes a URL carries as they are: ASCII letters and digits, `-`, `.`,
/// `_` and `~`.
pub open spec fn is_unreserved(b: u8) -> bool {
    ||| 48 <= b <= 57
    ||| 65 <= b <= 90
    ||| 97 <= b <= 122
    ||| b == 45
    ||| b == 46
    ||| b == 95
    ||| b == 126
}

/// The percent-encoding of bytes: an unreserved byte stands for itself,
/// every other byte becomes `%` and two upper-case hexadecimal digits.
pub open spec fn percent_encoded(bytes: Seq<u8>) -> Seq<char>
    decreases bytes.len(),
{
    if bytes.len() == 0 {
        seq![]
    } else {
        let b = bytes.last();
        percent_encoded(bytes.drop_last()) + if is_unreserved(b) {
            seq![b as char]
        } else {
            seq!['%', hex_digit_upper((b / 16) as nat), hex_digit_upper((b % 16) as nat)]
        }
    }
}

/// `urlencoding::encode`: percent-encodes every byte of the UTF-8 text except
/// ASCII alphanumerics and `-`, `_`, `.`, `~`, with upper-case digits, as its
/// documentation and source state.
#[verifier::external_body]
pub(crate) fn url_encode(text: &str) -> (r: String)
    ensures
        r@ == percent_encoded(encode_utf8(text@)),
{
    urlencoding::encode(text).into_owned()
}

// ---------------------------------------------------------------------------
// Addresses
// ---------------------------------------------------------------------------

/// A copy of `a` followed by `b`.
fn concat2(a: &str, b: &str) -> (r: String)
    ensures
        r@ == a@ + b@,
{
    let mut r = owned(a);
    r.append(b);
    r
}

/// The library sections of a server.
pub fn libraries_url(server_uri: &str) -> (r: String)
    ensures
        r@ == server_uri@ + "/library/sections"@,
{
    concat2(server_uri, "/library/sections")
}

/// All items of one library section.
pub fn library_items_url(server_uri: &str, library_key: &str) -> (r: String)
    ensures
        r@ == server_uri@ + "/library/sections/"@ + library_key@ + "/all"@,
{
    let mut r = concat2(server_uri, "/library/sections/");
    r.append(library_key);
    r.append("/all");
    r
}

/// The metadata of one item.
pub fn metadata_url(server_uri: &str, rating_key: &str) -> (r: String)
    ensures
        r@ == server_uri@ + "/library/metadata/"@ + rating_key@,
{
    let mut r = concat2(server_uri, "/library/metadata/");
    r.append(rating_key);
    r
}

/// Every leaf (episode) below an item.
pub fn all_leaves_url(server_uri: &str, rating_key: &str) -> (r: String)
    ensures
        r@ == server_uri@ + "/library/metadata/"@ + rating_key@ + "/allLeaves"@,
{
    let mut r = metadata_url(server_uri, rating_key);
    r.append("/allLeaves");
    r
}

/// The direct children of an item.
pub fn children_url(server_uri: &str, rating_key: &str) -> (r: String)
    ensures
        r@ == server_uri@ + "/library/metadata/"@ + rating_key@ + "/children"@,
{
    let mut r = metadata_url(server_uri, rating_key);
    r.append("/children");
    r
}

/// The metadata of an item with its extras, under the server address
/// without trailing slashes.
pub fn extras_url(server_uri: &str, rating_key: &str) -> (r: String)
    ensures
        r@ == trim_end_char(server_uri@, '/') + "/library/metadata/"@ + rating_key@
            + "?includeExtras=1"@,
{
    let mut r = trim_end_char_str(server_uri, '/');
    r.append("/library/metadata/");
    r.append(rating_key);
    r.append("?includeExtras=1");
    r
}

/// Where play queues of a server are created.
pub fn play_queue_url(server_uri: &str) -> (r: String)
    ensures
        r@ == trim_end_char(server_uri@, '/') + "/playQueues"@,
{
    let mut r = trim_end_char_str(server_uri, '/');
    r.append("/playQueues");
    r
}

/// The library address of an item inside a server, as a play queue names
/// it.
pub fn play_queue_item_uri(machine_id: &str, rating_key: &str) -> (r: String)
    ensures
        r@ == "server://"@ + machine_id@ + "/com.plexapp.plugins.library/library/metadata/"@
            + rating_key@,
{
    let mut r = concat2("server://", machine_id);
    r.append("/com.plexapp.plugins.library/library/metadata/");
    r.append(rating_key);
    r
}

/// The client identifier a play queue is created for: the caller's own, if
/// it sent one, else the catalog's.
pub fn play_queue_client_id(requested: Option<&str>, default_id: &str) -> (r: String)
    ensures
        r@ == match requested {
            Some(id) => id@,
            None => default_id@,
        },
{
    match requested {
        Some(id) => owned(id),
        None => owned(default_id),
    }
}

/// The fixed part of a search of Plex's discover catalog after the query.
pub open spec fn discover_query_tail() -> Seq<char> {
    "&limit=30&searchTypes=movies%2Ctv&searchProviders=discover%2CplexAVOD%2CplexTVOD&includeMetadata=1"@
}

/// A search of Plex's discover catalog for movies and shows.
pub fn discover_search_url(query: &str) -> (r: String)
    ensures
        r@ == "https://discover.provider.plex.tv/library/search?query="@ + percent_encoded(
            encode_utf8(query@),
        ) + discover_query_tail(),
{
    let encoded = url_encode(query);
    let mut r = concat2("https://discover.provider.plex.tv/library/search?query=", encoded.as_str());
    r.append(
        "&limit=30&searchTypes=movies%2Ctv&searchProviders=discover%2CplexAVOD%2CplexTVOD&includeMetadata=1",
    );
    r
}

/// The path of an image inside a server, with exactly one leading slash
/// added where it has none.
pub open spec fn rooted_path(path: Seq<char>) -> Seq<char> {
    if path.len() > 0 && path[0] == '/' {
        path
    } else {
        seq!['/'] + path
    }
}

/// The address of an image: resized to `width` by `height` as JPEG by the
/// server's transcoder when both are given, else the image itself.
pub open spec fn image_url_of(
    server_uri: Seq<char>,
    server_token: Seq<char>,
    image_path: Seq<char>,
    width: Option<u32>,
    height: Option<u32>,
) -> Seq<char> {
    let base = trim_end_char(server_uri, '/');
    match (width, height) {
        (Some(w), Some(h)) => base + "/photo/:/transcode?url="@ + percent_encoded(
            encode_utf8(rooted_path(image_path)),
        ) + "&width="@ + decimal(w as nat) + "&height="@ + decimal(h as nat)
            + "&format=jpeg&minSize=1&upscale=1&X-Plex-Token="@ + server_token,
        _ => base + "/"@ + trim_start_char(image_path, '/'),
    }
}

/// The address from which an image of a server is fetched.
pub fn image_url(
    server_uri: &str,
    server_token: &str,
    image_path: &str,
    width: Option<u32>,
    height: Option<u32>,
) -> (r: String)
    ensures
        r@ == image_url_of(server_uri@, server_token@, image_path@, width, height),
{
    let mut r = trim_end_char_str(server_uri, '/');
    match (width, height) {
        (Some(w), Some(h)) => {
            let path = chars_of(image_path);
            let internal = if path.len() > 0 && path[0] == '/' {
                owned(image_path)
            } else {
                concat2("/", image_path)
            };
            proof {
                reveal_strlit("/");
                assert("/"@ =~= seq!['/']);
            }
            assert(internal@ == rooted_path(image_path@));
            let encoded = url_encode(internal.as_str());
            r.append("/photo/:/transcode?url=");
            r.append(encoded.as_str());
            r.append("&width=");
            push_decimal(&mut r, w as u64);
            r.append("&height=");
            push_decimal(&mut r, h as u64);
            r.append("&format=jpeg&minSize=1&upscale=1&X-Plex-Token=");
            r.append(server_token);
        },
        _ => {
            r.append("/");
            let rest = trim_start_char_str(image_path, '/');
            r.append(rest.as_str());
        },
    }
    r
}

/// The key under which an image is cached: the server, the path and, for a
/// resized image, its size.
pub open spec fn image_cache_key_of(
    server_id: Seq<char>,
    image_path: Seq<char>,
    width: Option<u32>,
    height: Option<u32>,
) -> Seq<char> {
    match (width, height) {
        (Some(w), Some(h)) => server_id + "/"@ + image_path + "_"@ + decimal(w as nat) + "x"@
            + decimal(h as nat),
        _ => server_id + "/"@ + image_path,
    }
}

/// The key under which an image is cached.
pub fn image_cache_key(server_id: &str, image_path: &str, width: Option<u32>, height: Option<u32>) -> (r: String)
    ensures
        r@ == image_cache_key_of(server_id@, image_path@, width, height),
{
    let mut r = concat2(server_id, "/");
    r.append(image_path);
    match (width, height) {
        (Some(w), Some(h)) => {
            r.append("_");
            push_decimal(&mut r, w as u64);
            r.append("x");
            push_decimal(&mut r, h as u64);
        },
        _ => {},
    }
    r
}

// ---------------------------------------------------------------------------
// What is kept of Plex's answers
// ---------------------------------------------------------------------------

/// Whether a device of the account provides a media server.
pub open spec fn is_server(d: Device) -> bool {
    d.provides@ == "server"@
}

/// The devices of the account that provide a media server, in order.
pub fn server_devices(devices: Vec<Device>) -> (r: Vec<Device>)
    ensures
        r@ == devices@.filter(|d: Device| is_server(d)),
{
    let ghost pred = |d: Device| is_server(d);
    let ghost orig = devices@;
    let mut rest = devices;
    let mut out: Vec<Device> = Vec::new();
    while rest.len() > 0
        invariant
            pred == (|d: Device| is_server(d)),
            out@ + rest@.filter(pred) == orig.filter(pred),
        decreases rest.len(),
    {
        let ghost before = rest@;
        let d = rest.remove(0);
        proof {
            assert(before =~= seq![d] + rest@);
            rest@.lemma_filter_prepend(d, pred);
            assert(before.filter(pred) == (if pred(d) {
                seq![d]
            } else {
                Seq::empty()
            }) + rest@.filter(pred));
        }
        if str_eq(d.provides.as_str(), "server") {
            assert(pred(d));
            let ghost out_before = out@;
            out.push(d);
            assert(out@ + rest@.filter(pred) =~= out_before + (seq![d] + rest@.filter(pred)));
        } else {
            assert(!pred(d));
            assert(Seq::<Device>::empty() + rest@.filter(pred) =~= rest@.filter(pred));
        }
    }
    proof {
        reveal(Seq::filter);
        assert(rest@.filter(pred) =~= Seq::<Device>::empty());
    }
    assert(out@ =~= out@ + rest@.filter(pred));
    out
}

/// The fields of one entry of an item's extras, each `None` where the entry
/// lacks it or it is not text.
#[derive(Clone, Debug, PartialEq, Eq)]
pub struct ExtraFields {
    pub title: Option<String>,
    pub key: Option<String>,
    pub rating_key: Option<String>,
    pub thumb: Option<String>,
    pub subtype: Option<String>,
}

/// The view of an extra: rating key, title, key, type and thumbnail.
pub open spec fn extra_view(x: PlexExtra) -> (
    Option<Seq<char>>,
    Seq<char>,
    Seq<char>,
    Option<Seq<char>>,
    Option<Seq<char>>,
) {
    (opt_view(x.rating_key), x.title@, x.key@, opt_view(x.extra_type), opt_view(x.thumb))
}

/// The fields of an entry as plain values: title, key, rating key,
/// thumbnail and subtype.
pub type ExtraFieldsView = (
    Option<Seq<char>>,
    Option<Seq<char>>,
    Option<Seq<char>>,
    Option<Seq<char>>,
    Option<Seq<char>>,
);

/// An entry as plain values.
pub open spec fn extra_fields_view(entry: Option<ExtraFields>) -> Option<ExtraFieldsView> {
    match entry {
        Some(f) => Some(
            (
                opt_view(f.title),
                opt_view(f.key),
                opt_view(f.rating_key),
                opt_view(f.thumb),
                opt_view(f.subtype),
            ),
        ),
        None => None,
    }
}

/// Entries as plain values.
pub open spec fn extra_fields_views(entries: Seq<Option<ExtraFields>>) -> Seq<
    Option<ExtraFieldsView>,
> {
    entries.map_values(|e: Option<ExtraFields>| extra_fields_view(e))
}

/// The extra an entry stands for: none for an entry that is not an object
/// (`None`) or has no title; a missing key reads as empty.
pub open spec fn extra_of(entry: Option<ExtraFieldsView>) -> Option<
    (Option<Seq<char>>, Seq<char>, Seq<char>, Option<Seq<char>>, Option<Seq<char>>),
> {
    match entry {
        Some(f) => match f.0 {
            Some(t) => Some(
                (
                    f.2,
                    t,
                    match f.1 {
                        Some(k) => k,
                        None => Seq::<char>::empty(),
                    },
                    f.4,
                    f.3,
                ),
            ),
            None => None,
        },
        None => None,
    }
}

/// The extras the entries stand for, in order.
pub open spec fn extras_of(entries: Seq<Option<ExtraFieldsView>>) -> Seq<
    (Option<Seq<char>>, Seq<char>, Seq<char>, Option<Seq<char>>, Option<Seq<char>>),
>
    decreases entries.len(),
{
    if entries.len() == 0 {
        seq![]
    } else {
        match extra_of(entries[0]) {
            Some(x) => seq![x] + extras_of(entries.drop_first()),
            None => extras_of(entries.drop_first()),
        }
    }
}

/// The extras listed in the metadata of an item.
pub fn extras_from_entries(entries: Vec<Option<ExtraFields>>) -> (r: Vec<PlexExtra>)
    ensures
        r@.map_values(|x: PlexExtra| extra_view(x)) == extras_of(extra_fields_views(entries@)),
{
    let ghost orig = extra_fields_views(entries@);
    let mut rest = entries;
    let mut out: Vec<PlexExtra> = Vec::new();
    assert(out@.map_values(|x: PlexExtra| extra_view(x)) =~= seq![]);
    while rest.len() > 0
        invariant
            out@.map_values(|x: PlexExtra| extra_view(x)) + extras_of(extra_fields_views(rest@))
                == extras_of(orig),
        decreases rest.len(),
    {
        let ghost before = rest@;
        let ghost out_before = out@.map_values(|x: PlexExtra| extra_view(x));
        let entry = rest.remove(0);
        assert(before.drop_first() =~= rest@);
        assert(before[0] == entry);
        assert(extra_fields_views(before).drop_first() =~= extra_fields_views(rest@));
        assert(extra_fields_views(before)[0] == extra_fields_view(entry));
        match entry {
            Some(f) => match f.title {
                Some(title) => {
                    let key = match f.key {
                        Some(k) => k,
                        None => String::new(),
                    };
                    let x = PlexExtra {
                        rating_key: f.rating_key,
                        title,
                        key,
                        extra_type: f.subtype,
                        thumb: f.thumb,
                    };
                    out.push(x);
                    assert(out@.map_values(|x: PlexExtra| extra_view(x)) =~= out_before.push(
                        extra_view(x),
                    ));
                    assert(out@.map_values(|x: PlexExtra| extra_view(x)) + extras_of(
                        extra_fields_views(rest@),
                    ) =~= out_before + (seq![extra_view(x)] + extras_of(extra_fields_views(rest@))));
                },
                None => {},
            },
            None => {},
        }
    }
    assert(extra_fields_views(rest@) =~= Seq::<Option<ExtraFieldsView>>::empty());
    assert(out@.map_values(|x: PlexExtra| extra_view(x)) + extras_of(extra_fields_views(rest@))
        =~= out@.map_values(|x: PlexExtra| extra_view(x)));
    out
}

/// The fields of one entry of an item's extras: each text member, where the
/// entry is an object.
pub open spec fn extra_entry_in(item: JsonValue) -> Option<ExtraFieldsView> {
    if item is Obj {
        Some(
            (
                text_member(item, "title"@),
                text_member(item, "key"@),
                text_member(item, "ratingKey"@),
                text_member(item, "thumb"@),
                text_member(item, "subtype"@),
            ),
        )
    } else {
        None
    }
}

/// The entries of an item's extras in the answer of its metadata: those
/// listed under `MediaContainer.Metadata[0].Extras.Metadata`, none where
/// that is not a list.
pub open spec fn extra_entries_in(doc: JsonValue) -> Seq<Option<ExtraFieldsView>> {
    let extras = match member(doc, "MediaContainer"@) {
        Some(mc) => match member(mc, "Metadata"@) {
            Some(m) => match first_element(m) {
                Some(first) => match member(first, "Extras"@) {
                    Some(e) => member(e, "Metadata"@),
                    None => None,
                },
                None => None,
            },
            None => None,
        },
        None => None,
    };
    match extras {
        Some(JsonValue::Arr(items)) => items.map_values(|i: JsonValue| extra_entry_in(i)),
        _ => seq![],
    }
}

/// The fields of one entry of an item's extras.
fn extra_entry(item: &Json) -> (r: Option<ExtraFields>)
    ensures
        extra_fields_view(r) == extra_entry_in(json_view(*item)),
{
    match item {
        Json::Obj(_) => Some(
            ExtraFields {
                title: text_member_of(item, "title"),
                key: text_member_of(item, "key"),
                rating_key: text_member_of(item, "ratingKey"),
                thumb: text_member_of(item, "thumb"),
                subtype: text_member_of(item, "subtype"),
            },
        ),
        _ => None,
    }
}

/// The entries of an item's extras in the answer of its metadata.
pub fn extra_entries(doc: &Json) -> (r: Vec<Option<ExtraFields>>)
    ensures
        extra_fields_views(r@) == extra_entries_in(json_view(*doc)),
{
    let mut out: Vec<Option<ExtraFields>> = Vec::new();
    let extras = match member_of(doc, "MediaContainer") {
        Some(mc) => match member_of(mc, "Metadata") {
            Some(m) => match first_element_of(m) {
                Some(first) => match member_of(first, "Extras") {
                    Some(e) => member_of(e, "Metadata"),
                    None => None,
                },
                None => None,
            },
            None => None,
        },
        None => None,
    };
    match extras {
        Some(Json::Arr(items)) => {
            proof {
                lemma_items_view(items@);
            }
            let mut k: usize = 0;
            while k < items.len()
                invariant
                    k <= items@.len(),
                    extra_fields_views(out@) =~= items_view(items@).take(k as int).map_values(
                        |i: JsonValue| extra_entry_in(i),
                    ),
                    items_view(items@).len() == items@.len(),
                    forall|i: int| 0 <= i < items@.len() ==> #[trigger] items_view(items@)[i] == json_view(items@[i]),
                decreases items.len() - k,
            {
                let x = extra_entry(&items[k]);
                assert(items_view(items@)[k as int] == json_view(items@[k as int]));
                let ghost before = out@;
                out.push(x);
                assert(extra_fields_views(out@) =~= extra_fields_views(before).push(
                    extra_fields_view(x),
                ));
                assert(extra_fields_views(out@) =~= items_view(items@).take(k + 1).map_values(
                    |i: JsonValue| extra_entry_in(i),
                ));
                k = k + 1;
            }
            assert(items_view(items@).take(items@.len() as int) =~= items_view(items@));
        },
        _ => {},
    }
    out
}

/// The extras of an item, read from the text of the answer of its metadata
/// (asked with `includeExtras=1`); none where the text is not JSON.
pub fn item_extras(text: &str) -> (r: Option<Vec<PlexExtra>>)
    ensures
        match json_of(text@) {
            Some(doc) => r matches Some(v) && v@.map_values(|x: PlexExtra| extra_view(x))
                == extras_of(extra_entries_in(doc)),
            None => r is None,
        },
{
    match parse_json(text) {
        Some(doc) => Some(extras_from_entries(extra_entries(&doc))),
        None => None,
    }
}

/// A result of the discover search whose metadata carries a text guid: the
/// guid, and the metadata object.
#[derive(Debug)]
pub struct DiscoverResult {
    pub guid: String,
    pub metadata: Json,
}

/// One bucket of an answer of the discover search: its id, where it is
/// text, and `results`, where the bucket's results are a list: for each
/// result, its guid and metadata, where the result has metadata with a text
/// guid.
#[derive(Debug)]
pub struct DiscoverBucket {
    pub id: Option<String>,
    pub results: Option<Vec<Option<DiscoverResult>>>,
}

/// A result as plain values: its guid and its metadata.
pub type ResultView = (Seq<char>, JsonValue);

/// A bucket as plain values: its id and its results.
pub type BucketView = (Option<Seq<char>>, Option<Seq<Option<ResultView>>>);

/// A result as plain values.
pub open spec fn result_view(r: Option<DiscoverResult>) -> Option<ResultView> {
    match r {
        Some(x) => Some((x.guid@, json_view(x.metadata))),
        None => None,
    }
}

/// Results as plain values.
pub open spec fn results_view(rs: Seq<Option<DiscoverResult>>) -> Seq<Option<ResultView>> {
    rs.map_values(|r: Option<DiscoverResult>| result_view(r))
}

/// A bucket as plain values.
pub open spec fn bucket_view(b: DiscoverBucket) -> BucketView {
    (
        opt_view(b.id),
        match b.results {
            Some(rs) => Some(results_view(rs@)),
            None => None,
        },
    )
}

/// Buckets as plain values.
pub open spec fn buckets_view(bs: Seq<DiscoverBucket>) -> Seq<BucketView> {
    bs.map_values(|b: DiscoverBucket| bucket_view(b))
}

/// A search result found at bucket `.0`, position `.1`, with guid `.2` and
/// metadata `.3`.
pub type Candidate = (int, int, Seq<char>, JsonValue);

/// Whether a bucket holds people, whom the catalog does not list.
pub open spec fn bucket_skipped(bucket: BucketView) -> bool {
    bucket.0 == Some("people"@)
}

/// The results of bucket `b` that carry a guid, in order.
pub open spec fn result_candidates(b: int, results: Seq<Option<ResultView>>) -> Seq<Candidate>
    decreases results.len(),
{
    if results.len() == 0 {
        seq![]
    } else {
        result_candidates(b, results.drop_last()) + match results.last() {
            Some(g) => seq![(b, results.len() - 1, g.0, g.1)],
            None => seq![],
        }
    }
}

/// The results of bucket `b` that may be listed.
pub open spec fn bucket_candidates(b: int, bucket: BucketView) -> Seq<Candidate> {
    if bucket_skipped(bucket) {
        seq![]
    } else {
        match bucket.1 {
            Some(rs) => result_candidates(b, rs),
            None => seq![],
        }
    }
}

/// The results of all buckets that may be listed, bucket by bucket.
pub open spec fn discover_candidates(buckets: Seq<BucketView>) -> Seq<Candidate>
    decreases buckets.len(),
{
    if buckets.len() == 0 {
        seq![]
    } else {
        discover_candidates(buckets.drop_last()) + bucket_candidates(
            buckets.len() - 1,
            buckets.last(),
        )
    }
}

/// The guids of the candidates, in order.
pub open spec fn candidate_guids(c: Seq<Candidate>) -> Seq<Seq<char>> {
    c.map_values(|t: Candidate| t.2)
}

/// The candidates whose guid no earlier candidate has, in order.
pub open spec fn first_by_guid(c: Seq<Candidate>) -> Seq<Candidate>
    decreases c.len(),
{
    if c.len() == 0 {
        seq![]
    } else {
        let prev = first_by_guid(c.drop_last());
        if candidate_guids(c.drop_last()).contains(c.last().2) {
            prev
        } else {
            prev.push(c.last())
        }
    }
}

/// Where candidates stand in the answer.
pub open spec fn candidate_positions(c: Seq<Candidate>) -> Seq<(int, int)> {
    c.map_values(|t: Candidate| (t.0, t.1))
}

/// The metadata of candidates, in order.
pub open spec fn candidate_metadata(c: Seq<Candidate>) -> Seq<JsonValue> {
    c.map_values(|t: Candidate| t.3)
}

/// The listed results carry each guid of the answer's listable results
/// exactly once.
pub proof fn law_discover_guids_unique(c: Seq<Candidate>)
    ensures
        forall|i: int, j: int|
            0 <= i < j < first_by_guid(c).len() ==> #[trigger] first_by_guid(c)[i].2
                != #[trigger] first_by_guid(c)[j].2,
        forall|g: Seq<char>|
            #[trigger] candidate_guids(first_by_guid(c)).contains(g) <==> candidate_guids(
                c,
            ).contains(g),
    decreases c.len(),
{
    if c.len() > 0 {
        let pre = c.drop_last();
        let x = c.last();
        law_discover_guids_unique(pre);
        let kept = first_by_guid(pre);
        assert(candidate_guids(c) =~= candidate_guids(pre).push(x.2));
        if candidate_guids(pre).contains(x.2) {
            assert forall|g: Seq<char>|
                #[trigger] candidate_guids(first_by_guid(c)).contains(g) <==> candidate_guids(
                    c,
                ).contains(g) by {
                if candidate_guids(c).contains(g) {
                    let i = choose|i: int| 0 <= i < candidate_guids(c).len() && candidate_guids(c)[i] == g;
                    if i < pre.len() {
                        assert(candidate_guids(pre)[i] == g);
                    }
                }
                if candidate_guids(pre).contains(g) {
                    let i = choose|i: int| 0 <= i < candidate_guids(pre).len() && candidate_guids(pre)[i] == g;
                    assert(candidate_guids(c)[i] == g);
                }
            }
        } else {
            let now = kept.push(x);
            assert(candidate_guids(now) =~= candidate_guids(kept).push(x.2));
            assert forall|i: int, j: int|
                0 <= i < j < now.len() implies #[trigger] now[i].2 != #[trigger] now[j].2 by {
                if j == now.len() - 1 {
                    assert(candidate_guids(kept)[i] == kept[i].2);
                    assert(candidate_guids(kept).contains(kept[i].2));
                }
            }
            assert forall|g: Seq<char>|
                #[trigger] candidate_guids(now).contains(g) <==> candidate_guids(c).contains(g) by {
                if candidate_guids(c).contains(g) {
                    let i = choose|i: int| 0 <= i < candidate_guids(c).len() && candidate_guids(c)[i] == g;
                    if i < pre.len() {
                        assert(candidate_guids(pre)[i] == g);
                        assert(candidate_guids(pre).contains(g));
                        assert(candidate_guids(kept).contains(g));
                        let k = choose|k: int| 0 <= k < candidate_guids(kept).len() && candidate_guids(kept)[k] == g;
                        assert(candidate_guids(now)[k] == g);
                    } else {
                        assert(candidate_guids(now)[kept.len() as int] == g);
                    }
                }
                if candidate_guids(now).contains(g) {
                    let i = choose|i: int| 0 <= i < candidate_guids(now).len() && candidate_guids(now)[i] == g;
                    if i < kept.len() {
                        assert(candidate_guids(kept)[i] == g);
                        assert(candidate_guids(kept).contains(g));
                        assert(candidate_guids(pre).contains(g));
                        let k = choose|k: int| 0 <= k < candidate_guids(pre).len() && candidate_guids(pre)[k] == g;
                        assert(candidate_guids(c)[k] == g);
                    } else {
                        assert(candidate_guids(c)[pre.len() as int] == g);
                    }
                }
            }
        }
    }
}

/// The texts of a sequence of strings.
pub open spec fn string_views(v: Seq<String>) -> Seq<Seq<char>> {
    v.map_values(|s: String| s@)
}

/// Positions as integers.
pub open spec fn positions(out: Seq<(usize, usize)>) -> Seq<(int, int)> {
    out.map_values(|p: (usize, usize)| (p.0 as int, p.1 as int))
}

/// Appends where the results of bucket `b` whose guid is new stand, and
/// their metadata.
fn add_results(
    b: usize,
    results: &Vec<Option<DiscoverResult>>,
    out: &mut Vec<(usize, usize)>,
    metas: &mut Vec<Json>,
    seen: &mut Vec<String>,
    Ghost(prefix): Ghost<Seq<Candidate>>,
)
    requires
        positions(old(out)@) == candidate_positions(first_by_guid(prefix)),
        items_view(old(metas)@) == candidate_metadata(first_by_guid(prefix)),
        forall|g: Seq<char>|
            #[trigger] string_views(old(seen)@).contains(g) <==> candidate_guids(
                prefix,
            ).contains(g),
    ensures
        positions(final(out)@) == candidate_positions(
            first_by_guid(prefix + result_candidates(b as int, results_view(results@))),
        ),
        items_view(final(metas)@) == candidate_metadata(
            first_by_guid(prefix + result_candidates(b as int, results_view(results@))),
        ),
        forall|g: Seq<char>|
            #[trigger] string_views(final(seen)@).contains(g) <==> candidate_guids(
                prefix + result_candidates(b as int, results_view(results@)),
            ).contains(g),
{
    let mut r: usize = 0;
    assert(results_view(results@.take(0)) =~= Seq::<Option<ResultView>>::empty());
    assert(prefix + result_candidates(b as int, results_view(results@.take(0))) =~= prefix);
    while r < results.len()
        invariant
            r <= results.len(),
            positions(out@) == candidate_positions(
                first_by_guid(prefix + result_candidates(b as int, results_view(results@.take(r as int)))),
            ),
            items_view(metas@) == candidate_metadata(
                first_by_guid(prefix + result_candidates(b as int, results_view(results@.take(r as int)))),
            ),
            forall|g: Seq<char>|
                #[trigger] string_views(seen@).contains(g) <==> candidate_guids(
                    prefix + result_candidates(b as int, results_view(results@.take(r as int))),
                ).contains(g),
        decreases results.len() - r,
    {
        let ghost rv = results_view(results@.take(r as int));
        let ghost rv2 = results_view(results@.take(r + 1));
        let ghost c = prefix + result_candidates(b as int, rv);
        assert(rv2.drop_last() =~= rv);
        assert(rv2.last() == result_view(results@[r as int]));
        match &results[r] {
            Some(res) => {
                let g = &res.guid;
                let ghost x: Candidate = (b as int, r as int, g@, json_view(res.metadata));
                let ghost c2 = prefix + result_candidates(b as int, rv2);
                assert(c2 =~= c.push(x));
                assert(c2.drop_last() =~= c);
                assert(candidate_guids(c2) =~= candidate_guids(c).push(g@));
                let found = crate::versions::contains_string(seen, g);
                assert(found == string_views(seen@).contains(g@));
                if !found {
                    assert(!candidate_guids(c).contains(g@));
                    assert(first_by_guid(c2) == first_by_guid(c).push(x));
                    assert(candidate_positions(first_by_guid(c2)) =~= candidate_positions(
                        first_by_guid(c),
                    ).push((b as int, r as int)));
                    assert(candidate_metadata(first_by_guid(c2)) =~= candidate_metadata(
                        first_by_guid(c),
                    ).push(json_view(res.metadata)));
                    let ghost out_before = out@;
                    let ghost metas_before = items_view(metas@);
                    let ghost metas_before_exec = metas@;
                    let ghost seen_before = string_views(seen@);
                    out.push((b, r));
                    metas.push(copy_json(&res.metadata));
                    seen.push(g.clone());
                    assert(positions(out@) =~= positions(out_before).push((b as int, r as int)));
                    assert(metas@.drop_last() =~= metas_before_exec);
                    assert(items_view(metas@) =~= metas_before.push(json_view(res.metadata)));
                    assert(string_views(seen@) =~= seen_before.push(g@));
                    assert forall|h: Seq<char>|
                        #[trigger] string_views(seen@).contains(h) <==> candidate_guids(
                            c2,
                        ).contains(h) by {
                        if seen_before.push(g@).contains(h) && h != g@ {
                            let i = choose|i: int| 0 <= i < seen_before.push(g@).len() && seen_before.push(g@)[i] == h;
                            assert(seen_before[i] == h);
                        }
                        if candidate_guids(c).push(g@).contains(h) && h != g@ {
                            let i = choose|i: int| 0 <= i < candidate_guids(c).push(g@).len() && candidate_guids(c).push(g@)[i] == h;
                            assert(candidate_guids(c)[i] == h);
                        }
                        if seen_before.contains(h) {
                            let i = choose|i: int| 0 <= i < seen_before.len() && seen_before[i] == h;
                            assert(seen_before.push(g@)[i] == h);
                        }
                        if candidate_guids(c).contains(h) {
                            let i = choose|i: int| 0 <= i < candidate_guids(c).len() && candidate_guids(c)[i] == h;
                            assert(candidate_guids(c).push(g@)[i] == h);
                        }
                        if h == g@ {
                            assert(seen_before.push(g@)[seen_before.len() as int] == h);
                            assert(candidate_guids(c).push(g@)[candidate_guids(c).len() as int] == h);
                        }
                    }
                } else {
                    assert(candidate_guids(c).contains(g@));
                    assert(first_by_guid(c2) == first_by_guid(c));
                    assert forall|h: Seq<char>|
                        #[trigger] string_views(seen@).contains(h) <==> candidate_guids(
                            c2,
                        ).contains(h) by {
                        if candidate_guids(c).push(g@).contains(h) && h != g@ {
                            let i = choose|i: int| 0 <= i < candidate_guids(c).push(g@).len() && candidate_guids(c).push(g@)[i] == h;
                            assert(candidate_guids(c)[i] == h);
                        }
                        if candidate_guids(c).contains(h) {
                            let i = choose|i: int| 0 <= i < candidate_guids(c).len() && candidate_guids(c)[i] == h;
                            assert(candidate_guids(c).push(g@)[i] == h);
                        }
                        if h == g@ {
                            assert(candidate_guids(c).push(g@)[candidate_guids(c).len() as int] == h);
                        }
                    }
                }
            },
            None => {
                assert(prefix + result_candidates(b as int, rv2) =~= c);
            },
        }
        r = r + 1;
    }
    assert(results@.take(results.len() as int) =~= results@);
}

/// What a discover search lists, in order: for the results of every bucket
/// but the people, keeping only the first result with each guid, where the
/// result stands in the answer and its metadata.
fn list_discover(buckets: &Vec<DiscoverBucket>) -> (r: (Vec<(usize, usize)>, Vec<Json>))
    ensures
        positions(r.0@) == candidate_positions(
            first_by_guid(discover_candidates(buckets_view(buckets@))),
        ),
        items_view(r.1@) == candidate_metadata(
            first_by_guid(discover_candidates(buckets_view(buckets@))),
        ),
{
    let mut out: Vec<(usize, usize)> = Vec::new();
    let mut metas: Vec<Json> = Vec::new();
    let mut seen: Vec<String> = Vec::new();
    let mut b: usize = 0;
    assert(buckets_view(buckets@.take(0)) =~= Seq::<BucketView>::empty());
    assert(positions(out@) =~= candidate_positions(Seq::<Candidate>::empty()));
    assert(items_view(metas@) =~= candidate_metadata(Seq::<Candidate>::empty()));
    while b < buckets.len()
        invariant
            b <= buckets.len(),
            positions(out@) == candidate_positions(
                first_by_guid(discover_candidates(buckets_view(buckets@.take(b as int)))),
            ),
            items_view(metas@) == candidate_metadata(
                first_by_guid(discover_candidates(buckets_view(buckets@.take(b as int)))),
            ),
            forall|g: Seq<char>|
                #[trigger] string_views(seen@).contains(g) <==> candidate_guids(
                    discover_candidates(buckets_view(buckets@.take(b as int))),
                ).contains(g),
        decreases buckets.len() - b,
    {
        let ghost prefix = discover_candidates(buckets_view(buckets@.take(b as int)));
        let ghost bv2 = buckets_view(buckets@.take(b + 1));
        assert(bv2.drop_last() =~= buckets_view(buckets@.take(b as int)));
        assert(bv2.last() == bucket_view(buckets@[b as int]));
        let bucket = &buckets[b];
        let skip = match &bucket.id {
            Some(id) => str_eq(id.as_str(), "people"),
            None => false,
        };
        if !skip {
            match &bucket.results {
                Some(rs) => {
                    add_results(b, rs, &mut out, &mut metas, &mut seen, Ghost(prefix));
                },
                None => {
                    assert(prefix + bucket_candidates(b as int, bucket_view(*bucket)) =~= prefix);
                },
            }
        } else {
            assert(prefix + bucket_candidates(b as int, bucket_view(*bucket)) =~= prefix);
        }
        b = b + 1;
    }
    assert(buckets@.take(buckets.len() as int) =~= buckets@);
    (out, metas)
}

/// Where the metadata listed by a discover search stands in the answer: the
/// results of every bucket but the people, in order, keeping only the first
/// result with each guid.
pub fn discover_metadata_positions(buckets: &Vec<DiscoverBucket>) -> (r: Vec<(usize, usize)>)
    ensures
        positions(r@) == candidate_positions(
            first_by_guid(discover_candidates(buckets_view(buckets@))),
        ),
{
    list_discover(buckets).0
}

/// The metadata listed by a discover search, in the order of
/// `discover_metadata_positions`.
pub fn discover_metadata(buckets: &Vec<DiscoverBucket>) -> (r: Vec<Json>)
    ensures
        items_view(r@) == candidate_metadata(
            first_by_guid(discover_candidates(buckets_view(buckets@))),
        ),
{
    list_discover(buckets).1
}

/// The search result a result entry stands for: its `Metadata` where that
/// is an object with a text `guid`, with that guid.
pub open spec fn discover_result_in(r: JsonValue) -> Option<ResultView> {
    match member(r, "Metadata"@) {
        Some(m) => if m is Obj {
            match text_member(m, "guid"@) {
                Some(g) => Some((g, m)),
                None => None,
            }
        } else {
            None
        },
        None => None,
    }
}

/// The bucket a bucket entry stands for: its text `id`, and its
/// `SearchResult` list where that is a list.
pub open spec fn discover_bucket_in(b: JsonValue) -> BucketView {
    (
        text_member(b, "id"@),
        match member(b, "SearchResult"@) {
            Some(JsonValue::Arr(rs)) => Some(rs.map_values(|r: JsonValue| discover_result_in(r))),
            _ => None,
        },
    )
}

/// The buckets of an answer of the discover search: those listed under
/// `MediaContainer.SearchResults`, none where that is not a list.
pub open spec fn discover_buckets_in(doc: JsonValue) -> Seq<BucketView> {
    match member(doc, "MediaContainer"@) {
        Some(mc) => match member(mc, "SearchResults"@) {
            Some(JsonValue::Arr(bs)) => bs.map_values(|b: JsonValue| discover_bucket_in(b)),
            _ => seq![],
        },
        None => seq![],
    }
}

/// The search result of one result entry.
fn discover_result(r: &Json) -> (x: Option<DiscoverResult>)
    ensures
        result_view(x) == discover_result_in(json_view(*r)),
{
    match member_of(r, "Metadata") {
        Some(m) => match m {
            Json::Obj(_) => match text_member_of(m, "guid") {
                Some(guid) => Some(DiscoverResult { guid, metadata: copy_json(m) }),
                None => None,
            },
            _ => None,
        },
        None => None,
    }
}

/// The bucket of one bucket entry.
fn discover_bucket(b: &Json) -> (r: DiscoverBucket)
    ensures
        bucket_view(r) == discover_bucket_in(json_view(*b)),
{
    let id = text_member_of(b, "id");
    let results = match member_of(b, "SearchResult") {
        Some(Json::Arr(rs)) => {
            proof {
                lemma_items_view(rs@);
            }
            let mut out: Vec<Option<DiscoverResult>> = Vec::new();
            let mut k: usize = 0;
            while k < rs.len()
                invariant
                    k <= rs@.len(),
                    results_view(out@) =~= items_view(rs@).take(k as int).map_values(
                        |r: JsonValue| discover_result_in(r),
                    ),
                    items_view(rs@).len() == rs@.len(),
                    forall|i: int| 0 <= i < rs@.len() ==> #[trigger] items_view(rs@)[i] == json_view(rs@[i]),
                decreases rs.len() - k,
            {
                let x = discover_result(&rs[k]);
                assert(items_view(rs@)[k as int] == json_view(rs@[k as int]));
                let ghost before = out@;
                out.push(x);
                assert(results_view(out@) =~= results_view(before).push(result_view(x)));
                assert(results_view(out@) =~= items_view(rs@).take(k + 1).map_values(
                    |r: JsonValue| discover_result_in(r),
                ));
                k = k + 1;
            }
            assert(items_view(rs@).take(rs@.len() as int) =~= items_view(rs@));
            Some(out)
        },
        _ => None,
    };
    DiscoverBucket { id, results }
}

/// The buckets of an answer of the discover search.
pub fn discover_buckets(doc: &Json) -> (r: Vec<DiscoverBucket>)
    ensures
        buckets_view(r@) == discover_buckets_in(json_view(*doc)),
{
    let mut out: Vec<DiscoverBucket> = Vec::new();
    match member_of(doc, "MediaContainer") {
        Some(mc) => match member_of(mc, "SearchResults") {
            Some(Json::Arr(bs)) => {
                proof {
                    lemma_items_view(bs@);
                }
                let mut k: usize = 0;
                while k < bs.len()
                    invariant
                        k <= bs@.len(),
                        buckets_view(out@) =~= items_view(bs@).take(k as int).map_values(
                            |b: JsonValue| discover_bucket_in(b),
                        ),
                        items_view(bs@).len() == bs@.len(),
                        forall|i: int| 0 <= i < bs@.len() ==> #[trigger] items_view(bs@)[i] == json_view(bs@[i]),
                    decreases bs.len() - k,
                {
                    let x = discover_bucket(&bs[k]);
                    assert(items_view(bs@)[k as int] == json_view(bs@[k as int]));
                    let ghost before = out@;
                    out.push(x);
                    assert(buckets_view(out@) =~= buckets_view(before).push(bucket_view(x)));
                    assert(buckets_view(out@) =~= items_view(bs@).take(k + 1).map_values(
                        |b: JsonValue| discover_bucket_in(b),
                    ));
                    k = k + 1;
                }
                assert(items_view(bs@).take(bs@.len() as int) =~= items_view(bs@));
            },
            _ => {},
        },
        None => {},
    }
    out
}

/// The metadata a discover search lists, given whether the answer was a
/// success and its text: none for a failed answer or a text that is not
/// JSON; else the results of every bucket but the people, in order, keeping
/// only the first result with each guid.
pub fn discover_listing(success: bool, text: &str) -> (r: Vec<Json>)
    ensures
        !success ==> r@.len() == 0,
        success ==> match json_of(text@) {
            None => r@.len() == 0,
            Some(doc) => items_view(r@) == candidate_metadata(
                first_by_guid(discover_candidates(discover_buckets_in(doc))),
            ),
        },
{
    if !success {
        return Vec::new();
    }
    match parse_json(text) {
        Some(doc) => discover_metadata(&discover_buckets(&doc)),
        None => Vec::new(),
    }
}

} // verus!
