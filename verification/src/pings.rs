//! The notifications sent through the pings service: where they go and
//! what they say.
use vstd::prelude::*;
use crate::text::{
    join, join_strings, opt_view, owned, push_signed_decimal, signed_decimal, str_eq, trim,
    trim_str,
};

verus! {

/// The pings service address from the `PINGS_URL` setting: none where it
/// is unset or blank.
pub fn ping_url(setting: Option<&str>) -> (r: Option<String>)
    ensures
        opt_view(r) == match setting {
            Some(u) => if trim(u@).len() > 0 {
                Some(u@)
            } else {
                None
            },
            None => None,
        },
{
    match setting {
        Some(u) => {
            let t = trim_str(u);
            if t.as_str().is_empty() {
                None
            } else {
                Some(owned(u))
            }
        },
        None => None,
    }
}

/// Details for a new request, used to notify server owners.
pub struct RequestPingDetails<'a> {
    pub username: &'a str,
    pub title: &'a str,
    pub year: Option<i32>,
    pub item_type: &'a str,
    pub requested_seasons: Option<&'a [i32]>,
    pub requested_resolution: Option<&'a str>,
    pub is_upgrade: bool,
}

/// ` (year)` for a known year, else nothing.
pub open spec fn year_suffix(year: Option<i32>) -> Seq<char> {
    match year {
        Some(y) => " ("@ + signed_decimal(y as int) + ")"@,
        None => seq![],
    }
}

/// Season numbers, in order, separated by a comma and a space.
pub open spec fn seasons_text(seasons: Seq<i32>) -> Seq<char> {
    join(seasons.map_values(|n: i32| signed_decimal(n as int)), ", "@)
}

/// The sentences of the message that announces a request.
pub open spec fn request_ping_parts(
    username: Seq<char>,
    title: Seq<char>,
    year: Option<i32>,
    item_type: Seq<char>,
    seasons: Option<Seq<i32>>,
    resolution: Option<Seq<char>>,
    is_upgrade: bool,
) -> Seq<Seq<char>> {
    let first = username + " requested "@ + title + year_suffix(year) + "."@;
    let head = if item_type == "show"@ && seasons is Some && seasons->0.len() > 0 {
        seq![first, "Seasons: "@ + seasons_text(seasons->0) + "."@]
    } else {
        seq![first]
    };
    if is_upgrade {
        head.push(
            "User is requesting a different resolution for an existing "@ + item_type + "."@,
        )
    } else if resolution is Some && resolution->0.len() > 0 {
        head.push("Preferred resolution: "@ + resolution->0 + "."@)
    } else {
        head
    }
}

/// The message that announces a request to the server owners.
pub open spec fn request_ping_body_of(d: RequestPingDetails) -> Seq<char> {
    join(
        request_ping_parts(
            d.username@,
            d.title@,
            d.year,
            d.item_type@,
            match d.requested_seasons {
                Some(s) => Some(s@),
                None => None,
            },
            match d.requested_resolution {
                Some(r) => Some(r@),
                None => None,
            },
            d.is_upgrade,
        ),
        " "@,
    )
}

/// The season numbers as text.
fn seasons_list(seasons: &[i32]) -> (r: String)
    ensures
        r@ == seasons_text(seasons@),
{
    let mut pieces: Vec<String> = Vec::new();
    let mut i: usize = 0;
    while i < seasons.len()
        invariant
            i <= seasons.len(),
            pieces@.map_values(|p: String| p@) == seasons@.take(i as int).map_values(
                |n: i32| signed_decimal(n as int),
            ),
        decreases seasons.len() - i,
    {
        let mut p = String::new();
        push_signed_decimal(&mut p, seasons[i] as i64);
        let ghost before = pieces@.map_values(|p: String| p@);
        pieces.push(p);
        i = i + 1;
        assert(seasons@.take(i as int) =~= seasons@.take(i - 1).push(seasons@[i - 1]));
        assert(pieces@.map_values(|p: String| p@) =~= before.push(p@));
        assert(seasons@.take(i as int).map_values(|n: i32| signed_decimal(n as int)) =~= seasons@.take(
            i - 1,
        ).map_values(|n: i32| signed_decimal(n as int)).push(signed_decimal(seasons@[i - 1] as int)));
    }
    assert(seasons@.take(seasons.len() as int) =~= seasons@);
    join_strings(&pieces, ", ")
}

/// The message that announces a request to the server owners.
pub fn request_ping_body(details: &RequestPingDetails) -> (r: String)
    ensures
        r@ == request_ping_body_of(*details),
{
    let ghost seasons_v = match details.requested_seasons {
        Some(s) => Some(s@),
        None => None::<Seq<i32>>,
    };
    let ghost res_v = match details.requested_resolution {
        Some(r) => Some(r@),
        None => None::<Seq<char>>,
    };
    let ghost first_v = details.username@ + " requested "@ + details.title@ + year_suffix(
        details.year,
    ) + "."@;
    let mut first = owned(details.username);
    first.append(" requested ");
    first.append(details.title);
    let ghost stem = first@;
    match details.year {
        Some(y) => {
            first.append(" (");
            push_signed_decimal(&mut first, y as i64);
            first.append(")");
            assert(first@ =~= stem + year_suffix(details.year));
        },
        None => {
            assert(first@ =~= stem + year_suffix(details.year));
        },
    }
    first.append(".");
    assert(first@ =~= first_v);
    let mut parts: Vec<String> = Vec::new();
    parts.push(first);
    let ghost head_v = if details.item_type@ == "show"@ && seasons_v is Some && seasons_v->0.len()
        > 0 {
        seq![first_v, "Seasons: "@ + seasons_text(seasons_v->0) + "."@]
    } else {
        seq![first_v]
    };
    if str_eq(details.item_type, "show") {
        match details.requested_seasons {
            Some(seasons) => if seasons.len() > 0 {
                let mut s = owned("Seasons: ");
                let list = seasons_list(seasons);
                s.append(list.as_str());
                s.append(".");
                parts.push(s);
            },
            None => {},
        }
    }
    assert(parts@.map_values(|p: String| p@) =~= head_v);
    let ghost before = parts@.map_values(|p: String| p@);
    if details.is_upgrade {
        let mut s = owned("User is requesting a different resolution for an existing ");
        s.append(details.item_type);
        s.append(".");
        parts.push(s);
        assert(parts@.map_values(|p: String| p@) =~= before.push(s@));
    } else {
        match details.requested_resolution {
            Some(res) => if !res.is_empty() {
                let mut s = owned("Preferred resolution: ");
                s.append(res);
                s.append(".");
                parts.push(s);
                assert(parts@.map_values(|p: String| p@) =~= before.push(s@));
            },
            None => {},
        }
    }
    let ghost expected = request_ping_parts(
        details.username@,
        details.title@,
        details.year,
        details.item_type@,
        seasons_v,
        res_v,
        details.is_upgrade,
    );
    assert(parts@.map_values(|p: String| p@) =~= expected);
    join_strings(&parts, " ")
}

/// The servers a fulfilled request is available on, as the message lists
/// them.
pub open spec fn server_list_text(server_names: Seq<Seq<char>>) -> Seq<char> {
    if server_names.len() == 0 {
        "unknown servers"@
    } else {
        join(server_names, ", "@)
    }
}

/// The message that tells a user their request was fulfilled.
pub fn fulfilled_ping_body(title: &str, resolution: &str, server_names: &Vec<String>) -> (r: String)
    ensures
        r@ == "Your request for "@ + title@ + " was fulfilled with resolution "@ + resolution@
            + " and is now available on: "@ + server_list_text(
            server_names@.map_values(|s: String| s@),
        ) + "."@,
{
    let mut r = owned("Your request for ");
    r.append(title);
    r.append(" was fulfilled with resolution ");
    r.append(resolution);
    r.append(" and is now available on: ");
    if server_names.len() == 0 {
        r.append("unknown servers");
    } else {
        let list = join_strings(server_names, ", ");
        r.append(list.as_str());
    }
    r.append(".");
    r
}

/// The message that tells a user their request was dropped unfulfilled.
pub fn stale_ping_body(title: &str) -> (r: String)
    ensures
        r@ == "Your request for "@ + title@
            + " was unfulfilled for 30 days and has been removed."@,
{
    let mut r = owned("Your request for ");
    r.append(title);
    r.append(" was unfulfilled for 30 days and has been removed.");
    r
}

/// The first sentence of a request's message: who requested what.
pub open spec fn requested_sentence(username: Seq<char>, title: Seq<char>, year: Option<i32>) -> Seq<
    char,
> {
    username + " requested "@ + title + year_suffix(year) + "."@
}

/// A request for seasons of a show lists them in its second sentence, the
/// same whether it asks for new media or an upgrade and whatever resolution
/// it names: its message begins with who requested what, then
/// `Seasons: <list>.`.
pub proof fn law_show_seasons_sentence(
    username: Seq<char>,
    title: Seq<char>,
    year: Option<i32>,
    seasons: Seq<i32>,
    resolution: Option<Seq<char>>,
    is_upgrade: bool,
)
    requires
        seasons.len() > 0,
    ensures
        ({
            let parts = request_ping_parts(
                username,
                title,
                year,
                "show"@,
                Some(seasons),
                resolution,
                is_upgrade,
            );
            let lead = requested_sentence(username, title, year) + " "@ + ("Seasons: "@
                + seasons_text(seasons) + "."@);
            let body = join(parts, " "@);
            &&& parts.len() >= 2
            &&& parts[0] == requested_sentence(username, title, year)
            &&& parts[1] == "Seasons: "@ + seasons_text(seasons) + "."@
            &&& lead.len() <= body.len()
            &&& body.subrange(0, lead.len() as int) == lead
        }),
{
    let first = requested_sentence(username, title, year);
    let second = "Seasons: "@ + seasons_text(seasons) + "."@;
    let head = seq![first, second];
    let parts = request_ping_parts(username, title, year, "show"@, Some(seasons), resolution, is_upgrade);
    let lead = first + " "@ + second;
    assert(head.drop_last() =~= seq![first]);
    assert(join(seq![first], " "@) == first);
    assert(join(head, " "@) == first + " "@ + second);
    if parts.len() == 3 {
        assert(parts.drop_last() =~= head);
        assert(join(parts, " "@) == join(head, " "@) + " "@ + parts.last());
        assert((lead + (" "@ + parts.last())).subrange(0, lead.len() as int) =~= lead);
        assert(join(parts, " "@) =~= lead + (" "@ + parts.last()));
    } else {
        assert(parts =~= head);
        assert(join(parts, " "@).subrange(0, lead.len() as int) =~= lead);
    }
}

/// An upgrade's message is the message of the same request for new media
/// with no resolution named, followed by the sentence that asks for a
/// different resolution of the existing item.
pub proof fn law_upgrade_message(
    username: Seq<char>,
    title: Seq<char>,
    year: Option<i32>,
    item_type: Seq<char>,
    seasons: Option<Seq<i32>>,
    resolution: Option<Seq<char>>,
)
    ensures
        join(
            request_ping_parts(username, title, year, item_type, seasons, resolution, true),
            " "@,
        ) == join(
            request_ping_parts(username, title, year, item_type, seasons, None, false),
            " "@,
        ) + " "@ + ("User is requesting a different resolution for an existing "@ + item_type
            + "."@),
{
    let up = request_ping_parts(username, title, year, item_type, seasons, resolution, true);
    let plain = request_ping_parts(username, title, year, item_type, seasons, None, false);
    assert(up.drop_last() =~= plain);
    assert(plain.len() >= 1);
    assert(up.len() >= 2);
    assert(join(up, " "@) == join(up.drop_last(), " "@) + " "@ + up.last());
}

/// The seasons of a show request, as plain values.
pub open spec fn seasons_of(d: RequestPingDetails) -> Option<Seq<i32>> {
    match d.requested_seasons {
        Some(s) => Some(s@),
        None => None,
    }
}

/// The message of a request for seasons of a show begins with who requested
/// what and then `Seasons: <list>.`, whether the request is an upgrade or
/// not and whatever resolution it names.
pub proof fn law_show_request_message_lists_seasons(d: RequestPingDetails)
    requires
        d.item_type@ == "show"@,
        seasons_of(d) matches Some(s) && s.len() > 0,
    ensures
        ({
            let lead = requested_sentence(d.username@, d.title@, d.year) + " "@ + ("Seasons: "@
                + seasons_text(seasons_of(d)->0) + "."@);
            let body = request_ping_body_of(d);
            &&& lead.len() <= body.len()
            &&& body.subrange(0, lead.len() as int) == lead
        }),
{
    law_show_seasons_sentence(
        d.username@,
        d.title@,
        d.year,
        seasons_of(d)->0,
        match d.requested_resolution {
            Some(r) => Some(r@),
            None => None,
        },
        d.is_upgrade,
    );
}

/// Two requests that differ only in that the first is an upgrade and the
/// second asks for new media with no resolution: the first's message is the
/// second's followed by the sentence asking for a different resolution.
pub proof fn law_upgrade_request_message(up: RequestPingDetails, new: RequestPingDetails)
    requires
        up.is_upgrade,
        !new.is_upgrade,
        new.requested_resolution is None,
        up.username@ == new.username@,
        up.title@ == new.title@,
        up.year == new.year,
        up.item_type@ == new.item_type@,
        seasons_of(up) == seasons_of(new),
    ensures
        request_ping_body_of(up) == request_ping_body_of(new) + " "@ + (
        "User is requesting a different resolution for an existing "@ + up.item_type@ + "."@),
{
    law_upgrade_message(
        up.username@,
        up.title@,
        up.year,
        up.item_type@,
        seasons_of(up),
        match up.requested_resolution {
            Some(r) => Some(r@),
            None => None,
        },
    );
}

/// The sentences of a request's message, in order: who requested what;
/// the seasons, only for a show with a non-empty list of seasons; then, for
/// an upgrade, the request for a different resolution, and otherwise the
/// preferred resolution where a non-empty one is named.
pub proof fn law_request_message_sentences(
    username: Seq<char>,
    title: Seq<char>,
    year: Option<i32>,
    item_type: Seq<char>,
    seasons: Option<Seq<i32>>,
    resolution: Option<Seq<char>>,
    is_upgrade: bool,
)
    ensures
        ({
            let parts = request_ping_parts(
                username,
                title,
                year,
                item_type,
                seasons,
                resolution,
                is_upgrade,
            );
            let lists = item_type == "show"@ && seasons is Some && seasons->0.len() > 0;
            let prefers = !is_upgrade && resolution is Some && resolution->0.len() > 0;
            &&& parts.len() == 1 + (if lists {
                1int
            } else {
                0int
            }) + (if is_upgrade || prefers {
                1int
            } else {
                0int
            })
            &&& parts[0] == requested_sentence(username, title, year)
            &&& lists ==> parts[1] == "Seasons: "@ + seasons_text(seasons->0) + "."@
            &&& is_upgrade ==> parts.last()
                == "User is requesting a different resolution for an existing "@ + item_type
                + "."@
            &&& prefers ==> parts.last() == "Preferred resolution: "@ + resolution->0 + "."@
        }),
{
}

/// A request for new media that is not a show with seasons says who
/// requested what and, where a non-empty resolution is named, that
/// resolution; nothing else.
pub proof fn law_plain_request_message(d: RequestPingDetails)
    requires
        !d.is_upgrade,
        d.item_type@ != "show"@ || seasons_of(d) is None || seasons_of(d)->0.len() == 0,
    ensures
        ({
            let first = requested_sentence(d.username@, d.title@, d.year);
            match d.requested_resolution {
                Some(r) => if r@.len() > 0 {
                    request_ping_body_of(d) == first + " "@ + ("Preferred resolution: "@ + r@
                        + "."@)
                } else {
                    request_ping_body_of(d) == first
                },
                None => request_ping_body_of(d) == first,
            }
        }),
{
    let first = requested_sentence(d.username@, d.title@, d.year);
    assert(join(seq![first], " "@) == first);
    match d.requested_resolution {
        Some(r) => if r@.len() > 0 {
            let parts = request_ping_parts(
                d.username@,
                d.title@,
                d.year,
                d.item_type@,
                seasons_of(d),
                Some(r@),
                false,
            );
            assert(parts.drop_last() =~= seq![first]);
            assert(parts.len() == 2);
            assert(join(parts, " "@) == join(parts.drop_last(), " "@) + " "@ + parts.last());
        },
        None => {},
    }
}

} // verus!
