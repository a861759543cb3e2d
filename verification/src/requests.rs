//! Deciding whether a media request is fulfilled by the catalog.
//!
//! The catalog answers yes/no questions ("is there a show with this guid?",
//! "does season 2 have an episode in 1080p?"). The decisions here say which
//! questions to ask, in which order, and what the answers mean; the caller
//! asks the database and hands the answers back.
use vstd::prelude::*;

use crate::text::{
    chars_eq_str, chars_of, strip_prefix_or_self, strip_prefix_or_self_str, to_lowercase,
    unicode_lowercase, push_char,
};

verus! {

/// The catalog guid that a requested guid is looked up by: without its
/// `plex://` scheme.
pub open spec fn lookup_guid(guid: Seq<char>) -> Seq<char> {
    strip_prefix_or_self(guid, "plex://"@)
}

/// Strips the plex:// prefix from the guid to match against items table.
pub fn guid_for_item_lookup(guid: &str) -> (r: String)
    ensures
        r@ == lookup_guid(guid@),
{
    strip_prefix_or_self_str(guid, "plex://")
}

/// The `ILIKE` pattern that an episode resolution is matched with.
#[derive(Clone, Copy, Debug, PartialEq, Eq)]
pub enum ResolutionPattern {
    /// `%4k%`
    UltraHd,
    /// `%1080%`
    FullHd,
    /// `%720%`
    Hd,
    /// `%`: any resolution.
    Any,
}

/// The pattern for a lower-cased requested resolution.
pub open spec fn pattern_of_lowered(l: Seq<char>) -> ResolutionPattern {
    if l == "4k"@ || l == "2160p"@ {
        ResolutionPattern::UltraHd
    } else if l == "1080p"@ || l == "1080"@ {
        ResolutionPattern::FullHd
    } else if l == "720p"@ || l == "720"@ {
        ResolutionPattern::Hd
    } else {
        ResolutionPattern::Any
    }
}

/// The pattern for a requested resolution, compared in Unicode lower case.
pub open spec fn pattern_spec(res: Seq<char>) -> ResolutionPattern {
    pattern_of_lowered(unicode_lowercase(res))
}

/// The SQL text of a pattern.
pub open spec fn pattern_text(p: ResolutionPattern) -> Seq<char> {
    match p {
        ResolutionPattern::UltraHd => "%4k%"@,
        ResolutionPattern::FullHd => "%1080%"@,
        ResolutionPattern::Hd => "%720%"@,
        ResolutionPattern::Any => "%"@,
    }
}

impl ResolutionPattern {
    /// The SQL `ILIKE` text of the pattern.
    pub fn sql(&self) -> (r: &'static str)
        ensures
            r@ == pattern_text(*self),
    {
        match self {
            ResolutionPattern::UltraHd => "%4k%",
            ResolutionPattern::FullHd => "%1080%",
            ResolutionPattern::Hd => "%720%",
            ResolutionPattern::Any => "%",
        }
    }
}

/// The pattern kind for a requested resolution already in lower case.
pub fn pattern_for_lowered(lowered: &str) -> (p: ResolutionPattern)
    ensures
        p == pattern_of_lowered(lowered@),
{
    let l = chars_of(lowered);
    if chars_eq_str(&l, "4k") || chars_eq_str(&l, "2160p") {
        ResolutionPattern::UltraHd
    } else if chars_eq_str(&l, "1080p") || chars_eq_str(&l, "1080") {
        ResolutionPattern::FullHd
    } else if chars_eq_str(&l, "720p") || chars_eq_str(&l, "720") {
        ResolutionPattern::Hd
    } else {
        ResolutionPattern::Any
    }
}

/// The pattern kind for a requested resolution.
pub fn resolution_pattern_kind(res: &str) -> (p: ResolutionPattern)
    ensures
        p == pattern_spec(res@),
{
    let lowered = to_lowercase(res);
    pattern_for_lowered(lowered.as_str())
}

/// The `ILIKE` pattern for a requested resolution: `%4k%` for 4k/2160p,
/// `%1080%` for 1080p/1080, `%720%` for 720p/720 (case-insensitive), else `%`.
pub fn resolution_pattern_for(res: &str) -> (r: &'static str)
    ensures
        r@ == pattern_text(pattern_spec(res@)),
{
    resolution_pattern_kind(res).sql()
}

// ---------------------------------------------------------------------------
// Movies
// ---------------------------------------------------------------------------

/// The one question whose answer says whether a movie request is fulfilled.
#[derive(Clone, Debug, PartialEq, Eq)]
pub enum MovieQuery {
    /// Is there a movie with the guid?
    AnyMovie,
    /// Is there a movie with the guid and a part whose resolution matches
    /// the requested pattern?
    PartMatches(ResolutionPattern),
    /// Is there a movie with the guid and a part whose resolution matches
    /// this pattern?
    ResolutionLike(String),
}

/// The question for a movie request, given the lower case of the requested
/// resolution: what the text says and the pattern `%{lowered}%` otherwise.
pub open spec fn movie_query_matches(
    q: MovieQuery,
    requested_resolution: Option<Seq<char>>,
    is_upgrade: bool,
) -> bool {
    if !is_upgrade || requested_resolution is None {
        q == MovieQuery::AnyMovie
    } else {
        let l = unicode_lowercase(requested_resolution->0);
        if pattern_of_lowered(l) != ResolutionPattern::Any {
            q == MovieQuery::PartMatches(pattern_of_lowered(l))
        } else {
            q matches MovieQuery::ResolutionLike(p) && p@ == seq!['%'] + l + seq!['%']
        }
    }
}

/// Which question decides a movie request, with the guid it is asked about.
/// A new-media request is fulfilled as soon as the movie exists; an upgrade
/// only once a part in the requested resolution exists.
pub fn movie_fulfillment_query(
    guid: &str,
    requested_resolution: Option<&str>,
    is_upgrade: bool,
) -> (r: (String, MovieQuery))
    ensures
        r.0@ == lookup_guid(guid@),
        movie_query_matches(
            r.1,
            match requested_resolution {
                Some(s) => Some(s@),
                None => None,
            },
            is_upgrade,
        ),
{
    let normalized_guid = guid_for_item_lookup(guid);
    if !is_upgrade {
        return (normalized_guid, MovieQuery::AnyMovie);
    }
    match requested_resolution {
        None => (normalized_guid, MovieQuery::AnyMovie),
        Some(res) => {
            let lowered = to_lowercase(res);
            (normalized_guid, movie_query_for_lowered(lowered.as_str()))
        },
    }
}

/// The question for an upgrade to a resolution already in lower case: the
/// known resolutions by their pattern, any other text as the pattern
/// `%{lowered}%`.
pub fn movie_query_for_lowered(lowered: &str) -> (q: MovieQuery)
    ensures
        pattern_of_lowered(lowered@) != ResolutionPattern::Any ==> q
            == MovieQuery::PartMatches(pattern_of_lowered(lowered@)),
        pattern_of_lowered(lowered@) == ResolutionPattern::Any ==> (q matches MovieQuery::ResolutionLike(p)
            && p@ == seq!['%'] + lowered@ + seq!['%']),
{
    let kind = pattern_for_lowered(lowered);
    match kind {
        ResolutionPattern::Any => {
            let mut p = String::new();
            push_char(&mut p, '%');
            p.append(lowered);
            push_char(&mut p, '%');
            assert(p@ =~= seq!['%'] + lowered@ + seq!['%']);
            MovieQuery::ResolutionLike(p)
        },
        _ => MovieQuery::PartMatches(kind),
    }
}

// ---------------------------------------------------------------------------
// Shows
// ---------------------------------------------------------------------------

/// A question about the show with the request's guid.
#[derive(Clone, Copy, Debug, PartialEq, Eq)]
pub enum ShowQuery {
    /// Is there a show with the guid?
    ShowExists,
    /// Does the show have a season with this index?
    SeasonExists(i32),
    /// Does the season with this index have an episode with a part whose
    /// resolution matches the pattern?
    SeasonHasResolution(i32, ResolutionPattern),
    /// Does the show have episodes directly under it and no seasons?
    DirectEpisodes,
    /// Does an episode directly under the show have a part whose resolution
    /// matches the pattern?
    DirectEpisodesHaveResolution(ResolutionPattern),
    /// Does any episode of the show (directly or in a season) have a part
    /// whose resolution matches the pattern?
    AnyEpisodeHasResolution(ResolutionPattern),
}

/// The question asked about one requested season.
pub open spec fn season_query(n: i32, pattern: Option<ResolutionPattern>) -> ShowQuery {
    match pattern {
        Some(p) => ShowQuery::SeasonHasResolution(n, p),
        None => ShowQuery::SeasonExists(n),
    }
}

/// A requested season is present: the season (in the resolution, if one is
/// asked for) exists, or it is season 1 of a show whose episodes sit directly
/// under it (with an episode in the resolution, if one is asked for).
pub open spec fn season_ok(
    answers: spec_fn(ShowQuery) -> bool,
    n: i32,
    pattern: Option<ResolutionPattern>,
) -> bool {
    ||| answers(season_query(n, pattern))
    ||| answers(ShowQuery::DirectEpisodes) && n == 1 && (pattern matches Some(p) ==> answers(
        ShowQuery::DirectEpisodesHaveResolution(p),
    ))
}

/// Every requested season from position `from` on is present.
pub open spec fn seasons_ok_from(
    answers: spec_fn(ShowQuery) -> bool,
    seasons: Seq<i32>,
    pattern: Option<ResolutionPattern>,
    from: int,
) -> bool {
    forall|j: int| from <= j < seasons.len() ==> season_ok(answers, #[trigger] seasons[j], pattern)
}

/// Whether a show request is fulfilled, when the catalog answers each
/// question as `answers` does: the show exists and either no season is
/// requested (then, if a resolution is asked for, some episode has it) or
/// every requested season is present.
pub open spec fn show_request_fulfilled(
    answers: spec_fn(ShowQuery) -> bool,
    seasons: Seq<i32>,
    pattern: Option<ResolutionPattern>,
) -> bool {
    &&& answers(ShowQuery::ShowExists)
    &&& if seasons.len() == 0 {
        match pattern {
            None => true,
            Some(p) => answers(ShowQuery::AnyEpisodeHasResolution(p)),
        }
    } else {
        seasons_ok_from(answers, seasons, pattern, 0)
    }
}

/// Where a show check stands.
#[derive(Clone, Copy, Debug, PartialEq, Eq)]
pub enum ShowCheckPhase {
    /// Waiting for whether the show exists.
    AwaitShow,
    /// Waiting for whether the requested season at this position exists.
    AwaitSeason(usize),
    /// That season is missing; waiting for whether the show's episodes sit
    /// directly under it.
    AwaitDirect(usize),
    /// Waiting for whether a direct episode has the resolution.
    AwaitDirectResolution(usize),
    /// Waiting for whether any episode has the resolution.
    AwaitAnyResolution,
    /// Decided.
    Done(bool),
}

/// What the check wants next: an answer to a question, or nothing more.
#[derive(Clone, Copy, Debug, PartialEq, Eq)]
pub enum ShowCheckStep {
    Ask(ShowQuery),
    Decided(bool),
}

/// A running check of a TV show request. New-media requests verify that the
/// show and the requested seasons exist and ignore the resolution; upgrade
/// requests check the resolution on episodes.
pub struct ShowFulfillmentCheck {
    guid: String,
    seasons: Vec<i32>,
    pattern: Option<ResolutionPattern>,
    phase: ShowCheckPhase,
}

impl ShowFulfillmentCheck {
    /// The catalog guid the questions are about.
    pub closed spec fn guid_spec(&self) -> Seq<char> {
        self.guid@
    }

    /// The catalog guid the questions are about.
    pub fn guid(&self) -> (r: &str)
        ensures
            r@ == self.guid_spec(),
    {
        self.guid.as_str()
    }

    /// The requested seasons, in order.
    pub closed spec fn seasons_spec(&self) -> Seq<i32> {
        self.seasons@
    }

    /// The resolution pattern the seasons are checked in, if any.
    pub closed spec fn pattern_spec(&self) -> Option<ResolutionPattern> {
        self.pattern
    }

    /// The check's phase.
    pub closed spec fn phase_spec(&self) -> ShowCheckPhase {
        self.phase
    }

    /// Well-formedness: the positions in the phase lie within the seasons.
    #[verifier::type_invariant]
    closed spec fn wf(&self) -> bool {
        match self.phase {
            ShowCheckPhase::AwaitSeason(i) => i < self.seasons@.len(),
            ShowCheckPhase::AwaitDirect(i) => i < self.seasons@.len(),
            ShowCheckPhase::AwaitDirectResolution(i) => i < self.seasons@.len()
                && self.pattern is Some,
            ShowCheckPhase::AwaitAnyResolution => self.pattern is Some
                && self.seasons@.len() == 0,
            _ => true,
        }
    }

    /// The question the check waits on, if it is not decided.
    pub closed spec fn pending(&self) -> Option<ShowQuery> {
        match self.phase {
            ShowCheckPhase::AwaitShow => Some(ShowQuery::ShowExists),
            ShowCheckPhase::AwaitSeason(i) => Some(season_query(self.seasons@[i as int], self.pattern)),
            ShowCheckPhase::AwaitDirect(_) => Some(ShowQuery::DirectEpisodes),
            ShowCheckPhase::AwaitDirectResolution(_) => Some(
                ShowQuery::DirectEpisodesHaveResolution(self.pattern->0),
            ),
            ShowCheckPhase::AwaitAnyResolution => Some(
                ShowQuery::AnyEpisodeHasResolution(self.pattern->0),
            ),
            ShowCheckPhase::Done(_) => None,
        }
    }

    /// The step the check reports in its current phase.
    pub closed spec fn step_spec(&self) -> ShowCheckStep {
        match self.phase {
            ShowCheckPhase::Done(b) => ShowCheckStep::Decided(b),
            _ => ShowCheckStep::Ask(self.pending()->0),
        }
    }

    /// The decision the check reaches from here when every further question
    /// is answered as `answers` does.
    pub closed spec fn outcome(&self, answers: spec_fn(ShowQuery) -> bool) -> bool {
        let s = self.seasons@;
        let p = self.pattern;
        match self.phase {
            ShowCheckPhase::AwaitShow => show_request_fulfilled(answers, s, p),
            ShowCheckPhase::AwaitSeason(i) => seasons_ok_from(answers, s, p, i as int),
            ShowCheckPhase::AwaitDirect(i) => {
                &&& answers(ShowQuery::DirectEpisodes)
                &&& s[i as int] == 1
                &&& (p matches Some(q) ==> answers(ShowQuery::DirectEpisodesHaveResolution(q)))
                &&& seasons_ok_from(answers, s, p, i + 1)
            },
            ShowCheckPhase::AwaitDirectResolution(i) => {
                &&& answers(ShowQuery::DirectEpisodesHaveResolution(p->0))
                &&& seasons_ok_from(answers, s, p, i + 1)
            },
            ShowCheckPhase::AwaitAnyResolution => answers(ShowQuery::AnyEpisodeHasResolution(p->0)),
            ShowCheckPhase::Done(b) => b,
        }
    }

    /// A check that has decided has reached its outcome: the decision is what
    /// it leads to, whatever the answers would be.
    pub proof fn lemma_decided_is_outcome(&self, b: bool, answers: spec_fn(ShowQuery) -> bool)
        requires
            self.step_spec() == ShowCheckStep::Decided(b),
        ensures
            self.outcome(answers) == b,
            self.pending() is None,
    {
    }

    /// A number that each answer lowers; it bounds the questions left.
    pub closed spec fn remaining(&self) -> nat {
        let len = self.seasons@.len();
        match self.phase {
            ShowCheckPhase::AwaitShow => 3 * len + 3,
            ShowCheckPhase::AwaitSeason(i) => (3 * (len - i) + 2) as nat,
            ShowCheckPhase::AwaitDirect(i) => (3 * (len - i) + 1) as nat,
            ShowCheckPhase::AwaitDirectResolution(i) => (3 * (len - i)) as nat,
            ShowCheckPhase::AwaitAnyResolution => 1,
            ShowCheckPhase::Done(_) => 0,
        }
    }

    /// Starts the check of a show request. The first question is always
    /// whether the show exists.
    pub fn new(
        guid: &str,
        requested_seasons: Option<&[i32]>,
        requested_resolution: Option<&str>,
        is_upgrade: bool,
    ) -> (c: Self)
        ensures
            c.guid_spec() == lookup_guid(guid@),
            c.seasons_spec() == match requested_seasons {
                Some(s) => s@,
                None => Seq::<i32>::empty(),
            },
            c.pattern_spec() == if is_upgrade && requested_resolution is Some {
                Some(pattern_spec(requested_resolution->0@))
            } else {
                None
            },
            c.phase_spec() == ShowCheckPhase::AwaitShow,
            c.step_spec() == ShowCheckStep::Ask(ShowQuery::ShowExists),
            forall|answers: spec_fn(ShowQuery) -> bool|
                #[trigger] c.outcome(answers) == show_request_fulfilled(
                    answers,
                    c.seasons_spec(),
                    c.pattern_spec(),
                ),
    {
        let mut seasons: Vec<i32> = Vec::new();
        match requested_seasons {
            Some(s) => {
                let mut i: usize = 0;
                while i < s.len()
                    invariant
                        i <= s@.len(),
                        seasons@ == s@.take(i as int),
                    decreases s.len() - i,
                {
                    seasons.push(s[i]);
                    i = i + 1;
                    assert(seasons@ =~= s@.take(i as int));
                }
                assert(s@.take(s@.len() as int) =~= s@);
            },
            None => {},
        }
        let pattern = if is_upgrade {
            match requested_resolution {
                Some(res) => Some(resolution_pattern_kind(res)),
                None => None,
            }
        } else {
            None
        };
        let c = ShowFulfillmentCheck {
            guid: guid_for_item_lookup(guid),
            seasons,
            pattern,
            phase: ShowCheckPhase::AwaitShow,
        };
        assert(seasons@ == match requested_seasons {
            Some(s) => s@,
            None => Seq::<i32>::empty(),
        });
        c
    }

    /// The step the check is at: the question to answer next, or the
    /// decision.
    pub fn step(&self) -> (s: ShowCheckStep)
        ensures
            s == self.step_spec(),
            s is Ask <==> self.pending() is Some,
    {
        proof {
            use_type_invariant(self);
        }
        match self.phase {
            ShowCheckPhase::AwaitShow => ShowCheckStep::Ask(ShowQuery::ShowExists),
            ShowCheckPhase::AwaitSeason(i) => ShowCheckStep::Ask(
                match self.pattern {
                    Some(p) => ShowQuery::SeasonHasResolution(self.seasons[i], p),
                    None => ShowQuery::SeasonExists(self.seasons[i]),
                },
            ),
            ShowCheckPhase::AwaitDirect(_) => ShowCheckStep::Ask(ShowQuery::DirectEpisodes),
            ShowCheckPhase::AwaitDirectResolution(_) => {
                let p = self.pattern.unwrap();
                ShowCheckStep::Ask(ShowQuery::DirectEpisodesHaveResolution(p))
            },
            ShowCheckPhase::AwaitAnyResolution => {
                let p = self.pattern.unwrap();
                ShowCheckStep::Ask(ShowQuery::AnyEpisodeHasResolution(p))
            },
            ShowCheckPhase::Done(b) => ShowCheckStep::Decided(b),
        }
    }

    /// The phase that checking the seasons from position `i` on begins with.
    fn seasons_from(&self, i: usize) -> (ph: ShowCheckPhase)
        requires
            i <= self.seasons@.len(),
        ensures
            i < self.seasons@.len() ==> ph == ShowCheckPhase::AwaitSeason(i),
            i == self.seasons@.len() ==> ph == ShowCheckPhase::Done(true),
    {
        if i < self.seasons.len() {
            ShowCheckPhase::AwaitSeason(i)
        } else {
            ShowCheckPhase::Done(true)
        }
    }

    /// Hands the check the answer to the question it waits on, and returns
    /// the next step. Whatever the catalog is, an answer it gives leaves the
    /// outcome it leads to unchanged, and the check comes closer to a
    /// decision.
    pub fn answer(&mut self, result: bool) -> (s: ShowCheckStep)
        requires
            old(self).pending() is Some,
        ensures
            final(self).guid_spec() == old(self).guid_spec(),
            final(self).seasons_spec() == old(self).seasons_spec(),
            final(self).pattern_spec() == old(self).pattern_spec(),
            final(self).remaining() < old(self).remaining(),
            s == final(self).step_spec(),
            s is Ask <==> final(self).pending() is Some,
            forall|answers: spec_fn(ShowQuery) -> bool|
                answers(old(self).pending()->0) == result ==> #[trigger] final(self).outcome(
                    answers,
                ) == old(self).outcome(answers),
    {
        proof {
            use_type_invariant(&*self);
        }
        let ghost old_self = *self;
        let len = self.seasons.len();
        let next = match self.phase {
            ShowCheckPhase::AwaitShow => {
                if !result {
                    ShowCheckPhase::Done(false)
                } else if self.seasons.len() == 0 {
                    match self.pattern {
                        Some(_) => ShowCheckPhase::AwaitAnyResolution,
                        None => ShowCheckPhase::Done(true),
                    }
                } else {
                    ShowCheckPhase::AwaitSeason(0)
                }
            },
            ShowCheckPhase::AwaitSeason(i) => {
                assert(i < len);
                if result {
                    self.seasons_from(i + 1)
                } else {
                    ShowCheckPhase::AwaitDirect(i)
                }
            },
            ShowCheckPhase::AwaitDirect(i) => {
                assert(i < len);
                if result && self.seasons[i] == 1 {
                    match self.pattern {
                        Some(_) => ShowCheckPhase::AwaitDirectResolution(i),
                        None => self.seasons_from(i + 1),
                    }
                } else {
                    ShowCheckPhase::Done(false)
                }
            },
            ShowCheckPhase::AwaitDirectResolution(i) => {
                assert(i < len);
                if result {
                    self.seasons_from(i + 1)
                } else {
                    ShowCheckPhase::Done(false)
                }
            },
            ShowCheckPhase::AwaitAnyResolution => ShowCheckPhase::Done(result),
            ShowCheckPhase::Done(b) => ShowCheckPhase::Done(b),
        };
        self.phase = next;
        proof {
            let s = self.seasons@;
            let p = self.pattern;
            assert forall|answers: spec_fn(ShowQuery) -> bool|
                answers(old_self.pending()->0) == result implies #[trigger] self.outcome(answers)
                == old_self.outcome(answers) by {
                match old_self.phase {
                    ShowCheckPhase::AwaitSeason(i) => {
                        if !result {
                            assert(!season_ok(answers, s[i as int], p) ==> !seasons_ok_from(
                                answers,
                                s,
                                p,
                                i as int,
                            ));
                        }
                        assert(seasons_ok_from(answers, s, p, i as int) == (season_ok(
                            answers,
                            s[i as int],
                            p,
                        ) && seasons_ok_from(answers, s, p, i + 1)));
                    },
                    _ => {},
                }
            }
        }
        self.step()
    }
}

/// A show request is never fulfilled while the show is missing.
pub proof fn law_show_request_needs_show(
    answers: spec_fn(ShowQuery) -> bool,
    seasons: Seq<i32>,
    pattern: Option<ResolutionPattern>,
)
    ensures
        show_request_fulfilled(answers, seasons, pattern) ==> answers(ShowQuery::ShowExists),
{
}

/// An upgrade of a whole show to a resolution is fulfilled exactly when the
/// show exists and some episode of it has a part in that resolution.
pub proof fn law_whole_show_upgrade_needs_episode(
    answers: spec_fn(ShowQuery) -> bool,
    p: ResolutionPattern,
)
    ensures
        show_request_fulfilled(answers, Seq::<i32>::empty(), Some(p)) == (answers(
            ShowQuery::ShowExists,
        ) && answers(ShowQuery::AnyEpisodeHasResolution(p))),
{
}

/// A request for new media (no resolution to check) is decided by whether
/// the show and its seasons exist: two catalogs that agree on those
/// questions decide it alike, whatever they say of resolutions.
pub proof fn law_new_show_request_ignores_resolution(
    a: spec_fn(ShowQuery) -> bool,
    b: spec_fn(ShowQuery) -> bool,
    seasons: Seq<i32>,
)
    requires
        a(ShowQuery::ShowExists) == b(ShowQuery::ShowExists),
        a(ShowQuery::DirectEpisodes) == b(ShowQuery::DirectEpisodes),
        forall|n: i32| a(ShowQuery::SeasonExists(n)) == b(ShowQuery::SeasonExists(n)),
    ensures
        show_request_fulfilled(a, seasons, None) == show_request_fulfilled(b, seasons, None),
{
    assert forall|j: int| 0 <= j < seasons.len() implies season_ok(a, #[trigger] seasons[j], None)
        == season_ok(b, seasons[j], None) by {
        assert(a(ShowQuery::SeasonExists(seasons[j])) == b(ShowQuery::SeasonExists(seasons[j])));
    }
}

/// Every requested season must be present for a show request to be
/// fulfilled: a season that is neither listed in the resolution asked for
/// nor the direct episodes of a show without seasons makes it unfulfilled.
pub proof fn law_missing_season_unfulfilled(
    answers: spec_fn(ShowQuery) -> bool,
    seasons: Seq<i32>,
    pattern: Option<ResolutionPattern>,
    j: int,
)
    requires
        0 <= j < seasons.len(),
        !answers(season_query(seasons[j], pattern)),
        !answers(ShowQuery::DirectEpisodes) || seasons[j] != 1,
    ensures
        !show_request_fulfilled(answers, seasons, pattern),
{
    assert(!season_ok(answers, seasons[j], pattern));
}

/// A show request whose show exists is fulfilled once each requested season
/// is present in the requested resolution (or at all, for new media), or,
/// for season 1, the show holds its episodes directly in that resolution.
pub proof fn law_present_seasons_fulfill(
    answers: spec_fn(ShowQuery) -> bool,
    seasons: Seq<i32>,
    pattern: Option<ResolutionPattern>,
)
    requires
        answers(ShowQuery::ShowExists),
        seasons.len() > 0,
        forall|j: int|
            0 <= j < seasons.len() ==> answers(season_query(#[trigger] seasons[j], pattern)) || (
            seasons[j] == 1 && answers(ShowQuery::DirectEpisodes) && match pattern {
                Some(p) => answers(ShowQuery::DirectEpisodesHaveResolution(p)),
                None => true,
            }),
    ensures
        show_request_fulfilled(answers, seasons, pattern),
{
}

/// A request for new media asks, for each season, whether the season exists;
/// an upgrade asks whether the season has an episode in the resolution.
pub proof fn law_season_question(n: i32, pattern: Option<ResolutionPattern>)
    ensures
        pattern is None ==> season_query(n, pattern) == ShowQuery::SeasonExists(n),
        pattern matches Some(p) ==> season_query(n, pattern) == ShowQuery::SeasonHasResolution(n, p),
{
}

impl ShowFulfillmentCheck {
    /// A check of a whole-show upgrade that has not asked anything yet leads
    /// to fulfilled exactly when the show exists and some episode has the
    /// resolution.
    pub proof fn law_whole_show_upgrade_outcome(&self, answers: spec_fn(ShowQuery) -> bool)
        requires
            self.phase_spec() == ShowCheckPhase::AwaitShow,
            self.seasons_spec().len() == 0,
            self.pattern_spec() is Some,
        ensures
            self.outcome(answers) == (answers(ShowQuery::ShowExists) && answers(
                ShowQuery::AnyEpisodeHasResolution(self.pattern_spec()->0),
            )),
    {
    }
}

} // verus!
