//! The decisions of the catalog sync: which libraries and items are synced,
//! how extras become items, when details are fetched, how a failed batch
//! write is retried, and how progress is reported.
use vstd::prelude::*;
use crate::db::ItemWithContext;
use crate::models::{Item, PlexExtra};
use crate::text::{
    clone_opt_string, decimal, opt_view, owned, push_decimal, split_char, split_on_char, str_eq,
};

verus! {

/// Minutes between two sync runs.
pub const SYNC_INTERVAL_MINUTES: u64 = 90;

/// Seconds between two sync runs.
pub fn sync_interval_secs() -> (r: u64)
    ensures
        r == 60 * SYNC_INTERVAL_MINUTES,
{
    60 * SYNC_INTERVAL_MINUTES
}

/// Whether a library of this type is synced: movies and shows only.
pub open spec fn supported_library_type(t: Seq<char>) -> bool {
    t == "movie"@ || t == "show"@
}

/// Whether a library of this type is synced.
pub fn is_supported_library_type(library_type: &str) -> (r: bool)
    ensures
        r == supported_library_type(library_type@),
{
    str_eq(library_type, "movie") || str_eq(library_type, "show")
}

/// Whether an item is scanned again: always when Plex gives no update time
/// or the catalog has none for it, else when Plex's is newer.
pub open spec fn force_scan_spec(updated_at: Option<i64>, known: Option<i64>) -> bool {
    match (updated_at, known) {
        (Some(ts), Some(old)) => ts > old,
        _ => true,
    }
}

/// Whether an item is scanned again, given Plex's update time and the one
/// the catalog holds.
pub fn needs_force_scan(updated_at: Option<i64>, known: Option<i64>) -> (r: bool)
    ensures
        r == force_scan_spec(updated_at, known),
{
    match updated_at {
        Some(ts) => match known {
            Some(old) => ts > old,
            None => true,
        },
        None => true,
    }
}

/// How far a library sync has come, in percent: the finished tasks over all
/// tasks created, rounded down; 100 when no task was created.
pub open spec fn progress_percent_spec(total: u64, pending: u64) -> int {
    let completed = if total > pending {
        total - pending
    } else {
        0
    };
    if total > 0 {
        (completed * 100) / (total as int)
    } else {
        100
    }
}

/// How far a library sync has come, in percent.
pub fn progress_percent(total: u64, pending: u64) -> (r: u64)
    requires
        (if total > pending {
            total - pending
        } else {
            0
        }) * 100 <= u64::MAX,
    ensures
        r == progress_percent_spec(total, pending),
{
    let completed = total.saturating_sub(pending);
    if total > 0 {
        (completed * 100) / total
    } else {
        100
    }
}

/// The progress never exceeds one hundred percent.
pub proof fn law_progress_at_most_100(total: u64, pending: u64)
    ensures
        0 <= progress_percent_spec(total, pending) <= 100,
{
    if total > 0 {
        let completed: int = if total > pending {
            total - pending
        } else {
            0
        };
        assert(0 <= completed <= total);
        assert((completed * 100) / (total as int) <= 100) by (nonlinear_arith)
            requires
                0 <= completed <= total,
                total > 0,
        ;
        assert((completed * 100) / (total as int) >= 0) by (nonlinear_arith)
            requires
                0 <= completed,
                total > 0,
        ;
    }
}

/// What the sync does with an item after writing it, by its type.
#[derive(Debug, Clone, Copy, PartialEq, Eq, Structural)]
pub enum SyncRoute {
    /// Fetch its seasons and episodes, with their extras.
    Show,
    /// Fetch its extras.
    Season,
    /// Fetch its extras and its media parts.
    Playable,
    /// Nothing more.
    Other,
}

/// What the sync does with an item of the given type.
pub open spec fn route_of(item_type: Seq<char>) -> SyncRoute {
    if item_type == "show"@ {
        SyncRoute::Show
    } else if item_type == "season"@ {
        SyncRoute::Season
    } else if item_type == "movie"@ || item_type == "episode"@ {
        SyncRoute::Playable
    } else {
        SyncRoute::Other
    }
}

/// What the sync does with an item of the given type.
pub fn sync_route(item_type: &str) -> (r: SyncRoute)
    ensures
        r == route_of(item_type@),
{
    if str_eq(item_type, "show") {
        SyncRoute::Show
    } else if str_eq(item_type, "season") {
        SyncRoute::Season
    } else if str_eq(item_type, "movie") || str_eq(item_type, "episode") {
        SyncRoute::Playable
    } else {
        SyncRoute::Other
    }
}

/// How a pending request is checked, by the type of what was requested.
#[derive(Debug, Clone, Copy, PartialEq, Eq, Structural)]
pub enum RequestCheck {
    Movie,
    Show,
    /// Never fulfilled.
    Unsupported,
}

/// How a pending request for an item of the given type is checked.
pub fn request_check(item_type: &str) -> (r: RequestCheck)
    ensures
        r == (if item_type@ == "movie"@ {
            RequestCheck::Movie
        } else if item_type@ == "show"@ {
            RequestCheck::Show
        } else {
            RequestCheck::Unsupported
        }),
{
    if str_eq(item_type, "movie") {
        RequestCheck::Movie
    } else if str_eq(item_type, "show") {
        RequestCheck::Show
    } else {
        RequestCheck::Unsupported
    }
}

/// What a sync worker does after asking its queue for a task.
#[derive(Debug, Clone, Copy, PartialEq, Eq, Structural)]
pub enum WorkerDecision {
    /// Handle the task received.
    Process,
    /// Wait a moment and ask again.
    Wait,
    /// Stop the worker.
    Stop,
}

/// What a worker does: `received` is `Some(true)` for a shutdown task,
/// `Some(false)` for another task and `None` when the queue gave nothing; a
/// worker that got nothing stops once no work is pending.
pub fn worker_decision(received: Option<bool>, pending: u64) -> (r: WorkerDecision)
    ensures
        r == match received {
            Some(true) => WorkerDecision::Stop,
            Some(false) => WorkerDecision::Process,
            None => if pending == 0 {
                WorkerDecision::Stop
            } else {
                WorkerDecision::Wait
            },
        },
{
    match received {
        Some(true) => WorkerDecision::Stop,
        Some(false) => WorkerDecision::Process,
        None => if pending == 0 {
            WorkerDecision::Stop
        } else {
            WorkerDecision::Wait
        },
    }
}

// ---------------------------------------------------------------------------
// Retrying a batch write
// ---------------------------------------------------------------------------

/// The number of times a batch write is tried.
pub const MAX_FLUSH_ATTEMPTS: u32 = 3;

/// Two to the power `n`.
pub open spec fn pow2(n: nat) -> nat
    decreases n,
{
    if n == 0 {
        1
    } else {
        2 * pow2((n - 1) as nat)
    }
}

/// What to do after one try of a batch write.
#[derive(Debug, Clone, Copy, PartialEq, Eq, Structural)]
pub enum FlushAction {
    /// The batch is written.
    Done,
    /// Wait this many seconds, then try again.
    RetryAfter(u64),
    /// Stop and report the failure.
    GiveUp,
}

/// The action after a try that failed, when `failures` tries have failed.
pub open spec fn after_failure(failures: nat) -> FlushAction {
    if failures >= MAX_FLUSH_ATTEMPTS {
        FlushAction::GiveUp
    } else {
        FlushAction::RetryAfter(pow2(failures) as u64)
    }
}

/// The retries of one batch write.
pub struct FlushRetry {
    failures: u32,
}

impl FlushRetry {
    /// The number of tries that failed so far.
    pub closed spec fn failures(&self) -> nat {
        self.failures as nat
    }

    /// No try made yet.
    pub fn new() -> (r: Self)
        ensures
            r.failures() == 0,
    {
        FlushRetry { failures: 0 }
    }

    /// Whether another try is due.
    pub fn may_try(&self) -> (r: bool)
        ensures
            r == (self.failures() < MAX_FLUSH_ATTEMPTS),
    {
        self.failures < MAX_FLUSH_ATTEMPTS
    }

    /// Records the outcome of a try and says what comes next: a failed try
    /// waits two, then four seconds, and the third failure gives up.
    pub fn on_result(&mut self, succeeded: bool) -> (r: FlushAction)
        requires
            old(self).failures() < MAX_FLUSH_ATTEMPTS,
        ensures
            succeeded ==> r == FlushAction::Done && final(self).failures() == old(self).failures(),
            !succeeded ==> final(self).failures() == old(self).failures() + 1 && r == after_failure(
                final(self).failures(),
            ),
    {
        if succeeded {
            return FlushAction::Done;
        }
        self.failures = self.failures + 1;
        if self.failures >= MAX_FLUSH_ATTEMPTS {
            FlushAction::GiveUp
        } else {
            let mut wait: u64 = 1;
            let mut i: u32 = 0;
            proof {
                reveal_with_fuel(pow2, 3);
            }
            assert(pow2(0) == 1 && pow2(1) == 2);
            while i < self.failures
                invariant
                    i <= self.failures < MAX_FLUSH_ATTEMPTS,
                    wait == pow2(i as nat),
                    pow2(0) == 1 && pow2(1) == 2,
                decreases self.failures - i,
            {
                wait = wait * 2;
                i = i + 1;
            }
            FlushAction::RetryAfter(wait)
        }
    }
}

/// A batch write is tried at most three times, and each wait before a new
/// try is twice the one before.
pub proof fn law_flush_retries_bounded(failures: nat)
    ensures
        failures >= MAX_FLUSH_ATTEMPTS ==> after_failure(failures) == FlushAction::GiveUp,
        1 <= failures < MAX_FLUSH_ATTEMPTS ==> after_failure(failures) == FlushAction::RetryAfter(
            (2 * pow2((failures - 1) as nat)) as u64,
        ),
{
}

// ---------------------------------------------------------------------------
// Items
// ---------------------------------------------------------------------------

/// The last non-empty piece, if any.
pub open spec fn last_nonempty(pieces: Seq<Seq<char>>) -> Option<Seq<char>>
    decreases pieces.len(),
{
    if pieces.len() == 0 {
        None
    } else if pieces.last().len() > 0 {
        Some(pieces.last())
    } else {
        last_nonempty(pieces.drop_last())
    }
}

/// The rating key of the extra at position `idx` of a parent: its own, else
/// the last non-empty segment of its key, else one made of the server, the
/// parent and the position.
pub open spec fn extra_rating_key(
    extra: PlexExtra,
    server_id: Seq<char>,
    parent: Seq<char>,
    idx: nat,
) -> Seq<char> {
    match extra.rating_key {
        Some(k) => k@,
        None => match last_nonempty(split_char(extra.key@, '/')) {
            Some(seg) => seg,
            None => "extra-"@ + server_id + "-"@ + parent + "-"@ + decimal(idx),
        },
    }
}

/// Whether `it` is the catalog item for an extra of a parent, with the
/// given rating key.
pub open spec fn is_extra_item(
    it: ItemWithContext,
    extra: PlexExtra,
    rating_key: Seq<char>,
    server_id: Seq<char>,
    parent: Seq<char>,
    library_id: Seq<char>,
) -> bool {
    &&& opt_view(it.item.guid) == Some("local-"@ + server_id + "-"@ + rating_key)
    &&& it.item.rating_key@ == rating_key
    &&& opt_view(it.item.parent_id) == Some(parent)
    &&& it.item.index is None
    &&& it.item.leaf_count is None
    &&& it.item.title@ == extra.title@
    &&& it.item.key@ == extra.key@
    &&& it.item.summary is None
    &&& it.item.item_type@ == "extra"@
    &&& it.item.year == 0
    &&& it.item.media@.len() == 0
    &&& it.item.thumb == extra.thumb
    &&& it.item.art is None
    &&& it.item.updated_at is None
    &&& it.item.content_rating is None
    &&& it.item.duration is None
    &&& it.item.originally_available_at is None
    &&& it.item.studio is None
    &&& it.item.extra_type == extra.extra_type
    &&& it.library_id@ == library_id
    &&& it.server_id@ == server_id
}

/// The rating key of an extra.
fn rating_key_for_extra(extra: &PlexExtra, server_id: &str, parent: &str, idx: usize) -> (r: String)
    ensures
        r@ == extra_rating_key(*extra, server_id@, parent@, idx as nat),
{
    match &extra.rating_key {
        Some(k) => k.clone(),
        None => {
            let pieces = split_on_char(extra.key.as_str(), '/');
            let ghost views = pieces@.map_values(|p: String| p@);
            let mut j = pieces.len();
            assert(views.take(j as int) =~= views);
            while j > 0 && pieces[j - 1].as_str().is_empty()
                invariant
                    j <= pieces.len(),
                    views == pieces@.map_values(|p: String| p@),
                    last_nonempty(views) == last_nonempty(views.take(j as int)),
                decreases j,
            {
                assert(views.take(j as int).drop_last() =~= views.take(j - 1));
                assert(views.take(j as int).last() == pieces@[j - 1]@);
                j = j - 1;
            }
            if j > 0 {
                assert(views.take(j as int).last() == pieces@[j - 1]@);
                pieces[j - 1].clone()
            } else {
                assert(views.take(0) =~= Seq::<Seq<char>>::empty());
                let mut r = owned("extra-");
                r.append(server_id);
                r.append("-");
                r.append(parent);
                r.append("-");
                push_decimal(&mut r, idx as u64);
                r
            }
        },
    }
}

/// The catalog items for the extras of a parent item, in order.
pub fn extras_to_items(
    extras: &Vec<PlexExtra>,
    server_id: &str,
    parent_rating_key: &str,
    library_id: &str,
) -> (r: Vec<ItemWithContext>)
    ensures
        r@.len() == extras@.len(),
        forall|i: int|
            0 <= i < extras@.len() ==> is_extra_item(
                #[trigger] r@[i],
                extras@[i],
                extra_rating_key(extras@[i], server_id@, parent_rating_key@, i as nat),
                server_id@,
                parent_rating_key@,
                library_id@,
            ),
{
    let mut out: Vec<ItemWithContext> = Vec::new();
    let mut i: usize = 0;
    while i < extras.len()
        invariant
            i <= extras.len(),
            out@.len() == i,
            forall|k: int|
                0 <= k < i ==> is_extra_item(
                    #[trigger] out@[k],
                    extras@[k],
                    extra_rating_key(extras@[k], server_id@, parent_rating_key@, k as nat),
                    server_id@,
                    parent_rating_key@,
                    library_id@,
                ),
        decreases extras.len() - i,
    {
        let e = &extras[i];
        let rating_key = rating_key_for_extra(e, server_id, parent_rating_key, i);
        let mut guid = owned("local-");
        guid.append(server_id);
        guid.append("-");
        guid.append(rating_key.as_str());
        let item = Item {
            guid: Some(guid),
            rating_key,
            parent_id: Some(owned(parent_rating_key)),
            index: None,
            leaf_count: None,
            title: e.title.clone(),
            key: e.key.clone(),
            summary: None,
            item_type: owned("extra"),
            year: 0,
            media: Vec::new(),
            thumb: clone_opt_string(&e.thumb),
            art: None,
            updated_at: None,
            content_rating: None,
            duration: None,
            originally_available_at: None,
            studio: None,
            extra_type: clone_opt_string(&e.extra_type),
        };
        out.push(ItemWithContext { item, library_id: owned(library_id), server_id: owned(server_id) });
        i = i + 1;
    }
    out
}

/// Whether Plex's listing of an item lacks its stream details, so that its
/// full metadata is fetched: it lists no media, or no part of any medium
/// lists a stream.
pub open spec fn lacks_stream_details(item: Item) -> bool {
    item.media@.len() == 0 || forall|m: int, p: int|
        0 <= m < item.media@.len() && 0 <= p < item.media@[m].parts@.len()
            ==> #[trigger] item.media@[m].parts@[p].streams@.len() == 0
}

/// Whether the full metadata of an item is fetched for its stream details.
pub fn needs_detail_fetch(item: &Item) -> (r: bool)
    ensures
        r == lacks_stream_details(*item),
{
    if item.media.len() == 0 {
        return true;
    }
    let mut m: usize = 0;
    while m < item.media.len()
        invariant
            m <= item.media.len(),
            forall|a: int, p: int|
                0 <= a < m && 0 <= p < item.media@[a].parts@.len()
                    ==> #[trigger] item.media@[a].parts@[p].streams@.len() == 0,
        decreases item.media.len() - m,
    {
        let parts = &item.media[m].parts;
        let mut p: usize = 0;
        while p < parts.len()
            invariant
                m < item.media.len(),
                *parts == item.media@[m as int].parts,
                p <= parts.len(),
                forall|a: int, q: int|
                    0 <= a < m && 0 <= q < item.media@[a].parts@.len()
                        ==> #[trigger] item.media@[a].parts@[q].streams@.len() == 0,
                forall|q: int| 0 <= q < p ==> #[trigger] parts@[q].streams@.len() == 0,
            decreases parts.len() - p,
        {
            if parts[p].streams.len() > 0 {
                return false;
            }
            p = p + 1;
        }
        m = m + 1;
    }
    true
}

/// A season listed under a show, with the show as its parent where Plex
/// names none.
pub fn with_default_parent(item: Item, parent: &str) -> (r: Item)
    ensures
        opt_view(r.parent_id) == match item.parent_id {
            Some(p) => Some(p@),
            None => Some(parent@),
        },
        r == (Item { parent_id: r.parent_id, ..item }),
{
    let mut item = item;
    if item.parent_id.is_none() {
        item.parent_id = Some(owned(parent));
    }
    item
}

/// A leaf listed under a show, with the show as its parent where it is an
/// episode for which Plex names none.
pub fn leaf_with_default_parent(item: Item, parent: &str) -> (r: Item)
    ensures
        opt_view(r.parent_id) == if item.item_type@ == "episode"@ && item.parent_id is None {
            Some(parent@)
        } else {
            opt_view(item.parent_id)
        },
        r == (Item { parent_id: r.parent_id, ..item }),
{
    let mut item = item;
    if str_eq(item.item_type.as_str(), "episode") && item.parent_id.is_none() {
        item.parent_id = Some(owned(parent));
    }
    item
}

// ---------------------------------------------------------------------------
// One sync run
// ---------------------------------------------------------------------------

/// Where a sync run stands: the step it waits on the outcome of.
#[derive(Debug, Clone, Copy, PartialEq, Eq, Structural)]
pub enum RunPhase {
    Start,
    MarkingInProgress,
    LoggingIn,
    ListingServers,
    SyncingServers,
    CheckingConnectivity,
    Pruning,
    DeletingStale,
    CheckingRequests,
    RecordingFinish,
    Done,
}

/// Why a sync run stopped early; each is recorded as the run's last error.
#[derive(Debug, Clone, Copy, PartialEq, Eq, Structural)]
pub enum RunAbort {
    /// The Plex login failed.
    LoginFailed,
    /// The server list could not be fetched.
    NoServerList,
    /// Plex was unreachable after the servers were synced: nothing is
    /// pruned, so that the catalog keeps its data.
    Unreachable,
}

/// What a sync run does next.
#[derive(Debug, Clone, Copy, PartialEq, Eq, Structural)]
pub enum RunStep {
    /// Record that a sync is in progress.
    MarkInProgress,
    /// Log in to Plex.
    LogIn,
    /// Fetch the account's servers.
    ListServers,
    /// Sync each server.
    SyncServers,
    /// Check that Plex is reachable.
    CheckConnectivity,
    /// Remove what this run did not see.
    Prune,
    /// Remove requests pending for more than 30 days.
    DeleteStaleRequests,
    /// Mark the pending requests that the catalog now fulfils.
    CheckPendingRequests,
    /// Record the time of the finished run.
    RecordFinished,
    /// Record why the run stopped, and stop.
    Abort(RunAbort),
    /// Nothing more.
    Finished,
}

/// The next phase and step of a run in `phase`, whose last step succeeded
/// or not. Only the login, the server list and the connectivity check stop
/// the run when they fail; the run goes on past any other failure.
pub open spec fn run_next(phase: RunPhase, ok: bool) -> (RunPhase, RunStep) {
    match phase {
        RunPhase::Start => (RunPhase::MarkingInProgress, RunStep::MarkInProgress),
        RunPhase::MarkingInProgress => (RunPhase::LoggingIn, RunStep::LogIn),
        RunPhase::LoggingIn => if ok {
            (RunPhase::ListingServers, RunStep::ListServers)
        } else {
            (RunPhase::Done, RunStep::Abort(RunAbort::LoginFailed))
        },
        RunPhase::ListingServers => if ok {
            (RunPhase::SyncingServers, RunStep::SyncServers)
        } else {
            (RunPhase::Done, RunStep::Abort(RunAbort::NoServerList))
        },
        RunPhase::SyncingServers => (RunPhase::CheckingConnectivity, RunStep::CheckConnectivity),
        RunPhase::CheckingConnectivity => if ok {
            (RunPhase::Pruning, RunStep::Prune)
        } else {
            (RunPhase::Done, RunStep::Abort(RunAbort::Unreachable))
        },
        RunPhase::Pruning => (RunPhase::DeletingStale, RunStep::DeleteStaleRequests),
        RunPhase::DeletingStale => (RunPhase::CheckingRequests, RunStep::CheckPendingRequests),
        RunPhase::CheckingRequests => (RunPhase::RecordingFinish, RunStep::RecordFinished),
        RunPhase::RecordingFinish => (RunPhase::Done, RunStep::Finished),
        RunPhase::Done => (RunPhase::Done, RunStep::Finished),
    }
}

/// How many steps a run in `phase` has left at most.
pub open spec fn run_steps_left(phase: RunPhase) -> nat {
    match phase {
        RunPhase::Start => 10,
        RunPhase::MarkingInProgress => 9,
        RunPhase::LoggingIn => 8,
        RunPhase::ListingServers => 7,
        RunPhase::SyncingServers => 6,
        RunPhase::CheckingConnectivity => 5,
        RunPhase::Pruning => 4,
        RunPhase::DeletingStale => 3,
        RunPhase::CheckingRequests => 2,
        RunPhase::RecordingFinish => 1,
        RunPhase::Done => 0,
    }
}

/// A sync run, step by step.
pub struct SyncRun {
    phase: RunPhase,
}

impl SyncRun {
    /// The phase of the run.
    pub closed spec fn phase(&self) -> RunPhase {
        self.phase
    }

    /// A run not yet started.
    pub fn new() -> (r: Self)
        ensures
            r.phase() == RunPhase::Start,
    {
        SyncRun { phase: RunPhase::Start }
    }

    /// Whether the run has ended.
    pub fn is_done(&self) -> (r: bool)
        ensures
            r == (self.phase() == RunPhase::Done),
    {
        match self.phase {
            RunPhase::Done => true,
            _ => false,
        }
    }

    /// Records whether the last step succeeded (ignored at the start) and
    /// says what comes next.
    pub fn advance(&mut self, ok: bool) -> (r: RunStep)
        ensures
            (final(self).phase(), r) == run_next(old(self).phase(), ok),
    {
        let (phase, step) = match self.phase {
            RunPhase::Start => (RunPhase::MarkingInProgress, RunStep::MarkInProgress),
            RunPhase::MarkingInProgress => (RunPhase::LoggingIn, RunStep::LogIn),
            RunPhase::LoggingIn => if ok {
                (RunPhase::ListingServers, RunStep::ListServers)
            } else {
                (RunPhase::Done, RunStep::Abort(RunAbort::LoginFailed))
            },
            RunPhase::ListingServers => if ok {
                (RunPhase::SyncingServers, RunStep::SyncServers)
            } else {
                (RunPhase::Done, RunStep::Abort(RunAbort::NoServerList))
            },
            RunPhase::SyncingServers => (RunPhase::CheckingConnectivity, RunStep::CheckConnectivity),
            RunPhase::CheckingConnectivity => if ok {
                (RunPhase::Pruning, RunStep::Prune)
            } else {
                (RunPhase::Done, RunStep::Abort(RunAbort::Unreachable))
            },
            RunPhase::Pruning => (RunPhase::DeletingStale, RunStep::DeleteStaleRequests),
            RunPhase::DeletingStale => (RunPhase::CheckingRequests, RunStep::CheckPendingRequests),
            RunPhase::CheckingRequests => (RunPhase::RecordingFinish, RunStep::RecordFinished),
            RunPhase::RecordingFinish => (RunPhase::Done, RunStep::Finished),
            RunPhase::Done => (RunPhase::Done, RunStep::Finished),
        };
        self.phase = phase;
        step
    }
}

/// Data is pruned only right after Plex answered the connectivity check,
/// and never after a failed login or server list.
pub proof fn law_prune_only_when_reachable(phase: RunPhase, ok: bool)
    ensures
        run_next(phase, ok).1 == RunStep::Prune ==> phase == RunPhase::CheckingConnectivity && ok,
        phase == RunPhase::CheckingConnectivity && !ok ==> run_next(phase, ok) == (
            RunPhase::Done,
            RunStep::Abort(RunAbort::Unreachable),
        ),
{
}

/// Every step brings a run closer to its end, and an ended run stays ended:
/// a run takes at most ten steps.
pub proof fn law_run_ends(phase: RunPhase, ok: bool)
    ensures
        phase != RunPhase::Done ==> run_steps_left(run_next(phase, ok).0) < run_steps_left(phase),
        phase == RunPhase::Done ==> run_next(phase, ok) == (RunPhase::Done, RunStep::Finished),
        run_steps_left(phase) <= 10,
{
}

// ---------------------------------------------------------------------------
// One discovered item
// ---------------------------------------------------------------------------

/// Where the sync of one discovered item stands: the step it waits on the
/// outcome of. A count is the number of children fetched for the step.
#[derive(Debug, Clone, Copy, PartialEq, Eq, Structural)]
pub enum ItemPhase {
    Start,
    Touching,
    WritingItem,
    FetchingSeasons,
    WritingSeasons(u64),
    SyncingSeasonExtras(u64),
    FetchingEpisodes,
    WritingEpisodes(u64),
    SyncingEpisodeExtras,
    QueueingEpisodeDetails,
    SyncingExtras,
    WritingParts,
    QueueingDetails,
    Done,
}

/// The outcome of the last step of an item's sync.
#[derive(Debug, Clone, Copy, PartialEq, Eq, Structural)]
pub enum StepOutcome {
    Succeeded,
    Failed,
    /// A fetch returned this many items.
    Fetched(u64),
}

/// What the sync of an item does next.
#[derive(Debug, Clone, Copy, PartialEq, Eq, Structural)]
pub enum ItemAction {
    /// Buffer the unchanged item and mark it as seen.
    BufferAndTouch,
    /// Buffer the item and write the buffer.
    WriteItem,
    /// Fetch the show's seasons.
    FetchSeasons,
    /// Buffer the seasons, each with the show as its default parent, and
    /// write the buffer.
    WriteSeasons,
    /// Sync the extras of the show and of each season.
    SyncSeasonExtras,
    /// Fetch every episode of the show.
    FetchEpisodes,
    /// Buffer the episodes, each with the show as its default parent, and
    /// write the buffer.
    WriteEpisodes,
    /// Sync the extras of each episode.
    SyncEpisodeExtras,
    /// Queue a detail fetch for each episode that lacks stream details.
    QueueEpisodeDetails,
    /// Sync the item's extras.
    SyncExtras,
    /// Write the item's media parts and streams.
    WriteParts,
    /// Queue a detail fetch for the item.
    QueueDetails,
    /// Nothing more.
    Finish,
}

/// One step of an item's sync, with what it does to the counters of pending
/// and of created tasks when it is taken, before its action: the additions
/// count the tasks the action starts, the subtractions settle the ones that
/// are over.
#[derive(Debug, Clone, Copy, PartialEq, Eq, Structural)]
pub struct ItemStep {
    pub action: ItemAction,
    pub pending_add: u64,
    pub pending_sub: u64,
    pub total_add: u64,
    pub total_sub: u64,
}

/// A step with no change to the counters.
pub open spec fn plain(action: ItemAction) -> ItemStep {
    ItemStep { action, pending_add: 0, pending_sub: 0, total_add: 0, total_sub: 0 }
}

/// A step that finishes the sync, taking `sub` off the pending counter.
pub open spec fn finish(sub: u64) -> ItemStep {
    ItemStep { action: ItemAction::Finish, pending_add: 0, pending_sub: sub, total_add: 0, total_sub: 0 }
}

/// Whether a step succeeded.
pub open spec fn succeeded(o: StepOutcome) -> bool {
    o != StepOutcome::Failed
}

/// The next phase and step of the sync of an item that takes `route`, has
/// media where `has_media`, and is scanned in full where `force_scan`.
pub open spec fn item_next(
    phase: ItemPhase,
    o: StepOutcome,
    route: SyncRoute,
    has_media: bool,
    force_scan: bool,
) -> (ItemPhase, ItemStep) {
    match phase {
        ItemPhase::Start => if force_scan {
            (ItemPhase::WritingItem, plain(ItemAction::WriteItem))
        } else {
            (ItemPhase::Touching, plain(ItemAction::BufferAndTouch))
        },
        ItemPhase::Touching => (ItemPhase::Done, finish(1)),
        ItemPhase::WritingItem => if !succeeded(o) {
            (ItemPhase::Done, finish(1))
        } else {
            match route {
                SyncRoute::Show => (ItemPhase::FetchingSeasons, plain(ItemAction::FetchSeasons)),
                SyncRoute::Season => (ItemPhase::SyncingExtras, plain(ItemAction::SyncExtras)),
                SyncRoute::Playable => (ItemPhase::SyncingExtras, plain(ItemAction::SyncExtras)),
                SyncRoute::Other => (ItemPhase::Done, finish(1)),
            }
        },
        ItemPhase::FetchingSeasons => match o {
            StepOutcome::Fetched(n) => if n > 0 {
                (
                    ItemPhase::WritingSeasons(n),
                    ItemStep {
                        action: ItemAction::WriteSeasons,
                        pending_add: n,
                        pending_sub: 0,
                        total_add: n,
                        total_sub: 0,
                    },
                )
            } else {
                (ItemPhase::FetchingEpisodes, plain(ItemAction::FetchEpisodes))
            },
            _ => (ItemPhase::FetchingEpisodes, plain(ItemAction::FetchEpisodes)),
        },
        ItemPhase::WritingSeasons(n) => if succeeded(o) {
            (ItemPhase::SyncingSeasonExtras(n), plain(ItemAction::SyncSeasonExtras))
        } else {
            (ItemPhase::Done, finish(if n < u64::MAX {
                (n + 1) as u64
            } else {
                n
            }))
        },
        ItemPhase::SyncingSeasonExtras(n) => (
            ItemPhase::FetchingEpisodes,
            ItemStep {
                action: ItemAction::FetchEpisodes,
                pending_add: 0,
                pending_sub: n,
                total_add: 0,
                total_sub: 0,
            },
        ),
        ItemPhase::FetchingEpisodes => match o {
            StepOutcome::Fetched(m) => if m > 0 {
                (
                    ItemPhase::WritingEpisodes(m),
                    ItemStep {
                        action: ItemAction::WriteEpisodes,
                        pending_add: m,
                        pending_sub: 0,
                        total_add: m,
                        total_sub: 0,
                    },
                )
            } else {
                (ItemPhase::Done, finish(1))
            },
            _ => (ItemPhase::Done, finish(1)),
        },
        ItemPhase::WritingEpisodes(m) => if succeeded(o) {
            (
                ItemPhase::SyncingEpisodeExtras,
                ItemStep {
                    action: ItemAction::SyncEpisodeExtras,
                    pending_add: 0,
                    pending_sub: m,
                    total_add: 0,
                    total_sub: 0,
                },
            )
        } else {
            (
                ItemPhase::QueueingEpisodeDetails,
                ItemStep {
                    action: ItemAction::QueueEpisodeDetails,
                    pending_add: 0,
                    pending_sub: m,
                    total_add: 0,
                    total_sub: 0,
                },
            )
        },
        ItemPhase::SyncingEpisodeExtras => (
            ItemPhase::QueueingEpisodeDetails,
            plain(ItemAction::QueueEpisodeDetails),
        ),
        ItemPhase::QueueingEpisodeDetails => (ItemPhase::Done, finish(1)),
        ItemPhase::SyncingExtras => if route == SyncRoute::Playable {
            if has_media {
                (ItemPhase::WritingParts, plain(ItemAction::WriteParts))
            } else {
                (
                    ItemPhase::QueueingDetails,
                    ItemStep {
                        action: ItemAction::QueueDetails,
                        pending_add: 1,
                        pending_sub: 0,
                        total_add: 1,
                        total_sub: 0,
                    },
                )
            }
        } else {
            (ItemPhase::Done, finish(1))
        },
        ItemPhase::WritingParts => if succeeded(o) {
            (ItemPhase::Done, finish(1))
        } else {
            (
                ItemPhase::QueueingDetails,
                ItemStep {
                    action: ItemAction::QueueDetails,
                    pending_add: 1,
                    pending_sub: 0,
                    total_add: 1,
                    total_sub: 0,
                },
            )
        },
        ItemPhase::QueueingDetails => if succeeded(o) {
            (ItemPhase::Done, finish(1))
        } else {
            (
                ItemPhase::Done,
                ItemStep {
                    action: ItemAction::Finish,
                    pending_add: 0,
                    pending_sub: 2,
                    total_add: 0,
                    total_sub: 1,
                },
            )
        },
        ItemPhase::Done => (ItemPhase::Done, plain(ItemAction::Finish)),
    }
}

/// The pending tasks an item's sync has counted and not yet taken back in
/// `phase`, its own task included.
pub open spec fn outstanding(phase: ItemPhase) -> int {
    match phase {
        ItemPhase::WritingSeasons(n) => n + 1,
        ItemPhase::SyncingSeasonExtras(n) => n + 1,
        ItemPhase::WritingEpisodes(m) => m + 1,
        ItemPhase::QueueingDetails => 2,
        ItemPhase::Done => 0,
        _ => 1,
    }
}

/// How many steps the sync of an item has left at most in `phase`.
pub open spec fn item_steps_left(phase: ItemPhase) -> nat {
    match phase {
        ItemPhase::Start => 12,
        ItemPhase::WritingItem => 11,
        ItemPhase::FetchingSeasons => 10,
        ItemPhase::WritingSeasons(_) => 9,
        ItemPhase::SyncingSeasonExtras(_) => 8,
        ItemPhase::FetchingEpisodes => 7,
        ItemPhase::WritingEpisodes(_) => 6,
        ItemPhase::SyncingEpisodeExtras => 5,
        ItemPhase::QueueingEpisodeDetails => 4,
        ItemPhase::SyncingExtras => 3,
        ItemPhase::WritingParts => 2,
        ItemPhase::QueueingDetails => 1,
        ItemPhase::Touching => 1,
        ItemPhase::Done => 0,
    }
}

/// The sync of one discovered item, step by step.
pub struct ItemSync {
    phase: ItemPhase,
    route: SyncRoute,
    has_media: bool,
    force_scan: bool,
}

impl ItemSync {
    /// The phase of the sync.
    pub closed spec fn phase(&self) -> ItemPhase {
        self.phase
    }

    /// The route of the item.
    pub closed spec fn route(&self) -> SyncRoute {
        self.route
    }

    /// Whether the item lists media.
    pub closed spec fn has_media(&self) -> bool {
        self.has_media
    }

    /// Whether the item is scanned in full.
    pub closed spec fn force_scan(&self) -> bool {
        self.force_scan
    }

    /// The sync of an item of the given type, listing media or not.
    pub fn new(item_type: &str, has_media: bool, force_scan: bool) -> (r: Self)
        ensures
            r.phase() == ItemPhase::Start,
            r.route() == route_of(item_type@),
            r.has_media() == has_media,
            r.force_scan() == force_scan,
    {
        ItemSync { phase: ItemPhase::Start, route: sync_route(item_type), has_media, force_scan }
    }

    /// Whether the sync has ended.
    pub fn is_done(&self) -> (r: bool)
        ensures
            r == (self.phase() == ItemPhase::Done),
    {
        match self.phase {
            ItemPhase::Done => true,
            _ => false,
        }
    }

    /// Records the outcome of the last step (ignored at the start) and says
    /// what comes next.
    pub fn advance(&mut self, o: StepOutcome) -> (r: ItemStep)
        ensures
            (final(self).phase(), r) == item_next(
                old(self).phase(),
                o,
                old(self).route(),
                old(self).has_media(),
                old(self).force_scan(),
            ),
            final(self).route() == old(self).route(),
            final(self).has_media() == old(self).has_media(),
            final(self).force_scan() == old(self).force_scan(),
    {
        let ok = match o {
            StepOutcome::Failed => false,
            _ => true,
        };
        let none = ItemStep { action: ItemAction::Finish, pending_add: 0, pending_sub: 0, total_add: 0, total_sub: 0 };
        let done1 = ItemStep { action: ItemAction::Finish, pending_add: 0, pending_sub: 1, total_add: 0, total_sub: 0 };
        let (phase, step) = match self.phase {
            ItemPhase::Start => if self.force_scan {
                (ItemPhase::WritingItem, ItemStep { action: ItemAction::WriteItem, ..none })
            } else {
                (ItemPhase::Touching, ItemStep { action: ItemAction::BufferAndTouch, ..none })
            },
            ItemPhase::Touching => (ItemPhase::Done, done1),
            ItemPhase::WritingItem => if !ok {
                (ItemPhase::Done, done1)
            } else {
                match self.route {
                    SyncRoute::Show => (
                        ItemPhase::FetchingSeasons,
                        ItemStep { action: ItemAction::FetchSeasons, ..none },
                    ),
                    SyncRoute::Season => (
                        ItemPhase::SyncingExtras,
                        ItemStep { action: ItemAction::SyncExtras, ..none },
                    ),
                    SyncRoute::Playable => (
                        ItemPhase::SyncingExtras,
                        ItemStep { action: ItemAction::SyncExtras, ..none },
                    ),
                    SyncRoute::Other => (ItemPhase::Done, done1),
                }
            },
            ItemPhase::FetchingSeasons => match o {
                StepOutcome::Fetched(n) => if n > 0 {
                    (
                        ItemPhase::WritingSeasons(n),
                        ItemStep { action: ItemAction::WriteSeasons, pending_add: n, total_add: n, ..none },
                    )
                } else {
                    (ItemPhase::FetchingEpisodes, ItemStep { action: ItemAction::FetchEpisodes, ..none })
                },
                _ => (ItemPhase::FetchingEpisodes, ItemStep { action: ItemAction::FetchEpisodes, ..none }),
            },
            ItemPhase::WritingSeasons(n) => if ok {
                (ItemPhase::SyncingSeasonExtras(n), ItemStep { action: ItemAction::SyncSeasonExtras, ..none })
            } else {
                (ItemPhase::Done, ItemStep { pending_sub: n.saturating_add(1), ..none })
            },
            ItemPhase::SyncingSeasonExtras(n) => (
                ItemPhase::FetchingEpisodes,
                ItemStep { action: ItemAction::FetchEpisodes, pending_sub: n, ..none },
            ),
            ItemPhase::FetchingEpisodes => match o {
                StepOutcome::Fetched(m) => if m > 0 {
                    (
                        ItemPhase::WritingEpisodes(m),
                        ItemStep { action: ItemAction::WriteEpisodes, pending_add: m, total_add: m, ..none },
                    )
                } else {
                    (ItemPhase::Done, done1)
                },
                _ => (ItemPhase::Done, done1),
            },
            ItemPhase::WritingEpisodes(m) => if ok {
                (ItemPhase::SyncingEpisodeExtras, ItemStep { action: ItemAction::SyncEpisodeExtras, pending_sub: m, ..none })
            } else {
                (ItemPhase::QueueingEpisodeDetails, ItemStep { action: ItemAction::QueueEpisodeDetails, pending_sub: m, ..none })
            },
            ItemPhase::SyncingEpisodeExtras => (
                ItemPhase::QueueingEpisodeDetails,
                ItemStep { action: ItemAction::QueueEpisodeDetails, ..none },
            ),
            ItemPhase::QueueingEpisodeDetails => (ItemPhase::Done, done1),
            ItemPhase::SyncingExtras => match self.route {
                SyncRoute::Playable => if self.has_media {
                    (ItemPhase::WritingParts, ItemStep { action: ItemAction::WriteParts, ..none })
                } else {
                    (ItemPhase::QueueingDetails, ItemStep { action: ItemAction::QueueDetails, pending_add: 1, total_add: 1, ..none })
                },
                _ => (ItemPhase::Done, done1),
            },
            ItemPhase::WritingParts => if ok {
                (ItemPhase::Done, done1)
            } else {
                (ItemPhase::QueueingDetails, ItemStep { action: ItemAction::QueueDetails, pending_add: 1, total_add: 1, ..none })
            },
            ItemPhase::QueueingDetails => if ok {
                (ItemPhase::Done, done1)
            } else {
                (ItemPhase::Done, ItemStep { pending_sub: 2, total_sub: 1, ..none })
            },
            ItemPhase::Done => (ItemPhase::Done, none),
        };
        self.phase = phase;
        step
    }
}

/// The pending counter balances: each step adds back exactly what the sync
/// still owes, so that a finished sync has taken back its own task and all
/// it added, except the one detail fetch it handed on when queueing
/// succeeded, which its detail task takes back.
pub proof fn law_item_sync_accounting(
    phase: ItemPhase,
    o: StepOutcome,
    route: SyncRoute,
    has_media: bool,
    force_scan: bool,
)
    requires
        phase != ItemPhase::Done,
        phase matches ItemPhase::WritingSeasons(n) ==> n < u64::MAX,
    ensures
        ({
            let (next, step) = item_next(phase, o, route, has_media, force_scan);
            let handed_on: int = if phase == ItemPhase::QueueingDetails && succeeded(o) {
                1
            } else {
                0
            };
            outstanding(phase) + step.pending_add == outstanding(next) + step.pending_sub + handed_on
        }),
        outstanding(ItemPhase::Start) == 1,
        outstanding(ItemPhase::Done) == 0,
{
}

/// Every step of an item's sync brings it closer to its end, so it takes at
/// most twelve steps; and the children of an item are only fetched, and its
/// extras and parts only synced, after the item itself was written.
pub proof fn law_item_sync_order(
    phase: ItemPhase,
    o: StepOutcome,
    route: SyncRoute,
    has_media: bool,
    force_scan: bool,
)
    ensures
        ({
            let (next, step) = item_next(phase, o, route, has_media, force_scan);
            &&& phase != ItemPhase::Done ==> item_steps_left(next) < item_steps_left(phase)
            &&& step.action == ItemAction::FetchSeasons ==> phase == ItemPhase::WritingItem
                && succeeded(o)
            &&& step.action == ItemAction::SyncSeasonExtras ==> (phase is WritingSeasons
                && succeeded(o))
            &&& step.action == ItemAction::SyncEpisodeExtras ==> (phase is WritingEpisodes
                && succeeded(o))
            &&& step.action == ItemAction::SyncExtras ==> phase == ItemPhase::WritingItem
                && succeeded(o)
            &&& !force_scan && phase == ItemPhase::Start ==> step.action
                == ItemAction::BufferAndTouch
        }),
{
}

/// A detail fetch is queued for an item exactly when it is a movie or an
/// episode listed without media, once its extras are synced, or when writing
/// its media parts failed; it then counts one more pending and one more
/// created task.
pub proof fn law_detail_fetch_when_needed(
    phase: ItemPhase,
    o: StepOutcome,
    route: SyncRoute,
    has_media: bool,
    force_scan: bool,
)
    ensures
        ({
            let (next, step) = item_next(phase, o, route, has_media, force_scan);
            &&& step.action == ItemAction::QueueDetails <==> (phase == ItemPhase::SyncingExtras
                && route == SyncRoute::Playable && !has_media) || (phase == ItemPhase::WritingParts
                && !succeeded(o))
            &&& step.action == ItemAction::QueueDetails ==> next == ItemPhase::QueueingDetails
                && step.pending_add == 1 && step.total_add == 1 && step.pending_sub == 0
                && step.total_sub == 0
        }),
{
}

/// Once the media parts of an item are written, with the streams of some
/// part, the item's sync is over: it takes back its own pending task and
/// queues no detail fetch.
pub proof fn law_parts_written_finishes(route: SyncRoute, has_media: bool, force_scan: bool)
    ensures
        ({
            let (next, step) = item_next(
                ItemPhase::WritingParts,
                StepOutcome::Succeeded,
                route,
                has_media,
                force_scan,
            );
            &&& next == ItemPhase::Done
            &&& step.action == ItemAction::Finish
            &&& step.pending_sub == 1 && step.pending_add == 0
            &&& step.total_add == 0 && step.total_sub == 0
        }),
{
}

/// A movie or episode listed with media has its parts written right after
/// its extras, and one listed without media has its details fetched.
pub proof fn law_playable_after_extras(o: StepOutcome, has_media: bool, force_scan: bool)
    ensures
        ({
            let (next, step) = item_next(
                ItemPhase::SyncingExtras,
                o,
                SyncRoute::Playable,
                has_media,
                force_scan,
            );
            &&& has_media ==> next == ItemPhase::WritingParts && step.action
                == ItemAction::WriteParts
            &&& !has_media ==> next == ItemPhase::QueueingDetails && step.action
                == ItemAction::QueueDetails && step.pending_add == 1
        }),
{
}

/// Whether handing `o` to a sync in `phase` hands a detail fetch on to the
/// detail workers.
pub open spec fn hands_on(phase: ItemPhase, o: StepOutcome) -> int {
    if phase == ItemPhase::QueueingDetails && succeeded(o) {
        1
    } else {
        0
    }
}

/// Where a sync in `phase` ends after the outcomes `outs`, what it added to
/// the pending counter in all (additions less subtractions), and how many
/// detail fetches it handed on.
pub open spec fn item_run(
    phase: ItemPhase,
    outs: Seq<StepOutcome>,
    route: SyncRoute,
    has_media: bool,
    force_scan: bool,
) -> (ItemPhase, int, int)
    decreases outs.len(),
{
    if outs.len() == 0 {
        (phase, 0, 0)
    } else {
        let (next, step) = item_next(phase, outs[0], route, has_media, force_scan);
        let (last, net, handed) = item_run(next, outs.drop_first(), route, has_media, force_scan);
        (
            last,
            net + step.pending_add - step.pending_sub,
            handed + hands_on(phase, outs[0]),
        )
    }
}

/// Over a whole sync of an item, the pending counter drops by exactly its
/// own task, less the detail fetches handed on: no count leaks, so the
/// library sync waiting for the counter to reach zero ends.
pub proof fn law_item_run_balances(
    outs: Seq<StepOutcome>,
    route: SyncRoute,
    has_media: bool,
    force_scan: bool,
)
    requires
        forall|k: int| 0 <= k < outs.len() ==> (#[trigger] outs[k] matches StepOutcome::Fetched(n) ==> n < u64::MAX),
        item_run(ItemPhase::Start, outs, route, has_media, force_scan).0 == ItemPhase::Done,
    ensures
        ({
            let (_, net, handed) = item_run(ItemPhase::Start, outs, route, has_media, force_scan);
            net == handed - 1
        }),
{
    lemma_item_run_outstanding(ItemPhase::Start, outs, route, has_media, force_scan);
}

/// No phase holds a write of `u64::MAX` seasons.
pub open spec fn counts_fit(phase: ItemPhase) -> bool {
    phase matches ItemPhase::WritingSeasons(n) ==> n < u64::MAX
}

proof fn lemma_item_run_outstanding(
    phase: ItemPhase,
    outs: Seq<StepOutcome>,
    route: SyncRoute,
    has_media: bool,
    force_scan: bool,
)
    requires
        counts_fit(phase),
        forall|k: int| 0 <= k < outs.len() ==> (#[trigger] outs[k] matches StepOutcome::Fetched(n) ==> n < u64::MAX),
    ensures
        ({
            let (last, net, handed) = item_run(phase, outs, route, has_media, force_scan);
            outstanding(phase) + net == outstanding(last) + handed
        }),
    decreases outs.len(),
{
    if outs.len() > 0 {
        let o = outs[0];
        let (next, step) = item_next(phase, o, route, has_media, force_scan);
        if phase != ItemPhase::Done {
            law_item_sync_accounting(phase, o, route, has_media, force_scan);
        }
        assert(counts_fit(next)) by {
            assert(outs[0] matches StepOutcome::Fetched(n) ==> n < u64::MAX);
        }
        assert forall|k: int| 0 <= k < outs.drop_first().len() implies (#[trigger] outs.drop_first()[k] matches StepOutcome::Fetched(n) ==> n < u64::MAX) by {
            assert(outs.drop_first()[k] == outs[k + 1]);
        }
        lemma_item_run_outstanding(next, outs.drop_first(), route, has_media, force_scan);
    }
}

// ---------------------------------------------------------------------------
// Counting queued tasks
// ---------------------------------------------------------------------------

/// What the counters of pending and of created tasks give back after a
/// detail fetch was sent: each was counted up by one before the send, and
/// that one is taken back where the send failed.
pub open spec fn send_takeback(sent: bool) -> u64 {
    if sent {
        0
    } else {
        1
    }
}

/// How much to take back from both counters after a detail fetch was sent.
pub fn detail_send_takeback(sent: bool) -> (r: u64)
    ensures
        r == send_takeback(sent),
{
    if sent {
        0
    } else {
        1
    }
}

/// What a series of detail fetches, counted up by one each and then settled
/// with `send_takeback`, adds to the pending counter.
pub open spec fn queued_net(sent: Seq<bool>) -> int
    decreases sent.len(),
{
    if sent.len() == 0 {
        0
    } else {
        queued_net(sent.drop_last()) + 1 - send_takeback(sent.last())
    }
}

/// How many sends went through.
pub open spec fn count_sent(sent: Seq<bool>) -> int
    decreases sent.len(),
{
    if sent.len() == 0 {
        0
    } else {
        count_sent(sent.drop_last()) + if sent.last() {
            1int
        } else {
            0int
        }
    }
}

/// Queueing detail fetches leaves one pending task for each fetch that was
/// handed to a detail worker, and none for a failed send.
pub proof fn law_detail_queue_balances(sent: Seq<bool>)
    ensures
        queued_net(sent) == count_sent(sent),
    decreases sent.len(),
{
    if sent.len() > 0 {
        law_detail_queue_balances(sent.drop_last());
    }
}

/// What settling one listed item of a library takes back from the pending
/// and from the created counter, both counted up by one for each listed item
/// beforehand: nothing for an item scanned in full whose task was sent; one
/// from each for one whose send failed; one pending for an unchanged item,
/// which is only marked as seen.
pub open spec fn base_settlement(force_scan: bool, sent: bool) -> (u64, u64) {
    if force_scan {
        if sent {
            (0, 0)
        } else {
            (1, 1)
        }
    } else {
        (1, 0)
    }
}

/// Settles one listed item of a library.
pub fn base_item_settlement(force_scan: bool, sent: bool) -> (r: (u64, u64))
    ensures
        r == base_settlement(force_scan, sent),
{
    if force_scan {
        if sent {
            (0, 0)
        } else {
            (1, 1)
        }
    } else {
        (1, 0)
    }
}

/// The pending tasks the listed items leave: for each (scanned in full,
/// sent) pair, one counted up less what is settled.
pub open spec fn base_pending_left(items: Seq<(bool, bool)>) -> int
    decreases items.len(),
{
    if items.len() == 0 {
        0
    } else {
        base_pending_left(items.drop_last()) + 1 - base_settlement(
            items.last().0,
            items.last().1,
        ).0
    }
}

/// How many listed items were handed to a discovery worker.
pub open spec fn count_handed(items: Seq<(bool, bool)>) -> int
    decreases items.len(),
{
    if items.len() == 0 {
        0
    } else {
        count_handed(items.drop_last()) + if items.last().0 && items.last().1 {
            1int
        } else {
            0int
        }
    }
}

/// After the listed items of a library are settled, the pending counter
/// holds exactly one task for each item handed to a discovery worker.
pub proof fn law_base_items_balance(items: Seq<(bool, bool)>)
    ensures
        base_pending_left(items) == count_handed(items),
    decreases items.len(),
{
    if items.len() > 0 {
        law_base_items_balance(items.drop_last());
    }
}

// ---------------------------------------------------------------------------
// Writing an item's media parts
// ---------------------------------------------------------------------------

/// The writing of an item's media parts, part by part: which parts get their
/// streams written, and whether at least one part did, which makes the
/// write a success.
pub struct PartsWrite {
    streams_written: bool,
}

impl PartsWrite {
    /// Whether the streams of some part were written so far.
    pub closed spec fn any_streams(&self) -> bool {
        self.streams_written
    }

    /// Before the first part.
    pub fn new() -> (r: Self)
        ensures
            !r.any_streams(),
    {
        PartsWrite { streams_written: false }
    }

    /// Whether to write the streams of a part whose row was written where
    /// `row_written`, and which lists `stream_count` streams: exactly when
    /// both hold.
    pub fn on_part(&mut self, row_written: bool, stream_count: usize) -> (write_streams: bool)
        ensures
            write_streams == (row_written && stream_count > 0),
            final(self).any_streams() == (old(self).any_streams() || write_streams),
    {
        let write_streams = row_written && stream_count > 0;
        if write_streams {
            self.streams_written = true;
        }
        write_streams
    }

    /// Whether the write succeeded: some part had its streams written.
    pub fn succeeded(&self) -> (r: bool)
        ensures
            r == self.any_streams(),
    {
        self.streams_written
    }
}

/// What the wait for a library's sync does after reading the pending
/// counter.
#[derive(Debug, Clone, Copy, PartialEq, Eq, Structural)]
pub enum WaitStep {
    /// Work is pending: wait and read again.
    KeepWaiting,
    /// Nothing is pending: pause briefly and read once more.
    Recheck,
    /// Nothing was pending twice in a row: the sync is over.
    Finish,
}

/// The step after reading `pending`, where `rechecking` says whether this
/// read follows a read of zero.
pub open spec fn wait_step_spec(pending: u64, rechecking: bool) -> WaitStep {
    if pending != 0 {
        WaitStep::KeepWaiting
    } else if rechecking {
        WaitStep::Finish
    } else {
        WaitStep::Recheck
    }
}

/// Decides the step after reading the pending counter.
pub fn wait_step(pending: u64, rechecking: bool) -> (r: WaitStep)
    ensures
        r == wait_step_spec(pending, rechecking),
{
    if pending != 0 {
        WaitStep::KeepWaiting
    } else if rechecking {
        WaitStep::Finish
    } else {
        WaitStep::Recheck
    }
}

/// The wait ends only on a second read of zero, and never while work is
/// pending.
pub proof fn law_wait_ends_on_two_zeros(pending: u64, rechecking: bool)
    ensures
        wait_step_spec(pending, rechecking) == WaitStep::Finish <==> pending == 0 && rechecking,
        pending != 0 ==> wait_step_spec(pending, rechecking) == WaitStep::KeepWaiting,
{
}

} // verus!
