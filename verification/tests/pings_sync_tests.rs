use plex_catalog::db::ItemWithContext;
use plex_catalog::models::{Item, Media, Part, PlexExtra, Stream};
use plex_catalog::pings::{
    fulfilled_ping_body, ping_url, request_ping_body, stale_ping_body, RequestPingDetails,
};
use plex_catalog::sync::{
    base_item_settlement, detail_send_takeback, extras_to_items, is_supported_library_type, leaf_with_default_parent, needs_detail_fetch,
    needs_force_scan, progress_percent, request_check, sync_interval_secs, sync_route,
    with_default_parent, worker_decision, FlushAction, FlushRetry, ItemAction, ItemPhase, PartsWrite,
    ItemSync, RequestCheck, RunAbort, RunStep, StepOutcome, SyncRoute, SyncRun, WorkerDecision,
    wait_step, WaitStep,
    SYNC_INTERVAL_MINUTES,
};

#[test]
fn ping_url_needs_non_blank_setting() {
    assert_eq!(ping_url(None), None);
    assert_eq!(ping_url(Some("   ")), None);
    assert_eq!(ping_url(Some(" http://p ")).as_deref(), Some(" http://p "));
}

#[test]
fn request_ping_for_show_with_seasons() {
    let seasons = [1, 2, 10];
    let d = RequestPingDetails {
        username: "alice",
        title: "Show",
        year: Some(2020),
        item_type: "show",
        requested_seasons: Some(&seasons[..]),
        requested_resolution: Some("4k"),
        is_upgrade: false,
    };
    assert_eq!(
        request_ping_body(&d),
        "alice requested Show (2020). Seasons: 1, 2, 10. Preferred resolution: 4k."
    );
}

#[test]
fn request_ping_for_upgrade_and_plain() {
    let seasons = [3];
    let d = RequestPingDetails {
        username: "bob",
        title: "Film",
        year: None,
        item_type: "movie",
        requested_seasons: Some(&seasons[..]),
        requested_resolution: Some("1080p"),
        is_upgrade: true,
    };
    assert_eq!(
        request_ping_body(&d),
        "bob requested Film. User is requesting a different resolution for an existing movie."
    );
    let plain = RequestPingDetails {
        username: "bob",
        title: "Film",
        year: Some(-5),
        item_type: "show",
        requested_seasons: Some(&[][..]),
        requested_resolution: Some(""),
        is_upgrade: false,
    };
    assert_eq!(request_ping_body(&plain), "bob requested Film (-5).");
}

#[test]
fn fulfilled_and_stale_pings() {
    assert_eq!(
        fulfilled_ping_body("Film", "1080p", &vec!["a".to_string(), "b".to_string()]),
        "Your request for Film was fulfilled with resolution 1080p and is now available on: a, b."
    );
    assert_eq!(
        fulfilled_ping_body("Film", "4k", &vec![]),
        "Your request for Film was fulfilled with resolution 4k and is now available on: unknown servers."
    );
    assert_eq!(
        stale_ping_body("Film"),
        "Your request for Film was unfulfilled for 30 days and has been removed."
    );
}

fn item(item_type: &str, media: Vec<Media>) -> Item {
    Item {
        guid: None,
        rating_key: "1".to_string(),
        parent_id: None,
        index: None,
        leaf_count: None,
        title: "T".to_string(),
        key: "/k".to_string(),
        summary: None,
        item_type: item_type.to_string(),
        year: 2000,
        media,
        thumb: None,
        art: None,
        updated_at: None,
        content_rating: None,
        duration: None,
        originally_available_at: None,
        studio: None,
        extra_type: None,
    }
}

fn stream() -> Stream {
    Stream { id: 1, stream_type: 1, language: None, language_code: None, format: None }
}

#[test]
fn sync_constants_and_library_types() {
    assert_eq!(SYNC_INTERVAL_MINUTES, 90);
    assert_eq!(sync_interval_secs(), 5400);
    assert!(is_supported_library_type("movie"));
    assert!(is_supported_library_type("show"));
    assert!(!is_supported_library_type("artist"));
    assert!(!is_supported_library_type("Movie"));
}

#[test]
fn force_scan_decision() {
    assert!(needs_force_scan(None, Some(5)));
    assert!(needs_force_scan(Some(5), None));
    assert!(needs_force_scan(Some(6), Some(5)));
    assert!(!needs_force_scan(Some(5), Some(5)));
    assert!(!needs_force_scan(Some(4), Some(5)));
}

#[test]
fn progress_formula() {
    assert_eq!(progress_percent(0, 0), 100);
    assert_eq!(progress_percent(200, 50), 75);
    assert_eq!(progress_percent(3, 1), 66);
    assert_eq!(progress_percent(10, 20), 0);
}

#[test]
fn routes_and_request_checks() {
    assert_eq!(sync_route("show"), SyncRoute::Show);
    assert_eq!(sync_route("season"), SyncRoute::Season);
    assert_eq!(sync_route("movie"), SyncRoute::Playable);
    assert_eq!(sync_route("episode"), SyncRoute::Playable);
    assert_eq!(sync_route("artist"), SyncRoute::Other);
    assert_eq!(request_check("movie"), RequestCheck::Movie);
    assert_eq!(request_check("show"), RequestCheck::Show);
    assert_eq!(request_check("episode"), RequestCheck::Unsupported);
}

#[test]
fn worker_decisions() {
    assert_eq!(worker_decision(Some(true), 5), WorkerDecision::Stop);
    assert_eq!(worker_decision(Some(false), 0), WorkerDecision::Process);
    assert_eq!(worker_decision(None, 0), WorkerDecision::Stop);
    assert_eq!(worker_decision(None, 3), WorkerDecision::Wait);
}

#[test]
fn flush_retries_then_gives_up() {
    let mut r = FlushRetry::new();
    assert!(r.may_try());
    assert_eq!(r.on_result(false), FlushAction::RetryAfter(2));
    assert_eq!(r.on_result(false), FlushAction::RetryAfter(4));
    assert_eq!(r.on_result(false), FlushAction::GiveUp);
    assert!(!r.may_try());
    let mut ok = FlushRetry::new();
    assert_eq!(ok.on_result(true), FlushAction::Done);
}

#[test]
fn detail_fetch_needed_without_streams() {
    assert!(needs_detail_fetch(&item("movie", vec![])));
    let no_streams = Media { video_resolution: None, parts: vec![Part { id: 1, streams: vec![] }] };
    assert!(needs_detail_fetch(&item("movie", vec![no_streams.clone(), Media { video_resolution: None, parts: vec![] }])));
    let with = Media { video_resolution: None, parts: vec![Part { id: 2, streams: vec![stream()] }] };
    assert!(!needs_detail_fetch(&item("movie", vec![no_streams, with])));
}

#[test]
fn default_parents() {
    let season = with_default_parent(item("season", vec![]), "show1");
    assert_eq!(season.parent_id.as_deref(), Some("show1"));
    let mut own = item("season", vec![]);
    own.parent_id = Some("p".to_string());
    assert_eq!(with_default_parent(own, "show1").parent_id.as_deref(), Some("p"));
    let ep = leaf_with_default_parent(item("episode", vec![]), "show1");
    assert_eq!(ep.parent_id.as_deref(), Some("show1"));
    assert_eq!(ep.title, "T");
    let other = leaf_with_default_parent(item("clip", vec![]), "show1");
    assert_eq!(other.parent_id, None);
}

#[test]
fn extras_become_items() {
    let extras = vec![
        PlexExtra {
            rating_key: Some("77".to_string()),
            title: "Trailer".to_string(),
            key: "/library/metadata/77".to_string(),
            extra_type: Some("trailer".to_string()),
            thumb: Some("/t".to_string()),
        },
        PlexExtra {
            rating_key: None,
            title: "Clip".to_string(),
            key: "/library/metadata/88/".to_string(),
            extra_type: None,
            thumb: None,
        },
        PlexExtra { rating_key: None, title: "Odd".to_string(), key: "//".to_string(), extra_type: None, thumb: None },
    ];
    let items: Vec<ItemWithContext> = extras_to_items(&extras, "srv", "10", "lib");
    assert_eq!(items.len(), 3);
    assert_eq!(items[0].item.rating_key, "77");
    assert_eq!(items[0].item.guid.as_deref(), Some("local-srv-77"));
    assert_eq!(items[0].item.item_type, "extra");
    assert_eq!(items[0].item.parent_id.as_deref(), Some("10"));
    assert_eq!(items[0].item.extra_type.as_deref(), Some("trailer"));
    assert_eq!(items[0].library_id, "lib");
    assert_eq!(items[0].server_id, "srv");
    assert_eq!(items[1].item.rating_key, "88");
    assert_eq!(items[2].item.rating_key, "extra-srv-10-2");
    assert_eq!(items[2].item.guid.as_deref(), Some("local-srv-extra-srv-10-2"));
    assert_eq!(items[2].item.year, 0);
}

#[test]
fn sync_run_prunes_only_after_connectivity() {
    let mut run = SyncRun::new();
    assert_eq!(run.advance(true), RunStep::MarkInProgress);
    assert_eq!(run.advance(false), RunStep::LogIn);
    assert_eq!(run.advance(true), RunStep::ListServers);
    assert_eq!(run.advance(true), RunStep::SyncServers);
    assert_eq!(run.advance(false), RunStep::CheckConnectivity);
    assert_eq!(run.advance(false), RunStep::Abort(RunAbort::Unreachable));
    assert!(run.is_done());
    let mut ok = SyncRun::new();
    let steps: Vec<RunStep> = (0..11).map(|_| ok.advance(true)).collect();
    assert_eq!(
        steps,
        vec![
            RunStep::MarkInProgress,
            RunStep::LogIn,
            RunStep::ListServers,
            RunStep::SyncServers,
            RunStep::CheckConnectivity,
            RunStep::Prune,
            RunStep::DeleteStaleRequests,
            RunStep::CheckPendingRequests,
            RunStep::RecordFinished,
            RunStep::Finished,
            RunStep::Finished,
        ]
    );
    let mut login = SyncRun::new();
    login.advance(true);
    login.advance(true);
    assert_eq!(login.advance(false), RunStep::Abort(RunAbort::LoginFailed));
}

#[test]
fn item_sync_of_a_show_balances_pending() {
    let mut s = ItemSync::new("show", false, true);
    let mut pending: i64 = 1;
    let mut actions = vec![];
    let outcomes = [
        StepOutcome::Succeeded,
        StepOutcome::Succeeded,
        StepOutcome::Fetched(3),
        StepOutcome::Succeeded,
        StepOutcome::Succeeded,
        StepOutcome::Fetched(5),
        StepOutcome::Succeeded,
        StepOutcome::Succeeded,
        StepOutcome::Succeeded,
    ];
    for o in outcomes.iter() {
        let step = s.advance(*o);
        pending += step.pending_add as i64;
        pending -= step.pending_sub as i64;
        actions.push(step.action);
    }
    assert!(s.is_done());
    assert_eq!(pending, 0);
    assert_eq!(
        actions,
        vec![
            ItemAction::WriteItem,
            ItemAction::FetchSeasons,
            ItemAction::WriteSeasons,
            ItemAction::SyncSeasonExtras,
            ItemAction::FetchEpisodes,
            ItemAction::WriteEpisodes,
            ItemAction::SyncEpisodeExtras,
            ItemAction::QueueEpisodeDetails,
            ItemAction::Finish,
        ]
    );
}

#[test]
fn item_sync_stops_when_item_write_fails() {
    let mut s = ItemSync::new("show", false, true);
    assert_eq!(s.advance(StepOutcome::Succeeded).action, ItemAction::WriteItem);
    let step = s.advance(StepOutcome::Failed);
    assert_eq!(step.action, ItemAction::Finish);
    assert_eq!(step.pending_sub, 1);
    assert!(s.is_done());
    let mut unchanged = ItemSync::new("movie", true, false);
    assert_eq!(unchanged.advance(StepOutcome::Succeeded).action, ItemAction::BufferAndTouch);
    assert_eq!(unchanged.advance(StepOutcome::Succeeded).pending_sub, 1);
}

#[test]
fn item_sync_of_a_movie_without_streams_queues_details() {
    let mut s = ItemSync::new("movie", true, true);
    assert_eq!(s.advance(StepOutcome::Succeeded).action, ItemAction::WriteItem);
    assert_eq!(s.advance(StepOutcome::Succeeded).action, ItemAction::SyncExtras);
    assert_eq!(s.advance(StepOutcome::Succeeded).action, ItemAction::WriteParts);
    let q = s.advance(StepOutcome::Failed);
    assert_eq!(q.action, ItemAction::QueueDetails);
    assert_eq!((q.pending_add, q.total_add), (1, 1));
    let f = s.advance(StepOutcome::Failed);
    assert_eq!((f.pending_sub, f.total_sub), (2, 1));
    assert!(s.is_done());
    let _ = ItemPhase::Start;
}

#[test]
fn sync_run_stops_without_server_list() {
    let mut run = SyncRun::new();
    run.advance(true);
    run.advance(true);
    assert_eq!(run.advance(true), RunStep::ListServers);
    assert_eq!(run.advance(false), RunStep::Abort(RunAbort::NoServerList));
    assert!(run.is_done());
    assert_eq!(run.advance(true), RunStep::Finished);
}

#[test]
fn queued_tasks_are_settled() {
    assert_eq!(detail_send_takeback(true), 0);
    assert_eq!(detail_send_takeback(false), 1);
    assert_eq!(base_item_settlement(true, true), (0, 0));
    assert_eq!(base_item_settlement(true, false), (1, 1));
    assert_eq!(base_item_settlement(false, false), (1, 0));
    // Three listed items: one handed on, one failed send, one unchanged.
    let mut pending: u64 = 3;
    for (force, sent) in [(true, true), (true, false), (false, false)] {
        pending -= base_item_settlement(force, sent).0;
    }
    assert_eq!(pending, 1);
}

#[test]
fn parts_write_succeeds_with_some_streams() {
    let mut w = PartsWrite::new();
    assert!(!w.succeeded());
    assert!(!w.on_part(false, 3));
    assert!(!w.on_part(true, 0));
    assert!(!w.succeeded());
    assert!(w.on_part(true, 2));
    assert!(w.succeeded());
    assert!(!w.on_part(false, 1));
    assert!(w.succeeded());
}

#[test]
fn library_wait_ends_on_two_zero_reads() {
    assert_eq!(wait_step(3, false), WaitStep::KeepWaiting);
    assert_eq!(wait_step(3, true), WaitStep::KeepWaiting);
    assert_eq!(wait_step(0, false), WaitStep::Recheck);
    assert_eq!(wait_step(0, true), WaitStep::Finish);
}
