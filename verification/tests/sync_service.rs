use immich_sync::app_config::{
    default_device_id, default_sync_interval, default_temp_dir, default_true, ImmichSyncAppConfig,
};
use immich_sync::clock::Timestamp;
use immich_sync::immich::{ImmichAsset, ImmichConfig, ImmichError};
use immich_sync::immich_sync::{
    album_display_name, find_shared_album, synced_album_description, upload_time_from, upload_timestamp, ImmichSyncConfig,
    ImmichSyncService, ShareAction, SharedAlbum, SharedAsset, SyncError, UploadAction, UploadEvent,
};

fn config(auto: bool, push: bool) -> ImmichSyncConfig {
    ImmichSyncConfig {
        immich: ImmichConfig { server_url: "http://h".to_string(), api_key: "k".to_string() },
        auto_approve_shares: auto,
        push_notification_approval: push,
        sync_interval_secs: 60,
        temp_dir: "/tmp/t".to_string(),
        device_id: "dev".to_string(),
    }
}

fn shared(guid: &str, name: Option<&str>, full: Option<&str>, subscribed: bool) -> SharedAlbum {
    SharedAlbum {
        album_guid: guid.to_string(),
        name: name.map(|s| s.to_string()),
        full_name: full.map(|s| s.to_string()),
        subscribed,
    }
}

fn apple_asset(guid: &str) -> SharedAsset {
    SharedAsset {
        asset_guid: guid.to_string(),
        file_name: format!("{}.jpg", guid),
        created: String::new(),
        modified: String::new(),
    }
}

/// Runs an upload pass in which every action succeeds; the Immich ID of the
/// n-th upload is `prefix` followed by n. Returns the assets fetched, in order.
fn run_pass(s: &mut ImmichSyncService, album: &str, assets: Vec<SharedAsset>, prefix: &str) -> Vec<String> {
    let mut fetched = Vec::new();
    let mut n = 0;
    let mut action = s.begin_upload_pass(album, assets);
    loop {
        let event = match action {
            UploadAction::NotSynced | UploadAction::Complete => break,
            UploadAction::Abort(_) => panic!("no action fails here"),
            UploadAction::FetchFile { asset_guid, .. } => {
                fetched.push(asset_guid);
                UploadEvent::FileFetched { now: Timestamp { secs: 0, nanos: 0 } }
            },
            UploadAction::UploadFile { .. } => {
                n += 1;
                UploadEvent::Uploaded { immich_asset_id: format!("{}{}", prefix, n) }
            },
            UploadAction::AddToAlbum { .. } => UploadEvent::AddedToAlbum,
        };
        action = s.upload_pass_event(event);
    }
    fetched
}

fn immich_asset(id: &str) -> ImmichAsset {
    ImmichAsset {
        id: id.to_string(),
        device_asset_id: String::new(),
        owner_id: String::new(),
        device_id: String::new(),
        asset_type: "IMAGE".to_string(),
        original_path: String::new(),
        original_file_name: format!("{}.jpg", id),
        file_created_at: String::new(),
        file_modified_at: String::new(),
        is_favorite: false,
        is_archived: false,
        duration: None,
    }
}

fn is_uuid_v4(s: &str) -> bool {
    let c: Vec<char> = s.chars().collect();
    c.len() == 36
        && c.iter().enumerate().all(|(i, ch)| {
            if i == 8 || i == 13 || i == 18 || i == 23 {
                *ch == '-'
            } else {
                ch.is_ascii_hexdigit() && !ch.is_ascii_uppercase()
            }
        })
        && c[14] == '4'
}

#[test]
fn defaults_of_the_settings() {
    let c = ImmichSyncConfig::default();
    assert_eq!(c.immich.server_url, "http://localhost:2283");
    assert_eq!(c.immich.api_key, "");
    assert!(!c.auto_approve_shares);
    assert!(c.push_notification_approval);
    assert_eq!(c.sync_interval_secs, 60);
    assert_eq!(c.temp_dir, "/tmp/rustpush-immich-sync");
    assert!(is_uuid_v4(&c.device_id));
}

#[test]
fn defaults_of_the_program_settings() {
    assert!(default_true());
    assert_eq!(default_sync_interval(), 60);
    assert_eq!(default_temp_dir(), "/tmp/rustpush-immich-sync");
    assert!(is_uuid_v4(&default_device_id()));
    assert_ne!(default_device_id(), default_device_id());
    let c = ImmichSyncAppConfig::default();
    assert_eq!(c.immich_server_url, "http://localhost:2283");
    assert!(!c.has_api_key());
    assert!(!c.auto_approve_shares && c.push_notification_approval);
    assert_eq!(c.sync_interval_secs, 60);
    assert_eq!(c.temp_dir, "/tmp/rustpush-immich-sync");
    assert!(is_uuid_v4(&c.device_id));
}

#[test]
fn program_settings_become_service_settings() {
    let app = ImmichSyncAppConfig {
        immich_server_url: "http://immich:2283".to_string(),
        immich_api_key: "key".to_string(),
        auto_approve_shares: true,
        push_notification_approval: false,
        sync_interval_secs: 5,
        temp_dir: "/var/tmp/x".to_string(),
        device_id: "rustpush-sync-device".to_string(),
    };
    assert!(app.has_api_key());
    let c = app.into_sync_config();
    assert_eq!(c.immich.server_url, "http://immich:2283");
    assert_eq!(c.immich.api_key, "key");
    assert!(c.auto_approve_shares && !c.push_notification_approval);
    assert_eq!(c.sync_interval_secs, 5);
    assert_eq!(c.temp_dir, "/var/tmp/x");
    assert_eq!(c.device_id, "rustpush-sync-device");
}

#[test]
fn share_actions_follow_the_settings() {
    let s = ImmichSyncService::new(config(true, true));
    assert_eq!(s.share_action(&shared("g", None, None, false)), ShareAction::Approve);
    assert_eq!(s.share_action(&shared("g", None, None, true)), ShareAction::NoAction);
    let s = ImmichSyncService::new(config(false, true));
    assert_eq!(s.share_action(&shared("g", None, None, false)), ShareAction::RequestPushApproval);
    let s = ImmichSyncService::new(config(false, false));
    assert_eq!(s.share_action(&shared("g", None, None, false)), ShareAction::AwaitManualApproval);
}

#[test]
fn set_up_album_needs_no_action() {
    let mut s = ImmichSyncService::new(config(true, true));
    s.setup_album("g", "immich-1");
    assert!(s.is_synced("g"));
    assert_eq!(s.share_action(&shared("g", None, None, false)), ShareAction::NoAction);
    assert_eq!(s.share_action(&shared("h", None, None, false)), ShareAction::Approve);
}

#[test]
fn album_names_fall_back() {
    assert_eq!(album_display_name(&shared("g", Some("Trip"), Some("Ann"), false)), "Trip");
    assert_eq!(album_display_name(&shared("g", None, Some("Ann Lee"), false)), "Ann Lee");
    assert_eq!(album_display_name(&shared("G-1", None, None, false)), "Album G-1");
    assert_eq!(synced_album_description(), "Synced from Apple Shared Album");
}

#[test]
fn shared_albums_are_found_by_guid() {
    let albums = vec![shared("a", None, None, true), shared("b", None, None, true), shared("b", Some("x"), None, true)];
    assert_eq!(find_shared_album(&albums, "b").ok(), Some(1));
    assert!(matches!(find_shared_album(&albums, "z"), Err(SyncError::AlbumNotFound)));
    assert!(matches!(find_shared_album(&Vec::new(), "a"), Err(SyncError::AlbumNotFound)));
}

#[test]
fn uploads_are_planned_for_unsynced_assets_only() {
    let mut s = ImmichSyncService::new(config(true, true));
    let assets = vec![apple_asset("a1"), apple_asset("a2"), apple_asset("a3")];
    assert!(s.pending_uploads("g", &assets).is_none());
    s.setup_album("g", "im");
    assert_eq!(s.pending_uploads("g", &assets), Some(vec![0, 1, 2]));
    run_pass(&mut s, "g", vec![apple_asset("a2")], "i");
    assert_eq!(s.pending_uploads("g", &assets), Some(vec![0, 2]));
    assert_eq!(s.immich_album_id("g").as_deref(), Some("im"));
    assert!(s.immich_album_id("nope").is_none());
}

#[test]
fn a_complete_pass_leaves_nothing_pending() {
    let mut s = ImmichSyncService::new(config(true, true));
    s.setup_album("g", "im");
    let list = || vec![apple_asset("a1"), apple_asset("a2"), apple_asset("a3")];
    assert_eq!(run_pass(&mut s, "g", list(), "i"), vec!["a1".to_string(), "a2".to_string(), "a3".to_string()]);
    assert_eq!(s.pending_uploads("g", &list()), Some(vec![]));
    assert!(run_pass(&mut s, "g", list(), "j").is_empty());
    assert!(matches!(s.begin_upload_pass("g", list()), UploadAction::Complete));
    assert_eq!(s.get_sync_states()[0].apple_to_immich.len(), 3);
}

#[test]
fn a_pass_walks_fetch_upload_add() {
    let mut s = ImmichSyncService::new(config(true, true));
    s.setup_album("g", "im");
    let mut a = apple_asset("a1");
    a.created = "2024-01-02T03:04:05Z".to_string();
    match s.begin_upload_pass("g", vec![a]) {
        UploadAction::FetchFile { asset_guid, file_name } => {
            assert_eq!(asset_guid, "a1");
            assert_eq!(file_name, "a1.jpg");
        },
        _ => panic!("expected FetchFile"),
    }
    let now = Timestamp { secs: 5, nanos: 0 };
    match s.upload_pass_event(UploadEvent::FileFetched { now }) {
        UploadAction::UploadFile { file_name, metadata } => {
            assert_eq!(file_name, "a1.jpg");
            assert_eq!(metadata.device_asset_id, "a1");
            assert_eq!(metadata.device_id, "dev");
            assert_eq!(metadata.file_created_at, Timestamp { secs: 1704164645, nanos: 0 });
            assert_eq!(metadata.file_modified_at, now);
        },
        _ => panic!("expected UploadFile"),
    }
    match s.upload_pass_event(UploadEvent::Uploaded { immich_asset_id: "u1".to_string() }) {
        UploadAction::AddToAlbum { immich_album_id, immich_asset_id } => {
            assert_eq!(immich_album_id, "im");
            assert_eq!(immich_asset_id, "u1");
        },
        _ => panic!("expected AddToAlbum"),
    }
    assert_eq!(s.get_sync_states()[0].apple_to_immich.len(), 0);
    assert!(matches!(s.upload_pass_event(UploadEvent::AddedToAlbum), UploadAction::Complete));
    assert_eq!(s.get_sync_states()[0].apple_to_immich.get("a1").map(|x| x.as_str()), Some("u1"));
    assert!(matches!(s.upload_pass_event(UploadEvent::AddedToAlbum), UploadAction::Complete));
}

#[test]
fn a_failure_ends_the_pass_and_records_nothing() {
    let mut s = ImmichSyncService::new(config(true, true));
    s.setup_album("g", "im");
    s.begin_upload_pass("g", vec![apple_asset("a1"), apple_asset("a2")]);
    s.upload_pass_event(UploadEvent::FileFetched { now: Timestamp { secs: 0, nanos: 0 } });
    s.upload_pass_event(UploadEvent::Uploaded { immich_asset_id: "u1".to_string() });
    match s.upload_pass_event(UploadEvent::Failed(SyncError::FilePackageError("boom".to_string()))) {
        UploadAction::Abort(SyncError::FilePackageError(m)) => assert_eq!(m, "boom"),
        _ => panic!("expected Abort"),
    }
    assert_eq!(s.get_sync_states()[0].apple_to_immich.len(), 0);
    assert!(matches!(s.upload_pass_event(UploadEvent::AddedToAlbum), UploadAction::Complete));
    assert_eq!(s.get_sync_states()[0].apple_to_immich.len(), 0);
    assert_eq!(s.pending_uploads("g", &vec![apple_asset("a1"), apple_asset("a2")]), Some(vec![0, 1]));
}

#[test]
fn an_event_out_of_turn_asks_again() {
    let mut s = ImmichSyncService::new(config(true, true));
    s.setup_album("g", "im");
    s.begin_upload_pass("g", vec![apple_asset("a1")]);
    match s.upload_pass_event(UploadEvent::AddedToAlbum) {
        UploadAction::FetchFile { asset_guid, .. } => assert_eq!(asset_guid, "a1"),
        _ => panic!("expected FetchFile again"),
    }
    assert_eq!(s.get_sync_states()[0].apple_to_immich.len(), 0);
}

#[test]
fn passes_over_albums_not_set_up_do_nothing() {
    let mut s = ImmichSyncService::new(config(true, true));
    assert!(matches!(s.begin_upload_pass("g", vec![apple_asset("a1")]), UploadAction::NotSynced));
    assert!(matches!(s.upload_pass_event(UploadEvent::AddedToAlbum), UploadAction::Complete));
    match s.upload_pass_event(UploadEvent::Failed(SyncError::AlbumNotFound)) {
        UploadAction::Abort(SyncError::AlbumNotFound) => {},
        _ => panic!("expected the failure back"),
    }
}

#[test]
fn recording_links_both_ways() {
    let mut s = ImmichSyncService::new(config(true, true));
    s.setup_album("g", "im");
    run_pass(&mut s, "g", vec![apple_asset("apple-1")], "immich-");
    let states = s.get_sync_states();
    assert_eq!(states.len(), 1);
    let st = &states[0];
    assert_eq!(st.apple_album_guid, "g");
    assert_eq!(st.immich_album_id, "im");
    assert_eq!(st.apple_to_immich.get("apple-1").map(|x| x.as_str()), Some("immich-1"));
    assert_eq!(st.immich_to_apple.get("immich-1").map(|x| x.as_str()), Some("apple-1"));
}

#[test]
fn a_duplicate_upload_id_keeps_the_maps_agreeing() {
    let mut s = ImmichSyncService::new(config(true, true));
    s.setup_album("g", "im");
    s.begin_upload_pass("g", vec![apple_asset("a1"), apple_asset("a2")]);
    for _ in 0..2 {
        s.upload_pass_event(UploadEvent::FileFetched { now: Timestamp { secs: 0, nanos: 0 } });
        s.upload_pass_event(UploadEvent::Uploaded { immich_asset_id: "same".to_string() });
        s.upload_pass_event(UploadEvent::AddedToAlbum);
    }
    let st = &s.get_sync_states()[0];
    let back = st.immich_to_apple.get("same").unwrap();
    assert_eq!(back, "a2");
    assert_eq!(st.apple_to_immich.get(back.as_str()).map(|x| x.as_str()), Some("same"));
}

#[test]
fn setting_up_again_starts_over() {
    let mut s = ImmichSyncService::new(config(true, true));
    s.setup_album("g", "im1");
    s.setup_album("h", "im2");
    run_pass(&mut s, "g", vec![apple_asset("a")], "i");
    s.setup_album("g", "im3");
    assert_eq!(s.synced_album_guids(), vec!["g".to_string(), "h".to_string()]);
    assert_eq!(s.immich_album_id("g").as_deref(), Some("im3"));
    assert_eq!(s.get_sync_states()[0].apple_to_immich.len(), 0);
    assert_eq!(s.pending_uploads("g", &vec![apple_asset("a")]), Some(vec![0]));
}

#[test]
fn setting_up_ends_a_pass_in_progress() {
    let mut s = ImmichSyncService::new(config(true, true));
    s.setup_album("g", "im");
    s.begin_upload_pass("g", vec![apple_asset("a1")]);
    s.setup_album("h", "im2");
    assert!(matches!(s.upload_pass_event(UploadEvent::AddedToAlbum), UploadAction::Complete));
    assert_eq!(s.get_sync_states()[0].apple_to_immich.len(), 0);
}

#[test]
fn downloads_are_planned_for_assets_not_from_apple() {
    let mut s = ImmichSyncService::new(config(true, true));
    let assets = vec![immich_asset("i1"), immich_asset("i2")];
    assert!(s.pending_downloads("g", &assets).is_none());
    s.setup_album("g", "im");
    run_pass(&mut s, "g", vec![apple_asset("a1")], "i");
    assert_eq!(s.pending_downloads("g", &assets), Some(vec![1]));
}

#[test]
fn upload_time_falls_back_to_now() {
    let now = Timestamp { secs: 42, nanos: 7 };
    assert_eq!(upload_timestamp("", now), now);
    assert_eq!(upload_timestamp("not a date", now), now);
    assert_eq!(upload_timestamp("2024-01-02T03:04:05Z", now), Timestamp { secs: 1704164645, nanos: 0 });
    assert_eq!(
        upload_timestamp("2024-01-02T03:04:05.5+02:00", now),
        Timestamp { secs: 1704157445, nanos: 500_000_000 }
    );
}

#[test]
fn timestamps_format_and_parse() {
    assert_eq!(Timestamp { secs: 0, nanos: 0 }.to_rfc3339().as_deref(), Some("1970-01-01T00:00:00+00:00"));
    assert!(Timestamp { secs: i64::MAX, nanos: 0 }.to_rfc3339().is_none());
    assert_eq!(Timestamp::parse_rfc3339("1970-01-01T00:00:01Z"), Some(Timestamp { secs: 1, nanos: 0 }));
    assert!(Timestamp::parse_rfc3339("1970-01-01").is_none());
}

#[test]
fn sync_errors_carry_their_text() {
    match SyncError::from_immich(&ImmichError::ApiError("Failed to list albums: 500 Internal Server Error".to_string())) {
        SyncError::FilePackageError(m) => assert_eq!(m, "API error: Failed to list albums: 500 Internal Server Error"),
        _ => panic!("expected FilePackageError"),
    }
    match SyncError::from_immich(&ImmichError::AlbumNotFound("a".to_string())) {
        SyncError::FilePackageError(m) => assert_eq!(m, "Album not found: a"),
        _ => panic!("expected FilePackageError"),
    }
    match SyncError::temp_dir_failure("denied") {
        SyncError::FilePackageError(m) => assert_eq!(m, "Failed to create temp directory: denied"),
        _ => panic!("expected FilePackageError"),
    }
    match SyncError::write_failure("disk full") {
        SyncError::FilePackageError(m) => assert_eq!(m, "Failed to write file: disk full"),
        _ => panic!("expected FilePackageError"),
    }
}

#[test]
fn settings_are_kept() {
    let s = ImmichSyncService::new(config(false, true));
    assert_eq!(s.config().device_id, "dev");
    assert!(s.synced_album_guids().is_empty());
    assert!(s.get_sync_states().is_empty());
}

#[test]
fn upload_metadata_uses_guid_device_and_both_times() {
    let s = ImmichSyncService::new(config(true, true));
    let now = Timestamp { secs: 9, nanos: 0 };
    let mut a = apple_asset("guid-7");
    a.created = "2024-01-02T03:04:05Z".to_string();
    a.modified = "1970-01-01T00:00:01Z".to_string();
    let m = s.upload_metadata(&a, now);
    assert_eq!(m.device_asset_id, "guid-7");
    assert_eq!(m.device_id, "dev");
    assert_eq!(m.file_created_at, Timestamp { secs: 1704164645, nanos: 0 });
    assert_eq!(m.file_modified_at, Timestamp { secs: 1, nanos: 0 });
    let m = s.upload_metadata(&apple_asset("g"), now);
    assert_eq!(m.file_created_at, now);
    assert_eq!(m.file_modified_at, now);
}

#[test]
fn upload_time_from_a_parse_result() {
    let now = Timestamp { secs: 1, nanos: 2 };
    let t = Timestamp { secs: 3, nanos: 4 };
    assert_eq!(upload_time_from(Some(t), now), t);
    assert_eq!(upload_time_from(None, now), now);
}
