use spotsync::download::download_plan;
use spotsync::fetch::{playlist_snapshot, RemoteItem, RemoteTrack};
use spotsync::manifest::Manifest;
use spotsync::sync::{plan_sync, stored_manifest, StoredManifest, SyncPlan};
use spotsync::track::Track;

fn tune(id: &str) -> Track {
    Track {
        title: format!("Title {}", id),
        artists: vec![format!("Artist {}", id)],
        album: format!("Album {}", id),
        id: id.to_string(),
    }
}

fn road_trip() -> Vec<Track> {
    vec![tune("one"), tune("two"), tune("three")]
}

fn stored(plan: &SyncPlan, before: StoredManifest) -> StoredManifest {
    match &plan.manifest {
        Some(written) => StoredManifest::Loaded(written.clone()),
        None => before,
    }
}

#[test]
fn first_run_downloads_everything_and_creates_the_manifest() {
    let remote = road_trip();
    let plan = plan_sync("Road Trip", &StoredManifest::Absent, &remote);
    assert_eq!(plan.downloads, remote);
    assert_eq!(plan.manifest, Some(Manifest { title: "Road Trip".to_string(), tracks: road_trip() }));
}

#[test]
fn steady_state_does_nothing() {
    let local = StoredManifest::Loaded(Manifest { title: "Road Trip".to_string(), tracks: road_trip() });
    let plan = plan_sync("Road Trip", &local, &road_trip());
    assert!(plan.downloads.is_empty());
    assert_eq!(plan.manifest, None);
    assert!(download_plan("Road Trip", "/music", "mp3", &plan.downloads).is_empty());
}

#[test]
fn partial_update_downloads_the_new_track_only() {
    let local = StoredManifest::Loaded(Manifest { title: "Road Trip".to_string(), tracks: road_trip() });
    let mut remote = road_trip();
    remote.push(tune("abc123"));
    let plan = plan_sync("Road Trip", &local, &remote);
    assert_eq!(plan.downloads, vec![tune("abc123")]);
    let requests = download_plan("Road Trip", "/music", "mp3", &plan.downloads);
    assert_eq!(requests.len(), 1);
    assert!(requests[0].args.contains(&"--spotify-id=abc123".to_string()));
    let written = plan.manifest.expect("a manifest is written");
    assert_eq!(written.tracks.len(), 4);
    assert_eq!(written.tracks[..3], road_trip()[..]);
    assert_eq!(written.tracks[3], tune("abc123"));
    assert_eq!(written.title, "Road Trip");
}

#[test]
fn corrupt_manifest_falls_back_to_a_fresh_start() {
    let remote = road_trip();
    let plan = plan_sync("Road Trip", &StoredManifest::Corrupt, &remote);
    assert_eq!(plan.downloads, remote);
    assert_eq!(plan.manifest, Some(Manifest { title: "Road Trip".to_string(), tracks: road_trip() }));
}

#[test]
fn fresh_start_of_an_empty_playlist_writes_an_empty_manifest() {
    let plan = plan_sync("Empty", &StoredManifest::Absent, &Vec::new());
    assert!(plan.downloads.is_empty());
    assert_eq!(plan.manifest, Some(Manifest::new("Empty")));
}

#[test]
fn loaded_empty_manifest_and_empty_playlist_write_nothing() {
    let plan = plan_sync("Empty", &StoredManifest::Loaded(Manifest::new("Empty")), &Vec::new());
    assert!(plan.downloads.is_empty());
    assert_eq!(plan.manifest, None);
}

#[test]
fn loaded_manifest_keeps_its_own_title() {
    let local = StoredManifest::Loaded(Manifest { title: "Old name".to_string(), tracks: vec![tune("one")] });
    let plan = plan_sync("New name", &local, &road_trip());
    assert_eq!(plan.downloads, vec![tune("two"), tune("three")]);
    let written = plan.manifest.expect("a manifest is written");
    assert_eq!(written.title, "Old name");
    assert_eq!(written.tracks, road_trip());
}

#[test]
fn retagged_track_is_not_downloaded_again() {
    let local = StoredManifest::Loaded(Manifest { title: "Road Trip".to_string(), tracks: road_trip() });
    let mut remote = road_trip();
    remote[1].title = "Two (Remastered)".to_string();
    let plan = plan_sync("Road Trip", &local, &remote);
    assert!(plan.downloads.is_empty());
    assert_eq!(plan.manifest, None);
}

#[test]
fn track_removed_remotely_stays_in_the_manifest() {
    let local = StoredManifest::Loaded(Manifest { title: "Road Trip".to_string(), tracks: road_trip() });
    let plan = plan_sync("Road Trip", &local, &vec![tune("three"), tune("four")]);
    assert_eq!(plan.downloads, vec![tune("four")]);
    let written = plan.manifest.expect("a manifest is written");
    assert_eq!(written.tracks, vec![tune("one"), tune("two"), tune("three"), tune("four")]);
}

#[test]
fn repeated_remote_track_is_downloaded_and_recorded_once() {
    let remote = vec![tune("one"), tune("two"), tune("one")];
    let plan = plan_sync("Mix", &StoredManifest::Absent, &remote);
    assert_eq!(plan.downloads, vec![tune("one"), tune("two")]);
    let written = plan.manifest.expect("a manifest is written");
    assert_eq!(written.tracks, vec![tune("one"), tune("two")]);
}

#[test]
fn written_manifest_is_the_stored_one_with_the_downloads_appended() {
    let local = Manifest { title: "Mix".to_string(), tracks: vec![tune("two")] };
    let remote = vec![tune("one"), tune("two"), tune("three"), tune("one"), tune("three")];
    let plan = plan_sync("Mix", &StoredManifest::Loaded(local.clone()), &remote);
    assert_eq!(plan.downloads, vec![tune("one"), tune("three")]);
    assert_eq!(plan.manifest, Some(local.append(&plan.downloads)));
}

#[test]
fn corrupt_text_leads_to_a_fresh_setup_with_the_snapshot() {
    let items = vec![
        RemoteItem::Episode,
        RemoteItem::Track(RemoteTrack {
            name: "One".to_string(),
            artists: vec!["A".to_string()],
            album: "X".to_string(),
            id: Some("1".to_string()),
        }),
        RemoteItem::Track(RemoteTrack {
            name: "Two".to_string(),
            artists: vec!["B".to_string()],
            album: "Y".to_string(),
            id: Some("2".to_string()),
        }),
    ];
    let snapshot = playlist_snapshot(&items);
    let stored = stored_manifest(Some("(title: \"Mix\", songs: ["), None);
    assert_eq!(stored, StoredManifest::Corrupt);
    let plan = plan_sync("Mix", &stored, &snapshot);
    assert_eq!(plan.downloads, snapshot);
    assert_eq!(plan.manifest, Some(Manifest { title: "Mix".to_string(), tracks: playlist_snapshot(&items) }));
    let requests = download_plan("Mix", "/music", "mp3", &plan.downloads);
    assert_eq!(requests.len(), 2);
    assert_eq!(requests[0].args[2], "--spotify-id=1");
    assert_eq!(requests[1].args[2], "--spotify-id=2");
}

#[test]
fn second_pass_after_a_first_is_idle() {
    let remote = vec![tune("one"), tune("two"), tune("one"), tune("three")];
    for start in [
        StoredManifest::Absent,
        StoredManifest::Corrupt,
        StoredManifest::Loaded(Manifest { title: "Mix".to_string(), tracks: vec![tune("two")] }),
    ] {
        let first = plan_sync("Mix", &start, &remote);
        let after = stored(&first, start);
        let second = plan_sync("Mix", &after, &remote);
        assert!(second.downloads.is_empty());
        assert_eq!(second.manifest, None);
    }
}

#[test]
fn missing_or_empty_file_is_an_absent_manifest() {
    assert_eq!(stored_manifest(None, None), StoredManifest::Absent);
    assert_eq!(stored_manifest(Some(""), None), StoredManifest::Absent);
    assert_eq!(stored_manifest(None, Some(Manifest::new("x"))), StoredManifest::Absent);
    assert_eq!(stored_manifest(Some(""), Some(Manifest::new("x"))), StoredManifest::Absent);
}

#[test]
fn text_that_is_not_understood_is_a_corrupt_manifest() {
    assert_eq!(stored_manifest(Some("(title: "), None), StoredManifest::Corrupt);
    assert_eq!(stored_manifest(Some(" "), None), StoredManifest::Corrupt);
}

#[test]
fn text_that_is_understood_is_a_loaded_manifest() {
    let manifest = Manifest { title: "Mix".to_string(), tracks: vec![tune("one")] };
    assert_eq!(
        stored_manifest(Some("(title: \"Mix\", songs: [])"), Some(manifest.clone())),
        StoredManifest::Loaded(manifest)
    );
}
