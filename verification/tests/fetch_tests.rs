use spotsync::fetch::{catalogued_tracks, playlist_snapshot, track_record, RemoteItem, RemoteTrack};
use spotsync::track::Track;

fn remote(id: Option<&str>, name: &str, artists: &[&str], album: &str) -> RemoteItem {
    RemoteItem::Track(RemoteTrack {
        name: name.to_string(),
        artists: artists.iter().map(|a| a.to_string()).collect(),
        album: album.to_string(),
        id: id.map(|i| i.to_string()),
    })
}

fn local(id: &str, title: &str, artists: &[&str], album: &str) -> Track {
    Track {
        title: title.to_string(),
        artists: artists.iter().map(|a| a.to_string()).collect(),
        album: album.to_string(),
        id: id.to_string(),
    }
}

#[test]
fn track_record_copies_the_fields() {
    let item = remote(Some("id1"), "Song", &["A", "B"], "Album");
    assert_eq!(track_record(&item), Some(local("id1", "Song", &["A", "B"], "Album")));
}

#[test]
fn track_record_keeps_empty_fields() {
    let item = remote(Some(""), "", &[], "");
    assert_eq!(track_record(&item), Some(local("", "", &[], "")));
}

#[test]
fn track_without_id_has_no_record() {
    assert_eq!(track_record(&remote(None, "Song", &["A"], "Album")), None);
}

#[test]
fn episode_and_empty_entry_have_no_record() {
    assert_eq!(track_record(&RemoteItem::Episode), None);
    assert_eq!(track_record(&RemoteItem::Missing), None);
}

#[test]
fn catalogued_tracks_keep_order_and_repetitions() {
    let items = vec![
        remote(Some("b"), "B", &["A"], "X"),
        RemoteItem::Episode,
        remote(Some("a"), "A", &["A"], "X"),
        remote(None, "Tape", &["Me"], "Y"),
        remote(Some("b"), "B", &["A"], "X"),
    ];
    let ids: Vec<String> = catalogued_tracks(&items).into_iter().map(|t| t.id).collect();
    assert_eq!(ids, vec!["b", "a", "b"]);
}

#[test]
fn snapshot_excludes_episodes_and_empty_entries() {
    let items = vec![
        RemoteItem::Episode,
        remote(Some("1"), "One", &["A"], "X"),
        RemoteItem::Missing,
        remote(Some("2"), "Two", &["B"], "Y"),
        RemoteItem::Episode,
    ];
    assert_eq!(
        playlist_snapshot(&items),
        vec![local("1", "One", &["A"], "X"), local("2", "Two", &["B"], "Y")]
    );
}

#[test]
fn snapshot_excludes_tracks_without_id() {
    let items = vec![remote(None, "Local file", &["Me"], "Tape"), remote(Some("1"), "One", &["A"], "X")];
    assert_eq!(playlist_snapshot(&items), vec![local("1", "One", &["A"], "X")]);
}

#[test]
fn snapshot_keeps_a_track_whose_title_reads_like_a_missing_one() {
    let items = vec![remote(Some("id1"), "Track not found", &["X"], "Al")];
    assert_eq!(playlist_snapshot(&items), vec![local("id1", "Track not found", &["X"], "Al")]);
}

#[test]
fn snapshot_goes_by_kind_and_id_not_by_text() {
    let items = vec![
        remote(Some("1"), "Track not found", &["A"], "X"),
        remote(Some("2"), "Two", &["Artists not found"], "X"),
        remote(Some("3"), "Three", &["A"], "Track not found"),
        remote(Some("Track not found"), "Four", &["A"], "X"),
        remote(Some("5"), "Track not found", &["Artists not found"], "Track not found"),
    ];
    assert_eq!(
        playlist_snapshot(&items),
        vec![
            local("1", "Track not found", &["A"], "X"),
            local("2", "Two", &["Artists not found"], "X"),
            local("3", "Three", &["A"], "Track not found"),
            local("Track not found", "Four", &["A"], "X"),
            local("5", "Track not found", &["Artists not found"], "Track not found"),
        ]
    );
}

#[test]
fn snapshot_holds_each_id_once_at_its_first_place() {
    let items = vec![
        remote(Some("b"), "B", &["A"], "X"),
        remote(Some("a"), "A", &["A"], "X"),
        remote(Some("b"), "B again", &["Other"], "Y"),
        remote(Some("c"), "C", &["A"], "X"),
        remote(Some("a"), "A", &["A"], "X"),
    ];
    assert_eq!(
        playlist_snapshot(&items),
        vec![
            local("b", "B", &["A"], "X"),
            local("a", "A", &["A"], "X"),
            local("c", "C", &["A"], "X"),
        ]
    );
}

#[test]
fn snapshot_of_nothing_is_empty() {
    assert_eq!(playlist_snapshot(&Vec::new()), Vec::<Track>::new());
    assert_eq!(playlist_snapshot(&vec![RemoteItem::Episode, RemoteItem::Missing]), Vec::<Track>::new());
    assert_eq!(playlist_snapshot(&vec![remote(None, "Tape", &["Me"], "Y")]), Vec::<Track>::new());
}
