use spotsync::diff::{contains_id, missing};
use spotsync::track::{clone_strings, clone_tracks, Track};

fn track(id: &str, title: &str) -> Track {
    Track {
        title: title.to_string(),
        artists: vec!["Artist".to_string()],
        album: "Album".to_string(),
        id: id.to_string(),
    }
}

fn ids(tracks: &[Track]) -> Vec<String> {
    tracks.iter().map(|t| t.id.clone()).collect()
}

#[test]
fn missing_of_empty_local_is_remote() {
    let remote = vec![track("a", "A"), track("b", "B"), track("c", "C")];
    let needed = missing(&Vec::new(), &remote);
    assert_eq!(needed, remote);
}

#[test]
fn missing_of_empty_remote_is_empty() {
    let local = vec![track("a", "A")];
    assert_eq!(missing(&local, &Vec::new()), Vec::<Track>::new());
}

#[test]
fn missing_of_identical_lists_is_empty() {
    let local = vec![track("a", "A"), track("b", "B")];
    let remote = clone_tracks(&local);
    assert_eq!(missing(&local, &remote), Vec::<Track>::new());
}

#[test]
fn missing_keeps_remote_order() {
    let local = vec![track("b", "B"), track("d", "D")];
    let remote =
        vec![track("e", "E"), track("d", "D"), track("a", "A"), track("b", "B"), track("c", "C")];
    let needed = missing(&local, &remote);
    assert_eq!(ids(&needed), vec!["e", "a", "c"]);
    assert_eq!(needed[0], track("e", "E"));
    assert_eq!(needed[1], track("a", "A"));
    assert_eq!(needed[2], track("c", "C"));
}

#[test]
fn missing_goes_by_id_not_by_fields() {
    let local = vec![track("a", "Old title")];
    let mut renamed = track("a", "New title");
    renamed.album = "Remastered".to_string();
    renamed.artists = vec!["Someone".to_string(), "Else".to_string()];
    assert_eq!(missing(&local, &vec![renamed]), Vec::<Track>::new());
}

#[test]
fn missing_returns_track_with_same_fields_but_new_id() {
    let local = vec![track("a", "Same")];
    let remote = vec![track("b", "Same")];
    assert_eq!(missing(&local, &remote), vec![track("b", "Same")]);
}

#[test]
fn missing_does_not_collapse_repeated_remote_tracks() {
    let local = vec![track("a", "A")];
    let remote = vec![track("x", "X"), track("a", "A"), track("x", "X")];
    assert_eq!(ids(&missing(&local, &remote)), vec!["x", "x"]);
}

#[test]
fn missing_is_empty_when_local_covers_remote() {
    let local = vec![track("c", "C"), track("a", "A"), track("b", "B"), track("z", "Z")];
    let remote = vec![track("a", "A"), track("b", "B"), track("c", "C")];
    assert!(missing(&local, &remote).is_empty());
}

#[test]
fn missing_compares_ids_exactly() {
    let local = vec![track("abc", "A")];
    let remote = vec![track("ab", "A"), track("abcd", "A"), track("ABC", "A"), track("", "A")];
    assert_eq!(ids(&missing(&local, &remote)), vec!["ab", "abcd", "ABC", ""]);
}

#[test]
fn contains_id_finds_first_middle_last() {
    let tracks = vec![track("a", "A"), track("b", "B"), track("c", "C")];
    assert!(contains_id(&tracks, &"a".to_string()));
    assert!(contains_id(&tracks, &"b".to_string()));
    assert!(contains_id(&tracks, &"c".to_string()));
    assert!(!contains_id(&tracks, &"d".to_string()));
    assert!(!contains_id(&Vec::new(), &"a".to_string()));
}

#[test]
fn same_song_looks_at_the_id_only() {
    assert!(track("a", "One").same_song(&track("a", "Two")));
    assert!(!track("a", "One").same_song(&track("b", "One")));
}

#[test]
fn clone_keeps_every_field() {
    let first = Track {
        title: "Title".to_string(),
        artists: vec!["One".to_string(), "Two".to_string()],
        album: "Album".to_string(),
        id: "id-1".to_string(),
    };
    let copy = first.clone();
    assert_eq!(copy, first);
    assert_eq!(copy.artists, vec!["One".to_string(), "Two".to_string()]);
}

#[test]
fn clone_strings_keeps_order() {
    let names = vec!["b".to_string(), "a".to_string(), "".to_string()];
    assert_eq!(clone_strings(&names), names);
    assert_eq!(clone_strings(&Vec::new()), Vec::<String>::new());
}

#[test]
fn clone_tracks_keeps_order() {
    let tracks = vec![track("b", "B"), track("a", "A")];
    assert_eq!(clone_tracks(&tracks), tracks);
}
