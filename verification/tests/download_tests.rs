use spotsync::download::{
    classify_exit, download_plan, download_request, join_names, playlist_dir, search_query,
    DownloadOutcome,
};
use spotsync::track::Track;

fn piece(id: &str, title: &str, artists: &[&str]) -> Track {
    Track {
        title: title.to_string(),
        artists: artists.iter().map(|a| a.to_string()).collect(),
        album: "Album".to_string(),
        id: id.to_string(),
    }
}

fn strings(items: &[&str]) -> Vec<String> {
    items.iter().map(|s| s.to_string()).collect()
}

#[test]
fn join_names_puts_the_separator_between() {
    assert_eq!(join_names(&strings(&["a", "b", "c"]), " "), "a b c");
    assert_eq!(join_names(&strings(&["a", "b"]), ", "), "a, b");
    assert_eq!(join_names(&strings(&["a", "b"]), ""), "ab");
}

#[test]
fn join_names_of_one_or_none() {
    assert_eq!(join_names(&strings(&["solo"]), " "), "solo");
    assert_eq!(join_names(&Vec::new(), " "), "");
}

#[test]
fn join_names_keeps_empty_names() {
    assert_eq!(join_names(&strings(&["", "b", ""]), "-"), "-b-");
    assert_eq!(join_names(&strings(&["", ""]), "-"), "-");
}

#[test]
fn playlist_dir_is_below_the_song_dir() {
    assert_eq!(playlist_dir("/music", "Road Trip"), "/music/Road Trip");
    assert_eq!(playlist_dir("", ""), "/");
}

#[test]
fn search_query_is_title_and_artists() {
    assert_eq!(search_query(&piece("1", "Song", &["A", "B C"])), "Song A B C");
    assert_eq!(search_query(&piece("1", "Song", &["A"])), "Song A");
    assert_eq!(search_query(&piece("1", "Song", &[])), "Song ");
}

#[test]
fn download_request_has_the_five_arguments() {
    let request = download_request("Road Trip", "/music", "mp3", &piece("abc123", "Song", &["A", "B"]));
    assert_eq!(request.program, "ytmdl");
    assert_eq!(
        request.args,
        strings(&["-q", "--output=/music/Road Trip", "--spotify-id=abc123", "--format=mp3", "Song A B"])
    );
}

#[test]
fn download_request_does_not_escape() {
    let request = download_request("a b", "~/m", "", &piece("", "", &[]));
    assert_eq!(request.args, strings(&["-q", "--output=~/m/a b", "--spotify-id=", "--format=", " "]));
}

#[test]
fn download_plan_has_one_request_per_track_in_order() {
    let tracks = vec![piece("2", "Two", &["B"]), piece("1", "One", &["A"]), piece("2", "Two", &["B"])];
    let plan = download_plan("Mix", "/m", "opus", &tracks);
    assert_eq!(plan.len(), 3);
    for i in 0..3 {
        assert_eq!(plan[i], download_request("Mix", "/m", "opus", &tracks[i]));
    }
    assert_eq!(plan[1].args[2], "--spotify-id=1");
}

#[test]
fn download_plan_of_nothing_is_empty() {
    assert!(download_plan("Mix", "/m", "opus", &Vec::new()).is_empty());
}

#[test]
fn classify_exit_zero_is_success() {
    assert_eq!(classify_exit(Some(0)), DownloadOutcome::Downloaded);
}

#[test]
fn classify_exit_everything_else_is_failure() {
    assert_eq!(classify_exit(Some(1)), DownloadOutcome::Failed);
    assert_eq!(classify_exit(Some(-1)), DownloadOutcome::Failed);
    assert_eq!(classify_exit(Some(255)), DownloadOutcome::Failed);
    assert_eq!(classify_exit(Some(i32::MIN)), DownloadOutcome::Failed);
    assert_eq!(classify_exit(None), DownloadOutcome::Failed);
}
