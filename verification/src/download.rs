//! What the external downloader is asked to do for a missing track, and how
//! its answer is read.
//!
//! The downloader is a separate program that is run once per track. This
//! module computes the command line of each run and classifies the exit of
//! the process; starting the process is the caller's business.

use vstd::prelude::*;
use vstd::string::*;
use crate::track::{text_views, track_views, Track, TrackView};

verus! {

/// The names joined into one text, `separator` between neighbours.
pub open spec fn joined_spec(names: Seq<Seq<char>>, separator: Seq<char>) -> Seq<char>
    decreases names.len(),
{
    if names.len() == 0 {
        Seq::empty()
    } else if names.len() == 1 {
        names[0]
    } else {
        joined_spec(names.drop_last(), separator) + separator + names.last()
    }
}

/// Joins the names into one string, `separator` between neighbours.
pub fn join_names(names: &Vec<String>, separator: &str) -> (joined: String)
    ensures
        joined@ == joined_spec(text_views(names@), separator@),
{
    let mut joined = String::new();
    let mut i: usize = 0;
    let ghost all = text_views(names@);
    while i < names.len()
        invariant
            i <= names.len(),
            all == text_views(names@),
            joined@ == joined_spec(all.take(i as int), separator@),
        decreases names.len() - i,
    {
        let ghost before = joined@;
        if i > 0 {
            joined.append(separator);
        }
        joined.append(names[i].as_str());
        proof {
            let next = all.take(i + 1);
            assert(next.drop_last() =~= all.take(i as int));
            assert(next.last() == names[i as int]@);
            if i == 0 {
                assert(before =~= Seq::<char>::empty());
                assert(joined@ =~= names[i as int]@);
            }
        }
        i += 1;
    }
    assert(all.take(i as int) =~= all);
    joined
}

/// One run of the downloader: the program and its arguments, in order.
#[derive(Debug, PartialEq, Eq)]
pub struct DownloadRequest {
    pub program: String,
    pub args: Vec<String>,
}

/// What a [`DownloadRequest`] is in specifications.
pub struct DownloadRequestView {
    pub program: Seq<char>,
    pub args: Seq<Seq<char>>,
}

impl View for DownloadRequest {
    type V = DownloadRequestView;

    open spec fn view(&self) -> DownloadRequestView {
        DownloadRequestView { program: self.program@, args: text_views(self.args@) }
    }
}

/// The views of a list of requests, in order.
pub open spec fn request_views(requests: Seq<DownloadRequest>) -> Seq<DownloadRequestView> {
    requests.map_values(|request: DownloadRequest| request@)
}

/// The directory that receives the files of a playlist: the playlist's title
/// below the music directory.
pub open spec fn playlist_dir_spec(song_dir: Seq<char>, playlist_title: Seq<char>) -> Seq<char> {
    song_dir + "/"@ + playlist_title
}

/// The free-text query by which the downloader searches for a track: its
/// title, a space, and its artists with a space between them.
pub open spec fn query_spec(track: TrackView) -> Seq<char> {
    track.title + " "@ + joined_spec(track.artists, " "@)
}

/// The request that downloads one track of a playlist: the program `ytmdl`
/// with, in this order, the quiet flag, the output directory, the track's id,
/// the audio format and the search query.
pub open spec fn request_spec(
    playlist_title: Seq<char>,
    song_dir: Seq<char>,
    format: Seq<char>,
    track: TrackView,
) -> DownloadRequestView {
    DownloadRequestView {
        program: "ytmdl"@,
        args: seq![
            "-q"@,
            "--output="@ + playlist_dir_spec(song_dir, playlist_title),
            "--spotify-id="@ + track.id,
            "--format="@ + format,
            query_spec(track),
        ],
    }
}

/// The requests for a list of tracks: one per track, in the order of the list.
pub open spec fn download_plan_spec(
    playlist_title: Seq<char>,
    song_dir: Seq<char>,
    format: Seq<char>,
    tracks: Seq<TrackView>,
) -> Seq<DownloadRequestView> {
    tracks.map_values(|track: TrackView| request_spec(playlist_title, song_dir, format, track))
}

/// Computes the directory that receives the files of a playlist.
pub fn playlist_dir(song_dir: &str, playlist_title: &str) -> (dir: String)
    ensures
        dir@ == playlist_dir_spec(song_dir@, playlist_title@),
{
    let mut dir = String::from_str(song_dir);
    dir.append("/");
    dir.append(playlist_title);
    dir
}

/// Computes the search query for a track.
pub fn search_query(track: &Track) -> (query: String)
    ensures
        query@ == query_spec(track@),
{
    let mut query = track.title.clone();
    query.append(" ");
    let artists = join_names(&track.artists, " ");
    query.append(artists.as_str());
    query
}

/// Computes the downloader run for one track of a playlist.
pub fn download_request(playlist_title: &str, song_dir: &str, format: &str, track: &Track) -> (request:
    DownloadRequest)
    ensures
        request@ == request_spec(playlist_title@, song_dir@, format@, track@),
{
    let mut output = String::from_str("--output=");
    let dir = playlist_dir(song_dir, playlist_title);
    output.append(dir.as_str());
    let mut id = String::from_str("--spotify-id=");
    id.append(track.id.as_str());
    let mut wanted = String::from_str("--format=");
    wanted.append(format);
    let mut args: Vec<String> = Vec::new();
    args.push(String::from_str("-q"));
    args.push(output);
    args.push(id);
    args.push(wanted);
    args.push(search_query(track));
    let request = DownloadRequest { program: String::from_str("ytmdl"), args };
    assert(request@.args =~= request_spec(playlist_title@, song_dir@, format@, track@).args);
    request
}

/// Computes the downloader runs for the tracks of a playlist: one request per
/// track, in the order of `tracks`, to be carried out one after the other.
pub fn download_plan(playlist_title: &str, song_dir: &str, format: &str, tracks: &Vec<Track>) -> (requests:
    Vec<DownloadRequest>)
    ensures
        request_views(requests@) == download_plan_spec(
            playlist_title@,
            song_dir@,
            format@,
            track_views(tracks@),
        ),
{
    let mut requests: Vec<DownloadRequest> = Vec::new();
    let mut i: usize = 0;
    while i < tracks.len()
        invariant
            i <= tracks.len(),
            requests.len() == i,
            forall|k: int|
                0 <= k < i ==> requests[k]@ == request_spec(
                    playlist_title@,
                    song_dir@,
                    format@,
                    tracks[k]@,
                ),
        decreases tracks.len() - i,
    {
        requests.push(download_request(playlist_title, song_dir, format, &tracks[i]));
        i += 1;
    }
    assert(request_views(requests@) =~= download_plan_spec(
        playlist_title@,
        song_dir@,
        format@,
        track_views(tracks@),
    ));
    requests
}

/// How one run of the downloader ended.
#[derive(Debug, Clone, Copy, PartialEq, Eq, Structural)]
pub enum DownloadOutcome {
    /// The process exited with status 0.
    Downloaded,
    /// The process exited with another status, was killed, or could not be
    /// started. This concerns the one track only and is worth a warning.
    Failed,
}

/// How the exit of the downloader is read: status 0 is success, everything
/// else a failure of that one track.
pub open spec fn classify_exit_spec(exit_code: Option<i32>) -> DownloadOutcome {
    if exit_code == Some(0i32) {
        DownloadOutcome::Downloaded
    } else {
        DownloadOutcome::Failed
    }
}

/// Classifies the end of one downloader run. `exit_code` is the status with
/// which the process exited, or `None` where there is none because the
/// process was killed or never started.
pub fn classify_exit(exit_code: Option<i32>) -> (outcome: DownloadOutcome)
    ensures
        outcome == classify_exit_spec(exit_code),
{
    match exit_code {
        Some(code) => if code == 0 {
            DownloadOutcome::Downloaded
        } else {
            DownloadOutcome::Failed
        },
        None => DownloadOutcome::Failed,
    }
}

} // verus!
