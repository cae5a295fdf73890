//! The track record and its mathematical view.

use vstd::prelude::*;

verus! {

/// What a [`Track`] is in specifications: four pieces of text, the artist
/// names kept in order.
pub struct TrackView {
    pub id: Seq<char>,
    pub title: Seq<char>,
    pub artists: Seq<Seq<char>>,
    pub album: Seq<char>,
}

/// A remote audio item. The `id` is the identity key: two tracks with the same
/// `id` are the same song, whatever their other fields say.
#[derive(Debug, PartialEq, Eq, Hash)]
pub struct Track {
    pub title: String,
    pub artists: Vec<String>,
    pub album: String,
    pub id: String,
}

/// The characters of each string of a list, in order.
pub open spec fn text_views(names: Seq<String>) -> Seq<Seq<char>> {
    names.map_values(|s: String| s@)
}

/// The views of a list of tracks, in order.
pub open spec fn track_views(tracks: Seq<Track>) -> Seq<TrackView> {
    tracks.map_values(|t: Track| t@)
}

/// The ids of a list of tracks, in order.
pub open spec fn ids_of(tracks: Seq<TrackView>) -> Seq<Seq<char>> {
    tracks.map_values(|t: TrackView| t.id)
}

/// Whether some track of the list carries the given id.
pub open spec fn has_id(tracks: Seq<TrackView>, id: Seq<char>) -> bool {
    ids_of(tracks).contains(id)
}

/// Whether no id occurs twice in the list.
pub open spec fn unique_ids(tracks: Seq<TrackView>) -> bool {
    ids_of(tracks).no_duplicates()
}

impl View for Track {
    type V = TrackView;

    open spec fn view(&self) -> TrackView {
        TrackView {
            id: self.id@,
            title: self.title@,
            artists: text_views(self.artists@),
            album: self.album@,
        }
    }
}

/// Copies a list of strings.
pub fn clone_strings(names: &Vec<String>) -> (copy: Vec<String>)
    ensures
        text_views(copy@) == text_views(names@),
{
    let mut copy: Vec<String> = Vec::new();
    let mut i: usize = 0;
    while i < names.len()
        invariant
            i <= names.len(),
            copy.len() == i,
            forall|k: int| 0 <= k < i ==> copy[k]@ == names[k]@,
        decreases names.len() - i,
    {
        copy.push(names[i].clone());
        i += 1;
    }
    assert(text_views(copy@) =~= text_views(names@));
    copy
}

impl Clone for Track {
    fn clone(&self) -> (copy: Self)
        ensures
            copy@ == self@,
    {
        Track {
            title: self.title.clone(),
            artists: clone_strings(&self.artists),
            album: self.album.clone(),
            id: self.id.clone(),
        }
    }
}

impl Track {
    /// Whether two tracks are the same song, that is, carry the same id.
    pub fn same_song(&self, other: &Track) -> (same: bool)
        ensures
            same == (self@.id == other@.id),
    {
        self.id == other.id
    }
}

/// Copies a list of tracks.
pub fn clone_tracks(tracks: &Vec<Track>) -> (copy: Vec<Track>)
    ensures
        track_views(copy@) == track_views(tracks@),
{
    let mut copy: Vec<Track> = Vec::new();
    let mut i: usize = 0;
    while i < tracks.len()
        invariant
            i <= tracks.len(),
            copy.len() == i,
            forall|k: int| 0 <= k < i ==> copy[k]@ == tracks[k]@,
        decreases tracks.len() - i,
    {
        copy.push(tracks[i].clone());
        i += 1;
    }
    assert(track_views(copy@) =~= track_views(tracks@));
    copy
}

} // verus!
