//! Turning the items of a remote playlist into the tracks that can be
//! synchronized.
//!
//! A playlist may hold things that are no tracks (podcast episodes, entries
//! the service returns empty) and tracks without a catalogue id (files a user
//! uploaded). Neither can be told apart from its like by an id, so neither is
//! synchronized: the snapshot of a playlist holds its catalogued tracks, and
//! each of them once, however often the playlist lists it.

use vstd::prelude::*;
use crate::manifest::{
    first_occurrences, first_occurrences_spec, lemma_first_occurrences_are_unique,
    lemma_first_occurrences_keep_ids, lemma_first_occurrences_of_unique,
    lemma_merge_adds_from_added,
};
use crate::track::{
    clone_strings, has_id, ids_of, text_views, track_views, unique_ids, Track, TrackView,
};

verus! {

/// A track as the remote service describes it. The id is absent for a file
/// that is not in the service's catalogue.
#[derive(Debug, PartialEq, Eq)]
pub struct RemoteTrack {
    pub name: String,
    pub artists: Vec<String>,
    pub album: String,
    pub id: Option<String>,
}

/// One entry of a remote playlist.
#[derive(Debug, PartialEq, Eq)]
pub enum RemoteItem {
    /// A track.
    Track(RemoteTrack),
    /// A podcast episode.
    Episode,
    /// An entry for which the service returned nothing.
    Missing,
}

/// What a [`RemoteTrack`] is in specifications.
pub struct RemoteTrackView {
    pub name: Seq<char>,
    pub artists: Seq<Seq<char>>,
    pub album: Seq<char>,
    pub id: Option<Seq<char>>,
}

/// What a [`RemoteItem`] is in specifications.
pub enum RemoteItemView {
    Track(RemoteTrackView),
    Episode,
    Missing,
}

impl View for RemoteTrack {
    type V = RemoteTrackView;

    open spec fn view(&self) -> RemoteTrackView {
        RemoteTrackView {
            name: self.name@,
            artists: text_views(self.artists@),
            album: self.album@,
            id: match self.id {
                Some(id) => Some(id@),
                None => None,
            },
        }
    }
}

impl View for RemoteItem {
    type V = RemoteItemView;

    open spec fn view(&self) -> RemoteItemView {
        match self {
            RemoteItem::Track(track) => RemoteItemView::Track(track@),
            RemoteItem::Episode => RemoteItemView::Episode,
            RemoteItem::Missing => RemoteItemView::Missing,
        }
    }
}

/// The views of a list of playlist items, in order.
pub open spec fn item_views(items: Seq<RemoteItem>) -> Seq<RemoteItemView> {
    items.map_values(|item: RemoteItem| item@)
}

/// The track record of an item: that of a track which the service knows by
/// an id, with the track's name as title. Any other item has none.
pub open spec fn record_spec(item: RemoteItemView) -> Option<TrackView> {
    match item {
        RemoteItemView::Track(track) => match track.id {
            Some(id) => Some(
                TrackView { id, title: track.name, artists: track.artists, album: track.album },
            ),
            None => None,
        },
        _ => None,
    }
}

/// Whether an item is a track that the service knows by an id.
pub open spec fn is_catalogued_track(item: RemoteItemView) -> bool {
    item matches RemoteItemView::Track(track) && track.id is Some
}

/// The records of the catalogued tracks among the items, in the order of the
/// items; every other item contributes nothing.
pub open spec fn catalogued_spec(items: Seq<RemoteItemView>) -> Seq<TrackView> {
    items.filter_map(|item: RemoteItemView| record_spec(item))
}

/// The snapshot of a playlist: the records of its catalogued tracks in
/// playlist order, each id once, at the place where the playlist lists it
/// first.
pub open spec fn snapshot_spec(items: Seq<RemoteItemView>) -> Seq<TrackView> {
    first_occurrences_spec(catalogued_spec(items))
}

/// Computes the track record of one playlist item, if it has one.
pub fn track_record(item: &RemoteItem) -> (record: Option<Track>)
    ensures
        match record {
            Some(track) => record_spec(item@) == Some(track@),
            None => record_spec(item@) is None,
        },
        record is Some <==> is_catalogued_track(item@),
{
    match item {
        RemoteItem::Track(remote) => match &remote.id {
            Some(id) => Some(
                Track {
                    title: remote.name.clone(),
                    artists: clone_strings(&remote.artists),
                    album: remote.album.clone(),
                    id: id.clone(),
                },
            ),
            None => None,
        },
        _ => None,
    }
}

/// Computes the records of the catalogued tracks among the items, in the
/// order of the items.
pub fn catalogued_tracks(items: &Vec<RemoteItem>) -> (tracks: Vec<Track>)
    ensures
        track_views(tracks@) == catalogued_spec(item_views(items@)),
{
    let mut tracks: Vec<Track> = Vec::new();
    let mut i: usize = 0;
    let ghost record = |item: RemoteItemView| record_spec(item);
    assert(item_views(items@).take(0).filter_map(record) =~= track_views(tracks@));
    while i < items.len()
        invariant
            i <= items.len(),
            record == |item: RemoteItemView| record_spec(item),
            track_views(tracks@) == item_views(items@).take(i as int).filter_map(record),
        decreases items.len() - i,
    {
        let ghost before = track_views(tracks@);
        proof {
            item_views(items@).lemma_filter_map_take_succ(record, i as int);
        }
        match track_record(&items[i]) {
            Some(track) => {
                tracks.push(track);
                assert(track_views(tracks@) =~= before + seq![track@]);
            },
            None => {},
        }
        i += 1;
    }
    assert(item_views(items@).take(i as int) =~= item_views(items@));
    tracks
}

/// Computes the snapshot of a remote playlist from its items. The result
/// holds, in playlist order, the record of each item that is a track with an
/// id, and nothing else: an episode, an empty entry or a track without an id
/// contributes nothing. A track that the playlist lists more than once is in
/// the result once, at the place of its first occurrence, so no id occurs
/// twice.
pub fn playlist_snapshot(items: &Vec<RemoteItem>) -> (tracks: Vec<Track>)
    ensures
        track_views(tracks@) == snapshot_spec(item_views(items@)),
        unique_ids(track_views(tracks@)),
{
    let found = catalogued_tracks(items);
    first_occurrences(&found)
}

/// Whether `track` is the record of some catalogued track among `items`.
pub open spec fn recorded_from(items: Seq<RemoteItemView>, track: TrackView) -> bool {
    exists|i: int| 0 <= i < items.len() && record_spec(#[trigger] items[i]) == Some(track)
}

/// Nothing but catalogued tracks is in a snapshot: each of its tracks is the
/// record of a track of the playlist that has an id. An episode, an empty
/// entry or a track without an id therefore never appears in it.
pub proof fn lemma_snapshot_holds_catalogued_tracks_only(items: Seq<RemoteItemView>)
    ensures
        forall|k: int|
            0 <= k < snapshot_spec(items).len() ==> recorded_from(
                items,
                #[trigger] snapshot_spec(items)[k],
            ),
{
    let record = |item: RemoteItemView| record_spec(item);
    let catalogued = catalogued_spec(items);
    let snapshot = snapshot_spec(items);
    lemma_merge_adds_from_added(Seq::empty(), catalogued);
    assert forall|k: int| 0 <= k < snapshot.len() implies recorded_from(
        items,
        #[trigger] snapshot[k],
    ) by {
        assert(catalogued.contains(snapshot[k]));
        items.lemma_filter_map_contains(record, snapshot[k]);
        let item = choose|item: RemoteItemView| #[trigger]
            items.contains(item) && record(item) == Some(snapshot[k]);
        let i = choose|i: int| 0 <= i < items.len() && items[i] == item;
        assert(record_spec(items[i]) == Some(snapshot[k]));
    }
}

/// The record of every catalogued track is among the catalogued records.
pub proof fn lemma_catalogued_holds_every_record(items: Seq<RemoteItemView>, i: int)
    requires
        0 <= i < items.len(),
        is_catalogued_track(items[i]),
    ensures
        catalogued_spec(items).contains(record_spec(items[i])->0),
    decreases items.len(),
{
    let record = |item: RemoteItemView| record_spec(item);
    let rest = items.drop_last();
    let found = rest.filter_map(record);
    if i == items.len() - 1 {
        let all = found + seq![record_spec(items[i])->0];
        assert(all[found.len() as int] == record_spec(items[i])->0);
    } else {
        lemma_catalogued_holds_every_record(rest, i);
        let wanted = record_spec(rest[i])->0;
        let k = choose|k: int| 0 <= k < found.len() && found[k] == wanted;
        match record(items.last()) {
            Some(track) => {
                assert((found + seq![track])[k] == wanted);
            },
            None => {},
        }
    }
}

/// No id occurs twice in a snapshot, and an id is in it exactly when some
/// catalogued track of the playlist carries it.
pub proof fn lemma_snapshot_ids(items: Seq<RemoteItemView>)
    ensures
        unique_ids(snapshot_spec(items)),
        forall|id: Seq<char>|
            has_id(snapshot_spec(items), id) <==> has_id(catalogued_spec(items), id),
        forall|i: int|
            0 <= i < items.len() && is_catalogued_track(#[trigger] items[i]) ==> has_id(
                snapshot_spec(items),
                record_spec(items[i])->0.id,
            ),
{
    let catalogued = catalogued_spec(items);
    lemma_first_occurrences_are_unique(catalogued);
    lemma_first_occurrences_keep_ids(catalogued);
    assert forall|i: int|
        0 <= i < items.len() && is_catalogued_track(#[trigger] items[i]) implies has_id(
        snapshot_spec(items),
        record_spec(items[i])->0.id,
    ) by {
        lemma_catalogued_holds_every_record(items, i);
        let wanted = record_spec(items[i])->0;
        let k = choose|k: int| 0 <= k < catalogued.len() && catalogued[k] == wanted;
        assert(ids_of(catalogued)[k] == wanted.id);
        assert(has_id(catalogued, wanted.id));
    }
}

/// Where the playlist lists no catalogued track twice, the snapshot is the
/// records of all its catalogued tracks, in playlist order.
pub proof fn lemma_snapshot_without_repetition(items: Seq<RemoteItemView>)
    requires
        unique_ids(catalogued_spec(items)),
    ensures
        snapshot_spec(items) == catalogued_spec(items),
{
    lemma_first_occurrences_of_unique(catalogued_spec(items));
}

} // verus!
