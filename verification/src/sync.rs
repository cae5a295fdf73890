//! One pass over one playlist: from what is stored locally and what the
//! remote playlist holds now to the downloads to attempt and the manifest to
//! write.
//!
//! The pass is planned before anything is downloaded. A track whose download
//! fails is recorded in the manifest all the same: it counts as processed and
//! is not asked for again. Each song is downloaded once and recorded once,
//! and the manifest that is written is the stored one with the downloads
//! appended.

use vstd::prelude::*;
use crate::diff::{
    covers, is_selection, lemma_empty_missing_covers, lemma_missing_is_exact,
    lemma_missing_of_covered, missing, missing_spec,
};
use crate::fetch::{lemma_snapshot_ids, snapshot_spec, RemoteItemView};
use crate::manifest::{
    first_occurrences, first_occurrences_spec, lemma_first_occurrences_keep_ids,
    lemma_first_occurrences_of_unique, lemma_merge_ids, lemma_merge_keeps_ids_unique,
    lemma_merge_of_unknown, merge_spec, Manifest, ManifestView,
};
use crate::track::{has_id, ids_of, track_views, unique_ids, Track, TrackView};

verus! {

/// What was found where the manifest of a playlist is kept.
#[derive(Debug, PartialEq, Eq)]
pub enum StoredManifest {
    /// The file was read and understood.
    Loaded(Manifest),
    /// There is no manifest, or the file is still empty.
    Absent,
    /// There is a file, but its content is no manifest.
    Corrupt,
}

/// What a [`StoredManifest`] is in specifications.
pub enum StoredManifestView {
    Loaded(ManifestView),
    Absent,
    Corrupt,
}

impl View for StoredManifest {
    type V = StoredManifestView;

    open spec fn view(&self) -> StoredManifestView {
        match self {
            StoredManifest::Loaded(manifest) => StoredManifestView::Loaded(manifest@),
            StoredManifest::Absent => StoredManifestView::Absent,
            StoredManifest::Corrupt => StoredManifestView::Corrupt,
        }
    }
}

/// How a manifest file is read: a file that does not exist or is still empty
/// is an absent manifest, a text that was understood is the manifest it
/// holds, and any other text is corrupt.
pub open spec fn stored_spec(content: Option<Seq<char>>, parsed: Option<ManifestView>) -> StoredManifestView {
    match content {
        None => StoredManifestView::Absent,
        Some(text) => if text.len() == 0 {
            StoredManifestView::Absent
        } else {
            match parsed {
                Some(manifest) => StoredManifestView::Loaded(manifest),
                None => StoredManifestView::Corrupt,
            }
        },
    }
}

/// Classifies what was found where a manifest is kept. `content` is the text
/// of the file, or `None` where there is no file; `parsed` is the manifest
/// that the text holds, or `None` where the text is not understood.
pub fn stored_manifest(content: Option<&str>, parsed: Option<Manifest>) -> (stored: StoredManifest)
    ensures
        stored@ == stored_spec(
            match content {
                Some(text) => Some(text@),
                None => None,
            },
            match parsed {
                Some(manifest) => Some(manifest@),
                None => None,
            },
        ),
{
    match content {
        None => StoredManifest::Absent,
        Some(text) => if text.is_empty() {
            StoredManifest::Absent
        } else {
            match parsed {
                Some(manifest) => StoredManifest::Loaded(manifest),
                None => StoredManifest::Corrupt,
            }
        },
    }
}

/// The work of one pass over one playlist.
#[derive(Debug, PartialEq, Eq)]
pub struct SyncPlan {
    /// The tracks to download, in this order, one after the other.
    pub downloads: Vec<Track>,
    /// The manifest to write once the downloads were attempted, or `None`
    /// where the stored manifest stays as it is.
    pub manifest: Option<Manifest>,
}

/// What a [`SyncPlan`] is in specifications.
pub struct SyncPlanView {
    pub downloads: Seq<TrackView>,
    pub manifest: Option<ManifestView>,
}

impl View for SyncPlan {
    type V = SyncPlanView;

    open spec fn view(&self) -> SyncPlanView {
        SyncPlanView {
            downloads: track_views(self.downloads@),
            manifest: match self.manifest {
                Some(manifest) => Some(manifest@),
                None => None,
            },
        }
    }
}

/// The tracks that count as known locally: those of a loaded manifest, none
/// where the manifest is absent or corrupt.
pub open spec fn known_tracks(stored: StoredManifestView) -> Seq<TrackView> {
    match stored {
        StoredManifestView::Loaded(manifest) => manifest.tracks,
        _ => Seq::empty(),
    }
}

/// The plan of a pass.
///
/// The downloads are the remote tracks whose id is not known locally, in
/// remote order, each song once: of a song that the remote list holds more
/// than once, the first occurrence counts.
///
/// With a loaded manifest nothing is written if there are no downloads; else
/// the manifest keeps its title and its tracks and gains the downloads behind
/// them. Without a usable manifest the playlist is set up afresh: nothing is
/// known, and a manifest that holds the downloads is written under the
/// playlist's current title, also where the playlist is empty.
pub open spec fn plan_spec(
    playlist_title: Seq<char>,
    stored: StoredManifestView,
    remote: Seq<TrackView>,
) -> SyncPlanView {
    let downloads = first_occurrences_spec(missing_spec(known_tracks(stored), remote));
    match stored {
        StoredManifestView::Loaded(manifest) => SyncPlanView {
            downloads,
            manifest: if downloads.len() == 0 {
                None
            } else {
                Some(ManifestView { title: manifest.title, tracks: manifest.tracks + downloads })
            },
        },
        _ => SyncPlanView {
            downloads,
            manifest: Some(ManifestView { title: playlist_title, tracks: downloads }),
        },
    }
}

/// Plans one pass over one playlist, as [`plan_spec`] lays down. No id occurs
/// twice among the downloads, and none occurs twice in the manifest that the
/// plan writes, unless it did in the stored one. Where the remote list holds
/// no id twice, as every snapshot does, the downloads are exactly the tracks
/// that are missing, and a playlist without a usable manifest is set up with
/// the remote list as it is.
pub fn plan_sync(playlist_title: &str, stored: &StoredManifest, remote: &Vec<Track>) -> (plan:
    SyncPlan)
    ensures
        plan@ == plan_spec(playlist_title@, stored@, track_views(remote@)),
        unique_ids(plan@.downloads),
        unique_ids(known_tracks(stored@)) ==> (plan.manifest matches Some(written)
            ==> written.has_unique_ids()),
        unique_ids(track_views(remote@)) ==> plan@.downloads == missing_spec(
            known_tracks(stored@),
            track_views(remote@),
        ),
        unique_ids(track_views(remote@)) && !(stored@ is Loaded) ==> plan@ == (SyncPlanView {
            downloads: track_views(remote@),
            manifest: Some(
                ManifestView { title: playlist_title@, tracks: track_views(remote@) },
            ),
        }),
{
    proof {
        let known = known_tracks(stored@);
        let views = track_views(remote@);
        lemma_written_tracks_are_merged(known, views);
        if unique_ids(known) {
            lemma_merge_keeps_ids_unique(known, missing_spec(known, views));
        }
        if unique_ids(views) {
            lemma_downloads_are_the_diff(playlist_title@, stored@, views);
            if !(stored@ is Loaded) {
                lemma_fresh_playlist_downloads_all(playlist_title@, stored@, views);
            }
        }
    }
    match stored {
        StoredManifest::Loaded(manifest) => {
            let needed = missing(&manifest.tracks, remote);
            let downloads = first_occurrences(&needed);
            if downloads.len() == 0 {
                SyncPlan { downloads, manifest: None }
            } else {
                let updated = manifest.append(&downloads);
                SyncPlan { downloads, manifest: Some(updated) }
            }
        },
        _ => {
            let fresh = Manifest::new(playlist_title);
            let needed = missing(&fresh.tracks, remote);
            let downloads = first_occurrences(&needed);
            let updated = fresh.append(&downloads);
            assert(updated@.tracks =~= track_views(downloads@));
            SyncPlan { downloads, manifest: Some(updated) }
        },
    }
}

/// The known tracks with the downloads behind them are the known tracks
/// merged with what is missing.
proof fn lemma_written_tracks_are_merged(known: Seq<TrackView>, remote: Seq<TrackView>)
    ensures
        known + first_occurrences_spec(missing_spec(known, remote)) == merge_spec(
            known,
            missing_spec(known, remote),
        ),
{
    lemma_missing_is_exact(known, remote);
    lemma_merge_of_unknown(known, missing_spec(known, remote));
}

proof fn lemma_filter_keeps_all(tracks: Seq<TrackView>, keep: spec_fn(TrackView) -> bool)
    requires
        forall|i: int| 0 <= i < tracks.len() ==> keep(#[trigger] tracks[i]),
    ensures
        tracks.filter(keep) == tracks,
    decreases tracks.len(),
{
    reveal(Seq::filter);
    if tracks.len() > 0 {
        let rest = tracks.drop_last();
        assert forall|i: int| 0 <= i < rest.len() implies keep(#[trigger] rest[i]) by {
            assert(rest[i] == tracks[i]);
        }
        lemma_filter_keeps_all(rest, keep);
        assert(keep(tracks[tracks.len() - 1]));
        assert(rest.push(tracks.last()) =~= tracks);
    }
}

/// Where the remote list holds no id twice, the downloads are exactly the
/// remote tracks whose id is not known locally, in remote order.
pub proof fn lemma_downloads_are_the_diff(
    playlist_title: Seq<char>,
    stored: StoredManifestView,
    remote: Seq<TrackView>,
)
    requires
        unique_ids(remote),
    ensures
        plan_spec(playlist_title, stored, remote).downloads == missing_spec(
            known_tracks(stored),
            remote,
        ),
{
    let known = known_tracks(stored);
    let needed = missing_spec(known, remote);
    lemma_missing_is_exact(known, remote);
    let positions = choose|positions: Seq<int>| is_selection(positions, known, remote, needed);
    assert forall|i: int, j: int|
        0 <= i < ids_of(needed).len() && 0 <= j < ids_of(needed).len() && i != j implies ids_of(
        needed,
    )[i] != ids_of(needed)[j] by {
        assert(positions[i] != positions[j]) by {
            if i < j {
                assert(positions[i] < positions[j]);
            } else {
                assert(positions[j] < positions[i]);
            }
        }
        assert(ids_of(remote)[positions[i]] != ids_of(remote)[positions[j]]);
    }
    lemma_first_occurrences_of_unique(needed);
}

/// Setting up a playlist afresh: without a usable manifest, and with a remote
/// list that holds no id twice, every remote track is downloaded, in remote
/// order, and the manifest is written with the playlist's title and the
/// remote tracks as they are.
pub proof fn lemma_fresh_playlist_downloads_all(
    playlist_title: Seq<char>,
    stored: StoredManifestView,
    remote: Seq<TrackView>,
)
    requires
        !(stored is Loaded),
        unique_ids(remote),
    ensures
        plan_spec(playlist_title, stored, remote) == (SyncPlanView {
            downloads: remote,
            manifest: Some(ManifestView { title: playlist_title, tracks: remote }),
        }),
{
    let none = Seq::<TrackView>::empty();
    let absent = |track: TrackView| !has_id(none, track.id);
    assert forall|i: int| 0 <= i < remote.len() implies absent(#[trigger] remote[i]) by {
        assert(ids_of(none) =~= Seq::<Seq<char>>::empty());
    }
    lemma_filter_keeps_all(remote, absent);
    lemma_downloads_are_the_diff(playlist_title, stored, remote);
}

/// The same for what the fetcher returns: a playlist without a usable
/// manifest, be it absent or corrupt, is set up with the snapshot of the
/// remote playlist. Every track of the snapshot is downloaded, in order, and
/// the manifest is written with the playlist's title and the snapshot.
pub proof fn lemma_fresh_setup_of_snapshot(
    playlist_title: Seq<char>,
    stored: StoredManifestView,
    items: Seq<RemoteItemView>,
)
    requires
        !(stored is Loaded),
    ensures
        plan_spec(playlist_title, stored, snapshot_spec(items)) == (SyncPlanView {
            downloads: snapshot_spec(items),
            manifest: Some(
                ManifestView { title: playlist_title, tracks: snapshot_spec(items) },
            ),
        }),
{
    lemma_snapshot_ids(items);
    lemma_fresh_playlist_downloads_all(playlist_title, stored, snapshot_spec(items));
}

/// A manifest file whose text is not understood never stops a pass: it counts
/// as corrupt, and the playlist is set up afresh with the snapshot of the
/// remote playlist, under the playlist's title.
pub proof fn lemma_corrupt_manifest_starts_afresh(
    playlist_title: Seq<char>,
    text: Seq<char>,
    items: Seq<RemoteItemView>,
)
    requires
        text.len() > 0,
    ensures
        stored_spec(Some(text), None) == StoredManifestView::Corrupt,
        plan_spec(playlist_title, stored_spec(Some(text), None), snapshot_spec(items)) == (
        SyncPlanView {
            downloads: snapshot_spec(items),
            manifest: Some(
                ManifestView { title: playlist_title, tracks: snapshot_spec(items) },
            ),
        }),
{
    lemma_fresh_setup_of_snapshot(playlist_title, stored_spec(Some(text), None), items);
}

/// A pass over a playlist whose manifest already carries every remote id does
/// nothing: no download, and the stored manifest stays untouched.
pub proof fn lemma_steady_state(
    playlist_title: Seq<char>,
    manifest: ManifestView,
    remote: Seq<TrackView>,
)
    requires
        covers(manifest.tracks, remote),
    ensures
        plan_spec(playlist_title, StoredManifestView::Loaded(manifest), remote).downloads
            == Seq::<TrackView>::empty(),
        plan_spec(playlist_title, StoredManifestView::Loaded(manifest), remote).manifest is None,
{
    lemma_missing_of_covered(manifest.tracks, remote);
    lemma_first_occurrences_keep_ids(missing_spec(manifest.tracks, remote));
    assert(first_occurrences_spec(missing_spec(manifest.tracks, remote)) =~= Seq::<
        TrackView,
    >::empty());
}

/// The manifest a pass writes is the stored tracks with the downloads behind
/// them. It records every remote id, and nothing but what was known or is in
/// the remote playlist.
pub proof fn lemma_written_manifest(
    playlist_title: Seq<char>,
    stored: StoredManifestView,
    remote: Seq<TrackView>,
)
    requires
        plan_spec(playlist_title, stored, remote).manifest is Some,
    ensures
        ({
            let known = known_tracks(stored);
            let plan = plan_spec(playlist_title, stored, remote);
            let written = plan.manifest->0.tracks;
            &&& written == known + plan.downloads
            &&& covers(written, remote)
            &&& forall|id: Seq<char>|
                has_id(written, id) <==> has_id(known, id) || has_id(remote, id)
        }),
{
    let known = known_tracks(stored);
    let needed = missing_spec(known, remote);
    let written = plan_spec(playlist_title, stored, remote).manifest->0.tracks;
    assert(written =~= known + first_occurrences_spec(needed));
    lemma_written_tracks_are_merged(known, remote);
    lemma_missing_is_exact(known, remote);
    assert forall|id: Seq<char>|
        has_id(written, id) <==> has_id(known, id) || has_id(remote, id) by {
        lemma_merge_ids(known, needed, id);
        if has_id(needed, id) {
            let k = choose|k: int| 0 <= k < ids_of(needed).len() && ids_of(needed)[k] == id;
            assert(remote.contains(needed[k]));
            let i = choose|i: int| 0 <= i < remote.len() && remote[i] == needed[k];
            assert(ids_of(remote)[i] == id);
        }
        if has_id(remote, id) && !has_id(known, id) {
            let i = choose|i: int| 0 <= i < ids_of(remote).len() && ids_of(remote)[i] == id;
            assert(needed.contains(remote[i]));
            let k = choose|k: int| 0 <= k < needed.len() && needed[k] == remote[i];
            assert(ids_of(needed)[k] == id);
        }
    }
    assert forall|i: int| 0 <= i < remote.len() implies has_id(written, #[trigger] remote[i].id) by {
        assert(ids_of(remote)[i] == remote[i].id);
    }
}

/// A pass never writes a duplicate: if no id occurs twice in the stored
/// manifest, none occurs twice in the manifest that is written.
pub proof fn lemma_written_manifest_has_unique_ids(
    playlist_title: Seq<char>,
    stored: StoredManifestView,
    remote: Seq<TrackView>,
)
    requires
        unique_ids(known_tracks(stored)),
        plan_spec(playlist_title, stored, remote).manifest is Some,
    ensures
        unique_ids(plan_spec(playlist_title, stored, remote).manifest->0.tracks),
{
    let known = known_tracks(stored);
    let written = plan_spec(playlist_title, stored, remote).manifest->0.tracks;
    assert(written =~= known + first_occurrences_spec(missing_spec(known, remote)));
    lemma_written_tracks_are_merged(known, remote);
    lemma_merge_keeps_ids_unique(known, missing_spec(known, remote));
}

/// Once the manifest of a pass is stored, a second pass over the same remote
/// playlist finds nothing to do.
pub proof fn lemma_second_pass_is_idle(
    playlist_title: Seq<char>,
    stored: StoredManifestView,
    remote: Seq<TrackView>,
)
    ensures
        ({
            let first = plan_spec(playlist_title, stored, remote);
            let after = match first.manifest {
                Some(written) => StoredManifestView::Loaded(written),
                None => stored,
            };
            let second = plan_spec(playlist_title, after, remote);
            &&& second.downloads == Seq::<TrackView>::empty()
            &&& second.manifest is None
        }),
{
    let first = plan_spec(playlist_title, stored, remote);
    match first.manifest {
        Some(written) => {
            lemma_written_manifest(playlist_title, stored, remote);
            lemma_steady_state(playlist_title, written, remote);
        },
        None => {
            let manifest = stored->Loaded_0;
            lemma_first_occurrences_keep_ids(missing_spec(manifest.tracks, remote));
            lemma_empty_missing_covers(manifest.tracks, remote);
            lemma_steady_state(playlist_title, manifest, remote);
        },
    }
}

} // verus!
