//! The manifest: the persisted record of the tracks already known for one
//! playlist, and the two ways of adding tracks to it.

use vstd::prelude::*;
use vstd::string::*;
use crate::diff::contains_id;
use crate::track::{clone_tracks, has_id, ids_of, track_views, unique_ids, Track, TrackView};

verus! {

/// What a [`Manifest`] is in specifications.
pub struct ManifestView {
    pub title: Seq<char>,
    pub tracks: Seq<TrackView>,
}

/// The local record of one playlist: its title when the manifest was created
/// and the tracks known so far, in the order in which they were added.
#[derive(Debug, PartialEq, Eq)]
pub struct Manifest {
    pub title: String,
    pub tracks: Vec<Track>,
}

impl View for Manifest {
    type V = ManifestView;

    open spec fn view(&self) -> ManifestView {
        ManifestView { title: self.title@, tracks: track_views(self.tracks@) }
    }
}

/// The known tracks followed by those of `added` whose id is not yet present,
/// the first occurrence of an id winning.
pub open spec fn merge_spec(known: Seq<TrackView>, added: Seq<TrackView>) -> Seq<TrackView>
    decreases added.len(),
{
    if added.len() == 0 {
        known
    } else {
        let merged = merge_spec(known, added.drop_last());
        if has_id(merged, added.last().id) {
            merged
        } else {
            merged.push(added.last())
        }
    }
}

/// The tracks with each id kept once, at the place where it occurs first.
pub open spec fn first_occurrences_spec(tracks: Seq<TrackView>) -> Seq<TrackView> {
    merge_spec(Seq::empty(), tracks)
}

/// Puts behind `known` each track of `added`, in its order, whose id occurs
/// neither in `known` nor earlier in `added`.
fn push_new_songs(known: &mut Vec<Track>, added: &Vec<Track>)
    ensures
        track_views(final(known)@) == merge_spec(track_views(old(known)@), track_views(added@)),
{
    let ghost start = track_views(known@);
    let mut i: usize = 0;
    assert(track_views(added@).take(0) =~= Seq::<TrackView>::empty());
    while i < added.len()
        invariant
            i <= added.len(),
            track_views(known@) == merge_spec(start, track_views(added@).take(i as int)),
        decreases added.len() - i,
    {
        let ghost before = track_views(known@);
        let found = contains_id(known, &added[i].id);
        assert(track_views(added@).take(i + 1).drop_last() =~= track_views(added@).take(i as int));
        if !found {
            known.push(added[i].clone());
            assert(track_views(known@) =~= before.push(added[i as int]@));
        }
        i += 1;
    }
    assert(track_views(added@).take(i as int) =~= track_views(added@));
}

/// Returns the tracks with each id kept once: a track stays exactly when its
/// id does not occur earlier in the list, and the tracks that stay keep their
/// order.
pub fn first_occurrences(tracks: &Vec<Track>) -> (kept: Vec<Track>)
    ensures
        track_views(kept@) == first_occurrences_spec(track_views(tracks@)),
        unique_ids(track_views(kept@)),
{
    let mut kept: Vec<Track> = Vec::new();
    assert(track_views(kept@) =~= Seq::<TrackView>::empty());
    push_new_songs(&mut kept, tracks);
    proof {
        lemma_first_occurrences_are_unique(track_views(tracks@));
    }
    kept
}

impl Manifest {
    /// Whether no id occurs twice among the tracks.
    pub open spec fn has_unique_ids(&self) -> bool {
        unique_ids(self@.tracks)
    }

    /// Makes the manifest of a playlist of which no track is known yet.
    pub fn new(title: &str) -> (manifest: Manifest)
        ensures
            manifest@.title == title@,
            manifest@.tracks == Seq::<TrackView>::empty(),
            manifest.has_unique_ids(),
    {
        let manifest = Manifest { title: String::from_str(title), tracks: Vec::new() };
        assert(manifest@.tracks =~= Seq::<TrackView>::empty());
        manifest
    }

    /// Returns the manifest with `added` put behind the tracks it holds: same
    /// title, the existing tracks first and unchanged, then every track of
    /// `added` in its order. Ids are not compared, so a track that is already
    /// recorded is recorded once more.
    pub fn append(&self, added: &Vec<Track>) -> (updated: Manifest)
        ensures
            updated@.title == self@.title,
            updated@.tracks == self@.tracks + track_views(added@),
    {
        let mut tracks = clone_tracks(&self.tracks);
        let mut i: usize = 0;
        assert(track_views(added@).take(0) =~= Seq::<TrackView>::empty());
        assert(track_views(tracks@) =~= self@.tracks + track_views(added@).take(0));
        while i < added.len()
            invariant
                i <= added.len(),
                track_views(tracks@) == self@.tracks + track_views(added@).take(i as int),
            decreases added.len() - i,
        {
            let ghost before = track_views(tracks@);
            tracks.push(added[i].clone());
            assert(track_views(tracks@) =~= before.push(added[i as int]@));
            assert(track_views(added@).take(i + 1) =~= track_views(added@).take(i as int).push(
                added[i as int]@,
            ));
            assert(track_views(tracks@) =~= self@.tracks + track_views(added@).take(i + 1));
            i += 1;
        }
        assert(track_views(added@).take(i as int) =~= track_views(added@));
        Manifest { title: self.title.clone(), tracks }
    }

    /// Returns the manifest with the new songs of `added` put behind the
    /// tracks it holds: same title, the existing tracks first and unchanged,
    /// then each track of `added`, in its order, whose id occurs neither in
    /// the manifest nor earlier in `added`. A manifest without duplicate ids
    /// stays so, see [`lemma_merge_keeps_ids_unique`].
    pub fn append_unique(&self, added: &Vec<Track>) -> (updated: Manifest)
        ensures
            updated@.title == self@.title,
            updated@.tracks == merge_spec(self@.tracks, track_views(added@)),
            self.has_unique_ids() ==> updated.has_unique_ids(),
    {
        let mut tracks = clone_tracks(&self.tracks);
        push_new_songs(&mut tracks, added);
        proof {
            if self.has_unique_ids() {
                lemma_merge_keeps_ids_unique(self@.tracks, track_views(added@));
            }
        }
        Manifest { title: self.title.clone(), tracks }
    }
}

impl Clone for Manifest {
    fn clone(&self) -> (copy: Self)
        ensures
            copy@ == self@,
    {
        Manifest { title: self.title.clone(), tracks: clone_tracks(&self.tracks) }
    }
}

/// Merging keeps the known tracks in front, unchanged.
pub proof fn lemma_merge_keeps_known(known: Seq<TrackView>, added: Seq<TrackView>)
    ensures
        merge_spec(known, added).len() >= known.len(),
        merge_spec(known, added).take(known.len() as int) == known,
    decreases added.len(),
{
    if added.len() == 0 {
        assert(known.take(known.len() as int) =~= known);
    } else {
        lemma_merge_keeps_known(known, added.drop_last());
        let merged = merge_spec(known, added.drop_last());
        assert(merged.push(added.last()).take(known.len() as int) =~= merged.take(
            known.len() as int,
        ));
    }
}

/// Merging never introduces a duplicate: if no id occurs twice among the
/// known tracks, none occurs twice after the merge, whatever is added.
pub proof fn lemma_merge_keeps_ids_unique(known: Seq<TrackView>, added: Seq<TrackView>)
    requires
        unique_ids(known),
    ensures
        unique_ids(merge_spec(known, added)),
    decreases added.len(),
{
    if added.len() > 0 {
        lemma_merge_keeps_ids_unique(known, added.drop_last());
        let merged = merge_spec(known, added.drop_last());
        if !has_id(merged, added.last().id) {
            let longer = merged.push(added.last());
            assert(ids_of(longer) =~= ids_of(merged).push(added.last().id));
            assert forall|i: int, j: int|
                0 <= i < ids_of(longer).len() && 0 <= j < ids_of(longer).len() && i
                    != j implies ids_of(longer)[i] != ids_of(longer)[j] by {
                if i < merged.len() && j < merged.len() {
                    assert(ids_of(merged)[i] != ids_of(merged)[j]);
                } else if i < merged.len() {
                    assert(ids_of(merged)[i] != added.last().id);
                } else {
                    assert(ids_of(merged)[j] != added.last().id);
                }
            }
        }
    }
}

/// After a merge an id is present exactly when it was known or was added.
pub proof fn lemma_merge_ids(known: Seq<TrackView>, added: Seq<TrackView>, id: Seq<char>)
    ensures
        has_id(merge_spec(known, added), id) <==> has_id(known, id) || has_id(added, id),
    decreases added.len(),
{
    if added.len() == 0 {
        assert(ids_of(added) =~= Seq::<Seq<char>>::empty());
    } else {
        let rest = added.drop_last();
        let merged = merge_spec(known, rest);
        lemma_merge_ids(known, rest, id);
        assert(ids_of(added) =~= ids_of(rest).push(added.last().id));
        lemma_contains_after_push(ids_of(rest), added.last().id, id);
        if !has_id(merged, added.last().id) {
            assert(ids_of(merged.push(added.last())) =~= ids_of(merged).push(added.last().id));
            lemma_contains_after_push(ids_of(merged), added.last().id, id);
        }
    }
}

proof fn lemma_contains_after_push(ids: Seq<Seq<char>>, last: Seq<char>, id: Seq<char>)
    ensures
        ids.push(last).contains(id) <==> ids.contains(id) || last == id,
{
    let longer = ids.push(last);
    if ids.contains(id) {
        let i = choose|i: int| 0 <= i < ids.len() && ids[i] == id;
        assert(longer[i] == id);
    }
    if last == id {
        assert(longer[ids.len() as int] == id);
    }
}

/// Tracks whose ids are all new and all different are merged by plain
/// appending: in that case [`Manifest::append_unique`] and
/// [`Manifest::append`] give the same manifest.
pub proof fn lemma_merge_of_fresh_is_append(known: Seq<TrackView>, added: Seq<TrackView>)
    requires
        unique_ids(added),
        forall|i: int| 0 <= i < added.len() ==> !has_id(known, #[trigger] added[i].id),
    ensures
        merge_spec(known, added) == known + added,
    decreases added.len(),
{
    if added.len() == 0 {
        assert(known + added =~= known);
    } else {
        let rest = added.drop_last();
        let last = added.last();
        assert(ids_of(rest) =~= ids_of(added).drop_last());
        assert forall|i: int, j: int|
            0 <= i < ids_of(rest).len() && 0 <= j < ids_of(rest).len() && i != j implies ids_of(
            rest,
        )[i] != ids_of(rest)[j] by {
            assert(ids_of(added)[i] != ids_of(added)[j]);
        }
        assert forall|i: int| 0 <= i < rest.len() implies !has_id(known, #[trigger] rest[i].id) by {
            assert(rest[i] == added[i]);
        }
        lemma_merge_of_fresh_is_append(known, rest);
        lemma_merge_ids(known, rest, last.id);
        assert(!has_id(known, added[added.len() - 1].id));
        if has_id(rest, last.id) {
            let i = choose|i: int| 0 <= i < ids_of(rest).len() && ids_of(rest)[i] == last.id;
            assert(ids_of(added)[i] == ids_of(added)[added.len() - 1]);
        }
        assert((known + rest).push(last) =~= known + added);
    }
}

/// Merging the same tracks a second time changes nothing.
pub proof fn lemma_merge_is_idempotent(known: Seq<TrackView>, added: Seq<TrackView>)
    ensures
        merge_spec(merge_spec(known, added), added) == merge_spec(known, added),
{
    let merged = merge_spec(known, added);
    assert forall|i: int| 0 <= i < added.len() implies has_id(merged, #[trigger] added[i].id) by {
        assert(ids_of(added)[i] == added[i].id);
        lemma_merge_ids(known, added, added[i].id);
    }
    lemma_merge_of_known_is_noop(merged, added);
}

/// Merging tracks whose ids are all known already changes nothing.
pub proof fn lemma_merge_of_known_is_noop(known: Seq<TrackView>, added: Seq<TrackView>)
    requires
        forall|i: int| 0 <= i < added.len() ==> has_id(known, #[trigger] added[i].id),
    ensures
        merge_spec(known, added) == known,
    decreases added.len(),
{
    if added.len() > 0 {
        let rest = added.drop_last();
        assert forall|i: int| 0 <= i < rest.len() implies has_id(known, #[trigger] rest[i].id) by {
            assert(rest[i] == added[i]);
        }
        lemma_merge_of_known_is_noop(known, rest);
        assert(has_id(known, added[added.len() - 1].id));
    }
}

/// What a merge puts behind the known tracks is taken from the added ones.
pub proof fn lemma_merge_adds_from_added(known: Seq<TrackView>, added: Seq<TrackView>)
    ensures
        forall|k: int|
            known.len() <= k < merge_spec(known, added).len() ==> added.contains(
                #[trigger] merge_spec(known, added)[k],
            ),
    decreases added.len(),
{
    lemma_merge_keeps_known(known, added);
    if added.len() > 0 {
        let rest = added.drop_last();
        let merged = merge_spec(known, rest);
        lemma_merge_adds_from_added(known, rest);
        lemma_merge_keeps_known(known, rest);
        assert forall|k: int| known.len() <= k < merge_spec(known, added).len() implies added.contains(
            #[trigger] merge_spec(known, added)[k],
        ) by {
            if k < merged.len() {
                assert(rest.contains(merged[k]));
                let j = choose|j: int| 0 <= j < rest.len() && rest[j] == merged[k];
                assert(added[j] == merged[k]);
            } else {
                assert(added[added.len() - 1] == merge_spec(known, added)[k]);
            }
        }
    }
}

/// Where none of the added ids is known, merging puts behind the known tracks
/// the first occurrences of the added ones.
pub proof fn lemma_merge_of_unknown(known: Seq<TrackView>, added: Seq<TrackView>)
    requires
        forall|i: int| 0 <= i < added.len() ==> !has_id(known, #[trigger] added[i].id),
    ensures
        merge_spec(known, added) == known + first_occurrences_spec(added),
    decreases added.len(),
{
    let none = Seq::<TrackView>::empty();
    if added.len() == 0 {
        assert(known + none =~= known);
    } else {
        let rest = added.drop_last();
        let last = added.last();
        assert forall|i: int| 0 <= i < rest.len() implies !has_id(known, #[trigger] rest[i].id) by {
            assert(rest[i] == added[i]);
        }
        lemma_merge_of_unknown(known, rest);
        lemma_merge_ids(known, rest, last.id);
        lemma_merge_ids(none, rest, last.id);
        assert(ids_of(none) =~= Seq::<Seq<char>>::empty());
        assert(!has_id(known, added[added.len() - 1].id));
        if !has_id(rest, last.id) {
            assert((known + merge_spec(none, rest)).push(last) =~= known + merge_spec(
                none,
                rest,
            ).push(last));
        }
    }
}

/// No id occurs twice among the first occurrences.
pub proof fn lemma_first_occurrences_are_unique(tracks: Seq<TrackView>)
    ensures
        unique_ids(first_occurrences_spec(tracks)),
{
    assert(ids_of(Seq::<TrackView>::empty()) =~= Seq::<Seq<char>>::empty());
    lemma_merge_keeps_ids_unique(Seq::empty(), tracks);
}

/// A track before which the list holds no track of the same id is among the
/// first occurrences: of each song it is the first entry that is kept.
pub proof fn lemma_first_occurrence_is_kept(tracks: Seq<TrackView>, i: int)
    requires
        0 <= i < tracks.len(),
        forall|j: int| 0 <= j < i ==> tracks[j].id != tracks[i].id,
    ensures
        first_occurrences_spec(tracks).contains(tracks[i]),
    decreases tracks.len(),
{
    let none = Seq::<TrackView>::empty();
    let rest = tracks.drop_last();
    let kept = merge_spec(none, rest);
    if i == tracks.len() - 1 {
        lemma_merge_ids(none, rest, tracks[i].id);
        assert(ids_of(none) =~= Seq::<Seq<char>>::empty());
        if has_id(rest, tracks[i].id) {
            let j = choose|j: int| 0 <= j < ids_of(rest).len() && ids_of(rest)[j] == tracks[i].id;
            assert(tracks[j].id == tracks[i].id);
        }
        assert(kept.push(tracks.last())[kept.len() as int] == tracks[i]);
    } else {
        assert(rest[i] == tracks[i]);
        assert forall|j: int| 0 <= j < i implies rest[j].id != rest[i].id by {
            assert(rest[j] == tracks[j]);
        }
        lemma_first_occurrence_is_kept(rest, i);
        let k = choose|k: int| 0 <= k < kept.len() && kept[k] == tracks[i];
        assert(kept.push(tracks.last())[k] == tracks[i]);
    }
}

/// A list in which no id occurs twice is its own list of first occurrences.
pub proof fn lemma_first_occurrences_of_unique(tracks: Seq<TrackView>)
    requires
        unique_ids(tracks),
    ensures
        first_occurrences_spec(tracks) == tracks,
{
    let none = Seq::<TrackView>::empty();
    assert(ids_of(none) =~= Seq::<Seq<char>>::empty());
    lemma_merge_of_fresh_is_append(none, tracks);
    assert(none + tracks =~= tracks);
}

/// The first occurrences carry the same ids as the list, and there are none
/// only where the list is empty.
pub proof fn lemma_first_occurrences_keep_ids(tracks: Seq<TrackView>)
    ensures
        forall|id: Seq<char>| has_id(first_occurrences_spec(tracks), id) <==> has_id(tracks, id),
        first_occurrences_spec(tracks).len() == 0 <==> tracks.len() == 0,
{
    let none = Seq::<TrackView>::empty();
    assert(ids_of(none) =~= Seq::<Seq<char>>::empty());
    assert forall|id: Seq<char>| has_id(first_occurrences_spec(tracks), id) <==> has_id(
        tracks,
        id,
    ) by {
        lemma_merge_ids(none, tracks, id);
    }
    if tracks.len() > 0 {
        assert(ids_of(tracks)[0] == tracks[0].id);
        assert(has_id(tracks, tracks[0].id));
        assert(has_id(first_occurrences_spec(tracks), tracks[0].id));
    }
}

/// The path under which the manifest of a playlist is kept: the title, as it
/// is, between double quotes, in the directory `data/playlists`.
pub open spec fn manifest_path_spec(title: Seq<char>) -> Seq<char> {
    "data/playlists/\""@ + title + "\".ron"@
}

/// Computes the path of the manifest file of the playlist with this title.
/// The title is not escaped; the quotes around it belong to the file's name.
pub fn manifest_path(title: &str) -> (path: String)
    ensures
        path@ == manifest_path_spec(title@),
{
    let mut path = String::from_str("data/playlists/\"");
    path.append(title);
    path.append("\".ron");
    path
}

/// Two playlists share a manifest path only if they share their title.
pub proof fn lemma_manifest_path_is_injective(first: Seq<char>, second: Seq<char>)
    requires
        manifest_path_spec(first) == manifest_path_spec(second),
    ensures
        first == second,
{
    let head = "data/playlists/\""@;
    let tail = "\".ron"@;
    let a = head + first + tail;
    let b = head + second + tail;
    assert(a.len() == b.len());
    assert(first.len() == second.len());
    assert forall|i: int| 0 <= i < first.len() implies first[i] == second[i] by {
        assert(a[head.len() + i] == first[i]);
        assert(b[head.len() + i] == second[i]);
    }
    assert(first =~= second);
}

} // verus!
