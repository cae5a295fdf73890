//! The diff between what a manifest already knows and what the remote
//! playlist holds now.
//!
//! Identity is the `id` alone: a track that was renamed or retagged remotely
//! but kept its id is not missing.

use vstd::prelude::*;
use crate::track::{has_id, ids_of, track_views, Track, TrackView};

verus! {

/// The remote tracks whose id no local track carries, in remote order.
pub open spec fn missing_spec(local: Seq<TrackView>, remote: Seq<TrackView>) -> Seq<TrackView> {
    remote.filter(|track: TrackView| !has_id(local, track.id))
}

/// Tells whether some track of the list carries the given id.
pub fn contains_id(tracks: &Vec<Track>, id: &String) -> (found: bool)
    ensures
        found == has_id(track_views(tracks@), id@),
{
    let ghost ids = ids_of(track_views(tracks@));
    let mut i: usize = 0;
    while i < tracks.len()
        invariant
            i <= tracks.len(),
            ids == ids_of(track_views(tracks@)),
            forall|k: int| 0 <= k < i ==> ids[k] != id@,
        decreases tracks.len() - i,
    {
        if tracks[i].id == *id {
            assert(ids[i as int] == id@);
            return true;
        }
        i += 1;
    }
    false
}

/// Computes the tracks that still have to be fetched: every remote track
/// whose id does not occur among the local tracks, in the order of the remote
/// list. Nothing else is returned, and a remote track that occurs twice with a
/// new id is returned twice.
///
/// Lists that are equal track for track give an empty result, see
/// [`lemma_missing_of_equal_lists`].
pub fn missing(local: &Vec<Track>, remote: &Vec<Track>) -> (needed: Vec<Track>)
    ensures
        track_views(needed@) == missing_spec(track_views(local@), track_views(remote@)),
{
    let mut needed: Vec<Track> = Vec::new();
    let mut i: usize = 0;
    let ghost known = track_views(local@);
    let ghost absent = |track: TrackView| !has_id(known, track.id);
    proof {
        reveal(Seq::filter);
        assert(track_views(remote@).take(0) =~= Seq::<TrackView>::empty());
    }
    while i < remote.len()
        invariant
            i <= remote.len(),
            known == track_views(local@),
            absent == |track: TrackView| !has_id(known, track.id),
            track_views(needed@) == track_views(remote@).take(i as int).filter(absent),
        decreases remote.len() - i,
    {
        let found = contains_id(local, &remote[i].id);
        proof {
            let views = track_views(remote@);
            assert(views.take(i + 1) =~= views.take(i as int).push(remote[i as int]@));
            views.take(i as int).lemma_filter_push(remote[i as int]@, absent);
        }
        let ghost kept = track_views(needed@);
        if !found {
            needed.push(remote[i].clone());
            assert(track_views(needed@) =~= kept.push(remote[i as int]@));
        }
        i += 1;
    }
    assert(track_views(remote@).take(i as int) =~= track_views(remote@));
    needed
}

/// Whether every id of `remote` occurs in `local`.
pub open spec fn covers(local: Seq<TrackView>, remote: Seq<TrackView>) -> bool {
    forall|i: int| 0 <= i < remote.len() ==> has_id(local, #[trigger] remote[i].id)
}

/// Whether `picked` is `all` read at `positions`, and `positions` are, in
/// rising order, exactly the places of `all` that hold a track whose id
/// `local` lacks.
pub open spec fn is_selection(
    positions: Seq<int>,
    local: Seq<TrackView>,
    all: Seq<TrackView>,
    picked: Seq<TrackView>,
) -> bool {
    &&& positions.len() == picked.len()
    &&& forall|k: int| 0 <= k < positions.len() ==> 0 <= #[trigger] positions[k] < all.len()
    &&& forall|k: int| 0 <= k < positions.len() ==> picked[k] == all[#[trigger] positions[k]]
    &&& forall|j: int, k: int|
        0 <= j < k < positions.len() ==> #[trigger] positions[j] < #[trigger] positions[k]
    &&& forall|i: int|
        0 <= i < all.len() ==> (#[trigger] positions.contains(i) <==> !has_id(local, all[i].id))
}

/// The diff holds exactly the remote tracks with an unknown id, in remote
/// order: it is `remote` read at the places, taken in rising order, that hold
/// a track whose id `local` lacks. So each of its tracks is a remote track
/// with such an id, and every remote track with such an id is in it, as often
/// as `remote` lists it.
pub proof fn lemma_missing_is_exact(local: Seq<TrackView>, remote: Seq<TrackView>)
    ensures
        exists|positions: Seq<int>|
            is_selection(positions, local, remote, missing_spec(local, remote)),
        forall|k: int|
            0 <= k < missing_spec(local, remote).len() ==> !has_id(
                local,
                #[trigger] missing_spec(local, remote)[k].id,
            ),
        forall|k: int|
            0 <= k < missing_spec(local, remote).len() ==> remote.contains(
                #[trigger] missing_spec(local, remote)[k],
            ),
        forall|i: int|
            0 <= i < remote.len() && !has_id(local, remote[i].id) ==> missing_spec(
                local,
                remote,
            ).contains(#[trigger] remote[i]),
    decreases remote.len(),
{
    let absent = |track: TrackView| !has_id(local, track.id);
    let diff = missing_spec(local, remote);
    assert(diff == remote.filter(absent));
    assert forall|k: int| 0 <= k < diff.len() implies !has_id(local, #[trigger] diff[k].id) by {
        remote.lemma_filter_pred(absent, k);
    }
    assert forall|k: int| 0 <= k < diff.len() implies remote.contains(#[trigger] diff[k]) by {
        assert(diff.contains(diff[k]));
        remote.lemma_filter_contains_rev(absent, diff[k]);
    }
    assert forall|i: int| 0 <= i < remote.len() && !has_id(local, remote[i].id) implies diff.contains(
        #[trigger] remote[i],
    ) by {
        remote.lemma_filter_contains(absent, i);
    }
    reveal(Seq::filter);
    if remote.len() == 0 {
        assert(is_selection(Seq::<int>::empty(), local, remote, diff));
    } else {
        let head = remote.drop_last();
        let last = remote.len() - 1;
        lemma_missing_is_exact(local, head);
        let positions = choose|positions: Seq<int>|
            is_selection(positions, local, head, missing_spec(local, head));
        assert forall|i: int| 0 <= i < head.len() implies head[i] == remote[i] by {}
        assert(!positions.contains(last)) by {
            if positions.contains(last) {
                let k = choose|k: int| 0 <= k < positions.len() && positions[k] == last;
                assert(positions[k] < head.len());
            }
        }
        if absent(remote.last()) {
            let longer = positions.push(last);
            assert forall|i: int| 0 <= i < remote.len() implies (#[trigger] longer.contains(i)
                <==> !has_id(local, remote[i].id)) by {
                if i == last {
                    assert(longer[positions.len() as int] == last);
                } else {
                    if positions.contains(i) {
                        let k = choose|k: int| 0 <= k < positions.len() && positions[k] == i;
                        assert(longer[k] == i);
                    }
                    if longer.contains(i) {
                        let k = choose|k: int| 0 <= k < longer.len() && longer[k] == i;
                        assert(positions[k] == i);
                    }
                }
            }
            assert(is_selection(longer, local, remote, diff));
        } else {
            assert(is_selection(positions, local, remote, diff));
        }
    }
}

/// When the local tracks already carry every remote id, nothing is missing.
pub proof fn lemma_missing_of_covered(local: Seq<TrackView>, remote: Seq<TrackView>)
    requires
        covers(local, remote),
    ensures
        missing_spec(local, remote) == Seq::<TrackView>::empty(),
{
    let absent = |track: TrackView| !has_id(local, track.id);
    assert(remote.all(|track: TrackView| !absent(track))) by {
        assert forall|i: int| 0 <= i < remote.len() implies !absent(#[trigger] remote[i]) by {
            assert(has_id(local, remote[i].id));
        }
    }
    remote.lemma_all_neg_filter_empty(absent);
    assert(remote.filter(absent) =~= Seq::<TrackView>::empty());
}

/// Conversely, an empty diff means that every remote id is known locally.
pub proof fn lemma_empty_missing_covers(local: Seq<TrackView>, remote: Seq<TrackView>)
    requires
        missing_spec(local, remote).len() == 0,
    ensures
        covers(local, remote),
{
    let absent = |track: TrackView| !has_id(local, track.id);
    assert forall|i: int| 0 <= i < remote.len() implies has_id(local, #[trigger] remote[i].id) by {
        if !has_id(local, remote[i].id) {
            remote.lemma_filter_contains(absent, i);
        }
    }
}

/// Two lists that are equal as ordered sequences have an empty diff.
pub proof fn lemma_missing_of_equal_lists(tracks: Seq<TrackView>)
    ensures
        missing_spec(tracks, tracks) == Seq::<TrackView>::empty(),
{
    assert forall|i: int| 0 <= i < tracks.len() implies has_id(tracks, #[trigger] tracks[i].id) by {
        assert(ids_of(tracks)[i] == tracks[i].id);
    }
    lemma_missing_of_covered(tracks, tracks);
}

} // verus!
