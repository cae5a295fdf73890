//! The order of tracks by their id.
//!
//! Ids are ordered as strings are: byte by byte over their UTF-8 encoding, a
//! proper prefix before what it is a prefix of. No other field of a track
//! takes part.

use vstd::prelude::*;
use vstd::utf8::{encode_utf8, encode_utf8_decode_utf8};
use crate::track::{Track, TrackView};

verus! {

/// How one id stands to another.
#[derive(Debug, Clone, Copy, PartialEq, Eq, Structural)]
pub enum IdOrder {
    /// The first id sorts before the second.
    Before,
    /// The ids are equal.
    Same,
    /// The first id sorts after the second.
    After,
}

/// Whether the two byte strings agree on their first `count` bytes.
pub open spec fn agree_until(first: Seq<u8>, second: Seq<u8>, count: int) -> bool {
    forall|j: int| 0 <= j < count ==> first[j] == second[j]
}

/// Whether `first` comes strictly before `second` in lexicographic order:
/// after a common beginning, `first` ends while `second` goes on, or `first`
/// goes on with the smaller byte.
pub open spec fn bytes_precede(first: Seq<u8>, second: Seq<u8>) -> bool {
    exists|k: int|
        0 <= k <= first.len() && k <= second.len() && #[trigger] agree_until(first, second, k) && (
        if k == first.len() {
            k < second.len()
        } else {
            k < second.len() && first[k] < second[k]
        })
}

/// The order of two byte strings.
pub open spec fn byte_order_spec(first: Seq<u8>, second: Seq<u8>) -> IdOrder {
    if first == second {
        IdOrder::Same
    } else if bytes_precede(first, second) {
        IdOrder::Before
    } else {
        IdOrder::After
    }
}

/// The order of two tracks: that of the UTF-8 encodings of their ids.
pub open spec fn id_order_spec(first: TrackView, second: TrackView) -> IdOrder {
    byte_order_spec(encode_utf8(first.id), encode_utf8(second.id))
}

/// No byte string comes before itself, and of two byte strings at most one
/// comes before the other.
pub proof fn lemma_precedence_is_asymmetric(first: Seq<u8>, second: Seq<u8>)
    requires
        bytes_precede(first, second),
    ensures
        first != second,
        !bytes_precede(second, first),
{
    let k = choose|k: int|
        0 <= k <= first.len() && k <= second.len() && #[trigger] agree_until(first, second, k) && (
        if k == first.len() {
            k < second.len()
        } else {
            k < second.len() && first[k] < second[k]
        });
    if bytes_precede(second, first) {
        let m = choose|m: int|
            0 <= m <= second.len() && m <= first.len() && #[trigger] agree_until(second, first, m)
                && (if m == second.len() {
                m < first.len()
            } else {
                m < first.len() && second[m] < first[m]
            });
        if k < m {
            assert(second[k] == first[k]);
        } else if m < k {
            assert(first[m] == second[m]);
        }
    }
}

/// Precedence is transitive.
pub proof fn lemma_precedence_is_transitive(first: Seq<u8>, second: Seq<u8>, third: Seq<u8>)
    requires
        bytes_precede(first, second),
        bytes_precede(second, third),
    ensures
        bytes_precede(first, third),
{
    let k = choose|k: int|
        0 <= k <= first.len() && k <= second.len() && #[trigger] agree_until(first, second, k) && (
        if k == first.len() {
            k < second.len()
        } else {
            k < second.len() && first[k] < second[k]
        });
    let m = choose|m: int|
        0 <= m <= second.len() && m <= third.len() && #[trigger] agree_until(second, third, m) && (
        if m == second.len() {
            m < third.len()
        } else {
            m < third.len() && second[m] < third[m]
        });
    let n = if k <= m {
        k
    } else {
        m
    };
    assert(agree_until(first, third, n)) by {
        assert forall|j: int| 0 <= j < n implies first[j] == third[j] by {
            assert(first[j] == second[j]);
            assert(second[j] == third[j]);
        }
    }
    if k < m {
        assert(second[k] == third[k]);
    } else if m < k {
        assert(first[m] == second[m]);
    }
}

/// Of two different byte strings one comes before the other.
pub proof fn lemma_precedence_is_total(first: Seq<u8>, second: Seq<u8>)
    ensures
        first == second || bytes_precede(first, second) || bytes_precede(second, first),
{
    lemma_first_difference(first, second, 0);
}

proof fn lemma_first_difference(first: Seq<u8>, second: Seq<u8>, start: int)
    requires
        0 <= start <= first.len(),
        start <= second.len(),
        agree_until(first, second, start),
    ensures
        first == second || bytes_precede(first, second) || bytes_precede(second, first),
    decreases first.len() - start,
{
    assert(agree_until(second, first, start));
    if start == first.len() || start == second.len() {
        if first.len() == second.len() {
            assert(first =~= second);
        }
    } else if first[start] == second[start] {
        assert(agree_until(first, second, start + 1));
        lemma_first_difference(first, second, start + 1);
    }
}

/// Two tracks have the order [`IdOrder::Same`] exactly when their ids are
/// equal, and swapping them swaps [`IdOrder::Before`] and
/// [`IdOrder::After`].
pub proof fn lemma_id_order_goes_by_id(first: TrackView, second: TrackView)
    ensures
        id_order_spec(first, second) is Same <==> first.id == second.id,
        id_order_spec(first, second) is Before <==> id_order_spec(second, first) is After,
{
    encode_utf8_decode_utf8(first.id);
    encode_utf8_decode_utf8(second.id);
    let a = encode_utf8(first.id);
    let b = encode_utf8(second.id);
    lemma_precedence_is_total(a, b);
    if bytes_precede(a, b) {
        lemma_precedence_is_asymmetric(a, b);
    }
    if bytes_precede(b, a) {
        lemma_precedence_is_asymmetric(b, a);
    }
}

/// Compares two byte strings lexicographically.
pub fn compare_bytes(first: &[u8], second: &[u8]) -> (order: IdOrder)
    ensures
        order == byte_order_spec(first@, second@),
{
    let mut i: usize = 0;
    while i < first.len() && i < second.len()
        invariant
            i <= first.len(),
            i <= second.len(),
            agree_until(first@, second@, i as int),
        decreases first.len() - i,
    {
        if first[i] < second[i] {
            proof {
                assert(bytes_precede(first@, second@));
                lemma_precedence_is_asymmetric(first@, second@);
            }
            return IdOrder::Before;
        }
        if first[i] > second[i] {
            proof {
                assert(agree_until(second@, first@, i as int));
                assert(bytes_precede(second@, first@));
                lemma_precedence_is_asymmetric(second@, first@);
            }
            return IdOrder::After;
        }
        i += 1;
    }
    if first.len() < second.len() {
        proof {
            assert(bytes_precede(first@, second@));
            lemma_precedence_is_asymmetric(first@, second@);
        }
        IdOrder::Before
    } else if first.len() > second.len() {
        proof {
            assert(agree_until(second@, first@, i as int));
            assert(bytes_precede(second@, first@));
            lemma_precedence_is_asymmetric(second@, first@);
        }
        IdOrder::After
    } else {
        assert(first@ =~= second@);
        IdOrder::Same
    }
}

impl Track {
    /// Tells how this track stands to `other` in the order of tracks, which
    /// goes by the id alone.
    pub fn id_order(&self, other: &Track) -> (order: IdOrder)
        ensures
            order == id_order_spec(self@, other@),
            order is Same <==> self@.id == other@.id,
    {
        proof {
            lemma_id_order_goes_by_id(self@, other@);
        }
        compare_bytes(self.id.as_str().as_bytes(), other.id.as_str().as_bytes())
    }
}

} // verus!
