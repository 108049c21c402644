//! Picks the next track to play.
//!
//! Without looping, each pick removes its track, so every track plays once
//! and the run ends when none is left. With looping the tracks stay and the
//! run never ends, and with more than two tracks the same track is never
//! picked twice in a row.

use vstd::prelude::*;
use vstd::multiset::Multiset;
use rand::rngs::ThreadRng;
use crate::random::draw_index;

verus! {

broadcast use vstd::seq_lib::group_to_multiset_ensures;


/// Whether a pick has to differ from the previous one: only when looping,
/// with more than two tracks, after a first pick.
pub open spec fn avoids_repeat(len: int, loop_mode: bool, last: Option<usize>) -> bool {
    loop_mode && len > 2 && last is Some && last->0 < len
}

/// How many values a pick is drawn from: all indices, or all but the last
/// one picked.
pub open spec fn draw_span(len: int, loop_mode: bool, last: Option<usize>) -> int {
    if avoids_repeat(len, loop_mode, last) {
        len - 1
    } else {
        len
    }
}

/// The index that a draw `d` in `[0, draw_span)` stands for: when the last
/// pick is excluded, the draws at or above it move up by one, so that every
/// other index stays equally likely.
pub open spec fn index_for_draw(len: int, loop_mode: bool, last: Option<usize>, d: int) -> int {
    if avoids_repeat(len, loop_mode, last) && d >= last->0 {
        d + 1
    } else {
        d
    }
}

/// The index that a draw stands for (see `index_for_draw`).
pub fn index_from_draw(len: usize, loop_mode: bool, last: Option<usize>, drawn: usize) -> (r: usize)
    requires
        drawn < draw_span(len as int, loop_mode, last),
    ensures
        r == index_for_draw(len as int, loop_mode, last, drawn as int),
        r < len,
        avoids_repeat(len as int, loop_mode, last) ==> r != last->0,
{
    match last {
        Some(l) => {
            if loop_mode && len > 2 && l < len && drawn >= l {
                drawn + 1
            } else {
                drawn
            }
        },
        None => drawn,
    }
}

/// The tracks still to pick from, the mode, and the last pick.
pub struct Selector {
    candidates: Vec<String>,
    loop_mode: bool,
    last_index: Option<usize>,
}

impl Selector {
    pub closed spec fn candidates(&self) -> Seq<String> {
        self.candidates@
    }

    pub closed spec fn is_looping(&self) -> bool {
        self.loop_mode
    }

    pub closed spec fn last(&self) -> Option<usize> {
        self.last_index
    }

    /// The last pick, if any, is an index of the candidates; without
    /// looping none is kept.
    pub open spec fn wf(&self) -> bool {
        &&& self.last() matches Some(l) ==> l < self.candidates().len()
        &&& !self.is_looping() ==> self.last() is None
    }

    /// A selector over `tracks`, with no pick made yet.
    pub fn new(tracks: Vec<String>, loop_mode: bool) -> (s: Selector)
        ensures
            s.wf(),
            s.candidates() == tracks@,
            s.is_looping() == loop_mode,
            s.last() is None,
    {
        Selector { candidates: tracks, loop_mode, last_index: None }
    }

    /// How many tracks are left to pick from.
    pub fn remaining(&self) -> (r: usize)
        ensures
            r == self.candidates().len(),
    {
        self.candidates.len()
    }

    /// Whether the selector repeats the tracks forever.
    pub fn looping(&self) -> (r: bool)
        ensures
            r == self.is_looping(),
    {
        self.loop_mode
    }

    /// Picks the index of the next track, uniformly among the candidates, or,
    /// when a repeat is to be avoided, among all but the last pick. A looping
    /// selector records the pick; the candidates do not change.
    pub fn choose_next(&mut self, rng: &mut ThreadRng) -> (r: usize)
        requires
            old(self).wf(),
            old(self).candidates().len() > 0,
        ensures
            final(self).wf(),
            r < old(self).candidates().len(),
            exists|d: int|
                0 <= d < draw_span(
                    old(self).candidates().len() as int,
                    old(self).is_looping(),
                    old(self).last(),
                ) && r == index_for_draw(
                    old(self).candidates().len() as int,
                    old(self).is_looping(),
                    old(self).last(),
                    d,
                ),
            avoids_repeat(
                old(self).candidates().len() as int,
                old(self).is_looping(),
                old(self).last(),
            ) ==> r != old(self).last()->0,
            old(self).is_looping() && old(self).last() is Some ==> may_follow(
                old(self).candidates().len() as int,
                old(self).last()->0,
                r,
            ),
            final(self).candidates() == old(self).candidates(),
            final(self).is_looping() == old(self).is_looping(),
            final(self).last() == (if old(self).is_looping() {
                Some(r)
            } else {
                None
            }),
    {
        let len = self.candidates.len();
        let last = self.last_index;
        let span: usize = match last {
            Some(l) => {
                if self.loop_mode && len > 2 && l < len {
                    len - 1
                } else {
                    len
                }
            },
            None => len,
        };
        let drawn = draw_index(rng, span);
        let r = index_from_draw(len, self.loop_mode, last, drawn);
        let ghost d = drawn as int;
        assert(0 <= d < draw_span(len as int, self.is_looping(), last) && r == index_for_draw(
            len as int,
            self.is_looping(),
            last,
            d,
        ));
        if self.loop_mode {
            self.last_index = Some(r);
        }
        r
    }

    /// The next track to play, or `None` when no track is left. Without
    /// looping the track is taken out of the candidates.
    pub fn next_track(&mut self, rng: &mut ThreadRng) -> (r: Option<String>)
        requires
            old(self).wf(),
        ensures
            final(self).wf(),
            final(self).is_looping() == old(self).is_looping(),
            r is None <==> old(self).candidates().len() == 0,
            r is None ==> final(self).candidates() == old(self).candidates(),
            r matches Some(t) ==> exists|i: int|
                0 <= i < old(self).candidates().len() && t == old(self).candidates()[i]
                    && final(self).candidates() == (if old(self).is_looping() {
                    old(self).candidates()
                } else {
                    old(self).candidates().remove(i)
                }),
            old(self).is_looping() && r is Some ==> final(self).last() is Some
                && r->0 == old(self).candidates()[final(self).last()->0 as int],
            avoids_repeat(
                old(self).candidates().len() as int,
                old(self).is_looping(),
                old(self).last(),
            ) ==> final(self).last() != old(self).last(),
    {
        if self.candidates.len() == 0 {
            return None;
        }
        let i = self.choose_next(rng);
        if self.loop_mode {
            Some(self.candidates[i].clone())
        } else {
            Some(self.candidates.remove(i))
        }
    }
}

/// The tracks in the order they play when, without looping, the `k`-th
/// pick takes the track at index `picks[k]` out of those left.
pub open spec fn play_order(tracks: Seq<String>, picks: Seq<int>) -> Seq<String>
    decreases picks.len(),
{
    if picks.len() == 0 {
        Seq::empty()
    } else {
        seq![tracks[picks[0]]] + play_order(tracks.remove(picks[0]), picks.drop_first())
    }
}

/// Each pick is an index of the tracks left at its turn, out of `n` at the
/// start.
pub open spec fn picks_fit(n: int, picks: Seq<int>) -> bool {
    forall|k: int| 0 <= k < picks.len() ==> 0 <= #[trigger] picks[k] < n - k
}

/// Without looping, picking until no track is left plays every track exactly
/// once, whatever the draws were.
pub proof fn lemma_every_track_plays_once(tracks: Seq<String>, picks: Seq<int>)
    requires
        picks.len() == tracks.len(),
        picks_fit(tracks.len() as int, picks),
    ensures
        play_order(tracks, picks).len() == tracks.len(),
        play_order(tracks, picks).to_multiset() == tracks.to_multiset(),
    decreases picks.len(),
{
    if picks.len() > 0 {
        let rest = tracks.remove(picks[0]);
        assert(picks_fit(rest.len() as int, picks.drop_first())) by {
            assert forall|k: int| 0 <= k < picks.drop_first().len() implies 0
                <= #[trigger] picks.drop_first()[k] < rest.len() - k by {
                assert(picks.drop_first()[k] == picks[k + 1]);
            }
        }
        lemma_every_track_plays_once(rest, picks.drop_first());
        let head = seq![tracks[picks[0]]];
        vstd::seq_lib::lemma_multiset_commutative(head, play_order(rest, picks.drop_first()));
        vstd::seq_lib::to_multiset_remove(tracks, picks[0]);
        assert(head.to_multiset() =~= Multiset::empty().insert(tracks[picks[0]])) by {
            assert(head =~= Seq::<String>::empty().push(tracks[picks[0]]));
        }
        assert(tracks.to_multiset().count(tracks[picks[0]]) > 0);
    }
}

/// `next` is what a looping pick over `len` tracks can give after `prev`.
pub open spec fn may_follow(len: int, prev: usize, next: usize) -> bool {
    exists|d: int|
        0 <= d < draw_span(len, true, Some(prev)) && next == #[trigger] index_for_draw(
            len,
            true,
            Some(prev),
            d,
        )
}

/// A run of looping picks over `len` tracks: each pick after the first comes
/// from a draw made with the previous pick as the last one.
pub open spec fn is_loop_run(len: int, picks: Seq<usize>) -> bool {
    &&& forall|k: int| 0 <= k < picks.len() ==> #[trigger] picks[k] < len
    &&& forall|k: int| 0 < k < picks.len() ==> may_follow(len, picks[k - 1], #[trigger] picks[k])
}

/// When looping over more than two tracks, no two consecutive picks are the
/// same track, however long the run.
pub proof fn lemma_loop_never_repeats(len: int, picks: Seq<usize>)
    requires
        len > 2,
        is_loop_run(len, picks),
    ensures
        forall|k: int| 0 < k < picks.len() ==> #[trigger] picks[k] != picks[k - 1],
{
    assert forall|k: int| 0 < k < picks.len() implies #[trigger] picks[k] != picks[k - 1] by {
        assert(picks[k - 1] < len);
        assert(may_follow(len, picks[k - 1], picks[k]));
    }
}

/// When looping over one or two tracks, a draw is taken as it comes: the
/// draw that names the last pick picks it again.
pub proof fn lemma_short_loop_may_repeat(len: int, last: usize)
    requires
        1 <= len <= 2,
        last < len,
    ensures
        draw_span(len, true, Some(last)) == len,
        index_for_draw(len, true, Some(last), last as int) == last,
{
}

} // verus!
