//! The order of the queue: more votes first, and among songs with the same
//! votes the greater id first.

use vstd::prelude::*;
use crate::store::views;
use crate::text::{lemma_seq_lt_irreflexive, lemma_seq_lt_transitive, lemma_seq_lt_trichotomy, seq_lt, str_lt};
use crate::types::{Song, SongView};

verus! {

/// `a` stands strictly before `b` in the queue.
pub open spec fn ranks_before(a: SongView, b: SongView) -> bool {
    a.votes.votes > b.votes.votes || (a.votes.votes == b.votes.votes && seq_lt(b.id, a.id))
}

/// No song of the list stands strictly before one that precedes it.
pub open spec fn ranked(songs: Seq<SongView>) -> bool {
    forall|i: int, j: int| 0 <= i < j < songs.len() ==> !ranks_before(#[trigger] songs[j], #[trigger] songs[i])
}

/// Every song of the list stands strictly before those that follow it.
pub open spec fn strictly_ranked(songs: Seq<SongView>) -> bool {
    forall|i: int, j: int| 0 <= i < j < songs.len() ==> ranks_before(#[trigger] songs[i], #[trigger] songs[j])
}

/// The ranked list with one more song, put before the first song that it
/// stands strictly before.
pub open spec fn insert_ranked(songs: Seq<SongView>, song: SongView) -> Seq<SongView>
    decreases songs.len(),
{
    if songs.len() == 0 {
        seq![song]
    } else if ranks_before(song, songs[0]) {
        seq![song] + songs
    } else {
        seq![songs[0]] + insert_ranked(songs.drop_first(), song)
    }
}

/// The songs in the order of the queue.
pub open spec fn rank(songs: Seq<SongView>) -> Seq<SongView>
    decreases songs.len(),
{
    if songs.len() == 0 {
        songs
    } else {
        insert_ranked(rank(songs.drop_last()), songs.last())
    }
}

/// The order is a strict total order on votes and id: no song stands before
/// itself, of two songs that differ in votes or id one stands before the
/// other, and never both.
pub proof fn lemma_ranks_before_total(a: SongView, b: SongView)
    ensures
        !ranks_before(a, a),
        !(ranks_before(a, b) && ranks_before(b, a)),
        ranks_before(a, b) || ranks_before(b, a) || (a.votes.votes == b.votes.votes && a.id == b.id),
        ranks_before(a, b) ==> a.id != b.id || a.votes.votes != b.votes.votes,
{
    lemma_seq_lt_irreflexive(a.id);
    lemma_seq_lt_trichotomy(a.id, b.id);
    lemma_seq_lt_trichotomy(b.id, a.id);
}

/// The order is transitive, and so is its complement.
pub proof fn lemma_ranks_before_transitive(a: SongView, b: SongView, c: SongView)
    ensures
        ranks_before(a, b) && ranks_before(b, c) ==> ranks_before(a, c),
        !ranks_before(b, a) && !ranks_before(c, b) ==> !ranks_before(c, a),
        ranks_before(a, b) && !ranks_before(c, b) ==> ranks_before(a, c),
        !ranks_before(b, a) && ranks_before(b, c) ==> ranks_before(a, c),
{
    lemma_seq_lt_trichotomy(a.id, b.id);
    lemma_seq_lt_trichotomy(b.id, c.id);
    lemma_seq_lt_trichotomy(a.id, c.id);
    if seq_lt(c.id, b.id) && seq_lt(b.id, a.id) {
        lemma_seq_lt_transitive(c.id, b.id, a.id);
    }
    if seq_lt(a.id, b.id) && seq_lt(b.id, c.id) {
        lemma_seq_lt_transitive(a.id, b.id, c.id);
    }
}

/// Where the new song goes: behind every song that does not follow it
/// strictly, before the first that does.
pub proof fn lemma_insert_position(songs: Seq<SongView>, song: SongView, p: int)
    requires
        0 <= p <= songs.len(),
        forall|k: int| 0 <= k < p ==> !ranks_before(song, #[trigger] songs[k]),
        p < songs.len() ==> ranks_before(song, songs[p]),
    ensures
        insert_ranked(songs, song) == songs.insert(p, song),
    decreases songs.len(),
{
    if songs.len() == 0 {
        assert(songs.insert(0, song) =~= seq![song]);
    } else if p == 0 {
        assert(songs.insert(0, song) =~= seq![song] + songs);
    } else {
        let rest = songs.drop_first();
        assert(!ranks_before(song, songs[0]));
        assert forall|k: int| 0 <= k < p - 1 implies !ranks_before(song, #[trigger] rest[k]) by {
            assert(rest[k] == songs[k + 1]);
        }
        if p - 1 < rest.len() {
            assert(rest[p - 1] == songs[p]);
        }
        lemma_insert_position(rest, song, p - 1);
        assert(songs.insert(p, song) =~= seq![songs[0]] + rest.insert(p - 1, song));
    }
}

/// Putting a song into a ranked list gives a ranked list with that song more.
pub proof fn lemma_insert_ranked(songs: Seq<SongView>, song: SongView)
    requires
        ranked(songs),
    ensures
        ranked(insert_ranked(songs, song)),
        insert_ranked(songs, song).len() == songs.len() + 1,
        insert_ranked(songs, song).to_multiset() == songs.to_multiset().insert(song),
        forall|x: SongView| insert_ranked(songs, song).contains(x) <==> x == song || songs.contains(x),
    decreases songs.len(),
{
    broadcast use vstd::seq_lib::group_to_multiset_ensures;

    let out = insert_ranked(songs, song);
    if songs.len() == 0 {
        assert(out =~= Seq::<SongView>::empty().push(song));
        assert(songs =~= Seq::<SongView>::empty());
        assert forall|x: SongView| out.contains(x) <==> x == song || songs.contains(x) by {
            assert(out[0] == song);
        }
    } else if ranks_before(song, songs[0]) {
        assert(out =~= songs.insert(0, song));
        vstd::seq_lib::to_multiset_insert(songs, 0, song);
        assert forall|i: int, j: int| 0 <= i < j < out.len() implies !ranks_before(
            #[trigger] out[j],
            #[trigger] out[i],
        ) by {
            if i == 0 {
                assert(out[j] == songs[j - 1]);
                if j - 1 > 0 {
                    assert(!ranks_before(songs[j - 1], songs[0]));
                }
                lemma_ranks_before_total(songs[0], song);
                lemma_ranks_before_transitive(song, songs[0], songs[j - 1]);
                lemma_ranks_before_total(song, songs[j - 1]);
            } else {
                assert(out[i] == songs[i - 1]);
                assert(out[j] == songs[j - 1]);
            }
        }
        assert forall|x: SongView| out.contains(x) <==> x == song || songs.contains(x) by {
            if songs.contains(x) {
                let k = choose|k: int| 0 <= k < songs.len() && songs[k] == x;
                assert(out[k + 1] == x);
            }
            if x == song {
                assert(out[0] == song);
            }
            if out.contains(x) {
                let k = choose|k: int| 0 <= k < out.len() && out[k] == x;
                if k > 0 {
                    assert(songs[k - 1] == x);
                }
            }
        }
    } else {
        let rest = songs.drop_first();
        assert forall|i: int, j: int| 0 <= i < j < rest.len() implies !ranks_before(
            #[trigger] rest[j],
            #[trigger] rest[i],
        ) by {
            assert(rest[i] == songs[i + 1]);
            assert(rest[j] == songs[j + 1]);
        }
        lemma_insert_ranked(rest, song);
        let tail = insert_ranked(rest, song);
        assert(out =~= tail.insert(0, songs[0]));
        assert(songs =~= rest.insert(0, songs[0]));
        vstd::seq_lib::to_multiset_insert(tail, 0, songs[0]);
        vstd::seq_lib::to_multiset_insert(rest, 0, songs[0]);
        assert(out.to_multiset() =~= songs.to_multiset().insert(song));
        assert forall|i: int, j: int| 0 <= i < j < out.len() implies !ranks_before(
            #[trigger] out[j],
            #[trigger] out[i],
        ) by {
            if i == 0 {
                assert(out[j] == tail[j - 1]);
                assert(tail.contains(tail[j - 1]));
                if tail[j - 1] != song {
                    assert(rest.contains(tail[j - 1]));
                    let k = choose|k: int| 0 <= k < rest.len() && rest[k] == tail[j - 1];
                    assert(songs[k + 1] == rest[k]);
                    assert(!ranks_before(songs[k + 1], songs[0]));
                }
            } else {
                assert(out[i] == tail[i - 1]);
                assert(out[j] == tail[j - 1]);
            }
        }
        assert forall|x: SongView| out.contains(x) <==> x == song || songs.contains(x) by {
            if x == songs[0] {
                assert(out[0] == x);
                assert(songs.contains(x));
            }
            if tail.contains(x) {
                let k = choose|k: int| 0 <= k < tail.len() && tail[k] == x;
                assert(out[k + 1] == x);
            }
            if rest.contains(x) {
                let k = choose|k: int| 0 <= k < rest.len() && rest[k] == x;
                assert(songs[k + 1] == x);
            }
            if songs.contains(x) {
                let k = choose|k: int| 0 <= k < songs.len() && songs[k] == x;
                if k > 0 {
                    assert(rest[k - 1] == x);
                }
            }
            if out.contains(x) {
                let k = choose|k: int| 0 <= k < out.len() && out[k] == x;
                if k > 0 {
                    assert(tail[k - 1] == x);
                }
            }
        }
    }
}

/// The queue order of any songs is ranked and holds the same songs, each as
/// often as it was given.
pub proof fn lemma_rank(songs: Seq<SongView>)
    ensures
        ranked(rank(songs)),
        rank(songs).len() == songs.len(),
        rank(songs).to_multiset() == songs.to_multiset(),
        forall|x: SongView| rank(songs).contains(x) <==> songs.contains(x),
    decreases songs.len(),
{
    broadcast use vstd::seq_lib::group_to_multiset_ensures;

    if songs.len() == 0 {
    } else {
        let front = songs.drop_last();
        lemma_rank(front);
        lemma_insert_ranked(rank(front), songs.last());
        assert(songs =~= front.push(songs.last()));
        vstd::seq_lib::to_multiset_build(front, songs.last());
        assert forall|x: SongView| rank(songs).contains(x) <==> songs.contains(x) by {
            if front.contains(x) {
                let k = choose|k: int| 0 <= k < front.len() && front[k] == x;
                assert(songs[k] == x);
            }
            if x == songs.last() {
                assert(songs[songs.len() - 1] == x);
            }
            if songs.contains(x) {
                let k = choose|k: int| 0 <= k < songs.len() && songs[k] == x;
                if k < front.len() {
                    assert(front[k] == x);
                }
            }
        }
    }
}

/// Whether `a` stands strictly before `b` in the queue.
pub fn song_ranks_before(a: &Song, b: &Song) -> (r: bool)
    ensures
        r == ranks_before(a@, b@),
{
    a.votes.votes > b.votes.votes || (a.votes.votes == b.votes.votes && str_lt(
        b.id.as_str(),
        a.id.as_str(),
    ))
}

/// Puts a song into a list at its place in the queue.
pub fn insert_song_ranked(songs: &mut Vec<Song>, song: Song)
    ensures
        views(final(songs)@) == insert_ranked(views(old(songs)@), song@),
{
    let ghost before = views(songs@);
    let mut p: usize = 0;
    while p < songs.len() && !song_ranks_before(&song, &songs[p])
        invariant
            p <= songs.len(),
            before == views(songs@),
            forall|k: int| 0 <= k < p ==> !ranks_before(song@, #[trigger] before[k]),
        decreases songs.len() - p,
    {
        p = p + 1;
    }
    proof {
        lemma_insert_position(before, song@, p as int);
    }
    let ghost added = song@;
    songs.insert(p, song);
    proof {
        assert(views(songs@) =~= before.insert(p as int, added));
    }
}

} // verus!
