//! What holds of the session as a whole: of the order of the queue, of votes
//! and the flag that shows them, of the quota, of roles, of ownership, and of
//! a connection that received what it could not decode.

use vstd::prelude::*;
use crate::mutation::{other_song, other_vote, vote_elsewhere};
use crate::protocol::{fatal, RequestView};
use crate::ranking::{
    lemma_insert_position, lemma_rank, lemma_ranks_before_total, rank, ranked, ranks_before,
    strictly_ranked,
};
use crate::socket::read::{
    lemma_closed_is_final, lemma_run_split, next_phase, next_store, refusal, reported, run,
    InboundView, PhaseView,
};
use crate::song::{add_song_refusal, admission, may_remove, queue, queued_in, shown, songs_shown};
use crate::store::{SongRowView, StoreView, VoteRowView, vote_for};
use crate::socket::write::{other_connection, RegistryView, SubscriberView};
use crate::table::{
    distinct_keys, lemma_filter_distinct, lemma_filter_member, lemma_filter_source,
    lemma_filter_target,
};
use crate::types::{ErrorKind, IdTypeView, IdView, SongView, TrackView};

verus! {

/// A list that is in the order of the queue is left as it is by ordering it.
pub proof fn law_ranked_is_fixed(songs: Seq<SongView>)
    requires
        ranked(songs),
    ensures
        rank(songs) == songs,
    decreases songs.len(),
{
    if songs.len() > 0 {
        let front = songs.drop_last();
        assert forall|i: int, j: int| 0 <= i < j < front.len() implies !ranks_before(
            #[trigger] front[j],
            #[trigger] front[i],
        ) by {
            assert(front[i] == songs[i]);
            assert(front[j] == songs[j]);
        }
        law_ranked_is_fixed(front);
        assert forall|k: int| 0 <= k < front.len() implies !ranks_before(
            songs.last(),
            #[trigger] front[k],
        ) by {
            assert(front[k] == songs[k]);
            assert(!ranks_before(songs[songs.len() - 1], songs[k]));
        }
        lemma_insert_position(front, songs.last(), front.len() as int);
        assert(front.insert(front.len() as int, songs.last()) =~= songs);
    }
}

/// Ordering is idempotent: to order what is ordered changes nothing.
pub proof fn law_rank_is_idempotent(songs: Seq<SongView>)
    ensures
        rank(rank(songs)) == rank(songs),
{
    lemma_rank(songs);
    law_ranked_is_fixed(rank(songs));
}

/// Whatever the state holds, a queue is in order: no song of it stands
/// strictly before a song that precedes it.
pub proof fn law_queue_is_ranked(store: StoreView, viewer: IdTypeView)
    ensures
        ranked(queue(store, viewer)),
{
    lemma_rank(songs_shown(store, viewer));
}

/// A queue holds the songs of the viewer's jam and no others: a song is in it
/// exactly if it is, as the viewer sees it, a song of the store whose owner
/// has joined the viewer's jam.
pub proof fn law_queue_holds_the_jam(store: StoreView, viewer: IdTypeView, song: SongView)
    ensures
        queue(store, viewer).contains(song) <==> exists|i: int|
            0 <= i < store.songs.len() && store.user_in_jam(
                (#[trigger] store.songs[i]).user_id,
                viewer.jam_id(),
            ) && song == shown(store, viewer, store.songs[i]),
{
    let pred = queued_in(store, viewer.jam_id());
    let kept = store.songs.filter(pred);
    let all = songs_shown(store, viewer);
    lemma_rank(all);
    if queue(store, viewer).contains(song) {
        assert(all.contains(song));
        let a = choose|a: int| 0 <= a < all.len() && all[a] == song;
        assert(all[a] == shown(store, viewer, kept[a]));
        let i = lemma_filter_source(store.songs, pred, a);
        assert(store.user_in_jam(store.songs[i].user_id, viewer.jam_id()));
    }
    if exists|i: int|
        0 <= i < store.songs.len() && store.user_in_jam(
            (#[trigger] store.songs[i]).user_id,
            viewer.jam_id(),
        ) && song == shown(store, viewer, store.songs[i]) {
        let i = choose|i: int|
            0 <= i < store.songs.len() && store.user_in_jam(
                (#[trigger] store.songs[i]).user_id,
                viewer.jam_id(),
            ) && song == shown(store, viewer, store.songs[i]);
        let a = lemma_filter_target(store.songs, pred, i);
        assert(all[a] == shown(store, viewer, kept[a]));
        assert(all.contains(song));
    }
}

/// In a well-formed state the songs that a viewer is shown have each their own
/// id.
pub proof fn lemma_shown_ids_distinct(store: StoreView, viewer: IdTypeView)
    requires
        store.wf(),
    ensures
        forall|i: int, j: int|
            0 <= i < j < songs_shown(store, viewer).len() ==> (#[trigger] songs_shown(
                store,
                viewer,
            )[i]).id != (#[trigger] songs_shown(store, viewer)[j]).id,
{
    let key = |s: SongRowView| s.id;
    let pred = queued_in(store, viewer.jam_id());
    assert(distinct_keys(store.songs, key)) by {
        assert forall|i: int, j: int| 0 <= i < j < store.songs.len() implies #[trigger] key(
            store.songs[i],
        ) != #[trigger] key(store.songs[j]) by {
            assert(store.songs[i].id != store.songs[j].id);
        }
    }
    lemma_filter_distinct(store.songs, key, pred);
    let kept = store.songs.filter(pred);
    let all = songs_shown(store, viewer);
    assert forall|i: int, j: int| 0 <= i < j < all.len() implies (#[trigger] all[i]).id != (
    #[trigger] all[j]).id by {
        assert(all[i] == shown(store, viewer, kept[i]));
        assert(all[j] == shown(store, viewer, kept[j]));
        assert(key(kept[i]) != key(kept[j]));
    }
}

/// The order of the queue is total. In a well-formed state every song of a
/// queue stands strictly before every song that follows it: no two of them
/// have the same votes and the same id, and no id stands in the queue twice.
pub proof fn law_queue_is_strictly_ranked(store: StoreView, viewer: IdTypeView)
    requires
        store.wf(),
    ensures
        strictly_ranked(queue(store, viewer)),
        forall|i: int, j: int|
            0 <= i < j < queue(store, viewer).len() ==> (#[trigger] queue(store, viewer)[i]).id != (
            #[trigger] queue(store, viewer)[j]).id,
        queue(store, viewer).len() == songs_shown(store, viewer).len(),
{
    let all = songs_shown(store, viewer);
    let out = queue(store, viewer);
    lemma_shown_ids_distinct(store, viewer);
    lemma_rank(all);
    assert(all.no_duplicates()) by {
        assert forall|i: int, j: int| 0 <= i < all.len() && 0 <= j < all.len() && i != j implies all[i]
            != all[j] by {
            if i < j {
                assert(all[i].id != all[j].id);
            } else {
                assert(all[j].id != all[i].id);
            }
        }
    }
    all.lemma_multiset_has_no_duplicates();
    out.lemma_multiset_has_no_duplicates_conv();
    assert forall|i: int, j: int| 0 <= i < j < out.len() implies (#[trigger] out[i]).id != (
    #[trigger] out[j]).id by {
        assert(out.contains(out[i]));
        assert(out.contains(out[j]));
        assert(all.contains(out[i]));
        assert(all.contains(out[j]));
        let a = choose|a: int| 0 <= a < all.len() && all[a] == out[i];
        let b = choose|b: int| 0 <= b < all.len() && all[b] == out[j];
        if out[i].id == out[j].id {
            if a < b {
                assert(all[a].id != all[b].id);
            } else if b < a {
                assert(all[b].id != all[a].id);
            }
            assert(out[i] == out[j]);
        }
    }
    assert forall|i: int, j: int| 0 <= i < j < out.len() implies ranks_before(
        #[trigger] out[i],
        #[trigger] out[j],
    ) by {
        lemma_ranks_before_total(out[i], out[j]);
        assert(out[i].id != out[j].id);
        assert(!ranks_before(out[j], out[i]));
    }
}

/// Every song of a queue is a song of the viewer's jam as the viewer sees it:
/// a user is told of each song whether they have voted for it, which is so
/// exactly if the store holds their vote for it; a host is told of no vote.
pub proof fn law_vote_flag_tells_the_vote(store: StoreView, viewer: IdTypeView, k: int)
    requires
        0 <= k < queue(store, viewer).len(),
    ensures
        queue(store, viewer)[k].votes.have_you_voted == match viewer {
            IdTypeView::User(user) => Some(store.has_vote(user.id, queue(store, viewer)[k].id)),
            IdTypeView::Host(_) => None::<bool>,
        },
        queue(store, viewer)[k].votes.votes == store.vote_count(queue(store, viewer)[k].id) as u64,
{
    let all = songs_shown(store, viewer);
    let out = queue(store, viewer);
    lemma_rank(all);
    assert(out.contains(out[k]));
    assert(all.contains(out[k]));
    let a = choose|a: int| 0 <= a < all.len() && all[a] == out[k];
    let kept = store.songs.filter(queued_in(store, viewer.jam_id()));
    assert(all[a] == shown(store, viewer, kept[a]));
}

/// After a vote is added the store holds it, and after it is removed the store
/// holds it no more; so the flag of the song is true to the user after the
/// one, and false after the other.
pub proof fn law_vote_comes_and_goes(store: StoreView, user_id: Seq<char>, song_id: Seq<char>)
    ensures
        store.with_vote(user_id, song_id).has_vote(user_id, song_id),
        !store.without_vote(user_id, song_id).has_vote(user_id, song_id),
{
    let row = VoteRowView { user_id, song_id };
    let added = store.with_vote(user_id, song_id);
    assert(added.votes[store.votes.len() as int] == row);
    lemma_filter_member(store.votes, other_vote(user_id, song_id), row);
}

/// A user who has just voted for a song sees its flag set, and a user whose
/// vote for a song was just taken back sees it cleared.
pub proof fn law_flag_follows_the_vote(
    store: StoreView,
    user: IdView,
    song_id: Seq<char>,
    k: int,
    j: int,
)
    requires
        0 <= k < queue(store.with_vote(user.id, song_id), IdTypeView::User(user)).len(),
        queue(store.with_vote(user.id, song_id), IdTypeView::User(user))[k].id == song_id,
        0 <= j < queue(store.without_vote(user.id, song_id), IdTypeView::User(user)).len(),
        queue(store.without_vote(user.id, song_id), IdTypeView::User(user))[j].id == song_id,
    ensures
        queue(store.with_vote(user.id, song_id), IdTypeView::User(user))[k].votes.have_you_voted
            == Some(true),
        queue(store.without_vote(user.id, song_id), IdTypeView::User(user))[j].votes.have_you_voted
            == Some(false),
{
    law_vote_comes_and_goes(store, user.id, song_id);
    law_vote_flag_tells_the_vote(store.with_vote(user.id, song_id), IdTypeView::User(user), k);
    law_vote_flag_tells_the_vote(store.without_vote(user.id, song_id), IdTypeView::User(user), j);
}

/// A user who has as many songs queued as their jam allows is told so when
/// they ask for another, at once and again when the provider has answered; the
/// connection stays open and the shared state is as it was.
pub proof fn law_quota_holds(
    store: StoreView,
    user: IdView,
    song_id: Seq<char>,
    track: TrackView,
    max_song_count: i16,
)
    requires
        store.jam_limit(user.jam_id) == Some(max_song_count),
        store.song_count(user.id) >= max_song_count,
    ensures
        admission(store, song_id, user.id, user.jam_id) == Some(
            ErrorKind::UserHasTooTheMaxSongAmount,
        ),
        add_song_refusal(store, song_id, user.id, user.jam_id, track) == Some(
            ErrorKind::UserHasTooTheMaxSongAmount,
        ),
        reported(
            PhaseView::AwaitingMessage,
            IdTypeView::User(user),
            store,
            InboundView::Frame(Ok(RequestView::AddSong { song_id })),
        ) == Some((ErrorKind::UserHasTooTheMaxSongAmount, false)),
        next_store(
            PhaseView::AwaitingMessage,
            IdTypeView::User(user),
            store,
            InboundView::Frame(Ok(RequestView::AddSong { song_id })),
        ) == store,
        next_phase(
            PhaseView::AwaitingMessage,
            IdTypeView::User(user),
            store,
            InboundView::Frame(Ok(RequestView::AddSong { song_id })),
        ) == PhaseView::AwaitingMessage,
        reported(
            PhaseView::Executing { song_id },
            IdTypeView::User(user),
            store,
            InboundView::Track(Ok(track)),
        ) == Some((ErrorKind::UserHasTooTheMaxSongAmount, false)),
        next_store(
            PhaseView::Executing { song_id },
            IdTypeView::User(user),
            store,
            InboundView::Track(Ok(track)),
        ) == store,
{
}

/// A user who asks for a user to be removed is told that it is forbidden, and
/// so is a host who asks for a song to be queued; the connection stays open
/// and the shared state is as it was, whatever it holds.
pub proof fn law_roles_are_enforced(
    store: StoreView,
    user: IdView,
    host: IdView,
    user_id: Seq<char>,
    song_id: Seq<char>,
)
    ensures
        reported(
            PhaseView::AwaitingMessage,
            IdTypeView::User(user),
            store,
            InboundView::Frame(Ok(RequestView::RemoveUser { user_id })),
        ) == Some((ErrorKind::Forbidden, false)),
        next_store(
            PhaseView::AwaitingMessage,
            IdTypeView::User(user),
            store,
            InboundView::Frame(Ok(RequestView::RemoveUser { user_id })),
        ) == store,
        next_phase(
            PhaseView::AwaitingMessage,
            IdTypeView::User(user),
            store,
            InboundView::Frame(Ok(RequestView::RemoveUser { user_id })),
        ) == PhaseView::AwaitingMessage,
        reported(
            PhaseView::AwaitingMessage,
            IdTypeView::Host(host),
            store,
            InboundView::Frame(Ok(RequestView::AddSong { song_id })),
        ) == Some((ErrorKind::Forbidden, false)),
        next_store(
            PhaseView::AwaitingMessage,
            IdTypeView::Host(host),
            store,
            InboundView::Frame(Ok(RequestView::AddSong { song_id })),
        ) == store,
        next_phase(
            PhaseView::AwaitingMessage,
            IdTypeView::Host(host),
            store,
            InboundView::Frame(Ok(RequestView::AddSong { song_id })),
        ) == PhaseView::AwaitingMessage,
{
}

/// Every request is refused as forbidden exactly if the role of the connection
/// is not the one that the request asks for.
pub proof fn law_forbidden_is_for_the_wrong_role(
    store: StoreView,
    id: IdTypeView,
    request: RequestView,
)
    ensures
        refusal(store, id, request) == Some(ErrorKind::Forbidden) <==> !crate::socket::read::permits(
            id,
            request,
        ),
{
}

/// Whether an error that is reported on an open connection ends it goes by
/// its kind alone: what could not be decoded ends it, nothing else does.
pub proof fn law_fatal_goes_by_kind(
    phase: PhaseView,
    id: IdTypeView,
    store: StoreView,
    event: InboundView,
)
    ensures
        reported(phase, id, store, event) matches Some((kind, ends)) ==> ends == fatal(kind, false)
            && (ends <==> kind == ErrorKind::Decode) && (ends ==> next_phase(
            phase,
            id,
            store,
            event,
        ) is Closed),
{
    match (phase, event) {
        (PhaseView::AwaitingMessage, InboundView::Frame(Ok(request))) => {
            lemma_refusals(store, id, request);
        },
        (PhaseView::Executing { song_id }, InboundView::Track(Ok(track))) => {
            lemma_admissions(store, song_id, id.id().id, id.jam_id());
        },
        _ => {},
    }
}

/// A song is refused admission for one of three reasons.
proof fn lemma_admissions(
    store: StoreView,
    song_id: Seq<char>,
    user_id: Seq<char>,
    jam_id: Seq<char>,
)
    ensures
        admission(store, song_id, user_id, jam_id) matches Some(kind) ==> kind
            == ErrorKind::Database || kind == ErrorKind::UserHasTooTheMaxSongAmount || kind
            == ErrorKind::Spotify,
{
}

/// A request is never refused for want of decoding.
proof fn lemma_refusals(store: StoreView, id: IdTypeView, request: RequestView)
    ensures
        refusal(store, id, request) != Some(ErrorKind::Decode),
{
    match request {
        RequestView::AddSong { song_id } => {
            lemma_admissions(store, song_id, id.id().id, id.jam_id());
        },
        _ => {},
    }
}

/// In a well-formed state a song has one owner: a user cannot remove a song
/// that another user queued.
pub proof fn law_song_of_another_stays(
    store: StoreView,
    song_id: Seq<char>,
    user: IdView,
    owner_id: Seq<char>,
)
    requires
        store.wf(),
        store.song_owned_by(song_id, owner_id),
        owner_id != user.id,
    ensures
        !may_remove(store, song_id, IdTypeView::User(user)),
{
    if store.song_owned_by(song_id, user.id) {
        let a = choose|a: int|
            0 <= a < store.songs.len() && #[trigger] store.songs[a].id == song_id
                && store.songs[a].user_id == owner_id;
        let b = choose|b: int|
            0 <= b < store.songs.len() && #[trigger] store.songs[b].id == song_id
                && store.songs[b].user_id == user.id;
        if a < b {
            assert(store.songs[a].id != store.songs[b].id);
        } else if b < a {
            assert(store.songs[b].id != store.songs[a].id);
        }
    }
}

/// A user may remove a song that they queued, and when a song is removed it is
/// gone with every vote it had.
pub proof fn law_own_song_goes_with_its_votes(store: StoreView, song_id: Seq<char>, user: IdView)
    ensures
        store.song_owned_by(song_id, user.id) ==> may_remove(store, song_id, IdTypeView::User(user)),
        !store.without_song(song_id).has_song(song_id),
        store.without_song(song_id).vote_count(song_id) == 0,
        forall|voter: Seq<char>| !store.without_song(song_id).has_vote(voter, song_id),
{
    let after = store.without_song(song_id);
    if after.has_song(song_id) {
        let i = choose|i: int| 0 <= i < after.songs.len() && #[trigger] after.songs[i].id == song_id;
        store.songs.lemma_filter_pred(other_song(song_id), i);
    }
    assert forall|voter: Seq<char>| !after.has_vote(voter, song_id) by {
        lemma_filter_member(
            store.votes,
            vote_elsewhere(song_id),
            VoteRowView { user_id: voter, song_id },
        );
    }
    let left = after.votes.filter(vote_for(song_id));
    if left.len() > 0 {
        after.votes.lemma_filter_pred(vote_for(song_id), 0);
        assert(left.contains(left[0]));
        after.votes.lemma_filter_contains_rev(vote_for(song_id), left[0]);
        lemma_filter_member(store.votes, vote_elsewhere(song_id), left[0]);
    }
}

/// A connection that receives what it cannot decode reports a fatal decode
/// error and is closed; whatever arrives on it afterwards changes nothing.
pub proof fn law_undecodable_frame_closes(
    id: IdTypeView,
    store: StoreView,
    text: Seq<char>,
    later: Seq<InboundView>,
)
    ensures
        reported(PhaseView::AwaitingMessage, id, store, InboundView::Frame(Err(text))) == Some(
            (ErrorKind::Decode, true),
        ),
        next_phase(PhaseView::AwaitingMessage, id, store, InboundView::Frame(Err(text)))
            == PhaseView::Closed,
        run(PhaseView::AwaitingMessage, id, store, seq![InboundView::Frame(Err(text))] + later) == (
            PhaseView::Closed,
            store,
        ),
{
    let first = seq![InboundView::Frame(Err::<RequestView, Seq<char>>(text))];
    assert(first.drop_last() =~= Seq::<InboundView>::empty());
    assert(first.last() == InboundView::Frame(Err::<RequestView, Seq<char>>(text)));
    assert(run(PhaseView::AwaitingMessage, id, store, first.drop_last()) == (
        PhaseView::AwaitingMessage,
        store,
    ));
    assert(run(PhaseView::AwaitingMessage, id, store, first) == (PhaseView::Closed, store));
    lemma_run_split(PhaseView::AwaitingMessage, id, store, first, later);
    lemma_closed_is_final(id, store, later);
}

/// Selecting the rows that all are selected leaves the rows as they are.
proof fn lemma_filter_all<A>(rows: Seq<A>, pred: spec_fn(A) -> bool)
    requires
        forall|i: int| 0 <= i < rows.len() ==> pred(#[trigger] rows[i]),
    ensures
        rows.filter(pred) == rows,
    decreases rows.len(),
{
    reveal(Seq::filter);
    if rows.len() > 0 {
        let front = rows.drop_last();
        assert forall|i: int| 0 <= i < front.len() implies pred(#[trigger] front[i]) by {
            assert(front[i] == rows[i]);
        }
        lemma_filter_all(front, pred);
        assert(front.push(rows.last()) =~= rows);
    }
}

/// A connection that is registered and removed again leaves the registry as it
/// was, and with it the jams whose feeds are listened to.
pub proof fn law_registration_is_undone(registry: RegistryView, subscriber: SubscriberView)
    requires
        !registry.has_connection(subscriber.connection),
    ensures
        (RegistryView { subscribers: registry.subscribers.push(subscriber) }).without(
            subscriber.connection,
        ) == registry,
{
    let pred = other_connection(subscriber.connection);
    registry.subscribers.lemma_filter_push(subscriber, pred);
    assert forall|i: int| 0 <= i < registry.subscribers.len() implies pred(
        #[trigger] registry.subscribers[i],
    ) by {
        assert(registry.subscribers[i].connection != subscriber.connection);
    }
    lemma_filter_all(registry.subscribers, pred);
}

} // verus!
