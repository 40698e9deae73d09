//! Changing the shared state: rows that come, rows that go, and the rows that
//! go with them. Every change keeps the state well formed.

use vstd::prelude::*;
use crate::store::{
    SongRow, SongRowView, Store, StoreView, UserRow, UserRowView, VoteRow, VoteRowView, views,
};
use crate::table::{
    distinct_keys, lemma_filter_distinct, lemma_filter_ends, lemma_filter_source,
    lemma_filter_step, lemma_filter_target,
};
use crate::text::str_eq;
use crate::types::{Error, ErrorKind};

verus! {

/// Every song but the one with the id.
pub open spec fn other_song(song_id: Seq<char>) -> spec_fn(SongRowView) -> bool {
    |s: SongRowView| s.id != song_id
}

/// Every vote but those for the song.
pub open spec fn vote_elsewhere(song_id: Seq<char>) -> spec_fn(VoteRowView) -> bool {
    |v: VoteRowView| v.song_id != song_id
}

/// Every vote but the user's vote for the song.
pub open spec fn other_vote(user_id: Seq<char>, song_id: Seq<char>) -> spec_fn(VoteRowView) -> bool {
    |v: VoteRowView| !(v.user_id == user_id && v.song_id == song_id)
}

/// Every user but the one with the id.
pub open spec fn other_user(user_id: Seq<char>) -> spec_fn(UserRowView) -> bool {
    |u: UserRowView| u.id != user_id
}

/// Every song that the user did not queue.
pub open spec fn queued_by_other(user_id: Seq<char>) -> spec_fn(SongRowView) -> bool {
    |s: SongRowView| s.user_id != user_id
}

/// Every vote that is neither the user's nor for a song that the user queued.
pub open spec fn vote_apart_from(store: StoreView, user_id: Seq<char>) -> spec_fn(VoteRowView) -> bool {
    |v: VoteRowView| v.user_id != user_id && !store.song_owned_by(v.song_id, user_id)
}

impl StoreView {
    /// The state with one more song.
    pub open spec fn with_song(self, row: SongRowView) -> StoreView {
        StoreView { songs: self.songs.push(row), ..self }
    }

    /// The state with one more vote.
    pub open spec fn with_vote(self, user_id: Seq<char>, song_id: Seq<char>) -> StoreView {
        StoreView { votes: self.votes.push(VoteRowView { user_id, song_id }), ..self }
    }

    /// The state without the song and without the votes it had.
    pub open spec fn without_song(self, song_id: Seq<char>) -> StoreView {
        StoreView {
            songs: self.songs.filter(other_song(song_id)),
            votes: self.votes.filter(vote_elsewhere(song_id)),
            ..self
        }
    }

    /// The state without the user's vote for the song.
    pub open spec fn without_vote(self, user_id: Seq<char>, song_id: Seq<char>) -> StoreView {
        StoreView { votes: self.votes.filter(other_vote(user_id, song_id)), ..self }
    }

    /// The state without the user, the songs the user queued, the votes those
    /// songs had, and the votes the user gave.
    pub open spec fn without_user(self, user_id: Seq<char>) -> StoreView {
        StoreView {
            users: self.users.filter(other_user(user_id)),
            songs: self.songs.filter(queued_by_other(user_id)),
            votes: self.votes.filter(vote_apart_from(self, user_id)),
            ..self
        }
    }

    /// A song that is new and whose owner exists keeps the state well formed.
    pub proof fn lemma_with_song(self, after: StoreView, row: SongRowView)
        requires
            self.wf(),
            !self.has_song(row.id),
            self.has_user(row.user_id),
            after == self.with_song(row),
        ensures
            after.wf(),
    {
        assert(after.songs == self.songs.push(row));
        assert(after.hosts == self.hosts && after.jams == self.jams && after.users == self.users
            && after.votes == self.votes);
        assert forall|i: int| 0 <= i < after.songs.len() implies after.has_user(
            #[trigger] after.songs[i].user_id,
        ) by {
            if i < self.songs.len() {
                assert(self.has_user(self.songs[i].user_id));
            }
        }
        assert forall|i: int| 0 <= i < after.votes.len() implies after.has_song(
            #[trigger] after.votes[i].song_id,
        ) by {
            assert(self.has_song(self.votes[i].song_id));
            self.lemma_songs_kept(after, self.votes[i].song_id);
        }
    }

    /// A vote that is new, by a user and for a song that exist, keeps the state
    /// well formed.
    pub proof fn lemma_with_vote(self, after: StoreView, user_id: Seq<char>, song_id: Seq<char>)
        requires
            self.wf(),
            !self.has_vote(user_id, song_id),
            self.has_user(user_id),
            self.has_song(song_id),
            after == self.with_vote(user_id, song_id),
        ensures
            after.wf(),
    {
        let row = VoteRowView { user_id, song_id };
        assert(after.votes == self.votes.push(row));
        assert(after.hosts == self.hosts && after.jams == self.jams && after.users == self.users
            && after.songs == self.songs);
        assert forall|i: int, j: int| 0 <= i < j < after.votes.len() implies #[trigger] after.votes[i]
            != #[trigger] after.votes[j] by {
            if j == self.votes.len() {
                assert(!self.votes.contains(row));
                assert(self.votes[i] != row);
            }
        }
        assert forall|i: int| 0 <= i < after.votes.len() implies after.has_user(
            #[trigger] after.votes[i].user_id,
        ) by {
            if i < self.votes.len() {
                assert(self.has_user(self.votes[i].user_id));
            }
        }
        assert forall|i: int| 0 <= i < after.votes.len() implies after.has_song(
            #[trigger] after.votes[i].song_id,
        ) by {
            if i < self.votes.len() {
                assert(self.has_song(self.votes[i].song_id));
            }
        }
    }

    /// A selection of the votes has no vote twice, and its votes are by users
    /// that the unchanged users hold.
    proof fn lemma_votes_selected(self, after: StoreView, pred: spec_fn(VoteRowView) -> bool)
        requires
            self.wf(),
            after.votes == self.votes.filter(pred),
        ensures
            forall|i: int, j: int|
                0 <= i < j < after.votes.len() ==> #[trigger] after.votes[i] != #[trigger] after.votes[j],
            after.users == self.users ==> forall|i: int|
                0 <= i < after.votes.len() ==> after.has_user(#[trigger] after.votes[i].user_id),
            after.songs == self.songs ==> forall|i: int|
                0 <= i < after.votes.len() ==> after.has_song(#[trigger] after.votes[i].song_id),
    {
        let key = |v: VoteRowView| v;
        assert(distinct_keys(self.votes, key)) by {
            assert forall|i: int, j: int| 0 <= i < j < self.votes.len() implies #[trigger] key(
                self.votes[i],
            ) != #[trigger] key(self.votes[j]) by {
                assert(self.votes[i] != self.votes[j]);
            }
        }
        lemma_filter_distinct(self.votes, key, pred);
        assert forall|i: int, j: int| 0 <= i < j < after.votes.len() implies #[trigger] after.votes[i]
            != #[trigger] after.votes[j] by {
            assert(key(after.votes[i]) != key(after.votes[j]));
        }
        if after.users == self.users {
            assert forall|i: int| 0 <= i < after.votes.len() implies after.has_user(
                #[trigger] after.votes[i].user_id,
            ) by {
                let k = lemma_filter_source(self.votes, pred, i);
                assert(self.has_user(self.votes[k].user_id));
            }
        }
        if after.songs == self.songs {
            assert forall|i: int| 0 <= i < after.votes.len() implies after.has_song(
                #[trigger] after.votes[i].song_id,
            ) by {
                let k = lemma_filter_source(self.votes, pred, i);
                assert(self.has_song(self.votes[k].song_id));
            }
        }
    }

    /// A selection of the songs has no id twice.
    proof fn lemma_songs_selected(self, after: StoreView, pred: spec_fn(SongRowView) -> bool)
        requires
            self.wf(),
            after.songs == self.songs.filter(pred),
        ensures
            forall|i: int, j: int|
                0 <= i < j < after.songs.len() ==> #[trigger] after.songs[i].id
                    != #[trigger] after.songs[j].id,
    {
        let key = |s: SongRowView| s.id;
        assert(distinct_keys(self.songs, key)) by {
            assert forall|i: int, j: int| 0 <= i < j < self.songs.len() implies #[trigger] key(
                self.songs[i],
            ) != #[trigger] key(self.songs[j]) by {
                assert(self.songs[i].id != self.songs[j].id);
            }
        }
        lemma_filter_distinct(self.songs, key, pred);
        assert forall|i: int, j: int| 0 <= i < j < after.songs.len() implies #[trigger] after.songs[i].id
            != #[trigger] after.songs[j].id by {
            assert(key(after.songs[i]) != key(after.songs[j]));
        }
    }

    /// Taking a vote away keeps the state well formed.
    pub proof fn lemma_without_vote(self, after: StoreView, user_id: Seq<char>, song_id: Seq<char>)
        requires
            self.wf(),
            after == self.without_vote(user_id, song_id),
        ensures
            after.wf(),
    {
        assert(after.votes == self.votes.filter(other_vote(user_id, song_id)));
        assert(after.hosts == self.hosts && after.jams == self.jams && after.users == self.users
            && after.songs == self.songs);
        self.lemma_votes_selected(after, other_vote(user_id, song_id));
    }

    /// Taking a song away, with the votes it had, keeps the state well formed.
    pub proof fn lemma_without_song(self, after: StoreView, song_id: Seq<char>)
        requires
            self.wf(),
            after == self.without_song(song_id),
        ensures
            after.wf(),
    {
        let keep = other_song(song_id);
        let keep_vote = vote_elsewhere(song_id);
        assert(after.songs == self.songs.filter(keep));
        assert(after.votes == self.votes.filter(keep_vote));
        assert(after.hosts == self.hosts && after.jams == self.jams && after.users == self.users);
        self.lemma_votes_selected(after, keep_vote);
        self.lemma_songs_selected(after, keep);
        assert forall|i: int| 0 <= i < after.songs.len() implies after.has_user(
            #[trigger] after.songs[i].user_id,
        ) by {
            let k = lemma_filter_source(self.songs, keep, i);
            assert(self.has_user(self.songs[k].user_id));
        }
        assert forall|i: int| 0 <= i < after.votes.len() implies after.has_song(
            #[trigger] after.votes[i].song_id,
        ) by {
            let k = lemma_filter_source(self.votes, keep_vote, i);
            assert(self.has_song(self.votes[k].song_id));
            let m = choose|m: int|
                0 <= m < self.songs.len() && #[trigger] self.songs[m].id == self.votes[k].song_id;
            let t = lemma_filter_target(self.songs, keep, m);
            assert(after.songs[t].id == after.votes[i].song_id);
        }
    }

    /// Taking a user away, with all that hangs on the user, keeps the state
    /// well formed.
    pub proof fn lemma_without_user(self, after: StoreView, user_id: Seq<char>)
        requires
            self.wf(),
            after == self.without_user(user_id),
        ensures
            after.wf(),
    {
        let keep = other_user(user_id);
        let keep_song = queued_by_other(user_id);
        let keep_vote = vote_apart_from(self, user_id);
        assert(after.users == self.users.filter(keep));
        assert(after.songs == self.songs.filter(keep_song));
        assert(after.votes == self.votes.filter(keep_vote));
        assert(after.hosts == self.hosts && after.jams == self.jams);
        self.lemma_votes_selected(after, keep_vote);
        self.lemma_songs_selected(after, keep_song);
        let key = |u: UserRowView| u.id;
        assert(distinct_keys(self.users, key)) by {
            assert forall|i: int, j: int| 0 <= i < j < self.users.len() implies #[trigger] key(
                self.users[i],
            ) != #[trigger] key(self.users[j]) by {
                assert(self.users[i].id != self.users[j].id);
            }
        }
        lemma_filter_distinct(self.users, key, keep);
        assert forall|i: int, j: int| 0 <= i < j < after.users.len() implies #[trigger] after.users[i].id
            != #[trigger] after.users[j].id by {
            assert(key(after.users[i]) != key(after.users[j]));
        }
        assert forall|i: int| 0 <= i < after.users.len() implies after.has_jam(
            #[trigger] after.users[i].jam_id,
        ) by {
            let k = lemma_filter_source(self.users, keep, i);
            assert(self.has_jam(self.users[k].jam_id));
        }
        assert forall|i: int| 0 <= i < after.songs.len() implies after.has_user(
            #[trigger] after.songs[i].user_id,
        ) by {
            let k = lemma_filter_source(self.songs, keep_song, i);
            assert(self.has_user(self.songs[k].user_id));
            let m = choose|m: int|
                0 <= m < self.users.len() && #[trigger] self.users[m].id == self.songs[k].user_id;
            let t = lemma_filter_target(self.users, keep, m);
            assert(after.users[t].id == after.songs[i].user_id);
        }
        assert forall|i: int| 0 <= i < after.votes.len() implies after.has_user(
            #[trigger] after.votes[i].user_id,
        ) by {
            let k = lemma_filter_source(self.votes, keep_vote, i);
            assert(self.has_user(self.votes[k].user_id));
            let m = choose|m: int|
                0 <= m < self.users.len() && #[trigger] self.users[m].id == self.votes[k].user_id;
            let t = lemma_filter_target(self.users, keep, m);
            assert(after.users[t].id == after.votes[i].user_id);
        }
        assert forall|i: int| 0 <= i < after.votes.len() implies after.has_song(
            #[trigger] after.votes[i].song_id,
        ) by {
            let k = lemma_filter_source(self.votes, keep_vote, i);
            assert(self.has_song(self.votes[k].song_id));
            let m = choose|m: int|
                0 <= m < self.songs.len() && #[trigger] self.songs[m].id == self.votes[k].song_id;
            assert(!self.song_owned_by(self.votes[k].song_id, user_id));
            assert(self.songs[m].user_id != user_id);
            let t = lemma_filter_target(self.songs, keep_song, m);
            assert(after.songs[t].id == after.votes[i].song_id);
        }
    }
}

impl Store {
    /// Adds a song. Refused where a song with the id is queued already, or
    /// where the user who is to own it does not exist.
    pub fn insert_song(&mut self, row: SongRow) -> (r: Result<(), Error>)
        ensures
            r is Err <==> old(self)@.has_song(row@.id) || !old(self)@.has_user(row@.user_id),
            r matches Err(e) ==> e@.kind() == ErrorKind::Database && final(self)@ == old(self)@,
            r is Ok ==> final(self)@ == old(self)@.with_song(row@),
            old(self)@.wf() ==> final(self)@.wf(),
    {
        if self.find_song(row.id.as_str()).is_some() {
            return Err(Error::Database("a song with this id is queued already".to_owned()));
        }
        if self.find_user(row.user_id.as_str()).is_none() {
            return Err(Error::Database("no user has this id".to_owned()));
        }
        let ghost added = row@;
        self.songs.push(row);
        proof {
            assert(self@.songs =~= old(self)@.songs.push(added));
            if old(self)@.wf() {
                old(self)@.lemma_with_song(self@, added);
            }
        }
        Ok(())
    }

    /// Adds the user's vote for the song. Refused where the user has voted for
    /// the song already, or where the user or the song does not exist.
    pub fn insert_vote(&mut self, user_id: &str, song_id: &str) -> (r: Result<(), Error>)
        ensures
            r is Err <==> old(self)@.has_vote(user_id@, song_id@) || !old(self)@.has_user(user_id@)
                || !old(self)@.has_song(song_id@),
            r matches Err(e) ==> e@.kind() == ErrorKind::Database && final(self)@ == old(self)@,
            r is Ok ==> final(self)@ == old(self)@.with_vote(user_id@, song_id@),
            old(self)@.wf() ==> final(self)@.wf(),
    {
        if self.find_vote(user_id, song_id).is_some() {
            return Err(Error::Database("the user has voted for this song already".to_owned()));
        }
        if self.find_user(user_id).is_none() {
            return Err(Error::Database("no user has this id".to_owned()));
        }
        if self.find_song(song_id).is_none() {
            return Err(Error::Database("no song has this id".to_owned()));
        }
        self.votes.push(VoteRow { user_id: user_id.to_owned(), song_id: song_id.to_owned() });
        proof {
            assert(self@.votes =~= old(self)@.votes.push(
                VoteRowView { user_id: user_id@, song_id: song_id@ },
            ));
            if old(self)@.wf() {
                old(self)@.lemma_with_vote(self@, user_id@, song_id@);
            }
        }
        Ok(())
    }

    /// Takes the user's vote for the song away, if there is one.
    pub fn delete_vote(&mut self, user_id: &str, song_id: &str)
        ensures
            final(self)@ == old(self)@.without_vote(user_id@, song_id@),
            old(self)@.wf() ==> final(self)@.wf(),
    {
        let ghost rows = self@.votes;
        let ghost pred = other_vote(user_id@, song_id@);
        let mut kept: Vec<VoteRow> = Vec::new();
        let mut i: usize = 0;
        proof {
            lemma_filter_ends(rows, pred);
            assert(views(kept@) =~= Seq::<VoteRowView>::empty());
        }
        while i < self.votes.len()
            invariant
                i <= self.votes.len(),
                rows == self@.votes,
                pred == other_vote(user_id@, song_id@),
                views(kept@) == rows.take(i as int).filter(pred),
            decreases self.votes.len() - i,
        {
            proof {
                lemma_filter_step(rows, pred, i as int);
                assert(rows[i as int] == self.votes[i as int]@);
            }
            if !(str_eq(self.votes[i].user_id.as_str(), user_id) && str_eq(
                self.votes[i].song_id.as_str(),
                song_id,
            )) {
                let ghost before = views(kept@);
                let row = self.votes[i].duplicate();
                kept.push(row);
                proof {
                    assert(views(kept@) =~= before.push(rows[i as int]));
                }
            }
            i = i + 1;
        }
        proof {
            lemma_filter_ends(rows, pred);
        }
        self.votes = kept;
        proof {
            if old(self)@.wf() {
                old(self)@.lemma_without_vote(self@, user_id@, song_id@);
            }
        }
    }

    /// Takes the song away, and with it the votes it had.
    pub fn delete_song(&mut self, song_id: &str)
        ensures
            final(self)@ == old(self)@.without_song(song_id@),
            old(self)@.wf() ==> final(self)@.wf(),
    {
        let ghost rows = self@.songs;
        let ghost pred = other_song(song_id@);
        let mut kept: Vec<SongRow> = Vec::new();
        let mut i: usize = 0;
        proof {
            lemma_filter_ends(rows, pred);
            assert(views(kept@) =~= Seq::<SongRowView>::empty());
        }
        while i < self.songs.len()
            invariant
                i <= self.songs.len(),
                rows == self@.songs,
                pred == other_song(song_id@),
                views(kept@) == rows.take(i as int).filter(pred),
            decreases self.songs.len() - i,
        {
            proof {
                lemma_filter_step(rows, pred, i as int);
                assert(rows[i as int] == self.songs[i as int]@);
            }
            if !str_eq(self.songs[i].id.as_str(), song_id) {
                let ghost before = views(kept@);
                let row = self.songs[i].duplicate();
                kept.push(row);
                proof {
                    assert(views(kept@) =~= before.push(rows[i as int]));
                }
            }
            i = i + 1;
        }
        let ghost vote_rows = self@.votes;
        let ghost vote_pred = vote_elsewhere(song_id@);
        let mut kept_votes: Vec<VoteRow> = Vec::new();
        let mut j: usize = 0;
        proof {
            lemma_filter_ends(rows, pred);
            lemma_filter_ends(vote_rows, vote_pred);
            assert(views(kept_votes@) =~= Seq::<VoteRowView>::empty());
        }
        while j < self.votes.len()
            invariant
                j <= self.votes.len(),
                vote_rows == self@.votes,
                vote_pred == vote_elsewhere(song_id@),
                views(kept_votes@) == vote_rows.take(j as int).filter(vote_pred),
            decreases self.votes.len() - j,
        {
            proof {
                lemma_filter_step(vote_rows, vote_pred, j as int);
                assert(vote_rows[j as int] == self.votes[j as int]@);
            }
            if !str_eq(self.votes[j].song_id.as_str(), song_id) {
                let ghost before = views(kept_votes@);
                let row = self.votes[j].duplicate();
                kept_votes.push(row);
                proof {
                    assert(views(kept_votes@) =~= before.push(vote_rows[j as int]));
                }
            }
            j = j + 1;
        }
        proof {
            lemma_filter_ends(vote_rows, vote_pred);
        }
        self.songs = kept;
        self.votes = kept_votes;
        proof {
            if old(self)@.wf() {
                old(self)@.lemma_without_song(self@, song_id@);
            }
        }
    }

    /// Takes the user away, and with the user the songs they queued, the votes
    /// those songs had, and the votes the user gave.
    pub fn delete_user(&mut self, user_id: &str)
        ensures
            final(self)@ == old(self)@.without_user(user_id@),
            old(self)@.wf() ==> final(self)@.wf(),
    {
        let ghost start = self@;
        let ghost vote_rows = self@.votes;
        let ghost vote_pred = vote_apart_from(start, user_id@);
        let mut kept_votes: Vec<VoteRow> = Vec::new();
        let mut j: usize = 0;
        proof {
            lemma_filter_ends(vote_rows, vote_pred);
            assert(views(kept_votes@) =~= Seq::<VoteRowView>::empty());
        }
        while j < self.votes.len()
            invariant
                j <= self.votes.len(),
                start == self@,
                vote_rows == self@.votes,
                vote_pred == vote_apart_from(start, user_id@),
                views(kept_votes@) == vote_rows.take(j as int).filter(vote_pred),
            decreases self.votes.len() - j,
        {
            proof {
                lemma_filter_step(vote_rows, vote_pred, j as int);
                assert(vote_rows[j as int] == self.votes[j as int]@);
            }
            if !str_eq(self.votes[j].user_id.as_str(), user_id) && !self.song_owned_by(
                self.votes[j].song_id.as_str(),
                user_id,
            ) {
                let ghost before = views(kept_votes@);
                let row = self.votes[j].duplicate();
                kept_votes.push(row);
                proof {
                    assert(views(kept_votes@) =~= before.push(vote_rows[j as int]));
                }
            }
            j = j + 1;
        }
        let ghost rows = self@.songs;
        let ghost pred = queued_by_other(user_id@);
        let mut kept: Vec<SongRow> = Vec::new();
        let mut i: usize = 0;
        proof {
            lemma_filter_ends(vote_rows, vote_pred);
            lemma_filter_ends(rows, pred);
            assert(views(kept@) =~= Seq::<SongRowView>::empty());
        }
        while i < self.songs.len()
            invariant
                i <= self.songs.len(),
                rows == self@.songs,
                pred == queued_by_other(user_id@),
                views(kept@) == rows.take(i as int).filter(pred),
            decreases self.songs.len() - i,
        {
            proof {
                lemma_filter_step(rows, pred, i as int);
                assert(rows[i as int] == self.songs[i as int]@);
            }
            if !str_eq(self.songs[i].user_id.as_str(), user_id) {
                let ghost before = views(kept@);
                let row = self.songs[i].duplicate();
                kept.push(row);
                proof {
                    assert(views(kept@) =~= before.push(rows[i as int]));
                }
            }
            i = i + 1;
        }
        let ghost user_rows = self@.users;
        let ghost user_pred = other_user(user_id@);
        let mut kept_users: Vec<UserRow> = Vec::new();
        let mut k: usize = 0;
        proof {
            lemma_filter_ends(rows, pred);
            lemma_filter_ends(user_rows, user_pred);
            assert(views(kept_users@) =~= Seq::<UserRowView>::empty());
        }
        while k < self.users.len()
            invariant
                k <= self.users.len(),
                user_rows == self@.users,
                user_pred == other_user(user_id@),
                views(kept_users@) == user_rows.take(k as int).filter(user_pred),
            decreases self.users.len() - k,
        {
            proof {
                lemma_filter_step(user_rows, user_pred, k as int);
                assert(user_rows[k as int] == self.users[k as int]@);
            }
            if !str_eq(self.users[k].id.as_str(), user_id) {
                let ghost before = views(kept_users@);
                let row = self.users[k].duplicate();
                kept_users.push(row);
                proof {
                    assert(views(kept_users@) =~= before.push(user_rows[k as int]));
                }
            }
            k = k + 1;
        }
        proof {
            lemma_filter_ends(user_rows, user_pred);
        }
        self.users = kept_users;
        self.songs = kept;
        self.votes = kept_votes;
        proof {
            if old(self)@.wf() {
                old(self)@.lemma_without_user(self@, user_id@);
            }
        }
    }
}

} // verus!
