//! Reading the shared state: what a key leads to, and how many rows a
//! condition selects.

use vstd::prelude::*;
use crate::store::{
    queued_by, vote_for, Credential, CredentialView, HostRowView, JamRowView, Store,
    UserRowView,
};
use crate::table::{lemma_filter_step, lemma_lookup, lemma_lookup_first};
use crate::text::str_eq;

verus! {

impl Store {
    /// How many songs one user may queue in the jam, if the jam exists.
    pub fn jam_limit(&self, jam_id: &str) -> (r: Option<i16>)
        ensures
            r == self@.jam_limit(jam_id@),
    {
        let ghost pairs = self@.jams.map_values(|j: JamRowView| (j.id, j.max_song_count));
        match self.find_jam(jam_id) {
            Some(i) => {
                proof {
                    assert(pairs[i as int] == (self@.jams[i as int].id, self@.jams[i as int].max_song_count));
                    assert forall|k: int| 0 <= k < i implies (#[trigger] pairs[k]).0 != jam_id@ by {
                        assert(pairs[k].0 == self@.jams[k].id);
                    }
                    lemma_lookup_first(pairs, jam_id@, i as int);
                }
                Some(self.jams[i].max_song_count)
            },
            None => {
                proof {
                    lemma_lookup(pairs, jam_id@);
                    if exists|i: int| 0 <= i < pairs.len() && (#[trigger] pairs[i]).0 == jam_id@ {
                        let i = choose|i: int| 0 <= i < pairs.len() && (#[trigger] pairs[i]).0 == jam_id@;
                        assert(self@.jams[i].id == jam_id@);
                    }
                }
                None
            },
        }
    }

    /// The jam that the host runs, if there is one.
    pub fn jam_of_host(&self, host_id: &str) -> (r: Option<String>)
        ensures
            match r {
                Some(jam_id) => self@.jam_of_host(host_id@) == Some(jam_id@),
                None => self@.jam_of_host(host_id@) is None,
            },
    {
        let ghost pairs = self@.jams.map_values(|j: JamRowView| (j.host_id, j.id));
        match self.find_jam_of_host(host_id) {
            Some(i) => {
                proof {
                    assert(pairs[i as int] == (self@.jams[i as int].host_id, self@.jams[i as int].id));
                    assert forall|k: int| 0 <= k < i implies (#[trigger] pairs[k]).0 != host_id@ by {
                        assert(pairs[k].0 == self@.jams[k].host_id);
                    }
                    lemma_lookup_first(pairs, host_id@, i as int);
                }
                Some(self.jams[i].id.clone())
            },
            None => {
                proof {
                    lemma_lookup(pairs, host_id@);
                    if exists|i: int| 0 <= i < pairs.len() && (#[trigger] pairs[i]).0 == host_id@ {
                        let i = choose|i: int| 0 <= i < pairs.len() && (#[trigger] pairs[i]).0 == host_id@;
                        assert(self@.jams[i].host_id == host_id@);
                    }
                }
                None
            },
        }
    }

    /// The host who runs the jam, if the jam exists.
    pub fn host_of_jam(&self, jam_id: &str) -> (r: Option<String>)
        ensures
            match r {
                Some(host_id) => self@.host_of_jam(jam_id@) == Some(host_id@),
                None => self@.host_of_jam(jam_id@) is None,
            },
    {
        let ghost pairs = self@.jams.map_values(|j: JamRowView| (j.id, j.host_id));
        match self.find_jam(jam_id) {
            Some(i) => {
                proof {
                    assert(pairs[i as int] == (self@.jams[i as int].id, self@.jams[i as int].host_id));
                    assert forall|k: int| 0 <= k < i implies (#[trigger] pairs[k]).0 != jam_id@ by {
                        assert(pairs[k].0 == self@.jams[k].id);
                    }
                    lemma_lookup_first(pairs, jam_id@, i as int);
                }
                Some(self.jams[i].host_id.clone())
            },
            None => {
                proof {
                    lemma_lookup(pairs, jam_id@);
                    if exists|i: int| 0 <= i < pairs.len() && (#[trigger] pairs[i]).0 == jam_id@ {
                        let i = choose|i: int| 0 <= i < pairs.len() && (#[trigger] pairs[i]).0 == jam_id@;
                        assert(self@.jams[i].id == jam_id@);
                    }
                }
                None
            },
        }
    }

    /// The jam that the user has joined, if the user exists.
    pub fn jam_of_user(&self, user_id: &str) -> (r: Option<String>)
        ensures
            match r {
                Some(jam_id) => self@.jam_of_user(user_id@) == Some(jam_id@),
                None => self@.jam_of_user(user_id@) is None,
            },
    {
        let ghost pairs = self@.users.map_values(|u: UserRowView| (u.id, u.jam_id));
        match self.find_user(user_id) {
            Some(i) => {
                proof {
                    assert(pairs[i as int] == (self@.users[i as int].id, self@.users[i as int].jam_id));
                    assert forall|k: int| 0 <= k < i implies (#[trigger] pairs[k]).0 != user_id@ by {
                        assert(pairs[k].0 == self@.users[k].id);
                    }
                    lemma_lookup_first(pairs, user_id@, i as int);
                }
                Some(self.users[i].jam_id.clone())
            },
            None => {
                proof {
                    lemma_lookup(pairs, user_id@);
                    if exists|i: int| 0 <= i < pairs.len() && (#[trigger] pairs[i]).0 == user_id@ {
                        let i = choose|i: int| 0 <= i < pairs.len() && (#[trigger] pairs[i]).0 == user_id@;
                        assert(self@.users[i].id == user_id@);
                    }
                }
                None
            },
        }
    }

    /// What the host's row holds as credential, if the host exists.
    pub fn credential_of(&self, host_id: &str) -> (r: Option<Option<Credential>>)
        ensures
            match r {
                Some(Some(c)) => self@.credential_of(host_id@) == Some(Some(c@)),
                Some(None) => self@.credential_of(host_id@) == Some(None::<CredentialView>),
                None => self@.credential_of(host_id@) is None,
            },
    {
        let ghost pairs = self@.hosts.map_values(|h: HostRowView| (h.id, h.credential));
        match self.find_host(host_id) {
            Some(i) => {
                proof {
                    assert(pairs[i as int] == (self@.hosts[i as int].id, self@.hosts[i as int].credential));
                    assert forall|k: int| 0 <= k < i implies (#[trigger] pairs[k]).0 != host_id@ by {
                        assert(pairs[k].0 == self@.hosts[k].id);
                    }
                    lemma_lookup_first(pairs, host_id@, i as int);
                }
                match &self.hosts[i].credential {
                    Some(c) => Some(Some(c.duplicate())),
                    None => Some(None),
                }
            },
            None => {
                proof {
                    lemma_lookup(pairs, host_id@);
                    if exists|i: int| 0 <= i < pairs.len() && (#[trigger] pairs[i]).0 == host_id@ {
                        let i = choose|i: int| 0 <= i < pairs.len() && (#[trigger] pairs[i]).0 == host_id@;
                        assert(self@.hosts[i].id == host_id@);
                    }
                }
                None
            },
        }
    }

    /// How many songs the user has queued.
    pub fn song_count(&self, user_id: &str) -> (n: usize)
        ensures
            n == self@.song_count(user_id@),
    {
        let ghost rows = self@.songs;
        let ghost pred = queued_by(user_id@);
        let mut n: usize = 0;
        let mut i: usize = 0;
        proof {
            if rows.len() > 0 {
                lemma_filter_step(rows, pred, 0);
            } else {
                assert(rows.take(0) =~= rows);
                reveal(Seq::filter);
            }
        }
        while i < self.songs.len()
            invariant
                i <= self.songs.len(),
                rows == self@.songs,
                pred == queued_by(user_id@),
                n <= i,
                n == rows.take(i as int).filter(pred).len(),
            decreases self.songs.len() - i,
        {
            proof {
                lemma_filter_step(rows, pred, i as int);
                assert(rows[i as int].user_id == self.songs[i as int].user_id@);
            }
            if str_eq(self.songs[i].user_id.as_str(), user_id) {
                n = n + 1;
            }
            i = i + 1;
        }
        proof {
            assert(rows.take(i as int) =~= rows);
        }
        n
    }

    /// How many votes the song has.
    pub fn vote_count(&self, song_id: &str) -> (n: usize)
        ensures
            n == self@.vote_count(song_id@),
    {
        let ghost rows = self@.votes;
        let ghost pred = vote_for(song_id@);
        let mut n: usize = 0;
        let mut i: usize = 0;
        proof {
            if rows.len() > 0 {
                lemma_filter_step(rows, pred, 0);
            } else {
                assert(rows.take(0) =~= rows);
                reveal(Seq::filter);
            }
        }
        while i < self.votes.len()
            invariant
                i <= self.votes.len(),
                rows == self@.votes,
                pred == vote_for(song_id@),
                n <= i,
                n == rows.take(i as int).filter(pred).len(),
            decreases self.votes.len() - i,
        {
            proof {
                lemma_filter_step(rows, pred, i as int);
                assert(rows[i as int].song_id == self.votes[i as int].song_id@);
            }
            if str_eq(self.votes[i].song_id.as_str(), song_id) {
                n = n + 1;
            }
            i = i + 1;
        }
        proof {
            assert(rows.take(i as int) =~= rows);
        }
        n
    }

    /// Whether the user exists and has joined the jam.
    pub fn user_in_jam(&self, user_id: &str, jam_id: &str) -> (r: bool)
        ensures
            r == self@.user_in_jam(user_id@, jam_id@),
    {
        let mut i: usize = 0;
        while i < self.users.len()
            invariant
                i <= self.users.len(),
                forall|k: int|
                    0 <= k < i ==> !((#[trigger] self@.users[k]).id == user_id@ && self@.users[k].jam_id
                        == jam_id@),
            decreases self.users.len() - i,
        {
            if str_eq(self.users[i].id.as_str(), user_id) && str_eq(
                self.users[i].jam_id.as_str(),
                jam_id,
            ) {
                assert(self@.users[i as int].id == user_id@ && self@.users[i as int].jam_id == jam_id@);
                return true;
            }
            i = i + 1;
        }
        false
    }

    /// Whether the song exists and was queued by the user.
    pub fn song_owned_by(&self, song_id: &str, user_id: &str) -> (r: bool)
        ensures
            r == self@.song_owned_by(song_id@, user_id@),
    {
        let mut i: usize = 0;
        while i < self.songs.len()
            invariant
                i <= self.songs.len(),
                forall|k: int|
                    0 <= k < i ==> !((#[trigger] self@.songs[k]).id == song_id@ && self@.songs[k].user_id
                        == user_id@),
            decreases self.songs.len() - i,
        {
            if str_eq(self.songs[i].id.as_str(), song_id) && str_eq(
                self.songs[i].user_id.as_str(),
                user_id,
            ) {
                assert(self@.songs[i as int].id == song_id@ && self@.songs[i as int].user_id == user_id@);
                return true;
            }
            i = i + 1;
        }
        false
    }
}

} // verus!
