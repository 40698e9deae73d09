//! Votes, and the removal of a user by the host.

use vstd::prelude::*;
use crate::store::{Store, StoreView};
use crate::types::{Changed, Error, ErrorKind};

verus! {

/// Records the user's vote for the song. A second vote of the same user for
/// the same song is refused, and so is a vote by an unknown user or for an
/// unknown song.
pub fn add_vote(song_id: &str, user_id: &str, store: &mut Store) -> (r: Result<Changed, Error>)
    ensures
        r is Err <==> old(store)@.has_vote(user_id@, song_id@) || !old(store)@.has_user(user_id@)
            || !old(store)@.has_song(song_id@),
        match r {
            Ok(changed) => changed == (Changed { users: false, songs: false, votes: true })
                && final(store)@ == old(store)@.with_vote(user_id@, song_id@),
            Err(e) => e@.kind() == ErrorKind::Database && final(store)@ == old(store)@,
        },
        old(store)@.wf() ==> final(store)@.wf(),
{
    match store.insert_vote(user_id, song_id) {
        Ok(_) => Ok(Changed::new().votes()),
        Err(e) => Err(e),
    }
}

/// Takes back the vote that the one named gave to the song, if there is one.
pub fn remove_vote(song_id: &str, user_id: &str, store: &mut Store) -> (r: Result<Changed, Error>)
    ensures
        r == Ok::<Changed, Error>(Changed { users: false, songs: false, votes: true }),
        final(store)@ == old(store)@.without_vote(user_id@, song_id@),
        old(store)@.wf() ==> final(store)@.wf(),
{
    store.delete_vote(user_id, song_id);
    Ok(Changed::new().votes())
}

impl StoreView {
    /// Whether the user has joined the jam that the host runs.
    pub open spec fn guest_of(self, user_id: Seq<char>, host_id: Seq<char>) -> bool {
        match self.jam_of_host(host_id) {
            Some(jam_id) => self.user_in_jam(user_id, jam_id),
            None => false,
        }
    }

    /// The state after the host has sent the user away: without the user and
    /// all that hung on them, where the user was in the host's jam.
    pub open spec fn kicked(self, user_id: Seq<char>, host_id: Seq<char>) -> StoreView {
        if self.guest_of(user_id, host_id) {
            self.without_user(user_id)
        } else {
            self
        }
    }
}

/// Sends a user away from the host's jam, with their songs and votes. A user
/// who is not in the host's jam stays.
pub fn kick_user(user_id: &str, host_id: &str, store: &mut Store) -> (r: Result<Changed, Error>)
    ensures
        r == Ok::<Changed, Error>(Changed { users: true, songs: false, votes: false }),
        final(store)@ == old(store)@.kicked(user_id@, host_id@),
        old(store)@.wf() ==> final(store)@.wf(),
{
    let guest = match store.jam_of_host(host_id) {
        Some(jam_id) => store.user_in_jam(user_id, jam_id.as_str()),
        None => false,
    };
    if guest {
        store.delete_user(user_id);
    }
    Ok(Changed::new().users())
}

} // verus!
