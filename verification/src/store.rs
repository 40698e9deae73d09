//! The shared state of all jams, as five tables: hosts, jams, users, songs and
//! votes. Each table is a list of rows; what holds between the rows is
//! [`StoreView::wf`], which every operation of the crate preserves.

use vstd::prelude::*;
use crate::table::lookup;
use crate::text::{clone_strings, str_eq};
use crate::types::{Error, ErrorKind};

verus! {

/// The token material a host was given by the music provider.
#[derive(Debug)]
pub struct Credential {
    pub access_token: String,
    pub refresh_token: String,
    pub expires_at: i64,
}

pub struct CredentialView {
    pub access_token: Seq<char>,
    pub refresh_token: Seq<char>,
    pub expires_at: i64,
}

impl View for Credential {
    type V = CredentialView;

    open spec fn view(&self) -> CredentialView {
        CredentialView {
            access_token: self.access_token@,
            refresh_token: self.refresh_token@,
            expires_at: self.expires_at,
        }
    }
}

impl Credential {
    pub fn duplicate(&self) -> (r: Credential)
        ensures
            r@ == self@,
    {
        Credential {
            access_token: self.access_token.clone(),
            refresh_token: self.refresh_token.clone(),
            expires_at: self.expires_at,
        }
    }
}

#[derive(Debug)]
pub struct HostRow {
    pub id: String,
    /// Absent until the provider has answered the host's sign-in.
    pub credential: Option<Credential>,
}

pub struct HostRowView {
    pub id: Seq<char>,
    pub credential: Option<CredentialView>,
}

impl View for HostRow {
    type V = HostRowView;

    open spec fn view(&self) -> HostRowView {
        HostRowView {
            id: self.id@,
            credential: match self.credential {
                Some(c) => Some(c@),
                None => None,
            },
        }
    }
}

#[derive(Debug)]
pub struct JamRow {
    /// The code by which the jam is joined.
    pub id: String,
    pub host_id: String,
    /// How many songs one user may have queued at a time.
    pub max_song_count: i16,
}

pub struct JamRowView {
    pub id: Seq<char>,
    pub host_id: Seq<char>,
    pub max_song_count: i16,
}

impl View for JamRow {
    type V = JamRowView;

    open spec fn view(&self) -> JamRowView {
        JamRowView { id: self.id@, host_id: self.host_id@, max_song_count: self.max_song_count }
    }
}

#[derive(Debug)]
pub struct UserRow {
    pub id: String,
    pub jam_id: String,
}

pub struct UserRowView {
    pub id: Seq<char>,
    pub jam_id: Seq<char>,
}

impl View for UserRow {
    type V = UserRowView;

    open spec fn view(&self) -> UserRowView {
        UserRowView { id: self.id@, jam_id: self.jam_id@ }
    }
}

impl UserRow {
    pub fn duplicate(&self) -> (r: UserRow)
        ensures
            r@ == self@,
    {
        UserRow { id: self.id.clone(), jam_id: self.jam_id.clone() }
    }
}

#[derive(Debug)]
pub struct SongRow {
    /// The provider's track id; the key of the table.
    pub id: String,
    /// The user who queued the song.
    pub user_id: String,
    pub name: String,
    pub album: String,
    /// Milliseconds.
    pub duration: i32,
    pub image_url: String,
    pub artists: Option<Vec<String>>,
}

pub struct SongRowView {
    pub id: Seq<char>,
    pub user_id: Seq<char>,
    pub name: Seq<char>,
    pub album: Seq<char>,
    pub duration: i32,
    pub image_url: Seq<char>,
    pub artists: Option<Seq<Seq<char>>>,
}

impl View for SongRow {
    type V = SongRowView;

    open spec fn view(&self) -> SongRowView {
        SongRowView {
            id: self.id@,
            user_id: self.user_id@,
            name: self.name@,
            album: self.album@,
            duration: self.duration,
            image_url: self.image_url@,
            artists: match self.artists {
                Some(a) => Some(a.deep_view()),
                None => None,
            },
        }
    }
}

impl SongRow {
    pub fn duplicate(&self) -> (r: SongRow)
        ensures
            r@ == self@,
    {
        SongRow {
            id: self.id.clone(),
            user_id: self.user_id.clone(),
            name: self.name.clone(),
            album: self.album.clone(),
            duration: self.duration,
            image_url: self.image_url.clone(),
            artists: match &self.artists {
                Some(a) => Some(clone_strings(a)),
                None => None,
            },
        }
    }
}

/// One user's vote for one song.
#[derive(Debug)]
pub struct VoteRow {
    pub user_id: String,
    pub song_id: String,
}

pub struct VoteRowView {
    pub user_id: Seq<char>,
    pub song_id: Seq<char>,
}

impl View for VoteRow {
    type V = VoteRowView;

    open spec fn view(&self) -> VoteRowView {
        VoteRowView { user_id: self.user_id@, song_id: self.song_id@ }
    }
}

impl VoteRow {
    pub fn duplicate(&self) -> (r: VoteRow)
        ensures
            r@ == self@,
    {
        VoteRow { user_id: self.user_id.clone(), song_id: self.song_id.clone() }
    }
}

/// The songs that the user queued.
pub open spec fn queued_by(user_id: Seq<char>) -> spec_fn(SongRowView) -> bool {
    |s: SongRowView| s.user_id == user_id
}

/// The votes given to the song.
pub open spec fn vote_for(song_id: Seq<char>) -> spec_fn(VoteRowView) -> bool {
    |v: VoteRowView| v.song_id == song_id
}

/// The rows of a table as values.
pub open spec fn views<T: View>(rows: Seq<T>) -> Seq<T::V> {
    rows.map_values(|r: T| r@)
}

#[derive(Debug)]
pub struct Store {
    pub hosts: Vec<HostRow>,
    pub jams: Vec<JamRow>,
    pub users: Vec<UserRow>,
    pub songs: Vec<SongRow>,
    pub votes: Vec<VoteRow>,
}

pub struct StoreView {
    pub hosts: Seq<HostRowView>,
    pub jams: Seq<JamRowView>,
    pub users: Seq<UserRowView>,
    pub songs: Seq<SongRowView>,
    pub votes: Seq<VoteRowView>,
}

impl View for Store {
    type V = StoreView;

    open spec fn view(&self) -> StoreView {
        StoreView {
            hosts: views(self.hosts@),
            jams: views(self.jams@),
            users: views(self.users@),
            songs: views(self.songs@),
            votes: views(self.votes@),
        }
    }
}

impl StoreView {
    pub open spec fn has_host(self, id: Seq<char>) -> bool {
        exists|i: int| 0 <= i < self.hosts.len() && #[trigger] self.hosts[i].id == id
    }

    pub open spec fn has_jam(self, id: Seq<char>) -> bool {
        exists|i: int| 0 <= i < self.jams.len() && #[trigger] self.jams[i].id == id
    }

    pub open spec fn has_user(self, id: Seq<char>) -> bool {
        exists|i: int| 0 <= i < self.users.len() && #[trigger] self.users[i].id == id
    }

    pub open spec fn has_song(self, id: Seq<char>) -> bool {
        exists|i: int| 0 <= i < self.songs.len() && #[trigger] self.songs[i].id == id
    }

    /// Whether the user has voted for the song.
    pub open spec fn has_vote(self, user_id: Seq<char>, song_id: Seq<char>) -> bool {
        self.votes.contains(VoteRowView { user_id, song_id })
    }

    /// Whether some jam is run by the host.
    pub open spec fn hosts_a_jam(self, host_id: Seq<char>) -> bool {
        exists|i: int| 0 <= i < self.jams.len() && #[trigger] self.jams[i].host_id == host_id
    }

    /// Whether the user exists and has joined the jam.
    pub open spec fn user_in_jam(self, user_id: Seq<char>, jam_id: Seq<char>) -> bool {
        exists|i: int|
            0 <= i < self.users.len() && #[trigger] self.users[i].id == user_id
                && self.users[i].jam_id == jam_id
    }

    /// Whether the song exists and was queued by the user.
    pub open spec fn song_owned_by(self, song_id: Seq<char>, user_id: Seq<char>) -> bool {
        exists|i: int|
            0 <= i < self.songs.len() && #[trigger] self.songs[i].id == song_id
                && self.songs[i].user_id == user_id
    }

    /// How many songs one user may queue in the jam, if the jam exists.
    pub open spec fn jam_limit(self, jam_id: Seq<char>) -> Option<i16> {
        lookup(self.jams.map_values(|j: JamRowView| (j.id, j.max_song_count)), jam_id)
    }

    /// The jam that the host runs, if there is one.
    pub open spec fn jam_of_host(self, host_id: Seq<char>) -> Option<Seq<char>> {
        lookup(self.jams.map_values(|j: JamRowView| (j.host_id, j.id)), host_id)
    }

    /// The host who runs the jam, if the jam exists.
    pub open spec fn host_of_jam(self, jam_id: Seq<char>) -> Option<Seq<char>> {
        lookup(self.jams.map_values(|j: JamRowView| (j.id, j.host_id)), jam_id)
    }

    /// The jam that the user has joined, if the user exists.
    pub open spec fn jam_of_user(self, user_id: Seq<char>) -> Option<Seq<char>> {
        lookup(self.users.map_values(|u: UserRowView| (u.id, u.jam_id)), user_id)
    }

    /// What the host's row holds as credential, if the host exists.
    pub open spec fn credential_of(self, host_id: Seq<char>) -> Option<Option<CredentialView>> {
        lookup(self.hosts.map_values(|h: HostRowView| (h.id, h.credential)), host_id)
    }

    /// How many songs the user has queued.
    pub open spec fn song_count(self, user_id: Seq<char>) -> nat {
        self.songs.filter(queued_by(user_id)).len()
    }

    /// How many votes the song has.
    pub open spec fn vote_count(self, song_id: Seq<char>) -> nat {
        self.votes.filter(vote_for(song_id)).len()
    }

    /// Every table has one row per key.
    pub open spec fn keys_unique(self) -> bool {
        &&& forall|i: int, j: int|
            0 <= i < j < self.hosts.len() ==> #[trigger] self.hosts[i].id != #[trigger] self.hosts[j].id
        &&& forall|i: int, j: int|
            0 <= i < j < self.jams.len() ==> #[trigger] self.jams[i].id != #[trigger] self.jams[j].id
        &&& forall|i: int, j: int|
            0 <= i < j < self.jams.len() ==> #[trigger] self.jams[i].host_id
                != #[trigger] self.jams[j].host_id
        &&& forall|i: int, j: int|
            0 <= i < j < self.users.len() ==> #[trigger] self.users[i].id != #[trigger] self.users[j].id
        &&& forall|i: int, j: int|
            0 <= i < j < self.songs.len() ==> #[trigger] self.songs[i].id != #[trigger] self.songs[j].id
        &&& forall|i: int, j: int|
            0 <= i < j < self.votes.len() ==> #[trigger] self.votes[i] != #[trigger] self.votes[j]
    }

    /// Every row that names another row names one that exists.
    pub open spec fn references_hold(self) -> bool {
        &&& forall|i: int|
            0 <= i < self.jams.len() ==> self.has_host(#[trigger] self.jams[i].host_id)
        &&& forall|i: int|
            0 <= i < self.users.len() ==> self.has_jam(#[trigger] self.users[i].jam_id)
        &&& forall|i: int|
            0 <= i < self.songs.len() ==> self.has_user(#[trigger] self.songs[i].user_id)
        &&& forall|i: int|
            0 <= i < self.votes.len() ==> self.has_user(#[trigger] self.votes[i].user_id)
        &&& forall|i: int|
            0 <= i < self.votes.len() ==> self.has_song(#[trigger] self.votes[i].song_id)
    }

    /// The state is one that a relational store with these keys and references
    /// could hold: one host per jam and one jam per host, one row per id, one
    /// vote per user and song, and no row left behind by a deleted one.
    pub open spec fn wf(self) -> bool {
        self.keys_unique() && self.references_hold()
    }
}


impl StoreView {
    /// A host that was there is still there when the hosts only gain rows or
    /// keep their ids.
    pub proof fn lemma_hosts_kept(self, after: StoreView, id: Seq<char>)
        requires
            self.has_host(id),
            after.hosts.len() >= self.hosts.len(),
            forall|k: int| 0 <= k < self.hosts.len() ==> (#[trigger] after.hosts[k]).id == self.hosts[k].id,
        ensures
            after.has_host(id),
    {
        let k = choose|k: int| 0 <= k < self.hosts.len() && #[trigger] self.hosts[k].id == id;
        assert(after.hosts[k].id == id);
    }

    pub proof fn lemma_jams_kept(self, after: StoreView, id: Seq<char>)
        requires
            self.has_jam(id),
            after.jams.len() >= self.jams.len(),
            forall|k: int| 0 <= k < self.jams.len() ==> (#[trigger] after.jams[k]).id == self.jams[k].id,
        ensures
            after.has_jam(id),
    {
        let k = choose|k: int| 0 <= k < self.jams.len() && #[trigger] self.jams[k].id == id;
        assert(after.jams[k].id == id);
    }

    pub proof fn lemma_users_kept(self, after: StoreView, id: Seq<char>)
        requires
            self.has_user(id),
            after.users.len() >= self.users.len(),
            forall|k: int| 0 <= k < self.users.len() ==> (#[trigger] after.users[k]).id == self.users[k].id,
        ensures
            after.has_user(id),
    {
        let k = choose|k: int| 0 <= k < self.users.len() && #[trigger] self.users[k].id == id;
        assert(after.users[k].id == id);
    }

    pub proof fn lemma_songs_kept(self, after: StoreView, id: Seq<char>)
        requires
            self.has_song(id),
            after.songs.len() >= self.songs.len(),
            forall|k: int| 0 <= k < self.songs.len() ==> (#[trigger] after.songs[k]).id == self.songs[k].id,
        ensures
            after.has_song(id),
    {
        let k = choose|k: int| 0 <= k < self.songs.len() && #[trigger] self.songs[k].id == id;
        assert(after.songs[k].id == id);
    }

    /// A new host keeps the state well formed.
    pub proof fn lemma_add_host(self, after: StoreView, row: HostRowView)
        requires
            self.wf(),
            !self.has_host(row.id),
            after == (StoreView { hosts: self.hosts.push(row), ..self }),
        ensures
            after.wf(),
    {
        assert(after.hosts == self.hosts.push(row));
        assert(after.jams == self.jams && after.users == self.users && after.songs == self.songs
            && after.votes == self.votes);
        assert forall|i: int| 0 <= i < after.jams.len() implies after.has_host(
            #[trigger] after.jams[i].host_id,
        ) by {
            assert(self.has_host(self.jams[i].host_id));
            self.lemma_hosts_kept(after, self.jams[i].host_id);
        }
    }

    /// A credential for a host that exists keeps the state well formed.
    pub proof fn lemma_update_host(self, after: StoreView, i: int, row: HostRowView)
        requires
            self.wf(),
            0 <= i < self.hosts.len(),
            self.hosts[i].id == row.id,
            after == (StoreView { hosts: self.hosts.update(i, row), ..self }),
        ensures
            after.wf(),
    {
        assert(after.hosts == self.hosts.update(i, row));
        assert(after.jams == self.jams && after.users == self.users && after.songs == self.songs
            && after.votes == self.votes);
        assert forall|a: int, b: int| 0 <= a < b < after.hosts.len() implies #[trigger] after.hosts[a].id
            != #[trigger] after.hosts[b].id by {
            assert(after.hosts[a].id == self.hosts[a].id);
            assert(after.hosts[b].id == self.hosts[b].id);
        }
        assert forall|j: int| 0 <= j < after.jams.len() implies after.has_host(
            #[trigger] after.jams[j].host_id,
        ) by {
            assert(self.has_host(self.jams[j].host_id));
            self.lemma_hosts_kept(after, self.jams[j].host_id);
        }
    }

    /// A new jam for a host that runs none keeps the state well formed.
    pub proof fn lemma_add_jam(self, after: StoreView, row: JamRowView)
        requires
            self.wf(),
            !self.has_jam(row.id),
            self.has_host(row.host_id),
            !self.hosts_a_jam(row.host_id),
            after == (StoreView { jams: self.jams.push(row), ..self }),
        ensures
            after.wf(),
    {
        assert(after.jams == self.jams.push(row));
        assert(after.hosts == self.hosts && after.users == self.users && after.songs == self.songs
            && after.votes == self.votes);
        assert forall|i: int| 0 <= i < after.jams.len() implies after.has_host(
            #[trigger] after.jams[i].host_id,
        ) by {
            if i < self.jams.len() {
                assert(self.has_host(self.jams[i].host_id));
            }
        }
        assert forall|i: int| 0 <= i < after.users.len() implies after.has_jam(
            #[trigger] after.users[i].jam_id,
        ) by {
            assert(self.has_jam(self.users[i].jam_id));
            self.lemma_jams_kept(after, self.users[i].jam_id);
        }
    }

    /// A new user in a jam that exists keeps the state well formed.
    pub proof fn lemma_add_user(self, after: StoreView, row: UserRowView)
        requires
            self.wf(),
            !self.has_user(row.id),
            self.has_jam(row.jam_id),
            after == (StoreView { users: self.users.push(row), ..self }),
        ensures
            after.wf(),
    {
        assert(after.users == self.users.push(row));
        assert(after.hosts == self.hosts && after.jams == self.jams && after.songs == self.songs
            && after.votes == self.votes);
        assert forall|i: int| 0 <= i < after.users.len() implies after.has_jam(
            #[trigger] after.users[i].jam_id,
        ) by {
            if i < self.users.len() {
                assert(self.has_jam(self.users[i].jam_id));
            }
        }
        assert forall|i: int| 0 <= i < after.songs.len() implies after.has_user(
            #[trigger] after.songs[i].user_id,
        ) by {
            assert(self.has_user(self.songs[i].user_id));
            self.lemma_users_kept(after, self.songs[i].user_id);
        }
        assert forall|i: int| 0 <= i < after.votes.len() implies after.has_user(
            #[trigger] after.votes[i].user_id,
        ) by {
            assert(self.has_user(self.votes[i].user_id));
            self.lemma_users_kept(after, self.votes[i].user_id);
        }
    }
}

impl Store {
    /// A store with no rows.
    pub fn new() -> (s: Store)
        ensures
            s@.hosts.len() == 0,
            s@.jams.len() == 0,
            s@.users.len() == 0,
            s@.songs.len() == 0,
            s@.votes.len() == 0,
            s@.wf(),
    {
        Store {
            hosts: Vec::new(),
            jams: Vec::new(),
            users: Vec::new(),
            songs: Vec::new(),
            votes: Vec::new(),
        }
    }

    /// Where the host's row stands, if there is one.
    pub fn find_host(&self, id: &str) -> (r: Option<usize>)
        ensures
            r is Some <==> self@.has_host(id@),
            r matches Some(i) ==> i < self@.hosts.len() && self@.hosts[i as int].id == id@,
            r matches Some(i) ==> forall|k: int| 0 <= k < i ==> (#[trigger] self@.hosts[k]).id != id@,
    {
        let mut i: usize = 0;
        while i < self.hosts.len()
            invariant
                i <= self.hosts.len(),
                forall|k: int| 0 <= k < i ==> (#[trigger] self@.hosts[k]).id != id@,
            decreases self.hosts.len() - i,
        {
            if str_eq(self.hosts[i].id.as_str(), id) {
                assert(self@.hosts[i as int].id == id@);
                return Some(i);
            }
            i = i + 1;
        }
        None
    }

    /// Where the jam's row stands, if there is one.
    pub fn find_jam(&self, id: &str) -> (r: Option<usize>)
        ensures
            r is Some <==> self@.has_jam(id@),
            r matches Some(i) ==> i < self@.jams.len() && self@.jams[i as int].id == id@,
            r matches Some(i) ==> forall|k: int| 0 <= k < i ==> (#[trigger] self@.jams[k]).id != id@,
    {
        let mut i: usize = 0;
        while i < self.jams.len()
            invariant
                i <= self.jams.len(),
                forall|k: int| 0 <= k < i ==> (#[trigger] self@.jams[k]).id != id@,
            decreases self.jams.len() - i,
        {
            if str_eq(self.jams[i].id.as_str(), id) {
                assert(self@.jams[i as int].id == id@);
                return Some(i);
            }
            i = i + 1;
        }
        None
    }

    /// Where the row of the jam that the host runs stands, if there is one.
    pub fn find_jam_of_host(&self, host_id: &str) -> (r: Option<usize>)
        ensures
            r is Some <==> self@.hosts_a_jam(host_id@),
            r matches Some(i) ==> i < self@.jams.len() && self@.jams[i as int].host_id == host_id@,
            r matches Some(i) ==> forall|k: int| 0 <= k < i ==> (#[trigger] self@.jams[k]).host_id != host_id@,
    {
        let mut i: usize = 0;
        while i < self.jams.len()
            invariant
                i <= self.jams.len(),
                forall|k: int| 0 <= k < i ==> (#[trigger] self@.jams[k]).host_id != host_id@,
            decreases self.jams.len() - i,
        {
            if str_eq(self.jams[i].host_id.as_str(), host_id) {
                assert(self@.jams[i as int].host_id == host_id@);
                return Some(i);
            }
            i = i + 1;
        }
        None
    }

    /// Where the user's row stands, if there is one.
    pub fn find_user(&self, id: &str) -> (r: Option<usize>)
        ensures
            r is Some <==> self@.has_user(id@),
            r matches Some(i) ==> i < self@.users.len() && self@.users[i as int].id == id@,
            r matches Some(i) ==> forall|k: int| 0 <= k < i ==> (#[trigger] self@.users[k]).id != id@,
    {
        let mut i: usize = 0;
        while i < self.users.len()
            invariant
                i <= self.users.len(),
                forall|k: int| 0 <= k < i ==> (#[trigger] self@.users[k]).id != id@,
            decreases self.users.len() - i,
        {
            if str_eq(self.users[i].id.as_str(), id) {
                assert(self@.users[i as int].id == id@);
                return Some(i);
            }
            i = i + 1;
        }
        None
    }

    /// Where the song's row stands, if there is one.
    pub fn find_song(&self, id: &str) -> (r: Option<usize>)
        ensures
            r is Some <==> self@.has_song(id@),
            r matches Some(i) ==> i < self@.songs.len() && self@.songs[i as int].id == id@,
            r matches Some(i) ==> forall|k: int| 0 <= k < i ==> (#[trigger] self@.songs[k]).id != id@,
    {
        let mut i: usize = 0;
        while i < self.songs.len()
            invariant
                i <= self.songs.len(),
                forall|k: int| 0 <= k < i ==> (#[trigger] self@.songs[k]).id != id@,
            decreases self.songs.len() - i,
        {
            if str_eq(self.songs[i].id.as_str(), id) {
                assert(self@.songs[i as int].id == id@);
                return Some(i);
            }
            i = i + 1;
        }
        None
    }

    /// Where the user's vote for the song stands, if there is one.
    pub fn find_vote(&self, user_id: &str, song_id: &str) -> (r: Option<usize>)
        ensures
            r is Some <==> self@.has_vote(user_id@, song_id@),
            r matches Some(i) ==> i < self@.votes.len() && self@.votes[i as int] == (VoteRowView {
                user_id: user_id@,
                song_id: song_id@,
            }),
    {
        let mut i: usize = 0;
        while i < self.votes.len()
            invariant
                i <= self.votes.len(),
                forall|k: int|
                    0 <= k < i ==> (#[trigger] self@.votes[k]) != (VoteRowView {
                        user_id: user_id@,
                        song_id: song_id@,
                    }),
            decreases self.votes.len() - i,
        {
            if str_eq(self.votes[i].user_id.as_str(), user_id) && str_eq(
                self.votes[i].song_id.as_str(),
                song_id,
            ) {
                assert(self@.votes[i as int] == (VoteRowView { user_id: user_id@, song_id: song_id@ }));
                return Some(i);
            }
            i = i + 1;
        }
        None
    }

    /// Records a host that has not yet been given a credential.
    pub fn create_host(&mut self, id: &str) -> (r: Result<(), Error>)
        ensures
            r is Err <==> old(self)@.has_host(id@),
            r matches Err(e) ==> e@.kind() == ErrorKind::Database && final(self)@ == old(self)@,
            r is Ok ==> final(self)@ == (StoreView {
                hosts: old(self)@.hosts.push(HostRowView { id: id@, credential: None }),
                ..old(self)@
            }),
            old(self)@.wf() ==> final(self)@.wf(),
    {
        if self.find_host(id).is_some() {
            return Err(Error::Database("a host with this id exists already".to_owned()));
        }
        self.hosts.push(HostRow { id: id.to_owned(), credential: None });
        proof {
            let row = HostRowView { id: id@, credential: None };
            assert(self@.hosts =~= old(self)@.hosts.push(row));
            if old(self)@.wf() {
                old(self)@.lemma_add_host(self@, row);
            }
        }
        Ok(())
    }

    /// Gives the host the credential the provider issued.
    pub fn set_credential(&mut self, host_id: &str, credential: Credential) -> (r: Result<
        (),
        Error,
    >)
        ensures
            r is Err <==> !old(self)@.has_host(host_id@),
            r matches Err(e) ==> e@.kind() == ErrorKind::Database && final(self)@ == old(self)@,
            r is Ok ==> exists|i: int|
                0 <= i < old(self)@.hosts.len() && #[trigger] old(self)@.hosts[i].id == host_id@ && (
                forall|k: int| 0 <= k < i ==> (#[trigger] old(self)@.hosts[k]).id != host_id@)
                    && final(self)@ == (StoreView {
                    hosts: old(self)@.hosts.update(
                        i,
                        HostRowView { id: host_id@, credential: Some(credential@) },
                    ),
                    ..old(self)@
                }),
            old(self)@.wf() ==> final(self)@.wf(),
    {
        match self.find_host(host_id) {
            None => Err(Error::Database("no host has this id".to_owned())),
            Some(i) => {
                let ghost row = HostRowView { id: host_id@, credential: Some(credential@) };
                self.hosts.set(i, HostRow { id: host_id.to_owned(), credential: Some(credential) });
                proof {
                    assert(self@.hosts =~= old(self)@.hosts.update(i as int, row));
                    if old(self)@.wf() {
                        old(self)@.lemma_update_host(self@, i as int, row);
                    }
                }
                Ok(())
            },
        }
    }

    /// Opens a jam for a host who runs none yet.
    pub fn create_jam(&mut self, id: &str, host_id: &str, max_song_count: i16) -> (r: Result<
        (),
        Error,
    >)
        ensures
            r is Err <==> old(self)@.has_jam(id@) || !old(self)@.has_host(host_id@)
                || old(self)@.hosts_a_jam(host_id@),
            r matches Err(e) ==> e@.kind() == ErrorKind::Database && final(self)@ == old(self)@,
            r is Ok ==> final(self)@ == (StoreView {
                jams: old(self)@.jams.push(
                    JamRowView { id: id@, host_id: host_id@, max_song_count },
                ),
                ..old(self)@
            }),
            old(self)@.wf() ==> final(self)@.wf(),
    {
        if self.find_jam(id).is_some() {
            return Err(Error::Database("a jam with this id exists already".to_owned()));
        }
        if self.find_host(host_id).is_none() {
            return Err(Error::Database("no host has this id".to_owned()));
        }
        if self.find_jam_of_host(host_id).is_some() {
            return Err(Error::Database("the host runs a jam already".to_owned()));
        }
        self.jams.push(JamRow { id: id.to_owned(), host_id: host_id.to_owned(), max_song_count });
        proof {
            let row = JamRowView { id: id@, host_id: host_id@, max_song_count };
            assert(self@.jams =~= old(self)@.jams.push(row));
            if old(self)@.wf() {
                old(self)@.lemma_add_jam(self@, row);
            }
        }
        Ok(())
    }

    /// Lets a new user join a jam.
    pub fn create_user(&mut self, id: &str, jam_id: &str) -> (r: Result<(), Error>)
        ensures
            r is Err <==> old(self)@.has_user(id@) || !old(self)@.has_jam(jam_id@),
            r matches Err(e) ==> e@.kind() == ErrorKind::Database && final(self)@ == old(self)@,
            r is Ok ==> final(self)@ == (StoreView {
                users: old(self)@.users.push(UserRowView { id: id@, jam_id: jam_id@ }),
                ..old(self)@
            }),
            old(self)@.wf() ==> final(self)@.wf(),
    {
        if self.find_user(id).is_some() {
            return Err(Error::Database("a user with this id exists already".to_owned()));
        }
        if self.find_jam(jam_id).is_none() {
            return Err(Error::Database("no jam has this id".to_owned()));
        }
        self.users.push(UserRow { id: id.to_owned(), jam_id: jam_id.to_owned() });
        proof {
            let row = UserRowView { id: id@, jam_id: jam_id@ };
            assert(self@.users =~= old(self)@.users.push(row));
            if old(self)@.wf() {
                old(self)@.lemma_add_user(self@, row);
            }
        }
        Ok(())
    }
}

} // verus!
