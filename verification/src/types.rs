//! The values the session speaks in: who a connection is, what went wrong,
//! what changed, and how a queued song looks to one viewer.

use vstd::prelude::*;

verus! {

/// A resolved identifier together with the jam it belongs to.
#[derive(Debug)]
pub struct Id {
    pub id: String,
    pub jam_id: String,
}

pub struct IdView {
    pub id: Seq<char>,
    pub jam_id: Seq<char>,
}

impl View for Id {
    type V = IdView;

    open spec fn view(&self) -> IdView {
        IdView { id: self.id@, jam_id: self.jam_id@ }
    }
}

/// The role of a connection: the host of a jam, or a user who joined it.
#[derive(Debug)]
pub enum IdType {
    Host(Id),
    User(Id),
}

pub enum IdTypeView {
    Host(IdView),
    User(IdView),
}

impl View for IdType {
    type V = IdTypeView;

    open spec fn view(&self) -> IdTypeView {
        match self {
            IdType::Host(id) => IdTypeView::Host(id@),
            IdType::User(id) => IdTypeView::User(id@),
        }
    }
}

impl IdTypeView {
    pub open spec fn id(self) -> IdView {
        match self {
            IdTypeView::Host(id) => id,
            IdTypeView::User(id) => id,
        }
    }

    pub open spec fn jam_id(self) -> Seq<char> {
        self.id().jam_id
    }
}

impl IdType {
    /// The jam this connection belongs to.
    pub fn jam_id(&self) -> (r: &String)
        ensures
            r@ == self@.jam_id(),
    {
        match self {
            IdType::Host(id) => &id.jam_id,
            IdType::User(id) => &id.jam_id,
        }
    }

    /// The connection's own identifier: the host's or the user's.
    pub fn id(&self) -> (r: &String)
        ensures
            r@ == self@.id().id,
    {
        match self {
            IdType::Host(id) => &id.id,
            IdType::User(id) => &id.id,
        }
    }

    pub fn duplicate(&self) -> (r: IdType)
        ensures
            r@ == self@,
    {
        match self {
            IdType::Host(id) => IdType::Host(Id { id: id.id.clone(), jam_id: id.jam_id.clone() }),
            IdType::User(id) => IdType::User(Id { id: id.id.clone(), jam_id: id.jam_id.clone() }),
        }
    }
}

/// The kinds of failure a client can be told about.
#[derive(Clone, Copy, Debug, PartialEq, Eq, Structural)]
pub enum ErrorKind {
    Decode,
    Forbidden,
    Database,
    UserHasTooTheMaxSongAmount,
    Spotify,
}

/// A failure, with the text that explains it where the kind carries one.
#[derive(Debug)]
pub enum Error {
    /// An inbound frame could not be decoded.
    Decode(String),
    /// The connection's role does not allow the action.
    Forbidden(String),
    /// The shared state refused or failed an operation.
    Database(String),
    /// The user already has as many songs queued as the jam allows.
    UserHasTooTheMaxSongAmount,
    /// The music provider could not be asked, or did not know the track.
    Spotify(String),
}

pub enum ErrorView {
    Decode(Seq<char>),
    Forbidden(Seq<char>),
    Database(Seq<char>),
    UserHasTooTheMaxSongAmount,
    Spotify(Seq<char>),
}

impl ErrorView {
    pub open spec fn kind(self) -> ErrorKind {
        match self {
            ErrorView::Decode(_) => ErrorKind::Decode,
            ErrorView::Forbidden(_) => ErrorKind::Forbidden,
            ErrorView::Database(_) => ErrorKind::Database,
            ErrorView::UserHasTooTheMaxSongAmount => ErrorKind::UserHasTooTheMaxSongAmount,
            ErrorView::Spotify(_) => ErrorKind::Spotify,
        }
    }
}

impl View for Error {
    type V = ErrorView;

    open spec fn view(&self) -> ErrorView {
        match self {
            Error::Decode(m) => ErrorView::Decode(m@),
            Error::Forbidden(m) => ErrorView::Forbidden(m@),
            Error::Database(m) => ErrorView::Database(m@),
            Error::UserHasTooTheMaxSongAmount => ErrorView::UserHasTooTheMaxSongAmount,
            Error::Spotify(m) => ErrorView::Spotify(m@),
        }
    }
}

impl Error {
    pub fn kind(&self) -> (k: ErrorKind)
        ensures
            k == self@.kind(),
    {
        match self {
            Error::Decode(_) => ErrorKind::Decode,
            Error::Forbidden(_) => ErrorKind::Forbidden,
            Error::Database(_) => ErrorKind::Database,
            Error::UserHasTooTheMaxSongAmount => ErrorKind::UserHasTooTheMaxSongAmount,
            Error::Spotify(_) => ErrorKind::Spotify,
        }
    }

    /// The explaining text; empty for a kind that carries none.
    pub fn message(&self) -> (m: String)
        ensures
            m@ == match self@ {
                ErrorView::Decode(t) => t,
                ErrorView::Forbidden(t) => t,
                ErrorView::Database(t) => t,
                ErrorView::UserHasTooTheMaxSongAmount => Seq::<char>::empty(),
                ErrorView::Spotify(t) => t,
            },
    {
        match self {
            Error::Decode(m) => m.clone(),
            Error::Forbidden(m) => m.clone(),
            Error::Database(m) => m.clone(),
            Error::UserHasTooTheMaxSongAmount => String::new(),
            Error::Spotify(m) => m.clone(),
        }
    }
}

/// Which tables of the shared state an operation changed.
#[derive(Clone, Copy, Debug, PartialEq, Eq, Structural)]
pub struct Changed {
    pub users: bool,
    pub songs: bool,
    pub votes: bool,
}

impl Changed {
    /// Nothing changed.
    pub fn new() -> (c: Changed)
        ensures
            c == (Changed { users: false, songs: false, votes: false }),
    {
        Changed { users: false, songs: false, votes: false }
    }

    pub fn users(self) -> (c: Changed)
        ensures
            c == (Changed { users: true, ..self }),
    {
        Changed { users: true, songs: self.songs, votes: self.votes }
    }

    pub fn songs(self) -> (c: Changed)
        ensures
            c == (Changed { songs: true, ..self }),
    {
        Changed { users: self.users, songs: true, votes: self.votes }
    }

    pub fn votes(self) -> (c: Changed)
        ensures
            c == (Changed { votes: true, ..self }),
    {
        Changed { users: self.users, songs: self.songs, votes: true }
    }

    pub fn any(self) -> (b: bool)
        ensures
            b == (self.users || self.songs || self.votes),
    {
        self.users || self.songs || self.votes
    }
}

/// The votes of one song as one viewer sees them. A host sees the total only;
/// a user also sees whether their own vote is among them.
#[derive(Clone, Copy, Debug, PartialEq, Eq, Structural)]
pub struct Vote {
    pub votes: u64,
    pub have_you_voted: Option<bool>,
}

/// A queued song as one viewer sees it.
#[derive(Debug)]
pub struct Song {
    pub id: String,
    /// The owner, shown only to the owner.
    pub user_id: Option<String>,
    pub name: String,
    pub artists: Vec<String>,
    pub album: String,
    pub duration: u32,
    pub image_url: String,
    pub votes: Vote,
}

pub struct SongView {
    pub id: Seq<char>,
    pub user_id: Option<Seq<char>>,
    pub name: Seq<char>,
    pub artists: Seq<Seq<char>>,
    pub album: Seq<char>,
    pub duration: u32,
    pub image_url: Seq<char>,
    pub votes: Vote,
}

impl View for Song {
    type V = SongView;

    open spec fn view(&self) -> SongView {
        SongView {
            id: self.id@,
            user_id: match self.user_id {
                Some(u) => Some(u@),
                None => None,
            },
            name: self.name@,
            artists: self.artists.deep_view(),
            album: self.album@,
            duration: self.duration,
            image_url: self.image_url@,
            votes: self.votes,
        }
    }
}

/// What the music provider knows of a track.
#[derive(Debug)]
pub struct Track {
    pub name: String,
    pub album: String,
    pub duration_ms: i64,
    pub images: Vec<String>,
    pub artists: Vec<String>,
}

pub struct TrackView {
    pub name: Seq<char>,
    pub album: Seq<char>,
    pub duration_ms: i64,
    pub images: Seq<Seq<char>>,
    pub artists: Seq<Seq<char>>,
}

impl View for Track {
    type V = TrackView;

    open spec fn view(&self) -> TrackView {
        TrackView {
            name: self.name@,
            album: self.album@,
            duration_ms: self.duration_ms,
            images: self.images.deep_view(),
            artists: self.artists.deep_view(),
        }
    }
}

} // verus!
