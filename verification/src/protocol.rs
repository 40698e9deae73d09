//! What travels over a connection: the requests of a client, and the frames
//! that a client is sent.

use vstd::prelude::*;
use crate::store::views;
use crate::types::{Error, ErrorKind, ErrorView, Song, SongView};

verus! {

/// What a client asks for.
#[derive(Debug)]
pub enum Request {
    RemoveUser { user_id: String },
    AddSong { song_id: String },
    RemoveSong { song_id: String },
    AddVote { song_id: String },
    RemoveVote { song_id: String },
    Update,
}

pub enum RequestView {
    RemoveUser { user_id: Seq<char> },
    AddSong { song_id: Seq<char> },
    RemoveSong { song_id: Seq<char> },
    AddVote { song_id: Seq<char> },
    RemoveVote { song_id: Seq<char> },
    Update,
}

impl View for Request {
    type V = RequestView;

    open spec fn view(&self) -> RequestView {
        match self {
            Request::RemoveUser { user_id } => RequestView::RemoveUser { user_id: user_id@ },
            Request::AddSong { song_id } => RequestView::AddSong { song_id: song_id@ },
            Request::RemoveSong { song_id } => RequestView::RemoveSong { song_id: song_id@ },
            Request::AddVote { song_id } => RequestView::AddVote { song_id: song_id@ },
            Request::RemoveVote { song_id } => RequestView::RemoveVote { song_id: song_id@ },
            Request::Update => RequestView::Update,
        }
    }
}

/// The two roles a request can ask for.
#[derive(Clone, Copy, Debug, PartialEq, Eq, Structural)]
pub enum Role {
    Host,
    User,
}

impl RequestView {
    /// The role that alone may make the request; none where either may.
    pub open spec fn required_role(self) -> Option<Role> {
        match self {
            RequestView::RemoveUser { .. } => Some(Role::Host),
            RequestView::AddSong { .. } => Some(Role::User),
            RequestView::RemoveSong { .. } => Some(Role::Host),
            RequestView::AddVote { .. } => Some(Role::User),
            RequestView::RemoveVote { .. } => Some(Role::Host),
            RequestView::Update => None,
        }
    }
}

impl Request {
    /// The role that alone may make the request; none where either may.
    pub fn required_role(&self) -> (r: Option<Role>)
        ensures
            r == self@.required_role(),
    {
        match self {
            Request::RemoveUser { .. } => Some(Role::Host),
            Request::AddSong { .. } => Some(Role::User),
            Request::RemoveSong { .. } => Some(Role::Host),
            Request::AddVote { .. } => Some(Role::User),
            Request::RemoveVote { .. } => Some(Role::Host),
            Request::Update => None,
        }
    }
}

/// What is pushed to the clients of a jam when its state has changed.
#[derive(Debug)]
pub enum Update {
    /// The queue, as the receiver sees it.
    Songs(Vec<Song>),
}

pub enum UpdateView {
    Songs(Seq<SongView>),
}

impl View for Update {
    type V = UpdateView;

    open spec fn view(&self) -> UpdateView {
        match self {
            Update::Songs(songs) => UpdateView::Songs(views(songs@)),
        }
    }
}

/// A frame for a client. After an error that is fatal the connection is
/// closed; after one that is not, it stays usable.
#[derive(Debug)]
pub enum Message {
    Update(Update),
    Error { error: Error, fatal: bool },
}

pub enum MessageView {
    Update(UpdateView),
    Error { error: ErrorView, fatal: bool },
}

impl View for Message {
    type V = MessageView;

    open spec fn view(&self) -> MessageView {
        match self {
            Message::Update(update) => MessageView::Update(update@),
            Message::Error { error, fatal } => MessageView::Error { error: error@, fatal: *fatal },
        }
    }
}

/// Whether an error of the kind ends the connection. What cannot be decoded
/// always does, for a corrupt stream cannot be taken up again. A failure of the
/// store does while the connection is still being resolved, when there is no
/// channel yet to report it on, and not afterwards. Nothing else does.
pub open spec fn fatal(kind: ErrorKind, resolving: bool) -> bool {
    match kind {
        ErrorKind::Decode => true,
        ErrorKind::Database => resolving,
        ErrorKind::Forbidden => false,
        ErrorKind::UserHasTooTheMaxSongAmount => false,
        ErrorKind::Spotify => false,
    }
}

/// Whether an error of the kind ends the connection.
pub fn is_fatal(kind: ErrorKind, resolving: bool) -> (r: bool)
    ensures
        r == fatal(kind, resolving),
{
    match kind {
        ErrorKind::Decode => true,
        ErrorKind::Database => resolving,
        ErrorKind::Forbidden => false,
        ErrorKind::UserHasTooTheMaxSongAmount => false,
        ErrorKind::Spotify => false,
    }
}

/// The frame that reports an error.
pub fn handle_error(error: Error, fatal: bool) -> (m: Message)
    ensures
        m@ == (MessageView::Error { error: error@, fatal }),
{
    Message::Error { error, fatal }
}

} // verus!
