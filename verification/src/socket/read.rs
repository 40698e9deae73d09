//! The inbound half of a connection: each frame is decoded, held against the
//! role of the connection, and carried out on the shared state.
//!
//! A connection awaits a message, authorizes it, executes it, and awaits the
//! next. Authorizing takes no outside work and is passed within one step; a
//! song that is being queued stays in execution while the provider is asked.

use vstd::prelude::*;
use crate::identity::check_id_type;
use crate::protocol::{
    fatal, handle_error, is_fatal, Message, MessageView, Request, RequestView, Role,
};
use crate::song::{add_song, add_song_refusal, admission, admit_song, queued_row, remove_song};
use crate::store::{Credential, CredentialView, Store, StoreView, views};
use crate::types::{
    Changed, Error, ErrorKind, ErrorView, Id, IdType, IdTypeView, Track, TrackView,
};
use crate::vote::{add_vote, kick_user, remove_vote};

verus! {

/// The text with which a user is told that only the host may do a thing.
pub open spec fn host_only_text() -> Seq<char> {
    "Only the host can do the requested action, if you see this in prod this is a bug"@
}

/// The text with which a host is told that only users may do a thing.
pub open spec fn user_only_text() -> Seq<char> {
    "Only users can do the requested action, if you see this in prod this is a bug"@
}

/// The host's identity, where the connection is the host's.
pub fn only_host<'a>(id: &'a IdType) -> (r: Result<&'a Id, Error>)
    ensures
        match r {
            Ok(host) => id@ == IdTypeView::Host(host@),
            Err(e) => id@ is User && e@ == ErrorView::Forbidden(host_only_text()),
        },
{
    match id {
        IdType::Host(id) => Ok(id),
        IdType::User(_) => Err(
            Error::Forbidden(
                "Only the host can do the requested action, if you see this in prod this is a bug".to_owned(),
            ),
        ),
    }
}

/// The user's identity, where the connection is a user's.
pub fn only_user<'a>(id: &'a IdType) -> (r: Result<&'a Id, Error>)
    ensures
        match r {
            Ok(user) => id@ == IdTypeView::User(user@),
            Err(e) => id@ is Host && e@ == ErrorView::Forbidden(user_only_text()),
        },
{
    match id {
        IdType::User(id) => Ok(id),
        IdType::Host(_) => Err(
            Error::Forbidden(
                "Only users can do the requested action, if you see this in prod this is a bug".to_owned(),
            ),
        ),
    }
}

/// Whether the role may make the request.
pub open spec fn permits(id: IdTypeView, request: RequestView) -> bool {
    match request.required_role() {
        Some(Role::Host) => id is Host,
        Some(Role::User) => id is User,
        None => true,
    }
}

/// Holds a request against the role of the connection.
pub fn authorize(id: &IdType, request: &Request) -> (r: Result<(), Error>)
    ensures
        r is Ok <==> permits(id@, request@),
        r matches Err(e) ==> e@ == ErrorView::Forbidden(
            if id@ is User {
                host_only_text()
            } else {
                user_only_text()
            },
        ),
{
    match request.required_role() {
        Some(Role::Host) => match only_host(id) {
            Ok(_) => Ok(()),
            Err(e) => Err(e),
        },
        Some(Role::User) => match only_user(id) {
            Ok(_) => Ok(()),
            Err(e) => Err(e),
        },
        None => Ok(()),
    }
}

/// Where a connection stands.
#[derive(Debug)]
pub enum Phase {
    AwaitingMessage,
    /// A song is being queued: the provider has been asked for the track.
    Executing { song_id: String },
    Closed,
}

pub enum PhaseView {
    AwaitingMessage,
    Executing { song_id: Seq<char> },
    Closed,
}

impl View for Phase {
    type V = PhaseView;

    open spec fn view(&self) -> PhaseView {
        match self {
            Phase::AwaitingMessage => PhaseView::AwaitingMessage,
            Phase::Executing { song_id } => PhaseView::Executing { song_id: song_id@ },
            Phase::Closed => PhaseView::Closed,
        }
    }
}

/// A connection: the role it was resolved to when it was accepted, which never
/// changes, and where it stands.
#[derive(Debug)]
pub struct Connection {
    pub id: IdType,
    pub phase: Phase,
}

impl Connection {
    /// A connection that was just accepted.
    pub fn new(id: IdType) -> (c: Connection)
        ensures
            c.id@ == id@,
            c.phase@ == PhaseView::AwaitingMessage,
    {
        Connection { id, phase: Phase::AwaitingMessage }
    }

    /// Accepts a connection under the identifier that it presents. Where the
    /// identifier resolves to no role the connection is not accepted: it is
    /// closed at once and nothing is sent, for there is nobody known to send
    /// to.
    pub fn accept(presented: &str, store: &Store) -> (r: Result<Connection, Error>)
        ensures
            match r {
                Ok(c) => store@.role_of(presented@) == Some(c.id@) && c.phase@
                    == PhaseView::AwaitingMessage,
                Err(e) => store@.role_of(presented@) is None && e@.kind() == ErrorKind::Database
                    && fatal(e@.kind(), true),
            },
    {
        match check_id_type(presented, store) {
            Ok(id) => Ok(Connection::new(id)),
            Err(e) => Err(e),
        }
    }

    pub fn is_closed(&self) -> (b: bool)
        ensures
            b == (self.phase@ is Closed),
    {
        match self.phase {
            Phase::Closed => true,
            _ => false,
        }
    }
}

/// What happens to a connection from outside.
#[derive(Debug)]
pub enum Inbound {
    /// A frame arrived: the request it holds, or why it could not be decoded.
    Frame(Result<Request, String>),
    /// The provider answered: the track, or why there is none.
    Track(Result<Track, String>),
    /// The transport failed.
    Failed,
}

pub enum InboundView {
    Frame(Result<RequestView, Seq<char>>),
    Track(Result<TrackView, Seq<char>>),
    Failed,
}

impl View for Inbound {
    type V = InboundView;

    open spec fn view(&self) -> InboundView {
        match self {
            Inbound::Frame(Ok(request)) => InboundView::Frame(Ok(request@)),
            Inbound::Frame(Err(text)) => InboundView::Frame(Err(text@)),
            Inbound::Track(Ok(track)) => InboundView::Track(Ok(track@)),
            Inbound::Track(Err(text)) => InboundView::Track(Err(text@)),
            Inbound::Failed => InboundView::Failed,
        }
    }
}

/// A question for the provider: the track, and the credential to ask with.
#[derive(Debug)]
pub struct Lookup {
    pub song_id: String,
    pub credential: Credential,
}

pub struct LookupView {
    pub song_id: Seq<char>,
    pub credential: CredentialView,
}

impl View for Lookup {
    type V = LookupView;

    open spec fn view(&self) -> LookupView {
        LookupView { song_id: self.song_id@, credential: self.credential@ }
    }
}

/// What one step asks of the world around it.
#[derive(Debug)]
pub struct Outcome {
    /// A frame for the client of this connection.
    pub send: Option<Message>,
    /// A question for the provider; its answer is the next event.
    pub lookup: Option<Lookup>,
    /// The tables that the step changed.
    pub changed: Changed,
    /// Whether the transport is to be closed.
    pub close: bool,
}

pub struct OutcomeView {
    pub send: Option<MessageView>,
    pub lookup: Option<LookupView>,
    pub changed: Changed,
    pub close: bool,
}

impl View for Outcome {
    type V = OutcomeView;

    open spec fn view(&self) -> OutcomeView {
        OutcomeView {
            send: match self.send {
                Some(m) => Some(m@),
                None => None,
            },
            lookup: match self.lookup {
                Some(l) => Some(l@),
                None => None,
            },
            changed: self.changed,
            close: self.close,
        }
    }
}

/// Why a request is not carried out, if it is not: the role does not permit
/// it; or what it asks for is refused.
pub open spec fn refusal(store: StoreView, id: IdTypeView, request: RequestView) -> Option<ErrorKind> {
    if !permits(id, request) {
        Some(ErrorKind::Forbidden)
    } else {
        match request {
            RequestView::AddSong { song_id } => admission(store, song_id, id.id().id, id.jam_id()),
            RequestView::AddVote { song_id } => if store.has_vote(id.id().id, song_id)
                || !store.has_user(id.id().id) || !store.has_song(song_id) {
                Some(ErrorKind::Database)
            } else {
                None
            },
            _ => None,
        }
    }
}

/// The shared state after a request that is carried out. A song is queued only
/// when the provider has answered, so the request for one changes nothing yet.
pub open spec fn carried_out(store: StoreView, id: IdTypeView, request: RequestView) -> StoreView {
    match request {
        RequestView::RemoveUser { user_id } => store.kicked(user_id, id.id().id),
        RequestView::AddSong { .. } => store,
        RequestView::RemoveSong { song_id } => store.without_song(song_id),
        RequestView::AddVote { song_id } => store.with_vote(id.id().id, song_id),
        RequestView::RemoveVote { song_id } => store.without_vote(id.id().id, song_id),
        RequestView::Update => store,
    }
}

/// The tables that a request changes when it is carried out.
pub open spec fn changes(request: RequestView) -> Changed {
    match request {
        RequestView::RemoveUser { .. } => Changed { users: true, songs: false, votes: false },
        RequestView::AddSong { .. } => Changed { users: false, songs: false, votes: false },
        RequestView::RemoveSong { .. } => Changed { users: false, songs: true, votes: false },
        RequestView::AddVote { .. } => Changed { users: false, songs: false, votes: true },
        RequestView::RemoveVote { .. } => Changed { users: false, songs: false, votes: true },
        RequestView::Update => Changed { users: false, songs: false, votes: false },
    }
}

/// Where the connection stands after an event.
pub open spec fn next_phase(
    phase: PhaseView,
    id: IdTypeView,
    store: StoreView,
    event: InboundView,
) -> PhaseView {
    match (phase, event) {
        (PhaseView::Closed, _) => PhaseView::Closed,
        (_, InboundView::Failed) => PhaseView::Closed,
        (PhaseView::AwaitingMessage, InboundView::Frame(Err(_))) => PhaseView::Closed,
        (PhaseView::AwaitingMessage, InboundView::Frame(Ok(request))) => match request {
            RequestView::AddSong { song_id } => if refusal(store, id, request) is None {
                PhaseView::Executing { song_id }
            } else {
                PhaseView::AwaitingMessage
            },
            _ => PhaseView::AwaitingMessage,
        },
        (PhaseView::AwaitingMessage, InboundView::Track(_)) => PhaseView::AwaitingMessage,
        (PhaseView::Executing { .. }, InboundView::Track(_)) => PhaseView::AwaitingMessage,
        (PhaseView::Executing { .. }, InboundView::Frame(_)) => phase,
    }
}

/// The shared state after an event on a connection.
pub open spec fn next_store(
    phase: PhaseView,
    id: IdTypeView,
    store: StoreView,
    event: InboundView,
) -> StoreView {
    match (phase, event) {
        (PhaseView::AwaitingMessage, InboundView::Frame(Ok(request))) => if refusal(
            store,
            id,
            request,
        ) is None {
            carried_out(store, id, request)
        } else {
            store
        },
        (PhaseView::Executing { song_id }, InboundView::Track(Ok(track))) => if add_song_refusal(
            store,
            song_id,
            id.id().id,
            id.jam_id(),
            track,
        ) is None {
            store.with_song(queued_row(song_id, id.id().id, track))
        } else {
            store
        },
        _ => store,
    }
}

/// The error that the client is told after an event, if any, and whether it
/// ends the connection.
pub open spec fn reported(
    phase: PhaseView,
    id: IdTypeView,
    store: StoreView,
    event: InboundView,
) -> Option<(ErrorKind, bool)> {
    match (phase, event) {
        (PhaseView::AwaitingMessage, InboundView::Frame(Err(_))) => Some((ErrorKind::Decode, true)),
        (PhaseView::AwaitingMessage, InboundView::Frame(Ok(request))) => match refusal(
            store,
            id,
            request,
        ) {
            Some(kind) => Some((kind, false)),
            None => None,
        },
        (PhaseView::Executing { song_id }, InboundView::Track(Ok(track))) => match add_song_refusal(
            store,
            song_id,
            id.id().id,
            id.jam_id(),
            track,
        ) {
            Some(kind) => Some((kind, false)),
            None => None,
        },
        (PhaseView::Executing { .. }, InboundView::Track(Err(_))) => Some(
            (ErrorKind::Spotify, false),
        ),
        _ => None,
    }
}

/// The tables that an event changes.
pub open spec fn changed_by(
    phase: PhaseView,
    id: IdTypeView,
    store: StoreView,
    event: InboundView,
) -> Changed {
    match (phase, event) {
        (PhaseView::AwaitingMessage, InboundView::Frame(Ok(request))) => if refusal(
            store,
            id,
            request,
        ) is None {
            changes(request)
        } else {
            Changed { users: false, songs: false, votes: false }
        },
        (PhaseView::Executing { song_id }, InboundView::Track(Ok(track))) => if add_song_refusal(
            store,
            song_id,
            id.id().id,
            id.jam_id(),
            track,
        ) is None {
            Changed { users: false, songs: true, votes: false }
        } else {
            Changed { users: false, songs: false, votes: false }
        },
        _ => Changed { users: false, songs: false, votes: false },
    }
}

/// What the frame that was sent says of an error: its kind, and whether it is
/// fatal.
pub open spec fn told(send: Option<MessageView>) -> Option<(ErrorKind, bool)> {
    match send {
        Some(MessageView::Error { error, fatal }) => Some((error.kind(), fatal)),
        _ => None,
    }
}

impl Outcome {
    /// Nothing is asked of the world.
    pub fn nothing() -> (out: Outcome)
        ensures
            out@ == (OutcomeView {
                send: None,
                lookup: None,
                changed: Changed { users: false, songs: false, votes: false },
                close: false,
            }),
    {
        Outcome { send: None, lookup: None, changed: Changed::new(), close: false }
    }

    /// The client is told of an error, and the transport is closed if the
    /// error is one that ends the connection.
    pub fn report(error: Error) -> (out: Outcome)
        ensures
            out@ == (OutcomeView {
                send: Some(
                    MessageView::Error { error: error@, fatal: fatal(error@.kind(), false) },
                ),
                lookup: None,
                changed: Changed { users: false, songs: false, votes: false },
                close: fatal(error@.kind(), false),
            }),
    {
        let ends = is_fatal(error.kind(), false);
        Outcome {
            send: Some(handle_error(error, ends)),
            lookup: None,
            changed: Changed::new(),
            close: ends,
        }
    }
}

/// Carries out a request for the connection's role: the role is checked first,
/// then the shared state is changed. For a song to be queued the answer holds
/// the question to put to the provider.
pub fn dispatch(request: &Request, id: &IdType, store: &mut Store) -> (r: Result<
    (Changed, Option<Lookup>),
    Error,
>)
    ensures
        match r {
            Ok((changed, lookup)) => refusal(old(store)@, id@, request@) is None && final(store)@
                == carried_out(old(store)@, id@, request@) && changed == changes(request@)
                && match lookup {
                Some(l) => request@ == (RequestView::AddSong { song_id: l@.song_id })
                    && old(store)@.access_token(id@.jam_id()) == Some(l@.credential),
                None => !(request@ is AddSong),
            },
            Err(e) => refusal(old(store)@, id@, request@) == Some(e@.kind()) && final(store)@
                == old(store)@ && (!permits(id@, request@) ==> e@ == ErrorView::Forbidden(
                if id@ is User {
                    host_only_text()
                } else {
                    user_only_text()
                },
            )),
        },
        old(store)@.wf() ==> final(store)@.wf(),
{
    match request {
        Request::RemoveUser { user_id } => {
            let host = match only_host(id) {
                Ok(host) => host,
                Err(e) => {
                    return Err(e);
                },
            };
            match kick_user(user_id.as_str(), host.id.as_str(), store) {
                Ok(changed) => Ok((changed, None)),
                Err(e) => Err(e),
            }
        },
        Request::AddSong { song_id } => {
            let user = match only_user(id) {
                Ok(user) => user,
                Err(e) => {
                    return Err(e);
                },
            };
            match admit_song(store, song_id.as_str(), user.id.as_str(), user.jam_id.as_str()) {
                Ok(credential) => Ok(
                    (Changed::new(), Some(Lookup { song_id: song_id.clone(), credential })),
                ),
                Err(e) => Err(e),
            }
        },
        Request::RemoveSong { song_id } => {
            match only_host(id) {
                Ok(_) => {},
                Err(e) => {
                    return Err(e);
                },
            }
            match remove_song(song_id.as_str(), id, store) {
                Ok(changed) => Ok((changed, None)),
                Err(e) => Err(e),
            }
        },
        Request::AddVote { song_id } => {
            let user = match only_user(id) {
                Ok(user) => user,
                Err(e) => {
                    return Err(e);
                },
            };
            match add_vote(song_id.as_str(), user.id.as_str(), store) {
                Ok(changed) => Ok((changed, None)),
                Err(e) => Err(e),
            }
        },
        Request::RemoveVote { song_id } => {
            let host = match only_host(id) {
                Ok(host) => host,
                Err(e) => {
                    return Err(e);
                },
            };
            match remove_vote(song_id.as_str(), host.id.as_str(), store) {
                Ok(changed) => Ok((changed, None)),
                Err(e) => Err(e),
            }
        },
        Request::Update => Ok((Changed::new(), None)),
    }
}

/// One step of a connection: what an event does to the connection and to the
/// shared state, and what it asks of the world. An undecodable frame is
/// reported as fatal and closes the connection; a request that is refused is
/// reported and leaves the connection open; a closed connection takes no
/// further event.
pub fn step(conn: &mut Connection, store: &mut Store, event: &Inbound) -> (out: Outcome)
    ensures
        final(conn).id@ == old(conn).id@,
        final(conn).phase@ == next_phase(old(conn).phase@, old(conn).id@, old(store)@, event@),
        final(store)@ == next_store(old(conn).phase@, old(conn).id@, old(store)@, event@),
        old(store)@.wf() ==> final(store)@.wf(),
        out@.send matches Some(m) ==> m is Error,
        told(out@.send) == reported(old(conn).phase@, old(conn).id@, old(store)@, event@),
        old(conn).phase@ is AwaitingMessage ==> (event@ matches InboundView::Frame(Err(text))
            ==> out@.send == Some(
            MessageView::Error { error: ErrorView::Decode(text), fatal: true },
        )),
        old(conn).phase@ is AwaitingMessage ==> (event@ matches InboundView::Frame(Ok(request))
            ==> (!permits(old(conn).id@, request) ==> out@.send == Some(
            MessageView::Error {
                error: ErrorView::Forbidden(
                    if old(conn).id@ is User {
                        host_only_text()
                    } else {
                        user_only_text()
                    },
                ),
                fatal: false,
            },
        ))),
        old(conn).phase@ is Executing ==> (event@ matches InboundView::Track(Err(text))
            ==> out@.send == Some(
            MessageView::Error { error: ErrorView::Spotify(text), fatal: false },
        )),
        out@.changed == changed_by(old(conn).phase@, old(conn).id@, old(store)@, event@),
        out@.close == (!(old(conn).phase@ is Closed) && final(conn).phase@ is Closed),
        match out@.lookup {
            Some(l) => old(conn).phase@ is AwaitingMessage && final(conn).phase@ == (
            PhaseView::Executing { song_id: l.song_id }) && old(store)@.access_token(
                old(conn).id@.jam_id(),
            ) == Some(l.credential),
            None => !(old(conn).phase@ is AwaitingMessage && final(conn).phase@ is Executing),
        },
{
    let pending: Option<String> = match &conn.phase {
        Phase::Closed => {
            return Outcome::nothing();
        },
        Phase::AwaitingMessage => None,
        Phase::Executing { song_id } => Some(song_id.clone()),
    };
    match event {
        Inbound::Failed => {
            conn.phase = Phase::Closed;
            Outcome { send: None, lookup: None, changed: Changed::new(), close: true }
        },
        Inbound::Frame(frame) => match pending {
            Some(_) => Outcome::nothing(),
            None => match frame {
                Err(text) => {
                    conn.phase = Phase::Closed;
                    Outcome::report(Error::Decode(text.clone()))
                },
                Ok(request) => match dispatch(request, &conn.id, store) {
                    Ok((changed, lookup)) => {
                        match &lookup {
                            Some(l) => {
                                conn.phase = Phase::Executing { song_id: l.song_id.clone() };
                            },
                            None => {},
                        }
                        Outcome { send: None, lookup, changed, close: false }
                    },
                    Err(e) => Outcome::report(e),
                },
            },
        },
        Inbound::Track(answer) => match pending {
            None => Outcome::nothing(),
            Some(song_id) => {
                conn.phase = Phase::AwaitingMessage;
                match answer {
                    Err(text) => Outcome::report(Error::Spotify(text.clone())),
                    Ok(track) => match add_song(
                        store,
                        song_id.as_str(),
                        conn.id.id().as_str(),
                        conn.id.jam_id().as_str(),
                        track,
                    ) {
                        Ok(changed) => Outcome { send: None, lookup: None, changed, close: false },
                        Err(e) => Outcome::report(e),
                    },
                }
            },
        },
    }
}

/// Where a connection and the shared state stand after a run of events.
pub open spec fn run(
    phase: PhaseView,
    id: IdTypeView,
    store: StoreView,
    events: Seq<InboundView>,
) -> (PhaseView, StoreView)
    decreases events.len(),
{
    if events.len() == 0 {
        (phase, store)
    } else {
        let before = run(phase, id, store, events.drop_last());
        (
            next_phase(before.0, id, before.1, events.last()),
            next_store(before.0, id, before.1, events.last()),
        )
    }
}

/// Whether an outcome is the answer to the event at a place in a run: it tells
/// the client what is to be reported there, names the tables changed there, and
/// closes the transport exactly if the connection closes there.
pub open spec fn answers(
    phase: PhaseView,
    id: IdTypeView,
    store: StoreView,
    events: Seq<InboundView>,
    k: int,
    out: OutcomeView,
) -> bool {
    let before = run(phase, id, store, events.take(k));
    &&& told(out.send) == reported(before.0, id, before.1, events[k])
    &&& out.changed == changed_by(before.0, id, before.1, events[k])
    &&& out.close == (!(before.0 is Closed) && next_phase(before.0, id, before.1, events[k]) is Closed)
}

/// A closed connection stays closed, and no event on it changes the shared
/// state.
pub proof fn lemma_closed_is_final(id: IdTypeView, store: StoreView, events: Seq<InboundView>)
    ensures
        run(PhaseView::Closed, id, store, events) == (PhaseView::Closed, store),
    decreases events.len(),
{
    if events.len() > 0 {
        lemma_closed_is_final(id, store, events.drop_last());
    }
}

/// A run of events can be taken in two parts.
pub proof fn lemma_run_split(
    phase: PhaseView,
    id: IdTypeView,
    store: StoreView,
    first: Seq<InboundView>,
    second: Seq<InboundView>,
)
    ensures
        run(phase, id, store, first + second) == run(
            run(phase, id, store, first).0,
            id,
            run(phase, id, store, first).1,
            second,
        ),
    decreases second.len(),
{
    if second.len() == 0 {
        assert(first + second =~= first);
    } else {
        lemma_run_split(phase, id, store, first, second.drop_last());
        assert((first + second).drop_last() =~= first + second.drop_last());
        assert((first + second).last() == second.last());
    }
}

/// Reads a connection to its end: every event is taken in turn until the
/// connection closes or the events are used up, and then the connection is
/// closed. The answer holds one outcome for each event that was taken.
pub fn read(conn: &mut Connection, store: &mut Store, events: &Vec<Inbound>) -> (outcomes: Vec<
    Outcome,
>)
    ensures
        final(conn).id@ == old(conn).id@,
        final(conn).phase@ is Closed,
        final(store)@ == run(old(conn).phase@, old(conn).id@, old(store)@, views(events@)).1,
        old(store)@.wf() ==> final(store)@.wf(),
        outcomes.len() <= events.len(),
        forall|k: int|
            0 <= k < outcomes.len() ==> answers(
                old(conn).phase@,
                old(conn).id@,
                old(store)@,
                views(events@),
                k,
                #[trigger] outcomes@[k]@,
            ),
        outcomes.len() < events.len() ==> run(
            old(conn).phase@,
            old(conn).id@,
            old(store)@,
            views(events@).take(outcomes.len() as int),
        ).0 is Closed,
{
    let ghost all = views(events@);
    let ghost phase0 = conn.phase@;
    let ghost id0 = conn.id@;
    let ghost store0 = store@;
    let mut outcomes: Vec<Outcome> = Vec::new();
    let mut i: usize = 0;
    proof {
        assert(all.take(0) =~= Seq::<InboundView>::empty());
    }
    while i < events.len() && !conn.is_closed()
        invariant
            i <= events.len(),
            all == views(events@),
            conn.id@ == id0,
            (conn.phase@, store@) == run(phase0, id0, store0, all.take(i as int)),
            store0.wf() ==> store@.wf(),
            outcomes.len() == i,
            forall|k: int|
                0 <= k < i ==> answers(phase0, id0, store0, all, k, #[trigger] outcomes@[k]@),
        decreases events.len() - i,
    {
        let ghost before = outcomes@;
        let out = step(conn, store, &events[i]);
        proof {
            assert(all.take(i as int + 1).drop_last() =~= all.take(i as int));
            assert(all.take(i as int + 1).last() == all[i as int]);
            assert(all[i as int] == events@[i as int]@);
            assert(answers(phase0, id0, store0, all, i as int, out@));
        }
        outcomes.push(out);
        proof {
            assert forall|k: int| 0 <= k < i + 1 implies answers(
                phase0,
                id0,
                store0,
                all,
                k,
                #[trigger] outcomes@[k]@,
            ) by {
                if k < i {
                    assert(outcomes@[k] == before[k]);
                }
            }
        }
        i = i + 1;
    }
    proof {
        let done = run(phase0, id0, store0, all.take(i as int));
        assert(all =~= all.take(i as int) + all.skip(i as int));
        lemma_run_split(phase0, id0, store0, all.take(i as int), all.skip(i as int));
        if i < events.len() {
            lemma_closed_is_final(id0, done.1, all.skip(i as int));
        } else {
            assert(all.skip(i as int) =~= Seq::<InboundView>::empty());
        }
    }
    conn.phase = Phase::Closed;
    outcomes
}

} // verus!
