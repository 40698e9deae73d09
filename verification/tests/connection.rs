use jam::protocol::{handle_error, is_fatal, Message, Request, Role, Update};
use jam::session::{begin_sign_in, redirect_to_spotify_oauth};
use jam::socket::read::{
    authorize, dispatch, only_host, only_user, read, step, Connection, Inbound, Outcome, Phase,
};
use jam::socket::write::{create_listener, listen_songs, Delivery, Notification, Registry};
use jam::store::{Credential, Store};
use jam::types::{Changed, Error, ErrorKind, Id, IdType, Song, Track};

const UNCHANGED: Changed = Changed { users: false, songs: false, votes: false };

fn token() -> Credential {
    Credential {
        access_token: "access".to_string(),
        refresh_token: "refresh".to_string(),
        expires_at: 1_700_000_000,
    }
}

/// Jam "ABC123", run by host "H1", with users "U1" and "U2".
fn jam(max_song_count: i16) -> Store {
    let mut store = Store::new();
    store.create_host("H1").unwrap();
    store.set_credential("H1", token()).unwrap();
    store.create_jam("ABC123", "H1", max_song_count).unwrap();
    store.create_user("U1", "ABC123").unwrap();
    store.create_user("U2", "ABC123").unwrap();
    store
}

fn as_user(id: &str) -> IdType {
    IdType::User(Id { id: id.to_string(), jam_id: "ABC123".to_string() })
}

fn as_host() -> IdType {
    IdType::Host(Id { id: "H1".to_string(), jam_id: "ABC123".to_string() })
}

fn found(name: &str) -> Track {
    Track {
        name: name.to_string(),
        album: "An Album".to_string(),
        duration_ms: 200_000,
        images: vec!["https://img.example/cover.jpg".to_string()],
        artists: vec!["An Artist".to_string()],
    }
}

fn add_song_frame(song_id: &str) -> Inbound {
    Inbound::Frame(Ok(Request::AddSong { song_id: song_id.to_string() }))
}

fn add_vote_frame(song_id: &str) -> Inbound {
    Inbound::Frame(Ok(Request::AddVote { song_id: song_id.to_string() }))
}

/// The kind and the text of the error that was sent, and whether it is fatal.
fn error_of(out: &Outcome) -> (ErrorKind, String, bool) {
    match &out.send {
        Some(Message::Error { error, fatal }) => (error.kind(), error.message(), *fatal),
        other => panic!("no error was sent: {:?}", other),
    }
}

/// The queue that a delivery holds.
fn songs_of(delivery: &Delivery) -> &Vec<Song> {
    match &delivery.message {
        Message::Update(Update::Songs(songs)) => songs,
        other => panic!("no queue was delivered: {:?}", other),
    }
}

fn awaiting(conn: &Connection) -> bool {
    matches!(conn.phase, Phase::AwaitingMessage)
}

#[test]
fn each_request_asks_for_its_role() {
    let s = || "x".to_string();
    assert_eq!(Request::RemoveUser { user_id: s() }.required_role(), Some(Role::Host));
    assert_eq!(Request::AddSong { song_id: s() }.required_role(), Some(Role::User));
    assert_eq!(Request::RemoveSong { song_id: s() }.required_role(), Some(Role::Host));
    assert_eq!(Request::AddVote { song_id: s() }.required_role(), Some(Role::User));
    assert_eq!(Request::RemoveVote { song_id: s() }.required_role(), Some(Role::Host));
    assert_eq!(Request::Update.required_role(), None);
}

#[test]
fn a_role_is_told_apart_from_the_other() {
    assert_eq!(only_host(&as_host()).unwrap().id, "H1");
    let refused = only_host(&as_user("U1")).unwrap_err();
    assert_eq!(refused.kind(), ErrorKind::Forbidden);
    assert_eq!(
        refused.message(),
        "Only the host can do the requested action, if you see this in prod this is a bug"
    );
    assert_eq!(only_user(&as_user("U1")).unwrap().id, "U1");
    let refused = only_user(&as_host()).unwrap_err();
    assert_eq!(refused.kind(), ErrorKind::Forbidden);
    assert_eq!(
        refused.message(),
        "Only users can do the requested action, if you see this in prod this is a bug"
    );
    assert!(authorize(&as_host(), &Request::Update).is_ok());
    assert!(authorize(&as_user("U1"), &Request::Update).is_ok());
    assert!(authorize(&as_user("U1"), &Request::RemoveVote { song_id: "s".to_string() }).is_err());
    assert!(authorize(&as_host(), &Request::AddVote { song_id: "s".to_string() }).is_err());
}

#[test]
fn an_error_frame_carries_the_error_and_the_flag() {
    match handle_error(Error::UserHasTooTheMaxSongAmount, false) {
        Message::Error { error, fatal } => {
            assert_eq!(error.kind(), ErrorKind::UserHasTooTheMaxSongAmount);
            assert_eq!(error.message(), "");
            assert!(!fatal);
        }
        Message::Update(_) => panic!("an update came of an error"),
    }
    match handle_error(Error::Decode("eof".to_string()), true) {
        Message::Error { error, fatal } => {
            assert_eq!(error.kind(), ErrorKind::Decode);
            assert_eq!(error.message(), "eof");
            assert!(fatal);
        }
        Message::Update(_) => panic!("an update came of an error"),
    }
}

#[test]
fn a_user_who_asks_to_remove_a_user_is_forbidden_and_no_user_goes() {
    let mut store = jam(3);
    let mut conn = Connection::new(as_user("U1"));
    let out = step(&mut conn, &mut store, &Inbound::Frame(Ok(Request::RemoveUser { user_id: "U2".to_string() })));
    let (kind, text, fatal) = error_of(&out);
    assert_eq!(kind, ErrorKind::Forbidden);
    assert_eq!(text, "Only the host can do the requested action, if you see this in prod this is a bug");
    assert!(!fatal);
    assert!(!out.close);
    assert_eq!(out.changed, UNCHANGED);
    assert!(awaiting(&conn));
    assert_eq!(store.users.len(), 2);
    assert!(store.find_user("U2").is_some());
}

#[test]
fn a_host_who_asks_to_queue_a_song_is_forbidden_and_no_song_comes() {
    let mut store = jam(3);
    let mut conn = Connection::new(as_host());
    let out = step(&mut conn, &mut store, &add_song_frame("track1"));
    let (kind, text, fatal) = error_of(&out);
    assert_eq!(kind, ErrorKind::Forbidden);
    assert_eq!(text, "Only users can do the requested action, if you see this in prod this is a bug");
    assert!(!fatal);
    assert!(out.lookup.is_none());
    assert!(awaiting(&conn));
    assert!(store.songs.is_empty());
    let out = step(&mut conn, &mut store, &add_vote_frame("track1"));
    assert_eq!(error_of(&out).0, ErrorKind::Forbidden);
    assert!(store.votes.is_empty());
}

#[test]
fn a_user_cannot_remove_songs_or_votes_over_the_connection() {
    let mut store = jam(3);
    let mut owner = Connection::new(as_user("U1"));
    step(&mut owner, &mut store, &add_song_frame("track1"));
    step(&mut owner, &mut store, &Inbound::Track(Ok(found("One"))));
    step(&mut owner, &mut store, &add_vote_frame("track1"));
    let out = step(&mut owner, &mut store, &Inbound::Frame(Ok(Request::RemoveSong { song_id: "track1".to_string() })));
    assert_eq!(error_of(&out).0, ErrorKind::Forbidden);
    let out = step(&mut owner, &mut store, &Inbound::Frame(Ok(Request::RemoveVote { song_id: "track1".to_string() })));
    assert_eq!(error_of(&out).0, ErrorKind::Forbidden);
    assert_eq!(store.songs.len(), 1);
    assert_eq!(store.votes.len(), 1);
}

#[test]
fn a_host_moderates_songs_and_users() {
    let mut store = jam(3);
    let mut user = Connection::new(as_user("U1"));
    step(&mut user, &mut store, &add_song_frame("track1"));
    step(&mut user, &mut store, &Inbound::Track(Ok(found("One"))));
    step(&mut user, &mut store, &add_song_frame("track2"));
    step(&mut user, &mut store, &Inbound::Track(Ok(found("Two"))));
    step(&mut user, &mut store, &add_vote_frame("track1"));
    let mut host = Connection::new(as_host());
    let out = step(&mut host, &mut store, &Inbound::Frame(Ok(Request::RemoveVote { song_id: "track1".to_string() })));
    assert!(out.send.is_none());
    assert_eq!(out.changed, Changed { users: false, songs: false, votes: true });
    assert_eq!(store.vote_count("track1"), 1);
    let out = step(&mut host, &mut store, &Inbound::Frame(Ok(Request::RemoveSong { song_id: "track1".to_string() })));
    assert!(out.send.is_none());
    assert_eq!(out.changed, Changed { users: false, songs: true, votes: false });
    assert!(store.find_song("track1").is_none());
    assert!(store.votes.is_empty());
    let out = step(&mut host, &mut store, &Inbound::Frame(Ok(Request::RemoveUser { user_id: "U1".to_string() })));
    assert!(out.send.is_none());
    assert_eq!(out.changed, Changed { users: true, songs: false, votes: false });
    assert!(store.find_user("U1").is_none());
    assert!(store.songs.is_empty());
    let out = step(&mut host, &mut store, &Inbound::Frame(Ok(Request::Update)));
    assert!(out.send.is_none());
    assert_eq!(out.changed, UNCHANGED);
    assert!(awaiting(&host));
}

#[test]
fn a_song_is_queued_when_the_provider_has_answered() {
    let mut store = jam(3);
    let mut conn = Connection::new(as_user("U1"));
    let out = step(&mut conn, &mut store, &add_song_frame("track1"));
    assert!(out.send.is_none());
    assert_eq!(out.changed, UNCHANGED);
    let lookup = out.lookup.expect("the provider is asked");
    assert_eq!(lookup.song_id, "track1");
    assert_eq!(lookup.credential.access_token, "access");
    assert!(matches!(&conn.phase, Phase::Executing { song_id } if song_id == "track1"));
    assert!(store.songs.is_empty());
    let ignored = step(&mut conn, &mut store, &add_vote_frame("track1"));
    assert!(ignored.send.is_none() && ignored.lookup.is_none() && !ignored.close);
    assert!(matches!(conn.phase, Phase::Executing { .. }));
    let out = step(&mut conn, &mut store, &Inbound::Track(Ok(found("One"))));
    assert!(out.send.is_none());
    assert_eq!(out.changed, Changed { users: false, songs: true, votes: false });
    assert!(awaiting(&conn));
    assert_eq!(store.songs.len(), 1);
    assert_eq!(store.songs[0].name, "One");
    assert_eq!(store.songs[0].user_id, "U1");
    assert_eq!(store.songs[0].duration, 200_000);
}

#[test]
fn a_track_that_the_provider_does_not_find_is_reported_and_not_queued() {
    let mut store = jam(3);
    let mut conn = Connection::new(as_user("U1"));
    step(&mut conn, &mut store, &add_song_frame("track1"));
    let out = step(&mut conn, &mut store, &Inbound::Track(Err("track not found".to_string())));
    assert_eq!(error_of(&out), (ErrorKind::Spotify, "track not found".to_string(), false));
    assert_eq!(out.changed, UNCHANGED);
    assert!(awaiting(&conn));
    assert!(store.songs.is_empty());
    let stray = step(&mut conn, &mut store, &Inbound::Track(Ok(found("Stray"))));
    assert!(stray.send.is_none());
    assert!(store.songs.is_empty());
}

#[test]
fn a_failed_command_leaves_the_connection_open() {
    let mut store = jam(3);
    let mut conn = Connection::new(as_user("U1"));
    let out = step(&mut conn, &mut store, &add_vote_frame("missing"));
    let (kind, _, fatal) = error_of(&out);
    assert_eq!(kind, ErrorKind::Database);
    assert!(!fatal);
    assert!(!out.close);
    assert!(awaiting(&conn));
    let out = step(&mut conn, &mut store, &add_song_frame("not a track id"));
    assert_eq!(error_of(&out).0, ErrorKind::Spotify);
    assert!(awaiting(&conn));
    let out = step(&mut conn, &mut store, &add_song_frame("track1"));
    assert!(out.lookup.is_some());
}

#[test]
fn the_scenario_of_a_jam_with_a_quota_of_one() {
    let mut store = jam(1);
    let mut registry = Registry::new();
    assert_eq!(jam::socket::write::write(&mut registry, 1, as_user("U1")), Some("ABC123_songs".to_string()));
    assert_eq!(jam::socket::write::write(&mut registry, 2, as_user("U2")), None);
    assert_eq!(jam::socket::write::write(&mut registry, 3, as_host()), None);
    let mut u1 = Connection::new(as_user("U1"));
    let mut u2 = Connection::new(as_user("U2"));

    let out = step(&mut u1, &mut store, &add_song_frame("track1"));
    assert!(out.send.is_none());
    assert!(out.lookup.is_some());
    let out = step(&mut u1, &mut store, &Inbound::Track(Ok(found("One"))));
    assert!(out.send.is_none());
    assert!(out.changed.songs);
    let (pushed, listening) = listen_songs(&store, &registry, "ABC123", Notification::Change);
    assert!(listening);
    assert_eq!(pushed.iter().map(|d| d.connection).collect::<Vec<_>>(), vec![1, 2, 3]);
    for delivery in &pushed {
        let songs = songs_of(delivery);
        assert_eq!(songs.len(), 1);
        assert_eq!(songs[0].id, "track1");
        assert_eq!(songs[0].votes.votes, 0);
    }
    assert_eq!(songs_of(&pushed[0])[0].votes.have_you_voted, Some(false));
    assert_eq!(songs_of(&pushed[0])[0].user_id, Some("U1".to_string()));
    assert_eq!(songs_of(&pushed[1])[0].user_id, None);
    assert_eq!(songs_of(&pushed[2])[0].votes.have_you_voted, None);

    let out = step(&mut u2, &mut store, &add_vote_frame("track1"));
    assert!(out.send.is_none());
    assert!(out.changed.votes);
    let (pushed, _) = listen_songs(&store, &registry, "ABC123", Notification::Change);
    assert_eq!(pushed.len(), 3);
    for delivery in &pushed {
        assert_eq!(songs_of(delivery)[0].id, "track1");
        assert_eq!(songs_of(delivery)[0].votes.votes, 1);
    }
    assert_eq!(songs_of(&pushed[0])[0].votes.have_you_voted, Some(false));
    assert_eq!(songs_of(&pushed[1])[0].votes.have_you_voted, Some(true));

    let out = step(&mut u1, &mut store, &add_song_frame("track2"));
    assert_eq!(error_of(&out), (ErrorKind::UserHasTooTheMaxSongAmount, String::new(), false));
    assert!(out.lookup.is_none());
    assert!(!out.changed.any());
    assert!(!out.close);
    assert!(awaiting(&u1));
    assert_eq!(store.song_count("U1"), 1);
    assert!(store.find_song("track2").is_none());
}

#[test]
fn an_unparseable_frame_is_fatal_and_nothing_is_read_after_it() {
    let mut store = jam(3);
    let mut user = Connection::new(as_user("U1"));
    step(&mut user, &mut store, &add_song_frame("track1"));
    step(&mut user, &mut store, &Inbound::Track(Ok(found("One"))));
    let events = vec![
        add_vote_frame("track1"),
        Inbound::Frame(Err("invalid marker".to_string())),
        Inbound::Frame(Ok(Request::RemoveVote { song_id: "track1".to_string() })),
        add_song_frame("track2"),
    ];
    let mut conn = Connection::new(as_user("U2"));
    let outcomes = read(&mut conn, &mut store, &events);
    assert_eq!(outcomes.len(), 2);
    assert!(outcomes[0].send.is_none());
    assert!(outcomes[0].changed.votes);
    assert_eq!(error_of(&outcomes[1]), (ErrorKind::Decode, "invalid marker".to_string(), true));
    assert!(outcomes[1].close);
    assert!(out_is_quiet(&outcomes[1]));
    assert!(conn.is_closed());
    assert_eq!(store.votes.len(), 1);
    assert_eq!(store.songs.len(), 1);
    let late = step(&mut conn, &mut store, &add_vote_frame("track1"));
    assert!(late.send.is_none() && late.lookup.is_none() && !late.close);
    assert!(conn.is_closed());
    assert_eq!(store.votes.len(), 1);
}

fn out_is_quiet(out: &Outcome) -> bool {
    out.lookup.is_none() && !out.changed.any()
}

#[test]
fn a_failing_transport_closes_the_connection_without_a_frame() {
    let mut store = jam(3);
    let mut conn = Connection::new(as_user("U1"));
    let outcomes = read(&mut conn, &mut store, &vec![Inbound::Failed, add_song_frame("track1")]);
    assert_eq!(outcomes.len(), 1);
    assert!(outcomes[0].send.is_none());
    assert!(outcomes[0].close);
    assert!(conn.is_closed());
    assert!(store.songs.is_empty());
}

#[test]
fn a_stream_that_ends_leaves_the_connection_closed() {
    let mut store = jam(3);
    let mut conn = Connection::new(as_host());
    let outcomes = read(&mut conn, &mut store, &vec![Inbound::Frame(Ok(Request::Update))]);
    assert_eq!(outcomes.len(), 1);
    assert!(!outcomes[0].close);
    assert!(conn.is_closed());
    let mut empty = Connection::new(as_host());
    assert!(read(&mut empty, &mut store, &Vec::new()).is_empty());
    assert!(empty.is_closed());
}

#[test]
fn dispatch_answers_with_what_changed_or_why_not() {
    let mut store = jam(1);
    let (changed, lookup) = dispatch(&Request::Update, &as_user("U1"), &mut store).unwrap();
    assert_eq!(changed, UNCHANGED);
    assert!(lookup.is_none());
    let (changed, lookup) = dispatch(&Request::AddSong { song_id: "track1".to_string() }, &as_user("U1"), &mut store).unwrap();
    assert_eq!(changed, UNCHANGED);
    assert_eq!(lookup.unwrap().song_id, "track1");
    let refused = dispatch(&Request::AddSong { song_id: "track1".to_string() }, &as_host(), &mut store).unwrap_err();
    assert_eq!(refused.kind(), ErrorKind::Forbidden);
}

#[test]
fn the_feed_of_a_jam_is_kept_from_its_first_subscriber_to_its_last() {
    let mut registry = Registry::new();
    let other = IdType::User(Id { id: "V1".to_string(), jam_id: "XYZ789".to_string() });
    assert_eq!(registry.subscribe(1, as_user("U1")), Some(true));
    assert_eq!(registry.subscribe(2, as_host()), Some(false));
    assert_eq!(registry.subscribe(3, other), Some(true));
    assert_eq!(registry.subscribe(2, as_user("U2")), None);
    assert_eq!(registry.subscribers.len(), 3);
    assert_eq!(registry.count("ABC123"), 2);
    assert_eq!(registry.count("XYZ789"), 1);
    assert_eq!(registry.find(3), Some(2));
    assert_eq!(registry.find(9), None);
    assert_eq!(registry.unsubscribe(9), None);
    assert_eq!(registry.unsubscribe(1), None);
    assert_eq!(registry.count("ABC123"), 1);
    assert_eq!(registry.unsubscribe(2), Some("ABC123".to_string()));
    assert_eq!(registry.count("ABC123"), 0);
    assert_eq!(registry.unsubscribe(3), Some("XYZ789".to_string()));
    assert!(registry.subscribers.is_empty());
    assert_eq!(registry.subscribe(1, as_user("U1")), Some(true));
}

#[test]
fn an_interrupted_feed_is_reported_and_listened_to_further() {
    let store = jam(3);
    let mut registry = Registry::new();
    jam::socket::write::write(&mut registry, 7, as_user("U1"));
    jam::socket::write::write(&mut registry, 8, IdType::User(Id { id: "V1".to_string(), jam_id: "XYZ789".to_string() }));
    let (sent, listening) = listen_songs(&store, &registry, "ABC123", Notification::Reset);
    assert!(listening);
    assert_eq!(sent.len(), 1);
    assert_eq!(sent[0].connection, 7);
    match &sent[0].message {
        Message::Error { error, fatal } => {
            assert_eq!(error.kind(), ErrorKind::Database);
            assert_eq!(error.message(), "pool disconnected reconnecting...");
            assert!(!fatal);
        }
        Message::Update(_) => panic!("an update came of an interruption"),
    }
    let (sent, listening) = listen_songs(&store, &registry, "ABC123", Notification::Failure);
    assert!(!listening);
    assert!(sent.is_empty());
    let (sent, listening) = listen_songs(&store, &registry, "NOJAM1", Notification::Change);
    assert!(listening);
    assert!(sent.is_empty());
}

#[test]
fn a_channel_is_named_after_the_jam_and_the_table() {
    assert_eq!(create_listener("ABC123", "songs"), "ABC123_songs");
    assert_eq!(create_listener("", "votes"), "_votes");
}

#[test]
fn a_host_who_signs_in_is_recorded_and_sent_to_the_provider() {
    let mut store = Store::new();
    let url = begin_sign_in(&mut store, "client42", "hostid1").unwrap();
    assert_eq!(
        url,
        "https://accounts.spotify.com/authorize?response_type=code&client_id=client42&scope=user-read-playback-state user-modify-playback-state user-read-currently-playing&redirect_uri=http://localhost:3000/&state=hostid1"
    );
    assert_eq!(store.hosts.len(), 1);
    assert_eq!(store.hosts[0].id, "hostid1");
    assert!(store.hosts[0].credential.is_none());
    assert_eq!(begin_sign_in(&mut store, "client42", "hostid1").unwrap_err().kind(), ErrorKind::Database);
    assert_eq!(store.hosts.len(), 1);
}

#[test]
fn a_fresh_host_id_is_short_and_starts_with_a_letter() {
    let mut store = Store::new();
    let first = redirect_to_spotify_oauth(&mut store, "client42").unwrap();
    let second = redirect_to_spotify_oauth(&mut store, "client42").unwrap();
    assert_eq!(store.hosts.len(), 2);
    assert_ne!(store.hosts[0].id, store.hosts[1].id);
    for (url, host) in [first, second].iter().zip(store.hosts.iter()) {
        assert!(!host.id.is_empty() && host.id.chars().count() <= 24);
        assert!(host.id.chars().next().unwrap().is_ascii_lowercase());
        assert!(url.ends_with(&format!("&state={}", host.id)));
        assert!(url.starts_with("https://accounts.spotify.com/authorize?response_type=code&client_id=client42&scope="));
    }
}

#[test]
fn only_what_cannot_be_decoded_ends_an_open_connection() {
    assert!(is_fatal(ErrorKind::Decode, false));
    assert!(is_fatal(ErrorKind::Decode, true));
    assert!(!is_fatal(ErrorKind::Database, false));
    assert!(is_fatal(ErrorKind::Database, true));
    for resolving in [false, true] {
        assert!(!is_fatal(ErrorKind::Forbidden, resolving));
        assert!(!is_fatal(ErrorKind::UserHasTooTheMaxSongAmount, resolving));
        assert!(!is_fatal(ErrorKind::Spotify, resolving));
    }
}

#[test]
fn a_connection_is_accepted_only_under_a_known_identifier() {
    let store = jam(3);
    let host = Connection::accept("H1", &store).unwrap();
    assert!(matches!(&host.id, IdType::Host(id) if id.id == "H1" && id.jam_id == "ABC123"));
    assert!(awaiting(&host));
    let user = Connection::accept("U2", &store).unwrap();
    assert!(matches!(&user.id, IdType::User(id) if id.id == "U2" && id.jam_id == "ABC123"));
    let refused = Connection::accept("stranger", &store).unwrap_err();
    assert_eq!(refused.kind(), ErrorKind::Database);
    assert!(is_fatal(refused.kind(), true));
}

#[test]
fn the_role_of_a_connection_never_changes() {
    let mut store = jam(3);
    let mut conn = Connection::accept("U1", &store).unwrap();
    let events = vec![
        add_song_frame("track1"),
        Inbound::Track(Ok(found("One"))),
        Inbound::Frame(Ok(Request::RemoveUser { user_id: "U2".to_string() })),
        add_vote_frame("track1"),
        Inbound::Failed,
    ];
    for event in &events {
        step(&mut conn, &mut store, event);
        assert!(matches!(&conn.id, IdType::User(id) if id.id == "U1" && id.jam_id == "ABC123"));
    }
    assert!(conn.is_closed());
    assert_eq!(store.users.len(), 2);
    assert_eq!(store.vote_count("track1"), 1);
}
