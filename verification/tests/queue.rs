use jam::identity::{check_id_type, get_access_token};
use jam::ranking::{insert_song_ranked, song_ranks_before};
use jam::song::{add_song, admit_song, get_songs, remove_song};
use jam::store::{Credential, SongRow, Store};
use jam::text::{str_eq, str_lt};
use jam::types::{Changed, ErrorKind, Id, IdType, Song, Track, Vote};
use jam::vote::{add_vote, kick_user, remove_vote};

fn credential() -> Credential {
    Credential {
        access_token: "access".to_string(),
        refresh_token: "refresh".to_string(),
        expires_at: 1_700_000_000,
    }
}

/// One jam, "ABC123", run by host "H1", with users "U1" and "U2".
fn store_with_jam(max_song_count: i16) -> Store {
    let mut store = Store::new();
    store.create_host("H1").unwrap();
    store.set_credential("H1", credential()).unwrap();
    store.create_jam("ABC123", "H1", max_song_count).unwrap();
    store.create_user("U1", "ABC123").unwrap();
    store.create_user("U2", "ABC123").unwrap();
    store
}

fn user(id: &str) -> IdType {
    IdType::User(Id { id: id.to_string(), jam_id: "ABC123".to_string() })
}

fn host() -> IdType {
    IdType::Host(Id { id: "H1".to_string(), jam_id: "ABC123".to_string() })
}

fn track(name: &str) -> Track {
    Track {
        name: name.to_string(),
        album: "An Album".to_string(),
        duration_ms: 187_000,
        images: vec!["https://img.example/cover.jpg".to_string(), "https://img.example/small.jpg".to_string()],
        artists: vec!["First Artist".to_string(), "Second Artist".to_string()],
    }
}

fn ids(songs: &[Song]) -> Vec<String> {
    songs.iter().map(|s| s.id.clone()).collect()
}

fn plain_song(id: &str, votes: u64) -> Song {
    Song {
        id: id.to_string(),
        user_id: None,
        name: String::new(),
        artists: Vec::new(),
        album: String::new(),
        duration: 0,
        image_url: String::new(),
        votes: Vote { votes, have_you_voted: None },
    }
}

#[test]
fn texts_are_ordered_by_their_characters() {
    assert!(str_lt("a", "b"));
    assert!(!str_lt("b", "a"));
    assert!(!str_lt("abc", "abc"));
    assert!(str_lt("ab", "abc"));
    assert!(!str_lt("abc", "ab"));
    assert!(str_lt("", "a"));
    assert!(!str_lt("", ""));
    assert!(str_lt("Z", "a"));
    assert!(str_lt("track1", "track2"));
    assert!(str_eq("track1", "track1"));
    assert!(!str_eq("track1", "track2"));
    assert!(!str_eq("track", "track1"));
}

#[test]
fn more_votes_rank_first_and_the_greater_id_breaks_a_tie() {
    assert!(song_ranks_before(&plain_song("a", 2), &plain_song("z", 1)));
    assert!(!song_ranks_before(&plain_song("z", 1), &plain_song("a", 2)));
    assert!(song_ranks_before(&plain_song("b", 1), &plain_song("a", 1)));
    assert!(!song_ranks_before(&plain_song("a", 1), &plain_song("b", 1)));
    assert!(!song_ranks_before(&plain_song("a", 1), &plain_song("a", 1)));
}

#[test]
fn a_song_is_put_at_its_place_in_the_queue() {
    let mut songs = Vec::new();
    insert_song_ranked(&mut songs, plain_song("b", 1));
    insert_song_ranked(&mut songs, plain_song("a", 1));
    insert_song_ranked(&mut songs, plain_song("c", 1));
    insert_song_ranked(&mut songs, plain_song("d", 5));
    insert_song_ranked(&mut songs, plain_song("e", 0));
    assert_eq!(ids(&songs), vec!["d", "c", "b", "a", "e"]);
}

#[test]
fn the_queue_is_ordered_by_votes_then_by_id_descending() {
    let mut store = store_with_jam(10);
    for id in ["aaa", "ccc", "bbb", "ddd"] {
        add_song(&mut store, id, "U1", "ABC123", &track(id)).unwrap();
    }
    add_vote("aaa", "U1", &mut store).unwrap();
    add_vote("aaa", "U2", &mut store).unwrap();
    add_vote("bbb", "U2", &mut store).unwrap();
    let songs = get_songs(&store, &host());
    assert_eq!(ids(&songs), vec!["aaa", "bbb", "ddd", "ccc"]);
    let votes: Vec<u64> = songs.iter().map(|s| s.votes.votes).collect();
    assert_eq!(votes, vec![2, 1, 0, 0]);
}

#[test]
fn reading_the_queue_twice_gives_the_same_queue() {
    let mut store = store_with_jam(10);
    for id in ["x1", "x3", "x2"] {
        add_song(&mut store, id, "U2", "ABC123", &track(id)).unwrap();
    }
    add_vote("x2", "U1", &mut store).unwrap();
    let first = get_songs(&store, &user("U1"));
    let second = get_songs(&store, &user("U1"));
    assert_eq!(ids(&first), vec!["x2", "x3", "x1"]);
    assert_eq!(ids(&first), ids(&second));
    for (a, b) in first.iter().zip(second.iter()) {
        assert_eq!(a.votes, b.votes);
    }
    let mut unique = ids(&first);
    unique.dedup();
    assert_eq!(unique.len(), first.len());
}

#[test]
fn a_host_sees_totals_and_a_user_sees_their_own_vote() {
    let mut store = store_with_jam(10);
    add_song(&mut store, "track1", "U1", "ABC123", &track("One")).unwrap();
    add_vote("track1", "U2", &mut store).unwrap();
    let for_host = get_songs(&store, &host());
    assert_eq!(for_host[0].votes, Vote { votes: 1, have_you_voted: None });
    assert_eq!(for_host[0].user_id, None);
    let for_voter = get_songs(&store, &user("U2"));
    assert_eq!(for_voter[0].votes, Vote { votes: 1, have_you_voted: Some(true) });
    assert_eq!(for_voter[0].user_id, None);
    let for_owner = get_songs(&store, &user("U1"));
    assert_eq!(for_owner[0].votes, Vote { votes: 1, have_you_voted: Some(false) });
    assert_eq!(for_owner[0].user_id, Some("U1".to_string()));
}

#[test]
fn the_vote_flag_follows_the_vote() {
    let mut store = store_with_jam(10);
    add_song(&mut store, "track1", "U1", "ABC123", &track("One")).unwrap();
    assert_eq!(get_songs(&store, &user("U2"))[0].votes.have_you_voted, Some(false));
    let changed = add_vote("track1", "U2", &mut store).unwrap();
    assert_eq!(changed, Changed { users: false, songs: false, votes: true });
    assert_eq!(get_songs(&store, &user("U2"))[0].votes.have_you_voted, Some(true));
    let changed = remove_vote("track1", "U2", &mut store).unwrap();
    assert_eq!(changed, Changed { users: false, songs: false, votes: true });
    assert_eq!(get_songs(&store, &user("U2"))[0].votes.have_you_voted, Some(false));
    assert_eq!(get_songs(&store, &user("U2"))[0].votes.votes, 0);
}

#[test]
fn a_song_is_shown_with_what_the_provider_told() {
    let mut store = store_with_jam(10);
    let changed = add_song(&mut store, "4iV5W9uYEdYUVa79Axb7Rh", "U1", "ABC123", &track("A Song")).unwrap();
    assert_eq!(changed, Changed { users: false, songs: true, votes: false });
    let songs = get_songs(&store, &user("U1"));
    assert_eq!(songs.len(), 1);
    assert_eq!(songs[0].id, "4iV5W9uYEdYUVa79Axb7Rh");
    assert_eq!(songs[0].name, "A Song");
    assert_eq!(songs[0].album, "An Album");
    assert_eq!(songs[0].duration, 187_000);
    assert_eq!(songs[0].image_url, "https://img.example/cover.jpg");
    assert_eq!(songs[0].artists, vec!["First Artist", "Second Artist"]);
}

#[test]
fn a_song_stored_without_artists_is_shown_with_the_notice() {
    let mut store = store_with_jam(10);
    store
        .insert_song(SongRow {
            id: "old".to_string(),
            user_id: "U1".to_string(),
            name: "Old".to_string(),
            album: "Older".to_string(),
            duration: -1,
            image_url: "u".to_string(),
            artists: None,
        })
        .unwrap();
    let songs = get_songs(&store, &host());
    assert_eq!(songs[0].artists, vec!["no artist found in cache, this is a bug"]);
    assert_eq!(songs[0].duration, u32::MAX);
}

#[test]
fn the_queue_of_a_jam_holds_only_its_own_songs() {
    let mut store = store_with_jam(10);
    store.create_host("H2").unwrap();
    store.set_credential("H2", credential()).unwrap();
    store.create_jam("XYZ789", "H2", 10).unwrap();
    store.create_user("V1", "XYZ789").unwrap();
    add_song(&mut store, "mine", "U1", "ABC123", &track("Mine")).unwrap();
    add_song(&mut store, "theirs", "V1", "XYZ789", &track("Theirs")).unwrap();
    assert_eq!(ids(&get_songs(&store, &host())), vec!["mine"]);
    let other = IdType::User(Id { id: "V1".to_string(), jam_id: "XYZ789".to_string() });
    assert_eq!(ids(&get_songs(&store, &other)), vec!["theirs"]);
}

#[test]
fn a_third_song_over_a_quota_of_two_is_refused_and_not_stored() {
    let mut store = store_with_jam(2);
    add_song(&mut store, "one", "U1", "ABC123", &track("One")).unwrap();
    add_song(&mut store, "two", "U1", "ABC123", &track("Two")).unwrap();
    let before = store.songs.len();
    let refused = add_song(&mut store, "three", "U1", "ABC123", &track("Three")).unwrap_err();
    assert_eq!(refused.kind(), ErrorKind::UserHasTooTheMaxSongAmount);
    assert_eq!(store.songs.len(), before);
    assert_eq!(store.song_count("U1"), 2);
    assert!(store.find_song("three").is_none());
    assert_eq!(admit_song(&store, "three", "U1", "ABC123").unwrap_err().kind(), ErrorKind::UserHasTooTheMaxSongAmount);
    assert!(admit_song(&store, "three", "U2", "ABC123").is_ok());
}

#[test]
fn a_jam_that_allows_no_song_admits_none() {
    let store = store_with_jam(0);
    assert_eq!(admit_song(&store, "one", "U1", "ABC123").unwrap_err().kind(), ErrorKind::UserHasTooTheMaxSongAmount);
    let store = store_with_jam(-3);
    assert_eq!(admit_song(&store, "one", "U1", "ABC123").unwrap_err().kind(), ErrorKind::UserHasTooTheMaxSongAmount);
}

#[test]
fn a_song_is_admitted_only_with_a_track_id_a_jam_and_a_credential() {
    let store = store_with_jam(3);
    let admitted = admit_song(&store, "4iV5W9uYEdYUVa79Axb7Rh", "U1", "ABC123").unwrap();
    assert_eq!(admitted.access_token, "access");
    assert_eq!(admit_song(&store, "spotify:track:4iV5W9uYEdYUVa79Axb7Rh", "U1", "ABC123").unwrap_err().kind(), ErrorKind::Spotify);
    assert_eq!(admit_song(&store, "not a track", "U1", "ABC123").unwrap_err().kind(), ErrorKind::Spotify);
    assert_eq!(admit_song(&store, "tr\u{e4}ck", "U1", "ABC123").unwrap_err().kind(), ErrorKind::Spotify);
    assert_eq!(admit_song(&store, "track1", "U1", "NOJAM1").unwrap_err().kind(), ErrorKind::Database);
    let mut bare = Store::new();
    bare.create_host("H1").unwrap();
    bare.create_jam("ABC123", "H1", 3).unwrap();
    bare.create_user("U1", "ABC123").unwrap();
    assert_eq!(admit_song(&bare, "track1", "U1", "ABC123").unwrap_err().kind(), ErrorKind::Database);
}

#[test]
fn a_song_is_not_queued_twice_nor_without_a_cover_nor_for_a_stranger() {
    let mut store = store_with_jam(5);
    add_song(&mut store, "one", "U1", "ABC123", &track("One")).unwrap();
    assert_eq!(add_song(&mut store, "one", "U2", "ABC123", &track("One")).unwrap_err().kind(), ErrorKind::Database);
    let mut bare = track("Bare");
    bare.images.clear();
    assert_eq!(add_song(&mut store, "two", "U1", "ABC123", &bare).unwrap_err().kind(), ErrorKind::Spotify);
    assert_eq!(add_song(&mut store, "two", "nobody", "ABC123", &track("Two")).unwrap_err().kind(), ErrorKind::Database);
    assert_eq!(store.songs.len(), 1);
}

#[test]
fn a_user_removes_their_own_song_and_no_other() {
    let mut store = store_with_jam(5);
    add_song(&mut store, "one", "U1", "ABC123", &track("One")).unwrap();
    add_vote("one", "U1", &mut store).unwrap();
    add_vote("one", "U2", &mut store).unwrap();
    let refused = remove_song("one", &user("U2"), &mut store).unwrap_err();
    assert_eq!(refused.kind(), ErrorKind::Forbidden);
    assert_eq!(refused.message(), "this song was not added by the user who wants to remove it");
    assert_eq!(store.songs.len(), 1);
    assert_eq!(store.votes.len(), 2);
    let changed = remove_song("one", &user("U1"), &mut store).unwrap();
    assert_eq!(changed, Changed { users: false, songs: true, votes: false });
    assert!(store.find_song("one").is_none());
    assert_eq!(store.vote_count("one"), 0);
    assert!(store.votes.is_empty());
}

#[test]
fn a_host_removes_any_song_and_only_its_votes() {
    let mut store = store_with_jam(5);
    add_song(&mut store, "one", "U1", "ABC123", &track("One")).unwrap();
    add_song(&mut store, "two", "U2", "ABC123", &track("Two")).unwrap();
    add_vote("one", "U2", &mut store).unwrap();
    add_vote("two", "U1", &mut store).unwrap();
    remove_song("one", &host(), &mut store).unwrap();
    assert_eq!(ids(&get_songs(&store, &host())), vec!["two"]);
    assert_eq!(store.vote_count("two"), 1);
    assert_eq!(store.votes.len(), 1);
    remove_song("missing", &host(), &mut store).unwrap();
    assert_eq!(store.songs.len(), 1);
}

#[test]
fn a_second_vote_for_the_same_song_is_refused() {
    let mut store = store_with_jam(5);
    add_song(&mut store, "one", "U1", "ABC123", &track("One")).unwrap();
    add_vote("one", "U2", &mut store).unwrap();
    assert_eq!(add_vote("one", "U2", &mut store).unwrap_err().kind(), ErrorKind::Database);
    assert_eq!(store.vote_count("one"), 1);
    assert_eq!(add_vote("none", "U2", &mut store).unwrap_err().kind(), ErrorKind::Database);
    assert_eq!(add_vote("one", "nobody", &mut store).unwrap_err().kind(), ErrorKind::Database);
    remove_vote("one", "U1", &mut store).unwrap();
    assert_eq!(store.vote_count("one"), 1);
}

#[test]
fn a_user_who_is_sent_away_takes_their_songs_and_votes_along() {
    let mut store = store_with_jam(5);
    add_song(&mut store, "one", "U1", "ABC123", &track("One")).unwrap();
    add_song(&mut store, "two", "U2", "ABC123", &track("Two")).unwrap();
    add_vote("one", "U2", &mut store).unwrap();
    add_vote("two", "U1", &mut store).unwrap();
    add_vote("two", "U2", &mut store).unwrap();
    let changed = kick_user("U1", "H1", &mut store).unwrap();
    assert_eq!(changed, Changed { users: true, songs: false, votes: false });
    assert!(store.find_user("U1").is_none());
    assert!(store.find_song("one").is_none());
    assert!(store.find_vote("U2", "one").is_none());
    assert!(store.find_vote("U1", "two").is_none());
    assert!(store.find_vote("U2", "two").is_some());
    assert_eq!(store.votes.len(), 1);
    assert_eq!(ids(&get_songs(&store, &host())), vec!["two"]);
}

#[test]
fn a_host_cannot_send_away_the_user_of_another_jam() {
    let mut store = store_with_jam(5);
    store.create_host("H2").unwrap();
    store.create_jam("XYZ789", "H2", 5).unwrap();
    store.create_user("V1", "XYZ789").unwrap();
    kick_user("V1", "H1", &mut store).unwrap();
    assert!(store.find_user("V1").is_some());
    kick_user("V1", "nobody", &mut store).unwrap();
    assert!(store.find_user("V1").is_some());
    kick_user("V1", "H2", &mut store).unwrap();
    assert!(store.find_user("V1").is_none());
}

#[test]
fn an_identifier_resolves_to_a_host_or_a_user_or_fails() {
    let store = store_with_jam(5);
    match check_id_type("H1", &store).unwrap() {
        IdType::Host(id) => {
            assert_eq!(id.id, "H1");
            assert_eq!(id.jam_id, "ABC123");
        }
        IdType::User(_) => panic!("a host was resolved to a user"),
    }
    match check_id_type("U2", &store).unwrap() {
        IdType::User(id) => {
            assert_eq!(id.id, "U2");
            assert_eq!(id.jam_id, "ABC123");
        }
        IdType::Host(_) => panic!("a user was resolved to a host"),
    }
    assert_eq!(check_id_type("nobody", &store).unwrap_err().kind(), ErrorKind::Database);
    let mut lonely = Store::new();
    lonely.create_host("H9").unwrap();
    assert_eq!(check_id_type("H9", &lonely).unwrap_err().kind(), ErrorKind::Database);
}

#[test]
fn the_credential_of_a_jam_is_that_of_its_host() {
    let mut store = store_with_jam(5);
    let token = get_access_token(&store, "ABC123").unwrap();
    assert_eq!(token.access_token, "access");
    assert_eq!(token.refresh_token, "refresh");
    assert_eq!(token.expires_at, 1_700_000_000);
    assert_eq!(get_access_token(&store, "NOJAM1").unwrap_err().kind(), ErrorKind::Database);
    store.create_host("H2").unwrap();
    store.create_jam("XYZ789", "H2", 5).unwrap();
    assert_eq!(get_access_token(&store, "XYZ789").unwrap_err().kind(), ErrorKind::Database);
}

#[test]
fn the_store_keeps_one_row_per_key() {
    let mut store = store_with_jam(5);
    assert_eq!(store.create_host("H1").unwrap_err().kind(), ErrorKind::Database);
    assert_eq!(store.create_jam("ABC123", "H1", 1).unwrap_err().kind(), ErrorKind::Database);
    assert_eq!(store.create_jam("NEW001", "H1", 1).unwrap_err().kind(), ErrorKind::Database);
    assert_eq!(store.create_jam("NEW001", "nobody", 1).unwrap_err().kind(), ErrorKind::Database);
    assert_eq!(store.create_user("U1", "ABC123").unwrap_err().kind(), ErrorKind::Database);
    assert_eq!(store.create_user("U3", "NOJAM1").unwrap_err().kind(), ErrorKind::Database);
    assert_eq!(store.set_credential("nobody", credential()).unwrap_err().kind(), ErrorKind::Database);
    assert_eq!(store.hosts.len(), 1);
    assert_eq!(store.jams.len(), 1);
    assert_eq!(store.users.len(), 2);
    assert_eq!(store.jam_limit("ABC123"), Some(5));
    assert_eq!(store.jam_limit("NOJAM1"), None);
    assert_eq!(store.jam_of_host("H1"), Some("ABC123".to_string()));
    assert_eq!(store.host_of_jam("ABC123"), Some("H1".to_string()));
    assert_eq!(store.jam_of_user("U2"), Some("ABC123".to_string()));
    assert_eq!(store.jam_of_user("H1"), None);
    assert!(store.user_in_jam("U1", "ABC123"));
    assert!(!store.user_in_jam("U1", "XYZ789"));
}
