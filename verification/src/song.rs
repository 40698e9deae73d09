//! Queueing songs, taking them back, and showing the queue.

use vstd::prelude::*;
use crate::identity::get_access_token;
use crate::ranking::{insert_song_ranked, rank};
use crate::store::{Credential, SongRow, SongRowView, Store, StoreView, views};
use crate::table::{lemma_filter_ends, lemma_filter_step};
use crate::text::{clone_strings, str_eq};
use crate::types::{
    Changed, Error, ErrorKind, ErrorView, IdType, IdTypeView, Song, SongView, Track, TrackView,
    Vote,
};

verus! {

/// `rspotify::model::IdError`, the reason for which a text is no id. Nothing is
/// known here of what a value of it holds.
#[verifier::external_type_specification]
#[verifier::external_body]
pub struct ExIdError(rspotify::model::IdError);

/// An ASCII letter or digit.
pub open spec fn is_ascii_alphanumeric(c: char) -> bool {
    ('0' <= c && c <= '9') || ('a' <= c && c <= 'z') || ('A' <= c && c <= 'Z')
}

/// A text that the provider takes for the id of a track: ASCII letters and
/// digits only.
pub open spec fn valid_track_id(id: Seq<char>) -> bool {
    forall|i: int| 0 <= i < id.len() ==> is_ascii_alphanumeric(#[trigger] id[i])
}

/// `rspotify::model::TrackId::from_id`, the result without the id. It accepts
/// a text exactly if every character of it is an ASCII letter or digit; the
/// empty text, which has no character, is accepted. That is what the contract
/// claims, and it is not proved here.
#[verifier::external_body]
fn parse_track_id(song_id: &str) -> (r: Result<(), rspotify::model::IdError>)
    ensures
        r is Ok <==> valid_track_id(song_id@),
{
    match rspotify::model::TrackId::from_id(song_id) {
        Ok(_) => Ok(()),
        Err(e) => Err(e),
    }
}

/// What is shown as the artists of a song that was stored without any.
pub open spec fn missing_artists() -> Seq<Seq<char>> {
    seq!["no artist found in cache, this is a bug"@]
}

/// The songs whose owner has joined the jam.
pub open spec fn queued_in(store: StoreView, jam_id: Seq<char>) -> spec_fn(SongRowView) -> bool {
    |s: SongRowView| store.user_in_jam(s.user_id, jam_id)
}

/// A song as the viewer sees it: with its votes counted, with the viewer's own
/// vote told to a user and to no host, and with the owner told to the owner
/// alone.
pub open spec fn shown(store: StoreView, viewer: IdTypeView, row: SongRowView) -> SongView {
    SongView {
        id: row.id,
        user_id: match viewer {
            IdTypeView::User(id) => if id.id == row.user_id {
                Some(row.user_id)
            } else {
                None
            },
            IdTypeView::Host(_) => None,
        },
        name: row.name,
        artists: match row.artists {
            Some(artists) => artists,
            None => missing_artists(),
        },
        album: row.album,
        duration: row.duration as u32,
        image_url: row.image_url,
        votes: Vote {
            votes: store.vote_count(row.id) as u64,
            have_you_voted: match viewer {
                IdTypeView::User(id) => Some(store.has_vote(id.id, row.id)),
                IdTypeView::Host(_) => None,
            },
        },
    }
}

/// The songs of the viewer's jam as the viewer sees them, in the order in
/// which they were queued.
pub open spec fn songs_shown(store: StoreView, viewer: IdTypeView) -> Seq<SongView> {
    store.songs.filter(queued_in(store, viewer.jam_id())).map_values(
        |row: SongRowView| shown(store, viewer, row),
    )
}

/// The queue of the viewer's jam as the viewer sees it.
pub open spec fn queue(store: StoreView, viewer: IdTypeView) -> Seq<SongView> {
    rank(songs_shown(store, viewer))
}

/// The queue of the viewer's jam: its songs with their votes, the song with
/// the most votes first, and among songs with the same votes the greater id
/// first.
pub fn get_songs(store: &Store, id: &IdType) -> (songs: Vec<Song>)
    ensures
        views(songs@) == queue(store@, id@),
{
    let ghost rows = store@.songs;
    let ghost pred = queued_in(store@, id@.jam_id());
    let ghost show = |row: SongRowView| shown(store@, id@, row);
    let mut songs: Vec<Song> = Vec::new();
    let mut i: usize = 0;
    proof {
        lemma_filter_ends(rows, pred);
        assert(rows.take(0).filter(pred).map_values(show) =~= Seq::<SongView>::empty());
        assert(views(songs@) =~= Seq::<SongView>::empty());
    }
    while i < store.songs.len()
        invariant
            i <= store.songs.len(),
            rows == store@.songs,
            pred == queued_in(store@, id@.jam_id()),
            show == (|row: SongRowView| shown(store@, id@, row)),
            views(songs@) == rank(rows.take(i as int).filter(pred).map_values(show)),
        decreases store.songs.len() - i,
    {
        let row = &store.songs[i];
        proof {
            lemma_filter_step(rows, pred, i as int);
            assert(rows[i as int] == row@);
        }
        if store.user_in_jam(row.user_id.as_str(), id.jam_id().as_str()) {
            let votes: usize = store.vote_count(row.id.as_str());
            let song = Song {
                id: row.id.clone(),
                user_id: match id {
                    IdType::User(viewer) => if str_eq(viewer.id.as_str(), row.user_id.as_str()) {
                        Some(row.user_id.clone())
                    } else {
                        None
                    },
                    IdType::Host(_) => None,
                },
                name: row.name.clone(),
                artists: match &row.artists {
                    Some(artists) => clone_strings(artists),
                    None => {
                        let mut unknown: Vec<String> = Vec::new();
                        unknown.push("no artist found in cache, this is a bug".to_owned());
                        proof {
                            assert(unknown.deep_view() =~= missing_artists());
                        }
                        unknown
                    },
                },
                album: row.album.clone(),
                duration: #[verifier::truncate]
                (row.duration as u32),
                image_url: row.image_url.clone(),
                votes: Vote {
                    votes: votes as u64,
                    have_you_voted: match id {
                        IdType::User(viewer) => Some(
                            store.find_vote(viewer.id.as_str(), row.id.as_str()).is_some(),
                        ),
                        IdType::Host(_) => None,
                    },
                },
            };
            proof {
                let kept = rows.take(i as int).filter(pred);
                assert(song@ == shown(store@, id@, row@));
                assert(kept.push(row@).map_values(show) =~= kept.map_values(show).push(song@));
                assert(kept.map_values(show).push(song@).drop_last() =~= kept.map_values(show));
            }
            insert_song_ranked(&mut songs, song);
        }
        i = i + 1;
    }
    songs
}

/// Why a song of the user is not admitted to the jam, if it is not: the jam
/// is unknown; or the user has as many songs queued as the jam allows; or the
/// jam's host has no credential to ask the provider with; or the text is no
/// track id. The first of these that holds is the answer.
pub open spec fn admission(
    store: StoreView,
    song_id: Seq<char>,
    user_id: Seq<char>,
    jam_id: Seq<char>,
) -> Option<ErrorKind> {
    match store.jam_limit(jam_id) {
        None => Some(ErrorKind::Database),
        Some(max_song_count) => if store.song_count(user_id) >= max_song_count {
            Some(ErrorKind::UserHasTooTheMaxSongAmount)
        } else if store.access_token(jam_id) is None {
            Some(ErrorKind::Database)
        } else if !valid_track_id(song_id) {
            Some(ErrorKind::Spotify)
        } else {
            None
        },
    }
}

/// The row under which a track is queued.
pub open spec fn queued_row(song_id: Seq<char>, user_id: Seq<char>, track: TrackView) -> SongRowView {
    SongRowView {
        id: song_id,
        user_id,
        name: track.name,
        album: track.album,
        duration: track.duration_ms as i32,
        image_url: track.images[0],
        artists: Some(track.artists),
    }
}

/// Why the track is not queued, if it is not: the song is not admitted; or the
/// provider gave no cover image; or the store refuses the row, because the
/// song is queued already or the user is unknown.
pub open spec fn add_song_refusal(
    store: StoreView,
    song_id: Seq<char>,
    user_id: Seq<char>,
    jam_id: Seq<char>,
    track: TrackView,
) -> Option<ErrorKind> {
    match admission(store, song_id, user_id, jam_id) {
        Some(kind) => Some(kind),
        None => if track.images.len() == 0 {
            Some(ErrorKind::Spotify)
        } else if store.has_song(song_id) || !store.has_user(user_id) {
            Some(ErrorKind::Database)
        } else {
            None
        },
    }
}

/// Decides, before the provider is asked, whether the user may queue the
/// song; the answer is the credential to ask the provider with.
pub fn admit_song(store: &Store, song_id: &str, user_id: &str, jam_id: &str) -> (r: Result<
    Credential,
    Error,
>)
    ensures
        match r {
            Ok(credential) => admission(store@, song_id@, user_id@, jam_id@) is None
                && store@.access_token(jam_id@) == Some(credential@),
            Err(e) => admission(store@, song_id@, user_id@, jam_id@) == Some(e@.kind()),
        },
{
    let amount_of_songs: usize = store.song_count(user_id);
    let max_amount_of_songs: i16 = match store.jam_limit(jam_id) {
        Some(max) => max,
        None => {
            return Err(Error::Database("no jam has this id".to_owned()));
        },
    };
    if max_amount_of_songs <= 0 || amount_of_songs >= max_amount_of_songs as usize {
        return Err(Error::UserHasTooTheMaxSongAmount);
    }
    let credential = match get_access_token(store, jam_id) {
        Ok(credential) => credential,
        Err(e) => {
            return Err(e);
        },
    };
    match parse_track_id(song_id) {
        Ok(_) => Ok(credential),
        Err(_) => Err(Error::Spotify("the song id is not a track id".to_owned())),
    }
}

/// Queues the track that the provider found under the id, for the user, unless
/// the user has as many songs queued as the jam allows.
pub fn add_song(store: &mut Store, song_id: &str, user_id: &str, jam_id: &str, track: &Track) -> (r:
    Result<Changed, Error>)
    ensures
        match r {
            Ok(changed) => add_song_refusal(old(store)@, song_id@, user_id@, jam_id@, track@) is None
                && changed == (Changed { users: false, songs: true, votes: false })
                && final(store)@ == old(store)@.with_song(queued_row(song_id@, user_id@, track@)),
            Err(e) => add_song_refusal(old(store)@, song_id@, user_id@, jam_id@, track@) == Some(
                e@.kind(),
            ) && final(store)@ == old(store)@,
        },
        old(store)@.wf() ==> final(store)@.wf(),
{
    match admit_song(store, song_id, user_id, jam_id) {
        Ok(_) => {},
        Err(e) => {
            return Err(e);
        },
    }
    if track.images.len() == 0 {
        return Err(Error::Spotify("the track has no cover image".to_owned()));
    }
    let row = SongRow {
        id: song_id.to_owned(),
        user_id: user_id.to_owned(),
        name: track.name.clone(),
        album: track.album.clone(),
        duration: #[verifier::truncate]
        (track.duration_ms as i32),
        image_url: track.images[0].clone(),
        artists: Some(clone_strings(&track.artists)),
    };
    proof {
        assert(track.images.deep_view()[0] == track.images@[0]@);
        assert(row@ == queued_row(song_id@, user_id@, track@));
    }
    match store.insert_song(row) {
        Ok(_) => Ok(Changed::new().songs()),
        Err(e) => Err(e),
    }
}

/// The text with which a user is told that a song is not theirs to remove.
pub open spec fn not_the_owner() -> Seq<char> {
    "this song was not added by the user who wants to remove it"@
}

/// Whether the role may remove the song: a host any song, a user a song that
/// they queued.
pub open spec fn may_remove(store: StoreView, song_id: Seq<char>, id: IdTypeView) -> bool {
    match id {
        IdTypeView::Host(_) => true,
        IdTypeView::User(user) => store.song_owned_by(song_id, user.id),
    }
}

/// Removes the song, and with it the votes it had. A user can remove only a
/// song that they queued; a host any.
pub fn remove_song(song_id: &str, id: &IdType, store: &mut Store) -> (r: Result<Changed, Error>)
    ensures
        match r {
            Ok(changed) => may_remove(old(store)@, song_id@, id@)
                && changed == (Changed { users: false, songs: true, votes: false })
                && final(store)@ == old(store)@.without_song(song_id@),
            Err(e) => !may_remove(old(store)@, song_id@, id@) && e@ == ErrorView::Forbidden(
                not_the_owner(),
            ) && final(store)@ == old(store)@,
        },
        old(store)@.wf() ==> final(store)@.wf(),
{
    if let IdType::User(user) = id {
        if !store.song_owned_by(song_id, user.id.as_str()) {
            return Err(
                Error::Forbidden(
                    "this song was not added by the user who wants to remove it".to_owned(),
                ),
            );
        }
    }
    store.delete_song(song_id);
    Ok(Changed::new().songs())
}

} // verus!
