//! The start of a session: a host is recorded under a fresh id and sent to the
//! music provider to sign in.

use vstd::prelude::*;
use vstd::string::*;
use crate::store::{HostRowView, Store, StoreView};
use crate::types::{Error, ErrorKind};

verus! {

/// `cuid2::create_id`: a fresh identifier. Whatever it returns is not empty,
/// has at most 24 characters and starts with a lower-case letter; that is not
/// proved here. Two calls may differ.
#[verifier::external_body]
fn create_id() -> (id: String)
    ensures
        1 <= id@.len() <= 24,
        'a' <= id@[0] && id@[0] <= 'z',
{
    cuid2::create_id()
}

/// What the host is allowed to do at the provider once signed in.
pub open spec fn scopes() -> Seq<char> {
    "user-read-playback-state user-modify-playback-state user-read-currently-playing"@
}

/// The provider's sign-in page for the application, with the host's id as the
/// state that comes back with the answer.
pub open spec fn authorize_url(client_id: Seq<char>, host_id: Seq<char>) -> Seq<char> {
    "https://accounts.spotify.com/authorize?response_type=code&client_id="@ + client_id
        + "&scope="@ + scopes() + "&redirect_uri="@ + "http://localhost:3000/"@ + "&state="@
        + host_id
}

/// Records a host under the id and answers with the page to send them to. An
/// id that is taken is refused.
pub fn begin_sign_in(store: &mut Store, spotify_id: &str, host_id: &str) -> (r: Result<String, Error>)
    ensures
        match r {
            Ok(url) => !old(store)@.has_host(host_id@) && final(store)@ == (StoreView {
                hosts: old(store)@.hosts.push(HostRowView { id: host_id@, credential: None }),
                ..old(store)@
            }) && url@ == authorize_url(spotify_id@, host_id@),
            Err(e) => old(store)@.has_host(host_id@) && e@.kind() == ErrorKind::Database
                && final(store)@ == old(store)@,
        },
        old(store)@.wf() ==> final(store)@.wf(),
{
    match store.create_host(host_id) {
        Ok(_) => {},
        Err(e) => {
            return Err(e);
        },
    }
    let mut url = "https://accounts.spotify.com/authorize?response_type=code&client_id=".to_owned();
    url.append(spotify_id);
    url.append("&scope=");
    url.append("user-read-playback-state user-modify-playback-state user-read-currently-playing");
    url.append("&redirect_uri=");
    url.append("http://localhost:3000/");
    url.append("&state=");
    url.append(host_id);
    Ok(url)
}

/// Records a new host under a fresh id and answers with the page to send them
/// to.
pub fn redirect_to_spotify_oauth(store: &mut Store, spotify_id: &str) -> (r: Result<String, Error>)
    ensures
        match r {
            Ok(url) => exists|host_id: Seq<char>|
                !old(store)@.has_host(host_id) && final(store)@ == (StoreView {
                    hosts: old(store)@.hosts.push(HostRowView { id: host_id, credential: None }),
                    ..old(store)@
                }) && url@ == #[trigger] authorize_url(spotify_id@, host_id),
            Err(e) => e@.kind() == ErrorKind::Database && final(store)@ == old(store)@,
        },
        old(store)@.wf() ==> final(store)@.wf(),
{
    let host_id = create_id();
    let r = begin_sign_in(store, spotify_id, host_id.as_str());
    proof {
        if r is Ok {
            assert(r->Ok_0@ == authorize_url(spotify_id@, host_id@));
        }
    }
    r
}

} // verus!
