//! Who a connection is, and on whose behalf the music provider is asked.

use vstd::prelude::*;
use crate::store::{Credential, CredentialView, Store, StoreView};
use crate::types::{Error, ErrorKind, Id, IdType, IdTypeView, IdView};

verus! {

impl StoreView {
    /// The role an identifier stands for: the host of the jam that they run,
    /// else the user it names; none where it names neither.
    pub open spec fn role_of(self, id: Seq<char>) -> Option<IdTypeView> {
        match self.jam_of_host(id) {
            Some(jam_id) => Some(IdTypeView::Host(IdView { id, jam_id })),
            None => match self.jam_of_user(id) {
                Some(jam_id) => Some(IdTypeView::User(IdView { id, jam_id })),
                None => None,
            },
        }
    }

    /// The credential under which the provider is asked for the jam: that of
    /// the jam's host, where the jam, its host and the credential exist.
    pub open spec fn access_token(self, jam_id: Seq<char>) -> Option<CredentialView> {
        match self.host_of_jam(jam_id) {
            Some(host_id) => match self.credential_of(host_id) {
                Some(Some(credential)) => Some(credential),
                _ => None,
            },
            None => None,
        }
    }
}

/// Resolves the identifier that a connection presents. An identifier that
/// names neither a host who runs a jam nor a user is an error of the store; the
/// connection is then closed without a word.
pub fn check_id_type(id: &str, store: &Store) -> (r: Result<IdType, Error>)
    ensures
        match r {
            Ok(role) => store@.role_of(id@) == Some(role@),
            Err(e) => store@.role_of(id@) is None && e@.kind() == ErrorKind::Database,
        },
{
    match store.jam_of_host(id) {
        Some(jam_id) => Ok(IdType::Host(Id { id: id.to_owned(), jam_id })),
        None => match store.jam_of_user(id) {
            Some(jam_id) => Ok(IdType::User(Id { id: id.to_owned(), jam_id })),
            None => Err(Error::Database("no rows returned for this id".to_owned())),
        },
    }
}

/// The credential of the jam's host.
pub fn get_access_token(store: &Store, jam_id: &str) -> (r: Result<Credential, Error>)
    ensures
        match r {
            Ok(credential) => store@.access_token(jam_id@) == Some(credential@),
            Err(e) => store@.access_token(jam_id@) is None && e@.kind() == ErrorKind::Database,
        },
{
    match store.host_of_jam(jam_id) {
        None => Err(Error::Database("no jam has this id".to_owned())),
        Some(host_id) => match store.credential_of(host_id.as_str()) {
            Some(Some(credential)) => Ok(credential),
            Some(None) => Err(Error::Database("the host has no access token".to_owned())),
            None => Err(Error::Database("the host of the jam is missing".to_owned())),
        },
    }
}

} // verus!
