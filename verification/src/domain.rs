//! The two interfaces of the storage layer, as request handlers see them.
//!
//! Each interface comes with a model of what an implementation holds, and
//! says of every operation what a successful call returns or changes, and
//! with which errors it can fail. A failed call may or may not have changed
//! what is held: a request that timed out may still have arrived.

use vstd::prelude::*;
use crate::errors::{RepoError, StorageError};
use crate::models::{Meme, MemeId, MemeView};

verus! {

/// Storage of records, found again by their identifier.
pub trait MemeRepository {
    /// What an implementation needs to hold of itself between calls.
    spec fn valid(&self) -> bool;

    /// The record held under an identifier, if one is.
    spec fn record(&self, id: MemeId) -> Option<MemeView>;

    /// Stores a record, in place of any record with the same identifier.
    /// Records with other identifiers stay as they are. Only the backend
    /// makes this fail.
    fn create(&mut self, meme: &Meme) -> (result: Result<(), RepoError>)
        requires
            old(self).valid(),
        ensures
            final(self).valid(),
            result is Ok ==> final(self).record(meme.meme_id) == Some(meme@),
            result is Ok ==> forall|other: MemeId|
                other != meme.meme_id ==> #[trigger] final(self).record(other) == old(
                    self,
                ).record(other),
            result matches Err(error) ==> error is BackendError,
    ;

    /// The record with the identifier; `None`, and no error, when there is
    /// none. Nothing held changes.
    fn get_by_id(&mut self, id: MemeId) -> (result: Result<Option<Meme>, RepoError>)
        requires
            old(self).valid(),
        ensures
            final(self).valid(),
            forall|any: MemeId| #[trigger] final(self).record(any) == old(self).record(any),
            result matches Ok(found) ==> found.deep_view() == old(self).record(id),
            result matches Err(error) ==> error is BackendError || error is DataCorruption,
    ;

    /// All records, in no promised order: every entry is the record held
    /// under its identifier, no identifier comes twice, and every record held
    /// is an entry. Nothing held changes.
    fn list_all(&mut self) -> (result: Result<Vec<Meme>, RepoError>)
        requires
            old(self).valid(),
        ensures
            final(self).valid(),
            forall|any: MemeId| #[trigger] final(self).record(any) == old(self).record(any),
            result matches Ok(memes) ==> forall|i: int|
                0 <= i < memes.len() ==> old(self).record((#[trigger] memes[i]).meme_id) == Some(
                    memes[i]@,
                ),
            result matches Ok(memes) ==> forall|i: int, j: int|
                0 <= i < j < memes.len() ==> (#[trigger] memes[i]).meme_id != (
                #[trigger] memes[j]).meme_id,
            result matches Ok(memes) ==> forall|id: MemeId|
                (#[trigger] old(self).record(id)) is Some ==> exists|i: int|
                    0 <= i < memes.len() && (#[trigger] memes[i]).meme_id == id,
            result matches Err(error) ==> error is BackendError || error is DataCorruption,
    ;

    /// Removes the record with the identifier, if there is one; it succeeds
    /// whether or not there was. Records with other identifiers stay as they
    /// are. Only the backend makes this fail.
    fn delete(&mut self, id: MemeId) -> (result: Result<(), RepoError>)
        requires
            old(self).valid(),
        ensures
            final(self).valid(),
            result is Ok ==> final(self).record(id) is None,
            result is Ok ==> forall|other: MemeId|
                other != id ==> #[trigger] final(self).record(other) == old(self).record(other),
            result matches Err(error) ==> error is BackendError,
    ;
}

/// Storage of binary objects, each under a key and with a media type.
pub trait FileStorage {
    /// What an implementation needs to hold of itself between calls.
    spec fn valid(&self) -> bool;

    /// The bytes held under a key and the media type that a download gives
    /// with them, if an object is held there.
    spec fn object(&self, key: Seq<char>) -> Option<(Seq<u8>, Option<Seq<char>>)>;

    /// Stores `data` under `key`, in place of any object there, with the
    /// media type where one is given. Objects under other keys stay as they
    /// are.
    fn upload(&mut self, key: &str, data: Vec<u8>, content_type: Option<String>) -> (result: Result<
        (),
        StorageError,
    >)
        requires
            old(self).valid(),
        ensures
            final(self).valid(),
            result is Ok ==> (final(self).object(key@) matches Some((body, media_type)) && body
                == data@ && (content_type is Some ==> media_type == content_type.deep_view())),
            result is Ok ==> forall|other: Seq<char>|
                other != key@ ==> #[trigger] final(self).object(other) == old(self).object(other),
            result matches Err(error) ==> error is UploadFailed || error is BackendError,
    ;

    /// The object under `key`: its bytes and its media type. A missing object
    /// is reported as `NotFound` of the key asked for. Nothing held changes.
    fn download(&mut self, key: &str) -> (result: Result<(Vec<u8>, Option<String>), StorageError>)
        requires
            old(self).valid(),
        ensures
            final(self).valid(),
            forall|any: Seq<char>| #[trigger] final(self).object(any) == old(self).object(any),
            result matches Ok((body, media_type)) ==> old(self).object(key@) == Some(
                (body@, media_type.deep_view()),
            ),
            result matches Err(error) ==> ((error matches StorageError::NotFound(missing)
                && missing@ == key@) || error is BackendError),
    ;

    /// Removes the object under `key`, if there is one; it succeeds whether
    /// or not there was. Objects under other keys stay as they are. Only the
    /// backend makes this fail.
    fn delete(&mut self, key: &str) -> (result: Result<(), StorageError>)
        requires
            old(self).valid(),
        ensures
            final(self).valid(),
            result is Ok ==> final(self).object(key@) is None,
            result is Ok ==> forall|other: Seq<char>|
                other != key@ ==> #[trigger] final(self).object(other) == old(self).object(other),
            result matches Err(error) ==> error is BackendError,
    ;
}

} // verus!
