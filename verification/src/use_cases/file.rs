//! Serving uploaded files.

use vstd::prelude::*;

use crate::error::ApplicationError;
use crate::ports::StoredFile;

verus! {

/// Reads one uploaded file back from storage.
pub struct GetFile<S> {
    pub storage: S,
}

impl<S> GetFile<S> {
    pub fn new(storage: S) -> (r: Self)
        ensures
            r.storage == storage,
    {
        GetFile { storage }
    }
}

pub open spec fn missing_file_text(key: Seq<char>) -> Seq<char> {
    "file "@ + key
}

/// The file stored under `key`, or `NotFound` naming the key.
pub fn file_or_not_found(key: &str, found: Option<StoredFile>) -> (r: Result<StoredFile, ApplicationError>)
    ensures
        match found {
            Some(f) => r == Ok::<StoredFile, ApplicationError>(f),
            None => r matches Err(ApplicationError::NotFound(m)) && m@ == missing_file_text(key@),
        },
{
    match found {
        Some(f) => Ok(f),
        None => {
            let mut m = String::from_str("file ");
            m.append(key);
            Err(ApplicationError::NotFound(m))
        },
    }
}

} // verus!
