use vstd::prelude::*;

use crate::error::{Error, NO_SUCH_OBJECT};

verus! {

/// A failure as the service reports it.
#[derive(Clone, Debug, PartialEq, Eq)]
pub struct NativeError {
    pub code: i32,
    pub message: String,
}

/// The library's error for a failure that the service reported.
pub open spec fn service_error_of(e: NativeError) -> Error {
    Error::ServiceError { code: e.code, message: e.message }
}

pub fn service_error(e: NativeError) -> (r: Error)
    ensures
        r == service_error_of(e),
{
    Error::ServiceError { code: e.code, message: e.message }
}

/// The outcome of an operation that completes with a success flag (store,
/// delete, loading collections): the reported failure, else the flag.
pub fn finish_flag(flag: bool, error: Option<NativeError>) -> (r: Result<bool, Error>)
    ensures
        match error {
            Some(e) => r == Err::<bool, Error>(service_error_of(e)),
            None => r == Ok::<bool, Error>(flag),
        },
{
    match error {
        Some(e) => Err(service_error(e)),
        None => Ok(flag),
    }
}

/// The outcome of a clear: the reported failure, else `true`, also when the
/// service found nothing to remove.
pub fn finish_clear(removed: bool, error: Option<NativeError>) -> (r: Result<bool, Error>)
    ensures
        match error {
            Some(e) => r == Err::<bool, Error>(service_error_of(e)),
            None => r == Ok::<bool, Error>(true),
        },
{
    match error {
        Some(e) => Err(service_error(e)),
        None => Ok(true),
    }
}

/// The outcome of a lookup: the reported failure, else the secret found;
/// a lookup that found nothing fails as not found.
pub fn finish_text(text: Option<String>, error: Option<NativeError>) -> (r: Result<String, Error>)
    ensures
        match error {
            Some(e) => r == Err::<String, Error>(service_error_of(e)),
            None => match text {
                Some(t) => r == Ok::<String, Error>(t),
                None => r matches Err(f) && f is ServiceError && f->code == NO_SUCH_OBJECT,
            },
        },
{
    match error {
        Some(e) => Err(service_error(e)),
        None => match text {
            Some(t) => Ok(t),
            None => Err(Error::not_found()),
        },
    }
}

/// The outcome of a search: the reported failure, else the items found in
/// the order the service listed them; no list at all is no item.
pub fn finish_list<X>(items: Option<Vec<X>>, error: Option<NativeError>) -> (r: Result<Vec<X>, Error>)
    ensures
        match error {
            Some(e) => r == Err::<Vec<X>, Error>(service_error_of(e)),
            None => match items {
                Some(v) => r matches Ok(w) && w@ == v@,
                None => r matches Ok(w) && w@.len() == 0,
            },
        },
{
    match error {
        Some(e) => Err(service_error(e)),
        None => match items {
            Some(v) => Ok(v),
            None => Ok(Vec::new()),
        },
    }
}

/// The outcome of an operation that completes with one object (creating a
/// collection or an item, connecting): the reported failure, else the
/// object; neither is a malformed answer.
pub fn finish_object<X>(object: Option<X>, error: Option<NativeError>) -> (r: Result<X, Error>)
    ensures
        match error {
            Some(e) => r == Err::<X, Error>(service_error_of(e)),
            None => match object {
                Some(x) => r == Ok::<X, Error>(x),
                None => r == Err::<X, Error>(Error::DecodeError),
            },
        },
{
    match error {
        Some(e) => Err(service_error(e)),
        None => match object {
            Some(x) => Ok(x),
            None => Err(Error::DecodeError),
        },
    }
}

} // verus!
