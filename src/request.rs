use vstd::prelude::*;

use crate::bridge::{holds, Pending};
use crate::error::Error;
use crate::flags::{ItemCreateFlags, SearchFlags, ServiceFlags};

verus! {

/// A call for the service to make, with everything it needs but the schema,
/// which the caller holds. Attributes are in their flat form.
#[derive(Debug)]
pub enum Request {
    GetService { flags: ServiceFlags },
    LoadCollections,
    CreateCollection { label: String },
    DeleteCollection { collection: String },
    CreateItem {
        collection: String,
        attributes: Vec<(String, String)>,
        label: String,
        secret: String,
        content_type: String,
        flags: ItemCreateFlags,
    },
    SearchCollection { collection: String, attributes: Vec<(String, String)>, flags: SearchFlags },
    DeleteItem { item: String },
    StorePassword {
        collection: Option<String>,
        attributes: Vec<(String, String)>,
        label: String,
        password: String,
    },
    LookupPassword { attributes: Vec<(String, String)> },
    SearchPasswords { attributes: Vec<(String, String)>, flags: SearchFlags },
    ClearPasswords { attributes: Vec<(String, String)> },
}

/// A request, and the token that its completion must carry back.
#[derive(Debug)]
pub struct Dispatch {
    pub token: u64,
    pub request: Request,
}

/// The registry can take `continuation` for one more operation.
pub open spec fn can_dispatch<T, F: FnOnce(Result<T, Error>)>(
    pending: Pending<T, F>,
    continuation: F,
) -> bool {
    &&& pending.wf()
    &&& pending.spec_next_token() < u64::MAX
    &&& forall|r: Result<T, Error>| continuation.requires((r,))
}

/// `after` is `before` with `continuation` registered under `d`'s token.
pub open spec fn registered<T, F: FnOnce(Result<T, Error>)>(
    before: Pending<T, F>,
    after: Pending<T, F>,
    d: Dispatch,
    continuation: F,
) -> bool {
    &&& after.wf()
    &&& !holds(before@, d.token)
    &&& after@ == before@.push((d.token, continuation))
    &&& after.spec_next_token() == before.spec_next_token() + 1
}

/// Registers `continuation` and pairs `request` with its token: the one way
/// in which every operation of this library is sent.
pub fn dispatch<T, F: FnOnce(Result<T, Error>)>(
    pending: &mut Pending<T, F>,
    request: Request,
    continuation: F,
) -> (d: Dispatch)
    requires
        can_dispatch(*old(pending), continuation),
    ensures
        registered(*old(pending), *final(pending), d, continuation),
        d.request == request,
{
    let token = pending.register(continuation);
    Dispatch { token, request }
}

} // verus!
