use vstd::prelude::*;

use crate::attributes::{decode, decode_spec, native_view, Attributes};
use crate::bridge::Pending;
use crate::error::Error;
use crate::request::{can_dispatch, dispatch, registered, Dispatch, Request};
use crate::schema::Schema;

verus! {

/// One stored secret, as the service last reported it: the object that
/// holds it, its label, its attributes in flat form, and its secret when it
/// was loaded.
#[derive(Clone, Debug)]
pub struct Item {
    pub path: String,
    pub label: String,
    pub attributes: Vec<(String, String)>,
    pub secret: Option<String>,
}

/// A copy of flat attributes.
pub fn copy_attributes(n: &Vec<(String, String)>) -> (r: Vec<(String, String)>)
    ensures
        r@ == n@,
{
    let mut r: Vec<(String, String)> = Vec::new();
    let mut i: usize = 0;
    while i < n.len()
        invariant
            i <= n@.len(),
            r@ == n@.take(i as int),
        decreases n@.len() - i,
    {
        r.push((n[i].0.clone(), n[i].1.clone()));
        i = i + 1;
        assert(r@ =~= n@.take(i as int));
    }
    assert(n@.take(i as int) =~= n@);
    r
}

/// The two items agree in every field.
pub open spec fn same_item(a: Item, b: Item) -> bool {
    a.path == b.path && a.label == b.label && a.attributes@ == b.attributes@ && a.secret == b.secret
}

/// A copy of an item.
pub fn copy_item(item: &Item) -> (r: Item)
    ensures
        same_item(r, *item),
{
    let secret = match &item.secret {
        Some(t) => Some(t.clone()),
        None => None,
    };
    Item {
        path: item.path.clone(),
        label: item.label.clone(),
        attributes: copy_attributes(&item.attributes),
        secret,
    }
}

impl Item {
    pub fn get_label(&self) -> (r: &str)
        ensures
            r@ == self.label@,
    {
        self.label.as_str()
    }

    /// The secret, when it was loaded with the item.
    pub fn get_secret(&self) -> (r: Option<&String>)
        ensures
            match self.secret {
                Some(t) => r == Some(&t),
                None => r is None,
            },
    {
        self.secret.as_ref()
    }

    /// A copy of the item's attributes, in flat form; no call to the service.
    pub fn get_attributes(&self) -> (r: Vec<(String, String)>)
        ensures
            r@ == self.attributes@,
    {
        copy_attributes(&self.attributes)
    }

    /// The item's attributes read against `schema`.
    pub fn typed_attributes(&self, schema: &Schema) -> (r: Result<Attributes, Error>)
        ensures
            match r {
                Ok(a) => a.wf() && decode_spec(*schema, native_view(self.attributes@)) == Some(a@),
                Err(e) => e is DecodeError && decode_spec(*schema, native_view(self.attributes@))
                    is None,
            },
    {
        decode(schema, &self.attributes)
    }

    /// Asks the service to delete the item; `callback` gets the outcome.
    pub fn delete<F: FnOnce(Result<bool, Error>)>(
        &self,
        callback: F,
        pending: &mut Pending<bool, F>,
    ) -> (d: Dispatch)
        requires
            can_dispatch(*old(pending), callback),
        ensures
            registered(*old(pending), *final(pending), d, callback),
            d.request matches Request::DeleteItem { item } && item@ == self.path@,
    {
        dispatch(pending, Request::DeleteItem { item: self.path.clone() }, callback)
    }
}

} // verus!
