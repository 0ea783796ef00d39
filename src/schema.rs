use vstd::prelude::*;

use crate::error::Error;
use crate::keys::{distinct_keys, find_key, key_index};

verus! {

/// The type of value that a schema declares for an attribute.
#[derive(Clone, Copy, Debug, PartialEq, Eq, Structural)]
pub enum SchemaAttributeType {
    String,
    Integer,
    Boolean,
}

/// The type declared for `k` in a list of declarations.
pub open spec fn declared_type(types: Seq<(String, SchemaAttributeType)>, k: Seq<char>) -> Option<
    SchemaAttributeType,
> {
    let i = key_index(types, k);
    if i < 0 {
        None
    } else {
        Some(types[i].1)
    }
}

/// A text that the service can take: nonempty, with no NUL character.
pub open spec fn valid_name(s: Seq<char>) -> bool {
    s.len() > 0 && forall|i: int| 0 <= i < s.len() ==> #[trigger] s[i] != '\0'
}

/// Declarations that a schema accepts: distinct valid names.
pub open spec fn valid_declarations(types: Seq<(String, SchemaAttributeType)>) -> bool {
    &&& distinct_keys(types)
    &&& forall|i: int| 0 <= i < types.len() ==> valid_name(#[trigger] types[i].0@)
}

/// A named declaration of the attributes that a family of secrets carries,
/// and of the type of each. Immutable once built.
#[derive(Clone, Debug)]
pub struct Schema {
    name: String,
    attribute_types: Vec<(String, SchemaAttributeType)>,
}

pub fn is_valid_name(s: &str) -> (r: bool)
    ensures
        r == valid_name(s@),
{
    let n = s.unicode_len();
    if n == 0 {
        return false;
    }
    let mut i: usize = 0;
    while i < n
        invariant
            i <= n,
            n == s@.len(),
            forall|j: int| 0 <= j < i ==> #[trigger] s@[j] != '\0',
        decreases n - i,
    {
        if s.get_char(i) == '\0' {
            return false;
        }
        i = i + 1;
    }
    true
}

impl Schema {
    /// The schema's name.
    pub closed spec fn spec_name(&self) -> Seq<char> {
        self.name@
    }

    /// The declarations, in the order given.
    pub closed spec fn declarations(&self) -> Seq<(String, SchemaAttributeType)> {
        self.attribute_types@
    }

    /// The type declared for `k`, if `k` is declared.
    pub open spec fn type_of(&self, k: Seq<char>) -> Option<SchemaAttributeType> {
        declared_type(self.declarations(), k)
    }

    pub open spec fn wf(&self) -> bool {
        valid_name(self.spec_name()) && valid_declarations(self.declarations())
    }

    /// Builds a schema; `InvalidSchema` when the name is empty or holds a NUL
    /// character, or the attribute names are not distinct valid names.
    pub fn new(name: &str, attribute_types: Vec<(String, SchemaAttributeType)>) -> (r: Result<
        Schema,
        Error,
    >)
        ensures
            r is Ok <==> valid_name(name@) && valid_declarations(attribute_types@),
            r matches Ok(s) ==> s.wf() && s.spec_name() == name@ && s.declarations()
                == attribute_types@,
            r matches Err(e) ==> e is InvalidSchema,
    {
        if !is_valid_name(name) {
            return Err(Error::InvalidSchema);
        }
        let mut i: usize = 0;
        while i < attribute_types.len()
            invariant
                i <= attribute_types@.len(),
                distinct_keys(attribute_types@.take(i as int)),
                forall|j: int| 0 <= j < i ==> valid_name(#[trigger] attribute_types@[j].0@),
            decreases attribute_types@.len() - i,
        {
            if !is_valid_name(attribute_types[i].0.as_str()) {
                return Err(Error::InvalidSchema);
            }
            let mut j: usize = 0;
            while j < i
                invariant
                    j <= i < attribute_types@.len(),
                    forall|m: int| 0 <= m < j ==> #[trigger] attribute_types@[m].0@
                        != attribute_types@[i as int].0@,
                decreases i - j,
            {
                if attribute_types[j].0 == attribute_types[i].0 {
                    assert(!distinct_keys(attribute_types@));
                    return Err(Error::InvalidSchema);
                }
                j = j + 1;
            }
            proof {
                let t = attribute_types@.take(i as int + 1);
                assert forall|a: int, b: int| 0 <= a < b < t.len() implies #[trigger] t[a].0@
                    != #[trigger] t[b].0@ by {
                    if b < i {
                        assert(attribute_types@.take(i as int)[a] == t[a]);
                        assert(attribute_types@.take(i as int)[b] == t[b]);
                    }
                }
            }
            i = i + 1;
        }
        assert(attribute_types@.take(i as int) =~= attribute_types@);
        Ok(Schema { name: name.to_owned(), attribute_types })
    }

    pub fn name(&self) -> (r: &str)
        ensures
            r@ == self.spec_name(),
    {
        self.name.as_str()
    }

    /// The declarations, in the order given.
    pub fn attribute_types(&self) -> (r: &Vec<(String, SchemaAttributeType)>)
        ensures
            r@ == self.declarations(),
    {
        &self.attribute_types
    }

    /// The type declared for `key`, if it is declared.
    pub fn attribute_type(&self, key: &String) -> (r: Option<SchemaAttributeType>)
        ensures
            r == self.type_of(key@),
    {
        match find_key(&self.attribute_types, key) {
            Some(i) => Some(self.attribute_types[i].1),
            None => None,
        }
    }
}

} // verus!
