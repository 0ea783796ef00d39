use vstd::prelude::*;

use crate::decimal::{fits_i64, format_i64, int_text, lemma_int_text_round_trip, parse_i64, text_int};
use crate::error::Error;
use crate::keys::{distinct_keys, find_key, lemma_key_index};
use crate::schema::{Schema, SchemaAttributeType};

verus! {

/// The value of one attribute, tagged with its type.
#[derive(Clone, Debug, PartialEq, Eq)]
pub enum AttributeValue {
    Boolean(bool),
    Integer(i64),
    String(String),
}

/// What an attribute value denotes.
pub ghost enum AttributeModel {
    Boolean(bool),
    Integer(int),
    Text(Seq<char>),
}

impl View for AttributeValue {
    type V = AttributeModel;

    open spec fn view(&self) -> AttributeModel {
        match self {
            AttributeValue::Boolean(b) => AttributeModel::Boolean(*b),
            AttributeValue::Integer(v) => AttributeModel::Integer(*v as int),
            AttributeValue::String(s) => AttributeModel::Text(s@),
        }
    }
}

/// The schema type that a value has.
pub open spec fn model_type(v: AttributeModel) -> SchemaAttributeType {
    match v {
        AttributeModel::Boolean(_) => SchemaAttributeType::Boolean,
        AttributeModel::Integer(_) => SchemaAttributeType::Integer,
        AttributeModel::Text(_) => SchemaAttributeType::String,
    }
}

/// The text that carries a value to the service: `1` or `0` for a boolean,
/// decimal digits for an integer, a string as it is.
pub open spec fn model_text(v: AttributeModel) -> Seq<char> {
    match v {
        AttributeModel::Boolean(b) => if b {
            seq!['1']
        } else {
            seq!['0']
        },
        AttributeModel::Integer(i) => int_text(i),
        AttributeModel::Text(s) => s,
    }
}

/// The value that a text from the service carries for an attribute of type `t`.
pub open spec fn text_model(t: SchemaAttributeType, s: Seq<char>) -> Option<AttributeModel> {
    match t {
        SchemaAttributeType::Boolean => if s == seq!['1'] {
            Some(AttributeModel::Boolean(true))
        } else if s == seq!['0'] {
            Some(AttributeModel::Boolean(false))
        } else {
            None
        },
        SchemaAttributeType::Integer => match text_int(s) {
            Some(v) => if fits_i64(v) {
                Some(AttributeModel::Integer(v))
            } else {
                None
            },
            None => None,
        },
        SchemaAttributeType::String => Some(AttributeModel::Text(s)),
    }
}

/// No two pairs share a name.
pub open spec fn distinct_names<V>(s: Seq<(Seq<char>, V)>) -> bool {
    forall|i: int, j: int| 0 <= i < j < s.len() ==> #[trigger] s[i].0 != #[trigger] s[j].0
}

/// The flat form of attributes that the service stores and matches on.
pub open spec fn native_view(n: Seq<(String, String)>) -> Seq<(Seq<char>, Seq<char>)> {
    n.map_values(|e: (String, String)| (e.0@, e.1@))
}

/// Every attribute is declared by the schema with the type of its value.
pub open spec fn conforms(schema: Schema, a: Seq<(Seq<char>, AttributeModel)>) -> bool {
    forall|i: int| 0 <= i < a.len() ==> schema.type_of(#[trigger] a[i].0) == Some(model_type(a[i].1))
}

/// The flat form of `a` against `schema`; `None` when `a` does not conform.
pub open spec fn encode_spec(schema: Schema, a: Seq<(Seq<char>, AttributeModel)>) -> Option<
    Seq<(Seq<char>, Seq<char>)>,
> {
    if conforms(schema, a) {
        Some(a.map_values(|e: (Seq<char>, AttributeModel)| (e.0, model_text(e.1))))
    } else {
        None
    }
}

/// Every pair of `n` names a declared attribute and carries a text of its type.
pub open spec fn readable(schema: Schema, n: Seq<(Seq<char>, Seq<char>)>) -> bool {
    &&& distinct_names(n)
    &&& forall|i: int|
        0 <= i < n.len() ==> #[trigger] schema.type_of(n[i].0) is Some && text_model(
            schema.type_of(n[i].0)->0,
            n[i].1,
        ) is Some
}

/// The typed attributes that the flat form `n` carries; `None` when a name
/// repeats or is undeclared, or a text does not fit its type.
pub open spec fn decode_spec(schema: Schema, n: Seq<(Seq<char>, Seq<char>)>) -> Option<
    Seq<(Seq<char>, AttributeModel)>,
> {
    if readable(schema, n) {
        Some(
            n.map_values(
                |e: (Seq<char>, Seq<char>)| (e.0, text_model(schema.type_of(e.0)->0, e.1)->0),
            ),
        )
    } else {
        None
    }
}

/// A mapping from attribute names to typed values. Names are unique; the
/// order in which they were first inserted is kept.
#[derive(Clone, Debug)]
pub struct Attributes {
    entries: Vec<(String, AttributeValue)>,
}

impl View for Attributes {
    type V = Seq<(Seq<char>, AttributeModel)>;

    closed spec fn view(&self) -> Seq<(Seq<char>, AttributeModel)> {
        self.entries@.map_values(|e: (String, AttributeValue)| (e.0@, e.1@))
    }
}

impl Attributes {
    /// Names are unique.
    pub open spec fn wf(&self) -> bool {
        distinct_names(self@)
    }

    proof fn lemma_view(&self)
        ensures
            self@.len() == self.entries@.len(),
            forall|i: int|
                0 <= i < self@.len() ==> #[trigger] self@[i] == (
                    self.entries@[i].0@,
                    self.entries@[i].1@,
                ),
            self.wf() <==> distinct_keys(self.entries@),
    {
        if self.wf() {
            assert forall|i: int, j: int| 0 <= i < j < self.entries@.len() implies #[trigger] self.entries@[i].0@
                != #[trigger] self.entries@[j].0@ by {
                assert(self@[i].0 != self@[j].0);
            }
        }
        if distinct_keys(self.entries@) {
            assert forall|i: int, j: int| 0 <= i < j < self@.len() implies #[trigger] self@[i].0
                != #[trigger] self@[j].0 by {
                assert(self.entries@[i].0@ != self.entries@[j].0@);
            }
        }
    }

    /// No attributes.
    pub fn new() -> (r: Attributes)
        ensures
            r.wf(),
            r@ == Seq::<(Seq<char>, AttributeModel)>::empty(),
    {
        let r = Attributes { entries: Vec::new() };
        assert(r@ =~= Seq::<(Seq<char>, AttributeModel)>::empty());
        r
    }

    pub fn len(&self) -> (r: usize)
        ensures
            r == self@.len(),
    {
        proof {
            self.lemma_view();
        }
        self.entries.len()
    }

    /// The name and value at position `i`.
    pub fn entry(&self, i: usize) -> (r: (&String, &AttributeValue))
        requires
            i < self@.len(),
        ensures
            (r.0@, r.1@) == self@[i as int],
    {
        proof {
            self.lemma_view();
        }
        (&self.entries[i].0, &self.entries[i].1)
    }

    /// Sets `key` to `value`: in place where `key` is present, else at the end.
    pub fn insert(&mut self, key: String, value: AttributeValue)
        requires
            old(self).wf(),
        ensures
            final(self).wf(),
            (exists|i: int|
                0 <= i < old(self)@.len() && #[trigger] old(self)@[i].0 == key@ && final(self)@
                    == old(self)@.update(i, (key@, value@))) || ((forall|i: int|
                0 <= i < old(self)@.len() ==> #[trigger] old(self)@[i].0 != key@) && final(self)@
                == old(self)@.push((key@, value@))),
    {
        proof {
            self.lemma_view();
            lemma_key_index(self.entries@, key@);
        }
        let ghost before = self@;
        let ghost entries_before = self.entries@;
        match find_key(&self.entries, &key) {
            Some(i) => {
                self.entries.set(i, (key, value));
                proof {
                    self.lemma_view();
                    assert(self@ =~= before.update(i as int, (key@, value@)));
                    assert(entries_before[i as int].0@ == key@);
                    assert(before[i as int].0 == key@);
                    assert forall|a: int, b: int| 0 <= a < b < self.entries@.len() implies #[trigger] self.entries@[a].0@
                        != #[trigger] self.entries@[b].0@ by {
                        assert(entries_before[a].0@ != entries_before[b].0@);
                    }
                }
            },
            None => {
                self.entries.push((key, value));
                proof {
                    self.lemma_view();
                    assert(self@ =~= before.push((key@, value@)));
                    assert forall|i: int| 0 <= i < before.len() implies #[trigger] before[i].0
                        != key@ by {
                        if before[i].0 == key@ {
                            assert(entries_before[i].0@ == key@);
                        }
                    }
                    assert forall|a: int, b: int| 0 <= a < b < self.entries@.len() implies #[trigger] self.entries@[a].0@
                        != #[trigger] self.entries@[b].0@ by {
                        if b < entries_before.len() {
                            assert(entries_before[a].0@ != entries_before[b].0@);
                        } else {
                            assert(before[a].0 != key@);
                        }
                    }
                }
            },
        }
    }

    /// The value of `key`, if present.
    pub fn get(&self, key: &String) -> (r: Option<&AttributeValue>)
        ensures
            r matches Some(v) ==> exists|i: int|
                0 <= i < self@.len() && #[trigger] self@[i] == (key@, v@),
            r is None ==> forall|i: int| 0 <= i < self@.len() ==> #[trigger] self@[i].0 != key@,
    {
        proof {
            self.lemma_view();
            lemma_key_index(self.entries@, key@);
        }
        match find_key(&self.entries, key) {
            Some(i) => {
                assert(self@[i as int] == (key@, self.entries@[i as int].1@));
                Some(&self.entries[i].1)
            },
            None => {
                assert forall|i: int| 0 <= i < self@.len() implies #[trigger] self@[i].0 != key@ by {
                    if self@[i].0 == key@ {
                        assert(self.entries@[i].0@ == key@);
                    }
                }
                None
            },
        }
    }
}

/// The type of a value.
pub fn value_type(v: &AttributeValue) -> (r: SchemaAttributeType)
    ensures
        r == model_type(v@),
{
    match v {
        AttributeValue::Boolean(_) => SchemaAttributeType::Boolean,
        AttributeValue::Integer(_) => SchemaAttributeType::Integer,
        AttributeValue::String(_) => SchemaAttributeType::String,
    }
}

/// The text that carries `v` to the service.
pub fn value_text(v: &AttributeValue) -> (r: String)
    ensures
        r@ == model_text(v@),
{
    match v {
        AttributeValue::Boolean(b) => {
            proof {
                reveal_strlit("1");
                reveal_strlit("0");
            }
            if *b {
                String::from_str("1")
            } else {
                String::from_str("0")
            }
        },
        AttributeValue::Integer(i) => format_i64(*i),
        AttributeValue::String(s) => s.clone(),
    }
}

/// The value that the text `s` carries for an attribute of type `t`.
pub fn text_value(t: SchemaAttributeType, s: &String) -> (r: Option<AttributeValue>)
    ensures
        r matches Some(v) ==> text_model(t, s@) == Some(v@),
        r is None ==> text_model(t, s@) is None,
{
    match t {
        SchemaAttributeType::Boolean => {
            let n = s.as_str().unicode_len();
            if n == 1 && s.as_str().get_char(0) == '1' {
                assert(s@ =~= seq!['1']);
                Some(AttributeValue::Boolean(true))
            } else if n == 1 && s.as_str().get_char(0) == '0' {
                assert(s@ =~= seq!['0']);
                Some(AttributeValue::Boolean(false))
            } else {
                assert(s@ != seq!['1'] && s@ != seq!['0']) by {
                    if n == 1 {
                        assert(seq!['1'][0] == '1');
                        assert(seq!['0'][0] == '0');
                    }
                }
                None
            }
        },
        SchemaAttributeType::Integer => match parse_i64(s.as_str()) {
            Some(v) => Some(AttributeValue::Integer(v)),
            None => None,
        },
        SchemaAttributeType::String => Some(AttributeValue::String(s.clone())),
    }
}

/// The flat form of `attributes` against `schema`: each name with the text
/// of its value, in order. `SchemaMismatch`, before anything is sent, when a
/// name is not declared or a value has another type than its declaration.
pub fn encode(schema: &Schema, attributes: &Attributes) -> (r: Result<Vec<(String, String)>, Error>)
    ensures
        match r {
            Ok(n) => encode_spec(*schema, attributes@) == Some(native_view(n@)),
            Err(e) => e is SchemaMismatch && encode_spec(*schema, attributes@) is None,
        },
        (exists|i: int|
            0 <= i < attributes@.len() && #[trigger] schema.type_of(attributes@[i].0) is None)
            ==> (r matches Err(e) && e is SchemaMismatch),
{
    let ghost a = attributes@;
    let mut out: Vec<(String, String)> = Vec::new();
    let mut i: usize = 0;
    while i < attributes.len()
        invariant
            a == attributes@,
            i <= a.len(),
            native_view(out@) == a.take(i as int).map_values(
                |e: (Seq<char>, AttributeModel)| (e.0, model_text(e.1)),
            ),
            forall|j: int| 0 <= j < i ==> schema.type_of(#[trigger] a[j].0) == Some(model_type(a[j].1)),
        decreases a.len() - i,
    {
        let (key, value) = attributes.entry(i);
        match schema.attribute_type(key) {
            Some(t) => {
                if t != value_type(value) {
                    assert(schema.type_of(a[i as int].0) != Some(model_type(a[i as int].1)));
                    assert(!conforms(*schema, a));
                    return Err(Error::SchemaMismatch);
                }
            },
            None => {
                assert(schema.type_of(a[i as int].0) != Some(model_type(a[i as int].1)));
                assert(!conforms(*schema, a));
                return Err(Error::SchemaMismatch);
            },
        }
        let ghost before = out@;
        out.push((key.clone(), value_text(value)));
        i = i + 1;
        assert(native_view(out@) =~= native_view(before).push((a[i - 1].0, model_text(a[i - 1].1))));
        assert(a.take(i as int).map_values(|e: (Seq<char>, AttributeModel)| (e.0, model_text(e.1)))
            =~= a.take(i - 1).map_values(|e: (Seq<char>, AttributeModel)| (e.0, model_text(e.1))).push(
            (a[i - 1].0, model_text(a[i - 1].1)),
        ));
    }
    assert(a.take(i as int) =~= a);
    Ok(out)
}

/// The typed attributes that the flat form `native` carries against
/// `schema`. `DecodeError` when a name repeats or is not declared, or a text
/// does not fit the declared type.
pub fn decode(schema: &Schema, native: &Vec<(String, String)>) -> (r: Result<Attributes, Error>)
    ensures
        match r {
            Ok(a) => a.wf() && decode_spec(*schema, native_view(native@)) == Some(a@),
            Err(e) => e is DecodeError && decode_spec(*schema, native_view(native@)) is None,
        },
{
    let ghost n = native_view(native@);
    let mut out = Attributes { entries: Vec::new() };
    let mut i: usize = 0;
    while i < native.len()
        invariant
            n == native_view(native@),
            i <= native@.len(),
            distinct_names(n.take(i as int)),
            forall|j: int|
                0 <= j < i ==> #[trigger] schema.type_of(n[j].0) is Some && text_model(
                    schema.type_of(n[j].0)->0,
                    n[j].1,
                ) is Some,
            out@ == n.take(i as int).map_values(
                |e: (Seq<char>, Seq<char>)| (e.0, text_model(schema.type_of(e.0)->0, e.1)->0),
            ),
        decreases native@.len() - i,
    {
        let key = &native[i].0;
        assert(key@ == native@[i as int].0@);
        let mut j: usize = 0;
        while j < i
            invariant
                j <= i < native@.len(),
                n == native_view(native@),
                key@ == native@[i as int].0@,
                forall|m: int| 0 <= m < j ==> #[trigger] n[m].0 != n[i as int].0,
            decreases i - j,
        {
            assert(n[j as int] == (native@[j as int].0@, native@[j as int].1@));
            assert(n[i as int] == (native@[i as int].0@, native@[i as int].1@));
            if native[j].0 == *key {
                assert(n[j as int].0 == n[i as int].0);
                assert(!distinct_names(n));
                return Err(Error::DecodeError);
            }
            j = j + 1;
        }
        let t = match schema.attribute_type(key) {
            Some(t) => t,
            None => {
                assert(!readable(*schema, n));
                return Err(Error::DecodeError);
            },
        };
        let value = match text_value(t, &native[i].1) {
            Some(v) => v,
            None => {
                assert(!readable(*schema, n));
                return Err(Error::DecodeError);
            },
        };
        let ghost before = out@;
        proof {
            out.lemma_view();
        }
        out.entries.push((key.clone(), value));
        proof {
            out.lemma_view();
            assert(out@ =~= before.push((n[i as int].0, text_model(t, n[i as int].1)->0)));
            let t2 = n.take(i + 1);
            assert forall|a: int, b: int| 0 <= a < b < t2.len() implies #[trigger] t2[a].0
                != #[trigger] t2[b].0 by {
                if b < i {
                    assert(n.take(i as int)[a] == t2[a]);
                    assert(n.take(i as int)[b] == t2[b]);
                }
            }
        }
        i = i + 1;
        assert(n.take(i as int).map_values(
            |e: (Seq<char>, Seq<char>)| (e.0, text_model(schema.type_of(e.0)->0, e.1)->0),
        ) =~= n.take(i - 1).map_values(
            |e: (Seq<char>, Seq<char>)| (e.0, text_model(schema.type_of(e.0)->0, e.1)->0),
        ).push((n[i - 1].0, text_model(schema.type_of(n[i - 1].0)->0, n[i - 1].1)->0)));
    }
    assert(n.take(i as int) =~= n);
    Ok(out)
}

/// Attributes that conform to a schema come back unchanged when their flat
/// form is read against the same schema.
pub proof fn lemma_round_trip(schema: Schema, attributes: Attributes)
    requires
        attributes.wf(),
        conforms(schema, attributes@),
    ensures
        encode_spec(schema, attributes@) matches Some(n) && decode_spec(schema, n) == Some(
            attributes@,
        ),
{
    let a = attributes@;
    attributes.lemma_view();
    let n = encode_spec(schema, a)->0;
    assert forall|i: int| 0 <= i < n.len() implies #[trigger] schema.type_of(n[i].0) is Some
        && text_model(schema.type_of(n[i].0)->0, n[i].1) == Some(a[i].1) by {
        assert(n[i] == (a[i].0, model_text(a[i].1)));
        assert(schema.type_of(a[i].0) == Some(model_type(a[i].1)));
        match a[i].1 {
            AttributeModel::Integer(v) => {
                lemma_int_text_round_trip(v);
                assert(a[i] == (attributes.entries@[i].0@, attributes.entries@[i].1@));
            },
            AttributeModel::Boolean(b) => {
                assert(seq!['0'] != seq!['1']) by {
                    assert(seq!['0'][0] != seq!['1'][0]);
                }
            },
            AttributeModel::Text(_) => {},
        }
    }
    assert forall|i: int, j: int| 0 <= i < j < n.len() implies #[trigger] n[i].0 != #[trigger] n[j].0 by {
        assert(a[i].0 != a[j].0);
    }
    assert(readable(schema, n));
    assert(n.map_values(
        |e: (Seq<char>, Seq<char>)| (e.0, text_model(schema.type_of(e.0)->0, e.1)->0),
    ) =~= a);
}

} // verus!
