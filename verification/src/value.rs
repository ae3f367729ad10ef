//! The untyped tree value that validation reads.
//!
//! A [`Value`] is a JSON-like datum: null, boolean, number, string, array,
//! or object.  Numbers that fit a signed 64-bit integer are held as
//! [`Value::Int`]; any other number (too large, or fractional) is held as
//! [`Value::BigNumber`], which no coercion rule accepts.  Objects are held
//! as a sequence of key/value pairs; lookup takes the first pair with a
//! matching key.

use vstd::prelude::*;

verus! {

/// The mathematical model of a [`Value`]: the same tree over `Seq<char>`
/// strings and `Seq` collections.
pub enum SpecValue {
    Null,
    Bool(bool),
    Int(i64),
    BigNumber,
    Str(Seq<char>),
    Arr(Seq<SpecValue>),
    Obj(Seq<(Seq<char>, SpecValue)>),
}

/// An untyped tree value, read-only to the validator.
#[derive(Debug, PartialEq)]
pub enum Value {
    /// JSON `null`.
    Null,
    /// A boolean.
    Bool(bool),
    /// A number representable as a signed 64-bit integer.
    Int(i64),
    /// A number with no signed 64-bit integer representation.
    BigNumber,
    /// A string.
    Str(String),
    /// An ordered sequence of values.
    Arr(Vec<Value>),
    /// A mapping of field names to values, held in insertion order.
    Obj(Vec<(String, Value)>),
}

impl DeepView for Value {
    type V = SpecValue;

    open spec fn deep_view(&self) -> SpecValue
        decreases self,
    {
        match self {
            Value::Null => SpecValue::Null,
            Value::Bool(b) => SpecValue::Bool(*b),
            Value::Int(n) => SpecValue::Int(*n),
            Value::BigNumber => SpecValue::BigNumber,
            Value::Str(s) => SpecValue::Str(s@),
            Value::Arr(items) => SpecValue::Arr(arr_view(items@)),
            Value::Obj(fields) => SpecValue::Obj(obj_view(fields@)),
        }
    }
}

/// The models of the elements of an array, in order.
pub open spec fn arr_view(items: Seq<Value>) -> Seq<SpecValue>
    decreases items,
{
    if items.len() == 0 {
        Seq::empty()
    } else {
        seq![items[0].deep_view()] + arr_view(items.drop_first())
    }
}

/// The models of the fields of an object, in order.
pub open spec fn obj_view(fields: Seq<(String, Value)>) -> Seq<(Seq<char>, SpecValue)>
    decreases fields,
{
    if fields.len() == 0 {
        Seq::empty()
    } else {
        seq![(fields[0].0@, fields[0].1.deep_view())] + obj_view(fields.drop_first())
    }
}

/// The first value bound to `key` in a sequence of named entries, if any.
pub open spec fn spec_obj_get<V>(fields: Seq<(Seq<char>, V)>, key: Seq<char>) -> Option<V>
    decreases fields.len(),
{
    if fields.len() == 0 {
        None
    } else if fields[0].0 == key {
        Some(fields[0].1)
    } else {
        spec_obj_get(fields.drop_first(), key)
    }
}

/// A lookup skips a prefix none of whose keys match.
pub proof fn lemma_obj_get_skip_prefix<V>(a: Seq<(Seq<char>, V)>, b: Seq<(Seq<char>, V)>, key: Seq<char>)
    requires
        forall|i: int| 0 <= i < a.len() ==> a[i].0 != key,
    ensures
        spec_obj_get(a + b, key) == spec_obj_get(b, key),
    decreases a.len(),
{
    if a.len() == 0 {
        assert(a + b =~= b);
    } else {
        assert((a + b)[0] == a[0]);
        assert((a + b).drop_first() =~= a.drop_first() + b);
        lemma_obj_get_skip_prefix(a.drop_first(), b, key);
    }
}

/// A lookup among entries none of whose keys match finds nothing.
pub proof fn lemma_obj_get_none<V>(entries: Seq<(Seq<char>, V)>, key: Seq<char>)
    requires
        forall|i: int| 0 <= i < entries.len() ==> entries[i].0 != key,
    ensures
        spec_obj_get(entries, key) is None,
    decreases entries.len(),
{
    if entries.len() > 0 {
        lemma_obj_get_none(entries.drop_first(), key);
    }
}

/// A lookup that succeeds in a prefix is not affected by what follows it.
pub proof fn lemma_obj_get_in_prefix<V>(a: Seq<(Seq<char>, V)>, b: Seq<(Seq<char>, V)>, key: Seq<char>)
    requires
        spec_obj_get(a, key) is Some,
    ensures
        spec_obj_get(a + b, key) == spec_obj_get(a, key),
    decreases a.len(),
{
    if a.len() > 0 {
        assert((a + b)[0] == a[0]);
        if a[0].0 != key {
            assert((a + b).drop_first() =~= a.drop_first() + b);
            lemma_obj_get_in_prefix(a.drop_first(), b, key);
        }
    }
}

/// The length and entries of `obj_view`, stated pointwise.
pub proof fn lemma_obj_view_index(fields: Seq<(String, Value)>)
    ensures
        obj_view(fields).len() == fields.len(),
        forall|i: int|
            0 <= i < fields.len() ==> obj_view(fields)[i] == (
                fields[i].0@,
                fields[i].1.deep_view(),
            ),
    decreases fields,
{
    if fields.len() > 0 {
        lemma_obj_view_index(fields.drop_first());
        assert(obj_view(fields) == seq![(fields[0].0@, fields[0].1.deep_view())] + obj_view(
            fields.drop_first(),
        ));
        assert forall|i: int| 0 <= i < fields.len() implies obj_view(fields)[i] == (
            fields[i].0@,
            fields[i].1.deep_view(),
        ) by {
            if i > 0 {
                assert(obj_view(fields)[i] == obj_view(fields.drop_first())[i - 1]);
                assert(fields.drop_first()[i - 1] == fields[i]);
            }
        }
    }
}

/// The length and entries of `arr_view`, stated pointwise.
pub proof fn lemma_arr_view_index(items: Seq<Value>)
    ensures
        arr_view(items).len() == items.len(),
        forall|i: int| 0 <= i < items.len() ==> arr_view(items)[i] == items[i].deep_view(),
    decreases items,
{
    if items.len() > 0 {
        lemma_arr_view_index(items.drop_first());
        assert(arr_view(items) == seq![items[0].deep_view()] + arr_view(items.drop_first()));
        assert forall|i: int| 0 <= i < items.len() implies arr_view(items)[i]
            == items[i].deep_view() by {
            if i > 0 {
                assert(arr_view(items)[i] == arr_view(items.drop_first())[i - 1]);
                assert(items.drop_first()[i - 1] == items[i]);
            }
        }
    }
}

/// The field named `key` of an object, matching the first pair whose key is
/// equal; `None` on a missing key.
pub fn obj_get<'a>(fields: &'a Vec<(String, Value)>, key: &str) -> (r: Option<&'a Value>)
    ensures
        match r {
            Some(v) => spec_obj_get(obj_view(fields@), key@) == Some(v.deep_view()),
            None => spec_obj_get(obj_view(fields@), key@) is None,
        },
{
    let key_owned: String = key.to_owned();
    let ghost all: Seq<(Seq<char>, SpecValue)> = obj_view(fields@);
    proof {
        lemma_obj_view_index(fields@);
        assert(all.skip(0) =~= all);
    }
    let mut i: usize = 0;
    while i < fields.len()
        invariant
            i <= fields@.len(),
            all == obj_view(fields@),
            all.len() == fields@.len(),
            forall|j: int|
                0 <= j < all.len() ==> all[j] == (fields@[j].0@, fields@[j].1.deep_view()),
            key_owned@ == key@,
            spec_obj_get(all, key@) == spec_obj_get(all.skip(i as int), key@),
        decreases fields@.len() - i,
    {
        if fields[i].0 == key_owned {
            proof {
                assert(all.skip(i as int)[0] == all[i as int]);
                assert(spec_obj_get(all.skip(i as int), key@) == Some(all[i as int].1));
            }
            return Some(&fields[i].1);
        }
        proof {
            assert(all.skip(i as int)[0] == all[i as int]);
            assert(all.skip(i as int).drop_first() =~= all.skip(i as int + 1));
        }
        i = i + 1;
    }
    proof {
        assert(all.skip(i as int) =~= Seq::<(Seq<char>, SpecValue)>::empty());
    }
    None
}

impl Value {
    /// The field named `key`, when this value is an object that has one;
    /// `None` on a missing key or a non-object value.
    pub fn get<'a>(&'a self, key: &str) -> (r: Option<&'a Value>)
        ensures
            match self.deep_view() {
                SpecValue::Obj(entries) => match r {
                    Some(v) => spec_obj_get(entries, key@) == Some(v.deep_view()),
                    None => spec_obj_get(entries, key@) is None,
                },
                _ => r is None,
            },
    {
        match self {
            Value::Obj(fields) => obj_get(fields, key),
            _ => None,
        }
    }
}

} // verus!
