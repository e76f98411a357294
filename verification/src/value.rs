//! The untyped runtime value handed to the validation core, and its
//! mathematical model.

use vstd::prelude::*;

verus! {

broadcast use vstd::seq::axiom_seq_index_decreases, vstd::seq::axiom_seq_subrange_decreases, vstd::std_specs::vec::group_vec_axioms;

/// An untyped runtime value: a tree of null, booleans, integers, strings,
/// ordered arrays and keyed objects.
pub enum JsonValue {
    Null,
    Bool(bool),
    Int(i64),
    Str(String),
    Array(Vec<JsonValue>),
    Object(Vec<ObjectField>),
}

/// One key/value pair of an object node.
pub struct ObjectField {
    pub key: String,
    pub value: JsonValue,
}

/// Mathematical model of a runtime value.
pub enum SpecValue {
    Null,
    Bool(bool),
    Int(int),
    Str(Seq<char>),
    Array(Seq<SpecValue>),
    Object(Seq<(Seq<char>, SpecValue)>),
}

pub open spec fn view_value(v: JsonValue) -> SpecValue
    decreases v,
{
    match v {
        JsonValue::Null => SpecValue::Null,
        JsonValue::Bool(b) => SpecValue::Bool(b),
        JsonValue::Int(i) => SpecValue::Int(i as int),
        JsonValue::Str(s) => SpecValue::Str(s@),
        JsonValue::Array(elems) => SpecValue::Array(view_list(elems@)),
        JsonValue::Object(fields) => SpecValue::Object(view_fields(fields@)),
    }
}

pub open spec fn view_list(elems: Seq<JsonValue>) -> Seq<SpecValue>
    decreases elems,
{
    if elems.len() == 0 {
        Seq::empty()
    } else {
        seq![view_value(elems.first())] + view_list(elems.drop_first())
    }
}

pub open spec fn view_fields(fields: Seq<ObjectField>) -> Seq<(Seq<char>, SpecValue)>
    decreases fields,
{
    if fields.len() == 0 {
        Seq::empty()
    } else {
        seq![(fields.first().key@, view_value(fields.first().value))] + view_fields(
            fields.drop_first(),
        )
    }
}

impl DeepView for ObjectField {
    type V = (Seq<char>, SpecValue);

    open spec fn deep_view(&self) -> (Seq<char>, SpecValue) {
        (self.key@, view_value(self.value))
    }
}

impl DeepView for JsonValue {
    type V = SpecValue;

    open spec fn deep_view(&self) -> SpecValue {
        view_value(*self)
    }
}

pub broadcast proof fn lemma_view_list_len(elems: Seq<JsonValue>)
    ensures
        #[trigger] view_list(elems).len() == elems.len(),
    decreases elems,
{
    if elems.len() > 0 {
        lemma_view_list_len(elems.drop_first());
    }
}

pub broadcast proof fn lemma_view_list_index(elems: Seq<JsonValue>, i: int)
    requires
        0 <= i < elems.len(),
    ensures
        view_list(elems).len() == elems.len(),
        #[trigger] view_list(elems)[i] == view_value(elems[i]),
    decreases elems,
{
    lemma_view_list_len(elems);
    if i > 0 {
        lemma_view_list_index(elems.drop_first(), i - 1);
    }
}

pub broadcast proof fn lemma_view_fields_len(fields: Seq<ObjectField>)
    ensures
        #[trigger] view_fields(fields).len() == fields.len(),
    decreases fields,
{
    if fields.len() > 0 {
        lemma_view_fields_len(fields.drop_first());
    }
}

pub broadcast proof fn lemma_view_fields_index(fields: Seq<ObjectField>, i: int)
    requires
        0 <= i < fields.len(),
    ensures
        view_fields(fields).len() == fields.len(),
        #[trigger] view_fields(fields)[i] == (fields[i].key@, view_value(fields[i].value)),
    decreases fields,
{
    lemma_view_fields_len(fields);
    if i > 0 {
        lemma_view_fields_index(fields.drop_first(), i - 1);
    }
}

/// Whether an object field list binds the given key.
pub open spec fn spec_has_key(fields: Seq<(Seq<char>, SpecValue)>, key: Seq<char>) -> bool {
    exists|i: int| 0 <= i < fields.len() && fields[i].0 == key
}

/// The value bound to the first occurrence of the given key.
pub open spec fn spec_lookup(fields: Seq<(Seq<char>, SpecValue)>, key: Seq<char>) -> SpecValue
    decreases fields,
{
    if fields.len() == 0 {
        SpecValue::Null
    } else if fields.first().0 == key {
        fields.first().1
    } else {
        spec_lookup(fields.drop_first(), key)
    }
}

/// Index of the first field bound to `key`, if any.
pub fn find_key(fields: &Vec<ObjectField>, key: &String) -> (r: Option<usize>)
    ensures
        match r {
            Some(i) => {
                &&& i < fields@.len()
                &&& fields@[i as int].key@ == key@
                &&& forall|j: int| 0 <= j < i ==> fields@[j].key@ != key@
                &&& view_value(fields@[i as int].value) == spec_lookup(
                    view_fields(fields@),
                    key@,
                )
            },
            None => !spec_has_key(view_fields(fields@), key@),
        },
{
    let mut i: usize = 0;
    while i < fields.len()
        invariant
            i <= fields@.len(),
            forall|j: int| 0 <= j < i ==> fields@[j].key@ != key@,
        decreases fields@.len() - i,
    {
        if fields[i].key.eq(key) {
            proof {
                lemma_view_fields_index(fields@, i as int);
                assert forall|j: int| 0 <= j < i implies view_fields(fields@)[j].0 != key@ by {
                    lemma_view_fields_index(fields@, j);
                }
                lemma_lookup_at_first_match(view_fields(fields@), key@, i as int);
            }
            return Some(i);
        }
        i = i + 1;
    }
    proof {
        lemma_view_fields_len(fields@);
        assert forall|j: int| 0 <= j < view_fields(fields@).len() implies view_fields(
            fields@,
        )[j].0 != key@ by {
            lemma_view_fields_index(fields@, j);
        }
    }
    None
}

/// If `i` is the first index whose key matches, the lookup yields that value.
proof fn lemma_lookup_at_first_match(fields: Seq<(Seq<char>, SpecValue)>, key: Seq<char>, i: int)
    requires
        0 <= i < fields.len(),
        fields[i].0 == key,
        forall|j: int| 0 <= j < i ==> fields[j].0 != key,
    ensures
        spec_lookup(fields, key) == fields[i].1,
    decreases fields,
{
    if i > 0 {
        lemma_lookup_at_first_match(fields.drop_first(), key, i - 1);
    }
}

/// Keys of an object are pairwise distinct.
pub open spec fn keys_unique(fields: Seq<(Seq<char>, SpecValue)>) -> bool {
    forall|i: int, j: int| 0 <= i < j < fields.len() ==> fields[i].0 != fields[j].0
}

/// Well-formedness of a runtime value: every object binds each key at most
/// once.
pub open spec fn wf_value(v: SpecValue) -> bool
    decreases v,
{
    match v {
        SpecValue::Array(elems) => wf_list(elems),
        SpecValue::Object(fields) => keys_unique(fields) && wf_fields(fields),
        _ => true,
    }
}

pub open spec fn wf_list(elems: Seq<SpecValue>) -> bool
    decreases elems,
{
    if elems.len() == 0 {
        true
    } else {
        wf_value(elems.first()) && wf_list(elems.drop_first())
    }
}

pub open spec fn wf_fields(fields: Seq<(Seq<char>, SpecValue)>) -> bool
    decreases fields,
{
    if fields.len() == 0 {
        true
    } else {
        wf_value(fields.first().1) && wf_fields(fields.drop_first())
    }
}

pub broadcast proof fn lemma_wf_list_index(elems: Seq<SpecValue>, i: int)
    requires
        0 <= i < elems.len(),
        wf_list(elems),
    ensures
        #[trigger] wf_value(elems[i]),
    decreases elems,
{
    if i > 0 {
        lemma_wf_list_index(elems.drop_first(), i - 1);
    }
}

pub broadcast proof fn lemma_wf_fields_index(fields: Seq<(Seq<char>, SpecValue)>, i: int)
    requires
        0 <= i < fields.len(),
        wf_fields(fields),
    ensures
        #[trigger] wf_value(fields[i].1),
    decreases fields,
{
    if i > 0 {
        lemma_wf_fields_index(fields.drop_first(), i - 1);
    }
}

proof fn lemma_wf_list_from_index(elems: Seq<SpecValue>)
    requires
        forall|i: int| 0 <= i < elems.len() ==> wf_value(#[trigger] elems[i]),
    ensures
        wf_list(elems),
    decreases elems,
{
    if elems.len() > 0 {
        assert forall|i: int| 0 <= i < elems.drop_first().len() implies wf_value(
            #[trigger] elems.drop_first()[i],
        ) by {
            assert(elems.drop_first()[i] == elems[i + 1]);
        }
        lemma_wf_list_from_index(elems.drop_first());
    }
}

proof fn lemma_wf_fields_from_index(fields: Seq<(Seq<char>, SpecValue)>)
    requires
        forall|i: int| 0 <= i < fields.len() ==> wf_value(#[trigger] fields[i].1),
    ensures
        wf_fields(fields),
    decreases fields,
{
    if fields.len() > 0 {
        assert forall|i: int| 0 <= i < fields.drop_first().len() implies wf_value(
            #[trigger] fields.drop_first()[i].1,
        ) by {
            assert(fields.drop_first()[i] == fields[i + 1]);
        }
        lemma_wf_fields_from_index(fields.drop_first());
    }
}

/// Whether a runtime value is well formed: no object node binds a key twice.
#[verifier::loop_isolation(false)]
pub fn value_wf(v: &JsonValue) -> (b: bool)
    ensures
        b == wf_value(view_value(*v)),
    decreases *v,
{
    match v {
        JsonValue::Array(elems) => {
            let mut i: usize = 0;
            while i < elems.len()
                invariant
                    i <= elems@.len(),
                    forall|j: int| 0 <= j < i ==> wf_value(view_value(#[trigger] elems@[j])),
                decreases elems@.len() - i,
            {
                proof {
                    assert(decreases_to!(*v => v->Array_0));
                    assert(decreases_to!(v->Array_0 => v->Array_0@));
                    assert(decreases_to!(v->Array_0@ => v->Array_0@[i as int]));
                }
                if !value_wf(&elems[i]) {
                    proof {
                        lemma_view_list_index(elems@, i as int);
                        if wf_list(view_list(elems@)) {
                            lemma_wf_list_index(view_list(elems@), i as int);
                        }
                    }
                    return false;
                }
                i = i + 1;
            }
            proof {
                lemma_view_list_len(elems@);
                assert forall|j: int| 0 <= j < view_list(elems@).len() implies wf_value(
                    #[trigger] view_list(elems@)[j],
                ) by {
                    lemma_view_list_index(elems@, j);
                }
                lemma_wf_list_from_index(view_list(elems@));
            }
            true
        },
        JsonValue::Object(fields) => {
            let mut i: usize = 0;
            while i < fields.len()
                invariant
                    i <= fields@.len(),
                    forall|j: int| 0 <= j < i ==> wf_value(view_value(#[trigger] fields@[j].value)),
                    forall|p: int, q: int|
                        0 <= p < q < fields@.len() && p < i ==> fields@[p].key@ != fields@[q].key@,
                decreases fields@.len() - i,
            {
                let mut j: usize = i + 1;
                while j < fields.len()
                    invariant
                        i < j,
                        i < fields@.len(),
                        j <= fields@.len(),
                        forall|q: int| i < q < j ==> fields@[i as int].key@ != fields@[q].key@,
                    decreases fields@.len() - j,
                {
                    if fields[i].key.eq(&fields[j].key) {
                        proof {
                            lemma_view_fields_len(fields@);
                            lemma_view_fields_index(fields@, i as int);
                            lemma_view_fields_index(fields@, j as int);
                        }
                        return false;
                    }
                    j = j + 1;
                }
                proof {
                    assert(decreases_to!(*v => v->Object_0));
                    assert(decreases_to!(v->Object_0 => v->Object_0@));
                    assert(decreases_to!(v->Object_0@ => v->Object_0@[i as int]));
                    assert(decreases_to!(v->Object_0@[i as int] => v->Object_0@[i as int].value));
                }
                if !value_wf(&fields[i].value) {
                    proof {
                        lemma_view_fields_index(fields@, i as int);
                        if wf_fields(view_fields(fields@)) {
                            lemma_wf_fields_index(view_fields(fields@), i as int);
                        }
                    }
                    return false;
                }
                i = i + 1;
            }
            proof {
                lemma_view_fields_len(fields@);
                assert forall|j: int| 0 <= j < view_fields(fields@).len() implies wf_value(
                    #[trigger] view_fields(fields@)[j].1,
                ) by {
                    lemma_view_fields_index(fields@, j);
                }
                lemma_wf_fields_from_index(view_fields(fields@));
                assert forall|p: int, q: int|
                    0 <= p < q < view_fields(fields@).len() implies view_fields(fields@)[p].0
                    != view_fields(fields@)[q].0 by {
                    lemma_view_fields_index(fields@, p);
                    lemma_view_fields_index(fields@, q);
                }
            }
            true
        },
        _ => true,
    }
}

} // verus!
