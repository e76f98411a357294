//! Rendering a runtime value back into document text, used when a violation
//! message names the offending value.

use vstd::prelude::*;
use vstd::string::StringExecFns;

use crate::text::spec_idec;
use crate::text::spec_quote;
use crate::text::append_quoted;
use crate::text::render_i64;
use crate::value::JsonValue;
use crate::value::SpecValue;
use crate::value::lemma_view_fields_index;
use crate::value::lemma_view_fields_len;
use crate::value::lemma_view_list_index;
use crate::value::lemma_view_list_len;
use crate::value::view_fields;
use crate::value::view_list;
use crate::value::view_value;

verus! {

broadcast use vstd::seq::axiom_seq_index_decreases, vstd::seq::axiom_seq_subrange_decreases, vstd::std_specs::vec::group_vec_axioms;

/// The rendered text of a value.
pub open spec fn spec_render(v: SpecValue) -> Seq<char>
    decreases v, 0nat,
{
    match v {
        SpecValue::Null => "null"@,
        SpecValue::Bool(b) => if b {
            "true"@
        } else {
            "false"@
        },
        SpecValue::Int(i) => spec_idec(i),
        SpecValue::Str(s) => spec_quote(s),
        SpecValue::Array(elems) => "["@ + spec_render_items_from(elems, 0) + "]"@,
        SpecValue::Object(fields) => "{"@ + spec_render_entries_from(fields, 0) + "}"@,
    }
}

/// The rendered items of an array from position `i` on, comma separated.
pub open spec fn spec_render_items_from(items: Seq<SpecValue>, i: int) -> Seq<char>
    decreases items, items.len() - i,
{
    if i < 0 || i >= items.len() {
        Seq::empty()
    } else if i == items.len() - 1 {
        spec_render(items[i])
    } else {
        spec_render(items[i]) + ","@ + spec_render_items_from(items, i + 1)
    }
}

/// The rendered entries of an object from position `i` on, comma separated;
/// an entry is the quoted key, a colon and the rendered value.
pub open spec fn spec_render_entries_from(fields: Seq<(Seq<char>, SpecValue)>, i: int) -> Seq<char>
    decreases fields, fields.len() - i,
{
    if i < 0 || i >= fields.len() {
        Seq::empty()
    } else if i == fields.len() - 1 {
        spec_quote(fields[i].0) + ":"@ + spec_render(fields[i].1)
    } else {
        spec_quote(fields[i].0) + ":"@ + spec_render(fields[i].1) + ","@
            + spec_render_entries_from(fields, i + 1)
    }
}

/// Appends the rendered text of `v` to `out`.
pub fn append_value(out: &mut String, v: &JsonValue)
    ensures
        final(out)@ == old(out)@ + spec_render(view_value(*v)),
    decreases *v, 0nat,
{
    match v {
        JsonValue::Null => {
            out.append("null");
        },
        JsonValue::Bool(b) => {
            if *b {
                out.append("true");
            } else {
                out.append("false");
            }
        },
        JsonValue::Int(i) => {
            let digits = render_i64(*i);
            out.append(digits.as_str());
        },
        JsonValue::Str(s) => {
            append_quoted(out, s.as_str());
        },
        JsonValue::Array(elems) => {
            out.append("[");
            proof {
                assert(decreases_to!(*v => v->Array_0));
                assert(decreases_to!(v->Array_0 => v->Array_0@));
            }
            append_items_from(out, elems, 0);
            out.append("]");
            proof {
                assert(out@ =~= old(out)@ + spec_render(view_value(*v)));
            }
        },
        JsonValue::Object(fields) => {
            out.append("{");
            proof {
                assert(decreases_to!(*v => v->Object_0));
                assert(decreases_to!(v->Object_0 => v->Object_0@));
            }
            append_entries_from(out, fields, 0);
            out.append("}");
            proof {
                assert(out@ =~= old(out)@ + spec_render(view_value(*v)));
            }
        },
    }
}

fn append_items_from(out: &mut String, elems: &Vec<JsonValue>, i: usize)
    ensures
        final(out)@ == old(out)@ + spec_render_items_from(view_list(elems@), i as int),
    decreases elems@, elems@.len() - i,
{
    proof {
        lemma_view_list_len(elems@);
    }
    if i >= elems.len() {
        proof {
            assert(out@ =~= old(out)@ + spec_render_items_from(view_list(elems@), i as int));
        }
        return ;
    }
    proof {
        lemma_view_list_index(elems@, i as int);
        assert(decreases_to!(elems@ => elems@[i as int]));
    }
    append_value(out, &elems[i]);
    if i + 1 < elems.len() {
        out.append(",");
        append_items_from(out, elems, i + 1);
        proof {
            assert(out@ =~= old(out)@ + spec_render_items_from(view_list(elems@), i as int));
        }
    } else {
        proof {
            assert(out@ =~= old(out)@ + spec_render_items_from(view_list(elems@), i as int));
        }
    }
}

fn append_entries_from(out: &mut String, fields: &Vec<crate::value::ObjectField>, i: usize)
    ensures
        final(out)@ == old(out)@ + spec_render_entries_from(view_fields(fields@), i as int),
    decreases fields@, fields@.len() - i,
{
    proof {
        lemma_view_fields_len(fields@);
    }
    if i >= fields.len() {
        proof {
            assert(out@ =~= old(out)@ + spec_render_entries_from(view_fields(fields@), i as int));
        }
        return ;
    }
    proof {
        lemma_view_fields_index(fields@, i as int);
        assert(decreases_to!(fields@ => fields@[i as int]));
        assert(decreases_to!(fields@[i as int] => fields@[i as int].value));
    }
    append_quoted(out, fields[i].key.as_str());
    out.append(":");
    append_value(out, &fields[i].value);
    if i + 1 < fields.len() {
        out.append(",");
        append_entries_from(out, fields, i + 1);
        proof {
            assert(out@ =~= old(out)@ + spec_render_entries_from(view_fields(fields@), i as int));
        }
    } else {
        proof {
            assert(out@ =~= old(out)@ + spec_render_entries_from(view_fields(fields@), i as int));
        }
    }
}

/// The rendered text of a value, as a fresh string.
pub fn render_value(v: &JsonValue) -> (s: String)
    ensures
        s@ == spec_render(view_value(*v)),
{
    let mut s = String::new();
    append_value(&mut s, v);
    proof {
        assert(s@ =~= spec_render(view_value(*v)));
    }
    s
}

} // verus!
