//! The error model: ordered violation records, the three caller-visible
//! failure kinds, and the stable machine-parsable rendering of a report.

use vstd::prelude::*;
use vstd::string::StringExecFns;

use crate::text::spec_quote;
use crate::text::append_quoted;

verus! {

/// One structural rule failure: a message, a pointer into the runtime value
/// and a pointer into the schema document.
pub struct Violation {
    pub message: String,
    pub instance_location: String,
    pub keyword_location: String,
}

/// Mathematical model of a violation record.
pub struct SpecViolation {
    pub message: Seq<char>,
    pub instance_location: Seq<char>,
    pub keyword_location: Seq<char>,
}

impl DeepView for Violation {
    type V = SpecViolation;

    open spec fn deep_view(&self) -> SpecViolation {
        SpecViolation {
            message: self.message@,
            instance_location: self.instance_location@,
            keyword_location: self.keyword_location@,
        }
    }
}

/// The models of a sequence of violation records.
pub open spec fn views_of(s: Seq<Violation>) -> Seq<SpecViolation> {
    Seq::new(s.len(), |i: int| s[i].deep_view())
}

/// What a validation call reports when it does not produce a typed value.
///
/// The three kinds are mutually exclusive per call: the value could not be
/// materialized at all, the value failed structural validation, or the value
/// passed structural validation and failed a business rule of the target
/// type.
pub enum ValidationFailure {
    MalformedInput(String),
    SchemaViolation(Vec<Violation>),
    RuleViolation(Vec<Violation>),
}

/// One rendered record: the three fields as a keyed document entry.
pub open spec fn spec_record(v: SpecViolation) -> Seq<char> {
    "{\"error\":"@ + spec_quote(v.message) + ",\"instanceLocation\":"@ + spec_quote(
        v.instance_location,
    ) + ",\"keywordLocation\":"@ + spec_quote(v.keyword_location) + "}"@
}

/// The rendered records from position `i` on, comma separated.
pub open spec fn spec_report_from(vs: Seq<SpecViolation>, i: int) -> Seq<char>
    decreases vs.len() - i,
{
    if i < 0 || i >= vs.len() {
        Seq::empty()
    } else if i == vs.len() - 1 {
        spec_record(vs[i])
    } else {
        spec_record(vs[i]) + ","@ + spec_report_from(vs, i + 1)
    }
}

/// A whole report: the ordered records as a bracketed list.
pub open spec fn spec_report(vs: Seq<SpecViolation>) -> Seq<char> {
    "["@ + spec_report_from(vs, 0) + "]"@
}

fn append_record(out: &mut String, v: &Violation)
    ensures
        final(out)@ == old(out)@ + spec_record(v.deep_view()),
{
    out.append("{\"error\":");
    append_quoted(out, v.message.as_str());
    out.append(",\"instanceLocation\":");
    append_quoted(out, v.instance_location.as_str());
    out.append(",\"keywordLocation\":");
    append_quoted(out, v.keyword_location.as_str());
    out.append("}");
    proof {
        assert(out@ =~= old(out)@ + spec_record(v.deep_view()));
    }
}

#[verifier::loop_isolation(false)]
fn append_report_from(out: &mut String, vs: &Vec<Violation>, i: usize)
    ensures
        final(out)@ == old(out)@ + spec_report_from(views_of(vs@), i as int),
    decreases vs@.len() - i,
{
    if i >= vs.len() {
        proof {
            assert(out@ =~= old(out)@ + spec_report_from(views_of(vs@), i as int));
        }
        return ;
    }
    append_record(out, &vs[i]);
    if i + 1 < vs.len() {
        out.append(",");
        append_report_from(out, vs, i + 1);
        proof {
            assert(out@ =~= old(out)@ + spec_report_from(views_of(vs@), i as int));
        }
    } else {
        proof {
            assert(out@ =~= old(out)@ + spec_report_from(views_of(vs@), i as int));
        }
    }
}

/// Renders an ordered violation report in its stable machine-parsable shape.
pub fn render_report(vs: &Vec<Violation>) -> (s: String)
    ensures
        s@ == spec_report(views_of(vs@)),
{
    let mut s = String::new();
    s.append("[");
    append_report_from(&mut s, vs, 0);
    s.append("]");
    proof {
        assert(s@ =~= spec_report(views_of(vs@)));
    }
    s
}

impl ValidationFailure {
    /// The serializable payload of a failure: the raw description for
    /// malformed input, the rendered report for the two violation kinds.
    pub fn render(&self) -> (s: String)
        ensures
            match self {
                ValidationFailure::MalformedInput(m) => s@ == m@,
                ValidationFailure::SchemaViolation(vs) => s@ == spec_report(views_of(vs@)),
                ValidationFailure::RuleViolation(vs) => s@ == spec_report(views_of(vs@)),
            },
    {
        match self {
            ValidationFailure::MalformedInput(m) => m.clone(),
            ValidationFailure::SchemaViolation(vs) => render_report(vs),
            ValidationFailure::RuleViolation(vs) => render_report(vs),
        }
    }
}

} // verus!
