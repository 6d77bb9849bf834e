use vstd::prelude::*;
use vstd::string::*;
use crate::job::{JobRequest, JobModel};

verus! {

/// The JSON string literal that denotes `s`, quotes and escapes included.
pub uninterp spec fn json_string_literal(s: Seq<char>) -> Seq<char>;

/// Relies on serde_json's `Display` for `Value::String`: it writes `s` as one
/// JSON string literal, which depends on the characters of `s` alone.
#[verifier::external_body]
fn quote(s: &String) -> (r: String)
    ensures
        r@ == json_string_literal(s@),
{
    serde_json::Value::String(s.clone()).to_string()
}

/// The string literals of `args`, separated by commas.
pub open spec fn joined_literals(args: Seq<Seq<char>>) -> Seq<char>
    decreases args.len(),
{
    if args.len() == 0 {
        Seq::empty()
    } else if args.len() == 1 {
        json_string_literal(args[0])
    } else {
        joined_literals(args.drop_last()) + ",".view() + json_string_literal(args.last())
    }
}

/// The wire form of a job: `{"name":<literal>,"args":[<literal>,...]}`, the
/// schema of inbound messages and of dead-letter reports alike.
pub open spec fn wire_text(j: JobModel) -> Seq<char> {
    "{\"name\":".view() + json_string_literal(j.name) + ",\"args\":[".view()
        + joined_literals(j.args) + "]}".view()
}

/// Writes `job` in the wire form, for the dead-letter queue.
pub fn encode_job(job: &JobRequest) -> (r: String)
    ensures
        r@ == wire_text(job@),
{
    let mut out = String::from_str("{\"name\":");
    let name = quote(&job.name);
    out.append(name.as_str());
    out.append(",\"args\":[");
    let ghost head = out@;
    let ghost args = job@.args;
    let mut i: usize = 0;
    while i < job.args.len()
        invariant
            0 <= i <= job.args.len(),
            args == job@.args,
            out@ == head + joined_literals(args.take(i as int)),
        decreases job.args.len() - i,
    {
        let lit = quote(&job.args[i]);
        let ghost before = out@;
        if i > 0 {
            out.append(",");
        }
        out.append(lit.as_str());
        proof {
            let t = args.take(i + 1);
            assert(t.drop_last() =~= args.take(i as int));
            assert(args[i as int] == job.args@[i as int]@);
            if i == 0 {
                assert(joined_literals(args.take(0)) =~= Seq::empty());
                assert(out@ =~= head + joined_literals(t));
            } else {
                assert(out@ =~= head + joined_literals(t));
            }
        }
        i += 1;
    }
    assert(args.take(job.args.len() as int) =~= args);
    out.append("]}");
    proof {
        reveal_strlit("{\"name\":");
        reveal_strlit(",\"args\":[");
        reveal_strlit("]}");
        reveal_strlit(",");
    }
    assert(out@ =~= wire_text(job@));
    out
}

} // verus!
