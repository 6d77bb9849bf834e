use vstd::prelude::*;
use vstd::multiset::Multiset;

verus! {

/// A parsed message body: the command to run and the arguments asked for.
/// It comes from the queue and is not trusted.
#[derive(Clone, Debug)]
pub struct JobRequest {
    pub name: String,
    pub args: Vec<String>,
}

/// A registered command: its name, the program to start and the arguments it
/// may be given.
#[derive(Clone, Debug)]
pub struct CommandSpec {
    pub name: String,
    pub program: String,
    pub allowed_args: Vec<String>,
}

/// The mathematical value of a `JobRequest`.
pub struct JobModel {
    pub name: Seq<char>,
    pub args: Seq<Seq<char>>,
}

/// The mathematical value of a `CommandSpec`.
pub struct CommandModel {
    pub name: Seq<char>,
    pub program: Seq<char>,
    pub allowed_args: Seq<Seq<char>>,
}

pub open spec fn strings_view(v: Seq<String>) -> Seq<Seq<char>> {
    v.map_values(|s: String| s@)
}

impl View for JobRequest {
    type V = JobModel;

    open spec fn view(&self) -> JobModel {
        JobModel { name: self.name@, args: strings_view(self.args@) }
    }
}

impl View for CommandSpec {
    type V = CommandModel;

    open spec fn view(&self) -> CommandModel {
        CommandModel {
            name: self.name@,
            program: self.program@,
            allowed_args: strings_view(self.allowed_args@),
        }
    }
}

/// The requested arguments that occur in the whitelist, in the order of the
/// request, each whitelisted occurrence kept.
pub open spec fn filtered(args: Seq<Seq<char>>, allowed: Seq<Seq<char>>) -> Seq<Seq<char>>
    decreases args.len(),
{
    if args.len() == 0 {
        Seq::empty()
    } else if allowed.contains(args.last()) {
        filtered(args.drop_last(), allowed).push(args.last())
    } else {
        filtered(args.drop_last(), allowed)
    }
}

/// `sub` is `full` with some elements left out, the rest in their order.
pub open spec fn is_subsequence(sub: Seq<Seq<char>>, full: Seq<Seq<char>>) -> bool
    decreases full.len(),
{
    if sub.len() == 0 {
        true
    } else if full.len() == 0 {
        false
    } else {
        (sub.last() == full.last() && is_subsequence(sub.drop_last(), full.drop_last()))
            || is_subsequence(sub, full.drop_last())
    }
}

/// Filtering keeps the request's arguments that the whitelist holds and only
/// those: each one occurs in the result as often as in the request when it is
/// whitelisted, and not at all when it is not; and the kept arguments stand
/// in the order of the request.
pub proof fn lemma_filter_keeps_whitelisted(
    args: Seq<Seq<char>>,
    allowed: Seq<Seq<char>>,
    x: Seq<char>,
)
    ensures
        filtered(args, allowed).to_multiset().count(x) == if allowed.contains(x) {
            args.to_multiset().count(x)
        } else {
            0
        },
        forall|i: int|
            0 <= i < filtered(args, allowed).len() ==> allowed.contains(
                #[trigger] filtered(args, allowed)[i],
            ),
        is_subsequence(filtered(args, allowed), args),
    decreases args.len(),
{
    broadcast use vstd::seq_lib::group_to_multiset_ensures, vstd::multiset::group_multiset_axioms;

    if args.len() == 0 {
        assert(filtered(args, allowed).to_multiset() =~= Multiset::empty());
        assert(args.to_multiset() =~= Multiset::empty());
    } else {
        let p = args.drop_last();
        let l = args.last();
        lemma_filter_keeps_whitelisted(p, allowed, x);
        assert(args =~= p.push(l));
        let f = filtered(args, allowed);
        let fp = filtered(p, allowed);
        assert(args.drop_last() == p);
        if allowed.contains(l) {
            assert(f == fp.push(l));
            assert(f.drop_last() =~= fp);
            assert forall|i: int| 0 <= i < f.len() implies allowed.contains(#[trigger] f[i]) by {
                if i < fp.len() {
                    assert(f[i] == fp[i]);
                }
            }
        }
    }
}

impl JobRequest {
    pub fn new(name: String, args: Vec<String>) -> (r: JobRequest)
        ensures
            r.name == name,
            r.args == args,
    {
        JobRequest { name, args }
    }
}

impl CommandSpec {
    pub fn new(name: String, program: String, allowed_args: Vec<String>) -> (r: CommandSpec)
        ensures
            r.name == name,
            r.program == program,
            r.allowed_args == allowed_args,
    {
        CommandSpec { name, program, allowed_args }
    }

    /// Whether `arg` is one of the whitelisted arguments.
    pub fn allows(&self, arg: &String) -> (r: bool)
        ensures
            r == self@.allowed_args.contains(arg@),
    {
        let mut i: usize = 0;
        while i < self.allowed_args.len()
            invariant
                0 <= i <= self.allowed_args.len(),
                forall|j: int| 0 <= j < i ==> self.allowed_args@[j]@ != arg@,
            decreases self.allowed_args.len() - i,
        {
            if self.allowed_args[i] == *arg {
                assert(strings_view(self.allowed_args@)[i as int] == arg@);
                return true;
            }
            i += 1;
        }
        assert forall|j: int| 0 <= j < strings_view(self.allowed_args@).len()
            implies strings_view(self.allowed_args@)[j] != arg@ by {}
        false
    }

    /// The arguments of `requested` that this command allows, in their order,
    /// duplicates kept where each occurrence is allowed.
    pub fn filter_args(&self, requested: &Vec<String>) -> (r: Vec<String>)
        ensures
            strings_view(r@) == filtered(strings_view(requested@), self@.allowed_args),
    {
        let mut out: Vec<String> = Vec::new();
        let mut i: usize = 0;
        while i < requested.len()
            invariant
                0 <= i <= requested.len(),
                strings_view(out@) == filtered(
                    strings_view(requested@).take(i as int),
                    self@.allowed_args,
                ),
            decreases requested.len() - i,
        {
            let ghost req = strings_view(requested@);
            assert(req.take(i + 1).drop_last() =~= req.take(i as int));
            let keep = self.allows(&requested[i]);
            if keep {
                out.push(requested[i].clone());
            }
            assert(strings_view(out@) =~= filtered(req.take(i + 1), self@.allowed_args));
            i += 1;
        }
        assert(strings_view(requested@).take(requested.len() as int) =~= strings_view(
            requested@,
        ));
        out
    }
}

} // verus!
