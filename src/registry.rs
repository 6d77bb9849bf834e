use vstd::prelude::*;
use crate::job::{CommandSpec, CommandModel, strings_view};

verus! {

pub open spec fn commands_view(v: Seq<CommandSpec>) -> Seq<CommandModel> {
    v.map_values(|c: CommandSpec| c@)
}

/// No two commands share a name.
pub open spec fn names_unique(cmds: Seq<CommandModel>) -> bool {
    forall|i: int, j: int|
        0 <= i < cmds.len() && 0 <= j < cmds.len() && i != j ==> cmds[i].name != cmds[j].name
}

pub open spec fn has_command(cmds: Seq<CommandModel>, name: Seq<char>) -> bool {
    exists|i: int| 0 <= i < cmds.len() && cmds[i].name == name
}

/// The command registered under `name`, found by exact match.
pub open spec fn lookup(cmds: Seq<CommandModel>, name: Seq<char>) -> Option<CommandModel> {
    if has_command(cmds, name) {
        Some(cmds[choose|i: int| 0 <= i < cmds.len() && cmds[i].name == name])
    } else {
        None
    }
}

/// The first name that occurs twice in `cmds`, if any.
pub open spec fn first_repeated(cmds: Seq<CommandModel>) -> Option<Seq<char>>
    decreases cmds.len(),
{
    if cmds.len() == 0 {
        None
    } else {
        let rest = cmds.drop_last();
        match first_repeated(rest) {
            Some(n) => Some(n),
            None => if has_command(rest, cmds.last().name) {
                Some(cmds.last().name)
            } else {
                None
            },
        }
    }
}

/// Why a list of commands cannot form a registry.
#[derive(Clone, Debug)]
pub enum RegistryError {
    DuplicateName(String),
}

/// The commands this worker runs, each under a name of its own.
pub struct Registry {
    commands: Vec<CommandSpec>,
}

impl View for Registry {
    type V = Seq<CommandModel>;

    closed spec fn view(&self) -> Seq<CommandModel> {
        commands_view(self.commands@)
    }
}

proof fn lemma_unique_prefix(cmds: Seq<CommandModel>, n: int)
    requires
        0 <= n <= cmds.len(),
        first_repeated(cmds.take(n)) is None,
    ensures
        names_unique(cmds.take(n)),
    decreases n,
{
    if n > 0 {
        let p = cmds.take(n);
        assert(p.drop_last() =~= cmds.take(n - 1));
        lemma_unique_prefix(cmds, n - 1);
        assert(!has_command(p.drop_last(), p.last().name));
        assert forall|i: int, j: int|
            0 <= i < p.len() && 0 <= j < p.len() && i != j implies p[i].name != p[j].name by {
            if i == n - 1 {
                assert(p.drop_last()[j] == p[j]);
            } else if j == n - 1 {
                assert(p.drop_last()[i] == p[i]);
            } else {
                assert(p.drop_last()[i] == p[i] && p.drop_last()[j] == p[j]);
            }
        }
    }
}

proof fn lemma_repeated_prefix(cmds: Seq<CommandModel>, m: int)
    requires
        0 <= m <= cmds.len(),
        first_repeated(cmds.take(m)) is Some,
    ensures
        first_repeated(cmds) == first_repeated(cmds.take(m)),
    decreases cmds.len() - m,
{
    if m < cmds.len() {
        assert(cmds.take(m + 1).drop_last() =~= cmds.take(m));
        lemma_repeated_prefix(cmds, m + 1);
    } else {
        assert(cmds.take(m) =~= cmds);
    }
}

impl Registry {
    pub open spec fn wf(&self) -> bool {
        names_unique(self@)
    }

    /// A registry over `commands`; refused with the first name that occurs a
    /// second time.
    pub fn new(commands: Vec<CommandSpec>) -> (r: Result<Registry, RegistryError>)
        ensures
            match r {
                Ok(reg) => reg.wf() && reg@ == commands_view(commands@)
                    && first_repeated(commands_view(commands@)) is None,
                Err(RegistryError::DuplicateName(n)) => first_repeated(commands_view(commands@))
                    == Some(n@),
            },
    {
        let ghost all = commands_view(commands@);
        let mut k: usize = 0;
        while k < commands.len()
            invariant
                0 <= k <= commands.len(),
                all == commands_view(commands@),
                first_repeated(all.take(k as int)) is None,
            decreases commands.len() - k,
        {
            let ghost p = all.take(k + 1);
            assert(p.drop_last() =~= all.take(k as int));
            let mut j: usize = 0;
            while j < k
                invariant
                    0 <= j <= k < commands.len(),
                    all == commands_view(commands@),
                    p == all.take(k + 1),
                    first_repeated(all.take(k as int)) is None,
                    forall|m: int| 0 <= m < j ==> all[m].name != all[k as int].name,
                decreases k - j,
            {
                if commands[j].name == commands[k].name {
                    proof {
                        assert(all[j as int] == commands@[j as int]@);
                        assert(all[k as int] == commands@[k as int]@);
                        assert(p.last() == all[k as int]);
                        assert(p.drop_last()[j as int].name == p.last().name);
                        assert(has_command(p.drop_last(), p.last().name));
                        assert(p.drop_last() =~= all.take(k as int));
                        assert(first_repeated(p) == Some(all[k as int].name));
                        lemma_repeated_prefix(all, k + 1);
                    }
                    return Err(RegistryError::DuplicateName(commands[k].name.clone()));
                }
                j += 1;
            }
            assert(!has_command(p.drop_last(), p.last().name)) by {
                if has_command(p.drop_last(), p.last().name) {
                    let m = choose|m: int|
                        0 <= m < p.drop_last().len() && p.drop_last()[m].name == p.last().name;
                    assert(all[m].name == all[k as int].name);
                }
            }
            k += 1;
        }
        assert(all.take(commands.len() as int) =~= all);
        proof {
            lemma_unique_prefix(all, all.len() as int);
        }
        Ok(Registry { commands })
    }

    /// The registered commands, in the order they were given.
    pub fn commands(&self) -> (r: &Vec<CommandSpec>)
        ensures
            commands_view(r@) == self@,
    {
        &self.commands
    }

    /// The command registered under exactly `name`.
    pub fn find(&self, name: &String) -> (r: Option<&CommandSpec>)
        requires
            self.wf(),
        ensures
            match r {
                Some(c) => lookup(self@, name@) == Some(c@),
                None => lookup(self@, name@) is None,
            },
    {
        let mut i: usize = 0;
        while i < self.commands.len()
            invariant
                0 <= i <= self.commands.len(),
                self.wf(),
                forall|j: int| 0 <= j < i ==> self@[j].name != name@,
            decreases self.commands.len() - i,
        {
            if self.commands[i].name == *name {
                proof {
                    assert(self@[i as int] == self.commands@[i as int]@);
                    assert(self@[i as int].name == name@);
                    let k = choose|k: int| 0 <= k < self@.len() && self@[k].name == name@;
                    if k != i {
                        assert(self@[k].name != self@[i as int].name);
                    }
                }
                return Some(&self.commands[i]);
            }
            i += 1;
        }
        None
    }
}

} // verus!
