//! The commands the bot knows, with their guards and help texts.
use vstd::prelude::*;
use crate::error::BotError;
use crate::parse::{body_of, name_of, parse_invocation, prefix_len, Invocation, Prefix};
use crate::text::same_chars;

verus! {

/// Who may run a command.
pub enum Guard {
    /// Anyone.
    AlwaysAllow,
    /// Members holding the role of this name only.
    RequiresRole(Vec<char>),
}

/// The outcome of a guard for one member.
pub enum GuardDecision {
    Allow,
    Deny,
    /// The guard could not be evaluated.
    Failed(BotError),
}

/// Whether `g` lets a member holding `roles` through, where `role` is the
/// identifier the role store gave for the guard's role, if it gave one.
pub open spec fn allows(g: Guard, role: Option<u64>, roles: Seq<u64>) -> bool {
    match g {
        Guard::AlwaysAllow => true,
        Guard::RequiresRole(_) => role is Some && roles.contains(role->Some_0),
    }
}

/// The decision of `g` for a member holding `roles`, given what the role
/// store answered (`None` where it was not asked).
pub open spec fn decision(
    g: Guard,
    lookup: Option<Result<u64, BotError>>,
    roles: Seq<u64>,
) -> GuardDecision {
    match g {
        Guard::AlwaysAllow => GuardDecision::Allow,
        Guard::RequiresRole(_) => match lookup {
            Some(Ok(id)) => if roles.contains(id) {
                GuardDecision::Allow
            } else {
                GuardDecision::Deny
            },
            Some(Err(e)) => GuardDecision::Failed(e),
            None => GuardDecision::Deny,
        },
    }
}

/// Whether `x` is among `roles`.
fn holds_role(roles: &Vec<u64>, x: u64) -> (r: bool)
    ensures
        r == roles@.contains(x),
{
    let mut i: usize = 0;
    while i < roles.len()
        invariant
            i <= roles@.len(),
            forall|j: int| 0 <= j < i ==> roles@[j] != x,
        decreases roles@.len() - i,
    {
        if roles[i] == x {
            return true;
        }
        i = i + 1;
    }
    false
}

impl Guard {
    /// The role that must be looked up before the guard can decide.
    pub fn role_needed(&self) -> (r: Option<&Vec<char>>)
        ensures
            match self {
                Guard::AlwaysAllow => r is None,
                Guard::RequiresRole(n) => r == Some(n),
            },
    {
        match self {
            Guard::AlwaysAllow => None,
            Guard::RequiresRole(n) => Some(n),
        }
    }

    /// Evaluates the guard for a member holding `roles`, where `lookup` is
    /// what the role store answered for the guard's role (`None` where it
    /// was not asked, which denies a guard that needs a role).
    pub fn evaluate(&self, lookup: Option<Result<u64, BotError>>, roles: &Vec<u64>) -> (r:
        GuardDecision)
        ensures
            r == decision(*self, lookup, roles@),
    {
        match self {
            Guard::AlwaysAllow => GuardDecision::Allow,
            Guard::RequiresRole(_) => match lookup {
                Some(Ok(id)) => if holds_role(roles, id) {
                    GuardDecision::Allow
                } else {
                    GuardDecision::Deny
                },
                Some(Err(e)) => GuardDecision::Failed(e),
                None => GuardDecision::Deny,
            },
        }
    }

    /// Whether the guard lets a member holding `roles` through, where `role`
    /// is the identifier looked up for its role, if any.
    pub fn allows_member(&self, role: Option<u64>, roles: &Vec<u64>) -> (r: bool)
        ensures
            r == allows(*self, role, roles@),
    {
        match self {
            Guard::AlwaysAllow => true,
            Guard::RequiresRole(_) => match role {
                Some(id) => holds_role(roles, id),
                None => false,
            },
        }
    }
}

/// A registered command.
pub struct CommandSpec {
    pub name: Vec<char>,
    pub short_help: Vec<char>,
    pub long_help: Vec<char>,
    pub guard: Guard,
}

/// Whether no two of `cmds` share a name.
pub open spec fn names_unique(cmds: Seq<CommandSpec>) -> bool {
    forall|i: int, j: int|
        0 <= i < cmds.len() && 0 <= j < cmds.len() && i != j ==> cmds[i].name@ != cmds[j].name@
}

/// Whether one of `cmds` is named `name`.
pub open spec fn has_name(cmds: Seq<CommandSpec>, name: Seq<char>) -> bool {
    exists|i: int| 0 <= i < cmds.len() && cmds[i].name@ == name
}

/// The index of the command named `name` in `cmds`, searched from the start.
fn index_of(cmds: &Vec<CommandSpec>, name: &Vec<char>) -> (r: Option<usize>)
    ensures
        match r {
            Some(i) => i < cmds@.len() && cmds@[i as int].name@ == name@,
            None => !has_name(cmds@, name@),
        },
{
    let mut i: usize = 0;
    while i < cmds.len()
        invariant
            i <= cmds@.len(),
            forall|j: int| 0 <= j < i ==> cmds@[j].name@ != name@,
        decreases cmds@.len() - i,
    {
        if same_chars(&cmds[i].name, name) {
            return Some(i);
        }
        i = i + 1;
    }
    None
}

/// Whether `after` is `before` with one more command at its end, named
/// `name`, guarded by `guard` and with no help text.
pub open spec fn added(
    before: Seq<CommandSpec>,
    after: Seq<CommandSpec>,
    name: Seq<char>,
    guard: Guard,
) -> bool {
    &&& after.len() == before.len() + 1
    &&& after.drop_last() == before
    &&& after.last().name@ == name
    &&& after.last().guard == guard
    &&& after.last().short_help@.len() == 0
    &&& after.last().long_help@.len() == 0
}

/// Whether `after` is `before` with the help texts set where it is named
/// `name`, and unchanged otherwise.
pub open spec fn helped(
    before: CommandSpec,
    after: CommandSpec,
    name: Seq<char>,
    short_help: Seq<char>,
    long_help: Seq<char>,
) -> bool {
    if before.name@ == name {
        &&& after.name == before.name
        &&& after.guard == before.guard
        &&& after.short_help@ == short_help
        &&& after.long_help@ == long_help
    } else {
        after == before
    }
}

/// Collects the commands at startup; `build` then makes them read-only.
pub struct RegistryBuilder {
    commands: Vec<CommandSpec>,
}

impl View for RegistryBuilder {
    type V = Seq<CommandSpec>;

    closed spec fn view(&self) -> Seq<CommandSpec> {
        self.commands@
    }
}

impl RegistryBuilder {
    pub closed spec fn wf(&self) -> bool {
        names_unique(self.commands@)
    }

    /// A builder with no command.
    pub fn new() -> (r: RegistryBuilder)
        ensures
            r@ == Seq::<CommandSpec>::empty(),
            r.wf(),
    {
        RegistryBuilder { commands: Vec::new() }
    }

    fn add(&mut self, name: Vec<char>, guard: Guard) -> (r: bool)
        requires
            old(self).wf(),
        ensures
            final(self).wf(),
            r == !has_name(old(self)@, name@),
            r ==> added(old(self)@, final(self)@, name@, guard),
            !r ==> final(self)@ == old(self)@,
    {
        match index_of(&self.commands, &name) {
            Some(_) => false,
            None => {
                let c = CommandSpec { name, short_help: Vec::new(), long_help: Vec::new(), guard };
                self.commands.push(c);
                assert(self@.drop_last() =~= old(self)@);
                true
            },
        }
    }

    /// Registers a command that anyone may run, with no help text yet;
    /// refused (`false`, nothing changed) where the name is taken.
    pub fn register(&mut self, name: Vec<char>) -> (r: bool)
        requires
            old(self).wf(),
        ensures
            final(self).wf(),
            r == !has_name(old(self)@, name@),
            r ==> added(old(self)@, final(self)@, name@, Guard::AlwaysAllow),
            !r ==> final(self)@ == old(self)@,
    {
        self.add(name, Guard::AlwaysAllow)
    }

    /// Registers a command that only members holding the role named `role`
    /// may run; refused (`false`, nothing changed) where the name is taken.
    pub fn register_protected(&mut self, name: Vec<char>, role: Vec<char>) -> (r: bool)
        requires
            old(self).wf(),
        ensures
            final(self).wf(),
            r == !has_name(old(self)@, name@),
            r ==> added(old(self)@, final(self)@, name@, Guard::RequiresRole(role)),
            !r ==> final(self)@ == old(self)@,
    {
        self.add(name, Guard::RequiresRole(role))
    }

    /// Sets the help texts of the command named `name`; `false`, with
    /// nothing changed, where there is none.
    pub fn attach_help(&mut self, name: &Vec<char>, short_help: Vec<char>, long_help: Vec<char>) -> (r:
        bool)
        requires
            old(self).wf(),
        ensures
            final(self).wf(),
            r == has_name(old(self)@, name@),
            final(self)@.len() == old(self)@.len(),
            forall|i: int|
                0 <= i < old(self)@.len() ==> #[trigger] helped(
                    old(self)@[i],
                    final(self)@[i],
                    name@,
                    short_help@,
                    long_help@,
                ),
    {
        match index_of(&self.commands, name) {
            None => false,
            Some(i) => {
                let ghost before = self.commands@;
                let mut c = self.commands.remove(i);
                c.short_help = short_help;
                c.long_help = long_help;
                self.commands.insert(i, c);
                proof {
                    assert forall|j: int| 0 <= j < before.len() && j != i implies before[j].name@
                        != name@ by {
                        assert(before[i as int].name@ == name@);
                    }
                    assert forall|a: int, b: int|
                        0 <= a < self.commands@.len() && 0 <= b < self.commands@.len() && a != b
                        implies self.commands@[a].name@ != self.commands@[b].name@ by {
                        assert(self.commands@[a].name == before[a].name);
                        assert(self.commands@[b].name == before[b].name);
                    }
                }
                true
            },
        }
    }

    /// The registry, read-only from here on.
    pub fn build(self) -> (r: Registry)
        requires
            self.wf(),
        ensures
            r@ == self@,
            r.wf(),
    {
        Registry { commands: self.commands }
    }
}

/// The commands, in the order they were registered; no command is added or
/// changed after startup.
pub struct Registry {
    commands: Vec<CommandSpec>,
}

impl View for Registry {
    type V = Seq<CommandSpec>;

    closed spec fn view(&self) -> Seq<CommandSpec> {
        self.commands@
    }
}

impl Registry {
    pub closed spec fn wf(&self) -> bool {
        names_unique(self.commands@)
    }

    /// The number of commands.
    pub fn len(&self) -> (r: usize)
        ensures
            r == self@.len(),
    {
        self.commands.len()
    }

    /// The command at `i`.
    pub fn command(&self, i: usize) -> (r: &CommandSpec)
        requires
            i < self@.len(),
        ensures
            *r == self@[i as int],
    {
        &self.commands[i]
    }

    /// The index of the command named `name` (names compare exactly).
    pub fn find(&self, name: &Vec<char>) -> (r: Option<usize>)
        ensures
            match r {
                Some(i) => i < self@.len() && self@[i as int].name@ == name@,
                None => !has_name(self@, name@),
            },
    {
        index_of(&self.commands, name)
    }

    /// The command that `text` invokes, with the parsed invocation; `None`
    /// where no prefix matches or no command has the name asked for.
    pub fn resolve(&self, prefixes: &Vec<Prefix>, text: &Vec<char>) -> (r: Option<(usize, Invocation)>)
        ensures
            r is None <==> (prefix_len(prefixes@, text@) is None || !has_name(
                self@,
                name_of(text@.subrange(prefix_len(prefixes@, text@)->Some_0 as int, text@.len() as int)),
            )),
            r is Some ==> ({
                let (i, inv) = r->Some_0;
                let n = prefix_len(prefixes@, text@)->Some_0;
                &&& i < self@.len()
                &&& inv.prefix_len == n
                &&& self@[i as int].name@ == inv.name@
                &&& inv.name@ == name_of(text@.subrange(n as int, text@.len() as int))
                &&& inv.body@ == body_of(text@.subrange(n as int, text@.len() as int))
            }),
    {
        match parse_invocation(prefixes, text) {
            None => None,
            Some(inv) => match self.find(&inv.name) {
                Some(i) => Some((i, inv)),
                None => None,
            },
        }
    }
}

} // verus!
