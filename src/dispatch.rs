//! The decisions taken for one invocation: whether the handler runs, what is
//! replied otherwise, and which commands a member's help menu lists.
use vstd::prelude::*;
use crate::error::{missing_permissions_text, BotError};
use crate::registry::{allows, decision, CommandSpec, Guard, GuardDecision, Registry};
use crate::text::{append, chars_of};

verus! {

/// The reply sent instead of running the handler, or `None` where the
/// handler is to run.
pub open spec fn gate_reply(d: GuardDecision) -> Option<Seq<char>> {
    match d {
        GuardDecision::Allow => None,
        GuardDecision::Deny => Some(missing_permissions_text()),
        GuardDecision::Failed(e) => Some(e.text()),
    }
}

/// What a decision leads to: `None` runs the handler; otherwise the text to
/// reply with, and the handler does not run.
pub fn gate(d: GuardDecision) -> (r: Option<Vec<char>>)
    ensures
        match gate_reply(d) {
            Some(t) => r is Some && r->Some_0@ == t,
            None => r is None,
        },
{
    match d {
        GuardDecision::Allow => None,
        GuardDecision::Deny => Some(BotError::MissingPermissions.render()),
        GuardDecision::Failed(e) => Some(e.render()),
    }
}

/// The text of the reply to a handler's result: its output, or the text of
/// its error.
pub open spec fn reply_text(result: Result<Vec<char>, BotError>) -> Seq<char> {
    match result {
        Ok(t) => t@,
        Err(e) => e.text(),
    }
}

/// Renders a handler's result as the text of one reply.
pub fn reply_for(result: Result<Vec<char>, BotError>) -> (r: Vec<char>)
    ensures
        r@ == reply_text(result),
{
    match result {
        Ok(t) => t,
        Err(e) => e.render(),
    }
}

/// Whether a member holding `roles` lacks every role that a guarded command
/// of `cmds` asks for, where `role_ids[i]` is the identifier looked up for
/// the role of command `i`.
pub open spec fn unprivileged(cmds: Seq<CommandSpec>, role_ids: Seq<Option<u64>>, roles: Seq<u64>) -> bool {
    forall|i: int|
        0 <= i < cmds.len() && #[trigger] cmds[i].guard is RequiresRole ==> !(role_ids[i] is Some
            && roles.contains(role_ids[i]->Some_0))
}

/// The indices, in order, of the first `n` commands whose guard lets the
/// member through.
pub open spec fn visible(
    cmds: Seq<CommandSpec>,
    role_ids: Seq<Option<u64>>,
    roles: Seq<u64>,
    n: int,
) -> Seq<usize>
    decreases n,
{
    if n <= 0 {
        Seq::empty()
    } else if allows(cmds[n - 1].guard, role_ids[n - 1], roles) {
        visible(cmds, role_ids, roles, n - 1).push((n - 1) as usize)
    } else {
        visible(cmds, role_ids, roles, n - 1)
    }
}

/// A command is listed exactly when its guard lets the member through.
pub proof fn lemma_visible_members(
    cmds: Seq<CommandSpec>,
    role_ids: Seq<Option<u64>>,
    roles: Seq<u64>,
    n: int,
)
    requires
        0 <= n <= cmds.len(),
        n <= role_ids.len(),
        n <= usize::MAX,
    ensures
        forall|x: usize|
            #[trigger] visible(cmds, role_ids, roles, n).contains(x) <==> (x < n && allows(
                cmds[x as int].guard,
                role_ids[x as int],
                roles,
            )),
    decreases n,
{
    if n > 0 {
        lemma_visible_members(cmds, role_ids, roles, n - 1);
        let v = visible(cmds, role_ids, roles, n - 1);
        let w = v.push((n - 1) as usize);
        if allows(cmds[n - 1].guard, role_ids[n - 1], roles) {
            assert forall|x: usize| #[trigger] w.contains(x) <==> (x < n && allows(
                cmds[x as int].guard,
                role_ids[x as int],
                roles,
            )) by {
                if x == (n - 1) as usize {
                    assert(w[v.len() as int] == x);
                }
                if w.contains(x) && x != (n - 1) as usize {
                    let k = choose|k: int| 0 <= k < w.len() && #[trigger] w[k] == x;
                    assert(k < v.len());
                    assert(v[k] == x);
                }
                if v.contains(x) {
                    let k = choose|k: int| 0 <= k < v.len() && #[trigger] v[k] == x;
                    assert(w[k] == x);
                }
            }
        }
    }
}

/// A help menu for a member without privilege lists no guarded command and
/// every unguarded one.
pub proof fn lemma_menu_hides_guarded(
    cmds: Seq<CommandSpec>,
    role_ids: Seq<Option<u64>>,
    roles: Seq<u64>,
)
    requires
        role_ids.len() == cmds.len(),
        cmds.len() <= usize::MAX,
        unprivileged(cmds, role_ids, roles),
    ensures
        forall|x: usize| #[trigger]
            visible(cmds, role_ids, roles, cmds.len() as int).contains(x) ==> cmds[x as int].guard
                is AlwaysAllow,
        forall|x: usize|
            x < cmds.len() && #[trigger] cmds[x as int].guard is AlwaysAllow ==> visible(
                cmds,
                role_ids,
                roles,
                cmds.len() as int,
            ).contains(x),
{
    lemma_visible_members(cmds, role_ids, roles, cmds.len() as int);
}

/// A guarded command invoked by a member without its role never reaches
/// its handler: the reply is the missing-permissions text.
pub proof fn lemma_guard_blocks(g: Guard, lookup: Option<Result<u64, BotError>>, roles: Seq<u64>)
    requires
        g is RequiresRole,
        match lookup {
            Some(Ok(id)) => !roles.contains(id),
            Some(Err(_)) => false,
            None => true,
        },
    ensures
        decision(g, lookup, roles) == GuardDecision::Deny,
        gate_reply(decision(g, lookup, roles)) == Some(missing_permissions_text()),
{
}

/// One line of a help menu.
pub open spec fn menu_line(c: CommandSpec) -> Seq<char> {
    c.name@ + ": "@ + c.short_help@ + "\n"@
}

/// The help menu listing the commands at `vis`, in that order.
pub open spec fn menu_text(cmds: Seq<CommandSpec>, vis: Seq<usize>) -> Seq<char>
    decreases vis.len(),
{
    if vis.len() == 0 {
        Seq::empty()
    } else {
        menu_text(cmds, vis.drop_last()) + menu_line(cmds[vis.last() as int])
    }
}

impl Registry {
    /// The decision of the guard of command `i` for a member holding `roles`.
    pub fn check_guard(&self, i: usize, lookup: Option<Result<u64, BotError>>, roles: &Vec<u64>) -> (r:
        Option<Vec<char>>)
        requires
            i < self@.len(),
        ensures
            match gate_reply(decision(self@[i as int].guard, lookup, roles@)) {
                Some(t) => r is Some && r->Some_0@ == t,
                None => r is None,
            },
    {
        let d = self.command(i).guard.evaluate(lookup, roles);
        gate(d)
    }

    /// The commands that a member holding `roles` may see in a help menu,
    /// in registration order; `role_ids[i]` is the identifier that the role
    /// store gave for the role of command `i`, if any.
    pub fn visible_commands(&self, role_ids: &Vec<Option<u64>>, roles: &Vec<u64>) -> (r: Vec<usize>)
        requires
            role_ids@.len() == self@.len(),
        ensures
            r@ == visible(self@, role_ids@, roles@, self@.len() as int),
    {
        let mut r: Vec<usize> = Vec::new();
        let mut i: usize = 0;
        while i < self.len()
            invariant
                i <= self@.len() == role_ids@.len(),
                r@ == visible(self@, role_ids@, roles@, i as int),
            decreases self@.len() - i,
        {
            if self.command(i).guard.allows_member(role_ids[i], roles) {
                r.push(i);
            }
            i = i + 1;
        }
        r
    }

    /// The help menu for a member holding `roles`: one line per command it
    /// may run, as `name: short help`, in registration order.
    pub fn help_menu(&self, role_ids: &Vec<Option<u64>>, roles: &Vec<u64>) -> (r: Vec<char>)
        requires
            role_ids@.len() == self@.len(),
        ensures
            r@ == menu_text(self@, visible(self@, role_ids@, roles@, self@.len() as int)),
    {
        let vis = self.visible_commands(role_ids, roles);
        let count = self.len();
        proof {
            lemma_visible_members(self@, role_ids@, roles@, count as int);
            assert forall|j: int| 0 <= j < vis@.len() implies vis@[j] < self@.len() by {
                assert(vis@.contains(vis@[j]));
            }
        }
        let sep = chars_of(": ");
        let nl = chars_of("\n");
        let mut r: Vec<char> = Vec::new();
        let mut k: usize = 0;
        while k < vis.len()
            invariant
                k <= vis@.len(),
                vis@ == visible(self@, role_ids@, roles@, self@.len() as int),
                forall|j: int| 0 <= j < vis@.len() ==> vis@[j] < self@.len(),
                sep@ == ": "@,
                nl@ == "\n"@,
                r@ == menu_text(self@, vis@.subrange(0, k as int)),
            decreases vis@.len() - k,
        {
            let c = self.command(vis[k]);
            append(&mut r, &c.name);
            append(&mut r, &sep);
            append(&mut r, &c.short_help);
            append(&mut r, &nl);
            assert(vis@.subrange(0, k + 1).drop_last() =~= vis@.subrange(0, k as int));
            k = k + 1;
        }
        assert(vis@.subrange(0, vis@.len() as int) =~= vis@);
        r
    }
}

} // verus!
