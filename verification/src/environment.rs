//! Commands to be launched, and the changes that they make to the environment they inherit.

use crate::text::{pairs, texts};
use vstd::prelude::*;

verus! {

/// One change to the environment of a command.
#[derive(Debug, PartialEq, Eq)]
pub enum EnvOp {
    Assign(String, String),
    Remove(String),
}

/// One change to the environment of a command, mathematically.
pub enum EnvOpView {
    Assign(Seq<char>, Seq<char>),
    Remove(Seq<char>),
}

impl View for EnvOp {
    type V = EnvOpView;

    open spec fn view(&self) -> EnvOpView {
        match *self {
            EnvOp::Assign(name, value) => EnvOpView::Assign(name@, value@),
            EnvOp::Remove(name) => EnvOpView::Remove(name@),
        }
    }
}

impl EnvOpView {
    /// The variable that is changed.
    pub open spec fn name(self) -> Seq<char> {
        match self {
            EnvOpView::Assign(name, _) => name,
            EnvOpView::Remove(name) => name,
        }
    }
}

/// A command to be launched.
#[derive(Debug, PartialEq, Eq)]
pub struct CommandPlan {
    pub program: String,
    pub args: Vec<String>,
    pub cwd: String,
    /// The changes to the inherited environment, to be made in this order.
    pub env: Vec<EnvOp>,
}

/// A command to be launched, mathematically.
pub struct CommandView {
    pub program: Seq<char>,
    pub args: Seq<Seq<char>>,
    pub cwd: Seq<char>,
    pub env: Seq<EnvOpView>,
}

impl View for CommandPlan {
    type V = CommandView;

    open spec fn view(&self) -> CommandView {
        CommandView {
            program: self.program@,
            args: texts(self.args@),
            cwd: self.cwd@,
            env: changes(self.env@),
        }
    }
}

/// A run of changes, in order.
pub open spec fn changes(list: Seq<EnvOp>) -> Seq<EnvOpView> {
    Seq::new(list.len(), |i: int| list[i]@)
}

/// The changes that set each variable of a list, in order.
pub open spec fn settings(list: Seq<(Seq<char>, Seq<char>)>) -> Seq<EnvOpView> {
    Seq::new(list.len(), |i: int| EnvOpView::Assign(list[i].0, list[i].1))
}

/// An environment after a run of changes.
pub open spec fn env_after(
    base: Map<Seq<char>, Seq<char>>,
    ops: Seq<EnvOpView>,
) -> Map<Seq<char>, Seq<char>>
    decreases ops.len(),
{
    if ops.len() == 0 {
        base
    } else {
        let before = env_after(base, ops.drop_last());
        match ops.last() {
            EnvOpView::Assign(name, value) => before.insert(name, value),
            EnvOpView::Remove(name) => before.remove(name),
        }
    }
}

/// Making two runs of changes one after the other is making them all.
pub proof fn env_after_concat(
    base: Map<Seq<char>, Seq<char>>,
    first: Seq<EnvOpView>,
    second: Seq<EnvOpView>,
)
    ensures
        env_after(base, first + second) == env_after(env_after(base, first), second),
    decreases second.len(),
{
    if second.len() == 0 {
        assert(first + second =~= first);
    } else {
        env_after_concat(base, first, second.drop_last());
        assert((first + second).drop_last() =~= first + second.drop_last());
    }
}

/// A variable that a run of changes does not name keeps its value.
pub proof fn env_keeps_others(
    base: Map<Seq<char>, Seq<char>>,
    ops: Seq<EnvOpView>,
    name: Seq<char>,
)
    requires
        forall|i: int| 0 <= i < ops.len() ==> (#[trigger] ops[i]).name() != name,
    ensures
        env_after(base, ops).contains_key(name) == base.contains_key(name),
        base.contains_key(name) ==> env_after(base, ops)[name] == base[name],
    decreases ops.len(),
{
    if ops.len() > 0 {
        assert(ops.last().name() != name);
        assert forall|i: int| 0 <= i < ops.drop_last().len() implies (
        #[trigger] ops.drop_last()[i]).name() != name by {
            assert(ops.drop_last()[i] == ops[i]);
        }
        env_keeps_others(base, ops.drop_last(), name);
    }
}

/// The last change that names a variable decides what becomes of it.
pub proof fn env_last_change_wins(
    base: Map<Seq<char>, Seq<char>>,
    ops: Seq<EnvOpView>,
    at: int,
)
    requires
        0 <= at < ops.len(),
        forall|i: int| at < i < ops.len() ==> (#[trigger] ops[i]).name() != ops[at].name(),
    ensures
        match ops[at] {
            EnvOpView::Assign(name, value) => env_after(base, ops).contains_key(name) && env_after(
                base,
                ops,
            )[name] == value,
            EnvOpView::Remove(name) => !env_after(base, ops).contains_key(name),
        },
{
    let first = ops.take(at + 1);
    let second = ops.skip(at + 1);
    assert(first + second =~= ops);
    env_after_concat(base, first, second);
    assert(first.last() == ops[at]);
    assert forall|i: int| 0 <= i < second.len() implies (#[trigger] second[i]).name()
        != ops[at].name() by {
        assert(second[i] == ops[at + 1 + i]);
    }
    env_keeps_others(env_after(base, first), second, ops[at].name());
}

/// Appends to a run of changes those that set each variable of a list.
pub fn set_all(ops: &mut Vec<EnvOp>, list: &Vec<(String, String)>)
    ensures
        changes(final(ops)@) == changes(old(ops)@) + settings(pairs(list@)),
{
    let ghost before = changes(ops@);
    let ghost wanted = settings(pairs(list@));
    let mut i: usize = 0;
    assert(before + wanted.take(0) =~= before);
    while i < list.len()
        invariant
            i <= list@.len(),
            wanted == settings(pairs(list@)),
            changes(ops@) == before + wanted.take(i as int),
        decreases list@.len() - i,
    {
        let ghost so_far = ops@;
        ops.push(EnvOp::Assign(list[i].0.clone(), list[i].1.clone()));
        assert(changes(ops@) =~= changes(so_far).push(wanted[i as int]));
        assert(before + wanted.take(i + 1) =~= (before + wanted.take(i as int)).push(
            wanted[i as int],
        ));
        i += 1;
    }
    assert(wanted.take(list@.len() as int) =~= wanted);
}

// ---------------------------------------------------------------------------
// Laws
// ---------------------------------------------------------------------------

/// The value of a variable, where it is set.
pub open spec fn value_of(
    env: Map<Seq<char>, Seq<char>>,
    name: Seq<char>,
) -> Option<Seq<char>> {
    if env.contains_key(name) {
        Some(env[name])
    } else {
        None
    }
}

/// The value that a list gives a variable: that of the last pair with its name.
pub open spec fn value_in(
    list: Seq<(Seq<char>, Seq<char>)>,
    name: Seq<char>,
) -> Option<Seq<char>>
    decreases list.len(),
{
    if list.len() == 0 {
        None
    } else if list.last().0 == name {
        Some(list.last().1)
    } else {
        value_in(list.drop_last(), name)
    }
}

/// After the variables of a list are set, each variable has the value that the list gives it, and
/// the one that was inherited where it gives none.
pub proof fn settings_give_their_values(
    base: Map<Seq<char>, Seq<char>>,
    list: Seq<(Seq<char>, Seq<char>)>,
    name: Seq<char>,
)
    ensures
        value_of(env_after(base, settings(list)), name) == match value_in(list, name) {
            Some(value) => Some(value),
            None => value_of(base, name),
        },
    decreases list.len(),
{
    if list.len() > 0 {
        settings_give_their_values(base, list.drop_last(), name);
        assert(settings(list).drop_last() =~= settings(list.drop_last()));
    }
}

/// What a command is planned to be is what its parts say, item by item.
pub proof fn plans_are_taken_literally(plan: CommandPlan)
    ensures
        plan@.program == plan.program@,
        plan@.cwd == plan.cwd@,
        plan@.args.len() == plan.args@.len(),
        forall|i: int| 0 <= i < plan.args@.len() ==> #[trigger] plan@.args[i] == plan.args@[i]@,
        plan@.env.len() == plan.env@.len(),
        forall|i: int|
            0 <= i < plan.env@.len() ==> #[trigger] plan@.env[i] == match plan.env@[i] {
                EnvOp::Assign(name, value) => EnvOpView::Assign(name@, value@),
                EnvOp::Remove(name) => EnvOpView::Remove(name@),
            },
{
}

} // verus!
