//! `#[env(..)]` on a free function: one implementation per group of environments.

use vstd::prelude::*;

use crate::env_attr::{copy_segments, Args, Env, EnvView, Segment};
use crate::fn_stream::{body_eq, copy_strings, same_signature_parts, Body, Stream, Vis};
use crate::syntax::{fn_args_eq, FnArg, Pat, Receiver};

verus! {

/// Whether the argument has a name that a call can pass on: a receiver, or a
/// typed argument whose pattern is an identifier.
pub open spec fn has_name(arg: FnArg) -> bool {
    match arg {
        FnArg::Receiver(_) => true,
        FnArg::Typed { pat, .. } => pat is Ident,
    }
}

/// Whether a call can pass the argument on by name.
pub fn is_nameable(arg: &FnArg) -> (res: bool)
    ensures
        res == has_name(*arg),
{
    match arg {
        FnArg::Receiver(_) => true,
        FnArg::Typed { pat, .. } => match pat {
            Pat::Ident { .. } => true,
            _ => false,
        },
    }
}

/// The name by which a call passes the argument on: `self` for a receiver, the
/// identifier otherwise.
pub open spec fn arg_name(arg: FnArg) -> Seq<char> {
    match arg {
        FnArg::Receiver(_) => "self"@,
        FnArg::Typed { pat, .. } => pat->Ident_ident@,
    }
}

/// The name by which a call passes the argument on.
pub fn name_of_arg(arg: &FnArg) -> (res: String)
    requires
        has_name(*arg),
    ensures
        res@ == arg_name(*arg),
{
    match arg {
        FnArg::Receiver(_) => "self".to_owned(),
        FnArg::Typed { pat, .. } => match pat {
            Pat::Ident { ident, .. } => ident.clone(),
            _ => "self".to_owned(),
        },
    }
}

/// A function under `#[env(..)]`, with the attribute's arguments.
pub struct ByEnv {
    pub args: Args,
    pub stream: Stream,
}

impl ByEnv {
    pub fn new(args: Args, stream: Stream) -> (res: Self)
        ensures
            res.args == args,
            res.stream == stream,
    {
        ByEnv { args, stream }
    }
}

/// Where the items for one environment go.
pub struct EnvTarget {
    /// The unit struct of the environment, which gets the function as a member.
    pub env_as_holder: Vec<Segment>,
    /// The macro that keeps an item only for this environment.
    pub macro_name: Vec<Segment>,
    /// The macro that keeps an item for every other environment.
    pub nonp_macro_name: Vec<Segment>,
    /// The enum of environments, which gets the dispatching method.
    pub env: Vec<Segment>,
}

/// What a function under `#[env(..)]` expands to. For each target environment:
/// `member` inside `impl holder` (through the environment's other macro, marked cold,
/// and through its own macro, marked inline), `dispatcher` inside `impl env` and
/// `context_fn` at the place of the function, both through the environment's own macro.
pub struct ByEnvPlan {
    /// The function, public, as a member of an environment's unit struct.
    pub member: Stream,
    /// The function as a method of the environment enum, dispatching on `self`.
    pub dispatcher: Stream,
    /// The function in place, calling through the environment of the current context.
    pub context_fn: Stream,
    pub targets: Vec<EnvTarget>,
}

/// The names of the arguments.
pub open spec fn arg_names(args: Seq<FnArg>) -> Seq<Seq<char>> {
    args.map_values(|a: FnArg| arg_name(a))
}

/// The target of one environment.
pub open spec fn target_of(t: EnvTarget, e: EnvView) -> bool {
    &&& t.env_as_holder.deep_view() == e.env_as_holder
    &&& t.macro_name.deep_view() == e.macro_name
    &&& t.nonp_macro_name.deep_view() == e.nonp_macro_name
    &&& t.env.deep_view() == e.env
}

/// The receiver `&self`.
pub open spec fn is_ref_self(arg: FnArg) -> bool {
    arg matches FnArg::Receiver(r) && r.attrs@.len() == 0 && r.reference == Some(None::<String>)
        && !r.mutable && r.explicit_ty is None
}

/// `plan` is the expansion of `by_env`.
pub open spec fn is_plan_of(by_env: ByEnv, plan: ByEnvPlan) -> bool {
    let s = by_env.stream;
    let names = arg_names(s.args@);
    let first = by_env.args.envs@[0].deep_view();
    &&& plan.member.vis == Some(Vis::Public)
    &&& plan.member.attrs@ == s.attrs@ && plan.member.is_async == s.is_async && plan.member.generics == s.generics
    &&& plan.member.name@ == s.name@ && plan.member.ret_arrow == s.ret_arrow && plan.member.ret == s.ret
    &&& fn_args_eq(s.args@, plan.member.args@) && body_eq(s.content, plan.member.content)
    &&& same_signature_parts(s, plan.context_fn) && fn_args_eq(s.args@, plan.context_fn.args@)
    &&& plan.context_fn.content matches Body::InContext { env, name, args }
        && env.deep_view() == first.env && name@ == s.name@ && args.deep_view() == names
    &&& same_signature_parts(s, plan.dispatcher)
    &&& plan.dispatcher.args@.len() == s.args@.len() + 1 && is_ref_self(plan.dispatcher.args@[0])
    &&& fn_args_eq(s.args@, plan.dispatcher.args@.drop_first())
    &&& plan.dispatcher.content matches Body::MatchEnv { name, args } && name@ == s.name@ && args.deep_view() == names
    &&& plan.targets@.len() == by_env.args.envs@.len()
    &&& forall|i: int| 0 <= i < plan.targets@.len() ==> #[trigger] target_of(plan.targets@[i], by_env.args.envs@[i].deep_view())
}

/// The names by which a call passes the arguments on.
fn names_of_args(args: &Vec<FnArg>) -> (res: Vec<String>)
    requires
        forall|i: int| 0 <= i < args@.len() ==> #[trigger] has_name(args@[i]),
    ensures
        res.deep_view() == arg_names(args@),
{
    let mut out: Vec<String> = Vec::new();
    let mut i: usize = 0;
    while i < args.len()
        invariant
            0 <= i <= args.len(),
            forall|k: int| 0 <= k < args@.len() ==> #[trigger] has_name(args@[k]),
            out@.len() == i,
            forall|k: int| 0 <= k < i ==> #[trigger] out@[k]@ == arg_name(args@[k]),
        decreases args.len() - i,
    {
        out.push(name_of_arg(&args[i]));
        i += 1;
    }
    assert(out.deep_view() =~= arg_names(args@));
    out
}

/// A copy of a path.
fn copy_path(path: &Vec<Segment>) -> (res: Vec<Segment>)
    ensures
        res.deep_view() == path.deep_view(),
{
    let res = copy_segments(path, 0, path.len());
    assert(path.deep_view().subrange(0, path.len() as int) =~= path.deep_view());
    res
}

/// The target of one environment.
fn target(env: &Env) -> (res: EnvTarget)
    ensures
        target_of(res, env.deep_view()),
{
    EnvTarget {
        env_as_holder: copy_path(&env.env_as_holder),
        macro_name: copy_path(&env.macro_name),
        nonp_macro_name: copy_path(&env.nonp_macro_name),
        env: copy_path(&env.env),
    }
}

impl ByEnv {
    /// What the function expands to.
    pub fn plan(&self) -> (res: ByEnvPlan)
        requires
            self.args.envs@.len() > 0,
            forall|i: int| 0 <= i < self.stream.args@.len() ==> #[trigger] has_name(self.stream.args@[i]),
        ensures
            is_plan_of(*self, res),
    {
        let fname = &self.stream.name;
        let env = copy_path(&self.args.envs[0].env);
        let names = names_of_args(&self.stream.args);

        let mut member = self.stream.copy();
        member.with_vis(Vis::Public);

        let mut context_fn = self.stream.copy();
        context_fn.with_content(Body::InContext { env, name: fname.clone(), args: copy_strings(&names) });

        let self_ref = FnArg::Receiver(Receiver {
            attrs: Vec::new(),
            reference: Some(None),
            mutable: false,
            explicit_ty: None,
        });
        let mut dispatcher = self.stream.with_injected(vec![self_ref]);
        dispatcher.with_content(Body::MatchEnv { name: fname.clone(), args: names });

        let mut targets: Vec<EnvTarget> = Vec::new();
        let mut i: usize = 0;
        while i < self.args.envs.len()
            invariant
                0 <= i <= self.args.envs@.len(),
                targets@.len() == i,
                forall|k: int| 0 <= k < i ==> #[trigger] target_of(targets@[k], self.args.envs@[k].deep_view()),
            decreases self.args.envs.len() - i,
        {
            targets.push(target(&self.args.envs[i]));
            i += 1;
        }
        proof {
            assert(dispatcher.args@.drop_first() =~= dispatcher.args@.skip(1));
        }
        ByEnvPlan { member, dispatcher, context_fn, targets }
    }
}

/// In an expansion, the member, the dispatcher and the context call all carry the
/// function's name, and the dispatcher and the context call both call that name with
/// the names of the function's own arguments.
pub proof fn plan_calls_the_member(by_env: ByEnv, plan: ByEnvPlan)
    requires
        is_plan_of(by_env, plan),
    ensures
        plan.member.name@ == plan.dispatcher.name@,
        plan.member.name@ == plan.context_fn.name@,
        plan.dispatcher.content matches Body::MatchEnv { name, args } && name@ == plan.member.name@
            && args.deep_view() == arg_names(by_env.stream.args@),
        plan.context_fn.content matches Body::InContext { name, args, .. } && name@ == plan.member.name@
            && args.deep_view() == arg_names(by_env.stream.args@),
        plan.dispatcher.args@.len() == plan.member.args@.len() + 1,
{
}

/// Only the member on an environment's unit struct is made public: the dispatcher on
/// the enum and the function left in place keep the function's own visibility (a
/// private function stays private), and all three keep its attributes, `async`,
/// generics and return type.
pub proof fn only_the_member_is_made_public(by_env: ByEnv, plan: ByEnvPlan)
    requires
        is_plan_of(by_env, plan),
    ensures
        plan.member.vis == Some(Vis::Public),
        plan.dispatcher.vis == by_env.stream.vis,
        plan.context_fn.vis == by_env.stream.vis,
        plan.dispatcher.attrs@ == by_env.stream.attrs@ && plan.context_fn.attrs@ == by_env.stream.attrs@,
        plan.dispatcher.is_async == by_env.stream.is_async && plan.context_fn.is_async == by_env.stream.is_async,
        plan.dispatcher.generics == by_env.stream.generics && plan.context_fn.generics == by_env.stream.generics,
        plan.dispatcher.ret == by_env.stream.ret && plan.context_fn.ret == by_env.stream.ret,
{
}

} // verus!
