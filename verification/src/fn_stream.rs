//! A function item as the attribute handlers see it.

use vstd::prelude::*;

use crate::env_attr::{copy_segments, Segment};
use crate::syntax::{block_eq, copy_block, copy_fn_args, copy_handles, copy_pat, fn_args_eq, pat_eq, Block, FnArg, Pat};

verus! {

/// The visibility of a function.
#[derive(Clone, Copy, PartialEq, Eq, Structural)]
pub enum Vis {
    /// `pub`.
    Public,
    /// Any other written visibility, such as `pub(crate)`, kept by handle.
    Other(u64),
}

/// An argument forwarded from a wrapper method to the function that holds its body.
pub enum ForwardArg {
    /// The receiver, forwarded as `self`.
    SelfValue,
    /// A typed argument, forwarded as its pattern.
    Pattern(Pat),
}

/// The body of a function.
pub enum Body {
    /// A written block.
    Block(Block),
    /// Dispatch on the environment value `self` to the environment's own function:
    /// `{ let this = &self; __match_env!{ this -> name(args) } }`, with `async` before
    /// `this` when the function is async.
    MatchEnv { name: String, args: Vec<String> },
    /// A call on the environment of the current context:
    /// `{ by_env::in_context::<env, _, _>(|ctx| ctx.name(args)) }`, through
    /// `in_async_context` and with `.await` when the function is async.
    InContext { env: Vec<Segment>, name: String, args: Vec<String> },
    /// A call of another function with the same arguments: `{ target(args) }`, with
    /// `.await` when the function is async.
    Forward { target: String, forwarded: Vec<ForwardArg> },
}

/// A function: attributes, visibility, `async`, name, generics, arguments, return type
/// and body. Attributes, generics and the return type are kept by handle.
pub struct Stream {
    pub attrs: Vec<u64>,
    pub vis: Option<Vis>,
    pub is_async: bool,
    pub generics: Option<u64>,
    pub name: String,
    pub args: Vec<FnArg>,
    pub ret_arrow: bool,
    pub ret: Option<u64>,
    pub content: Body,
}

/// Two forwarded arguments are the same, up to the identity of their strings.
pub open spec fn forward_arg_eq(a: ForwardArg, b: ForwardArg) -> bool {
    match a {
        ForwardArg::SelfValue => b is SelfValue,
        ForwardArg::Pattern(p) => b matches ForwardArg::Pattern(p2) && pat_eq(p, p2),
    }
}

/// Two bodies are the same, up to the identity of their strings.
pub open spec fn body_eq(a: Body, b: Body) -> bool {
    match a {
        Body::Block(x) => b matches Body::Block(y) && block_eq(x, y),
        Body::MatchEnv { name, args } => match b {
            Body::MatchEnv { name: n2, args: a2 } => n2@ == name@ && a2.deep_view() == args.deep_view(),
            _ => false,
        },
        Body::InContext { env, name, args } => match b {
            Body::InContext { env: e2, name: n2, args: a2 } =>
                e2.deep_view() == env.deep_view() && n2@ == name@ && a2.deep_view() == args.deep_view(),
            _ => false,
        },
        Body::Forward { target, forwarded } => match b {
            Body::Forward { target: t2, forwarded: a2 } => t2@ == target@ && a2@.len() == forwarded@.len() && forall|i: int|
                0 <= i < forwarded@.len() ==> #[trigger] forward_arg_eq(forwarded@[i], a2@[i]),
            _ => false,
        },
    }
}

/// Everything of two functions but their arguments and body is the same.
pub open spec fn same_signature_parts(a: Stream, b: Stream) -> bool {
    &&& b.attrs@ == a.attrs@
    &&& b.vis == a.vis
    &&& b.is_async == a.is_async
    &&& b.generics == a.generics
    &&& b.name@ == a.name@
    &&& b.ret_arrow == a.ret_arrow
    &&& b.ret == a.ret
}

/// Two functions are the same, up to the identity of their strings.
pub open spec fn stream_eq(a: Stream, b: Stream) -> bool {
    same_signature_parts(a, b) && fn_args_eq(a.args@, b.args@) && body_eq(a.content, b.content)
}

/// A copy of a list of strings.
pub fn copy_strings(v: &Vec<String>) -> (res: Vec<String>)
    ensures
        res.deep_view() == v.deep_view(),
{
    let mut out: Vec<String> = Vec::new();
    let mut i: usize = 0;
    while i < v.len()
        invariant
            0 <= i <= v.len(),
            out@.len() == i,
            forall|k: int| 0 <= k < i ==> #[trigger] out@[k]@ == v@[k]@,
        decreases v.len() - i,
    {
        out.push(v[i].clone());
        i += 1;
    }
    assert(out.deep_view() =~= v.deep_view());
    out
}

/// A copy of a forwarded argument.
pub fn copy_forward_arg(a: &ForwardArg) -> (res: ForwardArg)
    ensures
        forward_arg_eq(*a, res),
{
    match a {
        ForwardArg::SelfValue => ForwardArg::SelfValue,
        ForwardArg::Pattern(p) => ForwardArg::Pattern(copy_pat(p)),
    }
}

/// A copy of a body.
pub fn copy_body(b: &Body) -> (res: Body)
    ensures
        body_eq(*b, res),
{
    match b {
        Body::Block(x) => Body::Block(copy_block(x)),
        Body::MatchEnv { name, args } => Body::MatchEnv { name: name.clone(), args: copy_strings(args) },
        Body::InContext { env, name, args } => {
            let copied = copy_segments(env, 0, env.len());
            assert(env.deep_view().subrange(0, env.len() as int) =~= env.deep_view());
            Body::InContext { env: copied, name: name.clone(), args: copy_strings(args) }
        },
        Body::Forward { target, forwarded: args } => {
            let mut out: Vec<ForwardArg> = Vec::new();
            let mut i: usize = 0;
            while i < args.len()
                invariant
                    0 <= i <= args.len(),
                    out@.len() == i,
                    forall|k: int| 0 <= k < i ==> #[trigger] forward_arg_eq(args@[k], out@[k]),
                decreases args.len() - i,
            {
                out.push(copy_forward_arg(&args[i]));
                i += 1;
            }
            Body::Forward { target: target.clone(), forwarded: out }
        },
    }
}

impl Stream {
    /// A copy of this function.
    pub fn copy(&self) -> (res: Stream)
        ensures
            stream_eq(*self, res),
    {
        Stream {
            attrs: copy_handles(&self.attrs),
            vis: self.vis,
            is_async: self.is_async,
            generics: self.generics,
            name: self.name.clone(),
            args: copy_fn_args(&self.args),
            ret_arrow: self.ret_arrow,
            ret: self.ret,
            content: copy_body(&self.content),
        }
    }

    /// A copy of this function with `inject` put before its arguments, in order.
    pub fn with_injected(&self, inject: Vec<FnArg>) -> (res: Stream)
        ensures
            same_signature_parts(*self, res),
            body_eq(self.content, res.content),
            res.args@.len() == inject@.len() + self.args@.len(),
            res.args@.take(inject@.len() as int) == inject@,
            fn_args_eq(self.args@, res.args@.skip(inject@.len() as int)),
    {
        let mut out = self.copy();
        let mut args = inject;
        let ghost injected = args@;
        let ghost copied = out.args@;
        args.append(&mut out.args);
        assert(args@.take(injected.len() as int) =~= injected);
        assert(args@.skip(injected.len() as int) =~= copied);
        out.args = args;
        out
    }

    /// Replaces the body of this function.
    pub fn with_content(&mut self, content: Body)
        ensures
            final(self).content == content,
            same_signature_parts(*old(self), *final(self)),
            final(self).args == old(self).args,
    {
        self.content = content;
    }

    /// Replaces the visibility of this function.
    pub fn with_vis(&mut self, vis: Vis)
        ensures
            final(self).vis == Some(vis),
            final(self).attrs == old(self).attrs,
            final(self).is_async == old(self).is_async,
            final(self).generics == old(self).generics,
            final(self).name == old(self).name,
            final(self).args == old(self).args,
            final(self).ret_arrow == old(self).ret_arrow,
            final(self).ret == old(self).ret,
            final(self).content == old(self).content,
    {
        self.vis = Some(vis);
    }
}

} // verus!
