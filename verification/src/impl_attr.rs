//! `#[env(..)]` on an impl block: each method's body moves to a free function under
//! `#[env(..)]`, and the method itself forwards to it.

use vstd::prelude::*;

use crate::env_attr::{combined_envs, copy_segments, env_names, merge_keeps_every_name, merged_envs, Args, Segment};
use crate::fn_stream::{same_signature_parts, Body, ForwardArg, Stream};
use crate::function_attr::{has_name, is_plan_of, ByEnv, ByEnvPlan};
use crate::naming::{handle_name, handle_name_text, snake_case};
use crate::rewrite::{renamed_block, replaces_receiver, swap_self_block, swap_self_receiver};
use crate::syntax::{copy_pat, fn_args_eq, pat_eq, FnArg, Ty};

verus! {

/// A method of the impl block, with the arguments of its own `env` attribute, if any.
pub struct StreamExt {
    pub fn_args: Option<Args>,
    pub inner: Stream,
}

/// An item of the impl block: a method, or anything else, kept by handle.
pub enum StreamOrPassThru {
    Stream(StreamExt),
    Passthru(u64),
}

/// An attribute of a method: an `env` attribute with its arguments, or any other,
/// kept by handle.
pub enum FnAttr {
    Env(Args),
    Other(u64),
}

/// A method carries more than one `env` attribute.
pub struct MultipleEnvAttrs;

impl MultipleEnvAttrs {
    /// The text of the error.
    pub fn message(&self) -> (res: String)
        ensures
            res@ == "item impls may only have one #[env(..)] specification."@,
    {
        "item impls may only have one #[env(..)] specification.".to_owned()
    }
}

/// Whether an attribute whose path starts with `first_segment` is an `env` attribute.
pub fn is_env_attribute(first_segment: &Option<String>) -> (res: bool)
    ensures
        res == (first_segment matches Some(s) && s@ == "env"@),
{
    match first_segment {
        Some(s) => *s == "env".to_owned(),
        None => false,
    }
}

/// The number of `env` attributes.
pub open spec fn env_attr_count(attrs: Seq<FnAttr>) -> nat
    decreases attrs.len(),
{
    if attrs.len() == 0 {
        0
    } else {
        env_attr_count(attrs.drop_last()) + if attrs.last() is Env { 1nat } else { 0nat }
    }
}

/// The handles of the attributes that are not `env` attributes, in order.
pub open spec fn other_attrs(attrs: Seq<FnAttr>) -> Seq<u64>
    decreases attrs.len(),
{
    if attrs.len() == 0 {
        Seq::empty()
    } else {
        match attrs.last() {
            FnAttr::Other(h) => other_attrs(attrs.drop_last()).push(h),
            FnAttr::Env(_) => other_attrs(attrs.drop_last()),
        }
    }
}

/// The arguments of the first `env` attribute, if any.
pub open spec fn first_env_attr(attrs: Seq<FnAttr>) -> Option<Args>
    decreases attrs.len(),
{
    if attrs.len() == 0 {
        None
    } else {
        match attrs[0] {
            FnAttr::Env(a) => Some(a),
            FnAttr::Other(_) => first_env_attr(attrs.drop_first()),
        }
    }
}

proof fn lemma_first_env_attr_push(attrs: Seq<FnAttr>, a: FnAttr)
    ensures
        first_env_attr(attrs.push(a)) == if first_env_attr(attrs) is Some {
            first_env_attr(attrs)
        } else {
            match a {
                FnAttr::Env(x) => Some(x),
                FnAttr::Other(_) => None,
            }
        },
    decreases attrs.len(),
{
    let pushed = attrs.push(a);
    if attrs.len() > 0 {
        assert(pushed[0] == attrs[0]);
        assert(pushed.drop_first() =~= attrs.drop_first().push(a));
        lemma_first_env_attr_push(attrs.drop_first(), a);
    } else {
        assert(pushed[0] == a);
        assert(pushed.drop_first() =~= Seq::<FnAttr>::empty());
        assert(first_env_attr(Seq::<FnAttr>::empty()) is None);
        assert(first_env_attr(attrs) is None);
    }
}

impl StreamExt {
    /// The names of the environments of the method's own `env` attribute, none when it
    /// has no such attribute.
    pub fn envs_as_str(&self) -> (res: Vec<String>)
        ensures
            self.fn_args matches Some(a) ==> res.deep_view() == env_names(a.deep_view().envs),
            self.fn_args is None ==> res@.len() == 0,
    {
        let mut out: Vec<String> = Vec::new();
        match &self.fn_args {
            Some(a) => {
                let mut i: usize = 0;
                while i < a.envs.len()
                    invariant
                        0 <= i <= a.envs@.len(),
                        out@.len() == i,
                        forall|k: int| 0 <= k < i ==> #[trigger] out@[k]@ == a.envs@[k].name@,
                    decreases a.envs.len() - i,
                {
                    out.push(a.envs[i].name.clone());
                    i += 1;
                }
                assert(out.deep_view() =~= env_names(a.deep_view().envs));
            },
            None => {},
        }
        out
    }

    /// A method with its attributes sorted: its `env` attribute, if any, becomes its
    /// arguments, and the other attributes stay on the method. More than one `env`
    /// attribute is an error.
    #[verifier::loop_isolation(false)]
    pub fn from_fn(attrs: Vec<FnAttr>, inner: Stream) -> (res: Result<StreamExt, MultipleEnvAttrs>)
        ensures
            res is Err <==> env_attr_count(attrs@) > 1,
            res matches Ok(ext) ==> {
                &&& ext.fn_args == first_env_attr(attrs@)
                &&& ext.inner.attrs@ == other_attrs(attrs@)
                &&& same_signature_parts_but_attrs(inner, ext.inner)
            },
    {
        let ghost orig = attrs@;
        let n = attrs.len();
        assert(orig.len() == n);
        let mut rest = attrs;
        let mut env: Option<Args> = None;
        let mut others: Vec<u64> = Vec::new();
        let mut count: usize = 0;
        let mut taken: usize = 0;
        while rest.len() > 0
            invariant
                taken + rest@.len() == orig.len(),
                orig.len() <= usize::MAX,
                rest@ == orig.skip(taken as int),
                count == env_attr_count(orig.take(taken as int)),
                count <= 1,
                others@ == other_attrs(orig.take(taken as int)),
                env == first_env_attr(orig.take(taken as int)),
                (count == 0) == (env is None),
            decreases rest.len(),
        {
            let attr = rest.remove(0);
            proof {
                assert(attr == orig[taken as int]);
                assert(orig.take(taken + 1).drop_last() =~= orig.take(taken as int));
                assert(orig.take(taken + 1) =~= orig.take(taken as int).push(attr));
                lemma_first_env_attr_push(orig.take(taken as int), attr);
            }
            taken += 1;
            match attr {
                FnAttr::Env(a) => {
                    if count == 1 {
                        proof {
                            lemma_env_attr_count_prefix(orig, taken as int);
                        }
                        return Err(MultipleEnvAttrs);
                    }
                    count += 1;
                    env = Some(a);
                },
                FnAttr::Other(h) => {
                    others.push(h);
                },
            }
            assert(rest@ =~= orig.skip(taken as int));
        }
        assert(orig.take(taken as int) =~= orig);
        let mut inner = inner;
        inner.attrs = others;
        Ok(StreamExt { fn_args: env, inner })
    }
}

/// Everything of two functions but their attributes is the same.
pub open spec fn same_signature_parts_but_attrs(a: Stream, b: Stream) -> bool {
    &&& b.vis == a.vis
    &&& b.is_async == a.is_async
    &&& b.generics == a.generics
    &&& b.name == a.name
    &&& b.args == a.args
    &&& b.ret_arrow == a.ret_arrow
    &&& b.ret == a.ret
    &&& b.content == a.content
}

proof fn lemma_env_attr_count_prefix(attrs: Seq<FnAttr>, n: int)
    requires
        0 <= n <= attrs.len(),
    ensures
        env_attr_count(attrs.take(n)) <= env_attr_count(attrs),
    decreases attrs.len() - n,
{
    if n < attrs.len() {
        lemma_env_attr_count_prefix(attrs, n + 1);
        assert(attrs.take(n + 1).drop_last() =~= attrs.take(n));
    } else {
        assert(attrs.take(n) =~= attrs);
    }
}

/// An impl block: its items, attributes, self type (with the text of its tokens),
/// `unsafe`, and generics (kept by handle).
pub struct ImplItems {
    pub items: Vec<StreamOrPassThru>,
    pub attrs: Vec<u64>,
    pub self_ty: Ty,
    pub self_ty_text: String,
    pub unsafety: bool,
    pub generics: u64,
}

/// An impl block under `#[env(..)]`, with the attribute's arguments.
pub struct ByImpl {
    pub args: Args,
    pub stream: ImplItems,
}

/// `b` is the item `a` after merging the impl's arguments `parent` into the arguments
/// of a method that has its own `env` attribute.
pub open spec fn is_merged_item(a: StreamOrPassThru, parent: Args, b: StreamOrPassThru) -> bool {
    match a {
        StreamOrPassThru::Passthru(h) => b == StreamOrPassThru::Passthru(h),
        StreamOrPassThru::Stream(ext) => match b {
            StreamOrPassThru::Stream(e2) => {
                &&& e2.inner == ext.inner
                &&& match ext.fn_args {
                    None => e2.fn_args is None,
                    Some(own) => e2.fn_args matches Some(m) && m.supercede == own.supercede
                        && m.deep_view().envs == merged_envs(own.deep_view(), parent.deep_view()),
                }
            },
            _ => false,
        },
    }
}

/// `res` is the impl block `stream` under the arguments `args`, merged into its methods.
pub open spec fn is_by_impl_of(args: Args, stream: ImplItems, res: ByImpl) -> bool {
    &&& res.args == args
    &&& res.stream.attrs == stream.attrs
    &&& res.stream.self_ty == stream.self_ty
    &&& res.stream.self_ty_text == stream.self_ty_text
    &&& res.stream.unsafety == stream.unsafety
    &&& res.stream.generics == stream.generics
    &&& res.stream.items@.len() == stream.items@.len()
    &&& forall|i: int| 0 <= i < stream.items@.len() ==> #[trigger] is_merged_item(stream.items@[i], args, res.stream.items@[i])
}

impl ByImpl {
    /// An impl block under `#[env(..)]`: the impl's arguments are merged into those of
    /// every method with its own `env` attribute.
    pub fn new(args: Args, stream: ImplItems) -> (res: Self)
        ensures
            is_by_impl_of(args, stream, res),
    {
        let ImplItems { items, attrs, self_ty, self_ty_text, unsafety, generics } = stream;
        let ghost orig = items@;
        let mut rest = items;
        let mut out: Vec<StreamOrPassThru> = Vec::new();
        while rest.len() > 0
            invariant
                out@.len() + rest@.len() == orig.len(),
                rest@ == orig.skip(out@.len() as int),
                forall|k: int| 0 <= k < out@.len() ==> #[trigger] is_merged_item(orig[k], args, out@[k]),
            decreases rest.len(),
        {
            let item = rest.remove(0);
            let ghost k = out@.len() as int;
            assert(item == orig[k]);
            let merged = match item {
                StreamOrPassThru::Passthru(h) => StreamOrPassThru::Passthru(h),
                StreamOrPassThru::Stream(ext) => {
                    let StreamExt { fn_args, inner } = ext;
                    let fn_args = match fn_args {
                        Some(own) => {
                            let mut own = own;
                            own.merge(&args);
                            Some(own)
                        },
                        None => None,
                    };
                    StreamOrPassThru::Stream(StreamExt { fn_args, inner })
                },
            };
            out.push(merged);
            assert(rest@ =~= orig.skip(out@.len() as int));
        }
        ByImpl { args, stream: ImplItems { items: out, attrs, self_ty, self_ty_text, unsafety, generics } }
    }
}

/// The arguments that apply to a method.
pub open spec fn resolved(own: Option<Args>, parent: Args) -> Args {
    match own {
        Some(a) => a,
        None => parent,
    }
}

/// `b` is the free function that holds the body of the method `ext` of an impl block
/// on `self_ty`: named after the self type and the method, with the receiver made an
/// argument `slf` and `self` renamed to `slf` in the body, under the method's arguments.
pub open spec fn is_internal_of(ext: StreamExt, parent: Args, self_ty: Ty, self_ty_text: Seq<char>, b: ByEnv) -> bool {
    let s = ext.inner;
    let t = b.stream;
    &&& b.args.deep_view() == resolved(ext.fn_args, parent).deep_view()
    &&& t.attrs == s.attrs && t.vis == s.vis && t.is_async == s.is_async && t.generics == s.generics
    &&& t.ret_arrow == s.ret_arrow && t.ret == s.ret
    &&& t.name@ == snake_case(handle_name_text(self_ty_text, s.name@))
    &&& if s.args@.len() > 0 && s.args@[0] is Receiver {
        &&& t.args@.len() == s.args@.len()
        &&& t.args@.drop_first() == s.args@.drop_first()
        &&& replaces_receiver(t.args@[0], s.args@[0]->Receiver_0, self_ty)
    } else {
        t.args@ == s.args@
    }
    &&& match s.content {
        Body::Block(x) => t.content matches Body::Block(y) && renamed_block(x, y),
        _ => t.content == s.content,
    }
}

/// What an item of the impl block expands to outside the impl.
pub enum OuterItem {
    /// The free function that holds a method's body, and its expansion.
    Function { internal: ByEnv, plan: ByEnvPlan },
    /// Any other item, as it is.
    Passthru(u64),
}

/// The item can be expanded under the impl's arguments `parent`: a method has at least
/// one environment, and every argument of it has a name that a call can pass on.
pub open spec fn is_expandable(item: StreamOrPassThru, parent: Args) -> bool {
    item matches StreamOrPassThru::Stream(ext) ==> {
        &&& resolved(ext.fn_args, parent).envs@.len() > 0
        &&& forall|j: int| 0 <= j < ext.inner.args@.len() ==> #[trigger] has_name(ext.inner.args@[j])
    }
}

impl StreamOrPassThru {
    /// What the item expands to outside the impl block on `self_ty`, given the impl's
    /// arguments `parent`.
    pub fn outer_to_tokens(self, parent: &Args, self_ty: &Ty, self_ty_text: &String) -> (res: OuterItem)
        requires
            is_expandable(self, *parent),
        ensures
            self matches StreamOrPassThru::Passthru(h) ==> res == OuterItem::Passthru(h),
            self matches StreamOrPassThru::Stream(ext) ==> (res matches OuterItem::Function { internal, plan }
                && is_internal_of(ext, *parent, *self_ty, self_ty_text@, internal) && is_plan_of(internal, plan)),
    {
        match self {
            StreamOrPassThru::Passthru(h) => OuterItem::Passthru(h),
            StreamOrPassThru::Stream(ext) => {
                let ghost orig = ext;
                let StreamExt { fn_args, inner } = ext;
                let args = match &fn_args {
                    Some(own) => own.copy(),
                    None => parent.copy(),
                };
                let mut inner = inner;
                inner.name = handle_name(self_ty_text, &inner.name);
                let ghost args_before = inner.args@;
                swap_self_receiver(self_ty, &mut inner.args);
                proof {
                    if args_before.len() > 0 && args_before[0] is Receiver {
                        assert(inner.args@ =~= seq![inner.args@[0]] + args_before.drop_first());
                    } else {
                        assert(inner.args@ =~= args_before);
                    }
                    assert forall|j: int| 0 <= j < inner.args@.len() implies #[trigger] has_name(inner.args@[j]) by {
                        if j > 0 || !(args_before[0] is Receiver) {
                            assert(inner.args@[j] == args_before[j]);
                        }
                    }
                }
                let content = match inner.content {
                    Body::Block(block) => {
                        let mut block = block;
                        swap_self_block(&mut block);
                        Body::Block(block)
                    },
                    other => other,
                };
                inner.content = content;
                proof {
                    assert(args.envs.deep_view().len() == args.envs@.len());
                    assert(resolved(orig.fn_args, *parent).envs.deep_view().len() == resolved(orig.fn_args, *parent).envs@.len());
                }
                let internal = ByEnv::new(args, inner);
                assert(is_internal_of(orig, *parent, *self_ty, self_ty_text@, internal));
                let plan = internal.plan();
                OuterItem::Function { internal, plan }
            },
        }
    }
}

/// How an argument is passed on: the receiver as `self`, a typed argument as its pattern.
pub open spec fn is_forward_of(arg: FnArg, f: ForwardArg) -> bool {
    match arg {
        FnArg::Receiver(_) => f is SelfValue,
        FnArg::Typed { pat, .. } => f matches ForwardArg::Pattern(p) && pat_eq(pat, p),
    }
}

/// A method of the impl block as it stays in the impl: forwarding to the free function
/// that holds its body, kept through the macro of each of its environments.
pub struct Wrapper {
    pub stream: Stream,
    pub macros: Vec<Vec<Segment>>,
}

/// `w` is the wrapper of the method `ext`.
pub open spec fn is_wrapper_of(ext: StreamExt, parent: Args, self_ty_text: Seq<char>, w: Wrapper) -> bool {
    let s = ext.inner;
    let envs = resolved(ext.fn_args, parent).envs@;
    &&& same_signature_parts(s, w.stream)
    &&& fn_args_eq(s.args@, w.stream.args@)
    &&& w.stream.content matches Body::Forward { target, forwarded } && {
        &&& target@ == snake_case(handle_name_text(self_ty_text, s.name@))
        &&& forwarded@.len() == s.args@.len()
        &&& forall|i: int| 0 <= i < s.args@.len() ==> #[trigger] is_forward_of(s.args@[i], forwarded@[i])
    }
    &&& w.macros@.len() == envs.len()
    &&& forall|i: int| 0 <= i < envs.len() ==> #[trigger] w.macros@[i].deep_view() == envs[i].deep_view().macro_name
}

/// What an impl block under `#[env(..)]` expands to: the outer items, then the impl's
/// attributes and `unsafe impl<generics> self_ty { wrappers }`.
pub struct ByImplPlan {
    pub outer: Vec<OuterItem>,
    /// One entry per item of the impl block: the wrapper of a method, none otherwise.
    pub wrappers: Vec<Option<Wrapper>>,
    pub attrs: Vec<u64>,
    pub unsafety: bool,
    pub generics: u64,
    pub self_ty: Ty,
}

/// How a call passes an argument on.
fn forward_of(arg: &FnArg) -> (res: ForwardArg)
    ensures
        is_forward_of(*arg, res),
{
    match arg {
        FnArg::Receiver(_) => ForwardArg::SelfValue,
        FnArg::Typed { pat, .. } => ForwardArg::Pattern(copy_pat(pat)),
    }
}

/// The wrapper of a method.
fn wrapper_of(ext: &StreamExt, parent: &Args, self_ty_text: &String) -> (res: Wrapper)
    ensures
        is_wrapper_of(*ext, *parent, self_ty_text@, res),
{
    let args = match &ext.fn_args {
        Some(own) => own,
        None => parent,
    };
    let mut stream = ext.inner.copy();
    let mut forwarded: Vec<ForwardArg> = Vec::new();
    let mut i: usize = 0;
    while i < ext.inner.args.len()
        invariant
            0 <= i <= ext.inner.args@.len(),
            forwarded@.len() == i,
            forall|k: int| 0 <= k < i ==> #[trigger] is_forward_of(ext.inner.args@[k], forwarded@[k]),
        decreases ext.inner.args.len() - i,
    {
        forwarded.push(forward_of(&ext.inner.args[i]));
        i += 1;
    }
    let target = handle_name(self_ty_text, &ext.inner.name);
    stream.with_content(Body::Forward { target, forwarded });
    let mut macros: Vec<Vec<Segment>> = Vec::new();
    let mut j: usize = 0;
    while j < args.envs.len()
        invariant
            0 <= j <= args.envs@.len(),
            macros@.len() == j,
            forall|k: int| 0 <= k < j ==> #[trigger] macros@[k].deep_view() == args.envs@[k].deep_view().macro_name,
        decreases args.envs.len() - j,
    {
        let m = &args.envs[j].macro_name;
        let copied = copy_segments(m, 0, m.len());
        assert(m.deep_view().subrange(0, m.len() as int) =~= m.deep_view());
        macros.push(copied);
        j += 1;
    }
    Wrapper { stream, macros }
}

/// `p` is the expansion of `b`.
pub open spec fn is_impl_plan_of(b: ByImpl, p: ByImplPlan) -> bool {
    let items = b.stream.items@;
    &&& p.attrs == b.stream.attrs
    &&& p.unsafety == b.stream.unsafety
    &&& p.generics == b.stream.generics
    &&& p.self_ty == b.stream.self_ty
    &&& p.outer@.len() == items.len()
    &&& p.wrappers@.len() == items.len()
    &&& forall|i: int| 0 <= i < items.len() ==> #[trigger] is_item_plan_of(items[i], b.args, b.stream.self_ty,
        b.stream.self_ty_text@, p.outer@[i], p.wrappers@[i])
}

/// `outer` and `wrapper` are what the item expands to.
pub open spec fn is_item_plan_of(item: StreamOrPassThru, parent: Args, self_ty: Ty, self_ty_text: Seq<char>,
    outer: OuterItem, wrapper: Option<Wrapper>) -> bool {
    match item {
        StreamOrPassThru::Passthru(h) => outer == OuterItem::Passthru(h) && wrapper is None,
        StreamOrPassThru::Stream(ext) => {
            &&& outer matches OuterItem::Function { internal, plan }
                && is_internal_of(ext, parent, self_ty, self_ty_text, internal) && is_plan_of(internal, plan)
            &&& wrapper matches Some(w) && is_wrapper_of(ext, parent, self_ty_text, w)
        },
    }
}

impl ByImpl {
    /// What the impl block expands to.
    pub fn plan(self) -> (res: ByImplPlan)
        requires
            forall|i: int| 0 <= i < self.stream.items@.len() ==> #[trigger] is_expandable(self.stream.items@[i], self.args),
        ensures
            is_impl_plan_of(self, res),
    {
        let ghost orig = self;
        let ByImpl { args, stream } = self;
        let ImplItems { items, attrs, self_ty, self_ty_text, unsafety, generics } = stream;
        let ghost all = items@;
        let mut rest = items;
        let mut outer: Vec<OuterItem> = Vec::new();
        let mut wrappers: Vec<Option<Wrapper>> = Vec::new();
        while rest.len() > 0
            invariant
                outer@.len() == wrappers@.len(),
                outer@.len() + rest@.len() == all.len(),
                rest@ == all.skip(outer@.len() as int),
                forall|k: int| 0 <= k < all.len() ==> #[trigger] is_expandable(all[k], args),
                forall|k: int| 0 <= k < outer@.len() ==> #[trigger] is_item_plan_of(all[k], args, self_ty,
                    self_ty_text@, outer@[k], wrappers@[k]),
            decreases rest.len(),
        {
            let item = rest.remove(0);
            let ghost k = outer@.len() as int;
            assert(item == all[k]);
            let wrapper = match &item {
                StreamOrPassThru::Stream(ext) => Some(wrapper_of(ext, &args, &self_ty_text)),
                StreamOrPassThru::Passthru(_) => None,
            };
            let expanded = item.outer_to_tokens(&args, &self_ty, &self_ty_text);
            outer.push(expanded);
            wrappers.push(wrapper);
            assert(rest@ =~= all.skip(outer@.len() as int));
        }
        ByImplPlan { outer, wrappers, attrs, unsafety, generics, self_ty }
    }
}

/// A method that stays in the impl forwards to the free function that holds its body:
/// the wrapper's call target is that function's name, the wrapper passes on as many
/// arguments as the function takes, and the wrapper exists for exactly the
/// environments that the function does.
pub proof fn wrapper_calls_the_internal_function(item: StreamOrPassThru, parent: Args, self_ty: Ty,
    self_ty_text: Seq<char>, outer: OuterItem, wrapper: Option<Wrapper>)
    requires
        item is Stream,
        is_item_plan_of(item, parent, self_ty, self_ty_text, outer, wrapper),
    ensures
        outer matches OuterItem::Function { internal, .. } && wrapper matches Some(w)
            && w.stream.content matches Body::Forward { target, forwarded } && {
            &&& target@ == internal.stream.name@
            &&& forwarded@.len() == internal.stream.args@.len()
            &&& w.macros@.len() == internal.args.envs@.len()
        },
{
    let ext = item->Stream_0;
    let internal = outer->Function_internal;
    let r = resolved(ext.fn_args, parent);
    assert(internal.args.envs.deep_view().len() == internal.args.envs@.len());
    assert(r.envs.deep_view().len() == r.envs@.len());
}

/// A method with its own `env` attribute is expanded under its own environments, merged
/// with the impl's: the free function that holds its body is planned for exactly the
/// merged environments (so every environment the method names is among them), and the
/// wrapper left in the impl is kept through the macro of each of them, in the same
/// order. A method without its own attribute is expanded under the impl's arguments.
pub proof fn methods_are_expanded_under_their_own_environments(args: Args, stream: ImplItems, b: ByImpl,
    p: ByImplPlan, i: int)
    requires
        is_by_impl_of(args, stream, b),
        is_impl_plan_of(b, p),
        0 <= i < stream.items@.len(),
        stream.items@[i] is Stream,
    ensures
        p.outer@[i] matches OuterItem::Function { internal, .. } && p.wrappers@[i] matches Some(w) && {
            let envs = internal.args.deep_view().envs;
            &&& w.macros@.len() == envs.len()
            &&& forall|k: int| 0 <= k < envs.len() ==> #[trigger] w.macros@[k].deep_view() == envs[k].macro_name
            &&& match stream.items@[i]->Stream_0.fn_args {
                Some(own) => {
                    &&& envs == merged_envs(own.deep_view(), args.deep_view())
                    &&& internal.args.supercede == own.supercede
                    &&& !args.supercede ==> forall|k: int| 0 <= k < own.envs@.len() ==>
                        env_names(envs).contains(#[trigger] own.deep_view().envs[k].name)
                },
                None => internal.args.deep_view() == args.deep_view(),
            }
        },
{
    let item = b.stream.items@[i];
    assert(is_merged_item(stream.items@[i], args, item));
    assert(is_item_plan_of(item, args, b.stream.self_ty, b.stream.self_ty_text@, p.outer@[i], p.wrappers@[i]));
    let ext = item->Stream_0;
    let internal = p.outer@[i]->Function_internal;
    let r = resolved(ext.fn_args, args);
    assert(internal.args.envs.deep_view().len() == internal.args.envs@.len());
    assert(r.envs.deep_view().len() == r.envs@.len());
    let w = p.wrappers@[i]->Some_0;
    assert forall|k: int| 0 <= k < internal.args.deep_view().envs.len() implies
        #[trigger] w.macros@[k].deep_view() == internal.args.deep_view().envs[k].macro_name by {
        assert(r.envs.deep_view()[k] == r.envs@[k].deep_view());
        assert(internal.args.deep_view().envs[k] == r.deep_view().envs[k]);
    }
    match stream.items@[i]->Stream_0.fn_args {
        Some(own) => {
            let ov = own.deep_view();
            let av = args.deep_view();
            merge_keeps_every_name(ov, av);
            if !args.supercede {
                assert forall|k: int| 0 <= k < own.envs@.len() implies
                    env_names(merged_envs(ov, av)).contains(#[trigger] own.deep_view().envs[k].name) by {
                    assert(ov.envs.len() == own.envs@.len());
                    assert(combined_envs(ov, av)[k] == ov.envs[k]);
                }
            }
        },
        None => {},
    }
}

} // verus!
